//! What the sections of the linked program do to the image: the hook
//! sections are copied to their addresses, the loader code and the custom
//! text are placed, and the trampolines are built.

use vstd::prelude::*;

use super::elf::{sections_view, ElfSection, ElfSectionView};
use super::error::{FatalError, FatalErrorView};
use super::patch::{low_word, low_word_of};
use super::prepost::{entries_view, PrePostEntry, PrePostEntryView};
use super::trampoline::{emit_trampoline, trampoline_step};
use crate::exheader::{page_ceiling, round_to_page, Layout};
use crate::hook::error::WriterError;
use crate::hook::info::HookInfo;
use crate::hook::writer::{HookWriter, HookWriterView};
use crate::text::{chars_of, has_prefix, starts_with, str_eq};

verus! {

/// Where, in the list of sections, the loader code and the custom text
/// stand: the last section of either name, if there is one.
#[derive(Debug, PartialEq, Eq, Clone, Copy, Structural)]
pub struct CodeSections {
    pub loader: Option<usize>,
    pub text: Option<usize>,
}

/// The name of the section that holds the loader code.
pub open spec fn loader_section_name() -> Seq<char> {
    ".mw_loader_text"@
}

/// The name of the section that holds the custom text.
pub open spec fn text_section_name() -> Seq<char> {
    ".text"@
}

/// What the section at `index` does: the loader code and the custom text
/// are noted for later; a section whose name has the hook prefix is copied
/// to its address; any other section, and one without a name, is passed
/// over.  The address of a section is taken by its low 32 bits.
pub open spec fn section_step(
    w: HookWriterView,
    found: CodeSections,
    section: ElfSectionView,
    index: usize,
) -> Result<(HookWriterView, CodeSections), FatalErrorView> {
    match section.name {
        None => Ok((w, found)),
        Some(name) => if name == loader_section_name() {
            Ok((w, CodeSections { loader: Some(index), ..found }))
        } else if name == text_section_name() {
            Ok((w, CodeSections { text: Some(index), ..found }))
        } else if !has_prefix(name, HookInfo::SECTION_PREFIX@) {
            Ok((w, found))
        } else {
            match section.data {
                None => Err(FatalErrorView::SectionDataUnreadable(name)),
                Some(data) => match w.write_outcome(low_word(section.address as int), data) {
                    Err(e) => Err(FatalErrorView::SectionWrite(name, e)),
                    Ok(()) => Ok((w.written(low_word(section.address as int), data), found)),
                },
            }
        }
    }
}

/// What the sections from `index` on do, one after the other.
pub open spec fn sections_step(
    w: HookWriterView,
    found: CodeSections,
    sections: Seq<ElfSectionView>,
    index: int,
) -> Result<(HookWriterView, CodeSections), FatalErrorView>
    decreases sections.len() - index,
{
    if index < 0 || index >= sections.len() {
        Ok((w, found))
    } else {
        match section_step(w, found, sections[index], index as usize) {
            Err(e) => Err(e),
            Ok((w2, found2)) => sections_step(w2, found2, sections, index + 1),
        }
    }
}

/// The image with the loader code in it.  The loader cursor is set behind
/// the section as it was linked, and the bytes of the section go to the
/// loader address; a section that takes more room than the arena has is
/// refused.  Without a loader section the image stays as it is.
pub open spec fn loader_step(w: HookWriterView, section: Option<ElfSectionView>, layout: Layout) -> Result<
    HookWriterView,
    FatalErrorView,
> {
    match section {
        None => Ok(w),
        Some(s) => {
            let size = low_word(s.size as int);
            let end = low_word(s.address as int) + size;
            let armed = HookWriterView { loader_extra_address: Some(end as u32), ..w };
            if end > u32::MAX {
                Err(FatalErrorView::LoaderTooLarge(size, layout.loader_max_size))
            } else if size > layout.loader_max_size {
                Err(FatalErrorView::LoaderTooLarge(size, layout.loader_max_size))
            } else {
                match s.data {
                    None => Err(FatalErrorView::LoaderDataUnreadable),
                    Some(data) => match armed.write_outcome(layout.loader_address, data) {
                        Err(e) => Err(FatalErrorView::LoaderWrite(e)),
                        Ok(()) => Ok(armed.written(layout.loader_address, data)),
                    },
                }
            }
        },
    }
}

/// The image with the custom text in it: the image is made to end on the
/// page boundary behind the text, and the bytes of the section go to the
/// custom text address.  A program without custom text is refused.
pub open spec fn text_step(w: HookWriterView, section: Option<ElfSectionView>, layout: Layout) -> Result<
    HookWriterView,
    FatalErrorView,
> {
    match section {
        None => Err(FatalErrorView::NoCustomText),
        Some(s) => match s.data {
            None => Err(FatalErrorView::CustomTextDataUnreadable),
            Some(data) => {
                let end = page_ceiling(layout.custom_text_address + low_word(s.size as int));
                if end > u32::MAX {
                    Err(FatalErrorView::CustomTextTooLarge)
                } else if end < w.base_address {
                    Err(
                        FatalErrorView::CustomTextResize(
                            WriterError::ResizeBelowBaseAddress(end as u32),
                        ),
                    )
                } else {
                    match w.resized(end as u32).write_outcome(layout.custom_text_address, data) {
                        Err(e) => Err(FatalErrorView::CustomTextWrite(e)),
                        Ok(()) => Ok(
                            w.resized(end as u32).written(layout.custom_text_address, data),
                        ),
                    }
                }
            },
        },
    }
}

/// The image with the trampolines of the entries in it, built in the order
/// of the entries.
pub open spec fn trampolines_step(w: HookWriterView, entries: Seq<PrePostEntryView>) -> Result<
    HookWriterView,
    FatalErrorView,
>
    decreases entries.len(),
{
    if entries.len() == 0 {
        Ok(w)
    } else {
        match trampoline_step(w, entries[0]) {
            Err(e) => Err(FatalErrorView::Trampoline(entries[0].from_addr, e)),
            Ok(w2) => trampolines_step(w2, entries.drop_first()),
        }
    }
}

/// The section at an index that may be absent.
pub open spec fn section_at(sections: Seq<ElfSectionView>, index: Option<usize>) -> Option<
    ElfSectionView,
> {
    match index {
        Some(i) => if i < sections.len() {
            Some(sections[i as int])
        } else {
            None
        },
        None => None,
    }
}

/// Copies the hook sections of the linked program into the image and finds
/// its loader code and custom text.
pub fn emit_sections(writer: HookWriter, sections: &Vec<ElfSection>) -> (r: Result<
    (HookWriter, CodeSections),
    FatalError,
>)
    ensures
        match r {
            Ok((w, found)) => sections_step(
                writer@,
                CodeSections { loader: None, text: None },
                sections_view(sections@),
                0,
            ) == Ok::<(HookWriterView, CodeSections), FatalErrorView>((w@, found)) && (
            found.loader matches Some(i) ==> i < sections.len()) && (found.text matches Some(i)
                ==> i < sections.len()),
            Err(e) => sections_step(
                writer@,
                CodeSections { loader: None, text: None },
                sections_view(sections@),
                0,
            ) == Err::<(HookWriterView, CodeSections), FatalErrorView>(e@),
        },
{
    let ghost all = sections_view(sections@);
    let ghost none = CodeSections { loader: None, text: None };
    let mut w = writer;
    let mut found = CodeSections { loader: None, text: None };
    let prefix = chars_of(HookInfo::SECTION_PREFIX);
    let mut i: usize = 0;
    while i < sections.len()
        invariant
            i <= sections.len(),
            all == sections_view(sections@),
            prefix@ == HookInfo::SECTION_PREFIX@,
            none == (CodeSections { loader: None, text: None }),
            sections_step(writer@, none, all, 0) == sections_step(w@, found, all, i as int),
            found.loader matches Some(k) ==> k < sections.len(),
            found.text matches Some(k) ==> k < sections.len(),
        decreases sections.len() - i,
    {
        let section = &sections[i];
        assert(all[i as int] == section@);
        match &section.name {
            None => {},
            Some(name) => {
                if str_eq(name.as_str(), ".mw_loader_text") {
                    found.loader = Some(i);
                } else if str_eq(name.as_str(), ".text") {
                    found.text = Some(i);
                } else {
                    let chars = chars_of(name.as_str());
                    if starts_with(&chars, &prefix) {
                        let data = match &section.data {
                            Some(data) => data,
                            None => {
                                return Err(FatalError::SectionDataUnreadable(name.clone()));
                            },
                        };
                        match w.write(low_word_of(section.address), data.as_slice()) {
                            Ok(()) => {},
                            Err(e) => {
                                return Err(FatalError::SectionWrite(name.clone(), e));
                            },
                        }
                    }
                }
            },
        }
        i += 1;
    }
    Ok((w, found))
}

/// Places the loader code.
pub fn place_loader(writer: HookWriter, section: Option<&ElfSection>, layout: Layout) -> (r: Result<
    HookWriter,
    FatalError,
>)
    ensures
        match r {
            Ok(w) => loader_step(
                writer@,
                match section {
                    Some(s) => Some(s@),
                    None => None,
                },
                layout,
            ) == Ok::<HookWriterView, FatalErrorView>(w@),
            Err(e) => loader_step(
                writer@,
                match section {
                    Some(s) => Some(s@),
                    None => None,
                },
                layout,
            ) == Err::<HookWriterView, FatalErrorView>(e@),
        },
{
    let mut w = writer;
    let s = match section {
        Some(s) => s,
        None => {
            return Ok(w);
        },
    };
    let size = low_word_of(s.size);
    let end: u64 = low_word_of(s.address) as u64 + size as u64;
    if end > 0xFFFF_FFFF || size > layout.loader_max_size {
        return Err(FatalError::LoaderTooLarge(size, layout.loader_max_size));
    }
    let data = match &s.data {
        Some(data) => data,
        None => {
            return Err(FatalError::LoaderDataUnreadable);
        },
    };
    w.set_loader_extra_address(end as u32);
    match w.write(layout.loader_address, data.as_slice()) {
        Ok(()) => Ok(w),
        Err(e) => Err(FatalError::LoaderWrite(e)),
    }
}

/// Places the custom text.
pub fn place_text(writer: HookWriter, section: Option<&ElfSection>, layout: Layout) -> (r: Result<
    HookWriter,
    FatalError,
>)
    ensures
        match r {
            Ok(w) => text_step(
                writer@,
                match section {
                    Some(s) => Some(s@),
                    None => None,
                },
                layout,
            ) == Ok::<HookWriterView, FatalErrorView>(w@),
            Err(e) => text_step(
                writer@,
                match section {
                    Some(s) => Some(s@),
                    None => None,
                },
                layout,
            ) == Err::<HookWriterView, FatalErrorView>(e@),
        },
{
    let mut w = writer;
    let s = match section {
        Some(s) => s,
        None => {
            return Err(FatalError::NoCustomText);
        },
    };
    let data = match &s.data {
        Some(data) => data,
        None => {
            return Err(FatalError::CustomTextDataUnreadable);
        },
    };
    let used: u64 = layout.custom_text_address as u64 + low_word_of(s.size) as u64;
    if used > 0xFFFF_F000 {
        assert(page_ceiling(used as int) > u32::MAX);
        return Err(FatalError::CustomTextTooLarge);
    }
    let end = round_to_page(used as u32);
    match w.resize_until(end) {
        Ok(()) => {},
        Err(e) => {
            return Err(FatalError::CustomTextResize(e));
        },
    }
    match w.write(layout.custom_text_address, data.as_slice()) {
        Ok(()) => Ok(w),
        Err(e) => Err(FatalError::CustomTextWrite(e)),
    }
}

/// Builds the trampolines of the entries, in their order.
pub fn emit_trampolines(writer: HookWriter, entries: &Vec<PrePostEntry>) -> (r: Result<
    HookWriter,
    FatalError,
>)
    ensures
        match r {
            Ok(w) => trampolines_step(writer@, entries_view(entries@)) == Ok::<
                HookWriterView,
                FatalErrorView,
            >(w@),
            Err(e) => trampolines_step(writer@, entries_view(entries@)) == Err::<
                HookWriterView,
                FatalErrorView,
            >(e@),
        },
{
    let ghost all = entries_view(entries@);
    let mut w = writer;
    let mut i: usize = 0;
    assert(all.skip(0) == all);
    while i < entries.len()
        invariant
            i <= entries.len(),
            all == entries_view(entries@),
            trampolines_step(writer@, all) == trampolines_step(w@, all.skip(i as int)),
        decreases entries.len() - i,
    {
        proof {
            assert(all.skip(i as int)[0] == entries@[i as int]@);
            assert(all.skip(i as int).drop_first() == all.skip(i + 1));
        }
        w = match emit_trampoline(w, &entries[i]) {
            Ok(w2) => w2,
            Err(e) => {
                return Err(FatalError::Trampoline(entries[i].from_addr, e));
            },
        };
        i += 1;
    }
    assert(all.skip(entries.len() as int).len() == 0);
    Ok(w)
}

} // verus!
