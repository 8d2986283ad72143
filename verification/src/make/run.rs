//! The transaction as a whole.

use vstd::prelude::*;
use vstd::slice::slice_to_vec;

use super::elf::{
    elf_image_of, read_elf, ElfImage, ElfImageView, ElfSection, ElfSectionView,
};
use super::error::{FatalError, FatalErrorView, MakeError, MakeErrorView};
use super::hooks::{apply_files, files_step, files_view, HookFile, HookFileView};
use super::patch::{apply_symbols, low_word, low_word_of, symbols_step, Patch, PatchView};
use super::sections::{
    emit_sections, emit_trampolines, loader_step, place_loader, place_text, section_at,
    sections_step, text_step, trampolines_step, CodeSections,
};
use crate::exheader::{calc_layout, patch_exheader, Exheader, Layout};
use crate::hook::writer::{HookWriter, HookWriterView};

verus! {

/// Address of the first byte of the program image.
pub const IMAGE_BASE: u32 = 0x100000;

/// What the transaction gives: the patched image, the header that goes
/// with it, and the address of the symbol that marks the end of the custom
/// text, if the linked program has it.
#[derive(Debug, PartialEq)]
pub struct Patched {
    pub image: Vec<u8>,
    pub exheader: Exheader,
    pub text_end: Option<u32>,
    /// Size of the loader code, if the linked program has any.
    pub loader_size: Option<u32>,
    /// Size of the custom text.
    pub text_size: u32,
}

/// A `Patched` with its image as a sequence of bytes.
pub struct PatchedView {
    pub image: Seq<u8>,
    pub exheader: Exheader,
    pub text_end: Option<u32>,
    pub loader_size: Option<u32>,
    pub text_size: u32,
}

impl View for Patched {
    type V = PatchedView;

    open spec fn view(&self) -> PatchedView {
        PatchedView {
            image: self.image@,
            exheader: self.exheader,
            text_end: self.text_end,
            loader_size: self.loader_size,
            text_size: self.text_size,
        }
    }
}

/// The layout that a header describes.
pub open spec fn layout_of(eh: Exheader) -> Layout {
    Layout {
        loader_address: eh.loader_address() as u32,
        loader_max_size: eh.loader_max_size() as u32,
        custom_text_address: eh.custom_text_address() as u32,
    }
}

/// The transaction before anything has happened: the unpatched image at its
/// base address, nothing written, no callbacks, no symbols.
pub open spec fn start_of(code: Seq<u8>) -> PatchView {
    PatchView {
        writer: HookWriterView {
            base_address: IMAGE_BASE,
            loader_extra_address: None,
            data: code,
            ledger: Map::empty(),
        },
        entries: Seq::empty(),
        symbols: Map::empty(),
        text_end: None,
    }
}

/// The size of a section that may be absent, by its low 32 bits.
pub open spec fn section_size(section: Option<ElfSectionView>) -> Option<u32> {
    match section {
        Some(s) => Some(low_word(s.size as int)),
        None => None,
    }
}

/// The end of the transaction: the trampolines are built, and the header
/// is rewritten for the image that results.
pub open spec fn finish_step(
    p: PatchView,
    eh: Exheader,
    loader: Option<ElfSectionView>,
    text: Option<ElfSectionView>,
) -> Result<PatchedView, MakeErrorView> {
    match trampolines_step(p.writer, p.entries) {
        Err(e) => Err(MakeErrorView::Fatal(e)),
        Ok(w) => if eh.patchable(w.end_address() as u32) {
            Ok(
                PatchedView {
                    image: w.data,
                    exheader: eh.patched(w.end_address() as u32),
                    text_end: p.text_end,
                    loader_size: section_size(loader),
                    text_size: match section_size(text) {
                        Some(size) => size,
                        None => 0,
                    },
                },
            )
        } else {
            Err(MakeErrorView::Fatal(FatalErrorView::HeaderInvalid))
        },
    }
}

/// The loader code and the custom text are placed, in that order.
pub open spec fn place_step(
    w: HookWriterView,
    image: ElfImageView,
    found: CodeSections,
    layout: Layout,
) -> Result<HookWriterView, MakeErrorView> {
    match loader_step(w, section_at(image.sections, found.loader), layout) {
        Err(e) => Err(MakeErrorView::Fatal(e)),
        Ok(w2) => match text_step(w2, section_at(image.sections, found.text), layout) {
            Err(e) => Err(MakeErrorView::Fatal(e)),
            Ok(w3) => Ok(w3),
        },
    }
}

/// What the linked program and the declaration files make of the unpatched
/// image.  The hook sections are copied first; then the symbols are
/// indexed and their hooks carried out; then the entries of the
/// declaration files; then the loader code and the custom text are placed;
/// then the trampolines are built and the header is rewritten.  The first
/// error ends the transaction.
pub open spec fn patched_with(
    code: Seq<u8>,
    eh: Exheader,
    image: ElfImageView,
    files: Seq<HookFileView>,
) -> Result<PatchedView, MakeErrorView> {
    let layout = layout_of(eh);
    let start = start_of(code);
    match sections_step(start.writer, CodeSections { loader: None, text: None }, image.sections, 0) {
        Err(e) => Err(MakeErrorView::Fatal(e)),
        Ok((w1, found)) => match image.symbols {
            None => Err(MakeErrorView::Fatal(FatalErrorView::NoSymbolTable)),
            Some(symbols) => match symbols_step(
                PatchView { writer: w1, ..start },
                symbols,
                layout.custom_text_address,
            ) {
                Err(e) => Err(e),
                Ok(p2) => match files_step(p2, files, layout.custom_text_address) {
                    Err(e) => Err(e),
                    Ok(p3) => match place_step(p3.writer, image, found, layout) {
                        Err(e) => Err(e),
                        Ok(w4) => finish_step(
                            PatchView { writer: w4, ..p3 },
                            eh,
                            section_at(image.sections, found.loader),
                            section_at(image.sections, found.text),
                        ),
                    },
                },
            },
        },
    }
}

/// The whole transaction, from the bytes of the linked program.  A header
/// that describes no layout and an image that is too large are refused
/// before the linked program is looked at.
pub open spec fn patched(
    code: Seq<u8>,
    eh: Exheader,
    image: Option<ElfImageView>,
    files: Seq<HookFileView>,
) -> Result<PatchedView, MakeErrorView> {
    if !eh.layout_fits() {
        Err(MakeErrorView::Fatal(FatalErrorView::HeaderInvalid))
    } else if IMAGE_BASE + code.len() > u32::MAX {
        Err(MakeErrorView::Fatal(FatalErrorView::ImageTooLarge))
    } else {
        match image {
            None => Err(MakeErrorView::Fatal(FatalErrorView::ElfInvalid)),
            Some(image) => patched_with(code, eh, image, files),
        }
    }
}

/// The section at an index that may be absent.
fn section_of(sections: &Vec<ElfSection>, index: Option<usize>) -> (r: Option<&ElfSection>)
    requires
        index matches Some(i) ==> i < sections.len(),
    ensures
        (match r {
            Some(s) => Some(s@),
            None => None,
        }) == section_at(super::elf::sections_view(sections@), index),
{
    match index {
        Some(i) => Some(&sections[i]),
        None => None,
    }
}

/// Carries out the transaction on the unpatched image `code`, for a linked
/// program whose sections and symbols have been read.
pub fn patch_with(code: Vec<u8>, exheader: &Exheader, image: &ElfImage, files: &Vec<HookFile>) -> (r:
    Result<Patched, MakeError>)
    requires
        exheader.layout_fits(),
        IMAGE_BASE + code.len() <= u32::MAX,
    ensures
        match r {
            Ok(out) => patched_with(code@, *exheader, image@, files_view(files@)) == Ok::<
                PatchedView,
                MakeErrorView,
            >(out@),
            Err(e) => patched_with(code@, *exheader, image@, files_view(files@)) == Err::<
                PatchedView,
                MakeErrorView,
            >(e@),
        },
{
    let layout = match calc_layout(exheader) {
        Some(layout) => layout,
        None => {
            return Err(MakeError::Fatal(FatalError::HeaderInvalid));
        },
    };
    assert(layout == layout_of(*exheader));
    let writer = HookWriter::new(IMAGE_BASE, code);
    let (writer, found) = match emit_sections(writer, &image.sections) {
        Ok(pair) => pair,
        Err(e) => {
            return Err(MakeError::Fatal(e));
        },
    };
    let symbols = match &image.symbols {
        Some(symbols) => symbols,
        None => {
            return Err(MakeError::Fatal(FatalError::NoSymbolTable));
        },
    };
    let p = Patch::new(writer);
    let p = match apply_symbols(p, symbols, layout.custom_text_address) {
        Ok(p) => p,
        Err(e) => {
            return Err(e);
        },
    };
    let p = match apply_files(p, files, layout.custom_text_address) {
        Ok(p) => p,
        Err(e) => {
            return Err(e);
        },
    };
    let Patch { writer, entries, symbols: _, text_end } = p;
    let loader = section_of(&image.sections, found.loader);
    let text = section_of(&image.sections, found.text);
    let loader_size = match loader {
        Some(s) => Some(low_word_of(s.size)),
        None => None,
    };
    let text_size = match text {
        Some(s) => low_word_of(s.size),
        None => 0,
    };
    let writer = match place_loader(writer, loader, layout) {
        Ok(w) => w,
        Err(e) => {
            return Err(MakeError::Fatal(e));
        },
    };
    let writer = match place_text(writer, text, layout) {
        Ok(w) => w,
        Err(e) => {
            return Err(MakeError::Fatal(e));
        },
    };
    let writer = match emit_trampolines(writer, &entries) {
        Ok(w) => w,
        Err(e) => {
            return Err(MakeError::Fatal(e));
        },
    };
    let mut header = *exheader;
    if !patch_exheader(&mut header, writer.end_address()) {
        return Err(MakeError::Fatal(FatalError::HeaderInvalid));
    }
    Ok(
        Patched {
            image: slice_to_vec(writer.data()),
            exheader: header,
            text_end,
            loader_size,
            text_size,
        },
    )
}

/// Carries out the transaction: `code` is the unpatched image, `exheader`
/// its header, `elf` the bytes of the linked program, and `files` the
/// declaration files in the order in which they are to be read.
pub fn make_patch(code: Vec<u8>, exheader: &Exheader, elf: &[u8], files: &Vec<HookFile>) -> (r:
    Result<Patched, MakeError>)
    ensures
        match r {
            Ok(out) => patched(code@, *exheader, elf_image_of(elf@), files_view(files@)) == Ok::<
                PatchedView,
                MakeErrorView,
            >(out@),
            Err(e) => patched(code@, *exheader, elf_image_of(elf@), files_view(files@)) == Err::<
                PatchedView,
                MakeErrorView,
            >(e@),
        },
{
    if calc_layout(exheader).is_none() {
        return Err(MakeError::Fatal(FatalError::HeaderInvalid));
    }
    if code.len() > (u32::MAX - IMAGE_BASE) as usize {
        return Err(MakeError::Fatal(FatalError::ImageTooLarge));
    }
    let image = match read_elf(elf) {
        Some(image) => image,
        None => {
            return Err(MakeError::Fatal(FatalError::ElfInvalid));
        },
    };
    patch_with(code, exheader, &image, files)
}

} // verus!
