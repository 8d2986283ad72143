//! The linker script: one directive for every section that replaces code
//! of the program, then the loader code and the custom text.

use vstd::prelude::*;
use vstd::string::StringExecFns;

use super::elf::{elf_image_of, read_elf, sections_view, ElfSection, ElfSectionView};
use super::error::{
    FatalError, FatalErrorView, HookProblem, HookProblemView, MakeError, MakeErrorView,
};
use crate::exheader::Layout;
use crate::hook::error::{Error, ErrorView};
use crate::hook::info::{parse_section_name, HookInfo};
use crate::hook::kind::HookKind;
use crate::hook::symbol_safe::max_token_len;
use crate::text::{hex_string, hex_text};

verus! {

/// How the script begins.
pub const SCRIPT_HEAD: &'static str = "SECTIONS\n{\n    /* Hook Generated Sections */\n";

/// What the custom text is made of.
pub const LINKER_SCRIPT_SECTIONS: &'static str =
    "    {\n        __mw_text_start = .;\n        *(.text);\n        *(.text.*);\n        *(.rodata);\n        *(.rodata.*);\n        __init_array_start = .;\n        *(.init_array);\n        *(.init_array.*);\n        __init_array_end = .;\n        __fini_array_start = .;\n        *(.fini_array);\n        *(.fini_array.*);\n        __fini_array_end = .;\n        *(.data);\n        *(.data.*);\n        *(.bss);\n        *(.bss.*);\n        __mw_text_end = .;\n    }\n";

/// An object file: the source that it was compiled from, and its bytes.
#[derive(Debug, PartialEq)]
pub struct ObjectFile {
    pub source: String,
    pub data: Vec<u8>,
}

/// The directive that places the section `name` at `address`.
pub open spec fn section_directive(name: Seq<char>, address: u32) -> Seq<char> {
    "    "@ + name + " 0x"@ + hex_text(address as nat) + " : { *("@ + name + "); }\n"@
}

/// What a section of the object compiled from `source` adds to the script:
/// a directive if its name declares a replacement, nothing if its name is
/// no hook.  Any other hook is an error.
pub open spec fn section_line(name: Seq<char>, source: Seq<char>) -> Result<
    Seq<char>,
    MakeErrorView,
> {
    if name.len() > max_token_len() {
        Err(MakeErrorView::Fatal(FatalErrorView::NameTooLong(name)))
    } else {
        match parse_section_name(name) {
            Ok(info) => match info.kind {
                HookKind::Replace(address) => Ok(section_directive(name, address)),
                _ => Err(MakeErrorView::Hook(info.location, HookProblemView::InvalidSectionKind)),
            },
            Err(ErrorView::InvalidPrefix) => Ok(Seq::empty()),
            Err(ErrorView::ParsingError(e, location)) => Err(
                MakeErrorView::Hook(location, HookProblemView::Parsing(e)),
            ),
            Err(ErrorView::MetaParsingError(e)) => Err(
                MakeErrorView::Fatal(FatalErrorView::SectionHookInvalid(name, source, e)),
            ),
        }
    }
}

/// `script` with what the sections of one object add to it, section by
/// section; sections without a name add nothing.
pub open spec fn object_lines(
    script: Seq<char>,
    sections: Seq<ElfSectionView>,
    source: Seq<char>,
) -> Result<Seq<char>, MakeErrorView>
    decreases sections.len(),
{
    if sections.len() == 0 {
        Ok(script)
    } else {
        match sections[0].name {
            None => object_lines(script, sections.drop_first(), source),
            Some(name) => match section_line(name, source) {
                Err(e) => Err(e),
                Ok(line) => object_lines(script + line, sections.drop_first(), source),
            },
        }
    }
}

/// `script` with what the objects add to it, object by object.  Bytes that
/// are no object file are an error.
pub open spec fn objects_lines(script: Seq<char>, objects: Seq<ObjectFile>) -> Result<
    Seq<char>,
    MakeErrorView,
>
    decreases objects.len(),
{
    if objects.len() == 0 {
        Ok(script)
    } else {
        match elf_image_of(objects[0].data@) {
            None => Err(
                MakeErrorView::Fatal(FatalErrorView::ObjectFileInvalid(objects[0].source@)),
            ),
            Some(image) => match object_lines(script, image.sections, objects[0].source@) {
                Err(e) => Err(e),
                Ok(longer) => objects_lines(longer, objects.drop_first()),
            },
        }
    }
}

/// How the script ends: the loader code at the loader address, and the
/// custom text at its address.
pub open spec fn script_tail(layout: Layout) -> Seq<char> {
    "\n    .mw_loader_text 0x"@ + hex_text(layout.loader_address as nat)
        + " : { *(.mw_loader_text); *(.mw_loader_text.*); }\n"@ + "    .text 0x"@ + hex_text(
        layout.custom_text_address as nat,
    ) + " :\n"@ + LINKER_SCRIPT_SECTIONS@ + "}\n"@
}

/// The linker script for the given objects.
pub open spec fn script_text(objects: Seq<ObjectFile>, layout: Layout) -> Result<
    Seq<char>,
    MakeErrorView,
> {
    match objects_lines(SCRIPT_HEAD@, objects) {
        Err(e) => Err(e),
        Ok(lines) => Ok(lines + script_tail(layout)),
    }
}

/// What a section of this name, in the object compiled from `source`, adds
/// to the linker script.
pub fn section_script_line(name: &str, source: &str) -> (r: Result<String, MakeError>)
    ensures
        match r {
            Ok(line) => section_line(name@, source@) == Ok::<Seq<char>, MakeErrorView>(line@),
            Err(e) => section_line(name@, source@) == Err::<Seq<char>, MakeErrorView>(e@),
        },
{
    if name.unicode_len() > usize::MAX / 32 {
        return Err(MakeError::Fatal(FatalError::NameTooLong(name.to_owned())));
    }
    match HookInfo::from_section_str(name) {
        Ok(info) => match info.kind {
            HookKind::Replace(address) => {
                let mut line = String::from_str("    ");
                line.append(name);
                line.append(" 0x");
                line.append(hex_string(address).as_str());
                line.append(" : { *(");
                line.append(name);
                line.append("); }\n");
                Ok(line)
            },
            _ => Err(MakeError::Hook(info.location, HookProblem::InvalidSectionKind)),
        },
        Err(Error::InvalidPrefix) => Ok(String::new()),
        Err(Error::ParsingError(e, location)) => Err(
            MakeError::Hook(location, HookProblem::Parsing(e)),
        ),
        Err(Error::MetaParsingError(e)) => Err(
            MakeError::Fatal(
                FatalError::SectionHookInvalid(name.to_owned(), source.to_owned(), e),
            ),
        ),
    }
}

/// Adds to `script` what the sections of one object ask for.
pub fn object_script_lines(script: String, sections: &Vec<ElfSection>, source: &str) -> (r: Result<
    String,
    MakeError,
>)
    ensures
        match r {
            Ok(longer) => object_lines(script@, sections_view(sections@), source@) == Ok::<
                Seq<char>,
                MakeErrorView,
            >(longer@),
            Err(e) => object_lines(script@, sections_view(sections@), source@) == Err::<
                Seq<char>,
                MakeErrorView,
            >(e@),
        },
{
    let ghost all = sections_view(sections@);
    let mut cur = script;
    let mut i: usize = 0;
    assert(all.skip(0) == all);
    while i < sections.len()
        invariant
            i <= sections.len(),
            all == sections_view(sections@),
            object_lines(script@, all, source@) == object_lines(cur@, all.skip(i as int), source@),
        decreases sections.len() - i,
    {
        proof {
            assert(all.skip(i as int)[0] == sections@[i as int]@);
            assert(all.skip(i as int).drop_first() == all.skip(i + 1));
        }
        match &sections[i].name {
            None => {},
            Some(name) => {
                match section_script_line(name.as_str(), source) {
                    Ok(line) => {
                        cur.append(line.as_str());
                    },
                    Err(e) => {
                        return Err(e);
                    },
                }
            },
        }
        i += 1;
    }
    assert(all.skip(sections.len() as int).len() == 0);
    Ok(cur)
}

/// Writes the linker script for the given objects: a directive for every
/// section that replaces code of the program, then the loader code and the
/// custom text.
pub fn linker_script(objects: &Vec<ObjectFile>, layout: Layout) -> (r: Result<String, MakeError>)
    ensures
        match r {
            Ok(script) => script_text(objects@, layout) == Ok::<Seq<char>, MakeErrorView>(
                script@,
            ),
            Err(e) => script_text(objects@, layout) == Err::<Seq<char>, MakeErrorView>(e@),
        },
{
    let mut script = String::from_str(SCRIPT_HEAD);
    let mut i: usize = 0;
    assert(objects@.skip(0) == objects@);
    while i < objects.len()
        invariant
            i <= objects.len(),
            objects_lines(SCRIPT_HEAD@, objects@) == objects_lines(
                script@,
                objects@.skip(i as int),
            ),
        decreases objects.len() - i,
    {
        proof {
            assert(objects@.skip(i as int)[0] == objects@[i as int]);
            assert(objects@.skip(i as int).drop_first() == objects@.skip(i + 1));
        }
        let object = &objects[i];
        let image = match read_elf(object.data.as_slice()) {
            Some(image) => image,
            None => {
                return Err(MakeError::Fatal(FatalError::ObjectFileInvalid(object.source.clone())));
            },
        };
        script = match object_script_lines(script, &image.sections, object.source.as_str()) {
            Ok(longer) => longer,
            Err(e) => {
                return Err(e);
            },
        };
        i += 1;
    }
    assert(objects@.skip(objects.len() as int).len() == 0);
    let ghost lines = script@;
    script.append("\n    .mw_loader_text 0x");
    script.append(hex_string(layout.loader_address).as_str());
    script.append(" : { *(.mw_loader_text); *(.mw_loader_text.*); }\n");
    script.append("    .text 0x");
    script.append(hex_string(layout.custom_text_address).as_str());
    script.append(" :\n");
    script.append(LINKER_SCRIPT_SECTIONS);
    script.append("}\n");
    assert(script@ =~= lines + script_tail(layout));
    Ok(script)
}

} // verus!
