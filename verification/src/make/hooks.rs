//! What the entries of the declaration files do to the transaction.

use vstd::prelude::*;

use super::error::{
    texts, FatalError, FatalErrorView, HookProblem, HookProblemView, MakeError, MakeErrorView,
};
use super::patch::{
    arena_for, arena_of, low_word, low_word_of, register_hook, register_step, write_hook,
    write_step, Patch, PatchView,
};
use super::prepost::Side;
use crate::bytes::{hex_to_bytes, le_bytes, parse_hex, to_le_bytes, without_spaces};
use crate::hook::arm::{branch_encoding, make_branch_u32, ArmCondition};
use crate::hook::hks::{
    lemma_next_step_progress, next_step, reader_measure, taken, taken_address, taken_bool,
    text_lines, HksEntry, HksEntryView, HksReader, HksReaderView,
};
use crate::hook::location::{HookLocation, HookLocationView};
use crate::text::{chars_of, str_eq, text_of};

verus! {

/// A declaration file: its path, and its text if it could be read.
#[derive(Debug, PartialEq)]
pub struct HookFile {
    pub path: String,
    pub text: Option<String>,
}

/// A `HookFile` with its path and text as sequences of characters.
pub struct HookFileView {
    pub path: Seq<char>,
    pub text: Option<Seq<char>>,
}

impl View for HookFile {
    type V = HookFileView;

    open spec fn view(&self) -> HookFileView {
        HookFileView {
            path: self.path@,
            text: match self.text {
                Some(t) => Some(t@),
                None => None,
            },
        }
    }
}

/// The views of a list of files.
pub open spec fn files_view(list: Seq<HookFile>) -> Seq<HookFileView> {
    Seq::new(list.len(), |i: int| list[i]@)
}

/// A step of an entry: the transaction and the properties that are left,
/// or the error.
pub type EntryStep = Result<(PatchView, Map<Seq<char>, Seq<char>>), MakeErrorView>;

/// The error of a hook at `location`.
pub open spec fn hook_error(location: HookLocationView, problem: HookProblemView) -> EntryStep {
    Err(MakeErrorView::Hook(location, problem))
}

/// A step that writes `data` at `address` and leaves `rest`.
pub open spec fn write_entry_step(
    p: PatchView,
    location: HookLocationView,
    address: u32,
    data: Seq<u8>,
    rest: Map<Seq<char>, Seq<char>>,
) -> EntryStep {
    match write_step(p, location, address, data) {
        Err(e) => Err(e),
        Ok(q) => Ok((q, rest)),
    }
}

/// The target of a hook, and the properties that are left: the address of
/// the symbol that `func` names, or else the address that `dest` gives.
pub open spec fn target_step(
    symbols: Map<Seq<char>, u32>,
    props: Map<Seq<char>, Seq<char>>,
) -> Result<(u32, Map<Seq<char>, Seq<char>>), HookProblemView> {
    if props.contains_key("func"@) {
        let name = props["func"@];
        if symbols.contains_key(name) {
            Ok((symbols[name], props.remove("func"@)))
        } else {
            Err(HookProblemView::SymbolNotFound(name))
        }
    } else {
        match taken_address(props, "dest"@) {
            Err(x) => Err(HookProblemView::Entry(x)),
            Ok(a) => Ok((a, props.remove("dest"@))),
        }
    }
}

/// `branch`: a B or BL to the target is written at the address.
pub open spec fn branch_entry_step(
    p: PatchView,
    location: HookLocationView,
    address: u32,
    props: Map<Seq<char>, Seq<char>>,
) -> EntryStep {
    match taken_bool(props, "link"@) {
        Err(x) => hook_error(location, HookProblemView::Entry(x)),
        Ok(link) => match target_step(p.symbols, props.remove("link"@)) {
            Err(x) => hook_error(location, x),
            Ok((to, rest)) => match branch_encoding(link, address, to, ArmCondition::AL) {
                None => hook_error(location, HookProblemView::BranchOutOfRange(address, to)),
                Some(word) => write_entry_step(p, location, address, le_bytes(word), rest),
            },
        },
    }
}

/// `softbranch`: the target becomes a callback of the site at the address.
/// The `opcode` says where the instruction of the site stands: with `pre`
/// the callback runs after it, with `post` before it.  The arena is chosen
/// by the address of the target.
pub open spec fn soft_branch_entry_step(
    p: PatchView,
    location: HookLocationView,
    address: u32,
    props: Map<Seq<char>, Seq<char>>,
    custom_text_address: u32,
) -> EntryStep {
    match taken(props, "opcode"@) {
        Err(x) => hook_error(location, HookProblemView::Entry(x)),
        Ok(opcode) => match target_step(p.symbols, props.remove("opcode"@)) {
            Err(x) => hook_error(location, x),
            Ok((to, rest)) => {
                let pos = arena_of(to, custom_text_address);
                let side = if opcode == "pre"@ {
                    Side::After
                } else {
                    Side::Before
                };
                match register_step(p, location, address, pos, side, to) {
                    Err(e) => Err(e),
                    Ok(q) => if opcode == "pre"@ || opcode == "post"@ {
                        Ok((q, rest))
                    } else {
                        hook_error(location, HookProblemView::InvalidOpcode(opcode))
                    },
                }
            },
        },
    }
}

/// `patch`: the bytes that `data` writes in hexadecimal go to the address.
pub open spec fn patch_entry_step(
    p: PatchView,
    location: HookLocationView,
    address: u32,
    props: Map<Seq<char>, Seq<char>>,
) -> EntryStep {
    match taken(props, "data"@) {
        Err(x) => hook_error(location, HookProblemView::Entry(x)),
        Ok(data) => match parse_hex(data) {
            Err(x) => hook_error(
                location,
                HookProblemView::InvalidPatchData(without_spaces(data), x),
            ),
            Ok(bytes) => write_entry_step(p, location, address, bytes, props.remove("data"@)),
        },
    }
}

/// `symbol`: the address of the symbol that `sym` names goes to the
/// address.
pub open spec fn symbol_entry_step(
    p: PatchView,
    location: HookLocationView,
    address: u32,
    props: Map<Seq<char>, Seq<char>>,
) -> EntryStep {
    match taken(props, "sym"@) {
        Err(x) => hook_error(location, HookProblemView::Entry(x)),
        Ok(name) => if p.symbols.contains_key(name) {
            write_entry_step(
                p,
                location,
                address,
                le_bytes(p.symbols[name]),
                props.remove("sym"@),
            )
        } else {
            hook_error(location, HookProblemView::SymbolNotFound(name))
        },
    }
}

/// What an entry of the given type does.
pub open spec fn typed_entry_step(
    p: PatchView,
    location: HookLocationView,
    kind: Seq<char>,
    address: u32,
    props: Map<Seq<char>, Seq<char>>,
    custom_text_address: u32,
) -> EntryStep {
    if kind == "branch"@ {
        branch_entry_step(p, location, address, props)
    } else if kind == "softbranch"@ || kind == "soft_branch"@ {
        soft_branch_entry_step(p, location, address, props, custom_text_address)
    } else if kind == "patch"@ {
        patch_entry_step(p, location, address, props)
    } else if kind == "symbol"@ || kind == "symptr"@ || kind == "sym_ptr"@ {
        symbol_entry_step(p, location, address, props)
    } else {
        hook_error(location, HookProblemView::InvalidType(kind))
    }
}

/// Where an entry of a declaration file stands.
pub open spec fn entry_location(file: Seq<char>, line: usize) -> HookLocationView {
    HookLocationView { file, line: low_word(line as int) }
}

/// What one entry does to the transaction.  Its `addr` is taken first,
/// then its `type`, then what the type asks for; each is taken out of the
/// entry, and what is left over in the end is an error.
pub open spec fn entry_step(
    p: PatchView,
    entry: HksEntryView,
    file: Seq<char>,
    custom_text_address: u32,
) -> Result<PatchView, MakeErrorView> {
    let location = entry_location(file, entry.line);
    match taken_address(entry.props, "addr"@) {
        Err(x) => Err(MakeErrorView::Hook(location, HookProblemView::Entry(x))),
        Ok(address) => match taken(entry.props.remove("addr"@), "type"@) {
            Err(x) => Err(MakeErrorView::Hook(location, HookProblemView::Entry(x))),
            Ok(kind) => match typed_entry_step(
                p,
                location,
                kind,
                address,
                entry.props.remove("addr"@).remove("type"@),
                custom_text_address,
            ) {
                Err(e) => Err(e),
                Ok((q, rest)) => if rest == Map::<Seq<char>, Seq<char>>::empty() {
                    Ok(q)
                } else {
                    Err(MakeErrorView::Hook(location, HookProblemView::UnusedKeys(rest.dom())))
                },
            },
        },
    }
}

/// What the entries that a reader still holds do to the transaction, one
/// after the other, up to the first error.  A line that breaks the format
/// is an error at that line.
pub open spec fn reader_step(
    p: PatchView,
    st: HksReaderView,
    file: Seq<char>,
    custom_text_address: u32,
) -> Result<PatchView, MakeErrorView>
    decreases reader_measure(st),
    when 0 <= st.line_i <= st.lines.len()
    via reader_step_shrinks
{
    match next_step(st).0 {
        None => Ok(p),
        Some(Err(e)) => Err(
            MakeErrorView::Hook(entry_location(file, e.line()), HookProblemView::File(e)),
        ),
        Some(Ok(entry)) => match entry_step(p, entry, file, custom_text_address) {
            Err(e) => Err(e),
            Ok(q) => reader_step(q, next_step(st).1, file, custom_text_address),
        },
    }
}

/// The reader comes closer to its end with every entry.
#[via_fn]
proof fn reader_step_shrinks(
    p: PatchView,
    st: HksReaderView,
    file: Seq<char>,
    custom_text_address: u32,
) {
    lemma_next_step_progress(st);
}

/// What a declaration file does to the transaction.
pub open spec fn file_step(p: PatchView, file: HookFileView, custom_text_address: u32) -> Result<
    PatchView,
    MakeErrorView,
> {
    match file.text {
        None => Err(MakeErrorView::Fatal(FatalErrorView::HookFileUnreadable(file.path))),
        Some(text) => reader_step(
            p,
            HksReaderView { lines: text_lines(text), line_i: 0, next_title: None },
            file.path,
            custom_text_address,
        ),
    }
}

/// What the declaration files do to the transaction, one after the other.
pub open spec fn files_step(
    p: PatchView,
    files: Seq<HookFileView>,
    custom_text_address: u32,
) -> Result<PatchView, MakeErrorView>
    decreases files.len(),
{
    if files.len() == 0 {
        Ok(p)
    } else {
        match file_step(p, files[0], custom_text_address) {
            Err(e) => Err(e),
            Ok(q) => files_step(q, files.drop_first(), custom_text_address),
        }
    }
}

/// The views of an exec step.
pub open spec fn step_view(r: Result<Patch, MakeError>, entry: HksEntry) -> EntryStep {
    match r {
        Ok(q) => Ok((q@, entry@.props)),
        Err(e) => Err(e@),
    }
}

/// Takes the target of a hook out of the entry.
fn take_target(p: &Patch, entry: &mut HksEntry) -> (r: Result<u32, HookProblem>)
    ensures
        final(entry)@.title == old(entry)@.title,
        final(entry)@.line == old(entry)@.line,
        match r {
            Ok(to) => target_step(p@.symbols, old(entry)@.props) == Ok::<
                (u32, Map<Seq<char>, Seq<char>>),
                HookProblemView,
            >((to, final(entry)@.props)),
            Err(e) => target_step(p@.symbols, old(entry)@.props) == Err::<
                (u32, Map<Seq<char>, Seq<char>>),
                HookProblemView,
            >(e@),
        },
{
    if entry.has("func") {
        let name = match entry.get("func") {
            Ok(name) => name,
            Err(x) => {
                return Err(HookProblem::Entry(x));
            },
        };
        match p.symbols.get(name.as_str()) {
            Some(address) => Ok(*address),
            None => Err(HookProblem::SymbolNotFound(name)),
        }
    } else {
        match entry.get_address("dest") {
            Ok(a) => Ok(a),
            Err(x) => Err(HookProblem::Entry(x)),
        }
    }
}

/// Carries out an entry of type `branch`.
fn apply_branch_entry(p: Patch, entry: &mut HksEntry, location: &HookLocation, address: u32) -> (r:
    Result<Patch, MakeError>)
    ensures
        final(entry)@.title == old(entry)@.title,
        final(entry)@.line == old(entry)@.line,
        step_view(r, *final(entry)) == branch_entry_step(
            p@,
            location@,
            address,
            old(entry)@.props,
        ),
{
    let link = match entry.get_bool("link") {
        Ok(link) => link,
        Err(x) => {
            return Err(MakeError::Hook(location.clone(), HookProblem::Entry(x)));
        },
    };
    let to = match take_target(&p, entry) {
        Ok(to) => to,
        Err(x) => {
            return Err(MakeError::Hook(location.clone(), x));
        },
    };
    match make_branch_u32(link, address, to, ArmCondition::AL) {
        None => Err(
            MakeError::Hook(location.clone(), HookProblem::BranchOutOfRange(address, to)),
        ),
        Some(word) => {
            let bytes = to_le_bytes(word);
            write_hook(p, location.clone(), address, bytes.as_slice())
        },
    }
}

/// Carries out an entry of type `softbranch`.
fn apply_soft_branch_entry(
    p: Patch,
    entry: &mut HksEntry,
    location: &HookLocation,
    address: u32,
    custom_text_address: u32,
) -> (r: Result<Patch, MakeError>)
    ensures
        final(entry)@.title == old(entry)@.title,
        final(entry)@.line == old(entry)@.line,
        step_view(r, *final(entry)) == soft_branch_entry_step(
            p@,
            location@,
            address,
            old(entry)@.props,
            custom_text_address,
        ),
{
    let opcode = match entry.get("opcode") {
        Ok(opcode) => opcode,
        Err(x) => {
            return Err(MakeError::Hook(location.clone(), HookProblem::Entry(x)));
        },
    };
    let to = match take_target(&p, entry) {
        Ok(to) => to,
        Err(x) => {
            return Err(MakeError::Hook(location.clone(), x));
        },
    };
    let pos = arena_for(to, custom_text_address);
    let before = str_eq(opcode.as_str(), "pre");
    let after = str_eq(opcode.as_str(), "post");
    let side = if before {
        Side::After
    } else {
        Side::Before
    };
    let q = match register_hook(p, location.clone(), address, pos, side, to) {
        Ok(q) => q,
        Err(e) => {
            return Err(e);
        },
    };
    if before || after {
        Ok(q)
    } else {
        Err(MakeError::Hook(location.clone(), HookProblem::InvalidOpcode(opcode)))
    }
}

/// Carries out an entry of type `patch`.
fn apply_patch_entry(p: Patch, entry: &mut HksEntry, location: &HookLocation, address: u32) -> (r:
    Result<Patch, MakeError>)
    ensures
        final(entry)@.title == old(entry)@.title,
        final(entry)@.line == old(entry)@.line,
        step_view(r, *final(entry)) == patch_entry_step(
            p@,
            location@,
            address,
            old(entry)@.props,
        ),
{
    let data = match entry.get("data") {
        Ok(data) => data,
        Err(x) => {
            return Err(MakeError::Hook(location.clone(), HookProblem::Entry(x)));
        },
    };
    let chars = chars_of(data.as_str());
    match hex_to_bytes(&chars) {
        Err(x) => {
            let digits = digits_of(&chars);
            Err(MakeError::Hook(location.clone(), HookProblem::InvalidPatchData(digits, x)))
        },
        Ok(bytes) => write_hook(p, location.clone(), address, bytes.as_slice()),
    }
}

/// The text without its spaces.
fn digits_of(v: &Vec<char>) -> (r: String)
    ensures
        r@ == without_spaces(v@),
{
    let mut digits: Vec<char> = Vec::new();
    let mut i: usize = 0;
    while i < v.len()
        invariant
            i <= v.len(),
            digits@ == without_spaces(v@.take(i as int)),
        decreases v.len() - i,
    {
        proof {
            assert(v@.take(i + 1) == v@.take(i as int).push(v@[i as int]));
            reveal(Seq::filter);
            assert(v@.take(i as int).push(v@[i as int]).drop_last() == v@.take(i as int));
        }
        if v[i] != ' ' {
            digits.push(v[i]);
        }
        i += 1;
    }
    assert(v@.take(v.len() as int) == v@);
    assert(digits@.subrange(0, digits.len() as int) == digits@);
    text_of(&digits, 0, digits.len())
}

/// Carries out an entry of type `symbol`.
fn apply_symbol_entry(p: Patch, entry: &mut HksEntry, location: &HookLocation, address: u32) -> (r:
    Result<Patch, MakeError>)
    ensures
        final(entry)@.title == old(entry)@.title,
        final(entry)@.line == old(entry)@.line,
        step_view(r, *final(entry)) == symbol_entry_step(
            p@,
            location@,
            address,
            old(entry)@.props,
        ),
{
    let name = match entry.get("sym") {
        Ok(name) => name,
        Err(x) => {
            return Err(MakeError::Hook(location.clone(), HookProblem::Entry(x)));
        },
    };
    let target = match p.symbols.get(name.as_str()) {
        Some(target) => *target,
        None => {
            return Err(MakeError::Hook(location.clone(), HookProblem::SymbolNotFound(name)));
        },
    };
    let bytes = to_le_bytes(target);
    write_hook(p, location.clone(), address, bytes.as_slice())
}

/// Carries out one entry of the declaration file `file`.
pub fn apply_entry(p: Patch, entry: HksEntry, file: &str, custom_text_address: u32) -> (r: Result<
    Patch,
    MakeError,
>)
    ensures
        match r {
            Ok(q) => entry_step(p@, entry@, file@, custom_text_address) == Ok::<
                PatchView,
                MakeErrorView,
            >(q@),
            Err(e) => entry_step(p@, entry@, file@, custom_text_address) == Err::<
                PatchView,
                MakeErrorView,
            >(e@),
        },
{
    let ghost start = entry@;
    let mut entry = entry;
    let location = HookLocation {
        file: file.to_owned(),
        line: low_word_of(entry.line() as u64),
    };
    let address = match entry.get_address("addr") {
        Ok(address) => address,
        Err(x) => {
            return Err(MakeError::Hook(location, HookProblem::Entry(x)));
        },
    };
    let kind = match entry.get("type") {
        Ok(kind) => kind,
        Err(x) => {
            return Err(MakeError::Hook(location, HookProblem::Entry(x)));
        },
    };
    let k = kind.as_str();
    let done = if str_eq(k, "branch") {
        apply_branch_entry(p, &mut entry, &location, address)
    } else if str_eq(k, "softbranch") || str_eq(k, "soft_branch") {
        apply_soft_branch_entry(p, &mut entry, &location, address, custom_text_address)
    } else if str_eq(k, "patch") {
        apply_patch_entry(p, &mut entry, &location, address)
    } else if str_eq(k, "symbol") || str_eq(k, "symptr") || str_eq(k, "sym_ptr") {
        apply_symbol_entry(p, &mut entry, &location, address)
    } else {
        Err(MakeError::Hook(location.clone(), HookProblem::InvalidType(kind)))
    };
    let q = match done {
        Ok(q) => q,
        Err(e) => {
            return Err(e);
        },
    };
    if entry.is_done() {
        Ok(q)
    } else {
        let keys = entry.remaining_keys();
        let mut names: Vec<String> = Vec::new();
        let mut i: usize = 0;
        while i < keys.len()
            invariant
                i <= keys.len(),
                names.len() == i,
                forall|j: int| 0 <= j < i ==> (#[trigger] names[j])@ == keys[j]@,
            decreases keys.len() - i,
        {
            names.push(keys[i].to_owned());
            i += 1;
        }
        assert(texts(names@) =~= entry@.props.dom()) by {
            assert forall|key: Seq<char>| texts(names@).contains(key) implies entry@.props.dom().contains(
                key,
            ) by {
                let j = choose|j: int| 0 <= j < names.len() && #[trigger] names[j]@ == key;
                assert(keys[j]@ == key);
            }
            assert forall|key: Seq<char>| entry@.props.dom().contains(key) implies texts(
                names@,
            ).contains(key) by {
                let j = choose|j: int| 0 <= j < keys.len() && #[trigger] keys[j]@ == key;
                assert(names[j]@ == key);
            }
        }
        Err(MakeError::Hook(location, HookProblem::UnusedKeys(names)))
    }
}

/// Carries out the entries of a declaration file.
pub fn apply_file(p: Patch, file: &HookFile, custom_text_address: u32) -> (r: Result<
    Patch,
    MakeError,
>)
    ensures
        match r {
            Ok(q) => file_step(p@, file@, custom_text_address) == Ok::<PatchView, MakeErrorView>(
                q@,
            ),
            Err(e) => file_step(p@, file@, custom_text_address) == Err::<
                PatchView,
                MakeErrorView,
            >(e@),
        },
{
    let text = match &file.text {
        Some(text) => text,
        None => {
            return Err(MakeError::Fatal(FatalError::HookFileUnreadable(file.path.clone())));
        },
    };
    let mut reader = HksReader::new(text.as_str());
    let mut cur = p;
    loop
        invariant
            0 <= reader@.line_i <= reader@.lines.len(),
            file_step(p@, file@, custom_text_address) == reader_step(
                cur@,
                reader@,
                file.path@,
                custom_text_address,
            ),
        decreases reader_measure(reader@),
    {
        let ghost st = reader@;
        proof {
            lemma_next_step_progress(st);
        }
        match reader.next() {
            None => {
                return Ok(cur);
            },
            Some(Err(e)) => {
                let location = HookLocation {
                    file: file.path.clone(),
                    line: low_word_of(e.line() as u64),
                };
                return Err(MakeError::Hook(location, HookProblem::File(e)));
            },
            Some(Ok(entry)) => {
                cur = match apply_entry(cur, entry, file.path.as_str(), custom_text_address) {
                    Ok(q) => q,
                    Err(e) => {
                        return Err(e);
                    },
                };
            },
        }
    }
}

/// Carries out the entries of the declaration files, file by file.
pub fn apply_files(p: Patch, files: &Vec<HookFile>, custom_text_address: u32) -> (r: Result<
    Patch,
    MakeError,
>)
    ensures
        match r {
            Ok(q) => files_step(p@, files_view(files@), custom_text_address) == Ok::<
                PatchView,
                MakeErrorView,
            >(q@),
            Err(e) => files_step(p@, files_view(files@), custom_text_address) == Err::<
                PatchView,
                MakeErrorView,
            >(e@),
        },
{
    let ghost all = files_view(files@);
    let mut cur = p;
    let mut i: usize = 0;
    assert(all.skip(0) == all);
    while i < files.len()
        invariant
            i <= files.len(),
            all == files_view(files@),
            files_step(p@, all, custom_text_address) == files_step(
                cur@,
                all.skip(i as int),
                custom_text_address,
            ),
        decreases files.len() - i,
    {
        proof {
            assert(all.skip(i as int)[0] == files@[i as int]@);
            assert(all.skip(i as int).drop_first() == all.skip(i + 1));
        }
        cur = match apply_file(cur, &files[i], custom_text_address) {
            Ok(q) => q,
            Err(e) => {
                return Err(e);
            },
        };
        i += 1;
    }
    assert(all.skip(files.len() as int).len() == 0);
    Ok(cur)
}

} // verus!
