use vstd::prelude::*;

use super::error::{MetaParsingError, MetaParsingErrorView};
use super::location::{HookLocation, HookLocationView};
use super::symbol_safe::{max_token_len, symbol_safe_path, symbol_safe_to_path};
use crate::text::{
    chars_of, join_fields, lemma_split_of_joined, parse_u32, ranges_text, read_u32, split_fields,
    split_ranges, text_of,
};

verus! {

/// The five fields of a hook tag `KIND$ARG$ENCPATH$LINE$COUNTER`, the kind
/// and its argument still as text.
pub struct HookMeta<'a> {
    pub kind_str: &'a str,
    pub arg_str: &'a str,
    pub location: HookLocation,
    pub counter: u32,
}

/// A `HookMeta` with its texts as sequences of characters.
pub struct HookMetaView {
    pub kind: Seq<char>,
    pub arg: Seq<char>,
    pub location: HookLocationView,
    pub counter: u32,
}

impl<'a> View for HookMeta<'a> {
    type V = HookMetaView;

    open spec fn view(&self) -> HookMetaView {
        HookMetaView {
            kind: self.kind_str@,
            arg: self.arg_str@,
            location: self.location@,
            counter: self.counter,
        }
    }
}

/// What a tag holds.  The fields are looked for in their order, so the
/// first one that is absent decides the error; only when all five are there
/// is the file decoded, then the line read, then the counter.  Fields after
/// the fifth are ignored.
pub open spec fn parse_meta(s: Seq<char>) -> Result<HookMetaView, MetaParsingErrorView> {
    let f = split_fields(s, '$');
    if s.len() == 0 {
        Err(MetaParsingErrorView::MissingKind)
    } else if f.len() < 2 {
        Err(MetaParsingErrorView::MissingArgument)
    } else if f.len() < 3 {
        Err(MetaParsingErrorView::MissingFile)
    } else if f.len() < 4 {
        Err(MetaParsingErrorView::MissingLine)
    } else if f.len() < 5 {
        Err(MetaParsingErrorView::MissingCounter)
    } else {
        match symbol_safe_path(f[2]) {
            Err(e) => Err(MetaParsingErrorView::InvalidFile(e)),
            Ok(file) => match parse_u32(f[3], 10) {
                None => Err(MetaParsingErrorView::InvalidLine(f[3])),
                Some(line) => match parse_u32(f[4], 10) {
                    None => Err(MetaParsingErrorView::InvalidCounter(f[4])),
                    Some(counter) => Ok(
                        HookMetaView {
                            kind: f[0],
                            arg: f[1],
                            location: HookLocationView { file, line },
                            counter,
                        },
                    ),
                },
            },
        }
    }
}

impl<'a> HookMeta<'a> {
    /// Splits a tag, already without its prefix, into its fields.
    pub fn from_str(s: &'a str) -> (r: Result<HookMeta<'a>, MetaParsingError>)
        requires
            s@.len() <= max_token_len(),
        ensures
            match r {
                Ok(m) => parse_meta(s@) == Ok::<HookMetaView, MetaParsingErrorView>(m@),
                Err(e) => parse_meta(s@) == Err::<HookMetaView, MetaParsingErrorView>(e@),
            },
    {
        let v = chars_of(s);
        if v.len() == 0 {
            return Err(MetaParsingError::MissingKind);
        }
        let fields = split_ranges(&v, '$');
        let ghost f = split_fields(s@, '$');
        assert(f.len() == fields.len());
        if fields.len() < 2 {
            return Err(MetaParsingError::MissingArgument);
        }
        if fields.len() < 3 {
            return Err(MetaParsingError::MissingFile);
        }
        if fields.len() < 4 {
            return Err(MetaParsingError::MissingLine);
        }
        if fields.len() < 5 {
            return Err(MetaParsingError::MissingCounter);
        }
        let (kind_from, kind_to) = fields[0];
        let (arg_from, arg_to) = fields[1];
        let (file_from, file_to) = fields[2];
        let (line_from, line_to) = fields[3];
        let (counter_from, counter_to) = fields[4];
        proof {
            assert(ranges_text(v@, fields@)[0] == f[0]);
            assert(ranges_text(v@, fields@)[1] == f[1]);
            assert(ranges_text(v@, fields@)[2] == f[2]);
            assert(ranges_text(v@, fields@)[3] == f[3]);
            assert(ranges_text(v@, fields@)[4] == f[4]);
        }
        let file_text = text_of(&v, file_from, file_to);
        let file = match symbol_safe_to_path(file_text.as_str()) {
            Ok(file) => file,
            Err(e) => {
                return Err(MetaParsingError::InvalidFile(e));
            },
        };
        let line = match read_u32(&v, line_from, line_to, 10) {
            Some(line) => line,
            None => {
                return Err(MetaParsingError::InvalidLine(text_of(&v, line_from, line_to)));
            },
        };
        let counter = match read_u32(&v, counter_from, counter_to, 10) {
            Some(counter) => counter,
            None => {
                return Err(
                    MetaParsingError::InvalidCounter(text_of(&v, counter_from, counter_to)),
                );
            },
        };
        Ok(
            HookMeta {
                kind_str: s.substring_char(kind_from, kind_to),
                arg_str: s.substring_char(arg_from, arg_to),
                location: HookLocation { file, line },
                counter,
            },
        )
    }
}

/// A tag that stops short is refused for the first field that it lacks: the
/// five errors come in the order of the fields.
pub proof fn lemma_missing_fields_in_order(s: Seq<char>)
    ensures
        s.len() == 0 ==> parse_meta(s) == Err::<HookMetaView, MetaParsingErrorView>(
            MetaParsingErrorView::MissingKind,
        ),
        s.len() > 0 && split_fields(s, '$').len() == 1 ==> parse_meta(s) == Err::<
            HookMetaView,
            MetaParsingErrorView,
        >(MetaParsingErrorView::MissingArgument),
        s.len() > 0 && split_fields(s, '$').len() == 2 ==> parse_meta(s) == Err::<
            HookMetaView,
            MetaParsingErrorView,
        >(MetaParsingErrorView::MissingFile),
        s.len() > 0 && split_fields(s, '$').len() == 3 ==> parse_meta(s) == Err::<
            HookMetaView,
            MetaParsingErrorView,
        >(MetaParsingErrorView::MissingLine),
        s.len() > 0 && split_fields(s, '$').len() == 4 ==> parse_meta(s) == Err::<
            HookMetaView,
            MetaParsingErrorView,
        >(MetaParsingErrorView::MissingCounter),
        s.len() > 0 && split_fields(s, '$').len() >= 5 ==> !(parse_meta(s)
            matches Err(MetaParsingErrorView::MissingKind))
            && !(parse_meta(s) matches Err(MetaParsingErrorView::MissingArgument))
            && !(parse_meta(s) matches Err(MetaParsingErrorView::MissingFile))
            && !(parse_meta(s) matches Err(MetaParsingErrorView::MissingLine))
            && !(parse_meta(s) matches Err(MetaParsingErrorView::MissingCounter)),
{
}

/// The error that names the field with this index.
pub open spec fn missing_field(index: int) -> MetaParsingErrorView {
    if index == 0 {
        MetaParsingErrorView::MissingKind
    } else if index == 1 {
        MetaParsingErrorView::MissingArgument
    } else if index == 2 {
        MetaParsingErrorView::MissingFile
    } else if index == 3 {
        MetaParsingErrorView::MissingLine
    } else {
        MetaParsingErrorView::MissingCounter
    }
}

/// A tag cut off behind its first `count` fields, `count` below five, is
/// refused for the field that would come next.  Cut off before its first
/// field it is empty, and the kind is what is missing.
pub proof fn lemma_truncated_tag(fields: Seq<Seq<char>>, count: int)
    requires
        0 <= count < 5,
        count <= fields.len(),
        forall|i: int| 0 <= i < fields.len() ==> !(#[trigger] fields[i]).contains('$'),
        fields.len() > 0 ==> fields[0].len() > 0,
    ensures
        parse_meta(join_fields(fields.take(count), '$')) == Err::<
            HookMetaView,
            MetaParsingErrorView,
        >(missing_field(count)),
{
    let kept = fields.take(count);
    if count > 0 {
        assert forall|i: int| 0 <= i < kept.len() implies !(#[trigger] kept[i]).contains('$') by {
            assert(kept[i] == fields[i]);
        }
        lemma_split_of_joined(kept, '$');
        lemma_joined_is_not_empty(kept, '$');
    }
}

/// What starts with a field that is not empty is not empty.
proof fn lemma_joined_is_not_empty(fields: Seq<Seq<char>>, sep: char)
    requires
        fields.len() > 0,
        fields[0].len() > 0,
    ensures
        join_fields(fields, sep).len() > 0,
{
}

} // verus!
