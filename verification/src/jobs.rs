//! Compile jobs: which sources are compiled, with what, and whether a
//! source has to be compiled again.

use vstd::prelude::*;
use vstd::string::StringExecFns;

use crate::hook::symbol_safe::{max_path_len, path_to_symbol_safe, symbol_safe_text};
use crate::text::{
    chars_of, is_text, lowercase, ranges_text, split_fields, split_ranges, text_of, to_lowercase,
    trim, trim_end_index, trim_start_index,
};

verus! {

/// Why a source has to be compiled.
#[derive(Debug, PartialEq, Eq, Clone, Copy, Structural)]
pub enum BuildReason {
    /// Nothing is known of the files yet.
    Forced,
    ObjMissing,
    SrcMissing,
    /// The source was changed after the object was made.
    SrcNewer,
    /// A file that the source depends on was changed after the object was
    /// made.
    DependencyNewer,
    /// A file that the source depends on is gone.
    DependencyMissing,
    /// The list of the files that the source depends on is missing.
    NoDependencyFile,
}

/// The language of a source.
#[allow(clippy::upper_case_acronyms)]
#[derive(Debug, PartialEq, Eq, Clone, Copy, Structural)]
pub enum JobKind {
    C,
    CPP,
    ASM,
}

/// The language that a file extension stands for, whatever its case.
pub open spec fn kind_of_extension(ext: Seq<char>) -> Option<JobKind> {
    let l = lowercase(ext);
    if l == "c"@ {
        Some(JobKind::C)
    } else if l == "cpp"@ {
        Some(JobKind::CPP)
    } else if l == "s"@ {
        Some(JobKind::ASM)
    } else {
        None
    }
}

impl JobKind {
    /// The language of a file with this extension, if it is a source.
    pub fn from_ext(ext: &str) -> (r: Option<JobKind>)
        ensures
            r == kind_of_extension(ext@),
    {
        let v = chars_of(ext);
        assert(v@.subrange(0, v.len() as int) == v@);
        let l = to_lowercase(&v, 0, v.len());
        if is_text(&l, "c") {
            Some(JobKind::C)
        } else if is_text(&l, "cpp") {
            Some(JobKind::CPP)
        } else if is_text(&l, "s") {
            Some(JobKind::ASM)
        } else {
            None
        }
    }

    /// The compiler for sources of this language.
    pub fn compiler(self) -> (r: &'static str)
        ensures
            r@ == (match self {
                JobKind::C => "arm-none-eabi-gcc"@,
                JobKind::CPP => "arm-none-eabi-g++"@,
                JobKind::ASM => "arm-none-eabi-gcc"@,
            }),
    {
        match self {
            JobKind::C => "arm-none-eabi-gcc",
            JobKind::CPP => "arm-none-eabi-g++",
            JobKind::ASM => "arm-none-eabi-gcc",
        }
    }
}

/// What is known of a file: that it is not there, that it is there but has
/// no time of modification, or when it was modified, in nanoseconds since
/// the epoch.
#[derive(Debug, PartialEq, Eq, Clone, Copy, Structural)]
pub enum FileStamp {
    Missing,
    Untimed,
    Modified(u128),
}

/// The first reason that the files a source depends on give for compiling
/// it again: one of them is gone, or was changed after the object was
/// made.
pub open spec fn first_stale(obj_time: u128, deps: Seq<FileStamp>) -> Option<BuildReason>
    decreases deps.len(),
{
    if deps.len() == 0 {
        None
    } else {
        match deps[0] {
            FileStamp::Modified(t) => if t > obj_time {
                Some(BuildReason::DependencyNewer)
            } else {
                first_stale(obj_time, deps.drop_first())
            },
            _ => Some(BuildReason::DependencyMissing),
        }
    }
}

/// Why a source has to be compiled, or `None` if its object is up to date.
/// The source and the object are looked at first, then their times, then
/// the files that the source depends on, in the order of the list; a list
/// that could not be read is a reason by itself.
pub open spec fn build_reason_of(
    src: FileStamp,
    obj: FileStamp,
    deps: Option<Seq<FileStamp>>,
) -> Option<BuildReason> {
    match (src, obj) {
        (FileStamp::Missing, _) => Some(BuildReason::SrcMissing),
        (_, FileStamp::Missing) => Some(BuildReason::ObjMissing),
        (FileStamp::Untimed, _) => Some(BuildReason::SrcMissing),
        (_, FileStamp::Untimed) => Some(BuildReason::ObjMissing),
        (FileStamp::Modified(src_time), FileStamp::Modified(obj_time)) => if src_time > obj_time {
            Some(BuildReason::SrcNewer)
        } else {
            match deps {
                None => Some(BuildReason::NoDependencyFile),
                Some(list) => first_stale(obj_time, list),
            }
        },
    }
}

/// Why a source has to be compiled, or `None` if its object is up to date.
pub fn calc_build_reason(src: FileStamp, obj: FileStamp, deps: Option<&Vec<FileStamp>>) -> (r:
    Option<BuildReason>)
    ensures
        r == build_reason_of(
            src,
            obj,
            match deps {
                Some(list) => Some(list@),
                None => None,
            },
        ),
{
    let src_time = match src {
        FileStamp::Missing => {
            return Some(BuildReason::SrcMissing);
        },
        FileStamp::Untimed => {
            return match obj {
                FileStamp::Missing => Some(BuildReason::ObjMissing),
                _ => Some(BuildReason::SrcMissing),
            };
        },
        FileStamp::Modified(t) => t,
    };
    let obj_time = match obj {
        FileStamp::Missing => {
            return Some(BuildReason::ObjMissing);
        },
        FileStamp::Untimed => {
            return Some(BuildReason::ObjMissing);
        },
        FileStamp::Modified(t) => t,
    };
    if src_time > obj_time {
        return Some(BuildReason::SrcNewer);
    }
    let list = match deps {
        Some(list) => list,
        None => {
            return Some(BuildReason::NoDependencyFile);
        },
    };
    let mut i: usize = 0;
    assert(list@.skip(0) == list@);
    while i < list.len()
        invariant
            i <= list.len(),
            src == FileStamp::Modified(src_time),
            obj == FileStamp::Modified(obj_time),
            src_time <= obj_time,
            deps == Some(list),
            first_stale(obj_time, list@) == first_stale(obj_time, list@.skip(i as int)),
        decreases list.len() - i,
    {
        proof {
            assert(list@.skip(i as int)[0] == list@[i as int]);
            assert(list@.skip(i as int).drop_first() == list@.skip(i + 1));
        }
        match list[i] {
            FileStamp::Modified(t) => {
                if t > obj_time {
                    return Some(BuildReason::DependencyNewer);
                }
            },
            _ => {
                return Some(BuildReason::DependencyMissing);
            },
        }
        i += 1;
    }
    assert(list@.skip(list.len() as int).len() == 0);
    None
}

/// A source to compile: its language, where it lies, where its object and
/// its list of dependencies go, and why it has to be compiled, if it has
/// to.
#[derive(Debug, PartialEq)]
pub struct Job {
    pub kind: JobKind,
    pub src_path: String,
    pub obj_path: String,
    pub dep_path: String,
    pub build_reason: Option<BuildReason>,
}

/// A `Job` with its paths as sequences of characters.
pub struct JobView {
    pub kind: JobKind,
    pub src_path: Seq<char>,
    pub obj_path: Seq<char>,
    pub dep_path: Seq<char>,
    pub build_reason: Option<BuildReason>,
}

impl View for Job {
    type V = JobView;

    open spec fn view(&self) -> JobView {
        JobView {
            kind: self.kind,
            src_path: self.src_path@,
            obj_path: self.obj_path@,
            dep_path: self.dep_path@,
            build_reason: self.build_reason,
        }
    }
}

impl Clone for Job {
    fn clone(&self) -> (r: Self)
        ensures
            r@ == self@,
    {
        Job {
            kind: self.kind,
            src_path: self.src_path.clone(),
            obj_path: self.obj_path.clone(),
            dep_path: self.dep_path.clone(),
            build_reason: self.build_reason,
        }
    }
}

/// The arguments with which the compiler is called for a job: the list of
/// dependencies is asked for, then come the flags of the language, the
/// token of the source path as a macro, the source and the object.
pub open spec fn compiler_arguments_of(job: JobView, flags: Seq<Seq<char>>) -> Seq<Seq<char>> {
    seq!["-MMD"@, "-MF"@, job.dep_path] + flags + seq![
        "-D__mw_symbol_safe_filename="@ + symbol_safe_text(job.src_path),
        "-c"@,
        job.src_path,
        "-o"@,
        job.obj_path,
    ]
}

/// The texts of a list of strings.
pub open spec fn strings_view(list: Seq<String>) -> Seq<Seq<char>> {
    Seq::new(list.len(), |i: int| list[i]@)
}

/// The texts of a list of string slices.
pub open spec fn strs_view(list: Seq<&str>) -> Seq<Seq<char>> {
    Seq::new(list.len(), |i: int| list[i]@)
}

impl Job {
    /// A job for a source that has just been found: it has to be compiled
    /// until its files have been looked at.
    pub fn new(kind: JobKind, src_path: String, obj_path: String, dep_path: String) -> (r: Job)
        ensures
            r@ == (JobView {
                kind,
                src_path: src_path@,
                obj_path: obj_path@,
                dep_path: dep_path@,
                build_reason: Some(BuildReason::Forced),
            }),
    {
        Job { kind, src_path, obj_path, dep_path, build_reason: Some(BuildReason::Forced) }
    }

    /// Decides anew whether the source has to be compiled, from what is
    /// known of its files: the source, the object, and the files that the
    /// source depends on, or `None` for these if their list could not be
    /// read.
    pub fn update_build_reason(
        &mut self,
        src: FileStamp,
        obj: FileStamp,
        deps: Option<&Vec<FileStamp>>,
    )
        ensures
            *final(self) == (Job {
                build_reason: build_reason_of(
                    src,
                    obj,
                    match deps {
                        Some(list) => Some(list@),
                        None => None,
                    },
                ),
                ..*old(self)
            }),
    {
        self.build_reason = calc_build_reason(src, obj, deps);
    }

    /// Whether the source has to be compiled.
    pub fn build_required(&self) -> (r: bool)
        ensures
            r == self.build_reason is Some,
    {
        self.build_reason.is_some()
    }

    /// The arguments with which the compiler is called for this job.
    pub fn compiler_arguments(&self, flags: &Vec<&str>) -> (r: Vec<String>)
        requires
            self.src_path@.len() <= max_path_len(),
        ensures
            strings_view(r@) == compiler_arguments_of(self@, strs_view(flags@)),
    {
        let mut r: Vec<String> = Vec::new();
        r.push(String::from_str("-MMD"));
        r.push(String::from_str("-MF"));
        r.push(self.dep_path.clone());
        let ghost head = strings_view(r@);
        assert(head =~= seq!["-MMD"@, "-MF"@, self.dep_path@]);
        let mut i: usize = 0;
        while i < flags.len()
            invariant
                i <= flags.len(),
                strings_view(r@) == head + strs_view(flags@).take(i as int),
            decreases flags.len() - i,
        {
            let ghost before = strings_view(r@);
            r.push(String::from_str(flags[i]));
            assert(strings_view(r@) =~= before.push(flags@[i as int]@));
            assert(strs_view(flags@).take(i + 1) =~= strs_view(flags@).take(i as int).push(
                flags@[i as int]@,
            ));
            i += 1;
        }
        assert(strs_view(flags@).take(flags.len() as int) == strs_view(flags@));
        let ghost middle = strings_view(r@);
        let mut define = String::from_str("-D__mw_symbol_safe_filename=");
        define.append(path_to_symbol_safe(self.src_path.as_str()).as_str());
        r.push(define);
        r.push(String::from_str("-c"));
        r.push(self.src_path.clone());
        r.push(String::from_str("-o"));
        r.push(self.obj_path.clone());
        assert(strings_view(r@) =~= middle + seq![
            "-D__mw_symbol_safe_filename="@ + symbol_safe_text(self.src_path@),
            "-c"@,
            self.src_path@,
            "-o"@,
            self.obj_path@,
        ]);
        r
    }
}

/// The number of workers for that many jobs on a machine with that many
/// processors: one for each processor, but no more than there are jobs.
pub fn worker_count(cpus: usize, jobs: usize) -> (r: usize)
    ensures
        r == (if cpus <= jobs {
            cpus
        } else {
            jobs
        }),
{
    if cpus <= jobs {
        cpus
    } else {
        jobs
    }
}

/// The white space by which the entries of a dependency list are told
/// apart: space, tab, line feed, form feed and carriage return.
pub open spec fn is_ascii_space(c: char) -> bool {
    c == ' ' || c == '\t' || c == '\n' || c == '\u{c}' || c == '\r'
}

/// Number of characters before the first white space of `s`.
pub open spec fn word_len(s: Seq<char>) -> nat
    decreases s.len(),
{
    if s.len() == 0 || is_ascii_space(s[0]) {
        0
    } else {
        1 + word_len(s.drop_first())
    }
}

/// A word is no longer than the text that it starts.
proof fn lemma_word_len_bound(s: Seq<char>)
    ensures
        word_len(s) <= s.len(),
    decreases s.len(),
{
    if !(s.len() == 0 || is_ascii_space(s[0])) {
        lemma_word_len_bound(s.drop_first());
    }
}

/// The words of `s`: what stands between white space.
pub open spec fn words(s: Seq<char>) -> Seq<Seq<char>>
    decreases s.len(),
    via words_shrinks
{
    if s.len() == 0 {
        Seq::empty()
    } else if is_ascii_space(s[0]) {
        words(s.drop_first())
    } else {
        seq![s.take(word_len(s) as int)] + words(s.skip(word_len(s) as int))
    }
}

/// What follows a word is shorter than what the word started.
#[via_fn]
proof fn words_shrinks(s: Seq<char>) {
    lemma_word_len_bound(s);
}

/// Whether a word of a dependency list names a file: the line
/// continuation `\` and the targets, which end in a colon, do not.
pub open spec fn is_dependency(token: Seq<char>) -> bool {
    token != seq!['\\'] && !(token.len() > 0 && token.last() == ':')
}

/// The files that a list of words names, each word without white space of
/// any kind around it.
pub open spec fn words_paths(tokens: Seq<Seq<char>>) -> Seq<Seq<char>>
    decreases tokens.len(),
{
    if tokens.len() == 0 {
        Seq::empty()
    } else {
        let rest = words_paths(tokens.drop_last());
        let token = trim(tokens.last());
        if is_dependency(token) {
            rest.push(token)
        } else {
            rest
        }
    }
}

/// The files that one line of a dependency list names.
pub open spec fn line_paths(line: Seq<char>) -> Seq<Seq<char>> {
    words_paths(words(trim(line)))
}

/// The files that the lines of a dependency list name, line by line.
pub open spec fn lines_paths(lines: Seq<Seq<char>>) -> Seq<Seq<char>>
    decreases lines.len(),
{
    if lines.len() == 0 {
        Seq::empty()
    } else {
        lines_paths(lines.drop_last()) + line_paths(lines.last())
    }
}

/// The files that a dependency list, as the compiler writes it for make,
/// names, in the order of the list.
pub open spec fn dep_paths(text: Seq<char>) -> Seq<Seq<char>> {
    lines_paths(split_fields(text, '\n'))
}

/// Whether `c` is white space between the entries of a dependency list.
fn is_ascii_whitespace(c: char) -> (r: bool)
    ensures
        r == is_ascii_space(c),
{
    c == ' ' || c == '\t' || c == '\n' || c == '\u{c}' || c == '\r'
}

/// End of the word that starts at `from`.
fn word_end(v: &Vec<char>, from: usize, to: usize) -> (e: usize)
    requires
        from <= to <= v.len(),
    ensures
        from <= e <= to,
        e - from == word_len(v@.subrange(from as int, to as int)),
{
    let mut e: usize = from;
    while e < to && !is_ascii_whitespace(v[e])
        invariant
            from <= e <= to <= v.len(),
            word_len(v@.subrange(from as int, to as int)) == (e - from) + word_len(
                v@.subrange(e as int, to as int),
            ),
        decreases to - e,
    {
        assert(v@.subrange(e as int, to as int).drop_first() == v@.subrange(e + 1, to as int));
        e += 1;
    }
    e
}

/// Appends to `out` the files that the words of `v[from..to]` name.
fn push_words_paths(v: &Vec<char>, from: usize, to: usize, out: &mut Vec<String>)
    requires
        from <= to <= v.len(),
    ensures
        strings_view(final(out)@) == strings_view(old(out)@) + words_paths(
            words(v@.subrange(from as int, to as int)),
        ),
{
    let ghost start = strings_view(out@);
    let ghost line = v@.subrange(from as int, to as int);
    let ghost mut done: Seq<Seq<char>> = Seq::empty();
    let mut p: usize = from;
    proof {
        assert(start + words_paths(done) =~= start);
        assert(done + words(line) =~= words(line));
    }
    while p < to
        invariant
            from <= p <= to <= v.len(),
            line == v@.subrange(from as int, to as int),
            words(line) == done + words(v@.subrange(p as int, to as int)),
            strings_view(out@) == start + words_paths(done),
        decreases to - p,
    {
        let ghost rest = v@.subrange(p as int, to as int);
        if is_ascii_whitespace(v[p]) {
            assert(rest.drop_first() == v@.subrange(p + 1, to as int));
            p += 1;
        } else {
            let e = word_end(v, p, to);
            let a = trim_start_index(v, p, e);
            let b = trim_end_index(v, a, e);
            let ghost word = v@.subrange(p as int, e as int);
            proof {
                assert(rest.take(e - p) == word);
                assert(rest.skip(e - p) == v@.subrange(e as int, to as int));
                assert(word.skip(a - p) == v@.subrange(a as int, e as int));
                assert(v@.subrange(a as int, e as int).take(b - a) == v@.subrange(
                    a as int,
                    b as int,
                ));
                assert(trim(word) == v@.subrange(a as int, b as int));
                assert((done + seq![word]) + words(v@.subrange(e as int, to as int)) =~= done + (
                seq![word] + words(v@.subrange(e as int, to as int))));
                assert(done.push(word).drop_last() == done);
                assert(done + seq![word] =~= done.push(word));
            }
            let ghost token = v@.subrange(a as int, b as int);
            let continuation = b - a == 1 && v[a] == '\\';
            let target = b > a && v[b - 1] == ':';
            proof {
                if continuation {
                    assert(token =~= seq!['\\']);
                }
                if token == seq!['\\'] {
                    assert(token.len() == 1 && token[0] == '\\');
                }
            }
            if !continuation && !target {
                let ghost before = strings_view(out@);
                out.push(text_of(v, a, b));
                assert(strings_view(out@) =~= before.push(token));
                assert((start + words_paths(done)).push(token) =~= start + words_paths(done).push(
                    token,
                ));
            }
            proof {
                done = done.push(word);
            }
            p = e;
        }
    }
    assert(v@.subrange(to as int, to as int).len() == 0);
    assert(done + Seq::<Seq<char>>::empty() =~= done);
}

/// The files that a dependency list names.
pub fn dep_file_paths(text: &str) -> (r: Vec<String>)
    ensures
        strings_view(r@) == dep_paths(text@),
{
    let v = chars_of(text);
    let lines = split_ranges(&v, '\n');
    let ghost fields = split_fields(v@, '\n');
    let mut out: Vec<String> = Vec::new();
    let mut k: usize = 0;
    assert(fields.take(0).len() == 0);
    assert(strings_view(out@) =~= lines_paths(fields.take(0)));
    while k < lines.len()
        invariant
            k <= lines.len(),
            fields == split_fields(v@, '\n'),
            ranges_text(v@, lines@) == fields,
            forall|j: int| 0 <= j < lines.len() ==> (#[trigger] lines[j]).0 <= lines[j].1 <= v.len(),
            strings_view(out@) == lines_paths(fields.take(k as int)),
        decreases lines.len() - k,
    {
        let (from, to) = lines[k];
        let a = trim_start_index(&v, from, to);
        let b = trim_end_index(&v, a, to);
        proof {
            let line = v@.subrange(from as int, to as int);
            assert(ranges_text(v@, lines@)[k as int] == line);
            assert(line.skip(a - from) == v@.subrange(a as int, to as int));
            assert(v@.subrange(a as int, to as int).take(b - a) == v@.subrange(a as int, b as int));
            assert(trim(line) == v@.subrange(a as int, b as int));
            assert(fields.take(k + 1).drop_last() == fields.take(k as int));
            assert(fields.take(k + 1).last() == line);
        }
        push_words_paths(&v, a, b, &mut out);
        k += 1;
    }
    assert(fields.take(lines.len() as int) == fields);
    out
}

} // verus!
