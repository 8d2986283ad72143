//! Trampolines: the code that wraps an instruction with calls before and
//! after it.

use vstd::prelude::*;

use super::prepost::{Callback, PrePostEntry, PrePostEntryView};
use crate::bytes::{from_le_bytes, le_bytes, le_word, to_le_bytes, words_bytes, words_to_bytes};
use crate::hook::arm::{
    branch_encoding, make_branch_u32, make_pop_u32, make_push_u32, pop_word, push_word,
    relocate_u32, relocation, ArmCondition,
};
use crate::hook::error::WriterError;
use crate::hook::location::HookLocationView;
use crate::hook::writer::{HookExtraPos, HookWriter, HookWriterView};

verus! {

/// The registers that a trampoline saves around a callback: r0 to r12 and
/// lr.
pub const SAVED_REGISTERS: u16 = 0x5FFF;

/// Why no trampoline could be built or placed.
#[derive(Debug, PartialEq, Eq, Clone, Copy, Structural)]
pub enum TrampolineError {
    /// The trampoline belongs into the loader arena, whose cursor is not
    /// set.
    LoaderExtraAddressNotSet,
    /// The instruction to wrap does not lie inside the image.
    OriginalUnreadable(WriterError),
    /// The trampoline is too far from the instruction.
    JumpOutOfRange,
    /// The instruction may not be overwritten.
    JumpWrite(WriterError),
    /// The trampoline would not end within the address space.
    TooLarge,
    /// The callback at this address is too far from the trampoline.
    CallbackOutOfRange(u32),
    /// The instruction is a branch that cannot be moved into the
    /// trampoline.
    RelocationFailed,
    /// The way back from the trampoline is too long.
    ReturnOutOfRange,
    /// The arena does not take the trampoline.
    Commit(WriterError),
}

/// The addresses of a list of callbacks.
pub open spec fn targets(list: Seq<(u32, HookLocationView)>) -> Seq<u32> {
    Seq::new(list.len(), |i: int| list[i].0)
}

/// The words that call the callbacks one after the other, the first word
/// standing at `at`: for each callback a push of the saved registers, a
/// linking branch to the callback, and a pop.  The first callback that is
/// out of reach is the error.
pub open spec fn calls_words(at: int, callbacks: Seq<u32>) -> Result<Seq<u32>, TrampolineError>
    decreases callbacks.len(),
{
    if callbacks.len() == 0 {
        Ok(Seq::empty())
    } else {
        match branch_encoding(true, (at + 4) as u32, callbacks[0], ArmCondition::AL) {
            None => Err(TrampolineError::CallbackOutOfRange(callbacks[0])),
            Some(call) => match calls_words(at + 12, callbacks.drop_first()) {
                Err(e) => Err(e),
                Ok(rest) => Ok(
                    seq![
                        push_word(SAVED_REGISTERS, ArmCondition::AL),
                        call,
                        pop_word(SAVED_REGISTERS, ArmCondition::AL),
                    ] + rest,
                ),
            },
        }
    }
}

/// Number of bytes of a trampoline with that many callbacks.
pub open spec fn trampoline_size(pre: nat, post: nat) -> int {
    (12 * pre + 4 + 12 * post + 4) as int
}

/// The words of the trampoline that stands at `base` and wraps the
/// instruction of `from_addr`, whose word is `instruction`: the calls of
/// the `pre` callbacks, the instruction itself, moved, the calls of the
/// `post` callbacks, and a branch back to the instruction behind
/// `from_addr`.
pub open spec fn trampoline(
    instruction: u32,
    from_addr: u32,
    base: u32,
    pre: Seq<u32>,
    post: Seq<u32>,
) -> Result<Seq<u32>, TrampolineError> {
    let moved_at = base + 12 * pre.len();
    let return_at = moved_at + 4 + 12 * post.len();
    if base + trampoline_size(pre.len(), post.len()) > u32::MAX || from_addr + 4 > u32::MAX {
        Err(TrampolineError::TooLarge)
    } else {
        match calls_words(base as int, pre) {
            Err(e) => Err(e),
            Ok(before) => match relocation(instruction, from_addr, moved_at as u32) {
                None => Err(TrampolineError::RelocationFailed),
                Some(moved) => match calls_words(moved_at + 4, post) {
                    Err(e) => Err(e),
                    Ok(after) => match branch_encoding(
                        false,
                        return_at as u32,
                        (from_addr + 4) as u32,
                        ArmCondition::AL,
                    ) {
                        None => Err(TrampolineError::ReturnOutOfRange),
                        Some(back) => Ok(((before + seq![moved]) + after) + seq![back]),
                    },
                },
            },
        }
    }
}

/// What building the trampoline of an entry does to the image: the
/// instruction at the site is read and replaced by a branch to the
/// trampoline, and the trampoline is committed to the entry's arena.
pub open spec fn trampoline_step(w: HookWriterView, e: PrePostEntryView) -> Result<
    HookWriterView,
    TrampolineError,
> {
    match w.extra_address(e.extra_pos) {
        None => Err(TrampolineError::LoaderExtraAddressNotSet),
        Some(base) => match w.read_outcome(e.from_addr, 4) {
            Err(x) => Err(TrampolineError::OriginalUnreadable(x)),
            Ok(instruction) => match branch_encoding(false, e.from_addr, base, ArmCondition::AL) {
                None => Err(TrampolineError::JumpOutOfRange),
                Some(jump) => match w.write_outcome(e.from_addr, le_bytes(jump)) {
                    Err(x) => Err(TrampolineError::JumpWrite(x)),
                    Ok(()) => match trampoline(
                        le_word(instruction),
                        e.from_addr,
                        base,
                        targets(e.pre),
                        targets(e.post),
                    ) {
                        Err(x) => Err(x),
                        Ok(words) => {
                            let committed = w.written(e.from_addr, le_bytes(jump)).committed(
                                e.extra_pos,
                                base,
                                words_bytes(words),
                            );
                            match committed.0 {
                                Err(x) => Err(TrampolineError::Commit(x)),
                                Ok(()) => Ok(committed.1),
                            }
                        },
                    },
                },
            },
        },
    }
}

/// `done`, then what `rest` holds.
spec fn after_words(done: Seq<u32>, rest: Result<Seq<u32>, TrampolineError>) -> Result<
    Seq<u32>,
    TrampolineError,
> {
    match rest {
        Ok(words) => Ok(done + words),
        Err(e) => Err(e),
    }
}

/// Appends the calls of `callbacks` to `words`; the first of the new words
/// stands at `at`.
fn push_calls(words: &mut Vec<u32>, at: u32, callbacks: &Vec<Callback>) -> (r: Result<
    (),
    TrampolineError,
>)
    requires
        at + 12 * callbacks.len() <= u32::MAX,
    ensures
        match calls_words(at as int, targets(super::prepost::callbacks_view(callbacks@))) {
            Ok(calls) => r is Ok && final(words)@ == old(words)@ + calls && calls.len() == 3
                * callbacks.len(),
            Err(e) => r == Err::<(), TrampolineError>(e),
        },
{
    let ghost all = targets(super::prepost::callbacks_view(callbacks@));
    let ghost start = words@;
    let mut i: usize = 0;
    let mut here: u32 = at;
    proof {
        assert(all.skip(0) == all);
        assert(start + Seq::<u32>::empty() == start);
    }
    let ghost mut done: Seq<u32> = Seq::empty();
    while i < callbacks.len()
        invariant
            i <= callbacks.len(),
            here == at + 12 * i,
            at + 12 * callbacks.len() <= u32::MAX,
            all == targets(super::prepost::callbacks_view(callbacks@)),
            done.len() == 3 * i,
            words@ == start + done,
            calls_words(at as int, all) == after_words(done, calls_words(here as int, all.skip(i as int))),
        decreases callbacks.len() - i,
    {
        let target = callbacks[i].0;
        proof {
            assert(all.skip(i as int)[0] == target);
            assert(all.skip(i as int).drop_first() == all.skip(i + 1));
        }
        let call = match make_branch_u32(true, here + 4, target, ArmCondition::AL) {
            Some(call) => call,
            None => {
                return Err(TrampolineError::CallbackOutOfRange(target));
            },
        };
        let push = make_push_u32(SAVED_REGISTERS, ArmCondition::AL);
        let pop = make_pop_u32(SAVED_REGISTERS, ArmCondition::AL);
        words.push(push);
        words.push(call);
        words.push(pop);
        proof {
            let triple = seq![push, call, pop];
            let rest = calls_words(here + 12, all.skip(i + 1));
            assert(words@ =~= start + (done + triple));
            match rest {
                Ok(r) => {
                    assert((done + triple) + r =~= done + (triple + r));
                },
                Err(_) => {},
            }
            done = done + triple;
        }
        here = here + 12;
        i += 1;
    }
    proof {
        assert(all.skip(callbacks.len() as int).len() == 0);
        assert(done + Seq::<u32>::empty() == done);
    }
    Ok(())
}

/// Builds the words of the trampoline that stands at `base` and wraps the
/// instruction of `from_addr`, whose word is `instruction`.
pub fn trampoline_words(
    instruction: u32,
    from_addr: u32,
    base: u32,
    pre: &Vec<Callback>,
    post: &Vec<Callback>,
) -> (r: Result<Vec<u32>, TrampolineError>)
    ensures
        match r {
            Ok(words) => trampoline(
                instruction,
                from_addr,
                base,
                targets(super::prepost::callbacks_view(pre@)),
                targets(super::prepost::callbacks_view(post@)),
            ) == Ok::<Seq<u32>, TrampolineError>(words@) && words.len() == 3 * pre.len() + 3
                * post.len() + 2,
            Err(e) => trampoline(
                instruction,
                from_addr,
                base,
                targets(super::prepost::callbacks_view(pre@)),
                targets(super::prepost::callbacks_view(post@)),
            ) == Err::<Seq<u32>, TrampolineError>(e),
        },
{
    let ghost before_list = targets(super::prepost::callbacks_view(pre@));
    let ghost after_list = targets(super::prepost::callbacks_view(post@));
    assert(before_list.len() == pre.len() && after_list.len() == post.len());
    // Sizes are counted in 64 bits, where they cannot overflow for lists
    // that fit into memory.
    if pre.len() > 0x2000_0000 || post.len() > 0x2000_0000 {
        return Err(TrampolineError::TooLarge);
    }
    let size: u64 = 12 * (pre.len() as u64) + 4 + 12 * (post.len() as u64) + 4;
    if base as u64 + size > 0xFFFF_FFFF || from_addr > 0xFFFF_FFFF - 4 {
        return Err(TrampolineError::TooLarge);
    }
    let moved_at: u32 = base + 12 * (pre.len() as u32);
    let return_at: u32 = moved_at + 4 + 12 * (post.len() as u32);
    let mut words: Vec<u32> = Vec::new();
    match push_calls(&mut words, base, pre) {
        Ok(()) => {},
        Err(e) => {
            return Err(e);
        },
    }
    let ghost before = words@;
    let moved = match relocate_u32(instruction, from_addr, moved_at) {
        Some(moved) => moved,
        None => {
            return Err(TrampolineError::RelocationFailed);
        },
    };
    words.push(moved);
    let ghost middle = words@;
    assert(middle == before + seq![moved]);
    match push_calls(&mut words, moved_at + 4, post) {
        Ok(()) => {},
        Err(e) => {
            return Err(e);
        },
    }
    let back = match make_branch_u32(false, return_at, from_addr + 4, ArmCondition::AL) {
        Some(back) => back,
        None => {
            return Err(TrampolineError::ReturnOutOfRange);
        },
    };
    let ghost filled = words@;
    words.push(back);
    assert(words@ == filled + seq![back]);
    Ok(words)
}

/// Builds the trampoline of `entry` and puts it into the image: the
/// instruction at the entry's site gives way to a branch to the
/// trampoline, which is committed to the entry's arena.
pub fn emit_trampoline(writer: HookWriter, entry: &PrePostEntry) -> (r: Result<
    HookWriter,
    TrampolineError,
>)
    ensures
        match r {
            Ok(w) => trampoline_step(writer@, entry@) == Ok::<HookWriterView, TrampolineError>(w@),
            Err(e) => trampoline_step(writer@, entry@) == Err::<HookWriterView, TrampolineError>(
                e,
            ),
        },
{
    let mut writer = writer;
    let ghost start = writer@;
    let pos = entry.extra_pos;
    let base = match pos {
        HookExtraPos::Loader => match writer.loader_extra_address() {
            Some(base) => base,
            None => {
                return Err(TrampolineError::LoaderExtraAddressNotSet);
            },
        },
        HookExtraPos::Tail => writer.end_address(),
    };
    let instruction = match writer.read::<4>(entry.from_addr) {
        Ok(bytes) => from_le_bytes(bytes),
        Err(x) => {
            return Err(TrampolineError::OriginalUnreadable(x));
        },
    };
    let jump = match make_branch_u32(false, entry.from_addr, base, ArmCondition::AL) {
        Some(jump) => jump,
        None => {
            return Err(TrampolineError::JumpOutOfRange);
        },
    };
    let jump_bytes = to_le_bytes(jump);
    match writer.write(entry.from_addr, jump_bytes.as_slice()) {
        Ok(()) => {},
        Err(x) => {
            return Err(TrampolineError::JumpWrite(x));
        },
    }
    let words = match trampoline_words(instruction, entry.from_addr, base, &entry.pre, &entry.post) {
        Ok(words) => words,
        Err(e) => {
            return Err(e);
        },
    };
    let code = words_to_bytes(&words);
    proof {
        crate::bytes::lemma_words_bytes_len(words@);
    }
    let ghost mid = writer@;
    let place = |outer: &mut HookWriter, nested: &mut HookWriter|
        requires
            old(nested)@ == HookWriterView::fresh(base),
            base + code@.len() <= u32::MAX,
        ensures
            *final(outer) == *old(outer),
            final(nested)@.data == code@,
        {
            let _ = nested.write_end(code.as_slice());
            assert(nested@.data =~= code@);
        };
    match writer.write_extra(pos, place) {
        Ok(()) => Ok(writer),
        Err(x) => Err(TrampolineError::Commit(x)),
    }
}

/// The three words that call `callback` from a call that starts at `at`,
/// if the callback can be reached from there.
pub open spec fn call_triple(at: int, callback: u32) -> Option<Seq<u32>> {
    match branch_encoding(true, (at + 4) as u32, callback, ArmCondition::AL) {
        Some(call) => Some(
            seq![
                push_word(SAVED_REGISTERS, ArmCondition::AL),
                call,
                pop_word(SAVED_REGISTERS, ArmCondition::AL),
            ],
        ),
        None => None,
    }
}

/// The `i`-th group of three words from index `start` on.
pub open spec fn triple_at(words: Seq<u32>, start: int, i: int) -> Seq<u32> {
    words.subrange(start + 3 * i, start + 3 * i + 3)
}

/// The calls of a list of callbacks are three words to a callback, and the
/// `i`-th three are the call of the `i`-th callback, which stands twelve
/// bytes behind the one before.
pub proof fn lemma_calls_layout(at: int, callbacks: Seq<u32>)
    requires
        calls_words(at, callbacks) is Ok,
    ensures
        calls_words(at, callbacks).unwrap().len() == 3 * callbacks.len(),
        forall|i: int|
            0 <= i < callbacks.len() ==> Some(
                #[trigger] triple_at(calls_words(at, callbacks).unwrap(), 0, i),
            ) == call_triple(at + 12 * i, callbacks[i]),
    decreases callbacks.len(),
{
    if callbacks.len() > 0 {
        let rest = callbacks.drop_first();
        lemma_calls_layout(at + 12, rest);
        let words = calls_words(at, callbacks).unwrap();
        let tail = calls_words(at + 12, rest).unwrap();
        let head = call_triple(at, callbacks[0]).unwrap();
        assert(words == head + tail);
        assert forall|i: int| 0 <= i < callbacks.len() implies Some(
            #[trigger] triple_at(words, 0, i),
        ) == call_triple(at + 12 * i, callbacks[i]) by {
            if i == 0 {
                assert(triple_at(words, 0, 0) =~= head);
            } else {
                assert(Some(triple_at(tail, 0, i - 1)) == call_triple(
                    at + 12 + 12 * (i - 1),
                    rest[i - 1],
                ));
                assert(triple_at(words, 0, i) =~= triple_at(tail, 0, i - 1));
                assert(rest[i - 1] == callbacks[i]);
            }
        }
    }
}

/// What a trampoline is made of: the calls of the callbacks that run
/// before the instruction, three words each; the instruction, moved to
/// where it stands now; the calls of the callbacks that run after it; and,
/// as its last word, a branch to the instruction behind the site.
pub proof fn lemma_trampoline_layout(
    instruction: u32,
    from_addr: u32,
    base: u32,
    pre: Seq<u32>,
    post: Seq<u32>,
)
    requires
        trampoline(instruction, from_addr, base, pre, post) is Ok,
    ensures
        ({
            let words = trampoline(instruction, from_addr, base, pre, post).unwrap();
            let moved_at = base + 12 * pre.len();
            let return_at = moved_at + 4 + 12 * post.len();
            &&& words.len() == 3 * pre.len() + 1 + 3 * post.len() + 1
            &&& return_at + 4 <= u32::MAX
            &&& forall|i: int|
                0 <= i < pre.len() ==> Some(#[trigger] triple_at(words, 0, i)) == call_triple(
                    base + 12 * i,
                    pre[i],
                )
            &&& Some(words[3 * pre.len() as int]) == relocation(instruction, from_addr, moved_at as u32)
            &&& forall|i: int|
                0 <= i < post.len() ==> Some(
                    #[trigger] triple_at(words, 3 * pre.len() as int + 1, i),
                ) == call_triple(moved_at + 4 + 12 * i, post[i])
            &&& Some(words.last()) == branch_encoding(
                false,
                return_at as u32,
                (from_addr + 4) as u32,
                ArmCondition::AL,
            )
        }),
{
    let words = trampoline(instruction, from_addr, base, pre, post).unwrap();
    let moved_at = base + 12 * pre.len();
    let before = calls_words(base as int, pre).unwrap();
    let after = calls_words(moved_at + 4, post).unwrap();
    lemma_calls_layout(base as int, pre);
    lemma_calls_layout(moved_at + 4, post);
    assert forall|i: int| 0 <= i < pre.len() implies Some(#[trigger] triple_at(words, 0, i))
        == call_triple(base + 12 * i, pre[i]) by {
        assert(Some(triple_at(before, 0, i)) == call_triple(base + 12 * i, pre[i]));
        assert(triple_at(words, 0, i) =~= triple_at(before, 0, i));
    }
    assert forall|i: int| 0 <= i < post.len() implies Some(
        #[trigger] triple_at(words, 3 * pre.len() as int + 1, i),
    ) == call_triple(moved_at + 4 + 12 * i, post[i]) by {
        assert(Some(triple_at(after, 0, i)) == call_triple(moved_at + 4 + 12 * i, post[i]));
        assert(triple_at(words, 3 * pre.len() as int + 1, i) =~= triple_at(after, 0, i));
    }
}

/// The last word of a trampoline is the branch back to the instruction
/// behind the site.
proof fn lemma_trampoline_last_word(
    instruction: u32,
    from_addr: u32,
    base: u32,
    pre: Seq<u32>,
    post: Seq<u32>,
)
    requires
        trampoline(instruction, from_addr, base, pre, post) is Ok,
    ensures
        base + 12 * pre.len() + 4 + 12 * post.len() + 4 <= u32::MAX,
        from_addr + 4 <= u32::MAX,
        Some(trampoline(instruction, from_addr, base, pre, post).unwrap().last())
            == branch_encoding(
            false,
            (base + 12 * pre.len() + 4 + 12 * post.len()) as u32,
            (from_addr + 4) as u32,
            ArmCondition::AL,
        ),
{
    let moved_at = base + 12 * pre.len();
    let return_at = moved_at + 4 + 12 * post.len();
    let before = calls_words(base as int, pre).unwrap();
    let moved = relocation(instruction, from_addr, moved_at as u32).unwrap();
    let after = calls_words(moved_at + 4, post).unwrap();
    let back = branch_encoding(
        false,
        return_at as u32,
        (from_addr + 4) as u32,
        ArmCondition::AL,
    ).unwrap();
    let words = ((before + seq![moved]) + after) + seq![back];
    assert(trampoline(instruction, from_addr, base, pre, post) == Ok::<
        Seq<u32>,
        TrampolineError,
    >(words));
    assert(words.last() == back);
}

/// Where a trampoline leads: as long as the site and the trampoline are
/// aligned to words and no more than 2^25 - 4 bytes lie between the end of
/// the trampoline and the site, its last word branches to the instruction
/// behind the site.
pub proof fn lemma_trampoline_returns(
    instruction: u32,
    from_addr: u32,
    base: u32,
    pre: Seq<u32>,
    post: Seq<u32>,
)
    requires
        trampoline(instruction, from_addr, base, pre, post) is Ok,
        from_addr % 4 == 0,
        base % 4 == 0,
        -(0x200_0000 - 4) <= (from_addr + 4) - (base + 12 * pre.len() + 4 + 12 * post.len()) - 8
            <= 0x200_0000 - 4,
    ensures
        crate::hook::arm::branch_target(
            trampoline(instruction, from_addr, base, pre, post).unwrap().last(),
            (base + 12 * pre.len() + 4 + 12 * post.len()) as u32,
        ) == from_addr + 4,
{
    lemma_trampoline_last_word(instruction, from_addr, base, pre, post);
    let return_at = (base + 12 * pre.len() + 4 + 12 * post.len()) as u32;
    let target = (from_addr + 4) as u32;
    assert(return_at % 4 == 0 && target % 4 == 0);
    crate::hook::arm::lemma_branch_reaches_target(false, return_at, target, ArmCondition::AL);
}

} // verus!
