//! The callbacks that wait for their trampolines, site by site.

use vstd::prelude::*;

use crate::hook::location::{HookLocation, HookLocationView};
use crate::hook::writer::HookExtraPos;

verus! {

/// A callback: its address, and where it was declared.
pub type Callback = (u32, HookLocation);

/// The callbacks of one site: the instruction at `from_addr` is to be
/// wrapped so that the `pre` callbacks run before it and the `post`
/// callbacks after it.  All of them share one trampoline, which stands in
/// the arena `extra_pos`.
#[derive(Debug, PartialEq)]
pub struct PrePostEntry {
    pub from_addr: u32,
    pub extra_pos: HookExtraPos,
    pub pre: Vec<Callback>,
    pub post: Vec<Callback>,
}

/// A `PrePostEntry` with its lists as sequences.
pub struct PrePostEntryView {
    pub from_addr: u32,
    pub extra_pos: HookExtraPos,
    pub pre: Seq<(u32, HookLocationView)>,
    pub post: Seq<(u32, HookLocationView)>,
}

/// The views of a list of callbacks.
pub open spec fn callbacks_view(list: Seq<Callback>) -> Seq<(u32, HookLocationView)> {
    Seq::new(list.len(), |i: int| (list[i].0, list[i].1@))
}

impl View for PrePostEntry {
    type V = PrePostEntryView;

    open spec fn view(&self) -> PrePostEntryView {
        PrePostEntryView {
            from_addr: self.from_addr,
            extra_pos: self.extra_pos,
            pre: callbacks_view(self.pre@),
            post: callbacks_view(self.post@),
        }
    }
}

/// The views of a list of entries.
pub open spec fn entries_view(entries: Seq<PrePostEntry>) -> Seq<PrePostEntryView> {
    Seq::new(entries.len(), |i: int| entries[i]@)
}

/// The sites of a list of entries.
pub open spec fn sites(entries: Seq<PrePostEntryView>) -> Seq<u32> {
    Seq::new(entries.len(), |i: int| entries[i].from_addr)
}

/// On which side of the instruction a callback runs.
#[derive(Debug, PartialEq, Eq, Clone, Copy, Structural)]
pub enum Side {
    Before,
    After,
}

/// An entry with one more callback on the given side.
pub open spec fn with_callback(
    entry: PrePostEntryView,
    side: Side,
    callback: (u32, HookLocationView),
) -> PrePostEntryView {
    match side {
        Side::Before => PrePostEntryView { pre: entry.pre.push(callback), ..entry },
        Side::After => PrePostEntryView { post: entry.post.push(callback), ..entry },
    }
}

/// An entry without callbacks.
pub open spec fn empty_entry(from_addr: u32, extra_pos: HookExtraPos) -> PrePostEntryView {
    PrePostEntryView { from_addr, extra_pos, pre: Seq::empty(), post: Seq::empty() }
}

/// The entries once a site has been looked up: the first entry of that
/// site, or a new entry at the end, in the given arena.
pub open spec fn with_site(
    entries: Seq<PrePostEntryView>,
    from_addr: u32,
    extra_pos: HookExtraPos,
) -> Seq<PrePostEntryView> {
    match sites(entries).index_of_first(from_addr) {
        Some(_) => entries,
        None => entries.push(empty_entry(from_addr, extra_pos)),
    }
}

/// Index of the entry of a site that is known to have one.
pub open spec fn site_index(entries: Seq<PrePostEntryView>, from_addr: u32) -> int {
    match sites(entries).index_of_first(from_addr) {
        Some(i) => i,
        None => entries.len() as int,
    }
}

/// Whether the site has an entry already, and that in another arena.
pub open spec fn arena_conflict(
    entries: Seq<PrePostEntryView>,
    from_addr: u32,
    extra_pos: HookExtraPos,
) -> bool {
    match sites(entries).index_of_first(from_addr) {
        Some(i) => entries[i].extra_pos != extra_pos,
        None => false,
    }
}

/// The entries with one more callback for a site.  The site's entry is
/// made if there is none; the callback goes to the end of its list.
pub open spec fn with_registered(
    entries: Seq<PrePostEntryView>,
    from_addr: u32,
    extra_pos: HookExtraPos,
    side: Side,
    callback: (u32, HookLocationView),
) -> Seq<PrePostEntryView> {
    let all = with_site(entries, from_addr, extra_pos);
    let i = site_index(entries, from_addr);
    all.update(i, with_callback(all[i], side, callback))
}

/// Index of the first entry for `from_addr`.
pub fn find_site(entries: &Vec<PrePostEntry>, from_addr: u32) -> (r: Option<usize>)
    ensures
        match r {
            Some(i) => i < entries.len() && sites(entries_view(entries@)).index_of_first(from_addr)
                == Some(i as int),
            None => sites(entries_view(entries@)).index_of_first(from_addr) is None,
        },
{
    let ghost s = sites(entries_view(entries@));
    let mut i: usize = 0;
    while i < entries.len()
        invariant
            i <= entries.len(),
            s == sites(entries_view(entries@)),
            forall|j: int| 0 <= j < i ==> s[j] != from_addr,
        decreases entries.len() - i,
    {
        if entries[i].from_addr == from_addr {
            proof {
                assert(s[i as int] == from_addr);
                assert(s.contains(from_addr));
                s.index_of_first_ensures(from_addr);
                let idx = s.index_of_first(from_addr).unwrap();
                if idx > i {
                    assert(s[i as int] != from_addr);
                }
            }
            return Some(i);
        }
        i += 1;
    }
    proof {
        s.index_of_first_ensures(from_addr);
        assert(!s.contains(from_addr));
    }
    None
}

/// Looks up the entry of a site, making one in the arena `extra_pos` if
/// there is none, and adds the callback to it.  A site whose entry stands
/// in another arena is left alone, and `false` comes back.
pub fn register(
    entries: &mut Vec<PrePostEntry>,
    from_addr: u32,
    extra_pos: HookExtraPos,
    side: Side,
    callback: Callback,
) -> (ok: bool)
    ensures
        ok == !arena_conflict(entries_view(old(entries)@), from_addr, extra_pos),
        entries_view(final(entries)@) == (if ok {
            with_registered(
                entries_view(old(entries)@),
                from_addr,
                extra_pos,
                side,
                (callback.0, callback.1@),
            )
        } else {
            entries_view(old(entries)@)
        }),
{
    let ghost before = entries_view(entries@);
    let i = match find_site(entries, from_addr) {
        Some(i) => i,
        None => {
            entries.push(
                PrePostEntry { from_addr, extra_pos, pre: Vec::new(), post: Vec::new() },
            );
            assert(entries_view(entries@) =~= before.push(empty_entry(from_addr, extra_pos))) by {
                assert(callbacks_view(Seq::<Callback>::empty()) =~= Seq::empty());
            }
            entries.len() - 1
        },
    };
    if entries[i].extra_pos != extra_pos {
        return false;
    }
    let ghost all = entries_view(entries@);
    let ghost entry = all[i as int];
    let ghost added = (callback.0, callback.1@);
    match side {
        Side::Before => {
            let ghost list = entries[i as int].pre@;
            entries[i].pre.push(callback);
            assert(callbacks_view(entries[i as int].pre@) =~= callbacks_view(list).push(added));
        },
        Side::After => {
            let ghost list = entries[i as int].post@;
            entries[i].post.push(callback);
            assert(callbacks_view(entries[i as int].post@) =~= callbacks_view(list).push(added));
        },
    }
    assert(entries_view(entries@) =~= all.update(i as int, with_callback(entry, side, added)));
    true
}

/// No site has two entries.
pub open spec fn sites_distinct(entries: Seq<PrePostEntryView>) -> bool {
    forall|i: int, j: int|
        0 <= i < j < entries.len() ==> (#[trigger] entries[i]).from_addr != (
        #[trigger] entries[j]).from_addr
}

/// A site keeps one entry, and with it one arena, however many callbacks
/// are registered for it: registering makes no second entry for a site
/// and moves no entry to another arena.
pub proof fn lemma_registered_keeps_one_arena(
    entries: Seq<PrePostEntryView>,
    from_addr: u32,
    extra_pos: HookExtraPos,
    side: Side,
    callback: (u32, HookLocationView),
)
    requires
        sites_distinct(entries),
        !arena_conflict(entries, from_addr, extra_pos),
    ensures
        sites_distinct(with_registered(entries, from_addr, extra_pos, side, callback)),
        forall|i: int|
            0 <= i < entries.len() ==> (#[trigger] with_registered(
                entries,
                from_addr,
                extra_pos,
                side,
                callback,
            )[i]).from_addr == entries[i].from_addr && with_registered(
                entries,
                from_addr,
                extra_pos,
                side,
                callback,
            )[i].extra_pos == entries[i].extra_pos,
        with_registered(entries, from_addr, extra_pos, side, callback)[site_index(
            entries,
            from_addr,
        )].extra_pos == extra_pos,
{
    let s = sites(entries);
    s.index_of_first_ensures(from_addr);
    let after = with_registered(entries, from_addr, extra_pos, side, callback);
    let all = with_site(entries, from_addr, extra_pos);
    let at = site_index(entries, from_addr);
    assert forall|i: int, j: int| 0 <= i < j < after.len() implies (#[trigger] after[i]).from_addr
        != (#[trigger] after[j]).from_addr by {
        if j < entries.len() {
            assert(entries[i].from_addr != entries[j].from_addr);
        } else {
            assert(s[i] == entries[i].from_addr);
            assert(s.contains(s[i]));
        }
    }
}

} // verus!
