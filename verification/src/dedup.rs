//! Per-window deduplication of launch events.
//!
//! The trader accepts each `(mint, creator)` pair at most once per window;
//! the window is flushed on a fixed cadence.

use vstd::prelude::*;

use crate::text::eq_bytes;

verus! {

/// The window holds `(mint, creator)`.
pub open spec fn spec_dedup_contains(keys: Seq<(Seq<u8>, Seq<u8>)>, mint: Seq<u8>, creator: Seq<u8>) -> bool {
    exists|i: int| 0 <= i < keys.len() && keys[i] == (mint, creator)
}

/// The window after offering one key: unchanged when the key is already
/// present, extended by it otherwise.
pub open spec fn spec_dedup_after(keys: Seq<(Seq<u8>, Seq<u8>)>, mint: Seq<u8>, creator: Seq<u8>) -> Seq<
    (Seq<u8>, Seq<u8>),
> {
    if spec_dedup_contains(keys, mint, creator) {
        keys
    } else {
        keys.push((mint, creator))
    }
}

/// The `(mint, creator)` pairs accepted in the current window.
pub struct DedupSet {
    keys: Vec<(Vec<u8>, Vec<u8>)>,
}

impl View for DedupSet {
    type V = Seq<(Seq<u8>, Seq<u8>)>;

    closed spec fn view(&self) -> Seq<(Seq<u8>, Seq<u8>)> {
        self.keys.deep_view()
    }
}

impl DedupSet {
    /// The empty window.
    pub fn new() -> (r: DedupSet)
        ensures
            r@ =~= Seq::<(Seq<u8>, Seq<u8>)>::empty(),
    {
        DedupSet { keys: Vec::new() }
    }

    /// Whether the window already holds `(mint, creator)`.
    pub fn contains(&self, mint: &[u8], creator: &[u8]) -> (r: bool)
        ensures
            r == spec_dedup_contains(self@, mint@, creator@),
    {
        let mut i: usize = 0;
        while i < self.keys.len()
            invariant
                0 <= i <= self.keys@.len(),
                forall|k: int| 0 <= k < i ==> self.keys.deep_view()[k] != (mint@, creator@),
            decreases self.keys@.len() - i,
        {
            let hit = eq_bytes(self.keys[i].0.as_slice(), mint) && eq_bytes(
                self.keys[i].1.as_slice(),
                creator,
            );
            proof {
                assert(self.keys.deep_view()[i as int] == (
                    self.keys@[i as int].0@,
                    self.keys@[i as int].1@,
                ));
            }
            if hit {
                return true;
            }
            i += 1;
        }
        false
    }

    /// Offers `(mint, creator)` to the window.  Returns whether the event is
    /// fresh: a fresh key is recorded, a stale one leaves the window
    /// unchanged, and no key is ever accepted twice within one window.
    pub fn accept(&mut self, mint: &[u8], creator: &[u8]) -> (fresh: bool)
        ensures
            fresh == !spec_dedup_contains(old(self)@, mint@, creator@),
            final(self)@ == spec_dedup_after(old(self)@, mint@, creator@),
    {
        if self.contains(mint, creator) {
            false
        } else {
            let key = (vstd::slice::slice_to_vec(mint), vstd::slice::slice_to_vec(creator));
            self.keys.push(key);
            proof {
                assert(self@ =~~= spec_dedup_after(old(self)@, mint@, creator@));
            }
            true
        }
    }

    /// Empties the window, as the trader does on its flush cadence.
    pub fn flush(&mut self)
        ensures
            final(self)@ =~= Seq::<(Seq<u8>, Seq<u8>)>::empty(),
    {
        self.keys.clear();
    }
}

/// The window after a run of offers, oldest first.
pub open spec fn spec_dedup_run(offers: Seq<(Seq<u8>, Seq<u8>)>) -> Seq<(Seq<u8>, Seq<u8>)>
    decreases offers.len(),
{
    if offers.len() == 0 {
        Seq::empty()
    } else {
        spec_dedup_after(
            spec_dedup_run(offers.drop_last()),
            offers.last().0,
            offers.last().1,
        )
    }
}

/// Whether the offer at position `n` of a run is accepted.
pub open spec fn spec_accepted_at(offers: Seq<(Seq<u8>, Seq<u8>)>, n: int) -> bool {
    !spec_dedup_contains(spec_dedup_run(offers.take(n)), offers[n].0, offers[n].1)
}

/// A key the window holds is still held after any further offers.
proof fn lemma_dedup_contains_monotone(
    offers: Seq<(Seq<u8>, Seq<u8>)>,
    mint: Seq<u8>,
    creator: Seq<u8>,
    n: int,
    m: int,
)
    requires
        0 <= n <= m <= offers.len(),
        spec_dedup_contains(spec_dedup_run(offers.take(n)), mint, creator),
    ensures
        spec_dedup_contains(spec_dedup_run(offers.take(m)), mint, creator),
    decreases m - n,
{
    if n < m {
        let prev = spec_dedup_run(offers.take(n));
        let i = choose|i: int| 0 <= i < prev.len() && prev[i] == (mint, creator);
        assert(offers.take(n + 1).drop_last() =~= offers.take(n));
        assert(offers.take(n + 1).last() == offers[n]);
        let next = spec_dedup_run(offers.take(n + 1));
        assert(next[i] == (mint, creator));
        lemma_dedup_contains_monotone(offers, mint, creator, n + 1, m);
    }
}

/// Within one window, an accepted `(mint, creator)` is never accepted a
/// second time: any later offer of the same key is stale.
pub proof fn lemma_dedup_no_second_accept(offers: Seq<(Seq<u8>, Seq<u8>)>, i: int, j: int)
    requires
        0 <= i < j < offers.len(),
        offers[i] == offers[j],
        spec_accepted_at(offers, i),
    ensures
        !spec_accepted_at(offers, j),
{
    let state_i = spec_dedup_run(offers.take(i));
    assert(offers.take(i + 1).drop_last() =~= offers.take(i));
    assert(offers.take(i + 1).last() == offers[i]);
    let state_next = spec_dedup_run(offers.take(i + 1));
    assert(state_next == state_i.push((offers[i].0, offers[i].1)));
    assert(state_next[state_i.len() as int] == (offers[i].0, offers[i].1));
    assert(spec_dedup_contains(state_next, offers[i].0, offers[i].1));
    lemma_dedup_contains_monotone(offers, offers[i].0, offers[i].1, i + 1, j);
}

} // verus!
