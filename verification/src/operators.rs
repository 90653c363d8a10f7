//! The mutation operators truncate, delete-subset and replace-subset. Each
//! works in place on a sequence of content units and is written once for
//! bytes and characters alike.

use crate::chance::Chance;
use crate::random::{draw_range, hits};
use crate::unit::ContentUnit;
use rand::rngs::StdRng;
use vstd::prelude::*;
use vstd::set_lib::lemma_len_subset;

verus! {

/// How many units the subset operators touch in a sequence of `len` units
/// when `drawn` came out of the draw: a fifth of the length at most.
pub open spec fn subset_size(len: int, drawn: int) -> int {
    if len / 5 <= drawn {
        len / 5
    } else {
        drawn
    }
}

/// `part` is what is left of `full` when only the positions `keep` stay, in
/// their order.
pub open spec fn kept_at<T>(full: Seq<T>, part: Seq<T>, keep: Seq<int>) -> bool {
    &&& keep.len() == part.len()
    &&& forall|j: int| 0 <= j < keep.len() ==> 0 <= #[trigger] keep[j] < full.len()
    &&& forall|i: int, j: int| 0 <= i < j < keep.len() ==> #[trigger] keep[i] < #[trigger] keep[j]
    &&& forall|j: int| 0 <= j < keep.len() ==> #[trigger] part[j] == full[keep[j]]
}

/// `part` comes from `full` by taking units out, the others keeping their
/// order.
pub open spec fn is_subsequence<T>(part: Seq<T>, full: Seq<T>) -> bool {
    exists|keep: Seq<int>| kept_at(full, part, keep)
}

/// `part` is a leading piece of `full`.
pub open spec fn is_prefix<T>(part: Seq<T>, full: Seq<T>) -> bool {
    part.len() <= full.len() && part == full.subrange(0, part.len() as int)
}

/// The lengths by which a sequence of `before` units can shrink when the
/// delete operator runs: `subset_size` of some draw from one to five.
pub open spec fn deletes(before: int, after: int) -> bool {
    exists|drawn: int| 1 <= drawn < 6 && before - after == #[trigger] subset_size(before, drawn)
}

/// A uniformly drawn position of a sequence that is not empty.
pub fn get_random_idx<T>(rng: &mut StdRng, data: &[T]) -> (idx: usize)
    requires
        data@.len() > 0,
    ensures
        idx < data@.len(),
{
    draw_range(rng, 0, data.len())
}

/// Truncate at a given position: keeps the units before position `idx` and
/// drops the rest. Answers `None` when nothing is left.
pub fn truncate_at<T>(data: &mut Vec<T>, idx: usize) -> (kept: Option<()>)
    requires
        idx < old(data)@.len(),
    ensures
        final(data)@ == old(data)@.take(idx as int),
        kept is None <==> idx == 0,
{
    data.truncate(idx);
    if data.is_empty() {
        None
    } else {
        Some(())
    }
}

/// Takes the unit at position `idx` out; the units behind it move up.
pub fn remove_at<T>(data: &mut Vec<T>, idx: usize)
    requires
        idx < old(data)@.len(),
    ensures
        final(data)@ == old(data)@.remove(idx as int),
{
    data.remove(idx);
}

/// Puts `unit` in the place of the unit at position `idx`.
pub fn overwrite<T>(data: &mut Vec<T>, idx: usize, unit: T)
    requires
        idx < old(data)@.len(),
    ensures
        final(data)@ == old(data)@.update(idx as int, unit),
{
    data.set(idx, unit);
}

/// Truncate: where the chance hits, draws a position and truncates there,
/// as `truncate_at` does. Answers `None` when nothing is left.
pub fn split_content<T>(rng: &mut StdRng, chance: Chance, data: &mut Vec<T>) -> (kept: Option<()>)
    requires
        old(data)@.len() > 0,
    ensures
        is_prefix(final(data)@, old(data)@),
        final(data)@.len() < old(data)@.len() || final(data)@ == old(data)@,
        chance.certain() ==> final(data)@.len() < old(data)@.len(),
        chance.impossible() ==> final(data)@ == old(data)@,
        kept is None <==> final(data)@.len() == 0,
{
    if !hits(rng, chance) {
        assert(data@ == data@.subrange(0, data@.len() as int));
        return Some(());
    }
    let idx: usize = get_random_idx(rng, data.as_slice());
    truncate_at(data, idx)
}

/// The number of units that a subset operator touches: `drawn`, capped at a
/// fifth of `len`.
pub fn subset_count(len: usize, drawn: usize) -> (count: usize)
    ensures
        count == subset_size(len as int, drawn as int),
        count <= len / 5,
{
    let fifth: usize = len / 5;
    if fifth <= drawn {
        fifth
    } else {
        drawn
    }
}

/// Delete-subset for a given draw: takes `subset_size` units out, each as
/// `remove_at` does, at a position drawn anew from the sequence as it then
/// is.
pub fn remove_items<T>(rng: &mut StdRng, data: &mut Vec<T>, drawn: usize)
    requires
        old(data)@.len() > 0,
    ensures
        final(data)@.len() == old(data)@.len() - subset_size(old(data)@.len() as int, drawn as int),
        final(data)@.len() > 0,
        is_subsequence(final(data)@, old(data)@),
{
    let count: usize = subset_count(data.len(), drawn);
    let ghost mut keep: Seq<int> = Seq::new(data@.len(), |i: int| i);
    let mut done: usize = 0;
    while done < count
        invariant
            done <= count,
            count <= old(data)@.len() / 5,
            old(data)@.len() > 0,
            data@.len() == old(data)@.len() - done,
            kept_at(old(data)@, data@, keep),
        decreases count - done,
    {
        let idx: usize = get_random_idx(rng, data.as_slice());
        remove_at(data, idx);
        proof {
            keep = keep.remove(idx as int);
        }
        done = done + 1;
    }
}

/// Delete-subset: where the chance hits, draws a number from one to five and
/// takes that many units out, a fifth of the sequence at most. The sequence
/// never runs empty, so the answer is always `Some`.
pub fn remove_random_items<T>(rng: &mut StdRng, chance: Chance, data: &mut Vec<T>) -> (kept:
    Option<()>)
    requires
        old(data)@.len() > 0,
    ensures
        is_subsequence(final(data)@, old(data)@),
        final(data)@ == old(data)@ || deletes(old(data)@.len() as int, final(data)@.len() as int),
        chance.certain() ==> deletes(old(data)@.len() as int, final(data)@.len() as int),
        chance.impossible() ==> final(data)@ == old(data)@,
        final(data)@.len() > 0,
        kept is Some,
{
    if !hits(rng, chance) {
        proof {
            lemma_subsequence_of_itself(data@);
        }
        return Some(());
    }
    let drawn: usize = draw_range(rng, 1, 6);
    remove_items(rng, data, drawn);
    if data.is_empty() {
        None
    } else {
        Some(())
    }
}

/// Every sequence is a subsequence of itself.
pub proof fn lemma_subsequence_of_itself<T>(full: Seq<T>)
    ensures
        is_subsequence(full, full),
{
    let keep = Seq::new(full.len(), |i: int| i);
    assert(kept_at(full, full, keep));
}

/// The positions at which `after` differs from `before`.
pub open spec fn changed<T>(before: Seq<T>, after: Seq<T>) -> Set<int> {
    Set::new(|i: int| 0 <= i < before.len() && after[i] != before[i])
}

/// `after` is `before` with at most `limit` positions overwritten, each by a
/// unit that a draw can yield.
pub open spec fn replaces<T: ContentUnit>(before: Seq<T>, after: Seq<T>, limit: int) -> bool {
    &&& after.len() == before.len()
    &&& changed(before, after).finite()
    &&& changed(before, after).len() <= limit
    &&& forall|i: int| #[trigger] changed(before, after).contains(i) ==> after[i].drawable()
}

/// `base` after the overwrites `picks`, made one after the other; each is a
/// position and the unit put there.
pub open spec fn with_overwrites<T>(base: Seq<T>, picks: Seq<(int, T)>) -> Seq<T>
    decreases picks.len(),
{
    if picks.len() == 0 {
        base
    } else {
        with_overwrites(base, picks.drop_last()).update(picks.last().0, picks.last().1)
    }
}

/// Each overwrite goes to a position of the sequence and puts a unit there
/// that a draw can yield.
pub open spec fn picks_fit<T: ContentUnit>(base: Seq<T>, picks: Seq<(int, T)>) -> bool {
    forall|k: int|
        0 <= k < picks.len() ==> 0 <= (#[trigger] picks[k]).0 < base.len()
            && picks[k].1.drawable()
}

/// `after` is `before` with `count` fitting overwrites made in turn.
pub open spec fn overwrites<T: ContentUnit>(before: Seq<T>, after: Seq<T>, count: int) -> bool {
    exists|picks: Seq<(int, T)>|
        {
            &&& picks.len() == count
            &&& picks_fit(before, picks)
            &&& after == #[trigger] with_overwrites(before, picks)
        }
}

/// What the replace operator makes of `before` when it runs: the overwrites
/// of `subset_size` of some draw from one to five.
pub open spec fn redraws<T: ContentUnit>(before: Seq<T>, after: Seq<T>) -> bool {
    exists|drawn: int|
        1 <= drawn < 6 && overwrites(
            before,
            after,
            #[trigger] subset_size(before.len() as int, drawn),
        )
}

/// Replace-subset for a given draw: overwrites `subset_size` drawn positions
/// in turn, each with a freshly drawn unit, as `overwrite` does. A position
/// may be drawn twice. Where the subset is not empty, some position holds a
/// unit that was drawn.
pub fn replace_items<T: ContentUnit>(rng: &mut StdRng, data: &mut Vec<T>, drawn: usize)
    requires
        old(data)@.len() > 0,
    ensures
        overwrites(old(data)@, final(data)@, subset_size(old(data)@.len() as int, drawn as int)),
        replaces(old(data)@, final(data)@, subset_size(old(data)@.len() as int, drawn as int)),
        subset_size(old(data)@.len() as int, drawn as int) >= 1 ==> exists|i: int|
            0 <= i < final(data)@.len() && (#[trigger] final(data)@[i]).drawable(),
{
    let count: usize = subset_count(data.len(), drawn);
    let ghost mut touched: Set<int> = Set::empty();
    let ghost mut picks: Seq<(int, T)> = Seq::empty();
    let mut done: usize = 0;
    while done < count
        invariant
            done <= count,
            data@.len() == old(data)@.len(),
            data@.len() > 0,
            touched.finite(),
            touched.len() <= done,
            forall|i: int| 0 <= i < data@.len() && !touched.contains(i) ==> data@[i] == old(data)@[i],
            forall|i: int| #[trigger]
                touched.contains(i) ==> 0 <= i < data@.len() && data@[i].drawable(),
            done > 0 ==> exists|i: int| #[trigger] touched.contains(i),
            picks.len() == done,
            picks_fit(old(data)@, picks),
            data@ == with_overwrites(old(data)@, picks),
        decreases count - done,
    {
        let idx: usize = get_random_idx(rng, data.as_slice());
        let unit: T = T::draw(rng);
        overwrite(data, idx, unit);
        proof {
            touched = touched.insert(idx as int);
            assert(touched.contains(idx as int));
            let earlier = picks;
            picks = earlier.push((idx as int, unit));
            assert(picks.drop_last() == earlier);
        }
        done = done + 1;
    }
    proof {
        assert(changed(old(data)@, data@).subset_of(touched));
        lemma_len_subset(changed(old(data)@, data@), touched);
        if count >= 1 {
            let i = choose|i: int| #[trigger] touched.contains(i);
            assert(data@[i].drawable());
        }
    }
}

/// Replace-subset: where the chance hits, draws a number from one to five and
/// overwrites that many positions, a fifth of the sequence at most. Where
/// the chance is certain and the sequence has five units or more, some
/// position holds a unit that was drawn.
pub fn modify_random_items<T: ContentUnit>(rng: &mut StdRng, chance: Chance, data: &mut Vec<T>)
    requires
        old(data)@.len() > 0,
    ensures
        replaces(old(data)@, final(data)@, subset_size(old(data)@.len() as int, 5)),
        final(data)@ == old(data)@ || redraws(old(data)@, final(data)@),
        chance.certain() ==> redraws(old(data)@, final(data)@),
        chance.impossible() ==> final(data)@ == old(data)@,
        chance.certain() && old(data)@.len() >= 5 ==> exists|i: int|
            0 <= i < final(data)@.len() && (#[trigger] final(data)@[i]).drawable(),
{
    if !hits(rng, chance) {
        assert(changed(data@, data@) =~= Set::<int>::empty());
        return ;
    }
    let drawn: usize = draw_range(rng, 1, 6);
    replace_items(rng, data, drawn);
}

} // verus!
