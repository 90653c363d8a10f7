//! The order of the operators on one copy: truncate, delete, then whatever
//! is spliced in, replace, and for characters the insertion of words.

use crate::chance::{Chance, INSERT_PERCENT, REPLACE_PERCENT};
use crate::insertion::{add_random_words, inserts};
use crate::operators::{
    deletes, is_prefix, is_subsequence, kept_at, modify_random_items, redraws,
    remove_random_items, replaces, split_content, subset_size,
};
use crate::unit::ContentUnit;
use rand::rngs::StdRng;
use vstd::prelude::*;

verus! {

/// What the two shrinking operators can make of `source`: a leading piece
/// of it that is not empty, with a few units taken out or none, and still
/// not empty.
pub open spec fn shrinks<T>(source: Seq<T>, out: Seq<T>) -> bool {
    exists|cut: Seq<T>|
        {
            &&& #[trigger] is_prefix(cut, source)
            &&& cut.len() > 0
            &&& is_subsequence(out, cut)
            &&& out == cut || deletes(cut.len() as int, out.len() as int)
            &&& out.len() > 0
        }
}

/// What the two shrinking operators can make of `source` when they run with
/// the chances `truncate` and `delete`. A truncation that is certain cuts
/// something off, one that is impossible cuts nothing off; a deletion that
/// is certain takes out its subset, one that is impossible takes out nothing.
pub open spec fn shrinks_with<T>(
    source: Seq<T>,
    out: Seq<T>,
    truncate: Chance,
    delete: Chance,
) -> bool {
    exists|cut: Seq<T>|
        {
            &&& #[trigger] is_prefix(cut, source)
            &&& cut.len() > 0
            &&& truncate.certain() ==> cut.len() < source.len()
            &&& truncate.impossible() ==> cut == source
            &&& is_subsequence(out, cut)
            &&& out == cut || deletes(cut.len() as int, out.len() as int)
            &&& delete.certain() ==> deletes(cut.len() as int, out.len() as int)
            &&& delete.impossible() ==> out == cut
            &&& out.len() > 0
        }
}

/// What the replace operator can make of `data`: nothing, or the overwrites
/// of one run; up to five units differ, a fifth of them at most.
pub open spec fn completes<T: ContentUnit>(data: Seq<T>, out: Seq<T>) -> bool {
    &&& replaces(data, out, subset_size(data.len() as int, 5))
    &&& out == data || redraws(data, out)
}

/// What replacing and then inserting words can make of `data`. Without
/// words nothing is inserted.
pub open spec fn completes_text(data: Seq<char>, words: Seq<Seq<char>>, out: Seq<char>) -> bool {
    exists|replaced: Seq<char>|
        {
            &&& #[trigger] completes(data, replaced)
            &&& out == replaced || (words.len() > 0 && exists|count: int|
                1 <= count < 5 && #[trigger] inserts(replaced, out, words, count))
        }
}

/// A copy of `data`, unit by unit.
pub fn copy_of<T: Copy>(data: &[T]) -> (copy: Vec<T>)
    ensures
        copy@ == data@,
{
    let mut copy: Vec<T> = Vec::new();
    let mut i: usize = 0;
    while i < data.len()
        invariant
            i <= data@.len(),
            copy@ == data@.take(i as int),
        decreases data@.len() - i,
    {
        copy.push(data[i]);
        i = i + 1;
    }
    copy
}

/// The shrinking steps on a private copy of the source: truncate with the
/// chance `truncate`, then delete with the chance `delete`. `None` says that
/// this copy is given up: the source was empty, or the truncation left
/// nothing. A source that is not empty always gives a copy where truncation
/// is impossible, and a source of one unit never does where it is certain.
pub fn process_single_general<T: Copy>(
    rng: &mut StdRng,
    truncate: Chance,
    delete: Chance,
    data_vector: &[T],
) -> (data: Option<Vec<T>>)
    ensures
        data_vector@.len() == 0 ==> data is None,
        data_vector@.len() > 0 && truncate.impossible() ==> data is Some,
        data_vector@.len() == 1 && truncate.certain() ==> data is None,
        data matches Some(shrunk) ==> shrinks_with(data_vector@, shrunk@, truncate, delete),
        data matches Some(shrunk) ==> shrinks(data_vector@, shrunk@),
{
    if data_vector.len() == 0 {
        return None;
    }
    let mut data: Vec<T> = copy_of(data_vector);
    split_content(rng, truncate, &mut data)?;
    let ghost cut = data@;
    remove_random_items(rng, delete, &mut data)?;
    assert(is_prefix(cut, data_vector@));
    Some(data)
}

/// The last step on a copy made of bytes: replace.
pub fn finish_bytes(rng: &mut StdRng, data: &mut Vec<u8>)
    requires
        old(data)@.len() > 0,
    ensures
        completes(old(data)@, final(data)@),
{
    modify_random_items(rng, Chance::percent(REPLACE_PERCENT), data);
}

/// The last steps on a copy made of characters: replace, then insert words
/// where there are any.
pub fn finish_text(rng: &mut StdRng, data: &mut Vec<char>, words: &[String])
    requires
        old(data)@.len() > 0,
    ensures
        completes_text(old(data)@, words.deep_view(), final(data)@),
{
    modify_random_items(rng, Chance::percent(REPLACE_PERCENT), data);
    let ghost replaced = data@;
    add_random_words(rng, Chance::percent(INSERT_PERCENT), data, words);
    assert(completes(old(data)@, replaced));
}

/// What the shrinking steps hand on is a subsequence of the source, not
/// empty and no longer than the source.
pub proof fn lemma_shrinks_bounds<T>(source: Seq<T>, out: Seq<T>)
    requires
        shrinks(source, out),
    ensures
        0 < out.len() <= source.len(),
        is_subsequence(out, source),
{
    let cut = choose|cut: Seq<T>|
        {
            &&& #[trigger] is_prefix(cut, source)
            &&& cut.len() > 0
            &&& is_subsequence(out, cut)
            &&& out == cut || deletes(cut.len() as int, out.len() as int)
            &&& out.len() > 0
        };
    let keep = choose|keep: Seq<int>| kept_at(cut, out, keep);
    assert(kept_at(source, out, keep));
    lemma_kept_length(cut, out, keep);
}

/// What is kept of a sequence is no longer than the sequence.
pub proof fn lemma_kept_length<T>(full: Seq<T>, part: Seq<T>, keep: Seq<int>)
    requires
        kept_at(full, part, keep),
    ensures
        part.len() <= full.len(),
    decreases part.len(),
{
    if part.len() > 0 {
        let last = keep.len() - 1;
        assert(kept_at(full.take(keep[last]), part.drop_last(), keep.drop_last()));
        lemma_kept_length(full.take(keep[last]), part.drop_last(), keep.drop_last());
    }
}

/// A copy that went through the shrinking steps and the replacing, with
/// nothing spliced in and no word inserted, is never longer than its source,
/// and never empty.
pub proof fn lemma_unspliced_never_grows<T: ContentUnit>(source: Seq<T>, shrunk: Seq<T>, out: Seq<T>)
    requires
        shrinks(source, shrunk),
        completes(shrunk, out),
    ensures
        0 < out.len() <= source.len(),
{
    lemma_shrinks_bounds(source, shrunk);
}

} // verus!
