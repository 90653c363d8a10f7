//! Splicing: which other files donate content to a copy, and how what was
//! read from them is joined and appended.

use crate::chance::Chance;
use crate::random::{choose_several, draw_range, drawn_from, hits};
use crate::text::chars_of;
use rand::rngs::StdRng;
use vstd::prelude::*;

verus! {

/// The text that `String::from_utf8_lossy` makes of `bytes`.
pub uninterp spec fn lossy_text(bytes: Seq<u8>) -> Seq<char>;

/// Calls `String::from_utf8_lossy`, which decodes the bytes as UTF-8 and
/// puts U+FFFD in place of what is not valid, and owns the result.
#[verifier::external_body]
fn decode_lossy(bytes: &[u8]) -> (text: String)
    ensures
        text@ == lossy_text(bytes@),
{
    String::from_utf8_lossy(bytes).into_owned()
}

/// `picked` are as many of `files` as some draw from one to seven asks for,
/// or all of them where they are fewer, each taken once.
pub open spec fn donors_of(files: Seq<Seq<char>>, picked: Seq<Seq<char>>) -> bool {
    &&& exists|amount: int|
        1 <= amount < 8 && picked.len() == #[trigger] capped(amount, files.len() as int)
    &&& exists|from: Seq<int>| drawn_from(files, picked, from)
}

/// `amount`, or `limit` where that is less.
pub open spec fn capped(amount: int, limit: int) -> int {
    if amount <= limit {
        amount
    } else {
        limit
    }
}

/// Where the chance hits, draws a number from one to seven and picks that
/// many of `files` as donors, each at most once. Where it misses there is
/// no donor.
pub fn choose_files(rng: &mut StdRng, chance: Chance, files: &[String]) -> (picked: Vec<String>)
    requires
        files@.len() > 0,
    ensures
        picked@.len() == 0 || donors_of(files.deep_view(), picked.deep_view()),
        chance.certain() ==> picked@.len() > 0,
        chance.impossible() ==> picked@.len() == 0,
{
    if !hits(rng, chance) {
        return Vec::new();
    }
    let amount: usize = draw_range(rng, 1, 8);
    let picked: Vec<String> = choose_several(rng, files, amount);
    assert(picked.deep_view().len() == capped(amount as int, files.deep_view().len() as int));
    picked
}

/// What was read from the donors, one after the other.
pub fn join_contents(parts: &Vec<Vec<u8>>) -> (joined: Vec<u8>)
    ensures
        joined@ == parts.deep_view().flatten(),
{
    let mut joined: Vec<u8> = Vec::new();
    let mut i: usize = 0;
    while i < parts.len()
        invariant
            i <= parts@.len(),
            joined@ == parts.deep_view().take(i as int).flatten(),
        decreases parts@.len() - i,
    {
        let part: &Vec<u8> = &parts[i];
        let ghost before = joined@;
        let mut j: usize = 0;
        while j < part.len()
            invariant
                j <= part@.len(),
                joined@ == before + part@.take(j as int),
            decreases part@.len() - j,
        {
            joined.push(part[j]);
            j = j + 1;
        }
        proof {
            let views = parts.deep_view();
            assert(views[i as int] == part@);
            assert(views.take(i as int + 1) == views.take(i as int).push(part@));
            views.take(i as int).lemma_flatten_push(part@);
        }
        i = i + 1;
    }
    assert(parts.deep_view().take(parts@.len() as int) == parts.deep_view());
    joined
}

/// Appends what the donors gave to a copy made of bytes.
pub fn splice_bytes(data: &mut Vec<u8>, parts: &Vec<Vec<u8>>)
    ensures
        final(data)@ == old(data)@ + parts.deep_view().flatten(),
{
    let mut joined: Vec<u8> = join_contents(parts);
    data.append(&mut joined);
}

/// Appends what the donors gave to a copy made of characters: the joined
/// bytes, decoded as `String::from_utf8_lossy` decodes them.
pub fn splice_text(data: &mut Vec<char>, parts: &Vec<Vec<u8>>)
    ensures
        final(data)@ == old(data)@ + lossy_text(parts.deep_view().flatten()),
{
    let joined: Vec<u8> = join_contents(parts);
    let text: String = decode_lossy(joined.as_slice());
    let mut chars: Vec<char> = chars_of(text.as_str());
    data.append(&mut chars);
}

} // verus!
