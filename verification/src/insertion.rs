//! The insert-token operator: puts special words into a sequence of
//! characters, each at a drawn position and with drawn whitespace around it.

use crate::chance::{
    Chance, LEADING_NEWLINE_PERCENT, LEADING_SPACE_PERCENT, LEADING_TAB_PERCENT,
    TRAILING_SPACE_PERCENT,
};
use crate::operators::get_random_idx;
use crate::random::{choose_one, draw_range, hits};
use crate::text::chars_of;
use rand::rngs::StdRng;
use vstd::prelude::*;

verus! {

/// One character, or nothing.
pub open spec fn optional(present: bool, c: char) -> Seq<char> {
    if present {
        seq![c]
    } else {
        Seq::empty()
    }
}

/// `word` with the chosen whitespace around it: a line break, a tab and a
/// space in front, in that order, and a space behind.
pub open spec fn decoration(
    word: Seq<char>,
    space: bool,
    tab: bool,
    newline: bool,
    trailing: bool,
) -> Seq<char> {
    optional(newline, '\n') + optional(tab, '\t') + optional(space, ' ') + word + optional(
        trailing,
        ' ',
    )
}

/// `token` is one of `words` with some choice of whitespace around it.
pub open spec fn is_token(token: Seq<char>, words: Seq<Seq<char>>) -> bool {
    exists|w: int, space: bool, tab: bool, newline: bool, trailing: bool|
        0 <= w < words.len() && token == #[trigger] decoration(
            words[w],
            space,
            tab,
            newline,
            trailing,
        )
}

/// `base` with the units `run` put in front of position `at`.
pub open spec fn spliced_in<T>(base: Seq<T>, at: int, run: Seq<T>) -> Seq<T> {
    base.subrange(0, at) + run + base.subrange(at, base.len() as int)
}

/// `base` after the insertions `placements`, made one after the other; each
/// is a position in the sequence as it then is, and a token.
pub open spec fn with_insertions(base: Seq<char>, placements: Seq<(int, Seq<char>)>) -> Seq<char>
    decreases placements.len(),
{
    if placements.len() == 0 {
        base
    } else {
        spliced_in(
            with_insertions(base, placements.drop_last()),
            placements.last().0,
            placements.last().1,
        )
    }
}

/// Each insertion goes in front of a position of the sequence as it then is
/// and puts a token made of one of `words` there.
pub open spec fn placements_fit(
    base: Seq<char>,
    placements: Seq<(int, Seq<char>)>,
    words: Seq<Seq<char>>,
) -> bool {
    forall|k: int|
        0 <= k < placements.len() ==> {
            &&& 0 <= (#[trigger] placements[k]).0 < with_insertions(base, placements.take(k)).len()
            &&& is_token(placements[k].1, words)
        }
}

/// `after` is `before` with `count` fitting insertions made.
pub open spec fn inserts(
    before: Seq<char>,
    after: Seq<char>,
    words: Seq<Seq<char>>,
    count: int,
) -> bool {
    exists|placements: Seq<(int, Seq<char>)>|
        {
            &&& placements.len() == count
            &&& placements_fit(before, placements, words)
            &&& after == #[trigger] with_insertions(before, placements)
        }
}

/// The token made of `word` and the chosen whitespace.
pub fn embellish(word: &str, space: bool, tab: bool, newline: bool, trailing: bool) -> (token: Vec<
    char,
>)
    ensures
        token@ == decoration(word@, space, tab, newline, trailing),
{
    let mut token: Vec<char> = Vec::new();
    if newline {
        token.push('\n');
    }
    if tab {
        token.push('\t');
    }
    if space {
        token.push(' ');
    }
    let mut body: Vec<char> = chars_of(word);
    token.append(&mut body);
    if trailing {
        token.push(' ');
    }
    token
}

/// Puts the units `run` in front of position `at`; behind the last unit
/// where `at` is the length.
pub fn insert_run<T>(data: &mut Vec<T>, at: usize, run: Vec<T>)
    requires
        at <= old(data)@.len(),
    ensures
        final(data)@ == spliced_in(old(data)@, at as int, run@),
{
    let mut run = run;
    let mut rest: Vec<T> = data.split_off(at);
    data.append(&mut run);
    data.append(&mut rest);
}

/// Makes `count` insertions: for each, picks a word, draws the whitespace
/// around it and puts the token in front of a drawn position.
pub fn insert_words(rng: &mut StdRng, data: &mut Vec<char>, words: &[String], count: usize)
    requires
        old(data)@.len() > 0,
        words@.len() > 0,
    ensures
        inserts(old(data)@, final(data)@, words.deep_view(), count as int),
{
    let ghost mut placements: Seq<(int, Seq<char>)> = Seq::empty();
    let mut done: usize = 0;
    while done < count
        invariant
            done <= count,
            words@.len() > 0,
            data@.len() > 0,
            placements.len() == done,
            placements_fit(old(data)@, placements, words.deep_view()),
            data@ == with_insertions(old(data)@, placements),
        decreases count - done,
    {
        let word: &String = choose_one(rng, words).unwrap();
        let space: bool = hits(rng, Chance::percent(LEADING_SPACE_PERCENT));
        let tab: bool = hits(rng, Chance::percent(LEADING_TAB_PERCENT));
        let newline: bool = hits(rng, Chance::percent(LEADING_NEWLINE_PERCENT));
        let trailing: bool = hits(rng, Chance::percent(TRAILING_SPACE_PERCENT));
        let token: Vec<char> = embellish(word.as_str(), space, tab, newline, trailing);
        let idx: usize = get_random_idx(rng, data.as_slice());
        let ghost earlier = placements;
        proof {
            let w = choose|w: int| 0 <= w < words@.len() && word@ == (#[trigger] words@[w])@;
            assert(words.deep_view()[w] == word@);
            placements = earlier.push((idx as int, token@));
            assert(placements.drop_last() == earlier);
            assert forall|k: int| 0 <= k < placements.len() implies {
                &&& 0 <= (#[trigger] placements[k]).0 < with_insertions(
                    old(data)@,
                    placements.take(k),
                ).len()
                &&& is_token(placements[k].1, words.deep_view())
            } by {
                if k < earlier.len() {
                    assert(placements.take(k) == earlier.take(k));
                } else {
                    assert(placements.take(k) == earlier);
                }
            }
        }
        insert_run(data, idx, token);
        done = done + 1;
    }
}

/// Insert-token: where there are words and the chance hits, makes between
/// one and four insertions. Without words the operator does nothing.
pub fn add_random_words(rng: &mut StdRng, chance: Chance, data: &mut Vec<char>, words: &[String])
    requires
        old(data)@.len() > 0,
    ensures
        final(data)@ == old(data)@ || exists|count: int|
            1 <= count < 5 && #[trigger] inserts(old(data)@, final(data)@, words.deep_view(), count),
        words@.len() > 0 && chance.certain() ==> exists|count: int|
            1 <= count < 5 && #[trigger] inserts(old(data)@, final(data)@, words.deep_view(), count),
        chance.impossible() ==> final(data)@ == old(data)@,
        words@.len() == 0 ==> final(data)@ == old(data)@,
{
    if words.len() == 0 || !hits(rng, chance) {
        return ;
    }
    let count: usize = draw_range(rng, 1, 5);
    insert_words(rng, data, words, count);
}

/// Every word has between `shortest` and `longest` characters.
pub open spec fn lengths_within(words: Seq<Seq<char>>, shortest: int, longest: int) -> bool {
    forall|w: int| 0 <= w < words.len() ==> shortest <= (#[trigger] words[w]).len() <= longest
}

/// Leaving the last insertion out leaves insertions that fit.
proof fn lemma_earlier_fit(
    base: Seq<char>,
    placements: Seq<(int, Seq<char>)>,
    words: Seq<Seq<char>>,
)
    requires
        placements.len() > 0,
        placements_fit(base, placements, words),
    ensures
        placements_fit(base, placements.drop_last(), words),
        0 <= placements.last().0 < with_insertions(base, placements.drop_last()).len(),
        is_token(placements.last().1, words),
{
    let earlier = placements.drop_last();
    assert forall|k: int| 0 <= k < earlier.len() implies {
        &&& 0 <= (#[trigger] earlier[k]).0 < with_insertions(base, earlier.take(k)).len()
        &&& is_token(earlier[k].1, words)
    } by {
        assert(earlier.take(k) == placements.take(k));
    }
}

/// Insertions only add: the sequence gets no shorter.
pub proof fn lemma_insertions_never_shrink(
    base: Seq<char>,
    placements: Seq<(int, Seq<char>)>,
    words: Seq<Seq<char>>,
)
    requires
        placements_fit(base, placements, words),
    ensures
        with_insertions(base, placements).len() >= base.len(),
    decreases placements.len(),
{
    if placements.len() > 0 {
        lemma_earlier_fit(base, placements, words);
        lemma_insertions_never_shrink(base, placements.drop_last(), words);
    }
}

/// Each insertion adds one word and at most four characters of whitespace:
/// with words of `shortest` to `longest` characters, `n` insertions add
/// between `n * shortest` and `n * (longest + 4)` characters.
pub proof fn lemma_insertions_length(
    base: Seq<char>,
    placements: Seq<(int, Seq<char>)>,
    words: Seq<Seq<char>>,
    shortest: int,
    longest: int,
)
    requires
        placements_fit(base, placements, words),
        lengths_within(words, shortest, longest),
    ensures
        base.len() + placements.len() * shortest <= with_insertions(base, placements).len(),
        with_insertions(base, placements).len() <= base.len() + placements.len() * (longest + 4),
    decreases placements.len(),
{
    if placements.len() > 0 {
        let earlier = placements.drop_last();
        lemma_earlier_fit(base, placements, words);
        lemma_insertions_length(base, earlier, words, shortest, longest);
        let token = placements.last().1;
        let (w, space, tab, newline, trailing) = choose|
            w: int,
            space: bool,
            tab: bool,
            newline: bool,
            trailing: bool,
        |
            0 <= w < words.len() && token == #[trigger] decoration(
                words[w],
                space,
                tab,
                newline,
                trailing,
            );
        let n = placements.len() as int;
        assert((n - 1) * shortest + shortest == n * shortest) by (nonlinear_arith);
        assert((n - 1) * (longest + 4) + (longest + 4) == n * (longest + 4)) by (nonlinear_arith);
    }
}

} // verus!
