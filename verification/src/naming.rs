//! Names: taking a source path apart into stem and extension, and putting
//! the path of a copy together.

use crate::text::{chars_of, string_of};
use vstd::prelude::*;
use vstd::string::StringExecFns;

verus! {

/// The position of the last `c` in `s`, or -1 where `s` holds none.
pub open spec fn last_index_of(s: Seq<char>, c: char) -> int
    decreases s.len(),
{
    if s.len() == 0 {
        -1
    } else if s.last() == c {
        s.len() - 1
    } else {
        last_index_of(s.drop_last(), c)
    }
}

/// The last component of `path`: what stands behind its last `/`.
pub open spec fn file_name_of(path: Seq<char>) -> Seq<char> {
    path.skip(last_index_of(path, '/') + 1)
}

/// Stem and extension of the file that `path` names: its last component,
/// split at the last dot. A component without a dot has no extension, nor
/// has one whose only dot is its first character, nor has `..`.
pub open spec fn split_name(path: Seq<char>) -> Option<(Seq<char>, Seq<char>)> {
    let name = file_name_of(path);
    let dot = last_index_of(name, '.');
    if dot <= 0 || name == seq!['.', '.'] {
        None
    } else {
        Some((name.take(dot), name.skip(dot + 1)))
    }
}

/// The extension of the file that `path` names, if it has one.
pub open spec fn extension_of(path: Seq<char>) -> Option<Seq<char>> {
    match split_name(path) {
        Some((_, extension)) => Some(extension),
        None => None,
    }
}

/// The decimal digit of `d`, for `d` below ten.
pub open spec fn digit(d: int) -> char {
    (48 + d) as char
}

/// `n` in decimal, without leading zeros.
pub open spec fn decimal(n: nat) -> Seq<char>
    decreases n,
{
    if n < 10 {
        seq![digit(n as int)]
    } else {
        decimal(n / 10).push(digit((n % 10) as int))
    }
}

/// What stands between the stem and the copy's index.
pub open spec fn index_mark() -> Seq<char> {
    seq!['_', 'I', 'D', 'X', '_']
}

/// What stands between the copy's index and the random suffix.
pub open spec fn suffix_mark() -> Seq<char> {
    seq!['_', 'R', 'A', 'N', 'D', '_']
}

/// The file name of a copy: `{stem}_IDX_{copy}_RAND_{suffix}.{extension}`.
pub open spec fn variant_file_name(
    stem: Seq<char>,
    copy: nat,
    suffix: nat,
    extension: Seq<char>,
) -> Seq<char> {
    stem + index_mark() + decimal(copy) + suffix_mark() + decimal(suffix) + seq!['.'] + extension
}

/// The path of a copy: its file name under the output directory.
pub open spec fn variant_name(
    output: Seq<char>,
    stem: Seq<char>,
    copy: nat,
    suffix: nat,
    extension: Seq<char>,
) -> Seq<char> {
    output + seq!['/'] + variant_file_name(stem, copy, suffix, extension)
}

/// A position that holds `c` and has no `c` behind it is the last one; so
/// is -1 where there is no `c` at all.
pub proof fn lemma_last_index_is(s: Seq<char>, c: char, k: int)
    requires
        -1 <= k < s.len(),
        k >= 0 ==> s[k] == c,
        forall|j: int| k < j < s.len() ==> s[j] != c,
    ensures
        last_index_of(s, c) == k,
    decreases s.len(),
{
    if s.len() > 0 && s.last() != c {
        lemma_last_index_is(s.drop_last(), c, k);
    }
}

/// Takes a path apart into the stem and the extension of the file it names,
/// by `split_name`. `None` says that the file has no extension.
pub fn read_file_name_extension(full_name: &str) -> (parts: Option<(String, String)>)
    ensures
        parts is Some <==> split_name(full_name@) is Some,
        parts matches Some((stem, extension)) ==> split_name(full_name@) == Some(
            (stem@, extension@),
        ),
{
    let chars: Vec<char> = chars_of(full_name);
    let len: usize = chars.len();
    let mut start: usize = len;
    while start > 0 && chars[start - 1] != '/'
        invariant
            start <= len == chars@.len(),
            forall|j: int| start <= j < len ==> chars@[j] != '/',
        decreases start,
    {
        start = start - 1;
    }
    let mut dot: usize = len;
    while dot > start && chars[dot - 1] != '.'
        invariant
            start <= dot <= len == chars@.len(),
            forall|j: int| dot <= j < len ==> chars@[j] != '.',
        decreases dot,
    {
        dot = dot - 1;
    }
    let ghost name = chars@.skip(start as int);
    proof {
        lemma_last_index_is(chars@, '/', start as int - 1);
        lemma_last_index_is(name, '.', dot as int - 1 - start as int);
    }
    if dot - start <= 1 {
        return None;
    }
    if len - start == 2 && chars[start] == '.' {
        assert(name == seq!['.', '.']);
        return None;
    }
    assert(name != seq!['.', '.']) by {
        if name == seq!['.', '.'] {
            assert(name.len() == 2 && name[0] == '.');
        }
    }
    let stem: String = string_of(&chars, start, dot - 1);
    let extension: String = string_of(&chars, dot, len);
    Some((stem, extension))
}

/// Appends `number` in decimal.
pub fn push_decimal(text: &mut String, number: u64)
    ensures
        final(text)@ == old(text)@ + decimal(number as nat),
    decreases number,
{
    if number >= 10 {
        push_decimal(text, number / 10);
    }
    let low: u8 = (number % 10) as u8;
    text.push((48u8 + low) as char);
}

/// The path of copy number `copy` of a source file, with the drawn `suffix`.
pub fn variant_path(output: &str, stem: &str, copy: u32, suffix: u64, extension: &str) -> (path:
    String)
    ensures
        path@ == variant_name(output@, stem@, copy as nat, suffix as nat, extension@),
{
    proof {
        reveal_strlit("_IDX_");
        reveal_strlit("_RAND_");
    }
    let mut path: String = String::new();
    path.append(output);
    path.push('/');
    path.append(stem);
    path.append("_IDX_");
    push_decimal(&mut path, copy as u64);
    path.append("_RAND_");
    push_decimal(&mut path, suffix);
    path.push('.');
    path.append(extension);
    path
}

/// `s` holds no `c`.
pub open spec fn lacks(s: Seq<char>, c: char) -> bool {
    forall|j: int| 0 <= j < s.len() ==> s[j] != c
}

/// `c` is a decimal digit.
pub open spec fn is_digit(c: char) -> bool {
    48 <= c as int <= 57
}

/// `s` is made of decimal digits.
pub open spec fn all_digits(s: Seq<char>) -> bool {
    forall|j: int| 0 <= j < s.len() ==> is_digit(#[trigger] s[j])
}

/// `last_index_of` is a position of `c`, or -1, and no `c` stands behind it.
pub proof fn lemma_last_index_bounds(s: Seq<char>, c: char)
    ensures
        -1 <= last_index_of(s, c) < s.len(),
        last_index_of(s, c) >= 0 ==> s[last_index_of(s, c)] == c,
        forall|j: int| last_index_of(s, c) < j < s.len() ==> s[j] != c,
    decreases s.len(),
{
    if s.len() > 0 && s.last() != c {
        lemma_last_index_bounds(s.drop_last(), c);
        assert forall|j: int| last_index_of(s, c) < j < s.len() implies s[j] != c by {
            if j < s.len() - 1 {
                assert(s[j] == s.drop_last()[j]);
            }
        }
    }
}

/// A number in decimal is a run of digits that is not empty.
pub proof fn lemma_decimal_digits(n: nat)
    ensures
        decimal(n).len() >= 1,
        all_digits(decimal(n)),
    decreases n,
{
    if n >= 10 {
        lemma_decimal_digits(n / 10);
    }
}

/// Different numbers are written differently.
pub proof fn lemma_decimal_injective(a: nat, b: nat)
    requires
        decimal(a) == decimal(b),
    ensures
        a == b,
    decreases a,
{
    lemma_decimal_digits(a / 10);
    lemma_decimal_digits(b / 10);
    if a >= 10 && b >= 10 {
        assert(decimal(a).drop_last() == decimal(a / 10));
        assert(decimal(b).drop_last() == decimal(b / 10));
        assert(decimal(a).last() == digit((a % 10) as int));
        assert(decimal(b).last() == digit((b % 10) as int));
        lemma_decimal_injective(a / 10, b / 10);
    } else if a < 10 && b < 10 {
        assert(decimal(a)[0] == digit(a as int));
        assert(decimal(b)[0] == digit(b as int));
    } else if a < 10 {
        assert(decimal(b).len() == decimal(b / 10).len() + 1);
    } else {
        assert(decimal(a).len() == decimal(a / 10).len() + 1);
    }
}

/// Where two runs of digits, each followed by something that starts with
/// no digit, give the same sequence, the runs are equal and so is what
/// follows them.
pub proof fn lemma_digit_run(x: Seq<char>, y: Seq<char>, p: Seq<char>, q: Seq<char>)
    requires
        all_digits(x),
        all_digits(p),
        y.len() > 0 && !is_digit(y[0]),
        q.len() > 0 && !is_digit(q[0]),
        x + y == p + q,
    ensures
        x == p,
        y == q,
{
    if x.len() < p.len() {
        assert((x + y)[x.len() as int] == y[0]);
        assert((p + q)[x.len() as int] == p[x.len() as int]);
    } else if p.len() < x.len() {
        assert((p + q)[p.len() as int] == q[0]);
        assert((x + y)[p.len() as int] == x[p.len() as int]);
    }
    assert(x == (x + y).subrange(0, x.len() as int));
    assert(p == (p + q).subrange(0, p.len() as int));
    assert(y == (x + y).subrange(x.len() as int, (x + y).len() as int));
    assert(q == (p + q).subrange(p.len() as int, (p + q).len() as int));
}

/// Two copies of one source file get the same path only if they have the
/// same index and the same random suffix.
pub proof fn lemma_variant_names_differ(
    output: Seq<char>,
    stem: Seq<char>,
    extension: Seq<char>,
    copy_a: nat,
    suffix_a: nat,
    copy_b: nat,
    suffix_b: nat,
)
    requires
        variant_name(output, stem, copy_a, suffix_a, extension) == variant_name(
            output,
            stem,
            copy_b,
            suffix_b,
            extension,
        ),
    ensures
        copy_a == copy_b,
        suffix_a == suffix_b,
{
    let front = output + seq!['/'] + stem + index_mark();
    let end = seq!['.'] + extension;
    let tail_a = suffix_mark() + (decimal(suffix_a) + end);
    let tail_b = suffix_mark() + (decimal(suffix_b) + end);
    let name_a = variant_name(output, stem, copy_a, suffix_a, extension);
    let name_b = variant_name(output, stem, copy_b, suffix_b, extension);
    assert(decimal(copy_a) + tail_a == name_a.subrange(front.len() as int, name_a.len() as int));
    assert(decimal(copy_b) + tail_b == name_b.subrange(front.len() as int, name_b.len() as int));
    lemma_decimal_digits(copy_a);
    lemma_decimal_digits(copy_b);
    lemma_decimal_digits(suffix_a);
    lemma_decimal_digits(suffix_b);
    lemma_digit_run(decimal(copy_a), tail_a, decimal(copy_b), tail_b);
    lemma_decimal_injective(copy_a, copy_b);
    assert(decimal(suffix_a) + end == tail_a.subrange(6, tail_a.len() as int));
    assert(decimal(suffix_b) + end == tail_b.subrange(6, tail_b.len() as int));
    lemma_digit_run(decimal(suffix_a), end, decimal(suffix_b), end);
    lemma_decimal_injective(suffix_a, suffix_b);
}

/// A copy has the extension of its source file: taking the copy's path
/// apart gives the copy's file name without the extension, and the
/// extension that the source path gave.
pub proof fn lemma_variant_keeps_extension(
    source: Seq<char>,
    output: Seq<char>,
    copy: nat,
    suffix: nat,
)
    requires
        split_name(source) is Some,
    ensures
        ({
            let (stem, extension) = split_name(source).unwrap();
            split_name(variant_name(output, stem, copy, suffix, extension)) == Some(
                (
                    stem + index_mark() + decimal(copy) + suffix_mark() + decimal(suffix),
                    extension,
                ),
            )
        }),
{
    let (stem, extension) = split_name(source).unwrap();
    let source_name = file_name_of(source);
    lemma_last_index_bounds(source, '/');
    lemma_last_index_bounds(source_name, '.');
    lemma_decimal_digits(copy);
    lemma_decimal_digits(suffix);
    let head = stem + index_mark() + decimal(copy) + suffix_mark() + decimal(suffix);
    let name = variant_file_name(stem, copy, suffix, extension);
    let path = variant_name(output, stem, copy, suffix, extension);
    assert(lacks(decimal(copy), '/')) by {
        assert forall|j: int| 0 <= j < decimal(copy).len() implies decimal(copy)[j] != '/' by {
            assert(is_digit(decimal(copy)[j]));
        }
    }
    assert(lacks(decimal(suffix), '/')) by {
        assert forall|j: int| 0 <= j < decimal(suffix).len() implies decimal(suffix)[j] != '/' by {
            assert(is_digit(decimal(suffix)[j]));
        }
    }
    assert(lacks(name, '/'));
    lemma_last_index_is(path, '/', output.len() as int);
    assert(file_name_of(path) == name);
    assert(name == head + seq!['.'] + extension);
    lemma_last_index_is(name, '.', head.len() as int);
}

} // verus!
