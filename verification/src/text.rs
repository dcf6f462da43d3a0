//! Character classes, decimal numbers and splitting on a separator.
//!
//! Everything here is stated over `Seq<char>`, the view of a string.

use vstd::prelude::*;
use vstd::utf8::{decode_utf8, valid_utf8};

verus! {

/// The middle dot that separates the parts of a cross-reference.
pub const MIDDLE_DOT: char = '\u{30fb}';

/// Whether `c` lies in the katakana block, U+30A0 to U+30FF.
pub open spec fn is_katakana_char(c: char) -> bool {
    '\u{30a0}' <= c && c <= '\u{30ff}'
}

/// Whether every character of `s` lies in the katakana block.
pub open spec fn all_katakana(s: Seq<char>) -> bool {
    forall|i: int| 0 <= i < s.len() ==> is_katakana_char(#[trigger] s[i])
}

/// Whether `c` has the Unicode property White_Space.
pub open spec fn is_space(c: char) -> bool {
    ||| ('\u{9}' <= c && c <= '\u{d}')
    ||| c == '\u{20}'
    ||| c == '\u{85}'
    ||| c == '\u{a0}'
    ||| c == '\u{1680}'
    ||| ('\u{2000}' <= c && c <= '\u{200a}')
    ||| c == '\u{2028}'
    ||| c == '\u{2029}'
    ||| c == '\u{202f}'
    ||| c == '\u{205f}'
    ||| c == '\u{3000}'
}

/// Whether `s` neither starts nor ends with white space.
pub open spec fn is_trimmed(s: Seq<char>) -> bool {
    s.len() == 0 || (!is_space(s[0]) && !is_space(s.last()))
}

/// Whether `c` is one of the ten ASCII digits.
pub open spec fn is_digit(c: char) -> bool {
    '0' <= c && c <= '9'
}

/// The number that the digit `c` stands for.
pub open spec fn digit_value(c: char) -> nat {
    (c as nat - '0' as nat) as nat
}

/// Whether `s` consists of ASCII digits only.
pub open spec fn all_digits(s: Seq<char>) -> bool {
    forall|i: int| 0 <= i < s.len() ==> is_digit(#[trigger] s[i])
}

/// The number that the digit string `s` writes in base ten.
pub open spec fn decimal_value(s: Seq<char>) -> nat
    decreases s.len(),
{
    if s.len() == 0 {
        0
    } else {
        decimal_value(s.drop_last()) * 10 + digit_value(s.last())
    }
}

/// The digits of a number text: the text without its optional leading `+`.
pub open spec fn unsigned_digits(s: Seq<char>) -> Seq<char> {
    if s.len() > 0 && s[0] == '+' {
        s.skip(1)
    } else {
        s
    }
}

/// The unsigned number that `s` writes, if it writes one that is at most
/// `max`: an optional `+`, then one or more ASCII digits and nothing else.
pub open spec fn unsigned_of(s: Seq<char>, max: nat) -> Option<nat> {
    let digits = unsigned_digits(s);
    if digits.len() > 0 && all_digits(digits) && decimal_value(digits) <= max {
        Some(decimal_value(digits))
    } else {
        None
    }
}

/// The parts of `s` between occurrences of `sep`. There is always one part
/// more than there are separators, so the result is never empty.
pub open spec fn split(s: Seq<char>, sep: char) -> Seq<Seq<char>>
    decreases s.len(),
{
    if s.len() == 0 {
        seq![Seq::<char>::empty()]
    } else {
        let before = split(s.drop_last(), sep);
        if s.last() == sep {
            before.push(Seq::<char>::empty())
        } else {
            before.drop_last().push(before.last().push(s.last()))
        }
    }
}

/// The parts written one after the other with `sep` between neighbours.
pub open spec fn join(parts: Seq<Seq<char>>, sep: char) -> Seq<char>
    decreases parts.len(),
{
    if parts.len() == 0 {
        Seq::<char>::empty()
    } else if parts.len() == 1 {
        parts[0]
    } else {
        join(parts.drop_last(), sep) + seq![sep] + parts.last()
    }
}

/// Splitting yields at least one part.
pub proof fn lemma_split_nonempty(s: Seq<char>, sep: char)
    ensures
        split(s, sep).len() >= 1,
    decreases s.len(),
{
    if s.len() > 0 {
        lemma_split_nonempty(s.drop_last(), sep);
    }
}

/// No part of a split holds the separator.
pub proof fn lemma_split_parts_free(s: Seq<char>, sep: char)
    ensures
        forall|j: int, i: int|
            0 <= j < split(s, sep).len() && 0 <= i < split(s, sep)[j].len() ==> #[trigger] split(
                s,
                sep,
            )[j][i] != sep,
    decreases s.len(),
{
    if s.len() > 0 {
        lemma_split_parts_free(s.drop_last(), sep);
        lemma_split_nonempty(s.drop_last(), sep);
    }
}

/// A text without the separator is its own single part.
pub proof fn lemma_split_single(s: Seq<char>, sep: char)
    requires
        forall|i: int| 0 <= i < s.len() ==> s[i] != sep,
    ensures
        split(s, sep) == seq![s],
    decreases s.len(),
{
    if s.len() > 0 {
        lemma_split_single(s.drop_last(), sep);
        assert(s.drop_last().push(s.last()) =~= s);
        assert(seq![s.drop_last()].drop_last().push(s) =~= seq![s]);
    } else {
        assert(Seq::<char>::empty() =~= s);
    }
}

/// Joining what a split gave restores the text.
pub proof fn lemma_join_split(s: Seq<char>, sep: char)
    ensures
        join(split(s, sep), sep) == s,
    decreases s.len(),
{
    if s.len() == 0 {
        assert(join(split(s, sep), sep) =~= s);
    } else {
        let t = s.drop_last();
        let c = s.last();
        let before = split(t, sep);
        let after = split(s, sep);
        lemma_join_split(t, sep);
        lemma_split_nonempty(t, sep);
        assert(t.push(c) =~= s);
        if c == sep {
            assert(after.drop_last() =~= before);
            assert(join(after, sep) =~= s);
        } else if before.len() == 1 {
            assert(join(after, sep) =~= s);
        } else {
            assert(after.drop_last() =~= before.drop_last());
            assert(join(after, sep) =~= s);
        }
    }
}

/// The first `k` parts of a split, joined again, are a prefix of the text.
pub proof fn lemma_join_prefix(s: Seq<char>, sep: char, k: int)
    requires
        1 <= k <= split(s, sep).len(),
    ensures
        join(split(s, sep).take(k), sep).len() <= s.len(),
        join(split(s, sep).take(k), sep) == s.take(join(split(s, sep).take(k), sep).len() as int),
    decreases s.len(),
{
    let after = split(s, sep);
    if k == after.len() {
        assert(after.take(k) =~= after);
        lemma_join_split(s, sep);
        assert(s.take(s.len() as int) =~= s);
    } else {
        // k < after.len(), so s is not empty
        let t = s.drop_last();
        let before = split(t, sep);
        lemma_split_nonempty(t, sep);
        assert(after.take(k) =~= before.take(k));
        lemma_join_prefix(t, sep, k);
        let joined = join(before.take(k), sep);
        assert(t.take(joined.len() as int) =~= s.take(joined.len() as int));
    }
}

/// A digit string is worth at least as much as each of its prefixes.
pub proof fn lemma_decimal_monotonic(s: Seq<char>, k: int)
    requires
        0 <= k <= s.len(),
    ensures
        decimal_value(s.take(k)) <= decimal_value(s),
    decreases s.len(),
{
    if k < s.len() {
        lemma_decimal_monotonic(s.drop_last(), k);
        assert(s.drop_last().take(k) =~= s.take(k));
    } else {
        assert(s.take(k) =~= s);
    }
}

/// The views of a vector of character vectors.
pub open spec fn rows(parts: Seq<Vec<char>>) -> Seq<Seq<char>> {
    parts.map_values(|p: Vec<char>| p@)
}

/// Copies the characters of `s` into a vector.
pub fn chars_of(s: &str) -> (v: Vec<char>)
    ensures
        v@ == s@,
{
    let mut v: Vec<char> = Vec::new();
    for c in it: s.chars()
        invariant
            it.seq() == s@,
            v@ == it.seq().take(it.index()),
    {
        v.push(c);
    }
    v
}

/// Tells whether `c` is white space.
pub fn is_whitespace(c: char) -> (b: bool)
    ensures
        b == is_space(c),
{
    ('\u{9}' <= c && c <= '\u{d}') || c == '\u{20}' || c == '\u{85}' || c == '\u{a0}' || c
        == '\u{1680}' || ('\u{2000}' <= c && c <= '\u{200a}') || c == '\u{2028}' || c
        == '\u{2029}' || c == '\u{202f}' || c == '\u{205f}' || c == '\u{3000}'
}

/// Tells whether `s` is free of leading and trailing white space.
pub fn check_trimmed(s: &str) -> (b: bool)
    ensures
        b == is_trimmed(s@),
{
    let n = s.unicode_len();
    if n == 0 {
        true
    } else {
        !is_whitespace(s.get_char(0)) && !is_whitespace(s.get_char(n - 1))
    }
}

/// Tells whether every character of `chars` is katakana.
pub fn katakana_only(chars: &Vec<char>) -> (b: bool)
    ensures
        b == all_katakana(chars@),
{
    let mut i: usize = 0;
    while i < chars.len()
        invariant
            i <= chars.len(),
            forall|j: int| 0 <= j < i ==> is_katakana_char(#[trigger] chars@[j]),
        decreases chars.len() - i,
    {
        let c = chars[i];
        if !('\u{30a0}' <= c && c <= '\u{30ff}') {
            return false;
        }
        i += 1;
    }
    true
}

/// Classifies a word as written in katakana only.
pub fn is_katakana(word: &str) -> (b: bool)
    ensures
        b == all_katakana(word@),
{
    let chars = chars_of(word);
    katakana_only(&chars)
}

/// Reads `chars` as an unsigned decimal number that is at most `max`.
pub fn parse_unsigned(chars: &Vec<char>, max: u32) -> (r: Option<u32>)
    ensures
        match r {
            Some(n) => unsigned_of(chars@, max as nat) == Some(n as nat),
            None => unsigned_of(chars@, max as nat) is None,
        },
{
    let n = chars.len();
    let start: usize = if n > 0 && chars[0] == '+' {
        1
    } else {
        0
    };
    if start == n {
        return None;
    }
    let ghost digits = unsigned_digits(chars@);
    assert(digits =~= chars@.skip(start as int));
    let mut value: u64 = 0;
    let mut i: usize = start;
    while i < n
        invariant
            start <= i <= n,
            n == chars.len(),
            digits == chars@.skip(start as int),
            digits == unsigned_digits(chars@),
            all_digits(digits.take(i - start)),
            value == decimal_value(digits.take(i - start)),
            value <= max,
        decreases n - i,
    {
        let c = chars[i];
        if !('0' <= c && c <= '9') {
            assert(digits[i - start] == c);
            return None;
        }
        let d: u64 = (c as u32 - '0' as u32) as u64;
        value = value * 10 + d;
        proof {
            let longer = digits.take(i + 1 - start);
            assert(longer.drop_last() =~= digits.take(i - start));
            assert(longer.last() == c);
            assert forall|j: int| 0 <= j < longer.len() implies is_digit(#[trigger] longer[j]) by {
                if j < i - start {
                    assert(longer[j] == digits.take(i - start)[j]);
                }
            }
        }
        if value > max as u64 {
            proof {
                lemma_decimal_monotonic(digits, i + 1 - start);
            }
            return None;
        }
        i += 1;
    }
    proof {
        assert(digits.take(n - start) =~= digits);
    }
    Some(value as u32)
}

/// Cuts `chars` at every occurrence of `sep`.
pub fn split_on(chars: &Vec<char>, sep: char) -> (parts: Vec<Vec<char>>)
    ensures
        rows(parts@) == split(chars@, sep),
{
    let mut done: Vec<Vec<char>> = Vec::new();
    let mut current: Vec<char> = Vec::new();
    let mut i: usize = 0;
    assert(rows(done@).push(current@) =~= split(chars@.take(0), sep));
    while i < chars.len()
        invariant
            i <= chars.len(),
            rows(done@).push(current@) == split(chars@.take(i as int), sep),
        decreases chars.len() - i,
    {
        let c = chars[i];
        let ghost before = rows(done@).push(current@);
        proof {
            assert(chars@.take(i + 1).drop_last() =~= chars@.take(i as int));
            assert(chars@.take(i + 1).last() == c);
        }
        if c == sep {
            let ghost closed = current@;
            done.push(current);
            current = Vec::new();
            assert(rows(done@) =~= before);
            assert(current@ =~= Seq::<char>::empty());
        } else {
            let ghost shorter = current@;
            current.push(c);
            assert(rows(done@) =~= before.drop_last());
            assert(before.last() == shorter);
        }
        i += 1;
    }
    let ghost before = rows(done@).push(current@);
    done.push(current);
    proof {
        assert(chars@.take(chars.len() as int) =~= chars@);
        assert(rows(done@) =~= before);
    }
    done
}

/// `std::str::from_utf8`, the text copied: the text that the bytes encode,
/// or `None` where they are not UTF-8.
#[verifier::external_body]
fn utf8_to_string(bytes: &[u8]) -> (text: Option<String>)
    ensures
        match text {
            Some(s) => valid_utf8(bytes@) && s@ == decode_utf8(bytes@),
            None => !valid_utf8(bytes@),
        },
{
    std::str::from_utf8(bytes).ok().map(|s| s.to_owned())
}

/// Reads bytes as UTF-8 text.
pub fn text_of_utf8(bytes: &[u8]) -> (text: Option<String>)
    ensures
        match text {
            Some(s) => valid_utf8(bytes@) && s@ == decode_utf8(bytes@),
            None => !valid_utf8(bytes@),
        },
{
    utf8_to_string(bytes)
}

} // verus!
