//! Comparing strings, reading numbers from them and splitting them into
//! words.

use vstd::prelude::*;
use vstd::std_specs::iter::IteratorSpec;
use vstd::string::StringSliceAdditionalSpecFns;
use vstd::utf8::{encode_utf8_decode_utf8, is_ascii_chars_encode_utf8};

verus! {

/// The byte of the character `+`.
const PLUS: u8 = 0x2b;

/// The byte of the digit `0`.
const ZERO: u8 = 0x30;

/// The byte of the digit `9`.
const NINE: u8 = 0x39;

/// Whether two strings hold the same characters.
pub fn str_eq(a: &str, b: &str) -> (same: bool)
    ensures
        same == (a@ == b@),
{
    let x = a.as_bytes();
    let y = b.as_bytes();
    proof {
        // Two strings with the same bytes decode to the same characters.
        encode_utf8_decode_utf8(a@);
        encode_utf8_decode_utf8(b@);
    }
    if x.len() != y.len() {
        return false;
    }
    let mut i: usize = 0;
    while i < x.len()
        invariant
            i <= x.len(),
            x.len() == y.len(),
            x@ == a.spec_bytes(),
            y@ == b.spec_bytes(),
            forall|j: int| 0 <= j < i ==> x@[j] == y@[j],
        decreases x.len() - i,
    {
        if x[i] != y[i] {
            return false;
        }
        i += 1;
    }
    assert(x@ =~= y@);
    true
}

/// Whether `c` is one of the ten decimal digits.
pub open spec fn is_digit(c: char) -> bool {
    '0' <= c <= '9'
}

/// The number that a string of decimal digits stands for.
pub open spec fn decimal_value(digits: Seq<char>) -> nat
    decreases digits.len(),
{
    if digits.len() == 0 {
        0
    } else {
        10 * decimal_value(digits.drop_last()) + (digits.last() as nat - '0' as nat) as nat
    }
}

/// What is left of a number's text once a leading `+` is taken off.
pub open spec fn unsigned_digits(s: Seq<char>) -> Seq<char> {
    if s.len() > 0 && s[0] == '+' {
        s.drop_first()
    } else {
        s
    }
}

/// The number that `s` is the decimal text of: an optional `+`, then one or
/// more digits and nothing else, with a value that a `usize` can hold.
pub open spec fn decimal_usize(s: Seq<char>) -> Option<usize> {
    let digits = unsigned_digits(s);
    if digits.len() > 0 && (forall|i: int| 0 <= i < digits.len() ==> is_digit(#[trigger] digits[i]))
        && decimal_value(digits) <= usize::MAX {
        Some(decimal_value(digits) as usize)
    } else {
        None
    }
}

/// A number is at least as large as the number written by its first `k`
/// digits.
pub proof fn lemma_decimal_value_prefix(digits: Seq<char>, k: int)
    requires
        0 <= k <= digits.len(),
    ensures
        decimal_value(digits.take(k)) <= decimal_value(digits),
    decreases digits.len(),
{
    if k == digits.len() {
        assert(digits.take(k) =~= digits);
    } else {
        lemma_decimal_value_prefix(digits.drop_last(), k);
        assert(digits.drop_last().take(k) =~= digits.take(k));
    }
}

/// Reads a decimal number from `s`.
pub fn parse_usize(s: &str) -> (n: Option<usize>)
    ensures
        n == decimal_usize(s@),
{
    if !s.is_ascii() {
        // A character outside ASCII is neither a sign nor a digit.
        proof {
            let digits = unsigned_digits(s@);
            if decimal_usize(s@) is Some {
                assert forall|i: int| 0 <= i < s@.len() implies '\0' <= #[trigger] s@[i]
                    <= '\u{7f}' by {
                    if s@[0] == '+' {
                        if i > 0 {
                            assert(is_digit(digits[i - 1]));
                        }
                    } else {
                        assert(is_digit(digits[i]));
                    }
                }
            }
        }
        return None;
    }
    let bytes = s.as_bytes();
    proof {
        is_ascii_chars_encode_utf8(s@);
    }
    let start: usize = if bytes.len() > 0 && bytes[0] == PLUS {
        1
    } else {
        0
    };
    let ghost digits = unsigned_digits(s@);
    assert(digits =~= s@.subrange(start as int, s@.len() as int));
    if start == bytes.len() {
        return None;
    }
    let mut value: usize = 0;
    let mut i: usize = start;
    while i < bytes.len()
        invariant
            start <= i <= bytes.len(),
            bytes@.len() == s@.len(),
            forall|j: int| 0 <= j < s@.len() ==> s@[j] as u8 == bytes@[j],
            forall|j: int| 0 <= j < s@.len() ==> '\0' <= #[trigger] s@[j] <= '\u{7f}',
            digits == s@.subrange(start as int, s@.len() as int),
            digits == unsigned_digits(s@),
            digits.len() > 0,
            forall|j: int| 0 <= j < i - start ==> is_digit(#[trigger] digits[j]),
            value == decimal_value(digits.take(i - start)),
        decreases bytes.len() - i,
    {
        let b = bytes[i];
        if b < ZERO || b > NINE {
            assert(!is_digit(digits[i - start]));
            return None;
        }
        let d: usize = (b - ZERO) as usize;
        proof {
            let next = digits.take(i - start + 1);
            assert(next.drop_last() =~= digits.take(i - start));
            assert(next.last() == s@[i as int]);
            assert(decimal_value(next) == 10 * value + d);
            lemma_decimal_value_prefix(digits, i - start + 1);
        }
        let tenfold = match value.checked_mul(10) {
            Some(t) => t,
            None => {
                return None;
            },
        };
        value = match tenfold.checked_add(d) {
            Some(v) => v,
            None => {
                return None;
            },
        };
        i += 1;
    }
    assert(digits.take(i - start) =~= digits);
    Some(value)
}

/// The characters of a string, one by one.
pub fn chars_of(s: &str) -> (chars: Vec<char>)
    ensures
        chars@ == s@,
{
    let mut chars: Vec<char> = Vec::new();
    for c in it: s.chars()
        invariant
            it.seq() == s@,
            chars@ == s@.take(it.index()),
    {
        chars.push(c);
        assert(s@.take(it.index() + 1) =~= s@.take(it.index()).push(c));
    }
    assert(s@.take(s@.len() as int) =~= s@);
    chars
}

/// Whether two lists of characters are the same.
pub fn vec_eq(a: &Vec<char>, b: &Vec<char>) -> (same: bool)
    ensures
        same == (a@ == b@),
{
    if a.len() != b.len() {
        return false;
    }
    let mut i: usize = 0;
    while i < a.len()
        invariant
            i <= a.len(),
            a.len() == b.len(),
            forall|j: int| 0 <= j < i ==> a@[j] == b@[j],
        decreases a.len() - i,
    {
        if a[i] != b[i] {
            return false;
        }
        i += 1;
    }
    assert(a@ =~= b@);
    true
}

/// Whether `c` is white space, as Unicode defines it.
pub open spec fn is_whitespace(c: char) -> bool {
    let n = c as u32;
    (0x09 <= n <= 0x0d) || n == 0x20 || n == 0x85 || n == 0xa0 || n == 0x1680 || (0x2000 <= n
        <= 0x200a) || n == 0x2028 || n == 0x2029 || n == 0x202f || n == 0x205f || n == 0x3000
}

/// Whether `c` is white space.
pub fn char_is_whitespace(c: char) -> (space: bool)
    ensures
        space == is_whitespace(c),
{
    let n = c as u32;
    (0x09 <= n && n <= 0x0d) || n == 0x20 || n == 0x85 || n == 0xa0 || n == 0x1680 || (0x2000 <= n
        && n <= 0x200a) || n == 0x2028 || n == 0x2029 || n == 0x202f || n == 0x205f || n == 0x3000
}

/// The word `word` as a list of words: none if it is empty.
pub open spec fn word_list(word: Seq<char>) -> Seq<Seq<char>> {
    if word.len() > 0 {
        seq![word]
    } else {
        Seq::empty()
    }
}

/// The words of `s` where the characters `word` of its first word have
/// been read already.
pub open spec fn words_from(s: Seq<char>, word: Seq<char>) -> Seq<Seq<char>>
    decreases s.len(),
{
    if s.len() == 0 {
        word_list(word)
    } else if is_whitespace(s[0]) {
        word_list(word) + words_from(s.drop_first(), Seq::empty())
    } else {
        words_from(s.drop_first(), word.push(s[0]))
    }
}

/// The words of `s`: its longest runs of characters that are not white
/// space, in order.
pub open spec fn words(s: Seq<char>) -> Seq<Seq<char>> {
    words_from(s, Seq::empty())
}

/// Every word that `words_from` gives is non-empty and holds no white
/// space, provided that the characters read already hold none.
proof fn lemma_words_from_are_solid(s: Seq<char>, word: Seq<char>, i: int)
    requires
        forall|k: int| 0 <= k < word.len() ==> !is_whitespace(#[trigger] word[k]),
        0 <= i < words_from(s, word).len(),
    ensures
        words_from(s, word)[i].len() > 0,
        forall|k: int|
            0 <= k < words_from(s, word)[i].len() ==> !is_whitespace(
                #[trigger] words_from(s, word)[i][k],
            ),
    decreases s.len(),
{
    if s.len() > 0 {
        if is_whitespace(s[0]) {
            if i >= word_list(word).len() {
                lemma_words_from_are_solid(s.drop_first(), Seq::empty(), i - word_list(word).len());
            }
        } else {
            lemma_words_from_are_solid(s.drop_first(), word.push(s[0]), i);
        }
    }
}

/// Every word of a string is non-empty and holds no white space.
pub proof fn lemma_words_are_solid(s: Seq<char>, i: int)
    requires
        0 <= i < words(s).len(),
    ensures
        words(s)[i].len() > 0,
        forall|k: int| 0 <= k < words(s)[i].len() ==> !is_whitespace(#[trigger] words(s)[i][k]),
{
    lemma_words_from_are_solid(s, Seq::empty(), i);
}

/// The characters of each word of a list.
pub open spec fn word_views(list: Seq<Vec<char>>) -> Seq<Seq<char>> {
    Seq::new(list.len(), |i: int| list[i]@)
}

/// Splits a string into its words.
pub fn split_whitespace(s: &str) -> (list: Vec<Vec<char>>)
    ensures
        word_views(list@) == words(s@),
{
    let chars = chars_of(s);
    let mut list: Vec<Vec<char>> = Vec::new();
    let mut word: Vec<char> = Vec::new();
    let mut i: usize = 0;
    assert(chars@.skip(0) =~= s@);
    assert(word_views(list@) =~= Seq::<Seq<char>>::empty());
    while i < chars.len()
        invariant
            i <= chars.len(),
            chars@ == s@,
            words(s@) == word_views(list@) + words_from(chars@.skip(i as int), word@),
        decreases chars.len() - i,
    {
        let c = chars[i];
        let ghost before = word_views(list@);
        let ghost read = word@;
        let ghost rest = chars@.skip(i + 1);
        assert(chars@.skip(i as int)[0] == c);
        assert(chars@.skip(i as int).drop_first() =~= rest);
        if char_is_whitespace(c) {
            if word.len() > 0 {
                list.push(word);
                word = Vec::new();
                assert(word_views(list@) =~= before + seq![read]);
            }
            assert(word@ =~= Seq::<char>::empty());
            assert(before + (word_list(read) + words_from(rest, Seq::empty())) =~= (before
                + word_list(read)) + words_from(rest, Seq::empty()));
        } else {
            word.push(c);
        }
        i += 1;
    }
    let ghost before = word_views(list@);
    if word.len() > 0 {
        let ghost w = word@;
        list.push(word);
        assert(word_views(list@) =~= before + seq![w]);
    }
    list
}

} // verus!
