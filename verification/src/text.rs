//! Characters and character sequences: the classes the lexer tells apart,
//! and the decimal notation of integers.
use vstd::prelude::*;
use vstd::string::*;

verus! {

/// One of the four characters that separate tokens and are otherwise ignored.
pub open spec fn is_space(c: char) -> bool {
    c == ' ' || c == '\n' || c == '\t' || c == '\r'
}

/// One of the ASCII letters `a`-`z` and `A`-`Z`.
pub open spec fn is_letter(c: char) -> bool {
    ('a' <= c && c <= 'z') || ('A' <= c && c <= 'Z')
}

/// One of the ASCII digits `0`-`9`.
pub open spec fn is_digit(c: char) -> bool {
    '0' <= c && c <= '9'
}

/// A character that may continue a word: a letter, a digit or `_`.
pub open spec fn is_word_char(c: char) -> bool {
    is_letter(c) || is_digit(c) || c == '_'
}

/// Whether `c` is a space, a tab, a line feed or a carriage return.
pub fn char_is_space(c: char) -> (r: bool)
    ensures
        r == is_space(c),
{
    c == ' ' || c == '\n' || c == '\t' || c == '\r'
}

/// Whether `c` is an ASCII letter.
pub fn char_is_letter(c: char) -> (r: bool)
    ensures
        r == is_letter(c),
{
    (c >= 'a' && c <= 'z') || (c >= 'A' && c <= 'Z')
}

/// Whether `c` is an ASCII digit.
pub fn char_is_digit(c: char) -> (r: bool)
    ensures
        r == is_digit(c),
{
    c >= '0' && c <= '9'
}

/// Whether `c` may continue a word.
pub fn char_is_word_char(c: char) -> (r: bool)
    ensures
        r == is_word_char(c),
{
    char_is_letter(c) || char_is_digit(c) || c == '_'
}

/// The number that the digit `c` stands for.
pub open spec fn digit_value(c: char) -> nat
    recommends
        is_digit(c),
{
    (c as u32 - '0' as u32) as nat
}

/// The number that the decimal digits `digits` spell, most significant
/// digit first; leading zeros count for nothing.
pub open spec fn decimal_value(digits: Seq<char>) -> nat
    decreases digits.len(),
{
    if digits.len() == 0 {
        0
    } else {
        decimal_value(digits.drop_last()) * 10 + digit_value(digits.last())
    }
}

/// Appending one digit multiplies the value by ten and adds the digit.
pub proof fn lemma_decimal_value_push(s: Seq<char>, start: int, end: int)
    requires
        0 <= start <= end < s.len(),
    ensures
        decimal_value(s.subrange(start, end + 1)) == decimal_value(s.subrange(start, end)) * 10
            + digit_value(s[end]),
{
    assert(s.subrange(start, end + 1).drop_last() =~= s.subrange(start, end));
}

/// A longer run of digits from the same start spells no smaller a number.
pub proof fn lemma_decimal_value_grows(s: Seq<char>, start: int, mid: int, end: int)
    requires
        0 <= start <= mid <= end <= s.len(),
    ensures
        decimal_value(s.subrange(start, mid)) <= decimal_value(s.subrange(start, end)),
    decreases end - mid,
{
    if mid < end {
        lemma_decimal_value_grows(s, start, mid, end - 1);
        lemma_decimal_value_push(s, start, end - 1);
    }
}

/// The characters of `s`, in order.
pub fn to_chars(s: &str) -> (v: Vec<char>)
    ensures
        v@ == s@,
{
    let mut v: Vec<char> = Vec::new();
    for c in it: s.chars()
        invariant
            v@ == it.seq().take(it.index() as int),
    {
        v.push(c);
    }
    v
}

/// Whether `s` spells exactly `word`.
pub fn text_is(s: &String, word: &str) -> (r: bool)
    ensures
        r == (s@ == word@),
{
    let w = String::from_str(word);
    *s == w
}

} // verus!
