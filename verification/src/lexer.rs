//! The lexer: from a text to its sequence of tokens.
//!
//! [`lex_tokens`] says what the tokens of a text are; [`tokenize`] computes
//! them.
use vstd::prelude::*;
use vstd::string::*;
use crate::text::{
    char_is_digit, char_is_letter, char_is_space, char_is_word_char, decimal_value, is_digit,
    is_letter, is_space, is_word_char, lemma_decimal_value_grows, lemma_decimal_value_push,
    to_chars,
};
use crate::token::{tokens_view, Token, TokenView};

verus! {

/// Why a text has no token sequence.
#[derive(Debug, Clone, Copy, PartialEq, Eq, Structural)]
pub enum LexError {
    /// A character that starts no token.
    UnexpectedCharacter(char),
    /// A `"` with no closing `"` after it.
    UnterminatedString,
    /// An integer literal above `i32::MAX`.
    NumberOutOfRange,
}

/// The first position from `i` on that holds no word character, or the
/// length of `s` if there is none.
pub open spec fn word_end(s: Seq<char>, i: int) -> int
    decreases s.len() - i,
{
    if 0 <= i < s.len() && is_word_char(s[i]) {
        word_end(s, i + 1)
    } else {
        i
    }
}

/// The first position from `i` on that holds no digit, or the length of `s`.
pub open spec fn digits_end(s: Seq<char>, i: int) -> int
    decreases s.len() - i,
{
    if 0 <= i < s.len() && is_digit(s[i]) {
        digits_end(s, i + 1)
    } else {
        i
    }
}

/// The first position from `i` on that holds a `"`, or the length of `s`.
pub open spec fn quote_position(s: Seq<char>, i: int) -> int
    decreases s.len() - i,
{
    if 0 <= i < s.len() && s[i] != '"' {
        quote_position(s, i + 1)
    } else {
        i
    }
}

/// A word ends at or after the position where the search began, inside
/// the text.
pub proof fn lemma_word_end_bounds(s: Seq<char>, i: int)
    requires
        0 <= i <= s.len(),
    ensures
        i <= word_end(s, i) <= s.len(),
    decreases s.len() - i,
{
    if i < s.len() && is_word_char(s[i]) {
        lemma_word_end_bounds(s, i + 1);
    }
}

/// A run of digits ends at or after the position where the search began,
/// inside the text, and holds digits only.
pub proof fn lemma_digits_end_bounds(s: Seq<char>, i: int)
    requires
        0 <= i <= s.len(),
    ensures
        i <= digits_end(s, i) <= s.len(),
        forall|k: int| i <= k < digits_end(s, i) ==> is_digit(#[trigger] s[k]),
    decreases s.len() - i,
{
    if i < s.len() && is_digit(s[i]) {
        lemma_digits_end_bounds(s, i + 1);
    }
}

/// The next quote is found at or after the position where the search
/// began; a position inside the text holds a quote.
pub proof fn lemma_quote_position_bounds(s: Seq<char>, i: int)
    requires
        0 <= i <= s.len(),
    ensures
        i <= quote_position(s, i) <= s.len(),
        quote_position(s, i) < s.len() ==> s[quote_position(s, i)] == '"',
    decreases s.len() - i,
{
    if i < s.len() && s[i] != '"' {
        lemma_quote_position_bounds(s, i + 1);
    }
}

/// The token that a single punctuation character stands for. `-` is not
/// among them: it may start `->`.
pub open spec fn punctuation(c: char) -> Option<TokenView> {
    if c == '(' {
        Some(TokenView::LeftParen)
    } else if c == ')' {
        Some(TokenView::RightParen)
    } else if c == '{' {
        Some(TokenView::LeftCurly)
    } else if c == '}' {
        Some(TokenView::RightCurly)
    } else if c == ';' {
        Some(TokenView::Semicolon)
    } else if c == ':' {
        Some(TokenView::Colon)
    } else if c == ',' {
        Some(TokenView::Comma)
    } else if c == '=' {
        Some(TokenView::Equal)
    } else if c == '+' {
        Some(TokenView::Plus)
    } else if c == '*' {
        Some(TokenView::Star)
    } else if c == '/' {
        Some(TokenView::Slash)
    } else if c == '.' {
        Some(TokenView::Dot)
    } else {
        None
    }
}

/// What starts at position `i` of `s`: a token, or nothing where a space
/// stands, together with the position after it.
pub open spec fn scan(s: Seq<char>, i: int) -> Result<(Option<TokenView>, int), LexError>
    recommends
        0 <= i < s.len(),
{
    let c = s[i];
    if is_space(c) {
        Ok((None, i + 1))
    } else if c == '-' {
        if i + 1 < s.len() && s[i + 1] == '>' {
            Ok((Some(TokenView::LeftArrow), i + 2))
        } else {
            Ok((Some(TokenView::Minus), i + 1))
        }
    } else if punctuation(c) is Some {
        Ok((punctuation(c), i + 1))
    } else if is_letter(c) {
        let j = word_end(s, i + 1);
        Ok((Some(TokenView::Word(s.subrange(i, j))), j))
    } else if is_digit(c) {
        let j = digits_end(s, i + 1);
        if j < s.len() && s[j] == '.' {
            let k = digits_end(s, j + 1);
            Ok((Some(TokenView::Float(s.subrange(i, k))), k))
        } else if decimal_value(s.subrange(i, j)) > i32::MAX {
            Err(LexError::NumberOutOfRange)
        } else {
            Ok((Some(TokenView::Int(decimal_value(s.subrange(i, j)) as i32)), j))
        }
    } else if c == '"' {
        let j = quote_position(s, i + 1);
        if j < s.len() {
            Ok((Some(TokenView::String(s.subrange(i + 1, j))), j + 1))
        } else {
            Err(LexError::UnterminatedString)
        }
    } else {
        Err(LexError::UnexpectedCharacter(c))
    }
}

/// Every successful scan ends after the position where it began, and not
/// after the end of the text.
pub proof fn lemma_scan_advances(s: Seq<char>, i: int)
    requires
        0 <= i < s.len(),
    ensures
        scan(s, i) matches Ok((_, j)) ==> i < j <= s.len(),
{
    lemma_word_end_bounds(s, i + 1);
    lemma_digits_end_bounds(s, i + 1);
    lemma_quote_position_bounds(s, i + 1);
    let j = digits_end(s, i + 1);
    if j < s.len() {
        lemma_digits_end_bounds(s, j + 1);
    }
}

/// `tokens`, followed by what `rest` holds if it holds any.
pub open spec fn followed_by(
    tokens: Seq<TokenView>,
    rest: Result<Seq<TokenView>, LexError>,
) -> Result<Seq<TokenView>, LexError> {
    match rest {
        Ok(more) => Ok(tokens + more),
        Err(e) => Err(e),
    }
}

/// The tokens of `s` from position `i` on.
pub open spec fn lex_from(s: Seq<char>, i: int) -> Result<Seq<TokenView>, LexError>
    decreases s.len() - i,
{
    if 0 <= i < s.len() {
        match scan(s, i) {
            Ok((found, j)) => {
                proof {
                    lemma_scan_advances(s, i);
                }
                match found {
                    Some(t) => followed_by(seq![t], lex_from(s, j)),
                    None => lex_from(s, j),
                }
            },
            Err(e) => Err(e),
        }
    } else {
        Ok(Seq::empty())
    }
}

/// The tokens of the text `s`, or the first error met from its start.
pub open spec fn lex_tokens(s: Seq<char>) -> Result<Seq<TokenView>, LexError> {
    lex_from(s, 0)
}


fn find_word_end(chars: &Vec<char>, start: usize) -> (j: usize)
    requires
        start <= chars.len(),
    ensures
        j == word_end(chars@, start as int),
        start <= j <= chars.len(),
{
    let mut j: usize = start;
    while j < chars.len() && char_is_word_char(chars[j])
        invariant
            start <= j <= chars.len(),
            word_end(chars@, start as int) == word_end(chars@, j as int),
        decreases chars.len() - j,
    {
        j += 1;
    }
    j
}

fn find_digits_end(chars: &Vec<char>, start: usize) -> (j: usize)
    requires
        start <= chars.len(),
    ensures
        j == digits_end(chars@, start as int),
        start <= j <= chars.len(),
{
    let mut j: usize = start;
    while j < chars.len() && char_is_digit(chars[j])
        invariant
            start <= j <= chars.len(),
            digits_end(chars@, start as int) == digits_end(chars@, j as int),
        decreases chars.len() - j,
    {
        j += 1;
    }
    j
}

fn find_quote(chars: &Vec<char>, start: usize) -> (j: usize)
    requires
        start <= chars.len(),
    ensures
        j == quote_position(chars@, start as int),
        start <= j <= chars.len(),
{
    let mut j: usize = start;
    while j < chars.len() && chars[j] != '"'
        invariant
            start <= j <= chars.len(),
            quote_position(chars@, start as int) == quote_position(chars@, j as int),
        decreases chars.len() - j,
    {
        j += 1;
    }
    j
}

/// The value of the digits of `chars` from `start` up to `end`, unless it is
/// above `i32::MAX`.
fn read_decimal(chars: &Vec<char>, start: usize, end: usize) -> (r: Option<i32>)
    requires
        start <= end <= chars.len(),
        forall|k: int| start <= k < end ==> is_digit(#[trigger] chars@[k]),
    ensures
        match r {
            Some(n) => decimal_value(chars@.subrange(start as int, end as int)) == n,
            None => decimal_value(chars@.subrange(start as int, end as int)) > i32::MAX,
        },
{
    let mut value: u64 = 0;
    let mut k: usize = start;
    while k < end
        invariant
            start <= k <= end <= chars.len(),
            forall|m: int| start <= m < end ==> is_digit(#[trigger] chars@[m]),
            value <= i32::MAX,
            value == decimal_value(chars@.subrange(start as int, k as int)),
        decreases end - k,
    {
        let c = chars[k];
        assert(is_digit(chars@[k as int]));
        let d: u64 = (c as u32 - '0' as u32) as u64;
        let next: u64 = value * 10 + d;
        proof {
            lemma_decimal_value_push(chars@, start as int, k as int);
            assert(next == decimal_value(chars@.subrange(start as int, k + 1)));
        }
        if next > 2147483647 {
            proof {
                lemma_decimal_value_grows(chars@, start as int, k + 1, end as int);
            }
            return None;
        }
        value = next;
        k += 1;
    }
    Some(value as i32)
}

fn punctuation_token(c: char) -> (r: Option<Token>)
    ensures
        match r {
            Some(t) => punctuation(c) == Some(t@),
            None => punctuation(c) is None,
        },
{
    if c == '(' {
        Some(Token::LeftParen)
    } else if c == ')' {
        Some(Token::RightParen)
    } else if c == '{' {
        Some(Token::LeftCurly)
    } else if c == '}' {
        Some(Token::RightCurly)
    } else if c == ';' {
        Some(Token::Semicolon)
    } else if c == ':' {
        Some(Token::Colon)
    } else if c == ',' {
        Some(Token::Comma)
    } else if c == '=' {
        Some(Token::Equal)
    } else if c == '+' {
        Some(Token::Plus)
    } else if c == '*' {
        Some(Token::Star)
    } else if c == '/' {
        Some(Token::Slash)
    } else if c == '.' {
        Some(Token::Dot)
    } else {
        None
    }
}

/// What a call of the lexer returned, with the tokens taken by their views.
pub open spec fn lexed_view(r: Result<Vec<Token>, LexError>) -> Result<Seq<TokenView>, LexError> {
    match r {
        Ok(tokens) => Ok(tokens_view(tokens@)),
        Err(e) => Err(e),
    }
}

/// What a scanning step returned, with the token taken by its view.
pub open spec fn scanned_view(r: Result<(Option<Token>, usize), LexError>) -> Result<
    (Option<TokenView>, int),
    LexError,
> {
    match r {
        Ok((Some(t), j)) => Ok((Some(t@), j as int)),
        Ok((None, j)) => Ok((None, j as int)),
        Err(e) => Err(e),
    }
}

/// Reads what starts at position `i`: `chars` holds the characters of
/// `contents`.
fn scan_at(contents: &str, chars: &Vec<char>, i: usize) -> (r: Result<
    (Option<Token>, usize),
    LexError,
>)
    requires
        chars@ == contents@,
        i < chars.len(),
    ensures
        scanned_view(r) == scan(contents@, i as int),
        r matches Ok((_, j)) ==> i < j <= chars.len(),
{
    proof {
        lemma_scan_advances(chars@, i as int);
    }
    let c = chars[i];
    if char_is_space(c) {
        return Ok((None, i + 1));
    }
    if c == '-' {
        if i + 1 < chars.len() && chars[i + 1] == '>' {
            return Ok((Some(Token::LeftArrow), i + 2));
        }
        return Ok((Some(Token::Minus), i + 1));
    }
    match punctuation_token(c) {
        Some(t) => {
            return Ok((Some(t), i + 1));
        },
        None => {},
    }
    if char_is_letter(c) {
        let j = find_word_end(chars, i + 1);
        let word = contents.substring_char(i, j).to_owned();
        return Ok((Some(Token::Word(word)), j));
    }
    if char_is_digit(c) {
        let j = find_digits_end(chars, i + 1);
        proof {
            lemma_digits_end_bounds(chars@, i + 1);
        }
        if j < chars.len() && chars[j] == '.' {
            let k = find_digits_end(chars, j + 1);
            let literal = contents.substring_char(i, k).to_owned();
            return Ok((Some(Token::Float(literal)), k));
        }
        return match read_decimal(chars, i, j) {
            Some(n) => Ok((Some(Token::Int(n)), j)),
            None => Err(LexError::NumberOutOfRange),
        };
    }
    if c == '"' {
        let j = find_quote(chars, i + 1);
        if j < chars.len() {
            let body = contents.substring_char(i + 1, j).to_owned();
            return Ok((Some(Token::String(body)), j + 1));
        }
        return Err(LexError::UnterminatedString);
    }
    Err(LexError::UnexpectedCharacter(c))
}

/// The tokens of `contents`, in order, or the first lexical error in it.
pub fn tokenize(contents: &str) -> (r: Result<Vec<Token>, LexError>)
    ensures
        lexed_view(r) == lex_tokens(contents@),
{
    let chars = to_chars(contents);
    let mut tokens: Vec<Token> = Vec::new();
    let mut i: usize = 0;
    assert(tokens_view(tokens@) + lex_from(contents@, 0)->Ok_0 =~= lex_from(contents@, 0)->Ok_0);
    while i < chars.len()
        invariant
            chars@ == contents@,
            i <= chars.len(),
            lex_tokens(contents@) == followed_by(tokens_view(tokens@), lex_from(contents@, i as int)),
        decreases chars.len() - i,
    {
        let ghost before = tokens_view(tokens@);
        match scan_at(contents, &chars, i) {
            Err(e) => {
                return Err(e);
            },
            Ok((None, j)) => {
                i = j;
            },
            Ok((Some(t), j)) => {
                proof {
                    let rest = lex_from(contents@, j as int);
                    assert(tokens_view(tokens@.push(t)) =~= before.push(t@));
                    if rest is Ok {
                        assert(before + (seq![t@] + rest->Ok_0) =~= before.push(t@) + rest->Ok_0);
                    }
                }
                tokens.push(t);
                i = j;
            },
        }
    }
    assert(tokens_view(tokens@) + Seq::<TokenView>::empty() =~= tokens_view(tokens@));
    Ok(tokens)
}

} // verus!
