//! What holds of every text that lexes: its tokens spell the text again,
//! up to the spaces between them and the quotes around strings.
use vstd::prelude::*;
use crate::lexer::{
    digits_end, lemma_digits_end_bounds, lemma_quote_position_bounds, lemma_scan_advances,
    lex_from, lex_tokens, punctuation, quote_position, scan,
};
use crate::lowering::{digit_char, int_text, nat_text};
use crate::text::{decimal_value, digit_value, is_digit, is_letter, is_space};
use crate::token::TokenView;

verus! {

/// The text of a token: what a word, a number or a string holds, and the
/// characters of a punctuation sign.
pub open spec fn token_text(t: TokenView) -> Seq<char> {
    match t {
        TokenView::Word(w) => w,
        TokenView::LeftParen => seq!['('],
        TokenView::RightParen => seq![')'],
        TokenView::LeftArrow => seq!['-', '>'],
        TokenView::LeftCurly => seq!['{'],
        TokenView::RightCurly => seq!['}'],
        TokenView::String(s) => s,
        TokenView::Semicolon => seq![';'],
        TokenView::Colon => seq![':'],
        TokenView::Comma => seq![','],
        TokenView::Int(n) => int_text(n as int),
        TokenView::Float(f) => f,
        TokenView::Equal => seq!['='],
        TokenView::Plus => seq!['+'],
        TokenView::Minus => seq!['-'],
        TokenView::Star => seq!['*'],
        TokenView::Slash => seq!['/'],
        TokenView::Dot => seq!['.'],
    }
}

/// The texts of the tokens, one after the other.
pub open spec fn tokens_text(tokens: Seq<TokenView>) -> Seq<char>
    decreases tokens.len(),
{
    if tokens.len() == 0 {
        Seq::empty()
    } else {
        token_text(tokens[0]) + tokens_text(tokens.drop_first())
    }
}

/// The test for a character that is neither a space nor a double quote.
pub open spec fn is_kept() -> spec_fn(char) -> bool {
    |c: char| !is_space(c) && c != '"'
}

/// `text` without its spaces and double quotes.
pub open spec fn stripped(text: Seq<char>) -> Seq<char> {
    text.filter(is_kept())
}

/// From position `i` on, no integer literal of `s` has a zero in front
/// of its first digit: each is a single digit or starts with another
/// digit than `0`.
pub open spec fn integers_unpadded(s: Seq<char>, i: int) -> bool
    decreases s.len() - i,
{
    if 0 <= i < s.len() {
        match scan(s, i) {
            Ok((found, j)) => {
                proof {
                    lemma_scan_advances(s, i);
                }
                (found matches Some(TokenView::Int(_)) ==> j == i + 1 || s[i] != '0')
                    && integers_unpadded(s, j)
            },
            Err(_) => true,
        }
    } else {
        true
    }
}

proof fn lemma_stripped_one(c: char)
    ensures
        stripped(seq![c]) == (if !is_space(c) && c != '"' {
            seq![c]
        } else {
            Seq::<char>::empty()
        }),
{
    reveal_with_fuel(Seq::filter, 2);
    let one = seq![c];
    assert(one.drop_last() =~= Seq::<char>::empty());
    assert(one.last() == c);
    if !is_space(c) && c != '"' {
        assert(stripped(one) =~= one);
    } else {
        assert(stripped(one) =~= Seq::<char>::empty());
    }
}

proof fn lemma_stripped_concat(a: Seq<char>, b: Seq<char>)
    ensures
        stripped(a + b) == stripped(a) + stripped(b),
{
    Seq::filter_distributes_over_add(a, b, is_kept());
}

proof fn lemma_digit_char_of_value(c: char)
    requires
        is_digit(c),
    ensures
        digit_char(digit_value(c) as int) == c,
        digit_value(c) < 10,
{
}

proof fn lemma_decimal_value_positive(d: Seq<char>)
    requires
        d.len() > 0,
        forall|k: int| 0 <= k < d.len() ==> is_digit(#[trigger] d[k]),
        d[0] != '0',
    ensures
        decimal_value(d) >= 1,
    decreases d.len(),
{
    if d.len() > 1 {
        lemma_decimal_value_positive(d.drop_last());
    } else {
        assert(d.drop_last().len() == 0);
        assert(decimal_value(d.drop_last()) == 0);
        assert(d.last() == d[0]);
    }
}

/// Digits without a zero in front spell the number that they are the
/// decimal text of.
pub proof fn lemma_decimal_round_trip(d: Seq<char>)
    requires
        d.len() > 0,
        forall|k: int| 0 <= k < d.len() ==> is_digit(#[trigger] d[k]),
        d.len() == 1 || d[0] != '0',
    ensures
        nat_text(decimal_value(d)) == d,
    decreases d.len(),
{
    let front = d.drop_last();
    let last = d.last();
    lemma_digit_char_of_value(last);
    if d.len() == 1 {
        assert(decimal_value(front) == 0);
        assert(nat_text(decimal_value(d)) =~= d);
    } else {
        assert(front[0] == d[0]);
        lemma_decimal_value_positive(front);
        lemma_decimal_round_trip(front);
        let value = decimal_value(d);
        assert(value == decimal_value(front) * 10 + digit_value(last));
        assert(value / 10 == decimal_value(front));
        assert(value % 10 == digit_value(last));
        assert(nat_text(value) =~= d);
    }
}

proof fn lemma_scanned_text(s: Seq<char>, i: int)
    requires
        0 <= i < s.len(),
        scan(s, i) is Ok,
        scan(s, i)->Ok_0.0 matches Some(TokenView::Int(_)) ==> scan(s, i)->Ok_0.1 == i + 1 || s[i]
            != '0',
    ensures
        stripped(
            match scan(s, i)->Ok_0.0 {
                Some(t) => token_text(t),
                None => Seq::empty(),
            },
        ) == stripped(s.subrange(i, scan(s, i)->Ok_0.1)),
{
    let c = s[i];
    let j = scan(s, i)->Ok_0.1;
    lemma_scan_advances(s, i);
    let piece = s.subrange(i, j);
    if is_space(c) {
        assert(piece =~= seq![c]);
        lemma_stripped_one(c);
        reveal_with_fuel(Seq::filter, 1);
        assert(stripped(Seq::<char>::empty()) =~= Seq::<char>::empty());
    } else if c == '-' {
        if i + 1 < s.len() && s[i + 1] == '>' {
            assert(piece =~= seq!['-', '>']);
        } else {
            assert(piece =~= seq!['-']);
        }
    } else if punctuation(c) is Some {
        assert(piece =~= seq![c]);
    } else if is_letter(c) {
    } else if is_digit(c) {
        let e = digits_end(s, i + 1);
        lemma_digits_end_bounds(s, i + 1);
        if e < s.len() && s[e] == '.' {
        } else {
            assert forall|k: int| 0 <= k < piece.len() implies is_digit(#[trigger] piece[k]) by {
                assert(piece[k] == s[i + k]);
            }
            assert(piece[0] == s[i]);
            lemma_decimal_round_trip(piece);
        }
    } else if c == '"' {
        let q = quote_position(s, i + 1);
        lemma_quote_position_bounds(s, i + 1);
        let body = s.subrange(i + 1, q);
        assert(piece =~= (seq!['"'] + body) + seq!['"']);
        lemma_stripped_concat(seq!['"'] + body, seq!['"']);
        lemma_stripped_concat(seq!['"'], body);
        lemma_stripped_one('"');
        assert((Seq::<char>::empty() + stripped(body)) + Seq::<char>::empty() =~= stripped(body));
    }
}

proof fn lemma_lex_spells_from(s: Seq<char>, i: int)
    requires
        0 <= i <= s.len(),
        integers_unpadded(s, i),
        lex_from(s, i) is Ok,
    ensures
        stripped(tokens_text(lex_from(s, i)->Ok_0)) == stripped(s.subrange(i, s.len() as int)),
    decreases s.len() - i,
{
    if i < s.len() {
        lemma_scan_advances(s, i);
        let found = scan(s, i)->Ok_0.0;
        let j = scan(s, i)->Ok_0.1;
        lemma_lex_spells_from(s, j);
        lemma_scanned_text(s, i);
        let rest = lex_from(s, j)->Ok_0;
        let piece = s.subrange(i, j);
        let tail = s.subrange(j, s.len() as int);
        assert(s.subrange(i, s.len() as int) =~= piece + tail);
        lemma_stripped_concat(piece, tail);
        match found {
            Some(t) => {
                let tokens = seq![t] + rest;
                assert(tokens[0] == t);
                assert(tokens.drop_first() =~= rest);
                lemma_stripped_concat(token_text(t), tokens_text(rest));
            },
            None => {
                assert(Seq::<char>::empty() + stripped(tail) =~= stripped(tail));
            },
        }
    } else {
        assert(s.subrange(i, s.len() as int) =~= Seq::<char>::empty());
    }
}

/// The tokens of a text spell the text: apart from spaces and double
/// quotes, the texts of the tokens one after the other are the input.
/// This is said of texts whose integer literals have no zero in front:
/// `007` lexes to the number 7, whose text is `7`.
pub proof fn lemma_lex_spells_input(s: Seq<char>)
    requires
        integers_unpadded(s, 0),
        lex_tokens(s) is Ok,
    ensures
        stripped(tokens_text(lex_tokens(s)->Ok_0)) == stripped(s),
{
    lemma_lex_spells_from(s, 0);
    assert(s.subrange(0, s.len() as int) =~= s);
}

} // verus!
