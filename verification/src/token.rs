//! Tokens: the words, literals and punctuation that the lexer produces.
use vstd::prelude::*;

verus! {

/// One lexical unit of a Gem source text.
///
/// A `Float` keeps the text of its literal (digits, a dot, digits): nothing
/// downstream computes with its value.
#[derive(Debug, PartialEq)]
pub enum Token {
    Word(String),
    LeftParen,
    RightParen,
    /// The two characters `->`.
    LeftArrow,
    LeftCurly,
    RightCurly,
    String(String),
    Semicolon,
    Colon,
    Comma,
    Int(i32),
    Float(String),
    Equal,
    Plus,
    Minus,
    Star,
    Slash,
    Dot,
}

/// The mathematical value of a [`Token`]: texts are sequences of characters.
pub enum TokenView {
    Word(Seq<char>),
    LeftParen,
    RightParen,
    LeftArrow,
    LeftCurly,
    RightCurly,
    String(Seq<char>),
    Semicolon,
    Colon,
    Comma,
    Int(i32),
    Float(Seq<char>),
    Equal,
    Plus,
    Minus,
    Star,
    Slash,
    Dot,
}

impl View for Token {
    type V = TokenView;

    open spec fn view(&self) -> TokenView {
        match self {
            Token::Word(w) => TokenView::Word(w@),
            Token::LeftParen => TokenView::LeftParen,
            Token::RightParen => TokenView::RightParen,
            Token::LeftArrow => TokenView::LeftArrow,
            Token::LeftCurly => TokenView::LeftCurly,
            Token::RightCurly => TokenView::RightCurly,
            Token::String(s) => TokenView::String(s@),
            Token::Semicolon => TokenView::Semicolon,
            Token::Colon => TokenView::Colon,
            Token::Comma => TokenView::Comma,
            Token::Int(n) => TokenView::Int(*n),
            Token::Float(f) => TokenView::Float(f@),
            Token::Equal => TokenView::Equal,
            Token::Plus => TokenView::Plus,
            Token::Minus => TokenView::Minus,
            Token::Star => TokenView::Star,
            Token::Slash => TokenView::Slash,
            Token::Dot => TokenView::Dot,
        }
    }
}

/// The views of a sequence of tokens, in order.
pub open spec fn tokens_view(tokens: Seq<Token>) -> Seq<TokenView> {
    tokens.map_values(|t: Token| t@)
}

impl Token {
    /// A copy of this token.
    pub fn duplicate(&self) -> (r: Token)
        ensures
            r@ == self@,
    {
        match self {
            Token::Word(w) => Token::Word(w.clone()),
            Token::LeftParen => Token::LeftParen,
            Token::RightParen => Token::RightParen,
            Token::LeftArrow => Token::LeftArrow,
            Token::LeftCurly => Token::LeftCurly,
            Token::RightCurly => Token::RightCurly,
            Token::String(s) => Token::String(s.clone()),
            Token::Semicolon => Token::Semicolon,
            Token::Colon => Token::Colon,
            Token::Comma => Token::Comma,
            Token::Int(n) => Token::Int(*n),
            Token::Float(f) => Token::Float(f.clone()),
            Token::Equal => Token::Equal,
            Token::Plus => Token::Plus,
            Token::Minus => Token::Minus,
            Token::Star => Token::Star,
            Token::Slash => Token::Slash,
            Token::Dot => Token::Dot,
        }
    }

    /// Whether two tokens are the same kind and carry the same text or number.
    pub fn same(&self, other: &Token) -> (r: bool)
        ensures
            r == (self@ == other@),
    {
        match (self, other) {
            (Token::Word(a), Token::Word(b)) => *a == *b,
            (Token::LeftParen, Token::LeftParen) => true,
            (Token::RightParen, Token::RightParen) => true,
            (Token::LeftArrow, Token::LeftArrow) => true,
            (Token::LeftCurly, Token::LeftCurly) => true,
            (Token::RightCurly, Token::RightCurly) => true,
            (Token::String(a), Token::String(b)) => *a == *b,
            (Token::Semicolon, Token::Semicolon) => true,
            (Token::Colon, Token::Colon) => true,
            (Token::Comma, Token::Comma) => true,
            (Token::Int(a), Token::Int(b)) => *a == *b,
            (Token::Float(a), Token::Float(b)) => *a == *b,
            (Token::Equal, Token::Equal) => true,
            (Token::Plus, Token::Plus) => true,
            (Token::Minus, Token::Minus) => true,
            (Token::Star, Token::Star) => true,
            (Token::Slash, Token::Slash) => true,
            (Token::Dot, Token::Dot) => true,
            _ => false,
        }
    }
}

} // verus!
