use gemstone::gemstone::Gemstone;
use gemstone::lexer::{tokenize, LexError};
use gemstone::token::Token;

fn word(text: &str) -> Token {
    Token::Word(text.to_string())
}

#[test]
fn words_numbers_strings_and_operators() {
    let tokens = tokenize("a_b1 + 23 - 4.5 -> \"x y\"").unwrap();
    assert_eq!(
        tokens,
        vec![
            word("a_b1"),
            Token::Plus,
            Token::Int(23),
            Token::Minus,
            Token::Float("4.5".to_string()),
            Token::LeftArrow,
            Token::String("x y".to_string()),
        ]
    );
}

#[test]
fn every_punctuation_sign_has_its_token() {
    let tokens = tokenize("(){};:,=+*/.-").unwrap();
    assert_eq!(
        tokens,
        vec![
            Token::LeftParen,
            Token::RightParen,
            Token::LeftCurly,
            Token::RightCurly,
            Token::Semicolon,
            Token::Colon,
            Token::Comma,
            Token::Equal,
            Token::Plus,
            Token::Star,
            Token::Slash,
            Token::Dot,
            Token::Minus,
        ]
    );
}

#[test]
fn spaces_are_skipped() {
    assert_eq!(tokenize("").unwrap(), vec![]);
    assert_eq!(tokenize(" \t\r\n ").unwrap(), vec![]);
    assert_eq!(tokenize("\ta\r\nb ").unwrap(), vec![word("a"), word("b")]);
}

#[test]
fn arrow_needs_the_angle_right_after_the_dash() {
    assert_eq!(tokenize("->").unwrap(), vec![Token::LeftArrow]);
    assert_eq!(tokenize("- >").unwrap_err(), LexError::UnexpectedCharacter('>'));
    assert_eq!(tokenize("a-").unwrap(), vec![word("a"), Token::Minus]);
    assert_eq!(tokenize("-->").unwrap(), vec![Token::Minus, Token::LeftArrow]);
}

#[test]
fn a_word_starts_with_a_letter_and_may_hold_underscores() {
    assert_eq!(tokenize("x_1_y").unwrap(), vec![word("x_1_y")]);
    assert_eq!(tokenize("a__").unwrap(), vec![word("a__")]);
    assert_eq!(tokenize("_a").unwrap_err(), LexError::UnexpectedCharacter('_'));
    assert_eq!(tokenize("1a").unwrap(), vec![Token::Int(1), word("a")]);
}

#[test]
fn reserved_words_are_plain_words() {
    assert_eq!(
        tokenize("class function return var const new").unwrap(),
        vec![
            word("class"),
            word("function"),
            word("return"),
            word("var"),
            word("const"),
            word("new"),
        ]
    );
}

#[test]
fn integer_literals_fit_thirty_two_bits() {
    assert_eq!(tokenize("0").unwrap(), vec![Token::Int(0)]);
    assert_eq!(tokenize("007").unwrap(), vec![Token::Int(7)]);
    assert_eq!(tokenize("2147483647").unwrap(), vec![Token::Int(2147483647)]);
    assert_eq!(tokenize("2147483648").unwrap_err(), LexError::NumberOutOfRange);
    assert_eq!(
        tokenize("99999999999999999999999999").unwrap_err(),
        LexError::NumberOutOfRange
    );
}

#[test]
fn float_literals_keep_their_text() {
    assert_eq!(tokenize("1.5").unwrap(), vec![Token::Float("1.5".to_string())]);
    assert_eq!(tokenize("1.").unwrap(), vec![Token::Float("1.".to_string())]);
    assert_eq!(
        tokenize("1.5.2").unwrap(),
        vec![Token::Float("1.5".to_string()), Token::Dot, Token::Int(2)]
    );
    assert_eq!(
        tokenize("99999999999.25").unwrap(),
        vec![Token::Float("99999999999.25".to_string())]
    );
    assert_eq!(tokenize(".5").unwrap(), vec![Token::Dot, Token::Int(5)]);
}

#[test]
fn strings_are_kept_verbatim() {
    assert_eq!(tokenize("\"\"").unwrap(), vec![Token::String(String::new())]);
    assert_eq!(
        tokenize("\"a\\n b\"").unwrap(),
        vec![Token::String("a\\n b".to_string())]
    );
    assert_eq!(
        tokenize("\"h\u{e9}\" ab").unwrap(),
        vec![Token::String("h\u{e9}".to_string()), word("ab")]
    );
}

#[test]
fn each_lexical_error_has_an_input() {
    assert_eq!(tokenize("#").unwrap_err(), LexError::UnexpectedCharacter('#'));
    assert_eq!(tokenize("a \u{e9}").unwrap_err(), LexError::UnexpectedCharacter('\u{e9}'));
    assert_eq!(tokenize("\"abc").unwrap_err(), LexError::UnterminatedString);
    assert_eq!(tokenize("x \"").unwrap_err(), LexError::UnterminatedString);
    assert_eq!(tokenize("3000000000").unwrap_err(), LexError::NumberOutOfRange);
}

#[test]
fn the_first_error_is_reported() {
    assert_eq!(tokenize("# \"abc").unwrap_err(), LexError::UnexpectedCharacter('#'));
    assert_eq!(tokenize("\"abc #").unwrap_err(), LexError::UnterminatedString);
}

#[test]
fn the_context_lexes_like_the_lexer() {
    let mut gem = Gemstone::new();
    let source = "var x: int = 1;".to_string();
    assert_eq!(gem.lex(&source).unwrap(), tokenize(&source).unwrap());
    assert_eq!(
        gem.lex(&source).unwrap(),
        vec![
            word("var"),
            word("x"),
            Token::Colon,
            word("int"),
            Token::Equal,
            Token::Int(1),
            Token::Semicolon,
        ]
    );
}

fn token_text(token: &Token) -> String {
    match token {
        Token::Word(w) => w.clone(),
        Token::LeftParen => "(".to_string(),
        Token::RightParen => ")".to_string(),
        Token::LeftArrow => "->".to_string(),
        Token::LeftCurly => "{".to_string(),
        Token::RightCurly => "}".to_string(),
        Token::String(s) => s.clone(),
        Token::Semicolon => ";".to_string(),
        Token::Colon => ":".to_string(),
        Token::Comma => ",".to_string(),
        Token::Int(n) => format!("{}", n),
        Token::Float(f) => f.clone(),
        Token::Equal => "=".to_string(),
        Token::Plus => "+".to_string(),
        Token::Minus => "-".to_string(),
        Token::Star => "*".to_string(),
        Token::Slash => "/".to_string(),
        Token::Dot => ".".to_string(),
    }
}

fn stripped(text: &str) -> String {
    text.chars()
        .filter(|c| !matches!(c, ' ' | '\n' | '\t' | '\r' | '"'))
        .collect()
}

#[test]
fn tokens_spell_the_input() {
    let source = "class A : B {\n\tpublic function f(a: int) -> void { println(\"x y\"); \
                  return a.b->c(1, 2.5) - 10 * 3 / 4; }\r\n}";
    let tokens = tokenize(source).unwrap();
    let spelled: String = tokens.iter().map(token_text).collect();
    assert_eq!(stripped(&spelled), stripped(source));
}

#[test]
fn a_padded_integer_is_not_spelled_back() {
    let tokens = tokenize("007").unwrap();
    let spelled: String = tokens.iter().map(token_text).collect();
    assert_eq!(spelled, "7");
}
