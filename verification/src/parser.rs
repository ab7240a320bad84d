//! The parser: from tokens to syntax trees, by recursive descent.
//!
//! Each function reads what [`grammar`](crate::grammar) says stands at a
//! position and returns it with the position after it.
use vstd::prelude::*;
use vstd::string::*;
use crate::ast::{
    exprs_view, lemma_exprs_view_push, params_view, AccessModifier, Block, Class, ClassFunction,
    Expr, ExprView, Function, FunctionCall, FunctionView, New, Type, TypeView,
    VariableDeclaration,
};
use crate::grammar;
use crate::grammar::{Expected, ParseError, ParseErrorView, Parsed};
use crate::text::text_is;
use crate::token::{tokens_view, Token, TokenView};

verus! {

/// Whether position `i` holds the token `t`.
pub fn token_is(tokens: &Vec<Token>, i: usize, t: &Token) -> (r: bool)
    ensures
        r == grammar::holds(tokens_view(tokens@), i as int, t@),
{
    i < tokens.len() && tokens[i].same(t)
}

/// Whether position `i` holds the word `w`.
pub fn word_is(tokens: &Vec<Token>, i: usize, w: &str) -> (r: bool)
    ensures
        r == grammar::holds_word(tokens_view(tokens@), i as int, w@),
{
    if i < tokens.len() {
        match &tokens[i] {
            Token::Word(word) => text_is(word, w),
            _ => false,
        }
    } else {
        false
    }
}

fn token_copy_at(tokens: &Vec<Token>, i: usize) -> (r: Option<Token>)
    ensures
        grammar::option_token_view(r) == grammar::token_at(tokens_view(tokens@), i as int),
{
    if i < tokens.len() {
        Some(tokens[i].duplicate())
    } else {
        None
    }
}

/// The error for position `i`, where `expected` was looked for.
pub fn mismatch_at(tokens: &Vec<Token>, i: usize, expected: Expected) -> (e: ParseError)
    ensures
        e@ == grammar::mismatch(tokens_view(tokens@), i as int, expected@),
{
    let found = token_copy_at(tokens, i);
    let before = if i > 0 {
        token_copy_at(tokens, i - 1)
    } else {
        None
    };
    let after = if i < tokens.len() {
        token_copy_at(tokens, i + 1)
    } else {
        None
    };
    ParseError { expected, found, before, after }
}

/// Reads the token `t` at position `i`.
pub fn _match(tokens: &Vec<Token>, i: usize, t: Token) -> (r: Result<usize, ParseError>)
    ensures
        match r {
            Ok(j) => grammar::expect(tokens_view(tokens@), i as int, t@) == Ok::<int, ParseErrorView>(
                j as int,
            ) && j == i + 1 && j <= tokens.len(),
            Err(e) => grammar::expect(tokens_view(tokens@), i as int, t@) == Err::<int, ParseErrorView>(
                e@,
            ),
        },
{
    if token_is(tokens, i, &t) {
        assert(i < tokens.len());
        Ok(i + 1)
    } else {
        Err(mismatch_at(tokens, i, Expected::Token(t)))
    }
}

/// Reads a word at position `i`.
pub fn expect_name(tokens: &Vec<Token>, i: usize) -> (r: Result<(String, usize), ParseError>)
    ensures
        match r {
            Ok((w, j)) => grammar::expect_word(tokens_view(tokens@), i as int) == Ok::<
                (Seq<char>, int),
                ParseErrorView,
            >((w@, j as int)) && j == i + 1 && j <= tokens.len(),
            Err(e) => grammar::expect_word(tokens_view(tokens@), i as int) == Err::<
                (Seq<char>, int),
                ParseErrorView,
            >(e@),
        },
{
    if i < tokens.len() {
        match &tokens[i] {
            Token::Word(w) => {
                return Ok((w.clone(), i + 1));
            },
            _ => {},
        }
    }
    Err(mismatch_at(tokens, i, Expected::Word))
}

/// Whether `name` names a built-in function.
pub fn is_builtin_name(name: &String) -> (r: bool)
    ensures
        r == grammar::is_builtin(name@),
{
    text_is(name, "print") || text_is(name, "println")
}

/// Whether `w` is a word that the language keeps for itself.
pub fn is_reserved_word(w: &String) -> (r: bool)
    ensures
        r == grammar::is_reserved(w@),
{
    text_is(w, "class") || text_is(w, "function") || text_is(w, "return") || text_is(w, "var")
        || text_is(w, "const") || text_is(w, "new") || text_is(w, "public") || text_is(
        w,
        "private",
    ) || text_is(w, "virtual") || text_is(w, "override") || text_is(w, "external") || text_is(
        w,
        "int",
    ) || text_is(w, "float") || text_is(w, "string") || text_is(w, "bool") || text_is(w, "void")
        || text_is(w, "char")
}

fn base_type_of(w: String) -> (t: Type)
    ensures
        t@ == grammar::base_type(w@),
{
    if text_is(&w, "int") {
        Type::Int
    } else if text_is(&w, "float") {
        Type::Float
    } else if text_is(&w, "void") {
        Type::Void
    } else if text_is(&w, "bool") {
        Type::Bool
    } else if text_is(&w, "string") {
        Type::String
    } else if text_is(&w, "char") {
        Type::Char
    } else {
        Type::Class(w)
    }
}

/// What a call that reads a type returned, taken by its view.
pub open spec fn parsed_type_view(r: Result<(Type, usize), ParseError>) -> Parsed<TypeView> {
    match r {
        Ok((t, j)) => Ok((t@, j as int)),
        Err(e) => Err(e@),
    }
}

/// Reads a type at position `i`: a word, then any number of `*`.
pub fn parse_type(tokens: &Vec<Token>, i: usize) -> (r: Result<(Type, usize), ParseError>)
    ensures
        parsed_type_view(r) == grammar::type_expr(tokens_view(tokens@), i as int),
        r matches Ok((_, j)) ==> i < j <= tokens.len(),
{
    let (w, start) = match expect_name(tokens, i) {
        Ok(found) => found,
        Err(e) => {
            return Err(e);
        },
    };
    let ghost ts = tokens_view(tokens@);
    let mut t = base_type_of(w);
    let mut j: usize = start;
    while token_is(tokens, j, &Token::Star)
        invariant
            ts == tokens_view(tokens@),
            start <= j <= tokens.len(),
            grammar::pointer_suffix(ts, start as int, grammar::base_type(w@))
                == grammar::pointer_suffix(ts, j as int, t@),
        decreases tokens.len() - j,
    {
        t = Type::Pointer(Box::new(t));
        j += 1;
    }
    Ok((t, j))
}

/// What a call that reads parameters returned, taken by its view.
pub open spec fn parsed_params_view(r: Result<(Vec<(String, Type)>, usize), ParseError>) -> Parsed<
    Seq<(Seq<char>, TypeView)>,
> {
    match r {
        Ok((params, j)) => Ok((params_view(params@), j as int)),
        Err(e) => Err(e@),
    }
}

/// `params`, followed by what `rest` holds if it holds any.
pub open spec fn params_then(
    params: Seq<(Seq<char>, TypeView)>,
    rest: Parsed<Seq<(Seq<char>, TypeView)>>,
) -> Parsed<Seq<(Seq<char>, TypeView)>> {
    match rest {
        Ok((more, j)) => Ok((params + more, j)),
        Err(e) => Err(e),
    }
}

/// Reads what stands between the parentheses of a function header, from
/// position `i`, the one after the `(`.
pub fn parse_params(tokens: &Vec<Token>, i: usize) -> (r: Result<
    (Vec<(String, Type)>, usize),
    ParseError,
>)
    ensures
        parsed_params_view(r) == grammar::params(tokens_view(tokens@), i as int),
        r matches Ok((_, j)) ==> i <= j <= tokens.len(),
{
    let ghost ts = tokens_view(tokens@);
    let mut params: Vec<(String, Type)> = Vec::new();
    if token_is(tokens, i, &Token::RightParen) {
        assert(params_view(params@) =~= Seq::empty());
        return Ok((params, i));
    }
    let mut k: usize = i;
    assert(params_view(params@) + grammar::param_list(ts, i as int)->Ok_0.0
        =~= grammar::param_list(ts, i as int)->Ok_0.0);
    loop
        invariant
            ts == tokens_view(tokens@),
            i <= k,
            grammar::params(ts, i as int) == params_then(
                params_view(params@),
                grammar::param_list(ts, k as int),
            ),
        decreases tokens.len() - k,
    {
        let ghost before = params_view(params@);
        let (name, _) = match expect_name(tokens, k) {
            Ok(found) => found,
            Err(e) => {
                return Err(e);
            },
        };
        match _match(tokens, k + 1, Token::Colon) {
            Ok(_) => {},
            Err(e) => {
                return Err(e);
            },
        }
        let (t, j) = match parse_type(tokens, k + 2) {
            Ok(found) => found,
            Err(e) => {
                return Err(e);
            },
        };
        proof {
            assert(params_view(params@.push((name, t))) =~= before.push((name@, t@)));
            assert(before + seq![(name@, t@)] =~= before.push((name@, t@)));
            if grammar::holds(ts, j as int, TokenView::Comma) {
                let rest = grammar::param_list(ts, j + 1);
                if rest is Ok {
                    assert(before + (seq![(name@, t@)] + rest->Ok_0.0) =~= before.push(
                        (name@, t@),
                    ) + rest->Ok_0.0);
                }
            }
        }
        params.push((name, t));
        if token_is(tokens, j, &Token::Comma) {
            k = j + 1;
        } else {
            return Ok((params, j));
        }
    }
}


/// What a call that reads one node returned, taken by its view.
pub open spec fn parsed_view(r: Result<(Expr, usize), ParseError>) -> Parsed<ExprView> {
    match r {
        Ok((e, j)) => Ok((e@, j as int)),
        Err(e) => Err(e@),
    }
}

/// What a call that reads a list of nodes returned, taken by its view.
pub open spec fn parsed_list_view(r: Result<(Vec<Expr>, usize), ParseError>) -> Parsed<
    Seq<ExprView>,
> {
    match r {
        Ok((es, j)) => Ok((exprs_view(es@), j as int)),
        Err(e) => Err(e@),
    }
}

/// What a call that reads a function returned, taken by its view.
pub open spec fn parsed_function_view(r: Result<(Function, usize), ParseError>) -> Parsed<
    FunctionView,
> {
    match r {
        Ok((f, j)) => Ok((f@, j as int)),
        Err(e) => Err(e@),
    }
}

/// `nodes`, followed by what `rest` holds if it holds any.
pub open spec fn list_then(nodes: Seq<ExprView>, rest: Parsed<Seq<ExprView>>) -> Parsed<
    Seq<ExprView>,
> {
    match rest {
        Ok((more, j)) => Ok((nodes + more, j)),
        Err(e) => Err(e),
    }
}

proof fn lemma_list_then_push(nodes: Seq<ExprView>, first: ExprView, rest: Parsed<Seq<ExprView>>)
    ensures
        list_then(nodes, list_then(seq![first], rest)) == list_then(nodes.push(first), rest),
{
    if rest is Ok {
        assert(nodes + (seq![first] + rest->Ok_0.0) =~= nodes.push(first) + rest->Ok_0.0);
    }
}

proof fn lemma_list_then_nothing(nodes: Seq<ExprView>, j: int)
    ensures
        list_then(nodes, Ok((Seq::empty(), j))) == Ok::<(Seq<ExprView>, int), ParseErrorView>(
            (nodes, j),
        ),
        list_then(Seq::empty(), Ok((nodes, j))) == Ok::<(Seq<ExprView>, int), ParseErrorView>(
            (nodes, j),
        ),
{
    assert(nodes + Seq::<ExprView>::empty() =~= nodes);
    assert(Seq::<ExprView>::empty() + nodes =~= nodes);
}

/// Reads a variable at position `i`: any word.
pub fn parse_var(tokens: &Vec<Token>, i: usize) -> (r: Result<(Expr, usize), ParseError>)
    ensures
        parsed_view(r) == (match grammar::expect_word(tokens_view(tokens@), i as int) {
            Ok((w, j)) => Ok((ExprView::Variable(w), j)),
            Err(e) => Err(e),
        }),
        r matches Ok((_, j)) ==> i < j <= tokens.len(),
{
    match expect_name(tokens, i) {
        Ok((name, j)) => Ok((Expr::Variable(name), j)),
        Err(e) => Err(e),
    }
}

/// Reads a primary expression at position `i`.
pub fn parse_primary(tokens: &Vec<Token>, i: usize) -> (r: Result<(Expr, usize), ParseError>)
    ensures
        parsed_view(r) == grammar::primary(tokens_view(tokens@), i as int),
        r matches Ok((_, j)) ==> i < j <= tokens.len(),
    decreases tokens.len() - i, 1int,
{
    if i >= tokens.len() {
        return Err(mismatch_at(tokens, i, Expected::Primary));
    }
    match &tokens[i] {
        Token::Word(w) => {
            if text_is(w, "new") {
                parse_new(tokens, i)
            } else if is_reserved_word(w) {
                Err(mismatch_at(tokens, i, Expected::Primary))
            } else {
                parse_var(tokens, i)
            }
        },
        Token::Int(n) => Ok((Expr::Int(*n), i + 1)),
        Token::String(text) => Ok((Expr::String(text.clone()), i + 1)),
        Token::LeftParen => {
            match parse_token(tokens, i + 1, false) {
                Err(e) => Err(e),
                Ok((inner, j)) => match _match(tokens, j, Token::RightParen) {
                    Err(e) => Err(e),
                    Ok(k) => Ok((inner, k)),
                },
            }
        },
        Token::LeftCurly => parse_block(tokens, i),
        Token::Semicolon => Ok((Expr::Empty, i + 1)),
        _ => Err(mismatch_at(tokens, i, Expected::Primary)),
    }
}

/// Reads `new Name ( arguments )` at position `i`.
pub fn parse_new(tokens: &Vec<Token>, i: usize) -> (r: Result<(Expr, usize), ParseError>)
    ensures
        parsed_view(r) == grammar::new_expr(tokens_view(tokens@), i as int),
        r matches Ok((_, j)) ==> i < j <= tokens.len(),
    decreases tokens.len() - i, 0int,
{
    if !word_is(tokens, i, "new") {
        return Err(mismatch_at(tokens, i, Expected::Token(Token::Word(String::from_str("new")))));
    }
    let (class_name, _) = match expect_name(tokens, i + 1) {
        Ok(found) => found,
        Err(e) => {
            return Err(e);
        },
    };
    match _match(tokens, i + 2, Token::LeftParen) {
        Ok(_) => {},
        Err(e) => {
            return Err(e);
        },
    }
    let (args, j) = match parse_arguments(tokens, i + 3) {
        Ok(found) => found,
        Err(e) => {
            return Err(e);
        },
    };
    match _match(tokens, j, Token::RightParen) {
        Ok(k) => Ok((Expr::New(New { class_name, args }), k)),
        Err(e) => Err(e),
    }
}

/// Reads arguments from position `i`, the one after the `(`, up to the
/// closing parenthesis or the end of the input.
pub fn parse_arguments(tokens: &Vec<Token>, i: usize) -> (r: Result<(Vec<Expr>, usize), ParseError>)
    ensures
        parsed_list_view(r) == grammar::arguments(tokens_view(tokens@), i as int),
        r matches Ok((_, j)) ==> i <= j <= tokens.len() || (j == i && i > tokens.len()),
    decreases tokens.len() - i, 7int,
{
    let ghost ts = tokens_view(tokens@);
    let mut args: Vec<Expr> = Vec::new();
    let mut k: usize = i;
    proof {
        let whole = grammar::arguments(ts, i as int);
        if whole is Ok {
            lemma_list_then_nothing(whole->Ok_0.0, whole->Ok_0.1);
        }
    }
    while k < tokens.len() && !token_is(tokens, k, &Token::RightParen)
        invariant
            ts == tokens_view(tokens@),
            i <= k,
            k <= tokens.len() || k == i,
            grammar::arguments(ts, i as int) == list_then(
                exprs_view(args@),
                grammar::arguments(ts, k as int),
            ),
        decreases tokens.len() - k,
    {
        match parse_token(tokens, k, false) {
            Err(e) => {
                return Err(e);
            },
            Ok((first, j)) => {
                let next = if token_is(tokens, j, &Token::Comma) {
                    j + 1
                } else {
                    j
                };
                proof {
                    lemma_exprs_view_push(args@, first);
                    lemma_list_then_push(
                        exprs_view(args@),
                        first@,
                        grammar::arguments(ts, next as int),
                    );
                }
                args.push(first);
                k = next;
            },
        }
    }
    proof {
        lemma_list_then_nothing(exprs_view(args@), k as int);
    }
    Ok((args, k))
}

/// Reads a method-call expression at position `i`: a primary, then any
/// number of `-> Name ( arguments )`.
pub fn parse_member_function_call(tokens: &Vec<Token>, i: usize) -> (r: Result<
    (Expr, usize),
    ParseError,
>)
    ensures
        parsed_view(r) == grammar::member_call(tokens_view(tokens@), i as int),
        r matches Ok((_, j)) ==> i < j <= tokens.len(),
    decreases tokens.len() - i, 2int,
{
    let ghost ts = tokens_view(tokens@);
    let (mut object, mut k) = match parse_primary(tokens, i) {
        Ok(found) => found,
        Err(e) => {
            return Err(e);
        },
    };
    while token_is(tokens, k, &Token::LeftArrow)
        invariant
            ts == tokens_view(tokens@),
            i < k <= tokens.len(),
            grammar::member_call(ts, i as int) == grammar::member_call_rest(ts, k as int, object@),
        decreases tokens.len() - k,
    {
        let (name, _) = match expect_name(tokens, k + 1) {
            Ok(found) => found,
            Err(e) => {
                return Err(e);
            },
        };
        match _match(tokens, k + 2, Token::LeftParen) {
            Ok(_) => {},
            Err(e) => {
                return Err(e);
            },
        }
        let (args, j) = match parse_arguments(tokens, k + 3) {
            Ok(found) => found,
            Err(e) => {
                return Err(e);
            },
        };
        match _match(tokens, j, Token::RightParen) {
            Ok(next) => {
                object = Expr::MemberFunctionCall(Box::new(object), FunctionCall { name, args });
                k = next;
            },
            Err(e) => {
                return Err(e);
            },
        }
    }
    Ok((object, k))
}

/// Reads a member expression at position `i`: a method-call expression,
/// then any number of `. Name`.
pub fn parse_member(tokens: &Vec<Token>, i: usize) -> (r: Result<(Expr, usize), ParseError>)
    ensures
        parsed_view(r) == grammar::member(tokens_view(tokens@), i as int),
        r matches Ok((_, j)) ==> i < j <= tokens.len(),
    decreases tokens.len() - i, 3int,
{
    let ghost ts = tokens_view(tokens@);
    let (mut object, mut k) = match parse_member_function_call(tokens, i) {
        Ok(found) => found,
        Err(e) => {
            return Err(e);
        },
    };
    while token_is(tokens, k, &Token::Dot)
        invariant
            ts == tokens_view(tokens@),
            i < k <= tokens.len(),
            grammar::member(ts, i as int) == grammar::member_rest(ts, k as int, object@),
        decreases tokens.len() - k,
    {
        match expect_name(tokens, k + 1) {
            Ok((field, next)) => {
                object = Expr::Member(Box::new(object), field);
                k = next;
            },
            Err(e) => {
                return Err(e);
            },
        }
    }
    Ok((object, k))
}

fn is_multiplicative(t: &Token) -> (r: bool)
    ensures
        r == grammar::is_multiplicative_op(t@),
{
    match t {
        Token::Star => true,
        Token::Slash => true,
        _ => false,
    }
}

fn is_additive(t: &Token) -> (r: bool)
    ensures
        r == grammar::is_additive_op(t@),
{
    match t {
        Token::Plus => true,
        Token::Minus => true,
        _ => false,
    }
}

/// Reads a multiplicative expression at position `i`.
pub fn parse_multiplicative(tokens: &Vec<Token>, i: usize) -> (r: Result<
    (Expr, usize),
    ParseError,
>)
    ensures
        parsed_view(r) == grammar::multiplicative(tokens_view(tokens@), i as int),
        r matches Ok((_, j)) ==> i < j <= tokens.len(),
    decreases tokens.len() - i, 4int,
{
    let ghost ts = tokens_view(tokens@);
    let (mut lhs, mut k) = match parse_member(tokens, i) {
        Ok(found) => found,
        Err(e) => {
            return Err(e);
        },
    };
    while k < tokens.len() && is_multiplicative(&tokens[k])
        invariant
            ts == tokens_view(tokens@),
            i < k <= tokens.len(),
            grammar::multiplicative(ts, i as int) == grammar::multiplicative_rest(
                ts,
                k as int,
                lhs@,
            ),
        decreases tokens.len() - k,
    {
        let op = tokens[k].duplicate();
        match parse_member(tokens, k + 1) {
            Ok((rhs, next)) => {
                lhs = Expr::BinaryOp(Box::new(lhs), op, Box::new(rhs));
                k = next;
            },
            Err(e) => {
                return Err(e);
            },
        }
    }
    Ok((lhs, k))
}

/// Reads an additive expression at position `i`.
pub fn parse_additive(tokens: &Vec<Token>, i: usize) -> (r: Result<(Expr, usize), ParseError>)
    ensures
        parsed_view(r) == grammar::additive(tokens_view(tokens@), i as int),
        r matches Ok((_, j)) ==> i < j <= tokens.len(),
    decreases tokens.len() - i, 5int,
{
    let ghost ts = tokens_view(tokens@);
    let (mut lhs, mut k) = match parse_multiplicative(tokens, i) {
        Ok(found) => found,
        Err(e) => {
            return Err(e);
        },
    };
    while k < tokens.len() && is_additive(&tokens[k])
        invariant
            ts == tokens_view(tokens@),
            i < k <= tokens.len(),
            grammar::additive(ts, i as int) == grammar::additive_rest(ts, k as int, lhs@),
        decreases tokens.len() - k,
    {
        let op = tokens[k].duplicate();
        match parse_multiplicative(tokens, k + 1) {
            Ok((rhs, next)) => {
                lhs = Expr::BinaryOp(Box::new(lhs), op, Box::new(rhs));
                k = next;
            },
            Err(e) => {
                return Err(e);
            },
        }
    }
    Ok((lhs, k))
}

/// Reads one item at position `i`, chosen by the token that stands there.
/// With `statement` set a call ends with its own `;`.
pub fn parse_token(tokens: &Vec<Token>, i: usize, statement: bool) -> (r: Result<
    (Expr, usize),
    ParseError,
>)
    ensures
        parsed_view(r) == grammar::item(tokens_view(tokens@), i as int, statement),
        r matches Ok((_, j)) ==> i < j <= tokens.len(),
    decreases tokens.len() - i, 6int,
{
    if i >= tokens.len() {
        return parse_additive(tokens, i);
    }
    match &tokens[i] {
        Token::Word(w) => {
            if text_is(w, "class") {
                parse_class_def(tokens, i)
            } else if text_is(w, "function") {
                match parse_function(tokens, i, false) {
                    Ok((f, j)) => Ok((Expr::Function(f), j)),
                    Err(e) => Err(e),
                }
            } else if text_is(w, "return") {
                parse_return(tokens, i)
            } else if text_is(w, "var") {
                parse_variable(tokens, i, false)
            } else if text_is(w, "const") {
                parse_variable(tokens, i, true)
            } else if text_is(w, "new") {
                parse_new(tokens, i)
            } else if token_is(tokens, i + 1, &Token::LeftParen) {
                parse_function_call(tokens, i, statement)
            } else {
                parse_additive(tokens, i)
            }
        },
        Token::LeftCurly => parse_block(tokens, i),
        _ => parse_additive(tokens, i),
    }
}

/// Reads items from position `i` up to a `}` or the end of the input.
pub fn parse_block_items(tokens: &Vec<Token>, i: usize) -> (r: Result<
    (Vec<Expr>, usize),
    ParseError,
>)
    ensures
        parsed_list_view(r) == grammar::block_items(tokens_view(tokens@), i as int),
        r matches Ok((_, j)) ==> i <= j <= tokens.len() || (j == i && i > tokens.len()),
    decreases tokens.len() - i, 7int,
{
    let ghost ts = tokens_view(tokens@);
    let mut exprs: Vec<Expr> = Vec::new();
    let mut k: usize = i;
    proof {
        let whole = grammar::block_items(ts, i as int);
        if whole is Ok {
            lemma_list_then_nothing(whole->Ok_0.0, whole->Ok_0.1);
        }
    }
    while k < tokens.len() && !token_is(tokens, k, &Token::RightCurly)
        invariant
            ts == tokens_view(tokens@),
            i <= k,
            k <= tokens.len() || k == i,
            grammar::block_items(ts, i as int) == list_then(
                exprs_view(exprs@),
                grammar::block_items(ts, k as int),
            ),
        decreases tokens.len() - k,
    {
        match parse_token(tokens, k, true) {
            Err(e) => {
                return Err(e);
            },
            Ok((first, j)) => {
                proof {
                    lemma_exprs_view_push(exprs@, first);
                    lemma_list_then_push(
                        exprs_view(exprs@),
                        first@,
                        grammar::block_items(ts, j as int),
                    );
                }
                exprs.push(first);
                k = j;
            },
        }
    }
    proof {
        lemma_list_then_nothing(exprs_view(exprs@), k as int);
    }
    Ok((exprs, k))
}

/// Reads `{ items }` at position `i`, as a block.
pub fn parse_block(tokens: &Vec<Token>, i: usize) -> (r: Result<(Expr, usize), ParseError>)
    ensures
        parsed_view(r) == grammar::braced_block(tokens_view(tokens@), i as int),
        r matches Ok((_, j)) ==> i < j <= tokens.len(),
    decreases tokens.len() - i, 0int,
{
    match _match(tokens, i, Token::LeftCurly) {
        Ok(_) => {},
        Err(e) => {
            return Err(e);
        },
    }
    let (exprs, j) = match parse_block_items(tokens, i + 1) {
        Ok(found) => found,
        Err(e) => {
            return Err(e);
        },
    };
    match _match(tokens, j, Token::RightCurly) {
        Ok(k) => Ok((Expr::Block(Block { exprs }), k)),
        Err(e) => Err(e),
    }
}

/// Reads `Name ( arguments )` at position `i`, and the `;` after it if
/// `statement` is set.
pub fn parse_function_call(tokens: &Vec<Token>, i: usize, statement: bool) -> (r: Result<
    (Expr, usize),
    ParseError,
>)
    ensures
        parsed_view(r) == grammar::call(tokens_view(tokens@), i as int, statement),
        r matches Ok((_, j)) ==> i < j <= tokens.len(),
    decreases tokens.len() - i, 0int,
{
    let (name, _) = match expect_name(tokens, i) {
        Ok(found) => found,
        Err(e) => {
            return Err(e);
        },
    };
    match _match(tokens, i + 1, Token::LeftParen) {
        Ok(_) => {},
        Err(e) => {
            return Err(e);
        },
    }
    let (args, j) = match parse_arguments(tokens, i + 2) {
        Ok(found) => found,
        Err(e) => {
            return Err(e);
        },
    };
    let k = match _match(tokens, j, Token::RightParen) {
        Ok(k) => k,
        Err(e) => {
            return Err(e);
        },
    };
    let node = if is_builtin_name(&name) {
        Expr::InternalFunctionCall(FunctionCall { name, args })
    } else {
        Expr::FunctionCall(FunctionCall { name, args })
    };
    if statement {
        match _match(tokens, k, Token::Semicolon) {
            Ok(m) => Ok((node, m)),
            Err(e) => Err(e),
        }
    } else {
        Ok((node, k))
    }
}

/// Reads a `return` statement at position `i`.
pub fn parse_return(tokens: &Vec<Token>, i: usize) -> (r: Result<(Expr, usize), ParseError>)
    ensures
        parsed_view(r) == grammar::return_statement(tokens_view(tokens@), i as int),
        r matches Ok((_, j)) ==> i < j <= tokens.len(),
    decreases tokens.len() - i, 0int,
{
    if !word_is(tokens, i, "return") {
        return Err(
            mismatch_at(tokens, i, Expected::Token(Token::Word(String::from_str("return")))),
        );
    }
    if token_is(tokens, i + 1, &Token::Semicolon) {
        assert(Expr::Empty@ == ExprView::Empty);
        return Ok((Expr::Return(Box::new(Expr::Empty)), i + 2));
    }
    let (value, j) = match parse_token(tokens, i + 1, false) {
        Ok(found) => found,
        Err(e) => {
            return Err(e);
        },
    };
    match _match(tokens, j, Token::Semicolon) {
        Ok(k) => Ok((Expr::Return(Box::new(value)), k)),
        Err(e) => Err(e),
    }
}

/// Reads a variable declaration at position `i`, where `var` or `const`
/// stands; `constant` tells which.
pub fn parse_variable(tokens: &Vec<Token>, i: usize, constant: bool) -> (r: Result<
    (Expr, usize),
    ParseError,
>)
    ensures
        parsed_view(r) == grammar::variable(tokens_view(tokens@), i as int, constant),
        r matches Ok((_, j)) ==> i < j <= tokens.len(),
    decreases tokens.len() - i, 0int,
{
    if i >= tokens.len() {
        return Err(mismatch_at(tokens, i, Expected::Word));
    }
    let (name, _) = match expect_name(tokens, i + 1) {
        Ok(found) => found,
        Err(e) => {
            return Err(e);
        },
    };
    match _match(tokens, i + 2, Token::Colon) {
        Ok(_) => {},
        Err(e) => {
            return Err(e);
        },
    }
    let (var_type, j) = match parse_type(tokens, i + 3) {
        Ok(found) => found,
        Err(e) => {
            return Err(e);
        },
    };
    match _match(tokens, j, Token::Equal) {
        Ok(_) => {},
        Err(e) => {
            return Err(e);
        },
    }
    let (value, k) = match parse_token(tokens, j + 1, false) {
        Ok(found) => found,
        Err(e) => {
            return Err(e);
        },
    };
    match _match(tokens, k, Token::Semicolon) {
        Ok(m) => Ok(
            (
                Expr::VariableDeclaration(
                    VariableDeclaration { name, value: Box::new(value), var_type, constant },
                ),
                m,
            ),
        ),
        Err(e) => Err(e),
    }
}

/// Reads a function at position `i`: its header, then `;` or, unless
/// `declaration_only` is set, a block in braces.
pub fn parse_function(tokens: &Vec<Token>, i: usize, declaration_only: bool) -> (r: Result<
    (Function, usize),
    ParseError,
>)
    ensures
        parsed_function_view(r) == grammar::function(
            tokens_view(tokens@),
            i as int,
            declaration_only,
        ),
        r matches Ok((_, j)) ==> i < j <= tokens.len(),
    decreases tokens.len() - i, 0int,
{
    if !word_is(tokens, i, "function") {
        return Err(
            mismatch_at(tokens, i, Expected::Token(Token::Word(String::from_str("function")))),
        );
    }
    let (name, _) = match expect_name(tokens, i + 1) {
        Ok(found) => found,
        Err(e) => {
            return Err(e);
        },
    };
    match _match(tokens, i + 2, Token::LeftParen) {
        Ok(_) => {},
        Err(e) => {
            return Err(e);
        },
    }
    let (args, j) = match parse_params(tokens, i + 3) {
        Ok(found) => found,
        Err(e) => {
            return Err(e);
        },
    };
    match _match(tokens, j, Token::RightParen) {
        Ok(_) => {},
        Err(e) => {
            return Err(e);
        },
    }
    match _match(tokens, j + 1, Token::LeftArrow) {
        Ok(_) => {},
        Err(e) => {
            return Err(e);
        },
    }
    let (return_type, k) = match parse_type(tokens, j + 2) {
        Ok(found) => found,
        Err(e) => {
            return Err(e);
        },
    };
    if token_is(tokens, k, &Token::Semicolon) {
        return Ok((Function { name, args, return_type, body: Box::new(Expr::Empty) }, k + 1));
    }
    if declaration_only {
        return Err(mismatch_at(tokens, k, Expected::Token(Token::Semicolon)));
    }
    match parse_block(tokens, k) {
        Ok((body, m)) => Ok((Function { name, args, return_type, body: Box::new(body) }, m)),
        Err(e) => Err(e),
    }
}

/// Reads a class member at position `i`: its access and modifier
/// keywords, then the function.
pub fn parse_class_function_def(tokens: &Vec<Token>, i: usize) -> (r: Result<
    (Expr, usize),
    ParseError,
>)
    ensures
        parsed_view(r) == grammar::method(tokens_view(tokens@), i as int),
        r matches Ok((_, j)) ==> i < j <= tokens.len(),
    decreases tokens.len() - i, 1int,
{
    let mut access = AccessModifier::Private;
    let mut j: usize = i;
    if word_is(tokens, i, "public") {
        access = AccessModifier::Public;
        j = i + 1;
    } else if word_is(tokens, i, "private") {
        j = i + 1;
    }
    let is_virtual = word_is(tokens, j, "virtual");
    let is_override = !is_virtual && word_is(tokens, j, "override");
    let is_external = !is_virtual && !is_override && word_is(tokens, j, "external");
    let k = if is_virtual || is_override || is_external {
        j + 1
    } else {
        j
    };
    match parse_function(tokens, k, is_external) {
        Ok((f, m)) => Ok(
            (
                Expr::ClassFunction(
                    ClassFunction {
                        name: f.name,
                        args: f.args,
                        return_type: f.return_type,
                        body: f.body,
                        is_virtual,
                        is_override,
                        is_external,
                        access,
                    },
                ),
                m,
            ),
        ),
        Err(e) => Err(e),
    }
}

/// Reads class members from position `i` up to a `}` or the end of the
/// input.
pub fn parse_class_members(tokens: &Vec<Token>, i: usize) -> (r: Result<
    (Vec<Expr>, usize),
    ParseError,
>)
    ensures
        parsed_list_view(r) == grammar::class_members(tokens_view(tokens@), i as int),
        r matches Ok((_, j)) ==> i <= j <= tokens.len() || (j == i && i > tokens.len()),
    decreases tokens.len() - i, 2int,
{
    let ghost ts = tokens_view(tokens@);
    let mut methods: Vec<Expr> = Vec::new();
    let mut k: usize = i;
    proof {
        let whole = grammar::class_members(ts, i as int);
        if whole is Ok {
            lemma_list_then_nothing(whole->Ok_0.0, whole->Ok_0.1);
        }
    }
    while k < tokens.len() && !token_is(tokens, k, &Token::RightCurly)
        invariant
            ts == tokens_view(tokens@),
            i <= k,
            k <= tokens.len() || k == i,
            grammar::class_members(ts, i as int) == list_then(
                exprs_view(methods@),
                grammar::class_members(ts, k as int),
            ),
        decreases tokens.len() - k,
    {
        match parse_class_function_def(tokens, k) {
            Err(e) => {
                return Err(e);
            },
            Ok((first, j)) => {
                proof {
                    lemma_exprs_view_push(methods@, first);
                    lemma_list_then_push(
                        exprs_view(methods@),
                        first@,
                        grammar::class_members(ts, j as int),
                    );
                }
                methods.push(first);
                k = j;
            },
        }
    }
    proof {
        lemma_list_then_nothing(exprs_view(methods@), k as int);
    }
    Ok((methods, k))
}

/// Reads a class definition at position `i`.
pub fn parse_class_def(tokens: &Vec<Token>, i: usize) -> (r: Result<(Expr, usize), ParseError>)
    ensures
        parsed_view(r) == grammar::class_def(tokens_view(tokens@), i as int),
        r matches Ok((_, j)) ==> i < j <= tokens.len(),
    decreases tokens.len() - i, 0int,
{
    if !word_is(tokens, i, "class") {
        return Err(
            mismatch_at(tokens, i, Expected::Token(Token::Word(String::from_str("class")))),
        );
    }
    let (name, _) = match expect_name(tokens, i + 1) {
        Ok(found) => found,
        Err(e) => {
            return Err(e);
        },
    };
    let mut base_class: Option<String> = None;
    let mut j: usize = i + 2;
    if token_is(tokens, i + 2, &Token::Colon) {
        match expect_name(tokens, i + 3) {
            Ok((base, next)) => {
                base_class = Some(base);
                j = next;
            },
            Err(e) => {
                return Err(e);
            },
        }
    }
    match _match(tokens, j, Token::LeftCurly) {
        Ok(_) => {},
        Err(e) => {
            return Err(e);
        },
    }
    let (methods, k) = match parse_class_members(tokens, j + 1) {
        Ok(found) => found,
        Err(e) => {
            return Err(e);
        },
    };
    match _match(tokens, k, Token::RightCurly) {
        Ok(m) => Ok((Expr::Class(Class { name, base_class, methods }), m)),
        Err(e) => Err(e),
    }
}


/// What a call that reads a whole input returned, taken by its view.
pub open spec fn parsed_program_view(r: Result<Vec<Expr>, ParseError>) -> Result<
    Seq<ExprView>,
    ParseErrorView,
> {
    match r {
        Ok(es) => Ok(exprs_view(es@)),
        Err(e) => Err(e@),
    }
}

/// `nodes`, followed by what `rest` holds if it holds any.
pub open spec fn program_then(
    nodes: Seq<ExprView>,
    rest: Result<Seq<ExprView>, ParseErrorView>,
) -> Result<Seq<ExprView>, ParseErrorView> {
    match rest {
        Ok(more) => Ok(nodes + more),
        Err(e) => Err(e),
    }
}

/// Reads the whole of `tokens`: the top-level items in order, or the
/// first mismatch.
pub fn parse_program(tokens: &Vec<Token>) -> (r: Result<Vec<Expr>, ParseError>)
    ensures
        parsed_program_view(r) == grammar::parse_tokens(tokens_view(tokens@)),
{
    let ghost ts = tokens_view(tokens@);
    let mut exprs: Vec<Expr> = Vec::new();
    let mut k: usize = 0;
    proof {
        let whole = grammar::program(ts, 0);
        if whole is Ok {
            assert(exprs_view(exprs@) + whole->Ok_0 =~= whole->Ok_0);
        }
    }
    while k < tokens.len()
        invariant
            ts == tokens_view(tokens@),
            k <= tokens.len(),
            grammar::parse_tokens(ts) == program_then(
                exprs_view(exprs@),
                grammar::program(ts, k as int),
            ),
        decreases tokens.len() - k,
    {
        match parse_token(tokens, k, true) {
            Err(e) => {
                return Err(e);
            },
            Ok((first, j)) => {
                proof {
                    lemma_exprs_view_push(exprs@, first);
                    let rest = grammar::program(ts, j as int);
                    if rest is Ok {
                        assert(exprs_view(exprs@) + (seq![first@] + rest->Ok_0) =~= exprs_view(
                            exprs@,
                        ).push(first@) + rest->Ok_0);
                    }
                }
                exprs.push(first);
                k = j;
            },
        }
    }
    assert(exprs_view(exprs@) + Seq::<ExprView>::empty() =~= exprs_view(exprs@));
    Ok(exprs)
}

} // verus!
