//! The grammar of Gem, as functions from a token sequence and a position to
//! the syntax tree that starts there and the position after it.
//!
//! Expressions bind, from loosest to tightest: additive (`+`, `-`),
//! multiplicative (`*`, `/`), member access (`.`), method call (`->`),
//! primary. All four operators associate to the left.
//!
//! A call written as a statement ends with `;`. A call written where a
//! value is expected (after `return`, after `=`, as an argument, inside
//! parentheses) takes none: the statement around it supplies it.
use vstd::prelude::*;
use crate::ast::{
    AccessModifier, BlockView, ClassFunctionView, ClassView, ExprView, FunctionCallView,
    FunctionView, NewView, TypeView, VariableDeclarationView,
};
use crate::token::{Token, TokenView};

verus! {

/// What the parser was looking for where it stopped.
#[derive(Debug, PartialEq)]
pub enum Expected {
    /// Any word.
    Word,
    /// The start of a primary expression.
    Primary,
    /// This very token.
    Token(Token),
}

/// The mathematical value of an [`Expected`].
pub enum ExpectedView {
    Word,
    Primary,
    Token(TokenView),
}

impl View for Expected {
    type V = ExpectedView;

    open spec fn view(&self) -> ExpectedView {
        match self {
            Expected::Word => ExpectedView::Word,
            Expected::Primary => ExpectedView::Primary,
            Expected::Token(t) => ExpectedView::Token(t@),
        }
    }
}

/// A token that does not fit the grammar: what was expected, what stood
/// there, and the tokens just before and after it. `None` stands for the
/// start or the end of the input.
#[derive(Debug, PartialEq)]
pub struct ParseError {
    pub expected: Expected,
    pub found: Option<Token>,
    pub before: Option<Token>,
    pub after: Option<Token>,
}

/// The mathematical value of a [`ParseError`].
pub struct ParseErrorView {
    pub expected: ExpectedView,
    pub found: Option<TokenView>,
    pub before: Option<TokenView>,
    pub after: Option<TokenView>,
}

/// The view of a token that may be missing.
pub open spec fn option_token_view(t: Option<Token>) -> Option<TokenView> {
    match t {
        Some(t) => Some(t@),
        None => None,
    }
}

impl View for ParseError {
    type V = ParseErrorView;

    open spec fn view(&self) -> ParseErrorView {
        ParseErrorView {
            expected: self.expected@,
            found: option_token_view(self.found),
            before: option_token_view(self.before),
            after: option_token_view(self.after),
        }
    }
}

/// A value read from the tokens and the position after it, or the mismatch
/// that stopped the reading.
pub type Parsed<T> = Result<(T, int), ParseErrorView>;

/// The token at position `i`, if there is one.
pub open spec fn token_at(ts: Seq<TokenView>, i: int) -> Option<TokenView> {
    if 0 <= i < ts.len() {
        Some(ts[i])
    } else {
        None
    }
}

/// The error for position `i`, where `expected` was looked for.
pub open spec fn mismatch(ts: Seq<TokenView>, i: int, expected: ExpectedView) -> ParseErrorView {
    ParseErrorView {
        expected,
        found: token_at(ts, i),
        before: token_at(ts, i - 1),
        after: token_at(ts, i + 1),
    }
}

/// Position `i` holds the token `t`.
pub open spec fn holds(ts: Seq<TokenView>, i: int, t: TokenView) -> bool {
    token_at(ts, i) == Some(t)
}

/// Position `i` holds the word `w`.
pub open spec fn holds_word(ts: Seq<TokenView>, i: int, w: Seq<char>) -> bool {
    token_at(ts, i) == Some(TokenView::Word(w))
}

/// Reads the token `t` at position `i`.
pub open spec fn expect(ts: Seq<TokenView>, i: int, t: TokenView) -> Result<int, ParseErrorView> {
    if holds(ts, i, t) {
        Ok(i + 1)
    } else {
        Err(mismatch(ts, i, ExpectedView::Token(t)))
    }
}

/// Reads a word at position `i`.
pub open spec fn expect_word(ts: Seq<TokenView>, i: int) -> Parsed<Seq<char>> {
    match token_at(ts, i) {
        Some(TokenView::Word(w)) => Ok((w, i + 1)),
        _ => Err(mismatch(ts, i, ExpectedView::Word)),
    }
}

/// Keeps a result that ends after position `i` and inside the input.
///
/// Every successful parse consumes at least one token and none beyond the
/// last, so this never changes a result of the functions below
/// (`parse_laws::lemma_past_is_idle`); it is there to make their recursion
/// well-founded.
pub open spec fn past<T>(ts: Seq<TokenView>, i: int, r: Parsed<T>) -> Parsed<T> {
    match r {
        Ok((_, j)) => if i < j <= ts.len() {
            r
        } else {
            Err(mismatch(ts, i, ExpectedView::Primary))
        },
        Err(_) => r,
    }
}

/// The names of the built-in functions.
pub open spec fn is_builtin(name: Seq<char>) -> bool {
    name == "print"@ || name == "println"@
}

/// The words that the language keeps for itself: none of them names a
/// variable.
pub open spec fn is_reserved(w: Seq<char>) -> bool {
    ||| w == "class"@
    ||| w == "function"@
    ||| w == "return"@
    ||| w == "var"@
    ||| w == "const"@
    ||| w == "new"@
    ||| w == "public"@
    ||| w == "private"@
    ||| w == "virtual"@
    ||| w == "override"@
    ||| w == "external"@
    ||| w == "int"@
    ||| w == "float"@
    ||| w == "string"@
    ||| w == "bool"@
    ||| w == "void"@
    ||| w == "char"@
}

/// The type that a word names: a primitive, or else a class.
pub open spec fn base_type(w: Seq<char>) -> TypeView {
    if w == "int"@ {
        TypeView::Int
    } else if w == "float"@ {
        TypeView::Float
    } else if w == "void"@ {
        TypeView::Void
    } else if w == "bool"@ {
        TypeView::Bool
    } else if w == "string"@ {
        TypeView::String
    } else if w == "char"@ {
        TypeView::Char
    } else {
        TypeView::Class(w)
    }
}

/// `*`*: each star from position `i` on wraps `t` in a pointer.
pub open spec fn pointer_suffix(ts: Seq<TokenView>, i: int, t: TypeView) -> (TypeView, int)
    decreases ts.len() - i,
{
    if holds(ts, i, TokenView::Star) {
        pointer_suffix(ts, i + 1, TypeView::Pointer(Box::new(t)))
    } else {
        (t, i)
    }
}

/// Type: a word, then any number of `*`.
pub open spec fn type_expr(ts: Seq<TokenView>, i: int) -> Parsed<TypeView> {
    match expect_word(ts, i) {
        Ok((w, j)) => Ok(pointer_suffix(ts, j, base_type(w))),
        Err(e) => Err(e),
    }
}

/// The stars after a type end at or after the position where they began,
/// inside the input.
pub proof fn lemma_pointer_suffix_bounds(ts: Seq<TokenView>, i: int, t: TypeView)
    requires
        0 <= i <= ts.len(),
    ensures
        i <= pointer_suffix(ts, i, t).1 <= ts.len(),
    decreases ts.len() - i,
{
    if holds(ts, i, TokenView::Star) {
        lemma_pointer_suffix_bounds(ts, i + 1, TypeView::Pointer(Box::new(t)));
    }
}

/// A type takes at least one token and ends inside the input.
pub proof fn lemma_type_expr_advances(ts: Seq<TokenView>, i: int)
    requires
        0 <= i,
    ensures
        type_expr(ts, i) matches Ok((_, j)) ==> i < j <= ts.len(),
{
    if expect_word(ts, i) is Ok {
        lemma_pointer_suffix_bounds(ts, i + 1, base_type(expect_word(ts, i)->Ok_0.0));
    }
}

/// Parameters: `Name : Type`, then after each `,` one more.
pub open spec fn param_list(ts: Seq<TokenView>, i: int) -> Parsed<Seq<(Seq<char>, TypeView)>>
    decreases ts.len() - i,
{
    if i < 0 {
        Err(mismatch(ts, i, ExpectedView::Word))
    } else {
        match expect_word(ts, i) {
            Err(e) => Err(e),
            Ok((name, _)) => match expect(ts, i + 1, TokenView::Colon) {
                Err(e) => Err(e),
                Ok(_) => match type_expr(ts, i + 2) {
                    Err(e) => Err(e),
                    Ok((t, j)) => {
                        proof {
                            lemma_type_expr_advances(ts, i + 2);
                        }
                        if holds(ts, j, TokenView::Comma) {
                            match param_list(ts, j + 1) {
                                Err(e) => Err(e),
                                Ok((rest, k)) => Ok((seq![(name, t)] + rest, k)),
                            }
                        } else {
                            Ok((seq![(name, t)], j))
                        }
                    },
                },
            },
        }
    }
}

/// What stands between the parentheses of a function header: nothing, or
/// a parameter list.
pub open spec fn params(ts: Seq<TokenView>, i: int) -> Parsed<Seq<(Seq<char>, TypeView)>> {
    if holds(ts, i, TokenView::RightParen) {
        Ok((Seq::empty(), i))
    } else {
        param_list(ts, i)
    }
}

/// A parameter list takes at least one token and ends inside the input.
pub proof fn lemma_param_list_advances(ts: Seq<TokenView>, i: int)
    requires
        0 <= i,
    ensures
        param_list(ts, i) matches Ok((_, j)) ==> i < j <= ts.len(),
    decreases ts.len() - i,
{
    if expect_word(ts, i) is Ok && expect(ts, i + 1, TokenView::Colon) is Ok {
        lemma_type_expr_advances(ts, i + 2);
        if type_expr(ts, i + 2) is Ok {
            let j = type_expr(ts, i + 2)->Ok_0.1;
            if holds(ts, j, TokenView::Comma) {
                lemma_param_list_advances(ts, j + 1);
            }
        }
    }
}

/// A parameter section ends where it began or later, inside the input if
/// it began there.
pub proof fn lemma_params_bounds(ts: Seq<TokenView>, i: int)
    requires
        0 <= i,
    ensures
        params(ts, i) matches Ok((_, j)) ==> i <= j <= ts.len(),
{
    lemma_param_list_advances(ts, i);
}


/// Whether `t` is `+` or `-`.
pub open spec fn is_additive_op(t: TokenView) -> bool {
    t is Plus || t is Minus
}

/// Whether `t` is `*` or `/`.
pub open spec fn is_multiplicative_op(t: TokenView) -> bool {
    t is Star || t is Slash
}

/// Primary: a number, a string, a variable, a parenthesised item, a
/// block in braces, a lone `;` (the empty expression), or a `new`
/// expression.
pub open spec fn primary(ts: Seq<TokenView>, i: int) -> Parsed<ExprView>
    decreases ts.len() - i, 1int,
{
    match token_at(ts, i) {
        Some(TokenView::Word(w)) => if w == "new"@ {
            new_expr(ts, i)
        } else if is_reserved(w) {
            Err(mismatch(ts, i, ExpectedView::Primary))
        } else {
            Ok((ExprView::Variable(w), i + 1))
        },
        Some(TokenView::Int(n)) => Ok((ExprView::Int(n), i + 1)),
        Some(TokenView::String(text)) => Ok((ExprView::String(text), i + 1)),
        Some(TokenView::LeftParen) => match item(ts, i + 1, false) {
            Err(e) => Err(e),
            Ok((inner, j)) => match expect(ts, j, TokenView::RightParen) {
                Err(e) => Err(e),
                Ok(k) => Ok((inner, k)),
            },
        },
        Some(TokenView::LeftCurly) => braced_block(ts, i),
        Some(TokenView::Semicolon) => Ok((ExprView::Empty, i + 1)),
        _ => Err(mismatch(ts, i, ExpectedView::Primary)),
    }
}

/// `new Name ( arguments )`.
pub open spec fn new_expr(ts: Seq<TokenView>, i: int) -> Parsed<ExprView>
    decreases ts.len() - i, 0int,
{
    match expect(ts, i, TokenView::Word("new"@)) {
        Err(e) => Err(e),
        Ok(_) => match expect_word(ts, i + 1) {
            Err(e) => Err(e),
            Ok((class_name, _)) => match expect(ts, i + 2, TokenView::LeftParen) {
                Err(e) => Err(e),
                Ok(_) => match arguments(ts, i + 3) {
                    Err(e) => Err(e),
                    Ok((args, j)) => match expect(ts, j, TokenView::RightParen) {
                        Err(e) => Err(e),
                        Ok(k) => Ok((ExprView::New(NewView { class_name, args }), k)),
                    },
                },
            },
        },
    }
}

/// Arguments: items up to the closing parenthesis or the end of the input;
/// a `,` after an item is passed over.
pub open spec fn arguments(ts: Seq<TokenView>, i: int) -> Parsed<Seq<ExprView>>
    decreases ts.len() - i, 7int,
{
    if token_at(ts, i) is None || holds(ts, i, TokenView::RightParen) {
        Ok((Seq::empty(), i))
    } else {
        match past(ts, i, item(ts, i, false)) {
            Err(e) => Err(e),
            Ok((first, j)) => {
                let k = if holds(ts, j, TokenView::Comma) {
                    j + 1
                } else {
                    j
                };
                match arguments(ts, k) {
                    Err(e) => Err(e),
                    Ok((rest, m)) => Ok((seq![first] + rest, m)),
                }
            },
        }
    }
}

/// Method calls: after a primary, any number of `-> Name ( arguments )`.
pub open spec fn member_call(ts: Seq<TokenView>, i: int) -> Parsed<ExprView>
    decreases ts.len() - i, 2int,
{
    match past(ts, i, primary(ts, i)) {
        Err(e) => Err(e),
        Ok((object, j)) => member_call_rest(ts, j, object),
    }
}

/// The method calls from position `i` on, applied to `object` in turn.
pub open spec fn member_call_rest(ts: Seq<TokenView>, i: int, object: ExprView) -> Parsed<ExprView>
    decreases ts.len() - i, 0int,
{
    if holds(ts, i, TokenView::LeftArrow) {
        match expect_word(ts, i + 1) {
            Err(e) => Err(e),
            Ok((name, _)) => match expect(ts, i + 2, TokenView::LeftParen) {
                Err(e) => Err(e),
                Ok(_) => match past(ts, i + 2, arguments(ts, i + 3)) {
                    Err(e) => Err(e),
                    Ok((args, j)) => match expect(ts, j, TokenView::RightParen) {
                        Err(e) => Err(e),
                        Ok(k) => member_call_rest(
                            ts,
                            k,
                            ExprView::MemberFunctionCall(
                                Box::new(object),
                                FunctionCallView { name, args },
                            ),
                        ),
                    },
                },
            },
        }
    } else {
        Ok((object, i))
    }
}

/// Member access: after a method-call expression, any number of `. Name`.
pub open spec fn member(ts: Seq<TokenView>, i: int) -> Parsed<ExprView>
    decreases ts.len() - i, 3int,
{
    match member_call(ts, i) {
        Err(e) => Err(e),
        Ok((object, j)) => member_rest(ts, j, object),
    }
}

/// The field accesses from position `i` on, applied to `object` in turn.
/// A `.` that no word follows ends the reading with an error.
pub open spec fn member_rest(ts: Seq<TokenView>, i: int, object: ExprView) -> Parsed<ExprView>
    decreases ts.len() - i,
{
    if holds(ts, i, TokenView::Dot) {
        match expect_word(ts, i + 1) {
            Err(e) => Err(e),
            Ok((field, _)) => member_rest(ts, i + 2, ExprView::Member(Box::new(object), field)),
        }
    } else {
        Ok((object, i))
    }
}


/// Multiplicative: member expressions joined by `*` or `/`, grouped from
/// the left.
pub open spec fn multiplicative(ts: Seq<TokenView>, i: int) -> Parsed<ExprView>
    decreases ts.len() - i, 4int,
{
    match past(ts, i, member(ts, i)) {
        Err(e) => Err(e),
        Ok((lhs, j)) => multiplicative_rest(ts, j, lhs),
    }
}

/// The factors from position `i` on, each joined to `lhs` in turn.
pub open spec fn multiplicative_rest(ts: Seq<TokenView>, i: int, lhs: ExprView) -> Parsed<ExprView>
    decreases ts.len() - i, 0int,
{
    match token_at(ts, i) {
        Some(op) => if is_multiplicative_op(op) {
            match past(ts, i, member(ts, i + 1)) {
                Err(e) => Err(e),
                Ok((rhs, j)) => multiplicative_rest(
                    ts,
                    j,
                    ExprView::BinaryOp(Box::new(lhs), op, Box::new(rhs)),
                ),
            }
        } else {
            Ok((lhs, i))
        },
        None => Ok((lhs, i)),
    }
}

/// Additive: multiplicative expressions joined by `+` or `-`, grouped from
/// the left.
pub open spec fn additive(ts: Seq<TokenView>, i: int) -> Parsed<ExprView>
    decreases ts.len() - i, 5int,
{
    match past(ts, i, multiplicative(ts, i)) {
        Err(e) => Err(e),
        Ok((lhs, j)) => additive_rest(ts, j, lhs),
    }
}

/// The terms from position `i` on, each joined to `lhs` in turn.
pub open spec fn additive_rest(ts: Seq<TokenView>, i: int, lhs: ExprView) -> Parsed<ExprView>
    decreases ts.len() - i, 0int,
{
    match token_at(ts, i) {
        Some(op) => if is_additive_op(op) {
            match past(ts, i, multiplicative(ts, i + 1)) {
                Err(e) => Err(e),
                Ok((rhs, j)) => additive_rest(
                    ts,
                    j,
                    ExprView::BinaryOp(Box::new(lhs), op, Box::new(rhs)),
                ),
            }
        } else {
            Ok((lhs, i))
        },
        None => Ok((lhs, i)),
    }
}

/// One item, chosen by the token at position `i`: a class, a function, a
/// `return`, a variable declaration, a `new` expression, a call, a block
/// in braces, or else an additive expression.
///
/// With `statement` set a call ends with its own `;`.
pub open spec fn item(ts: Seq<TokenView>, i: int, statement: bool) -> Parsed<ExprView>
    decreases ts.len() - i, 6int,
{
    match token_at(ts, i) {
        Some(TokenView::Word(w)) => if w == "class"@ {
            class_def(ts, i)
        } else if w == "function"@ {
            match function(ts, i, false) {
                Err(e) => Err(e),
                Ok((f, j)) => Ok((ExprView::Function(f), j)),
            }
        } else if w == "return"@ {
            return_statement(ts, i)
        } else if w == "var"@ {
            variable(ts, i, false)
        } else if w == "const"@ {
            variable(ts, i, true)
        } else if w == "new"@ {
            new_expr(ts, i)
        } else if holds(ts, i + 1, TokenView::LeftParen) {
            call(ts, i, statement)
        } else {
            additive(ts, i)
        },
        Some(TokenView::LeftCurly) => braced_block(ts, i),
        _ => additive(ts, i),
    }
}

/// The items from position `i` up to a `}` or the end of the input.
pub open spec fn block_items(ts: Seq<TokenView>, i: int) -> Parsed<Seq<ExprView>>
    decreases ts.len() - i, 7int,
{
    if token_at(ts, i) is None || holds(ts, i, TokenView::RightCurly) {
        Ok((Seq::empty(), i))
    } else {
        match past(ts, i, item(ts, i, true)) {
            Err(e) => Err(e),
            Ok((first, j)) => match block_items(ts, j) {
                Err(e) => Err(e),
                Ok((rest, k)) => Ok((seq![first] + rest, k)),
            },
        }
    }
}

/// `{ items }`, as a block.
pub open spec fn braced_block(ts: Seq<TokenView>, i: int) -> Parsed<ExprView>
    decreases ts.len() - i, 0int,
{
    match expect(ts, i, TokenView::LeftCurly) {
        Err(e) => Err(e),
        Ok(_) => match block_items(ts, i + 1) {
            Err(e) => Err(e),
            Ok((exprs, j)) => match expect(ts, j, TokenView::RightCurly) {
                Err(e) => Err(e),
                Ok(k) => Ok((ExprView::Block(BlockView { exprs }), k)),
            },
        },
    }
}

/// `Name ( arguments )`, followed by `;` if it is a statement. A call of
/// a built-in function makes a node of its own kind.
pub open spec fn call(ts: Seq<TokenView>, i: int, statement: bool) -> Parsed<ExprView>
    decreases ts.len() - i, 0int,
{
    match expect_word(ts, i) {
        Err(e) => Err(e),
        Ok((name, _)) => match expect(ts, i + 1, TokenView::LeftParen) {
            Err(e) => Err(e),
            Ok(_) => match arguments(ts, i + 2) {
                Err(e) => Err(e),
                Ok((args, j)) => match expect(ts, j, TokenView::RightParen) {
                    Err(e) => Err(e),
                    Ok(k) => {
                        let node = if is_builtin(name) {
                            ExprView::InternalFunctionCall(FunctionCallView { name, args })
                        } else {
                            ExprView::FunctionCall(FunctionCallView { name, args })
                        };
                        if statement {
                            match expect(ts, k, TokenView::Semicolon) {
                                Err(e) => Err(e),
                                Ok(m) => Ok((node, m)),
                            }
                        } else {
                            Ok((node, k))
                        }
                    },
                },
            },
        },
    }
}

/// `return ;`, which returns the empty expression, or `return item ;`.
pub open spec fn return_statement(ts: Seq<TokenView>, i: int) -> Parsed<ExprView>
    decreases ts.len() - i, 0int,
{
    match expect(ts, i, TokenView::Word("return"@)) {
        Err(e) => Err(e),
        Ok(_) => if holds(ts, i + 1, TokenView::Semicolon) {
            Ok((ExprView::Return(Box::new(ExprView::Empty)), i + 2))
        } else {
            match item(ts, i + 1, false) {
                Err(e) => Err(e),
                Ok((value, j)) => match expect(ts, j, TokenView::Semicolon) {
                    Err(e) => Err(e),
                    Ok(k) => Ok((ExprView::Return(Box::new(value)), k)),
                },
            }
        },
    }
}

/// `var Name : Type = item ;`, or the same with `const`. The keyword at
/// position `i` is passed over unread: `constant` tells which it was.
pub open spec fn variable(ts: Seq<TokenView>, i: int, constant: bool) -> Parsed<ExprView>
    decreases ts.len() - i, 0int,
{
    if token_at(ts, i) is None {
        Err(mismatch(ts, i, ExpectedView::Word))
    } else {
        match expect_word(ts, i + 1) {
            Err(e) => Err(e),
            Ok((name, _)) => match expect(ts, i + 2, TokenView::Colon) {
                Err(e) => Err(e),
                Ok(_) => match type_expr(ts, i + 3) {
                    Err(e) => Err(e),
                    Ok((var_type, j)) => match expect(ts, j, TokenView::Equal) {
                        Err(e) => Err(e),
                        Ok(_) => {
                            proof {
                                lemma_type_expr_advances(ts, i + 3);
                            }
                            match item(ts, j + 1, false) {
                                Err(e) => Err(e),
                                Ok((value, k)) => match expect(ts, k, TokenView::Semicolon) {
                                    Err(e) => Err(e),
                                    Ok(m) => Ok(
                                        (
                                            ExprView::VariableDeclaration(
                                                VariableDeclarationView {
                                                    name,
                                                    value: Box::new(value),
                                                    var_type,
                                                    constant,
                                                },
                                            ),
                                            m,
                                        ),
                                    ),
                                },
                            }
                        },
                    },
                },
            },
        }
    }
}

/// `function Name ( params ) -> Type`, then `;` for a declaration, whose
/// body is empty, or a block in braces. With `declaration_only` set only
/// the `;` is accepted.
pub open spec fn function(ts: Seq<TokenView>, i: int, declaration_only: bool) -> Parsed<
    FunctionView,
>
    decreases ts.len() - i, 0int,
{
    match expect(ts, i, TokenView::Word("function"@)) {
        Err(e) => Err(e),
        Ok(_) => match expect_word(ts, i + 1) {
            Err(e) => Err(e),
            Ok((name, _)) => match expect(ts, i + 2, TokenView::LeftParen) {
                Err(e) => Err(e),
                Ok(_) => match params(ts, i + 3) {
                    Err(e) => Err(e),
                    Ok((args, j)) => match expect(ts, j, TokenView::RightParen) {
                        Err(e) => Err(e),
                        Ok(_) => match expect(ts, j + 1, TokenView::LeftArrow) {
                            Err(e) => Err(e),
                            Ok(_) => match type_expr(ts, j + 2) {
                                Err(e) => Err(e),
                                Ok((return_type, k)) => if holds(ts, k, TokenView::Semicolon) {
                                    Ok(
                                        (
                                            FunctionView {
                                                name,
                                                args,
                                                return_type,
                                                body: Box::new(ExprView::Empty),
                                            },
                                            k + 1,
                                        ),
                                    )
                                } else if declaration_only {
                                    Err(mismatch(ts, k, ExpectedView::Token(TokenView::Semicolon)))
                                } else {
                                    proof {
                                        lemma_params_bounds(ts, i + 3);
                                        lemma_type_expr_advances(ts, j + 2);
                                    }
                                    match braced_block(ts, k) {
                                        Err(e) => Err(e),
                                        Ok((body, m)) => Ok(
                                            (
                                                FunctionView {
                                                    name,
                                                    args,
                                                    return_type,
                                                    body: Box::new(body),
                                                },
                                                m,
                                            ),
                                        ),
                                    }
                                },
                            },
                        },
                    },
                },
            },
        },
    }
}

/// The access keyword at position `i`, if one stands there, and the
/// position after it. Without a keyword a method is private.
pub open spec fn access_modifier(ts: Seq<TokenView>, i: int) -> (AccessModifier, int) {
    if holds_word(ts, i, "public"@) {
        (AccessModifier::Public, i + 1)
    } else if holds_word(ts, i, "private"@) {
        (AccessModifier::Private, i + 1)
    } else {
        (AccessModifier::Private, i)
    }
}

/// A class member: `public` or `private` or neither; then `virtual`,
/// `override`, `external` or none of them; then a function. An external
/// method is a declaration: it has no body.
pub open spec fn method(ts: Seq<TokenView>, i: int) -> Parsed<ExprView>
    decreases ts.len() - i, 1int,
{
    let (access, j) = access_modifier(ts, i);
    let is_virtual = holds_word(ts, j, "virtual"@);
    let is_override = !is_virtual && holds_word(ts, j, "override"@);
    let is_external = !is_virtual && !is_override && holds_word(ts, j, "external"@);
    let k = if is_virtual || is_override || is_external {
        j + 1
    } else {
        j
    };
    match function(ts, k, is_external) {
        Err(e) => Err(e),
        Ok((f, m)) => Ok(
            (
                ExprView::ClassFunction(
                    ClassFunctionView {
                        name: f.name,
                        args: f.args,
                        return_type: f.return_type,
                        body: f.body,
                        is_virtual,
                        is_override,
                        is_external,
                        access,
                    },
                ),
                m,
            ),
        ),
    }
}

/// The members of a class from position `i` up to a `}` or the end of the
/// input.
pub open spec fn class_members(ts: Seq<TokenView>, i: int) -> Parsed<Seq<ExprView>>
    decreases ts.len() - i, 2int,
{
    if token_at(ts, i) is None || holds(ts, i, TokenView::RightCurly) {
        Ok((Seq::empty(), i))
    } else {
        match past(ts, i, method(ts, i)) {
            Err(e) => Err(e),
            Ok((first, j)) => match class_members(ts, j) {
                Err(e) => Err(e),
                Ok((rest, k)) => Ok((seq![first] + rest, k)),
            },
        }
    }
}

/// The base class named at position `i` after a `:`, if a `:` stands
/// there, and the position after it.
pub open spec fn base_clause(ts: Seq<TokenView>, i: int) -> Parsed<Option<Seq<char>>> {
    if holds(ts, i, TokenView::Colon) {
        match expect_word(ts, i + 1) {
            Err(e) => Err(e),
            Ok((base, j)) => Ok((Some(base), j)),
        }
    } else {
        Ok((None, i))
    }
}

/// `{ members }`: the members of a class between its braces.
pub open spec fn class_body(ts: Seq<TokenView>, i: int) -> Parsed<Seq<ExprView>>
    decreases ts.len() - i, 0int,
{
    match expect(ts, i, TokenView::LeftCurly) {
        Err(e) => Err(e),
        Ok(_) => match class_members(ts, i + 1) {
            Err(e) => Err(e),
            Ok((methods, j)) => match expect(ts, j, TokenView::RightCurly) {
                Err(e) => Err(e),
                Ok(k) => Ok((methods, k)),
            },
        },
    }
}

/// `class Name { members }`, with `: Base` after the name if the class has
/// a base class.
pub open spec fn class_def(ts: Seq<TokenView>, i: int) -> Parsed<ExprView>
    decreases ts.len() - i, 0int,
{
    match expect(ts, i, TokenView::Word("class"@)) {
        Err(e) => Err(e),
        Ok(_) => match expect_word(ts, i + 1) {
            Err(e) => Err(e),
            Ok((name, _)) => match base_clause(ts, i + 2) {
                Err(e) => Err(e),
                Ok((base_class, j)) => match class_body(ts, j) {
                    Err(e) => Err(e),
                    Ok((methods, k)) => Ok(
                        (ExprView::Class(ClassView { name, base_class, methods }), k),
                    ),
                },
            },
        },
    }
}

/// The items from position `i` to the end of the input.
pub open spec fn program(ts: Seq<TokenView>, i: int) -> Result<Seq<ExprView>, ParseErrorView>
    decreases ts.len() - i,
{
    if 0 <= i < ts.len() {
        match past(ts, i, item(ts, i, true)) {
            Err(e) => Err(e),
            Ok((first, j)) => match program(ts, j) {
                Err(e) => Err(e),
                Ok(rest) => Ok(seq![first] + rest),
            },
        }
    } else {
        Ok(Seq::empty())
    }
}

/// The syntax trees of a whole token sequence, in order, or the first
/// mismatch.
pub open spec fn parse_tokens(ts: Seq<TokenView>) -> Result<Seq<ExprView>, ParseErrorView> {
    program(ts, 0)
}

} // verus!
