//! Position independence: what the grammar reads at a position depends on
//! the tokens from that position on and on nothing before them.
//!
//! What parses at position `i` of an input without its first `k` tokens
//! parses at position `i + k` of the whole input, to the same node, and
//! ends at the same token; and the other way round.
use vstd::prelude::*;
use crate::ast::{ExprView, FunctionCallView, TypeView};
use crate::grammar::{
    access_modifier, additive, additive_rest, arguments, base_clause, base_type, block_items,
    braced_block, call, class_body, class_def, class_members, expect_word, function, holds,
    holds_word, is_additive_op, is_multiplicative_op, item, member, member_call,
    member_call_rest, member_rest, method, multiplicative, multiplicative_rest, new_expr,
    param_list, params, parse_tokens, past, pointer_suffix, primary, program, return_statement,
    token_at, type_expr, variable, ParseErrorView, Parsed,
};
use crate::token::TokenView;

verus! {

/// From position `from` of `a` on, `b` holds the tokens of `a`, each `k`
/// positions further on, and ends where `a` ends.
pub open spec fn aligned(a: Seq<TokenView>, b: Seq<TokenView>, k: int, from: int) -> bool {
    &&& 0 <= from
    &&& b.len() == a.len() + k
    &&& forall|n: int| from <= n ==> #[trigger] token_at(a, n) == token_at(b, n + k)
}

/// What `here` holds, `moved` holds too, ending `k` positions later.
pub open spec fn carried<T>(here: Parsed<T>, moved: Parsed<T>, k: int) -> bool {
    here matches Ok((x, j)) ==> moved == Ok::<(T, int), ParseErrorView>((x, j + k))
}

proof fn lemma_item_ends(ts: Seq<TokenView>, i: int, statement: bool)
    ensures
        item(ts, i, statement) matches Ok((_, j)) ==> i < j <= ts.len(),
{
    crate::parse_laws::lemma_item(ts, i, statement);
}

proof fn lemma_member_call_ends(ts: Seq<TokenView>, i: int)
    ensures
        member_call(ts, i) matches Ok((_, j)) ==> i < j <= ts.len(),
{
    crate::parse_laws::lemma_member_call(ts, i);
}

proof fn lemma_arguments_ends(ts: Seq<TokenView>, i: int)
    ensures
        arguments(ts, i) matches Ok((_, j)) ==> i <= j,
{
    crate::parse_laws::lemma_arguments(ts, i);
}

proof fn lemma_block_items_ends(ts: Seq<TokenView>, i: int)
    ensures
        block_items(ts, i) matches Ok((_, j)) ==> i <= j,
{
    crate::parse_laws::lemma_block_items(ts, i);
}

proof fn lemma_class_members_ends(ts: Seq<TokenView>, i: int)
    ensures
        class_members(ts, i) matches Ok((_, j)) ==> i <= j,
{
    crate::parse_laws::lemma_class_members(ts, i);
}

proof fn lemma_past_shift<T>(
    a: Seq<TokenView>,
    b: Seq<TokenView>,
    k: int,
    from: int,
    i: int,
    here: Parsed<T>,
    moved: Parsed<T>,
)
    requires
        aligned(a, b, k, from),
        from <= i,
        carried(here, moved, k),
    ensures
        carried(past(a, i, here), past(b, i + k, moved), k),
{
}

proof fn lemma_pointer_suffix_shift(
    a: Seq<TokenView>,
    b: Seq<TokenView>,
    k: int,
    from: int,
    i: int,
    t: TypeView,
)
    requires
        aligned(a, b, k, from),
        from <= i,
    ensures
        pointer_suffix(a, i, t).0 == pointer_suffix(b, i + k, t).0,
        pointer_suffix(a, i, t).1 + k == pointer_suffix(b, i + k, t).1,
    decreases a.len() - i,
{
    if holds(a, i, TokenView::Star) {
        lemma_pointer_suffix_shift(a, b, k, from, i + 1, TypeView::Pointer(Box::new(t)));
    }
}

proof fn lemma_type_expr_shift(a: Seq<TokenView>, b: Seq<TokenView>, k: int, from: int, i: int)
    requires
        aligned(a, b, k, from),
        from <= i,
    ensures
        carried(type_expr(a, i), type_expr(b, i + k), k),
{
    match expect_word(a, i) {
        Ok((w, _)) => {
            lemma_pointer_suffix_shift(a, b, k, from, i + 1, base_type(w));
        },
        Err(_) => {},
    }
}

proof fn lemma_param_list_shift(a: Seq<TokenView>, b: Seq<TokenView>, k: int, from: int, i: int)
    requires
        aligned(a, b, k, from),
        from <= i,
    ensures
        carried(param_list(a, i), param_list(b, i + k), k),
    decreases a.len() - i,
{
    lemma_type_expr_shift(a, b, k, from, i + 2);
    crate::grammar::lemma_type_expr_advances(a, i + 2);
    if expect_word(a, i) is Ok && holds(a, i + 1, TokenView::Colon) {
        match type_expr(a, i + 2) {
            Ok((_, j)) => {
                if holds(a, j, TokenView::Comma) {
                    lemma_param_list_shift(a, b, k, from, j + 1);
                }
            },
            Err(_) => {},
        }
    }
}

proof fn lemma_params_shift(a: Seq<TokenView>, b: Seq<TokenView>, k: int, from: int, i: int)
    requires
        aligned(a, b, k, from),
        from <= i,
    ensures
        carried(params(a, i), params(b, i + k), k),
{
    lemma_param_list_shift(a, b, k, from, i);
}

proof fn lemma_base_clause_shift(a: Seq<TokenView>, b: Seq<TokenView>, k: int, from: int, i: int)
    requires
        aligned(a, b, k, from),
        from <= i,
    ensures
        carried(base_clause(a, i), base_clause(b, i + k), k),
{
}

proof fn lemma_access_shift(a: Seq<TokenView>, b: Seq<TokenView>, k: int, from: int, i: int)
    requires
        aligned(a, b, k, from),
        from <= i,
    ensures
        access_modifier(a, i).0 == access_modifier(b, i + k).0,
        access_modifier(a, i).1 + k == access_modifier(b, i + k).1,
        i <= access_modifier(a, i).1,
{
}

#[verifier::rlimit(100)]
proof fn lemma_primary_shift(a: Seq<TokenView>, b: Seq<TokenView>, k: int, from: int, i: int)
    requires
        aligned(a, b, k, from),
        from <= i,
    ensures
        carried(primary(a, i), primary(b, i + k), k),
    decreases a.len() - i, 1int,
{
    match token_at(a, i) {
        Some(TokenView::Word(w)) => {
            if w == "new"@ {
                lemma_new_expr_shift(a, b, k, from, i);
            }
        },
        Some(TokenView::LeftParen) => {
            lemma_item_aligned(a, b, k, from, i + 1, false);
            match item(a, i + 1, false) {
                Ok((_, j)) => {
                    lemma_item_ends(a, i + 1, false);
                },
                Err(_) => {},
            }
        },
        Some(TokenView::LeftCurly) => {
            lemma_braced_block_shift(a, b, k, from, i);
        },
        _ => {},
    }
}

#[verifier::rlimit(100)]
proof fn lemma_new_expr_shift(a: Seq<TokenView>, b: Seq<TokenView>, k: int, from: int, i: int)
    requires
        aligned(a, b, k, from),
        from <= i,
    ensures
        carried(new_expr(a, i), new_expr(b, i + k), k),
    decreases a.len() - i, 0int,
{
    if holds(a, i, TokenView::Word("new"@)) && holds(a, i + 2, TokenView::LeftParen) {
        lemma_arguments_shift(a, b, k, from, i + 3);
        lemma_arguments_ends(a, i + 3);
        match arguments(a, i + 3) {
            Ok((_, j)) => {
            },
            Err(_) => {},
        }
    }
}

proof fn lemma_arguments_shift(a: Seq<TokenView>, b: Seq<TokenView>, k: int, from: int, i: int)
    requires
        aligned(a, b, k, from),
        from <= i,
    ensures
        carried(arguments(a, i), arguments(b, i + k), k),
    decreases a.len() - i, 7int,
{
    if !(token_at(a, i) is None || holds(a, i, TokenView::RightParen)) {
        lemma_item_aligned(a, b, k, from, i, false);
        lemma_past_shift(a, b, k, from, i, item(a, i, false), item(b, i + k, false));
        match past(a, i, item(a, i, false)) {
            Ok((_, j)) => {
                let next = if holds(a, j, TokenView::Comma) {
                    j + 1
                } else {
                    j
                };
                lemma_arguments_shift(a, b, k, from, next);
            },
            Err(_) => {},
        }
    }
}

proof fn lemma_member_call_shift(a: Seq<TokenView>, b: Seq<TokenView>, k: int, from: int, i: int)
    requires
        aligned(a, b, k, from),
        from <= i,
    ensures
        carried(member_call(a, i), member_call(b, i + k), k),
    decreases a.len() - i, 2int,
{
    lemma_primary_shift(a, b, k, from, i);
    lemma_past_shift(a, b, k, from, i, primary(a, i), primary(b, i + k));
    match past(a, i, primary(a, i)) {
        Ok((object, j)) => {
            lemma_member_call_rest_shift(a, b, k, from, j, object);
        },
        Err(_) => {},
    }
}

#[verifier::rlimit(100)]
proof fn lemma_member_call_rest_shift(
    a: Seq<TokenView>,
    b: Seq<TokenView>,
    k: int,
    from: int,
    i: int,
    object: ExprView,
)
    requires
        aligned(a, b, k, from),
        from <= i,
    ensures
        carried(member_call_rest(a, i, object), member_call_rest(b, i + k, object), k),
    decreases a.len() - i, 0int,
{
    if holds(a, i, TokenView::LeftArrow) && holds(a, i + 2, TokenView::LeftParen) {
        lemma_arguments_shift(a, b, k, from, i + 3);
        lemma_past_shift(a, b, k, from, i + 2, arguments(a, i + 3), arguments(b, i + 3 + k));
        match expect_word(a, i + 1) {
            Ok((name, _)) => {
                match past(a, i + 2, arguments(a, i + 3)) {
                    Ok((args, j)) => {
                        if holds(a, j, TokenView::RightParen) {
                            lemma_member_call_rest_shift(
                                a,
                                b,
                                k,
                                from,
                                j + 1,
                                ExprView::MemberFunctionCall(
                                    Box::new(object),
                                    FunctionCallView { name, args },
                                ),
                            );
                        }
                    },
                    Err(_) => {},
                }
            },
            Err(_) => {},
        }
    }
}

proof fn lemma_member_rest_shift(
    a: Seq<TokenView>,
    b: Seq<TokenView>,
    k: int,
    from: int,
    i: int,
    object: ExprView,
)
    requires
        aligned(a, b, k, from),
        from <= i,
    ensures
        carried(member_rest(a, i, object), member_rest(b, i + k, object), k),
    decreases a.len() - i,
{
    if holds(a, i, TokenView::Dot) {
        match expect_word(a, i + 1) {
            Ok((field, _)) => {
                lemma_member_rest_shift(a, b, k, from, i + 2, ExprView::Member(Box::new(object), field));
            },
            Err(_) => {},
        }
    }
}

proof fn lemma_member_shift(a: Seq<TokenView>, b: Seq<TokenView>, k: int, from: int, i: int)
    requires
        aligned(a, b, k, from),
        from <= i,
    ensures
        carried(member(a, i), member(b, i + k), k),
    decreases a.len() - i, 3int,
{
    lemma_member_call_shift(a, b, k, from, i);
    lemma_member_call_ends(a, i);
    match member_call(a, i) {
        Ok((object, j)) => {
            lemma_member_rest_shift(a, b, k, from, j, object);
        },
        Err(_) => {},
    }
}

proof fn lemma_multiplicative_shift(a: Seq<TokenView>, b: Seq<TokenView>, k: int, from: int, i: int)
    requires
        aligned(a, b, k, from),
        from <= i,
    ensures
        carried(multiplicative(a, i), multiplicative(b, i + k), k),
    decreases a.len() - i, 4int,
{
    lemma_member_shift(a, b, k, from, i);
    lemma_past_shift(a, b, k, from, i, member(a, i), member(b, i + k));
    match past(a, i, member(a, i)) {
        Ok((lhs, j)) => {
            lemma_multiplicative_rest_shift(a, b, k, from, j, lhs);
        },
        Err(_) => {},
    }
}

proof fn lemma_multiplicative_rest_shift(
    a: Seq<TokenView>,
    b: Seq<TokenView>,
    k: int,
    from: int,
    i: int,
    lhs: ExprView,
)
    requires
        aligned(a, b, k, from),
        from <= i,
    ensures
        carried(
            multiplicative_rest(a, i, lhs),
            multiplicative_rest(b, i + k, lhs),
            k,
        ),
    decreases a.len() - i, 0int,
{
    match token_at(a, i) {
        Some(op) => {
            if is_multiplicative_op(op) {
                lemma_member_shift(a, b, k, from, i + 1);
                lemma_past_shift(a, b, k, from, i, member(a, i + 1), member(b, i + 1 + k));
                match past(a, i, member(a, i + 1)) {
                    Ok((rhs, j)) => {
                        lemma_multiplicative_rest_shift(
                            a,
                            b,
                            k,
                            from,
                            j,
                            ExprView::BinaryOp(Box::new(lhs), op, Box::new(rhs)),
                        );
                    },
                    Err(_) => {},
                }
            }
        },
        None => {},
    }
}

proof fn lemma_additive_shift(a: Seq<TokenView>, b: Seq<TokenView>, k: int, from: int, i: int)
    requires
        aligned(a, b, k, from),
        from <= i,
    ensures
        carried(additive(a, i), additive(b, i + k), k),
    decreases a.len() - i, 5int,
{
    lemma_multiplicative_shift(a, b, k, from, i);
    lemma_past_shift(a, b, k, from, i, multiplicative(a, i), multiplicative(b, i + k));
    match past(a, i, multiplicative(a, i)) {
        Ok((lhs, j)) => {
            lemma_additive_rest_shift(a, b, k, from, j, lhs);
        },
        Err(_) => {},
    }
}

proof fn lemma_additive_rest_shift(
    a: Seq<TokenView>,
    b: Seq<TokenView>,
    k: int,
    from: int,
    i: int,
    lhs: ExprView,
)
    requires
        aligned(a, b, k, from),
        from <= i,
    ensures
        carried(additive_rest(a, i, lhs), additive_rest(b, i + k, lhs), k),
    decreases a.len() - i, 0int,
{
    match token_at(a, i) {
        Some(op) => {
            if is_additive_op(op) {
                lemma_multiplicative_shift(a, b, k, from, i + 1);
                lemma_past_shift(
                    a,
                    b,
                    k,
                    from,
                    i,
                    multiplicative(a, i + 1),
                    multiplicative(b, i + 1 + k),
                );
                match past(a, i, multiplicative(a, i + 1)) {
                    Ok((rhs, j)) => {
                        lemma_additive_rest_shift(
                            a,
                            b,
                            k,
                            from,
                            j,
                            ExprView::BinaryOp(Box::new(lhs), op, Box::new(rhs)),
                        );
                    },
                    Err(_) => {},
                }
            }
        },
        None => {},
    }
}

#[verifier::rlimit(100)]
proof fn lemma_item_aligned(
    a: Seq<TokenView>,
    b: Seq<TokenView>,
    k: int,
    from: int,
    i: int,
    statement: bool,
)
    requires
        aligned(a, b, k, from),
        from <= i,
    ensures
        carried(item(a, i, statement), item(b, i + k, statement), k),
    decreases a.len() - i, 6int,
{
    match token_at(a, i) {
        Some(TokenView::Word(w)) => {
            lemma_class_def_shift(a, b, k, from, i);
            lemma_function_shift(a, b, k, from, i, false);
            lemma_return_statement_shift(a, b, k, from, i);
            lemma_variable_shift(a, b, k, from, i, false);
            lemma_variable_shift(a, b, k, from, i, true);
            lemma_new_expr_shift(a, b, k, from, i);
            lemma_call_shift(a, b, k, from, i, statement);
            lemma_additive_shift(a, b, k, from, i);
        },
        Some(TokenView::LeftCurly) => {
            lemma_braced_block_shift(a, b, k, from, i);
        },
        _ => {
            lemma_additive_shift(a, b, k, from, i);
        },
    }
}

proof fn lemma_block_items_shift(a: Seq<TokenView>, b: Seq<TokenView>, k: int, from: int, i: int)
    requires
        aligned(a, b, k, from),
        from <= i,
    ensures
        carried(block_items(a, i), block_items(b, i + k), k),
    decreases a.len() - i, 7int,
{
    if !(token_at(a, i) is None || holds(a, i, TokenView::RightCurly)) {
        lemma_item_aligned(a, b, k, from, i, true);
        lemma_past_shift(a, b, k, from, i, item(a, i, true), item(b, i + k, true));
        match past(a, i, item(a, i, true)) {
            Ok((_, j)) => {
                lemma_block_items_shift(a, b, k, from, j);
            },
            Err(_) => {},
        }
    }
}

proof fn lemma_braced_block_shift(a: Seq<TokenView>, b: Seq<TokenView>, k: int, from: int, i: int)
    requires
        aligned(a, b, k, from),
        from <= i,
    ensures
        carried(braced_block(a, i), braced_block(b, i + k), k),
    decreases a.len() - i, 0int,
{
    if holds(a, i, TokenView::LeftCurly) {
        lemma_block_items_shift(a, b, k, from, i + 1);
        lemma_block_items_ends(a, i + 1);
    }
}

proof fn lemma_call_shift(
    a: Seq<TokenView>,
    b: Seq<TokenView>,
    k: int,
    from: int,
    i: int,
    statement: bool,
)
    requires
        aligned(a, b, k, from),
        from <= i,
    ensures
        carried(call(a, i, statement), call(b, i + k, statement), k),
    decreases a.len() - i, 0int,
{
    if token_at(a, i) is Some && holds(a, i + 1, TokenView::LeftParen) {
        lemma_arguments_shift(a, b, k, from, i + 2);
        lemma_arguments_ends(a, i + 2);
    }
}

proof fn lemma_return_statement_shift(
    a: Seq<TokenView>,
    b: Seq<TokenView>,
    k: int,
    from: int,
    i: int,
)
    requires
        aligned(a, b, k, from),
        from <= i,
    ensures
        carried(return_statement(a, i), return_statement(b, i + k), k),
    decreases a.len() - i, 0int,
{
    if holds(a, i, TokenView::Word("return"@)) && !holds(a, i + 1, TokenView::Semicolon) {
        lemma_item_aligned(a, b, k, from, i + 1, false);
        match item(a, i + 1, false) {
            Ok((_, j)) => {
                lemma_item_ends(a, i + 1, false);
            },
            Err(_) => {},
        }
    }
}

#[verifier::rlimit(100)]
proof fn lemma_variable_shift(
    a: Seq<TokenView>,
    b: Seq<TokenView>,
    k: int,
    from: int,
    i: int,
    constant: bool,
)
    requires
        aligned(a, b, k, from),
        from <= i,
    ensures
        carried(variable(a, i, constant), variable(b, i + k, constant), k),
    decreases a.len() - i, 0int,
{
    if token_at(a, i) is Some {
        lemma_type_expr_shift(a, b, k, from, i + 3);
        crate::grammar::lemma_type_expr_advances(a, i + 3);
        match type_expr(a, i + 3) {
            Ok((_, j)) => {
                if holds(a, j, TokenView::Equal) {
                    lemma_item_aligned(a, b, k, from, j + 1, false);
                    match item(a, j + 1, false) {
                        Ok((_, m)) => {
                            lemma_item_ends(a, j + 1, false);
                        },
                        Err(_) => {},
                    }
                }
            },
            Err(_) => {},
        }
    }
}

#[verifier::rlimit(100)]
proof fn lemma_function_shift(
    a: Seq<TokenView>,
    b: Seq<TokenView>,
    k: int,
    from: int,
    i: int,
    declaration_only: bool,
)
    requires
        aligned(a, b, k, from),
        from <= i,
    ensures
        carried(
            function(a, i, declaration_only),
            function(b, i + k, declaration_only),
            k,
        ),
    decreases a.len() - i, 0int,
{
    if holds(a, i, TokenView::Word("function"@)) && holds(a, i + 2, TokenView::LeftParen) {
        lemma_params_shift(a, b, k, from, i + 3);
        crate::grammar::lemma_params_bounds(a, i + 3);
        match params(a, i + 3) {
            Ok((_, j)) => {
                if holds(a, j, TokenView::RightParen) && holds(a, j + 1, TokenView::LeftArrow) {
                    lemma_type_expr_shift(a, b, k, from, j + 2);
                    crate::grammar::lemma_type_expr_advances(a, j + 2);
                    match type_expr(a, j + 2) {
                        Ok((_, m)) => {
                            if !holds(a, m, TokenView::Semicolon) && !declaration_only {
                                lemma_braced_block_shift(a, b, k, from, m);
                            }
                        },
                        Err(_) => {},
                    }
                }
            },
            Err(_) => {},
        }
    }
}

#[verifier::rlimit(100)]
proof fn lemma_method_shift(a: Seq<TokenView>, b: Seq<TokenView>, k: int, from: int, i: int)
    requires
        aligned(a, b, k, from),
        from <= i,
    ensures
        carried(method(a, i), method(b, i + k), k),
    decreases a.len() - i, 1int,
{
    lemma_access_shift(a, b, k, from, i);
    let j = access_modifier(a, i).1;
    let is_virtual = holds_word(a, j, "virtual"@);
    let is_override = !is_virtual && holds_word(a, j, "override"@);
    let is_external = !is_virtual && !is_override && holds_word(a, j, "external"@);
    let m = if is_virtual || is_override || is_external {
        j + 1
    } else {
        j
    };
    assert(is_virtual == holds_word(b, j + k, "virtual"@));
    assert(is_override == (!is_virtual && holds_word(b, j + k, "override"@)));
    assert(is_external == (!is_virtual && !is_override && holds_word(b, j + k, "external"@)));
    lemma_function_shift(a, b, k, from, m, is_external);
}

#[verifier::rlimit(100)]
proof fn lemma_class_members_shift(a: Seq<TokenView>, b: Seq<TokenView>, k: int, from: int, i: int)
    requires
        aligned(a, b, k, from),
        from <= i,
    ensures
        carried(class_members(a, i), class_members(b, i + k), k),
    decreases a.len() - i, 2int,
{
    if !(token_at(a, i) is None || holds(a, i, TokenView::RightCurly)) {
        lemma_method_shift(a, b, k, from, i);
        lemma_past_shift(a, b, k, from, i, method(a, i), method(b, i + k));
        match past(a, i, method(a, i)) {
            Ok((_, j)) => {
                lemma_class_members_shift(a, b, k, from, j);
            },
            Err(_) => {},
        }
    }
}

#[verifier::rlimit(100)]
proof fn lemma_class_body_shift(a: Seq<TokenView>, b: Seq<TokenView>, k: int, from: int, i: int)
    requires
        aligned(a, b, k, from),
        from <= i,
    ensures
        carried(class_body(a, i), class_body(b, i + k), k),
    decreases a.len() - i, 0int,
{
    if holds(a, i, TokenView::LeftCurly) {
        assert(token_at(a, i) == token_at(b, i + k));
        lemma_class_members_shift(a, b, k, from, i + 1);
        lemma_class_members_ends(a, i + 1);
        let members = class_members(a, i + 1);
        if members is Ok {
            let m = members->Ok_0.1;
            assert(class_members(b, i + 1 + k) == Ok::<(Seq<ExprView>, int), ParseErrorView>(
                (members->Ok_0.0, m + k),
            ));
            assert(token_at(a, m) == token_at(b, m + k));
        }
    }
}

#[verifier::rlimit(100)]
proof fn lemma_class_def_shift(a: Seq<TokenView>, b: Seq<TokenView>, k: int, from: int, i: int)
    requires
        aligned(a, b, k, from),
        from <= i,
    ensures
        carried(class_def(a, i), class_def(b, i + k), k),
    decreases a.len() - i, 0int,
{
    let keyword = TokenView::Word("class"@);
    assert(token_at(a, i) == token_at(b, i + k));
    assert(token_at(a, i + 1) == token_at(b, i + 1 + k));
    if holds(a, i, keyword) {
        let name_here = expect_word(a, i + 1);
        let name_moved = expect_word(b, i + 1 + k);
        assert(carried(name_here, name_moved, k));
        if name_here is Ok {
            let base_here = base_clause(a, i + 2);
            let base_moved = base_clause(b, i + 2 + k);
            lemma_base_clause_shift(a, b, k, from, i + 2);
            if base_here is Ok {
                let j = base_here->Ok_0.1;
                assert(j == i + 2 || j == i + 4);
                assert(base_moved->Ok_0.1 == j + k);
                if holds(a, j, TokenView::LeftCurly) {
                    lemma_class_body_shift(a, b, k, from, j);
                }
            }
        }
    }
}

proof fn lemma_program_aligned(a: Seq<TokenView>, b: Seq<TokenView>, k: int, from: int, i: int)
    requires
        aligned(a, b, k, from),
        from <= i,
    ensures
        program(a, i) matches Ok(es) ==> program(b, i + k) == Ok::<Seq<ExprView>, ParseErrorView>(
            es,
        ),
    decreases a.len() - i,
{
    if 0 <= i < a.len() {
        lemma_item_aligned(a, b, k, from, i, true);
        lemma_past_shift(a, b, k, from, i, item(a, i, true), item(b, i + k, true));
        match past(a, i, item(a, i, true)) {
            Ok((_, j)) => {
                lemma_program_aligned(a, b, k, from, j);
            },
            Err(_) => {},
        }
    }
}


proof fn lemma_skip_is_aligned(ts: Seq<TokenView>, k: int)
    requires
        0 <= k <= ts.len(),
    ensures
        aligned(ts.skip(k), ts, k, 0),
{
}

proof fn lemma_whole_is_aligned(ts: Seq<TokenView>, k: int)
    requires
        0 <= k <= ts.len(),
    ensures
        aligned(ts, ts.skip(k), -k, k),
{
    assert forall|n: int| k <= n implies #[trigger] token_at(ts, n) == token_at(
        ts.skip(k),
        n + (-k),
    ) by {}
}

/// An item that stands in an input without its first `k` tokens stands in
/// the whole input, `k` positions further on.
pub proof fn lemma_item_moves_on(ts: Seq<TokenView>, k: int, i: int, statement: bool)
    requires
        0 <= k <= ts.len(),
        0 <= i,
    ensures
        carried(item(ts.skip(k), i, statement), item(ts, i + k, statement), k),
{
    lemma_skip_is_aligned(ts, k);
    lemma_item_aligned(ts.skip(k), ts, k, 0, i, statement);
}

/// An item that stands in an input at position `i + k` stands at position
/// `i` of the input without its first `k` tokens.
pub proof fn lemma_item_moves_back(ts: Seq<TokenView>, k: int, i: int, statement: bool)
    requires
        0 <= k <= ts.len(),
        0 <= i,
    ensures
        carried(item(ts, i + k, statement), item(ts.skip(k), i, statement), -k),
{
    lemma_whole_is_aligned(ts, k);
    lemma_item_aligned(ts, ts.skip(k), -k, k, i + k, statement);
}

/// The items that an input without its first `k` tokens parses to are
/// those that follow position `k` in the whole input.
pub proof fn lemma_rest_moves_on(ts: Seq<TokenView>, k: int)
    requires
        0 <= k <= ts.len(),
    ensures
        parse_tokens(ts.skip(k)) matches Ok(es) ==> program(ts, k) == Ok::<
            Seq<ExprView>,
            ParseErrorView,
        >(es),
{
    lemma_skip_is_aligned(ts, k);
    lemma_program_aligned(ts.skip(k), ts, k, 0, 0);
}

/// The items that follow position `k` in an input are those that the
/// input without its first `k` tokens parses to.
pub proof fn lemma_rest_moves_back(ts: Seq<TokenView>, k: int)
    requires
        0 <= k <= ts.len(),
    ensures
        program(ts, k) matches Ok(es) ==> parse_tokens(ts.skip(k)) == Ok::<
            Seq<ExprView>,
            ParseErrorView,
        >(es),
{
    lemma_whole_is_aligned(ts, k);
    lemma_program_aligned(ts, ts.skip(k), -k, k, k);
}

/// Parsing is position independent: what follows the first `k` tokens of
/// an input parses, as part of the whole, just when it parses by itself,
/// and to the same trees.
pub proof fn lemma_rest_parses_alike(ts: Seq<TokenView>, k: int)
    requires
        0 <= k <= ts.len(),
    ensures
        parse_tokens(ts.skip(k)) is Ok <==> program(ts, k) is Ok,
        parse_tokens(ts.skip(k)) is Ok ==> parse_tokens(ts.skip(k)) == program(ts, k),
{
    lemma_rest_moves_on(ts, k);
    lemma_rest_moves_back(ts, k);
}

} // verus!
