//! What holds of every tree that the grammar yields: it is well formed,
//! and reading it took at least one token and none beyond the input.
use vstd::prelude::*;
use crate::ast::{all_well_formed, well_formed, ExprView};
use crate::grammar::{
    additive, additive_rest, arguments, block_items, braced_block, call, class_body, class_def,
    class_members, function, holds, item, lemma_params_bounds, lemma_type_expr_advances, member,
    member_call, member_call_rest, member_rest, method, multiplicative, multiplicative_rest,
    new_expr, parse_tokens, past, primary, program, return_statement, token_at, type_expr,
    variable, Parsed,
};
use crate::token::TokenView;

verus! {

/// `r`, if it holds a node, holds a well-formed one and ends after
/// position `i`, inside the input.
pub open spec fn sound(ts: Seq<TokenView>, i: int, r: Parsed<ExprView>) -> bool {
    r matches Ok((e, j)) ==> i < j <= ts.len() && well_formed(e)
}

/// `r`, if it holds a list, holds well-formed nodes and ends at position
/// `i` or after it, inside the input if it moved at all.
pub open spec fn sound_list(ts: Seq<TokenView>, i: int, r: Parsed<Seq<ExprView>>) -> bool {
    r matches Ok((es, j)) ==> i <= j && (j <= ts.len() || j == i) && all_well_formed(es)
}

proof fn lemma_cons_well_formed(first: ExprView, rest: Seq<ExprView>)
    requires
        well_formed(first),
        all_well_formed(rest),
    ensures
        all_well_formed(seq![first] + rest),
{
    let whole = seq![first] + rest;
    assert forall|i: int| 0 <= i < whole.len() implies well_formed(#[trigger] whole[i]) by {
        if i > 0 {
            assert(whole[i] == rest[i - 1]);
        }
    }
}

/// A primary expression is sound.
pub proof fn lemma_primary(ts: Seq<TokenView>, i: int)
    ensures
        sound(ts, i, primary(ts, i)),
    decreases ts.len() - i, 1int,
{
    match token_at(ts, i) {
        Some(TokenView::Word(w)) => {
            lemma_new_expr(ts, i);
        },
        Some(TokenView::LeftParen) => {
            lemma_item(ts, i + 1, false);
        },
        Some(TokenView::LeftCurly) => {
            lemma_braced_block(ts, i);
        },
        _ => {},
    }
}

/// A `new` expression is sound.
pub proof fn lemma_new_expr(ts: Seq<TokenView>, i: int)
    ensures
        sound(ts, i, new_expr(ts, i)),
    decreases ts.len() - i, 0int,
{
    if holds(ts, i, TokenView::Word("new"@)) && holds(ts, i + 2, TokenView::LeftParen) {
        lemma_arguments(ts, i + 3);
    }
}

/// Arguments are sound.
pub proof fn lemma_arguments(ts: Seq<TokenView>, i: int)
    ensures
        sound_list(ts, i, arguments(ts, i)),
    decreases ts.len() - i, 7int,
{
    if !(token_at(ts, i) is None || holds(ts, i, TokenView::RightParen)) {
        lemma_item(ts, i, false);
        match past(ts, i, item(ts, i, false)) {
            Ok((first, j)) => {
                let k = if holds(ts, j, TokenView::Comma) {
                    j + 1
                } else {
                    j
                };
                lemma_arguments(ts, k);
                match arguments(ts, k) {
                    Ok((rest, _)) => {
                        lemma_cons_well_formed(first, rest);
                    },
                    Err(_) => {},
                }
            },
            Err(_) => {},
        }
    }
}

/// A method-call expression is sound.
pub proof fn lemma_member_call(ts: Seq<TokenView>, i: int)
    ensures
        sound(ts, i, member_call(ts, i)),
    decreases ts.len() - i, 2int,
{
    lemma_primary(ts, i);
    match past(ts, i, primary(ts, i)) {
        Ok((object, j)) => {
            lemma_member_call_rest(ts, j, object);
        },
        Err(_) => {},
    }
}

/// Method calls applied to a well-formed object give a well-formed node
/// and end inside the input.
pub proof fn lemma_member_call_rest(ts: Seq<TokenView>, i: int, object: ExprView)
    requires
        0 <= i <= ts.len(),
        well_formed(object),
    ensures
        member_call_rest(ts, i, object) matches Ok((e, j)) ==> i <= j <= ts.len() && well_formed(
            e,
        ),
    decreases ts.len() - i, 0int,
{
    if holds(ts, i, TokenView::LeftArrow) && holds(ts, i + 2, TokenView::LeftParen) {
        lemma_arguments(ts, i + 3);
        match past(ts, i + 2, arguments(ts, i + 3)) {
            Ok((args, j)) => {
                if holds(ts, j, TokenView::RightParen) {
                    match crate::grammar::expect_word(ts, i + 1) {
                        Ok((name, _)) => {
                            lemma_member_call_rest(
                                ts,
                                j + 1,
                                ExprView::MemberFunctionCall(
                                    Box::new(object),
                                    crate::ast::FunctionCallView { name, args },
                                ),
                            );
                        },
                        Err(_) => {},
                    }
                }
            },
            Err(_) => {},
        }
    }
}

/// Field accesses applied to a well-formed object give a well-formed node
/// and end inside the input.
pub proof fn lemma_member_rest(ts: Seq<TokenView>, i: int, object: ExprView)
    requires
        0 <= i <= ts.len(),
        well_formed(object),
    ensures
        member_rest(ts, i, object) matches Ok((e, j)) ==> i <= j <= ts.len() && well_formed(e),
    decreases ts.len() - i,
{
    if holds(ts, i, TokenView::Dot) {
        match crate::grammar::expect_word(ts, i + 1) {
            Ok((field, _)) => {
                lemma_member_rest(ts, i + 2, ExprView::Member(Box::new(object), field));
            },
            Err(_) => {},
        }
    }
}

/// A member expression is sound.
pub proof fn lemma_member(ts: Seq<TokenView>, i: int)
    ensures
        sound(ts, i, member(ts, i)),
    decreases ts.len() - i, 3int,
{
    lemma_member_call(ts, i);
    match member_call(ts, i) {
        Ok((object, j)) => {
            lemma_member_rest(ts, j, object);
        },
        Err(_) => {},
    }
}

/// A multiplicative expression is sound.
pub proof fn lemma_multiplicative(ts: Seq<TokenView>, i: int)
    ensures
        sound(ts, i, multiplicative(ts, i)),
    decreases ts.len() - i, 4int,
{
    lemma_member(ts, i);
    match past(ts, i, member(ts, i)) {
        Ok((lhs, j)) => {
            lemma_multiplicative_rest(ts, j, lhs);
        },
        Err(_) => {},
    }
}

/// Factors joined to a well-formed left side give a well-formed node and
/// end inside the input.
pub proof fn lemma_multiplicative_rest(ts: Seq<TokenView>, i: int, lhs: ExprView)
    requires
        0 <= i <= ts.len(),
        well_formed(lhs),
    ensures
        multiplicative_rest(ts, i, lhs) matches Ok((e, j)) ==> i <= j <= ts.len() && well_formed(
            e,
        ),
    decreases ts.len() - i, 0int,
{
    match token_at(ts, i) {
        Some(op) => {
            if crate::grammar::is_multiplicative_op(op) {
                lemma_member(ts, i + 1);
                match past(ts, i, member(ts, i + 1)) {
                    Ok((rhs, j)) => {
                        lemma_multiplicative_rest(
                            ts,
                            j,
                            ExprView::BinaryOp(Box::new(lhs), op, Box::new(rhs)),
                        );
                    },
                    Err(_) => {},
                }
            }
        },
        None => {},
    }
}

/// An additive expression is sound.
pub proof fn lemma_additive(ts: Seq<TokenView>, i: int)
    ensures
        sound(ts, i, additive(ts, i)),
    decreases ts.len() - i, 5int,
{
    lemma_multiplicative(ts, i);
    match past(ts, i, multiplicative(ts, i)) {
        Ok((lhs, j)) => {
            lemma_additive_rest(ts, j, lhs);
        },
        Err(_) => {},
    }
}

/// Terms joined to a well-formed left side give a well-formed node and
/// end inside the input.
pub proof fn lemma_additive_rest(ts: Seq<TokenView>, i: int, lhs: ExprView)
    requires
        0 <= i <= ts.len(),
        well_formed(lhs),
    ensures
        additive_rest(ts, i, lhs) matches Ok((e, j)) ==> i <= j <= ts.len() && well_formed(e),
    decreases ts.len() - i, 0int,
{
    match token_at(ts, i) {
        Some(op) => {
            if crate::grammar::is_additive_op(op) {
                lemma_multiplicative(ts, i + 1);
                match past(ts, i, multiplicative(ts, i + 1)) {
                    Ok((rhs, j)) => {
                        lemma_additive_rest(
                            ts,
                            j,
                            ExprView::BinaryOp(Box::new(lhs), op, Box::new(rhs)),
                        );
                    },
                    Err(_) => {},
                }
            }
        },
        None => {},
    }
}

/// An item is sound.
pub proof fn lemma_item(ts: Seq<TokenView>, i: int, statement: bool)
    ensures
        sound(ts, i, item(ts, i, statement)),
    decreases ts.len() - i, 6int,
{
    match token_at(ts, i) {
        Some(TokenView::Word(w)) => {
            lemma_class_def(ts, i);
            lemma_function(ts, i, false);
            lemma_return_statement(ts, i);
            lemma_variable(ts, i, false);
            lemma_variable(ts, i, true);
            lemma_new_expr(ts, i);
            lemma_call(ts, i, statement);
            lemma_additive(ts, i);
        },
        Some(TokenView::LeftCurly) => {
            lemma_braced_block(ts, i);
        },
        _ => {
            lemma_additive(ts, i);
        },
    }
}

/// The items of a block are sound.
pub proof fn lemma_block_items(ts: Seq<TokenView>, i: int)
    ensures
        sound_list(ts, i, block_items(ts, i)),
    decreases ts.len() - i, 7int,
{
    if !(token_at(ts, i) is None || holds(ts, i, TokenView::RightCurly)) {
        lemma_item(ts, i, true);
        match past(ts, i, item(ts, i, true)) {
            Ok((first, j)) => {
                lemma_block_items(ts, j);
                match block_items(ts, j) {
                    Ok((rest, _)) => {
                        lemma_cons_well_formed(first, rest);
                    },
                    Err(_) => {},
                }
            },
            Err(_) => {},
        }
    }
}

/// A block in braces is sound, and is a block.
pub proof fn lemma_braced_block(ts: Seq<TokenView>, i: int)
    ensures
        sound(ts, i, braced_block(ts, i)),
        braced_block(ts, i) matches Ok((e, _)) ==> e is Block,
    decreases ts.len() - i, 0int,
{
    if holds(ts, i, TokenView::LeftCurly) {
        lemma_block_items(ts, i + 1);
    }
}

/// A call is sound.
pub proof fn lemma_call(ts: Seq<TokenView>, i: int, statement: bool)
    ensures
        sound(ts, i, call(ts, i, statement)),
    decreases ts.len() - i, 0int,
{
    if token_at(ts, i) is Some && holds(ts, i + 1, TokenView::LeftParen) {
        lemma_arguments(ts, i + 2);
    }
}

/// A `return` statement is sound.
pub proof fn lemma_return_statement(ts: Seq<TokenView>, i: int)
    ensures
        sound(ts, i, return_statement(ts, i)),
    decreases ts.len() - i, 0int,
{
    if holds(ts, i, TokenView::Word("return"@)) {
        if holds(ts, i + 1, TokenView::Semicolon) {
            assert(well_formed(ExprView::Empty));
        } else {
            lemma_item(ts, i + 1, false);
        }
    }
}

/// A variable declaration is sound.
pub proof fn lemma_variable(ts: Seq<TokenView>, i: int, constant: bool)
    ensures
        sound(ts, i, variable(ts, i, constant)),
    decreases ts.len() - i, 0int,
{
    if token_at(ts, i) is Some {
        lemma_type_expr_advances(ts, i + 3);
        match type_expr(ts, i + 3) {
            Ok((_, j)) => {
                if holds(ts, j, TokenView::Equal) {
                    lemma_item(ts, j + 1, false);
                }
            },
            Err(_) => {},
        }
    }
}

/// A function that the grammar yields has a block for a body, or has no
/// body and ends with the `;` that stood in its place; and a declaration
/// never has a body.
pub proof fn lemma_function(ts: Seq<TokenView>, i: int, declaration_only: bool)
    ensures
        function(ts, i, declaration_only) matches Ok((f, j)) ==> {
            &&& i < j <= ts.len()
            &&& well_formed(*f.body)
            &&& *f.body is Block || (*f.body is Empty && ts[j - 1] == TokenView::Semicolon)
            &&& declaration_only ==> *f.body is Empty
        },
    decreases ts.len() - i, 0int,
{
    if holds(ts, i, TokenView::Word("function"@)) && holds(ts, i + 2, TokenView::LeftParen) {
        lemma_params_bounds(ts, i + 3);
        match crate::grammar::params(ts, i + 3) {
            Ok((_, j)) => {
                if holds(ts, j, TokenView::RightParen) && holds(ts, j + 1, TokenView::LeftArrow) {
                    lemma_type_expr_advances(ts, j + 2);
                    match type_expr(ts, j + 2) {
                        Ok((_, k)) => {
                            if holds(ts, k, TokenView::Semicolon) {
                                assert(well_formed(ExprView::Empty));
                            } else if !declaration_only {
                                lemma_braced_block(ts, k);
                            }
                        },
                        Err(_) => {},
                    }
                }
            },
            Err(_) => {},
        }
    }
}

/// A method that the grammar yields has at most one of `virtual`,
/// `override` and `external`, and no body if it is external.
pub proof fn lemma_method(ts: Seq<TokenView>, i: int)
    ensures
        sound(ts, i, method(ts, i)),
        method(ts, i) matches Ok((e, _)) ==> e is ClassFunction,
    decreases ts.len() - i, 1int,
{
    let (_, j) = crate::grammar::access_modifier(ts, i);
    let is_virtual = crate::grammar::holds_word(ts, j, "virtual"@);
    let is_override = !is_virtual && crate::grammar::holds_word(ts, j, "override"@);
    let is_external = !is_virtual && !is_override && crate::grammar::holds_word(
        ts,
        j,
        "external"@,
    );
    let k = if is_virtual || is_override || is_external {
        j + 1
    } else {
        j
    };
    lemma_function(ts, k, is_external);
}

/// The members of a class are sound, and each is a method.
pub proof fn lemma_class_members(ts: Seq<TokenView>, i: int)
    ensures
        sound_list(ts, i, class_members(ts, i)),
        class_members(ts, i) matches Ok((es, _)) ==> forall|k: int|
            0 <= k < es.len() ==> (#[trigger] es[k]) is ClassFunction,
    decreases ts.len() - i, 2int,
{
    if !(token_at(ts, i) is None || holds(ts, i, TokenView::RightCurly)) {
        lemma_method(ts, i);
        match past(ts, i, method(ts, i)) {
            Ok((first, j)) => {
                lemma_class_members(ts, j);
                match class_members(ts, j) {
                    Ok((rest, _)) => {
                        lemma_cons_well_formed(first, rest);
                        let whole = seq![first] + rest;
                        assert forall|k: int| 0 <= k < whole.len() implies (
                        #[trigger] whole[k]) is ClassFunction by {
                            if k > 0 {
                                assert(whole[k] == rest[k - 1]);
                            }
                        }
                    },
                    Err(_) => {},
                }
            },
            Err(_) => {},
        }
    }
}

/// The members between the braces of a class are sound, and each is a
/// method.
pub proof fn lemma_class_body(ts: Seq<TokenView>, i: int)
    ensures
        class_body(ts, i) matches Ok((es, j)) ==> i < j <= ts.len() && all_well_formed(es)
            && forall|k: int| 0 <= k < es.len() ==> (#[trigger] es[k]) is ClassFunction,
    decreases ts.len() - i, 0int,
{
    if holds(ts, i, TokenView::LeftCurly) {
        lemma_class_members(ts, i + 1);
    }
}

/// A class definition is sound.
pub proof fn lemma_class_def(ts: Seq<TokenView>, i: int)
    ensures
        sound(ts, i, class_def(ts, i)),
    decreases ts.len() - i, 0int,
{
    if holds(ts, i, TokenView::Word("class"@)) {
        match crate::grammar::base_clause(ts, i + 2) {
            Ok((_, j)) => {
                if holds(ts, j, TokenView::LeftCurly) {
                    assert(j == i + 2 || j == i + 4);
                    lemma_class_body(ts, j);
                }
            },
            Err(_) => {},
        }
    }
}

/// The items of a whole input are well formed.
pub proof fn lemma_program(ts: Seq<TokenView>, i: int)
    ensures
        program(ts, i) matches Ok(es) ==> all_well_formed(es),
    decreases ts.len() - i,
{
    if 0 <= i < ts.len() {
        lemma_item(ts, i, true);
        match past(ts, i, item(ts, i, true)) {
            Ok((first, j)) => {
                lemma_program(ts, j);
                match program(ts, j) {
                    Ok(rest) => {
                        lemma_cons_well_formed(first, rest);
                    },
                    Err(_) => {},
                }
            },
            Err(_) => {},
        }
    }
}

/// Every tree that parsing yields is well formed: at any depth, a method
/// has at most one of `virtual`, `override` and `external`, and a
/// function has a block for a body or none.
pub proof fn lemma_parsed_trees_are_well_formed(ts: Seq<TokenView>)
    ensures
        parse_tokens(ts) matches Ok(es) ==> all_well_formed(es),
{
    lemma_program(ts, 0);
}


/// The guard [`past`] is idle: wherever the grammar applies it, it hands
/// the result on unchanged.
pub proof fn lemma_past_is_idle(ts: Seq<TokenView>, i: int, statement: bool)
    ensures
        past(ts, i, item(ts, i, statement)) == item(ts, i, statement),
        past(ts, i, method(ts, i)) == method(ts, i),
        past(ts, i, primary(ts, i)) == primary(ts, i),
        past(ts, i, member(ts, i)) == member(ts, i),
        past(ts, i, multiplicative(ts, i)) == multiplicative(ts, i),
        past(ts, i - 1, member(ts, i)) == member(ts, i),
        past(ts, i - 1, multiplicative(ts, i)) == multiplicative(ts, i),
        i <= ts.len() ==> past(ts, i - 1, arguments(ts, i)) == arguments(ts, i),
{
    lemma_item(ts, i, statement);
    lemma_method(ts, i);
    lemma_primary(ts, i);
    lemma_member(ts, i);
    lemma_multiplicative(ts, i);
    lemma_arguments(ts, i);
}

} // verus!
