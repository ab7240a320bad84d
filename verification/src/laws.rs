//! What holds of the compiler as a whole: laws of the grammar and of the
//! lowering, each proved from the definitions.
use vstd::prelude::*;
use crate::ast::{AccessModifier, ClassView, ExprView, TypeView};
use crate::grammar::{
    additive, additive_rest, is_additive_op, is_multiplicative_op, is_reserved, member,
    member_call, member_call_rest, member_rest, multiplicative, multiplicative_rest, parse_tokens,
    primary, token_at, ParseErrorView,
};
use crate::lowering::{
    after, before, both, class_head_text, class_text, first_foreign_member, has_access,
    kind_of, method_text, section_text, type_text, EmitError, Text,
};
use crate::token::{tokens_view, Token, TokenView};

verus! {

/// The text of a pointer type is the text of the type it points to,
/// followed by a star.
pub proof fn lemma_pointer_text(t: TypeView)
    ensures
        type_text(TypeView::Pointer(Box::new(t))) == type_text(t) + seq!['*'],
{
    reveal_strlit("*");
    assert("*"@ =~= seq!['*']);
}

/// Parsing depends on the tokens alone: two token sequences that hold the
/// same tokens in the same order have the same result, whatever else
/// differs between them and whatever was parsed before.
pub proof fn lemma_parse_deterministic(a: Seq<Token>, b: Seq<Token>)
    requires
        tokens_view(a) == tokens_view(b),
    ensures
        parse_tokens(tokens_view(a)) == parse_tokens(tokens_view(b)),
{
}

/// A token that is an operand by itself: a number, a text, or a word that
/// is not reserved.
pub open spec fn is_operand(t: TokenView) -> bool {
    match t {
        TokenView::Int(_) => true,
        TokenView::String(_) => true,
        TokenView::Word(w) => !is_reserved(w),
        _ => false,
    }
}

/// The node that an operand token stands for.
pub open spec fn operand(t: TokenView) -> ExprView {
    match t {
        TokenView::Int(n) => ExprView::Int(n),
        TokenView::String(s) => ExprView::String(s),
        TokenView::Word(w) => ExprView::Variable(w),
        _ => ExprView::Empty,
    }
}

/// Whether the token at position `i`, if there is one, carries an
/// expression on: an operator, a `.` or a `->`.
pub open spec fn continues_expression(ts: Seq<TokenView>, i: int) -> bool {
    match token_at(ts, i) {
        Some(t) => is_additive_op(t) || is_multiplicative_op(t) || t is Dot || t is LeftArrow,
        None => false,
    }
}

proof fn lemma_operand_is_member(ts: Seq<TokenView>, i: int)
    requires
        0 <= i < ts.len(),
        is_operand(ts[i]),
        !(token_at(ts, i + 1) matches Some(t) && (t is Dot || t is LeftArrow)),
    ensures
        member(ts, i) == Ok::<(ExprView, int), ParseErrorView>((operand(ts[i]), i + 1)),
{
    assert(primary(ts, i) == Ok::<(ExprView, int), ParseErrorView>((operand(ts[i]), i + 1)));
    assert(member_call_rest(ts, i + 1, operand(ts[i])) == Ok::<(ExprView, int), ParseErrorView>(
        (operand(ts[i]), i + 1),
    ));
    assert(member_call(ts, i) == Ok::<(ExprView, int), ParseErrorView>((operand(ts[i]), i + 1)));
    assert(member_rest(ts, i + 1, operand(ts[i])) == Ok::<(ExprView, int), ParseErrorView>(
        (operand(ts[i]), i + 1),
    ));
}

/// Multiplication binds tighter than addition: `a + b * c`, with any
/// additive operator for `+`, any multiplicative one for `*` and single
/// tokens for the operands, is the sum of `a` and the product of `b` and
/// `c`, provided that the expression ends after `c`.
pub proof fn lemma_precedence(ts: Seq<TokenView>, i: int)
    requires
        0 <= i,
        i + 5 <= ts.len(),
        is_operand(ts[i]),
        is_additive_op(ts[i + 1]),
        is_operand(ts[i + 2]),
        is_multiplicative_op(ts[i + 3]),
        is_operand(ts[i + 4]),
        !continues_expression(ts, i + 5),
    ensures
        additive(ts, i) == Ok::<(ExprView, int), ParseErrorView>(
            (
                ExprView::BinaryOp(
                    Box::new(operand(ts[i])),
                    ts[i + 1],
                    Box::new(
                        ExprView::BinaryOp(
                            Box::new(operand(ts[i + 2])),
                            ts[i + 3],
                            Box::new(operand(ts[i + 4])),
                        ),
                    ),
                ),
                i + 5,
            ),
        ),
{
    let a = operand(ts[i]);
    let b = operand(ts[i + 2]);
    let c = operand(ts[i + 4]);
    let product = ExprView::BinaryOp(Box::new(b), ts[i + 3], Box::new(c));
    let sum = ExprView::BinaryOp(Box::new(a), ts[i + 1], Box::new(product));
    lemma_operand_is_member(ts, i);
    lemma_operand_is_member(ts, i + 2);
    lemma_operand_is_member(ts, i + 4);
    assert(multiplicative_rest(ts, i + 1, a) == Ok::<(ExprView, int), ParseErrorView>((a, i + 1)));
    assert(multiplicative(ts, i) == Ok::<(ExprView, int), ParseErrorView>((a, i + 1)));
    assert(multiplicative_rest(ts, i + 5, product) == Ok::<(ExprView, int), ParseErrorView>(
        (product, i + 5),
    ));
    assert(multiplicative_rest(ts, i + 3, b) == Ok::<(ExprView, int), ParseErrorView>(
        (product, i + 5),
    ));
    assert(multiplicative(ts, i + 2) == Ok::<(ExprView, int), ParseErrorView>((product, i + 5)));
    assert(additive_rest(ts, i + 5, sum) == Ok::<(ExprView, int), ParseErrorView>((sum, i + 5)));
    assert(additive_rest(ts, i + 1, a) == Ok::<(ExprView, int), ParseErrorView>((sum, i + 5)));
}


/// The test for a method with the access `access`.
pub open spec fn is_method_with(access: AccessModifier) -> spec_fn(ExprView) -> bool {
    |m: ExprView| m is ClassFunction && m->ClassFunction_0.access == access
}

/// The texts of the methods `ms`, one after the other.
pub open spec fn methods_text(ms: Seq<ExprView>) -> Text
    decreases ms.len(),
{
    if ms.len() == 0 {
        Ok(Seq::empty())
    } else {
        match ms[0] {
            ExprView::ClassFunction(f) => both(method_text(f), methods_text(ms.drop_first())),
            other => Err(EmitError::UnexpectedNode(kind_of(other))),
        }
    }
}

/// `label` if `ms` is not empty, and nothing if it is.
pub open spec fn label_for(ms: Seq<ExprView>, label: Seq<char>) -> Seq<char> {
    if ms.len() > 0 {
        label
    } else {
        Seq::empty()
    }
}

proof fn lemma_filter_head(members: Seq<ExprView>, pred: spec_fn(ExprView) -> bool)
    requires
        members.len() > 0,
    ensures
        members.filter(pred) == (if pred(members[0]) {
            seq![members[0]] + members.drop_first().filter(pred)
        } else {
            members.drop_first().filter(pred)
        }),
{
    let head = seq![members[0]];
    assert(members =~= head + members.drop_first());
    Seq::filter_distributes_over_add(head, members.drop_first(), pred);
    reveal_with_fuel(Seq::filter, 2);
    assert(head.drop_last() =~= Seq::<ExprView>::empty());
    assert(head.last() == members[0]);
    if pred(members[0]) {
        assert(head.filter(pred) =~= head);
    } else {
        assert(head.filter(pred) =~= Seq::<ExprView>::empty());
        assert(Seq::<ExprView>::empty() + members.drop_first().filter(pred)
            =~= members.drop_first().filter(pred));
    }
}

/// A section of a class is the methods with its access, filtered out of
/// the members in their order and lowered one after the other.
pub proof fn lemma_section_is_filter(members: Seq<ExprView>, access: AccessModifier)
    ensures
        section_text(members, access) == methods_text(members.filter(is_method_with(access))),
    decreases members.len(),
{
    let pred = is_method_with(access);
    if members.len() == 0 {
        reveal_with_fuel(Seq::filter, 1);
        assert(members.filter(pred) =~= Seq::<ExprView>::empty());
    } else {
        lemma_section_is_filter(members.drop_first(), access);
        lemma_filter_head(members, pred);
        let rest = members.drop_first().filter(pred);
        if pred(members[0]) {
            let kept = seq![members[0]] + rest;
            assert(kept[0] == members[0]);
            assert(kept.drop_first() =~= rest);
        }
    }
}

/// A class has a method with a given access just when filtering for that
/// access leaves something.
pub proof fn lemma_has_access_is_filter(members: Seq<ExprView>, access: AccessModifier)
    ensures
        has_access(members, access) == (members.filter(is_method_with(access)).len() > 0),
{
    let pred = is_method_with(access);
    let kept = members.filter(pred);
    if has_access(members, access) {
        let i = choose|i: int|
            0 <= i < members.len() && (#[trigger] members[i]) is ClassFunction
                && members[i]->ClassFunction_0.access == access;
        assert(pred(members[i]));
        members.lemma_filter_contains(pred, i);
    }
    if kept.len() > 0 {
        members.lemma_filter_pred(pred, 0);
        assert(kept.contains(kept[0]));
        members.lemma_filter_contains_rev(pred, kept[0]);
        let i = choose|i: int| 0 <= i < members.len() && members[i] == kept[0];
        assert(members[i] is ClassFunction && members[i]->ClassFunction_0.access == access);
    }
}

/// The text of a class is partitioned by access: after the first line
/// come all public methods, then all private methods, each group in the
/// order of the source, and `public:` or `private:` stands before a group
/// only if the group is not empty.
pub proof fn lemma_class_partition(c: ClassView)
    requires
        first_foreign_member(c.methods) is None,
    ensures
        class_text(c) == before(
            both(
                after(
                    class_head_text(c) + label_for(
                        c.methods.filter(is_method_with(AccessModifier::Public)),
                        "public:\n"@,
                    ),
                    methods_text(c.methods.filter(is_method_with(AccessModifier::Public))),
                ),
                after(
                    label_for(
                        c.methods.filter(is_method_with(AccessModifier::Private)),
                        "private:\n"@,
                    ),
                    methods_text(c.methods.filter(is_method_with(AccessModifier::Private))),
                ),
            ),
            "};\n"@,
        ),
{
    lemma_section_is_filter(c.methods, AccessModifier::Public);
    lemma_section_is_filter(c.methods, AccessModifier::Private);
    lemma_has_access_is_filter(c.methods, AccessModifier::Public);
    lemma_has_access_is_filter(c.methods, AccessModifier::Private);
}

} // verus!
