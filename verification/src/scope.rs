//! The declarations of a syntax tree: which classes and variables it
//! declares, in the order in which their declarations end.
use vstd::prelude::*;
use crate::ast::{ClassView, ExprView, VariableDeclarationView};

verus! {

/// The classes that `e` declares. A class that stands inside another
/// declaration comes before it.
pub open spec fn declared_classes(e: ExprView) -> Seq<ClassView>
    decreases e,
{
    match e {
        ExprView::Class(c) => declared_classes_all(c.methods).push(c),
        ExprView::ClassFunction(f) => declared_classes(*f.body),
        ExprView::Function(f) => declared_classes(*f.body),
        ExprView::Block(b) => declared_classes_all(b.exprs),
        ExprView::FunctionCall(c) => declared_classes_all(c.args),
        ExprView::InternalFunctionCall(c) => declared_classes_all(c.args),
        ExprView::Return(value) => declared_classes(*value),
        ExprView::VariableDeclaration(d) => declared_classes(*d.value),
        ExprView::New(n) => declared_classes_all(n.args),
        ExprView::BinaryOp(lhs, _, rhs) => declared_classes(*lhs) + declared_classes(*rhs),
        ExprView::Member(object, _) => declared_classes(*object),
        ExprView::MemberFunctionCall(object, c) => declared_classes(*object)
            + declared_classes_all(c.args),
        _ => Seq::empty(),
    }
}

/// The classes that the nodes of `es` declare, node after node.
pub open spec fn declared_classes_all(es: Seq<ExprView>) -> Seq<ClassView>
    decreases es,
{
    if es.len() == 0 {
        Seq::empty()
    } else {
        declared_classes_all(es.drop_last()) + declared_classes(es.last())
    }
}

/// The variables that `e` declares. A variable declared inside the value
/// of another comes before it.
pub open spec fn declared_variables(e: ExprView) -> Seq<VariableDeclarationView>
    decreases e,
{
    match e {
        ExprView::Class(c) => declared_variables_all(c.methods),
        ExprView::ClassFunction(f) => declared_variables(*f.body),
        ExprView::Function(f) => declared_variables(*f.body),
        ExprView::Block(b) => declared_variables_all(b.exprs),
        ExprView::FunctionCall(c) => declared_variables_all(c.args),
        ExprView::InternalFunctionCall(c) => declared_variables_all(c.args),
        ExprView::Return(value) => declared_variables(*value),
        ExprView::VariableDeclaration(d) => declared_variables(*d.value).push(d),
        ExprView::New(n) => declared_variables_all(n.args),
        ExprView::BinaryOp(lhs, _, rhs) => declared_variables(*lhs) + declared_variables(*rhs),
        ExprView::Member(object, _) => declared_variables(*object),
        ExprView::MemberFunctionCall(object, c) => declared_variables(*object)
            + declared_variables_all(c.args),
        _ => Seq::empty(),
    }
}

/// The variables that the nodes of `es` declare, node after node.
pub open spec fn declared_variables_all(es: Seq<ExprView>) -> Seq<VariableDeclarationView>
    decreases es,
{
    if es.len() == 0 {
        Seq::empty()
    } else {
        declared_variables_all(es.drop_last()) + declared_variables(es.last())
    }
}

/// `table` after each class of `classes` was entered under its name, in
/// order: a later class replaces an earlier one of the same name.
pub open spec fn with_classes(
    table: Map<Seq<char>, ClassView>,
    classes: Seq<ClassView>,
) -> Map<Seq<char>, ClassView>
    decreases classes.len(),
{
    if classes.len() == 0 {
        table
    } else {
        with_classes(table, classes.drop_last()).insert(classes.last().name, classes.last())
    }
}

/// `table` after each declaration of `variables` was entered under its
/// name, in order.
pub open spec fn with_variables(
    table: Map<Seq<char>, VariableDeclarationView>,
    variables: Seq<VariableDeclarationView>,
) -> Map<Seq<char>, VariableDeclarationView>
    decreases variables.len(),
{
    if variables.len() == 0 {
        table
    } else {
        with_variables(table, variables.drop_last()).insert(
            variables.last().name,
            variables.last(),
        )
    }
}

/// Entering two runs of classes one after the other is entering their
/// concatenation.
pub proof fn lemma_with_classes_concat(
    table: Map<Seq<char>, ClassView>,
    a: Seq<ClassView>,
    b: Seq<ClassView>,
)
    ensures
        with_classes(with_classes(table, a), b) == with_classes(table, a + b),
    decreases b.len(),
{
    if b.len() == 0 {
        assert(a + b =~= a);
    } else {
        lemma_with_classes_concat(table, a, b.drop_last());
        assert((a + b).drop_last() =~= a + b.drop_last());
    }
}

/// Entering two runs of variables one after the other is entering their
/// concatenation.
pub proof fn lemma_with_variables_concat(
    table: Map<Seq<char>, VariableDeclarationView>,
    a: Seq<VariableDeclarationView>,
    b: Seq<VariableDeclarationView>,
)
    ensures
        with_variables(with_variables(table, a), b) == with_variables(table, a + b),
    decreases b.len(),
{
    if b.len() == 0 {
        assert(a + b =~= a);
    } else {
        lemma_with_variables_concat(table, a, b.drop_last());
        assert((a + b).drop_last() =~= a + b.drop_last());
    }
}

} // verus!
