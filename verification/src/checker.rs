//! The type checker: walks free functions, blocks and variable
//! declarations, and holds each declaration to the rules of
//! [`typing`](crate::typing).
use vstd::prelude::*;
use crate::ast::{
    class_views, exprs_view, Class, Expr, ExprView, Function, Type, VariableDeclaration,
};
use crate::emitter::node_kind;
use crate::table::Table;
use crate::typing;
use crate::typing::{TypeCheckError, TypeCheckErrorView};

verus! {

/// What a checking call returned, with the error taken by its view.
pub open spec fn checked_view(r: Result<(), TypeCheckError>) -> Result<(), TypeCheckErrorView> {
    match r {
        Ok(_) => Ok(()),
        Err(e) => Err(e@),
    }
}

/// The type of a value, or the kind of a value that has none yet.
pub fn type_checker_get_type(e: &Expr) -> (r: Result<Type, TypeCheckError>)
    ensures
        match r {
            Ok(t) => typing::inferred_type(e@) == Ok::<_, crate::lowering::NodeKind>(t@),
            Err(err) => typing::inferred_type(e@) is Err && err@
                == TypeCheckErrorView::NotYetImplemented(typing::inferred_type(e@)->Err_0),
        },
{
    match e {
        Expr::Int(_) => Ok(Type::Int),
        Expr::String(_) => Ok(Type::String),
        Expr::New(n) => {
            let class = Type::Class(n.class_name.clone());
            assert(class@ == crate::ast::TypeView::Class(n.class_name@));
            Ok(Type::Pointer(Box::new(class)))
        },
        other => Err(TypeCheckError::NotYetImplemented(node_kind(other))),
    }
}

/// Whether `target` is `from` or one of its base classes, direct or not.
pub fn derives(classes: &Table<Class>, from: &String, target: &String) -> (r: bool)
    requires
        classes.wf(),
    ensures
        r == typing::derives_from(class_views(classes.map()), from@, target@),
{
    let ghost table = class_views(classes.map());
    let mut current = from.clone();
    let mut steps: usize = classes.len();
    proof {
        classes.lemma_domain_size();
        assert(table.dom() =~= classes.map().dom());
        typing::lemma_derives_within(table, from@, target@, steps as nat);
    }
    loop
        invariant
            classes.wf(),
            table == class_views(classes.map()),
            typing::derives_from(table, from@, target@) == typing::climbs_to(
                table,
                current@,
                target@,
                steps as nat,
            ),
        decreases steps,
    {
        if current == *target {
            return true;
        }
        if steps == 0 {
            return false;
        }
        let next = match classes.get(&current) {
            None => {
                return false;
            },
            Some(c) => match &c.base_class {
                None => {
                    return false;
                },
                Some(base) => base.clone(),
            },
        };
        current = next;
        steps -= 1;
    }
}

/// Whether two types match: pointers by what they point to, classes by
/// name or descent, nothing else.
pub fn type_checker_match(classes: &Table<Class>, first: &Type, second: &Type) -> (r: bool)
    requires
        classes.wf(),
    ensures
        r == typing::compatible(class_views(classes.map()), first@, second@),
    decreases first,
{
    match first {
        Type::Pointer(a) => match second {
            Type::Pointer(b) => type_checker_match(classes, a, b),
            _ => false,
        },
        Type::Class(a) => match second {
            Type::Class(b) => derives(classes, a, b) || derives(classes, b, a),
            _ => false,
        },
        _ => false,
    }
}

/// Checks one declaration: the type of its value against its declared
/// type.
pub fn type_check_variable_declaration(classes: &Table<Class>, d: &VariableDeclaration) -> (r:
    Result<(), TypeCheckError>)
    requires
        classes.wf(),
    ensures
        checked_view(r) == typing::check_declaration(class_views(classes.map()), d@),
{
    let found = match type_checker_get_type(&d.value) {
        Ok(t) => t,
        Err(e) => {
            return Err(e);
        },
    };
    if type_checker_match(classes, &d.var_type, &found) {
        Ok(())
    } else {
        Err(TypeCheckError::Mismatch { declared: d.var_type.duplicate(), found })
    }
}

/// Checks a free function: its body.
pub fn type_check_function(classes: &Table<Class>, f: &Function) -> (r: Result<
    (),
    TypeCheckError,
>)
    requires
        classes.wf(),
    ensures
        checked_view(r) == typing::check_expr(class_views(classes.map()), ExprView::Function(f@)),
    decreases f, 0int,
{
    type_check_expr(classes, &f.body)
}

/// Checks one node.
pub fn type_check_expr(classes: &Table<Class>, e: &Expr) -> (r: Result<(), TypeCheckError>)
    requires
        classes.wf(),
    ensures
        checked_view(r) == typing::check_expr(class_views(classes.map()), e@),
    decreases e, 1int,
{
    match e {
        Expr::Function(f) => type_check_function(classes, f),
        Expr::Block(b) => type_check_all(classes, &b.exprs),
        Expr::VariableDeclaration(d) => type_check_variable_declaration(classes, d),
        _ => Ok(()),
    }
}

/// Checks the nodes in order and stops at the first error.
pub fn type_check_all(classes: &Table<Class>, es: &Vec<Expr>) -> (r: Result<(), TypeCheckError>)
    requires
        classes.wf(),
    ensures
        checked_view(r) == typing::check_all(class_views(classes.map()), exprs_view(es@)),
    decreases es, 2int,
{
    let ghost table = class_views(classes.map());
    let ghost all = exprs_view(es@);
    let mut k: usize = 0;
    assert(all.skip(0) =~= all);
    while k < es.len()
        invariant
            classes.wf(),
            table == class_views(classes.map()),
            all == exprs_view(es@),
            k <= es.len(),
            typing::check_all(table, all) == typing::check_all(table, all.skip(k as int)),
        decreases es.len() - k,
    {
        proof {
            assert(all.skip(k as int)[0] == es[k as int]@);
            assert(all.skip(k as int).drop_first() =~= all.skip(k + 1));
            assert(decreases_to!(*es => es[k as int]));
        }
        match type_check_expr(classes, &es[k]) {
            Err(e) => {
                return Err(e);
            },
            Ok(_) => {},
        }
        k += 1;
    }
    Ok(())
}

} // verus!
