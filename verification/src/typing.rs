//! The rules of the type checker.
//!
//! The checker is partial: it looks at free functions, blocks and variable
//! declarations, and only at a declaration does it decide anything. There
//! it compares the declared type with the type of the value.
use vstd::prelude::*;
use crate::ast::{ClassView, ExprView, Type, TypeView, VariableDeclarationView};
use crate::lowering::{kind_of, NodeKind};

verus! {

/// Why a tree does not pass the type checker.
#[derive(Debug, PartialEq)]
pub enum TypeCheckError {
    /// The declared type of a variable and the type of its value do not
    /// match.
    Mismatch { declared: Type, found: Type },
    /// The checker has no rule for the type of a value of this kind.
    NotYetImplemented(NodeKind),
}

/// The mathematical value of a [`TypeCheckError`].
pub enum TypeCheckErrorView {
    Mismatch { declared: TypeView, found: TypeView },
    NotYetImplemented(NodeKind),
}

impl View for TypeCheckError {
    type V = TypeCheckErrorView;

    open spec fn view(&self) -> TypeCheckErrorView {
        match self {
            TypeCheckError::Mismatch { declared, found } => TypeCheckErrorView::Mismatch {
                declared: declared@,
                found: found@,
            },
            TypeCheckError::NotYetImplemented(kind) => TypeCheckErrorView::NotYetImplemented(
                *kind,
            ),
        }
    }
}

/// The type of a value: a number is an `Int`, a text a `String`, and
/// `new C(..)` a pointer to `C`. A value of another kind has no type yet.
pub open spec fn inferred_type(e: ExprView) -> Result<TypeView, NodeKind> {
    match e {
        ExprView::Int(_) => Ok(TypeView::Int),
        ExprView::String(_) => Ok(TypeView::String),
        ExprView::New(n) => Ok(TypeView::Pointer(Box::new(TypeView::Class(n.class_name)))),
        other => Err(kind_of(other)),
    }
}

/// The class `target` is reached from the class `from` by going from a
/// class to its base class at most `steps` times.
pub open spec fn climbs_to(
    classes: Map<Seq<char>, ClassView>,
    from: Seq<char>,
    target: Seq<char>,
    steps: nat,
) -> bool
    decreases steps,
{
    from == target || (steps > 0 && classes.contains_key(from) && classes[from].base_class is Some
        && climbs_to(classes, classes[from].base_class->Some_0, target, (steps - 1) as nat))
}

/// `from` is `target`, or `target` is a base class of `from`, directly or
/// through other base classes.
pub open spec fn derives_from(
    classes: Map<Seq<char>, ClassView>,
    from: Seq<char>,
    target: Seq<char>,
) -> bool {
    exists|steps: nat| climbs_to(classes, from, target, steps)
}

/// Two pointer types match if what they point to matches. Two class types
/// match if they name the same class or one derives from the other.
/// Nothing else matches.
pub open spec fn compatible(
    classes: Map<Seq<char>, ClassView>,
    first: TypeView,
    second: TypeView,
) -> bool
    decreases first,
{
    match (first, second) {
        (TypeView::Pointer(a), TypeView::Pointer(b)) => compatible(classes, *a, *b),
        (TypeView::Class(a), TypeView::Class(b)) => derives_from(classes, a, b) || derives_from(
            classes,
            b,
            a,
        ),
        _ => false,
    }
}

/// A declaration passes if its value has a type and that type matches the
/// declared one.
pub open spec fn check_declaration(
    classes: Map<Seq<char>, ClassView>,
    d: VariableDeclarationView,
) -> Result<(), TypeCheckErrorView> {
    match inferred_type(*d.value) {
        Err(kind) => Err(TypeCheckErrorView::NotYetImplemented(kind)),
        Ok(found) => if compatible(classes, d.var_type, found) {
            Ok(())
        } else {
            Err(TypeCheckErrorView::Mismatch { declared: d.var_type, found })
        },
    }
}

/// A free function passes if its body does, a block if each of its
/// statements does, a declaration by [`check_declaration`]; every other
/// node passes unseen.
pub open spec fn check_expr(classes: Map<Seq<char>, ClassView>, e: ExprView) -> Result<
    (),
    TypeCheckErrorView,
>
    decreases e,
{
    match e {
        ExprView::Function(f) => check_expr(classes, *f.body),
        ExprView::Block(b) => check_all(classes, b.exprs),
        ExprView::VariableDeclaration(d) => check_declaration(classes, d),
        _ => Ok(()),
    }
}

/// The first error among the nodes of `es`, in order, or none.
pub open spec fn check_all(classes: Map<Seq<char>, ClassView>, es: Seq<ExprView>) -> Result<
    (),
    TypeCheckErrorView,
>
    decreases es,
{
    if es.len() == 0 {
        Ok(())
    } else {
        match check_expr(classes, es[0]) {
            Err(e) => Err(e),
            Ok(_) => check_all(classes, es.drop_first()),
        }
    }
}

/// More steps reach whatever fewer steps reach.
pub proof fn lemma_climbs_with_more_steps(
    classes: Map<Seq<char>, ClassView>,
    from: Seq<char>,
    target: Seq<char>,
    steps: nat,
    more: nat,
)
    requires
        climbs_to(classes, from, target, steps),
        steps <= more,
    ensures
        climbs_to(classes, from, target, more),
    decreases steps,
{
    if from != target {
        lemma_climbs_with_more_steps(
            classes,
            classes[from].base_class->Some_0,
            target,
            (steps - 1) as nat,
            (more - 1) as nat,
        );
    }
}


/// The class that stands `i` base-class links above `from`.
pub open spec fn ancestor(classes: Map<Seq<char>, ClassView>, from: Seq<char>, i: nat) -> Seq<char>
    decreases i,
{
    if i == 0 {
        from
    } else {
        classes[ancestor(classes, from, (i - 1) as nat)].base_class->Some_0
    }
}

/// Each of the first `i` classes from `from` upwards is declared and has
/// a base class.
pub open spec fn linked(classes: Map<Seq<char>, ClassView>, from: Seq<char>, i: nat) -> bool {
    forall|j: nat|
        j < i ==> classes.contains_key(#[trigger] ancestor(classes, from, j)) && classes[ancestor(
            classes,
            from,
            j,
        )].base_class is Some
}

proof fn lemma_ancestor_shift(classes: Map<Seq<char>, ClassView>, from: Seq<char>, k: nat)
    ensures
        ancestor(classes, from, k + 1) == ancestor(
            classes,
            classes[from].base_class->Some_0,
            k,
        ),
    decreases k,
{
    if k > 0 {
        lemma_ancestor_shift(classes, from, (k - 1) as nat);
    } else {
        assert(ancestor(classes, from, 0) == from);
    }
}

proof fn lemma_ancestor_follows(
    classes: Map<Seq<char>, ClassView>,
    from: Seq<char>,
    a: nat,
    b: nat,
    k: nat,
)
    requires
        ancestor(classes, from, a) == ancestor(classes, from, b),
    ensures
        ancestor(classes, from, a + k) == ancestor(classes, from, b + k),
    decreases k,
{
    if k > 0 {
        lemma_ancestor_follows(classes, from, a, b, (k - 1) as nat);
    }
}

/// The number of links of the shortest climb from `from` to `target`.
proof fn lemma_shortest_climb(
    classes: Map<Seq<char>, ClassView>,
    from: Seq<char>,
    target: Seq<char>,
    steps: nat,
) -> (i: nat)
    requires
        climbs_to(classes, from, target, steps),
    ensures
        i <= steps,
        ancestor(classes, from, i) == target,
        linked(classes, from, i),
        forall|j: nat| j < i ==> #[trigger] ancestor(classes, from, j) != target,
    decreases steps,
{
    if from == target {
        0
    } else {
        let parent = classes[from].base_class->Some_0;
        let rest = lemma_shortest_climb(classes, parent, target, (steps - 1) as nat);
        lemma_ancestor_shift(classes, from, rest);
        assert forall|j: nat| j < rest + 1 implies classes.contains_key(
            #[trigger] ancestor(classes, from, j),
        ) && classes[ancestor(classes, from, j)].base_class is Some && ancestor(classes, from, j)
            != target by {
            if j > 0 {
                lemma_ancestor_shift(classes, from, (j - 1) as nat);
                assert(ancestor(classes, from, j) == ancestor(classes, parent, (j - 1) as nat));
            }
        }
        rest + 1
    }
}

proof fn lemma_linked_climbs(
    classes: Map<Seq<char>, ClassView>,
    from: Seq<char>,
    target: Seq<char>,
    i: nat,
)
    requires
        ancestor(classes, from, i) == target,
        linked(classes, from, i),
    ensures
        climbs_to(classes, from, target, i),
    decreases i,
{
    if i > 0 {
        let parent = classes[from].base_class->Some_0;
        assert(ancestor(classes, from, 0) == from);
        lemma_ancestor_shift(classes, from, (i - 1) as nat);
        assert forall|j: nat| j < i - 1 implies classes.contains_key(
            #[trigger] ancestor(classes, parent, j),
        ) && classes[ancestor(classes, parent, j)].base_class is Some by {
            lemma_ancestor_shift(classes, from, j);
            assert(ancestor(classes, from, j + 1) == ancestor(classes, parent, j));
        }
        lemma_linked_climbs(classes, parent, target, (i - 1) as nat);
    }
}

/// In a table of finitely many classes a climb never needs more links
/// than there are classes: one that is longer passes some class twice.
pub proof fn lemma_derives_within(
    classes: Map<Seq<char>, ClassView>,
    from: Seq<char>,
    target: Seq<char>,
    bound: nat,
)
    requires
        classes.dom().finite(),
        classes.dom().len() <= bound,
    ensures
        derives_from(classes, from, target) == climbs_to(classes, from, target, bound),
{
    if derives_from(classes, from, target) {
        let steps = choose|steps: nat| climbs_to(classes, from, target, steps);
        let i = lemma_shortest_climb(classes, from, target, steps);
        let path = Seq::new(i, |j: int| ancestor(classes, from, j as nat));
        assert forall|a: int, b: int|
            0 <= a < path.len() && 0 <= b < path.len() && a != b implies path[a] != path[b] by {
            if path[a] == path[b] {
                let (lo, hi) = if a < b {
                    (a as nat, b as nat)
                } else {
                    (b as nat, a as nat)
                };
                lemma_ancestor_follows(classes, from, lo, hi, (i - hi) as nat);
                assert(ancestor(classes, from, (lo + (i - hi)) as nat) == target);
                assert(lo + (i - hi) < i);
            }
        }
        assert(path.to_set().subset_of(classes.dom())) by {
            assert forall|name: Seq<char>| path.to_set().contains(name) implies classes.dom().contains(
                name,
            ) by {
                let j = choose|j: int| 0 <= j < path.len() && path[j] == name;
                assert(classes.contains_key(ancestor(classes, from, j as nat)));
            }
        }
        path.unique_seq_to_set();
        vstd::set_lib::lemma_len_subset(path.to_set(), classes.dom());
        lemma_linked_climbs(classes, from, target, i);
        lemma_climbs_with_more_steps(classes, from, target, i, bound);
    }
}

} // verus!
