//! The C++ text of a syntax tree.
//!
//! The lowering is purely syntactic: every node maps to text built from
//! the text of its parts. A node that has no C++ form where it stands, or
//! that breaks a rule of the tree, has no text but an [`EmitError`]; of
//! several faults the first in emission order is reported.
use vstd::prelude::*;
use crate::ast::{
    AccessModifier, BlockView, ClassFunctionView, ClassView, ExprView, FunctionCallView,
    FunctionView, TypeView,
};
use crate::token::TokenView;

verus! {

/// The kinds of syntax tree nodes.
#[derive(Debug, Clone, Copy, PartialEq, Eq, Structural)]
pub enum NodeKind {
    Class,
    ClassFunction,
    Function,
    Block,
    FunctionCall,
    InternalFunctionCall,
    Int,
    String,
    Variable,
    Return,
    VariableDeclaration,
    New,
    BinaryOp,
    Member,
    MemberFunctionCall,
    Empty,
}

/// Why a tree has no C++ text.
#[derive(Debug, Clone, Copy, PartialEq, Eq, Structural)]
pub enum EmitError {
    /// A node of this kind stands where it cannot be lowered: a method
    /// outside a class, or something other than a method inside one.
    UnexpectedNode(NodeKind),
    /// A free function whose body is not a block, or a method whose body
    /// is neither a block nor empty; the kind is that of the body.
    InvalidBody(NodeKind),
    /// A method with more than one of `virtual`, `override`, `external`.
    ConflictingModifiers,
    /// An `external` method with a body.
    ExternalWithBody,
    /// An `override` method without a body.
    OverrideWithoutBody,
    /// A binary operation whose operator is none of `+ - * /`.
    InvalidOperator,
    /// A built-in call whose name is neither `print` nor `println`.
    UnknownBuiltin,
    /// A built-in call without an argument.
    MissingArgument,
}

/// A text or the reason there is none.
pub type Text = Result<Seq<char>, EmitError>;

/// The kind of a node.
pub open spec fn kind_of(e: ExprView) -> NodeKind {
    match e {
        ExprView::Class(_) => NodeKind::Class,
        ExprView::ClassFunction(_) => NodeKind::ClassFunction,
        ExprView::Function(_) => NodeKind::Function,
        ExprView::Block(_) => NodeKind::Block,
        ExprView::FunctionCall(_) => NodeKind::FunctionCall,
        ExprView::InternalFunctionCall(_) => NodeKind::InternalFunctionCall,
        ExprView::Int(_) => NodeKind::Int,
        ExprView::String(_) => NodeKind::String,
        ExprView::Variable(_) => NodeKind::Variable,
        ExprView::Return(_) => NodeKind::Return,
        ExprView::VariableDeclaration(_) => NodeKind::VariableDeclaration,
        ExprView::New(_) => NodeKind::New,
        ExprView::BinaryOp(_, _, _) => NodeKind::BinaryOp,
        ExprView::Member(_, _) => NodeKind::Member,
        ExprView::MemberFunctionCall(_, _) => NodeKind::MemberFunctionCall,
        ExprView::Empty => NodeKind::Empty,
    }
}

/// `prefix`, then the text `r` if there is one.
pub open spec fn after(prefix: Seq<char>, r: Text) -> Text {
    match r {
        Ok(t) => Ok(prefix + t),
        Err(e) => Err(e),
    }
}

/// The text `r` if there is one, then `suffix`.
pub open spec fn before(r: Text, suffix: Seq<char>) -> Text {
    match r {
        Ok(t) => Ok(t + suffix),
        Err(e) => Err(e),
    }
}

/// The text `a`, then the text `b`, if there are both; else the error of
/// `a`, or without one that of `b`.
pub open spec fn both(a: Text, b: Text) -> Text {
    match a {
        Ok(t) => after(t, b),
        Err(e) => Err(e),
    }
}

/// The character for a digit value from 0 to 9.
pub open spec fn digit_char(d: int) -> char {
    if d == 0 {
        '0'
    } else if d == 1 {
        '1'
    } else if d == 2 {
        '2'
    } else if d == 3 {
        '3'
    } else if d == 4 {
        '4'
    } else if d == 5 {
        '5'
    } else if d == 6 {
        '6'
    } else if d == 7 {
        '7'
    } else if d == 8 {
        '8'
    } else {
        '9'
    }
}

/// The decimal digits of `n`, without leading zeros.
pub open spec fn nat_text(n: nat) -> Seq<char>
    decreases n,
{
    if n < 10 {
        seq![digit_char(n as int)]
    } else {
        nat_text(n / 10).push(digit_char((n % 10) as int))
    }
}

/// `n` in decimal, with a `-` in front if it is negative.
pub open spec fn int_text(n: int) -> Seq<char> {
    if n < 0 {
        seq!['-'] + nat_text((-n) as nat)
    } else {
        nat_text(n as nat)
    }
}

/// The C++ name of a type; a pointer is its target followed by `*`.
pub open spec fn type_text(t: TypeView) -> Seq<char>
    decreases t,
{
    match t {
        TypeView::Int => "int"@,
        TypeView::Float => "float"@,
        TypeView::String => "std::string"@,
        TypeView::Bool => "bool"@,
        TypeView::Void => "void"@,
        TypeView::Char => "char"@,
        TypeView::Class(name) => name,
        TypeView::Pointer(inner) => type_text(*inner) + "*"@,
    }
}

/// One parameter: its type, a space, its name.
pub open spec fn param_text(p: (Seq<char>, TypeView)) -> Seq<char> {
    type_text(p.1) + " "@ + p.0
}

/// The parameters, separated by `, `.
pub open spec fn params_text(ps: Seq<(Seq<char>, TypeView)>) -> Seq<char>
    decreases ps.len(),
{
    if ps.len() == 0 {
        Seq::empty()
    } else if ps.len() == 1 {
        param_text(ps[0])
    } else {
        param_text(ps[0]) + ", "@ + params_text(ps.drop_first())
    }
}

/// The character of an arithmetic operator.
pub open spec fn operator_text(op: TokenView) -> Text {
    match op {
        TokenView::Plus => Ok("+"@),
        TokenView::Minus => Ok("-"@),
        TokenView::Star => Ok("*"@),
        TokenView::Slash => Ok("/"@),
        _ => Err(EmitError::InvalidOperator),
    }
}

/// The text of a node.
pub open spec fn expr_text(e: ExprView) -> Text
    decreases e,
{
    match e {
        ExprView::Class(c) => class_text(c),
        ExprView::ClassFunction(_) => Err(EmitError::UnexpectedNode(NodeKind::ClassFunction)),
        ExprView::Function(f) => function_text(f),
        ExprView::Block(b) => block_text(b),
        ExprView::FunctionCall(c) => call_text(c),
        ExprView::InternalFunctionCall(c) => builtin_call_text(c),
        ExprView::Int(n) => Ok(int_text(n as int)),
        ExprView::String(s) => Ok("\""@ + s + "\""@),
        ExprView::Variable(name) => Ok(name),
        ExprView::Return(value) => before(after("return "@, expr_text(*value)), ";\n"@),
        ExprView::VariableDeclaration(d) => before(
            after(
                type_text(d.var_type) + " "@ + (if d.constant {
                    "const "@
                } else {
                    Seq::empty()
                }) + d.name + " = "@,
                expr_text(*d.value),
            ),
            ";\n"@,
        ),
        ExprView::New(n) => before(after("new "@ + n.class_name + "("@, args_text(n.args)), ")"@),
        ExprView::BinaryOp(lhs, op, rhs) => both(
            both(expr_text(*lhs), after(" "@, before(operator_text(op), " "@))),
            expr_text(*rhs),
        ),
        ExprView::Member(object, field) => before(expr_text(*object), "."@ + field),
        ExprView::MemberFunctionCall(object, c) => both(
            before(expr_text(*object), "->"@),
            call_text(c),
        ),
        ExprView::Empty => Ok(Seq::empty()),
    }
}

/// The texts of the nodes, one after the other.
pub open spec fn sequence_text(es: Seq<ExprView>) -> Text
    decreases es,
{
    if es.len() == 0 {
        Ok(Seq::empty())
    } else {
        both(expr_text(es[0]), sequence_text(es.drop_first()))
    }
}

/// The texts of the nodes, separated by `, `.
pub open spec fn args_text(es: Seq<ExprView>) -> Text
    decreases es,
{
    if es.len() == 0 {
        Ok(Seq::empty())
    } else if es.len() == 1 {
        expr_text(es[0])
    } else {
        both(before(expr_text(es[0]), ", "@), args_text(es.drop_first()))
    }
}

/// `{`, the statements of the block, `}`, each brace on a line of its own.
pub open spec fn block_text(b: BlockView) -> Text
    decreases b,
{
    before(after("{\n"@, sequence_text(b.exprs)), "}\n"@)
}

/// `name(arguments)`.
pub open spec fn call_text(c: FunctionCallView) -> Text
    decreases c,
{
    before(after(c.name + "("@, args_text(c.args)), ")"@)
}

/// `print(x)` is `printf(x);` and `println(x)` is `printf(x+"\n");`, each
/// on a line of its own. Only the first argument is printed.
pub open spec fn builtin_call_text(c: FunctionCallView) -> Text
    decreases c,
{
    if c.name != "print"@ && c.name != "println"@ {
        Err(EmitError::UnknownBuiltin)
    } else if c.args.len() == 0 {
        Err(EmitError::MissingArgument)
    } else if c.name == "print"@ {
        before(after("printf("@, expr_text(c.args[0])), ");\n"@)
    } else {
        before(after("printf("@, expr_text(c.args[0])), "+\"\\n\");\n"@)
    }
}

/// `Type name(params) `, as it starts a function and a method.
pub open spec fn header_text(
    return_type: TypeView,
    name: Seq<char>,
    args: Seq<(Seq<char>, TypeView)>,
) -> Seq<char> {
    type_text(return_type) + " "@ + name + "("@ + params_text(args) + ") "@
}

/// A free function: its header and its body, which is a block.
pub open spec fn function_text(f: FunctionView) -> Text
    decreases f,
{
    match *f.body {
        ExprView::Block(b) => after(header_text(f.return_type, f.name, f.args), block_text(b)),
        other => Err(EmitError::InvalidBody(kind_of(other))),
    }
}

/// How many of `virtual`, `override`, `external` a method has.
pub open spec fn modifier_count(f: ClassFunctionView) -> int {
    (if f.is_virtual {
        1int
    } else {
        0int
    }) + (if f.is_override {
        1int
    } else {
        0int
    }) + (if f.is_external {
        1int
    } else {
        0int
    })
}

/// A method: `virtual ` if it is virtual, its header, `override ` if it
/// overrides, then its body or, for a method without one, `= 0;`.
pub open spec fn method_text(f: ClassFunctionView) -> Text
    decreases f,
{
    if modifier_count(f) > 1 {
        Err(EmitError::ConflictingModifiers)
    } else {
        let start = (if f.is_virtual {
            "virtual "@
        } else {
            Seq::empty()
        }) + header_text(f.return_type, f.name, f.args) + (if f.is_override {
            "override "@
        } else {
            Seq::empty()
        });
        match *f.body {
            ExprView::Block(b) => if f.is_external {
                Err(EmitError::ExternalWithBody)
            } else {
                after(start, block_text(b))
            },
            ExprView::Empty => if f.is_override {
                Err(EmitError::OverrideWithoutBody)
            } else {
                Ok(start + "= 0;\n"@)
            },
            other => Err(EmitError::InvalidBody(kind_of(other))),
        }
    }
}

/// The kind of the first member that is not a method, if there is one.
pub open spec fn first_foreign_member(members: Seq<ExprView>) -> Option<NodeKind>
    decreases members.len(),
{
    if members.len() == 0 {
        None
    } else if members[0] is ClassFunction {
        first_foreign_member(members.drop_first())
    } else {
        Some(kind_of(members[0]))
    }
}

/// Whether one of the methods has the access `access`.
pub open spec fn has_access(members: Seq<ExprView>, access: AccessModifier) -> bool {
    exists|i: int|
        0 <= i < members.len() && (#[trigger] members[i]) is ClassFunction
            && members[i]->ClassFunction_0.access == access
}

/// The texts of the methods that have the access `access`, in the order
/// of `members`; the others are passed over.
pub open spec fn section_text(members: Seq<ExprView>, access: AccessModifier) -> Text
    decreases members,
{
    if members.len() == 0 {
        Ok(Seq::empty())
    } else {
        match members[0] {
            ExprView::ClassFunction(f) => if f.access == access {
                both(method_text(f), section_text(members.drop_first(), access))
            } else {
                section_text(members.drop_first(), access)
            },
            _ => section_text(members.drop_first(), access),
        }
    }
}

/// `label` if the section has a method, and nothing if it has none.
pub open spec fn section_label(
    members: Seq<ExprView>,
    access: AccessModifier,
    label: Seq<char>,
) -> Seq<char> {
    if has_access(members, access) {
        label
    } else {
        Seq::empty()
    }
}

/// The first line of a class: `class Name {`, with `: public Base` after
/// the name if the class has a base class.
pub open spec fn class_head_text(c: ClassView) -> Seq<char> {
    "class "@ + c.name + (match c.base_class {
        Some(base) => ": public "@ + base,
        None => Seq::empty(),
    }) + " {\n"@
}

/// A class: its first line, the public methods under `public:`, the
/// private methods under `private:`, and `};`. A section without methods
/// has no label. Every member must be a method.
pub open spec fn class_text(c: ClassView) -> Text
    decreases c,
{
    match first_foreign_member(c.methods) {
        Some(kind) => Err(EmitError::UnexpectedNode(kind)),
        None => before(
            both(
                after(
                    class_head_text(c) + section_label(
                        c.methods,
                        AccessModifier::Public,
                        "public:\n"@,
                    ),
                    section_text(c.methods, AccessModifier::Public),
                ),
                after(
                    section_label(c.methods, AccessModifier::Private, "private:\n"@),
                    section_text(c.methods, AccessModifier::Private),
                ),
            ),
            "};\n"@,
        ),
    }
}

/// The two lines that every translation unit starts with.
pub open spec fn preamble() -> Seq<char> {
    "#include <stdio.h>\n"@ + "#include <string>\n"@
}

/// The translation unit for a sequence of top-level nodes.
pub open spec fn program_text(es: Seq<ExprView>) -> Text {
    after(preamble(), sequence_text(es))
}

} // verus!
