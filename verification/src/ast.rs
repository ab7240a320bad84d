//! The syntax tree: types, declarations, statements and expressions.
//!
//! Each executable type has a view that holds texts as sequences of
//! characters and lists as sequences; contracts speak of the views.
use vstd::prelude::*;
use crate::token::{Token, TokenView};

verus! {

/// A Gem type: a primitive, a class by name, or a pointer to a type.
#[derive(Debug, PartialEq)]
pub enum Type {
    Int,
    Float,
    String,
    Bool,
    Void,
    Char,
    Class(String),
    Pointer(Box<Type>),
}

/// The mathematical value of a [`Type`].
pub enum TypeView {
    Int,
    Float,
    String,
    Bool,
    Void,
    Char,
    Class(Seq<char>),
    Pointer(Box<TypeView>),
}

/// The view of a type: the same type, with a class named by a sequence
/// of characters.
pub open spec fn type_view(t: Type) -> TypeView
    decreases t,
{
    match t {
        Type::Int => TypeView::Int,
        Type::Float => TypeView::Float,
        Type::String => TypeView::String,
        Type::Bool => TypeView::Bool,
        Type::Void => TypeView::Void,
        Type::Char => TypeView::Char,
        Type::Class(name) => TypeView::Class(name@),
        Type::Pointer(inner) => TypeView::Pointer(Box::new(type_view(*inner))),
    }
}

impl View for Type {
    type V = TypeView;

    open spec fn view(&self) -> TypeView {
        type_view(*self)
    }
}

impl Type {
    /// A copy of this type.
    pub fn duplicate(&self) -> (r: Type)
        ensures
            r@ == self@,
        decreases self,
    {
        match self {
            Type::Int => Type::Int,
            Type::Float => Type::Float,
            Type::String => Type::String,
            Type::Bool => Type::Bool,
            Type::Void => Type::Void,
            Type::Char => Type::Char,
            Type::Class(name) => Type::Class(name.clone()),
            Type::Pointer(inner) => Type::Pointer(Box::new(inner.duplicate())),
        }
    }
}

/// Who may call a method. A method without a keyword is private.
#[derive(Debug, Clone, Copy, PartialEq, Eq, Structural)]
pub enum AccessModifier {
    Public,
    Private,
}

impl Default for AccessModifier {
    fn default() -> (r: AccessModifier)
        ensures
            r == AccessModifier::Private,
    {
        AccessModifier::Private
    }
}

/// A class definition: its methods are `Expr::ClassFunction` nodes.
#[derive(Debug, PartialEq)]
pub struct Class {
    pub name: String,
    pub base_class: Option<String>,
    pub methods: Vec<Expr>,
}

/// A method of a class.
#[derive(Debug, PartialEq)]
pub struct ClassFunction {
    pub name: String,
    pub args: Vec<(String, Type)>,
    pub return_type: Type,
    pub body: Box<Expr>,
    pub is_virtual: bool,
    pub is_override: bool,
    pub is_external: bool,
    pub access: AccessModifier,
}

/// A free function.
#[derive(Debug, PartialEq)]
pub struct Function {
    pub name: String,
    pub args: Vec<(String, Type)>,
    pub return_type: Type,
    pub body: Box<Expr>,
}

/// A sequence of statements.
#[derive(Debug, PartialEq)]
pub struct Block {
    pub exprs: Vec<Expr>,
}

/// A function name and the arguments it is called with.
#[derive(Debug, PartialEq)]
pub struct FunctionCall {
    pub name: String,
    pub args: Vec<Expr>,
}

/// A variable with its declared type and its first value; `constant` is
/// set for a `const`.
#[derive(Debug, PartialEq)]
pub struct VariableDeclaration {
    pub name: String,
    pub value: Box<Expr>,
    pub var_type: Type,
    pub constant: bool,
}

/// The creation of an object of a class.
#[derive(Debug, PartialEq)]
pub struct New {
    pub class_name: String,
    pub args: Vec<Expr>,
}

/// A node of the syntax tree.
#[derive(Debug, PartialEq)]
pub enum Expr {
    Class(Class),
    ClassFunction(ClassFunction),
    Function(Function),
    Block(Block),
    /// A call of a free function.
    FunctionCall(FunctionCall),
    /// A call of a built-in function.
    InternalFunctionCall(FunctionCall),
    Int(i32),
    String(String),
    Variable(String),
    Return(Box<Expr>),
    VariableDeclaration(VariableDeclaration),
    New(New),
    /// The operator is one of `Plus`, `Minus`, `Star`, `Slash`.
    BinaryOp(Box<Expr>, Token, Box<Expr>),
    /// Field access with `.`.
    Member(Box<Expr>, String),
    /// Method call with `->`.
    MemberFunctionCall(Box<Expr>, FunctionCall),
    Empty,
}

/// The mathematical value of a [`Class`].
pub struct ClassView {
    pub name: Seq<char>,
    pub base_class: Option<Seq<char>>,
    pub methods: Seq<ExprView>,
}

/// The mathematical value of a [`ClassFunction`].
pub struct ClassFunctionView {
    pub name: Seq<char>,
    pub args: Seq<(Seq<char>, TypeView)>,
    pub return_type: TypeView,
    pub body: Box<ExprView>,
    pub is_virtual: bool,
    pub is_override: bool,
    pub is_external: bool,
    pub access: AccessModifier,
}

/// The mathematical value of a [`Function`].
pub struct FunctionView {
    pub name: Seq<char>,
    pub args: Seq<(Seq<char>, TypeView)>,
    pub return_type: TypeView,
    pub body: Box<ExprView>,
}

/// The mathematical value of a [`Block`].
pub struct BlockView {
    pub exprs: Seq<ExprView>,
}

/// The mathematical value of a [`FunctionCall`].
pub struct FunctionCallView {
    pub name: Seq<char>,
    pub args: Seq<ExprView>,
}

/// The mathematical value of a [`VariableDeclaration`].
pub struct VariableDeclarationView {
    pub name: Seq<char>,
    pub value: Box<ExprView>,
    pub var_type: TypeView,
    pub constant: bool,
}

/// The mathematical value of a [`New`].
pub struct NewView {
    pub class_name: Seq<char>,
    pub args: Seq<ExprView>,
}

/// The mathematical value of an [`Expr`]: texts are sequences of
/// characters and lists are sequences.
pub enum ExprView {
    Class(ClassView),
    ClassFunction(ClassFunctionView),
    Function(FunctionView),
    Block(BlockView),
    FunctionCall(FunctionCallView),
    InternalFunctionCall(FunctionCallView),
    Int(i32),
    String(Seq<char>),
    Variable(Seq<char>),
    Return(Box<ExprView>),
    VariableDeclaration(VariableDeclarationView),
    New(NewView),
    BinaryOp(Box<ExprView>, TokenView, Box<ExprView>),
    Member(Box<ExprView>, Seq<char>),
    MemberFunctionCall(Box<ExprView>, FunctionCallView),
    Empty,
}

/// The view of a parameter list: each name with the view of its type.
pub open spec fn params_view(params: Seq<(String, Type)>) -> Seq<(Seq<char>, TypeView)> {
    params.map_values(|p: (String, Type)| (p.0@, p.1@))
}

/// The view of a node: the same node with each part taken by its view.
pub open spec fn expr_view(e: Expr) -> ExprView
    decreases e,
{
    match e {
        Expr::Class(c) => ExprView::Class(
            ClassView {
                name: c.name@,
                base_class: match c.base_class {
                    Some(b) => Some(b@),
                    None => None,
                },
                methods: exprs_view(c.methods@),
            },
        ),
        Expr::ClassFunction(f) => ExprView::ClassFunction(
            ClassFunctionView {
                name: f.name@,
                args: params_view(f.args@),
                return_type: f.return_type@,
                body: Box::new(expr_view(*f.body)),
                is_virtual: f.is_virtual,
                is_override: f.is_override,
                is_external: f.is_external,
                access: f.access,
            },
        ),
        Expr::Function(f) => ExprView::Function(
            FunctionView {
                name: f.name@,
                args: params_view(f.args@),
                return_type: f.return_type@,
                body: Box::new(expr_view(*f.body)),
            },
        ),
        Expr::Block(b) => ExprView::Block(BlockView { exprs: exprs_view(b.exprs@) }),
        Expr::FunctionCall(c) => ExprView::FunctionCall(
            FunctionCallView { name: c.name@, args: exprs_view(c.args@) },
        ),
        Expr::InternalFunctionCall(c) => ExprView::InternalFunctionCall(
            FunctionCallView { name: c.name@, args: exprs_view(c.args@) },
        ),
        Expr::Int(n) => ExprView::Int(n),
        Expr::String(s) => ExprView::String(s@),
        Expr::Variable(name) => ExprView::Variable(name@),
        Expr::Return(inner) => ExprView::Return(Box::new(expr_view(*inner))),
        Expr::VariableDeclaration(d) => ExprView::VariableDeclaration(
            VariableDeclarationView {
                name: d.name@,
                value: Box::new(expr_view(*d.value)),
                var_type: d.var_type@,
                constant: d.constant,
            },
        ),
        Expr::New(n) => ExprView::New(NewView { class_name: n.class_name@, args: exprs_view(n.args@) }),
        Expr::BinaryOp(lhs, op, rhs) => ExprView::BinaryOp(
            Box::new(expr_view(*lhs)),
            op@,
            Box::new(expr_view(*rhs)),
        ),
        Expr::Member(object, field) => ExprView::Member(Box::new(expr_view(*object)), field@),
        Expr::MemberFunctionCall(object, c) => ExprView::MemberFunctionCall(
            Box::new(expr_view(*object)),
            FunctionCallView { name: c.name@, args: exprs_view(c.args@) },
        ),
        Expr::Empty => ExprView::Empty,
    }
}

/// The views of a sequence of nodes, in order.
pub open spec fn exprs_view(es: Seq<Expr>) -> Seq<ExprView>
    decreases es,
{
    Seq::new(
        es.len(),
        |i: int|
            if 0 <= i < es.len() {
                expr_view(es[i])
            } else {
                ExprView::Empty
            },
    )
}

/// Appending a node appends its view.
pub proof fn lemma_exprs_view_push(es: Seq<Expr>, e: Expr)
    ensures
        exprs_view(es.push(e)) == exprs_view(es).push(e@),
{
    assert(exprs_view(es.push(e)) =~= exprs_view(es).push(e@));
}

/// The view of a free function.
pub open spec fn function_view(f: Function) -> FunctionView {
    FunctionView {
        name: f.name@,
        args: params_view(f.args@),
        return_type: f.return_type@,
        body: Box::new(expr_view(*f.body)),
    }
}

impl View for Function {
    type V = FunctionView;

    open spec fn view(&self) -> FunctionView {
        function_view(*self)
    }
}

impl View for Class {
    type V = ClassView;

    open spec fn view(&self) -> ClassView {
        ClassView {
            name: self.name@,
            base_class: match self.base_class {
                Some(b) => Some(b@),
                None => None,
            },
            methods: exprs_view(self.methods@),
        }
    }
}

impl View for ClassFunction {
    type V = ClassFunctionView;

    open spec fn view(&self) -> ClassFunctionView {
        ClassFunctionView {
            name: self.name@,
            args: params_view(self.args@),
            return_type: self.return_type@,
            body: Box::new(expr_view(*self.body)),
            is_virtual: self.is_virtual,
            is_override: self.is_override,
            is_external: self.is_external,
            access: self.access,
        }
    }
}

impl View for Block {
    type V = BlockView;

    open spec fn view(&self) -> BlockView {
        BlockView { exprs: exprs_view(self.exprs@) }
    }
}

impl View for FunctionCall {
    type V = FunctionCallView;

    open spec fn view(&self) -> FunctionCallView {
        FunctionCallView { name: self.name@, args: exprs_view(self.args@) }
    }
}

impl View for VariableDeclaration {
    type V = VariableDeclarationView;

    open spec fn view(&self) -> VariableDeclarationView {
        VariableDeclarationView {
            name: self.name@,
            value: Box::new(expr_view(*self.value)),
            var_type: self.var_type@,
            constant: self.constant,
        }
    }
}

impl View for New {
    type V = NewView;

    open spec fn view(&self) -> NewView {
        NewView { class_name: self.class_name@, args: exprs_view(self.args@) }
    }
}

impl View for Expr {
    type V = ExprView;

    open spec fn view(&self) -> ExprView {
        expr_view(*self)
    }
}


/// Whether `t` is one of the four arithmetic operators.
pub open spec fn is_arithmetic(t: TokenView) -> bool {
    t is Plus || t is Minus || t is Star || t is Slash
}

/// What the parser promises of a method: at most one of `virtual`,
/// `override` and `external`; no body if it is external; and for a body a
/// block or nothing.
pub open spec fn method_shape(f: ClassFunctionView) -> bool {
    &&& !(f.is_virtual && f.is_override)
    &&& !(f.is_virtual && f.is_external)
    &&& !(f.is_override && f.is_external)
    &&& f.is_external ==> *f.body is Empty
    &&& *f.body is Block || *f.body is Empty
}

/// What the parser promises of a tree, at every depth: each method has
/// the shape of [`method_shape`], each free function has a block or
/// nothing for a body, each member of a class is a method, and each
/// binary operation has an arithmetic operator.
pub open spec fn well_formed(e: ExprView) -> bool
    decreases e,
{
    match e {
        ExprView::Class(c) => all_well_formed(c.methods) && forall|i: int|
            0 <= i < c.methods.len() ==> (#[trigger] c.methods[i]) is ClassFunction,
        ExprView::ClassFunction(f) => method_shape(f) && well_formed(*f.body),
        ExprView::Function(f) => (*f.body is Block || *f.body is Empty) && well_formed(*f.body),
        ExprView::Block(b) => all_well_formed(b.exprs),
        ExprView::FunctionCall(c) => all_well_formed(c.args),
        ExprView::InternalFunctionCall(c) => all_well_formed(c.args),
        ExprView::Return(value) => well_formed(*value),
        ExprView::VariableDeclaration(d) => well_formed(*d.value),
        ExprView::New(n) => all_well_formed(n.args),
        ExprView::BinaryOp(lhs, op, rhs) => is_arithmetic(op) && well_formed(*lhs) && well_formed(
            *rhs,
        ),
        ExprView::Member(object, _) => well_formed(*object),
        ExprView::MemberFunctionCall(object, c) => well_formed(*object) && all_well_formed(c.args),
        _ => true,
    }
}

/// Every node of `es` is well formed.
pub open spec fn all_well_formed(es: Seq<ExprView>) -> bool
    decreases es,
{
    forall|i: int| 0 <= i < es.len() ==> well_formed(#[trigger] es[i])
}

/// The classes of a table, each taken by its view.
pub open spec fn class_views(classes: Map<Seq<char>, Class>) -> Map<Seq<char>, ClassView> {
    classes.map_values(|c: Class| c@)
}

/// The declarations of a table, each taken by its view.
pub open spec fn declaration_views(variables: Map<Seq<char>, VariableDeclaration>) -> Map<
    Seq<char>,
    VariableDeclarationView,
> {
    variables.map_values(|d: VariableDeclaration| d@)
}

/// A copy of a parameter list.
pub fn duplicate_params(params: &Vec<(String, Type)>) -> (r: Vec<(String, Type)>)
    ensures
        params_view(r@) == params_view(params@),
{
    let mut out: Vec<(String, Type)> = Vec::new();
    let mut k: usize = 0;
    while k < params.len()
        invariant
            k <= params.len(),
            out.len() == k,
            forall|i: int| 0 <= i < k ==> out[i].0@ == params[i].0@ && out[i].1@ == params[i].1@,
        decreases params.len() - k,
    {
        out.push((params[k].0.clone(), params[k].1.duplicate()));
        k += 1;
    }
    assert(params_view(out@) =~= params_view(params@));
    out
}

/// A copy of a list of nodes.
pub fn duplicate_exprs(es: &Vec<Expr>) -> (r: Vec<Expr>)
    ensures
        exprs_view(r@) == exprs_view(es@),
    decreases es, 1int,
{
    let mut out: Vec<Expr> = Vec::new();
    let mut k: usize = 0;
    while k < es.len()
        invariant
            k <= es.len(),
            out.len() == k,
            forall|i: int| 0 <= i < k ==> out[i]@ == es[i]@,
        decreases es.len() - k,
    {
        proof {
            assert(decreases_to!(*es => es[k as int]));
        }
        out.push(es[k].duplicate());
        k += 1;
    }
    assert(exprs_view(out@) =~= exprs_view(es@));
    out
}

fn duplicate_name(name: &Option<String>) -> (r: Option<String>)
    ensures
        match (r, *name) {
            (Some(a), Some(b)) => a@ == b@,
            (None, None) => true,
            _ => false,
        },
{
    match name {
        Some(n) => Some(n.clone()),
        None => None,
    }
}

impl FunctionCall {
    /// A copy of this call.
    pub fn duplicate(&self) -> (r: FunctionCall)
        ensures
            r@ == self@,
        decreases self, 0int,
    {
        FunctionCall { name: self.name.clone(), args: duplicate_exprs(&self.args) }
    }
}

impl Class {
    /// A copy of this class.
    pub fn duplicate(&self) -> (r: Class)
        ensures
            r@ == self@,
        decreases self, 0int,
    {
        Class {
            name: self.name.clone(),
            base_class: duplicate_name(&self.base_class),
            methods: duplicate_exprs(&self.methods),
        }
    }
}

impl VariableDeclaration {
    /// A copy of this declaration.
    pub fn duplicate(&self) -> (r: VariableDeclaration)
        ensures
            r@ == self@,
        decreases self, 0int,
    {
        VariableDeclaration {
            name: self.name.clone(),
            value: Box::new(self.value.duplicate()),
            var_type: self.var_type.duplicate(),
            constant: self.constant,
        }
    }
}

impl Expr {
    /// A copy of this node and of all below it.
    pub fn duplicate(&self) -> (r: Expr)
        ensures
            r@ == self@,
        decreases self, 1int,
    {
        match self {
            Expr::Class(c) => Expr::Class(c.duplicate()),
            Expr::ClassFunction(f) => Expr::ClassFunction(
                ClassFunction {
                    name: f.name.clone(),
                    args: duplicate_params(&f.args),
                    return_type: f.return_type.duplicate(),
                    body: Box::new(f.body.duplicate()),
                    is_virtual: f.is_virtual,
                    is_override: f.is_override,
                    is_external: f.is_external,
                    access: f.access,
                },
            ),
            Expr::Function(f) => Expr::Function(
                Function {
                    name: f.name.clone(),
                    args: duplicate_params(&f.args),
                    return_type: f.return_type.duplicate(),
                    body: Box::new(f.body.duplicate()),
                },
            ),
            Expr::Block(b) => Expr::Block(Block { exprs: duplicate_exprs(&b.exprs) }),
            Expr::FunctionCall(c) => Expr::FunctionCall(c.duplicate()),
            Expr::InternalFunctionCall(c) => Expr::InternalFunctionCall(c.duplicate()),
            Expr::Int(n) => Expr::Int(*n),
            Expr::String(s) => Expr::String(s.clone()),
            Expr::Variable(name) => Expr::Variable(name.clone()),
            Expr::Return(value) => Expr::Return(Box::new(value.duplicate())),
            Expr::VariableDeclaration(d) => Expr::VariableDeclaration(d.duplicate()),
            Expr::New(n) => Expr::New(
                New { class_name: n.class_name.clone(), args: duplicate_exprs(&n.args) },
            ),
            Expr::BinaryOp(lhs, op, rhs) => Expr::BinaryOp(
                Box::new(lhs.duplicate()),
                op.duplicate(),
                Box::new(rhs.duplicate()),
            ),
            Expr::Member(object, field) => Expr::Member(
                Box::new(object.duplicate()),
                field.clone(),
            ),
            Expr::MemberFunctionCall(object, c) => Expr::MemberFunctionCall(
                Box::new(object.duplicate()),
                c.duplicate(),
            ),
            Expr::Empty => Expr::Empty,
        }
    }
}

} // verus!
