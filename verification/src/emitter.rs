//! The emitter: from syntax trees to the text of a C++ translation unit.
//!
//! Each function returns the text that [`lowering`](crate::lowering) gives
//! its node, or the error that it gives.
use vstd::prelude::*;
use vstd::string::*;
use crate::ast::{
    exprs_view, params_view, AccessModifier, Block, Class, ClassFunction, Expr, ExprView,
    Function, FunctionCall, New, Type, VariableDeclaration,
};
use crate::lowering;
use crate::lowering::{EmitError, NodeKind, Text};
use crate::text::text_is;
use crate::token::Token;

verus! {

/// What an emitting call returned, with the text taken by its view.
pub open spec fn text_view(r: Result<String, EmitError>) -> Text {
    match r {
        Ok(s) => Ok(s@),
        Err(e) => Err(e),
    }
}

proof fn lemma_after_after(a: Seq<char>, b: Seq<char>, r: Text)
    ensures
        lowering::after(a, lowering::after(b, r)) == lowering::after(a + b, r),
{
    if r is Ok {
        assert(a + (b + r->Ok_0) =~= (a + b) + r->Ok_0);
    }
}

/// The kind of a node.
pub fn node_kind(e: &Expr) -> (k: NodeKind)
    ensures
        k == lowering::kind_of(e@),
{
    match e {
        Expr::Class(_) => NodeKind::Class,
        Expr::ClassFunction(_) => NodeKind::ClassFunction,
        Expr::Function(_) => NodeKind::Function,
        Expr::Block(_) => NodeKind::Block,
        Expr::FunctionCall(_) => NodeKind::FunctionCall,
        Expr::InternalFunctionCall(_) => NodeKind::InternalFunctionCall,
        Expr::Int(_) => NodeKind::Int,
        Expr::String(_) => NodeKind::String,
        Expr::Variable(_) => NodeKind::Variable,
        Expr::Return(_) => NodeKind::Return,
        Expr::VariableDeclaration(_) => NodeKind::VariableDeclaration,
        Expr::New(_) => NodeKind::New,
        Expr::BinaryOp(_, _, _) => NodeKind::BinaryOp,
        Expr::Member(_, _) => NodeKind::Member,
        Expr::MemberFunctionCall(_, _) => NodeKind::MemberFunctionCall,
        Expr::Empty => NodeKind::Empty,
    }
}

fn digit_text(d: u32) -> (s: &'static str)
    requires
        d < 10,
    ensures
        s@ == seq![lowering::digit_char(d as int)],
{
    proof {
        reveal_strlit("0");
        reveal_strlit("1");
        reveal_strlit("2");
        reveal_strlit("3");
        reveal_strlit("4");
        reveal_strlit("5");
        reveal_strlit("6");
        reveal_strlit("7");
        reveal_strlit("8");
        reveal_strlit("9");
    }
    let s = if d == 0 {
        "0"
    } else if d == 1 {
        "1"
    } else if d == 2 {
        "2"
    } else if d == 3 {
        "3"
    } else if d == 4 {
        "4"
    } else if d == 5 {
        "5"
    } else if d == 6 {
        "6"
    } else if d == 7 {
        "7"
    } else if d == 8 {
        "8"
    } else {
        "9"
    };
    assert(s@ =~= seq![lowering::digit_char(d as int)]);
    s
}

fn append_nat(out: &mut String, n: u32)
    ensures
        final(out)@ == old(out)@ + lowering::nat_text(n as nat),
    decreases n,
{
    if n >= 10 {
        append_nat(out, n / 10);
    }
    out.append(digit_text(n % 10));
    assert(out@ =~= old(out)@ + lowering::nat_text(n as nat));
}

/// The decimal text of `n`.
pub fn compile_int(n: i32) -> (r: String)
    ensures
        r@ == lowering::int_text(n as int),
{
    let mut out = String::new();
    if n < 0 {
        proof {
            reveal_strlit("-");
        }
        out.append("-");
        let magnitude: u32 = (-(n as i64)) as u32;
        append_nat(&mut out, magnitude);
        assert(out@ =~= seq!['-'] + lowering::nat_text((-n) as nat));
    } else {
        append_nat(&mut out, n as u32);
        assert(out@ =~= lowering::nat_text(n as nat));
    }
    out
}

/// `s` between double quotes, with nothing escaped.
pub fn compile_string(s: &String) -> (r: String)
    ensures
        r@ == "\""@ + s@ + "\""@,
{
    let mut out = String::from_str("\"");
    out.append(s.as_str());
    out.append("\"");
    out
}

/// The C++ name of a type.
pub fn compile_type(t: &Type) -> (r: String)
    ensures
        r@ == lowering::type_text(t@),
    decreases t,
{
    match t {
        Type::Int => String::from_str("int"),
        Type::Float => String::from_str("float"),
        Type::String => String::from_str("std::string"),
        Type::Bool => String::from_str("bool"),
        Type::Void => String::from_str("void"),
        Type::Char => String::from_str("char"),
        Type::Class(name) => name.clone(),
        Type::Pointer(inner) => {
            let mut out = compile_type(inner);
            out.append("*");
            out
        },
    }
}

/// The parameters of a function header, separated by `, `.
pub fn compile_params(args: &Vec<(String, Type)>) -> (r: String)
    ensures
        r@ == lowering::params_text(params_view(args@)),
{
    let ghost ps = params_view(args@);
    let mut out = String::new();
    let mut k: usize = 0;
    assert(out@ + lowering::params_text(ps.skip(0)) =~= lowering::params_text(ps)) by {
        assert(ps.skip(0) =~= ps);
    }
    while k < args.len()
        invariant
            ps == params_view(args@),
            k <= args.len(),
            lowering::params_text(ps) == out@ + lowering::params_text(ps.skip(k as int)),
        decreases args.len() - k,
    {
        let ghost before = out@;
        let ty = compile_type(&args[k].1);
        out.append(ty.as_str());
        out.append(" ");
        out.append(args[k].0.as_str());
        proof {
            assert(ps.skip(k as int)[0] == ps[k as int]);
            assert(ps[k as int] == (args[k as int].0@, args[k as int].1@));
            assert(ps.skip(k as int).drop_first() =~= ps.skip(k + 1));
        }
        if k + 1 < args.len() {
            out.append(", ");
            assert(out@ + lowering::params_text(ps.skip(k + 1)) =~= before + lowering::params_text(
                ps.skip(k as int),
            ));
        } else {
            assert(out@ + lowering::params_text(ps.skip(k + 1)) =~= before + lowering::params_text(
                ps.skip(k as int),
            ));
        }
        k += 1;
    }
    assert(out@ + lowering::params_text(ps.skip(k as int)) =~= out@);
    out
}

fn compile_header(return_type: &Type, name: &String, args: &Vec<(String, Type)>) -> (r: String)
    ensures
        r@ == lowering::header_text(return_type@, name@, params_view(args@)),
{
    let mut out = compile_type(return_type);
    out.append(" ");
    out.append(name.as_str());
    out.append("(");
    let params = compile_params(args);
    out.append(params.as_str());
    out.append(") ");
    out
}

/// The character of an arithmetic operator.
pub fn compile_operator(op: &Token) -> (r: Result<&'static str, EmitError>)
    ensures
        match r {
            Ok(s) => lowering::operator_text(op@) == Ok::<Seq<char>, EmitError>(s@),
            Err(e) => lowering::operator_text(op@) == Err::<Seq<char>, EmitError>(e),
        },
{
    match op {
        Token::Plus => Ok("+"),
        Token::Minus => Ok("-"),
        Token::Star => Ok("*"),
        Token::Slash => Ok("/"),
        _ => Err(EmitError::InvalidOperator),
    }
}


/// The text of a node.
pub fn compile_expr(e: &Expr) -> (r: Result<String, EmitError>)
    ensures
        text_view(r) == lowering::expr_text(e@),
    decreases e, 1int,
{
    match e {
        Expr::Class(c) => compile_class(c),
        Expr::ClassFunction(_) => Err(EmitError::UnexpectedNode(NodeKind::ClassFunction)),
        Expr::Function(f) => compile_function(f),
        Expr::Block(b) => compile_block(b),
        Expr::FunctionCall(c) => compile_function_call(c),
        Expr::InternalFunctionCall(c) => compile_internal_function_call(c),
        Expr::Int(n) => Ok(compile_int(*n)),
        Expr::String(s) => Ok(compile_string(s)),
        Expr::Variable(name) => Ok(name.clone()),
        Expr::Return(value) => compile_return(value),
        Expr::VariableDeclaration(d) => compile_variable_declaration(d),
        Expr::New(n) => compile_new(n),
        Expr::BinaryOp(lhs, op, rhs) => compile_binary_op(lhs, op, rhs),
        Expr::Member(object, field) => compile_member(object, field),
        Expr::MemberFunctionCall(object, c) => compile_member_function_call(object, c),
        Expr::Empty => Ok(String::new()),
    }
}

/// The texts of the nodes, one after the other.
pub fn compile_sequence(es: &Vec<Expr>) -> (r: Result<String, EmitError>)
    ensures
        text_view(r) == lowering::sequence_text(exprs_view(es@)),
    decreases es, 2int,
{
    let ghost all = exprs_view(es@);
    let mut out = String::new();
    let mut k: usize = 0;
    proof {
        assert(all.skip(0) =~= all);
        let whole = lowering::sequence_text(all);
        if whole is Ok {
            assert(out@ + whole->Ok_0 =~= whole->Ok_0);
        }
    }
    while k < es.len()
        invariant
            all == exprs_view(es@),
            k <= es.len(),
            lowering::sequence_text(all) == lowering::after(
                out@,
                lowering::sequence_text(all.skip(k as int)),
            ),
        decreases es.len() - k,
    {
        proof {
            assert(all.skip(k as int)[0] == es[k as int]@);
            assert(all.skip(k as int).drop_first() =~= all.skip(k + 1));
            assert(decreases_to!(*es => es[k as int]));
        }
        match compile_expr(&es[k]) {
            Err(e) => {
                return Err(e);
            },
            Ok(t) => {
                proof {
                    lemma_after_after(out@, t@, lowering::sequence_text(all.skip(k + 1)));
                }
                out.append(t.as_str());
            },
        }
        k += 1;
    }
    assert(out@ + Seq::<char>::empty() =~= out@);
    Ok(out)
}

/// The texts of the nodes, separated by `, `.
pub fn compile_args(es: &Vec<Expr>) -> (r: Result<String, EmitError>)
    ensures
        text_view(r) == lowering::args_text(exprs_view(es@)),
    decreases es, 2int,
{
    let ghost all = exprs_view(es@);
    let mut out = String::new();
    let mut k: usize = 0;
    proof {
        assert(all.skip(0) =~= all);
        let whole = lowering::args_text(all);
        if whole is Ok {
            assert(out@ + whole->Ok_0 =~= whole->Ok_0);
        }
    }
    while k < es.len()
        invariant
            all == exprs_view(es@),
            k <= es.len(),
            lowering::args_text(all) == lowering::after(
                out@,
                lowering::args_text(all.skip(k as int)),
            ),
        decreases es.len() - k,
    {
        proof {
            assert(all.skip(k as int)[0] == es[k as int]@);
            assert(all.skip(k as int).drop_first() =~= all.skip(k + 1));
            assert(decreases_to!(*es => es[k as int]));
        }
        let ghost before = out@;
        match compile_expr(&es[k]) {
            Err(e) => {
                return Err(e);
            },
            Ok(t) => {
                out.append(t.as_str());
                if k + 1 < es.len() {
                    out.append(", ");
                    proof {
                        lemma_after_after(
                            before,
                            t@ + ", "@,
                            lowering::args_text(all.skip(k + 1)),
                        );
                        assert(before + (t@ + ", "@) =~= out@);
                    }
                } else {
                    assert(before + t@ + Seq::<char>::empty() =~= before + t@);
                }
            },
        }
        k += 1;
    }
    assert(out@ + Seq::<char>::empty() =~= out@);
    Ok(out)
}

/// `{`, the statements, `}`.
pub fn compile_block(b: &Block) -> (r: Result<String, EmitError>)
    ensures
        text_view(r) == lowering::block_text(b@),
    decreases b, 0int,
{
    let inner = match compile_sequence(&b.exprs) {
        Ok(t) => t,
        Err(e) => {
            return Err(e);
        },
    };
    let mut out = String::from_str("{\n");
    out.append(inner.as_str());
    out.append("}\n");
    Ok(out)
}

/// `name(arguments)`.
pub fn compile_function_call(c: &FunctionCall) -> (r: Result<String, EmitError>)
    ensures
        text_view(r) == lowering::call_text(c@),
    decreases c, 0int,
{
    let args = match compile_args(&c.args) {
        Ok(t) => t,
        Err(e) => {
            return Err(e);
        },
    };
    let mut out = c.name.clone();
    out.append("(");
    out.append(args.as_str());
    out.append(")");
    Ok(out)
}

/// A call of `print` or `println`, as a call of `printf`.
pub fn compile_internal_function_call(c: &FunctionCall) -> (r: Result<String, EmitError>)
    ensures
        text_view(r) == lowering::builtin_call_text(c@),
    decreases c, 0int,
{
    let is_print = text_is(&c.name, "print");
    if !is_print && !text_is(&c.name, "println") {
        return Err(EmitError::UnknownBuiltin);
    }
    if c.args.len() == 0 {
        return Err(EmitError::MissingArgument);
    }
    proof {
        assert(decreases_to!(c.args => c.args[0]));
    }
    let first = match compile_expr(&c.args[0]) {
        Ok(t) => t,
        Err(e) => {
            return Err(e);
        },
    };
    let mut out = String::from_str("printf(");
    out.append(first.as_str());
    if is_print {
        out.append(");\n");
    } else {
        out.append("+\"\\n\");\n");
    }
    Ok(out)
}

/// `return value;`.
pub fn compile_return(value: &Expr) -> (r: Result<String, EmitError>)
    ensures
        text_view(r) == lowering::expr_text(ExprView::Return(Box::new(value@))),
    decreases value, 2int,
{
    let inner = match compile_expr(value) {
        Ok(t) => t,
        Err(e) => {
            return Err(e);
        },
    };
    let mut out = String::from_str("return ");
    out.append(inner.as_str());
    out.append(";\n");
    Ok(out)
}

/// `Type name = value;`, with `const` between type and name for a
/// constant.
pub fn compile_variable_declaration(d: &VariableDeclaration) -> (r: Result<String, EmitError>)
    ensures
        text_view(r) == lowering::expr_text(ExprView::VariableDeclaration(d@)),
    decreases d, 0int,
{
    let mut out = compile_type(&d.var_type);
    out.append(" ");
    if d.constant {
        out.append("const ");
    } else {
        assert(out@ + Seq::<char>::empty() =~= out@);
    }
    out.append(d.name.as_str());
    out.append(" = ");
    let value = match compile_expr(&d.value) {
        Ok(t) => t,
        Err(e) => {
            return Err(e);
        },
    };
    out.append(value.as_str());
    out.append(";\n");
    Ok(out)
}

/// `new Name(arguments)`.
pub fn compile_new(n: &New) -> (r: Result<String, EmitError>)
    ensures
        text_view(r) == lowering::expr_text(ExprView::New(n@)),
    decreases n, 0int,
{
    let args = match compile_args(&n.args) {
        Ok(t) => t,
        Err(e) => {
            return Err(e);
        },
    };
    let mut out = String::from_str("new ");
    out.append(n.class_name.as_str());
    out.append("(");
    out.append(args.as_str());
    out.append(")");
    Ok(out)
}

/// `lhs op rhs`, with a space on either side of the operator.
pub fn compile_binary_op(lhs: &Expr, op: &Token, rhs: &Expr) -> (r: Result<String, EmitError>)
    ensures
        text_view(r) == lowering::expr_text(
            ExprView::BinaryOp(Box::new(lhs@), op@, Box::new(rhs@)),
        ),
    decreases Expr::BinaryOp(Box::new(*lhs), *op, Box::new(*rhs)), 0int,
{
    proof {
        let parent = Expr::BinaryOp(Box::new(*lhs), *op, Box::new(*rhs));
        assert(decreases_to!(parent => parent->BinaryOp_0));
        assert(decreases_to!(parent => parent->BinaryOp_2));
    }
    let mut out = match compile_expr(lhs) {
        Ok(t) => t,
        Err(e) => {
            return Err(e);
        },
    };
    let ghost left = out@;
    let sign = match compile_operator(op) {
        Ok(s) => s,
        Err(e) => {
            return Err(e);
        },
    };
    out.append(" ");
    out.append(sign);
    out.append(" ");
    assert(out@ =~= left + (" "@ + (sign@ + " "@)));
    let right = match compile_expr(rhs) {
        Ok(t) => t,
        Err(e) => {
            return Err(e);
        },
    };
    out.append(right.as_str());
    Ok(out)
}

/// `object.field`.
pub fn compile_member(object: &Expr, field: &String) -> (r: Result<String, EmitError>)
    ensures
        text_view(r) == lowering::expr_text(ExprView::Member(Box::new(object@), field@)),
    decreases object, 2int,
{
    let mut out = match compile_expr(object) {
        Ok(t) => t,
        Err(e) => {
            return Err(e);
        },
    };
    let ghost left = out@;
    out.append(".");
    out.append(field.as_str());
    assert(out@ =~= left + ("."@ + field@));
    Ok(out)
}

/// `object->name(arguments)`.
pub fn compile_member_function_call(object: &Expr, c: &FunctionCall) -> (r: Result<
    String,
    EmitError,
>)
    ensures
        text_view(r) == lowering::expr_text(ExprView::MemberFunctionCall(Box::new(object@), c@)),
    decreases Expr::MemberFunctionCall(Box::new(*object), *c), 0int,
{
    proof {
        let parent = Expr::MemberFunctionCall(Box::new(*object), *c);
        assert(decreases_to!(parent => parent->MemberFunctionCall_0));
        assert(decreases_to!(parent => parent->MemberFunctionCall_1));
    }
    let mut out = match compile_expr(object) {
        Ok(t) => t,
        Err(e) => {
            return Err(e);
        },
    };
    out.append("->");
    let call = match compile_function_call(c) {
        Ok(t) => t,
        Err(e) => {
            return Err(e);
        },
    };
    out.append(call.as_str());
    Ok(out)
}

/// A free function: header and body.
pub fn compile_function(f: &Function) -> (r: Result<String, EmitError>)
    ensures
        text_view(r) == lowering::function_text(f@),
    decreases f, 0int,
{
    match &*f.body {
        Expr::Block(b) => {
            let body = match compile_block(b) {
                Ok(t) => t,
                Err(e) => {
                    return Err(e);
                },
            };
            let mut out = compile_header(&f.return_type, &f.name, &f.args);
            out.append(body.as_str());
            Ok(out)
        },
        other => Err(EmitError::InvalidBody(node_kind(other))),
    }
}

/// A method: modifiers, header, and body or `= 0;`.
pub fn compile_class_function(f: &ClassFunction) -> (r: Result<String, EmitError>)
    ensures
        text_view(r) == lowering::method_text(f@),
    decreases f, 0int,
{
    if (f.is_virtual && f.is_override) || (f.is_virtual && f.is_external) || (f.is_override
        && f.is_external) {
        return Err(EmitError::ConflictingModifiers);
    }
    let mut out = String::new();
    if f.is_virtual {
        out.append("virtual ");
        assert(out@ =~= "virtual "@);
    }
    let header = compile_header(&f.return_type, &f.name, &f.args);
    out.append(header.as_str());
    if f.is_override {
        out.append("override ");
    } else {
        assert(out@ + Seq::<char>::empty() =~= out@);
    }
    match &*f.body {
        Expr::Block(b) => {
            if f.is_external {
                return Err(EmitError::ExternalWithBody);
            }
            let body = match compile_block(b) {
                Ok(t) => t,
                Err(e) => {
                    return Err(e);
                },
            };
            out.append(body.as_str());
            Ok(out)
        },
        Expr::Empty => {
            if f.is_override {
                return Err(EmitError::OverrideWithoutBody);
            }
            out.append("= 0;\n");
            Ok(out)
        },
        other => Err(EmitError::InvalidBody(node_kind(other))),
    }
}

/// The kind of the first member that is not a method, if there is one.
pub fn find_foreign_member(members: &Vec<Expr>) -> (r: Option<NodeKind>)
    ensures
        r == lowering::first_foreign_member(exprs_view(members@)),
{
    let ghost all = exprs_view(members@);
    let mut k: usize = 0;
    assert(all.skip(0) =~= all);
    while k < members.len()
        invariant
            all == exprs_view(members@),
            k <= members.len(),
            lowering::first_foreign_member(all) == lowering::first_foreign_member(
                all.skip(k as int),
            ),
        decreases members.len() - k,
    {
        proof {
            assert(all.skip(k as int)[0] == members[k as int]@);
            assert(all.skip(k as int).drop_first() =~= all.skip(k + 1));
        }
        match &members[k] {
            Expr::ClassFunction(_) => {},
            other => {
                return Some(node_kind(other));
            },
        }
        k += 1;
    }
    None
}

proof fn lemma_has_access_step(ms: Seq<ExprView>, k: int, access: AccessModifier)
    requires
        0 <= k < ms.len(),
    ensures
        lowering::has_access(ms.take(k + 1), access) == (lowering::has_access(ms.take(k), access)
            || (ms[k] is ClassFunction && ms[k]->ClassFunction_0.access == access)),
{
    let shorter = ms.take(k);
    let longer = ms.take(k + 1);
    if lowering::has_access(shorter, access) {
        let i = choose|i: int|
            0 <= i < shorter.len() && (#[trigger] shorter[i]) is ClassFunction
                && shorter[i]->ClassFunction_0.access == access;
        assert(longer[i] == shorter[i]);
    }
    if ms[k] is ClassFunction && ms[k]->ClassFunction_0.access == access {
        assert(longer[k] == ms[k]);
    }
    if lowering::has_access(longer, access) {
        let i = choose|i: int|
            0 <= i < longer.len() && (#[trigger] longer[i]) is ClassFunction
                && longer[i]->ClassFunction_0.access == access;
        if i < k {
            assert(shorter[i] == longer[i]);
        }
    }
}

/// The texts of the methods with the access `access`, in order, and
/// whether there is any such method.
pub fn compile_section(members: &Vec<Expr>, access: AccessModifier) -> (r: Result<
    (String, bool),
    EmitError,
>)
    ensures
        match r {
            Ok((s, found)) => lowering::section_text(exprs_view(members@), access) == Ok::<
                Seq<char>,
                EmitError,
            >(s@) && found == lowering::has_access(exprs_view(members@), access),
            Err(e) => lowering::section_text(exprs_view(members@), access) == Err::<
                Seq<char>,
                EmitError,
            >(e),
        },
    decreases members, 2int,
{
    let ghost all = exprs_view(members@);
    let mut out = String::new();
    let mut found = false;
    let mut k: usize = 0;
    proof {
        assert(all.skip(0) =~= all);
        let whole = lowering::section_text(all, access);
        if whole is Ok {
            assert(out@ + whole->Ok_0 =~= whole->Ok_0);
        }
    }
    while k < members.len()
        invariant
            all == exprs_view(members@),
            k <= members.len(),
            lowering::section_text(all, access) == lowering::after(
                out@,
                lowering::section_text(all.skip(k as int), access),
            ),
            found == lowering::has_access(all.take(k as int), access),
        decreases members.len() - k,
    {
        proof {
            assert(all.skip(k as int)[0] == members[k as int]@);
            assert(all[k as int] == members[k as int]@);
            assert(all.skip(k as int).drop_first() =~= all.skip(k + 1));
            assert(decreases_to!(*members => members[k as int]));
            lemma_has_access_step(all, k as int, access);
        }
        match &members[k] {
            Expr::ClassFunction(f) => {
                if f.access == access {
                    match compile_class_function(f) {
                        Err(e) => {
                            return Err(e);
                        },
                        Ok(t) => {
                            proof {
                                lemma_after_after(
                                    out@,
                                    t@,
                                    lowering::section_text(all.skip(k + 1), access),
                                );
                            }
                            out.append(t.as_str());
                            found = true;
                        },
                    }
                }
            },
            _ => {},
        }
        k += 1;
    }
    assert(out@ + Seq::<char>::empty() =~= out@);
    assert(all.take(k as int) =~= all);
    Ok((out, found))
}

fn compile_class_head(c: &Class) -> (r: String)
    ensures
        r@ == lowering::class_head_text(c@),
{
    let mut out = String::from_str("class ");
    out.append(c.name.as_str());
    let ghost start = out@;
    match &c.base_class {
        Some(base) => {
            out.append(": public ");
            out.append(base.as_str());
            assert(out@ =~= start + (": public "@ + base@));
        },
        None => {
            assert(out@ =~= start + Seq::<char>::empty());
        },
    }
    out.append(" {\n");
    out
}

/// A class: its first line, the public section, the private section, and
/// `};`.
pub fn compile_class(c: &Class) -> (r: Result<String, EmitError>)
    ensures
        text_view(r) == lowering::class_text(c@),
    decreases c, 0int,
{
    match find_foreign_member(&c.methods) {
        Some(kind) => {
            return Err(EmitError::UnexpectedNode(kind));
        },
        None => {},
    }
    let mut out = compile_class_head(c);
    let (public_text, any_public) = match compile_section(&c.methods, AccessModifier::Public) {
        Ok(found) => found,
        Err(e) => {
            return Err(e);
        },
    };
    let (private_text, any_private) = match compile_section(&c.methods, AccessModifier::Private) {
        Ok(found) => found,
        Err(e) => {
            return Err(e);
        },
    };
    let ghost head = out@;
    let ghost public_label = lowering::section_label(
        c@.methods,
        AccessModifier::Public,
        "public:\n"@,
    );
    let ghost private_label = lowering::section_label(
        c@.methods,
        AccessModifier::Private,
        "private:\n"@,
    );
    if any_public {
        out.append("public:\n");
    }
    assert(out@ =~= head + public_label);
    out.append(public_text.as_str());
    let ghost first_half = out@;
    if any_private {
        out.append("private:\n");
    }
    out.append(private_text.as_str());
    assert(out@ =~= first_half + (private_label + private_text@));
    out.append("};\n");
    Ok(out)
}

/// The translation unit for a sequence of top-level nodes: the two
/// `#include` lines, then the text of each node.
pub fn compile_program(exprs: &Vec<Expr>) -> (r: Result<String, EmitError>)
    ensures
        text_view(r) == lowering::program_text(exprs_view(exprs@)),
{
    let body = match compile_sequence(exprs) {
        Ok(t) => t,
        Err(e) => {
            return Err(e);
        },
    };
    let mut out = String::from_str("#include <stdio.h>\n");
    out.append("#include <string>\n");
    out.append(body.as_str());
    Ok(out)
}

} // verus!
