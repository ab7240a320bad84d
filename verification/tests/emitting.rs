use gemstone::ast::{
    AccessModifier, Block, Class, ClassFunction, Expr, Function, FunctionCall, New, Type,
    VariableDeclaration,
};
use gemstone::emitter::{
    compile_args, compile_binary_op, compile_block, compile_class, compile_class_function,
    compile_expr, compile_function, compile_function_call, compile_int,
    compile_internal_function_call, compile_member, compile_member_function_call, compile_new,
    compile_operator, compile_params, compile_program, compile_return, compile_section,
    compile_sequence, compile_string, compile_type, compile_variable_declaration,
    find_foreign_member, node_kind,
};
use gemstone::gemstone::Gemstone;
use gemstone::lexer::tokenize;
use gemstone::lowering::{EmitError, NodeKind};
use gemstone::parser::parse_program;
use gemstone::token::Token;

fn lowered(source: &str) -> Result<String, EmitError> {
    compile_sequence(&parse_program(&tokenize(source).unwrap()).unwrap())
}

fn variable(name: &str) -> Expr {
    Expr::Variable(name.to_string())
}

fn method(name: &str, access: AccessModifier, body: Expr) -> ClassFunction {
    ClassFunction {
        name: name.to_string(),
        args: vec![],
        return_type: Type::Void,
        body: Box::new(body),
        is_virtual: false,
        is_override: false,
        is_external: false,
        access,
    }
}

fn empty_block() -> Expr {
    Expr::Block(Block { exprs: vec![] })
}

#[test]
fn integers_in_decimal() {
    assert_eq!(compile_int(0), "0");
    assert_eq!(compile_int(7), "7");
    assert_eq!(compile_int(10), "10");
    assert_eq!(compile_int(1234567890), "1234567890");
    assert_eq!(compile_int(-1), "-1");
    assert_eq!(compile_int(-120), "-120");
    assert_eq!(compile_int(i32::MAX), "2147483647");
    assert_eq!(compile_int(i32::MIN), "-2147483648");
}

#[test]
fn strings_get_quotes_and_no_escapes() {
    assert_eq!(compile_string(&"hi".to_string()), "\"hi\"");
    assert_eq!(compile_string(&String::new()), "\"\"");
    assert_eq!(compile_string(&"a\\n\u{e9}".to_string()), "\"a\\n\u{e9}\"");
}

#[test]
fn type_names() {
    assert_eq!(compile_type(&Type::Int), "int");
    assert_eq!(compile_type(&Type::Float), "float");
    assert_eq!(compile_type(&Type::String), "std::string");
    assert_eq!(compile_type(&Type::Bool), "bool");
    assert_eq!(compile_type(&Type::Void), "void");
    assert_eq!(compile_type(&Type::Char), "char");
    assert_eq!(compile_type(&Type::Class("Shape".to_string())), "Shape");
}

#[test]
fn a_pointer_is_its_target_and_a_star() {
    let targets = [
        Type::Int,
        Type::String,
        Type::Class("A".to_string()),
        Type::Pointer(Box::new(Type::Char)),
    ];
    for target in targets {
        let expected = format!("{}*", compile_type(&target));
        assert_eq!(compile_type(&Type::Pointer(Box::new(target))), expected);
    }
    assert_eq!(
        compile_type(&Type::Pointer(Box::new(Type::Pointer(Box::new(Type::Int))))),
        "int**"
    );
}

#[test]
fn parameters_and_arguments_are_joined_by_commas() {
    assert_eq!(compile_params(&vec![]), "");
    assert_eq!(compile_params(&vec![("a".to_string(), Type::Int)]), "int a");
    assert_eq!(
        compile_params(&vec![
            ("a".to_string(), Type::Int),
            ("s".to_string(), Type::String),
            ("p".to_string(), Type::Pointer(Box::new(Type::Class("A".to_string())))),
        ]),
        "int a, std::string s, A* p"
    );
    assert_eq!(compile_args(&vec![]).unwrap(), "");
    assert_eq!(compile_args(&vec![Expr::Int(1)]).unwrap(), "1");
    assert_eq!(
        compile_args(&vec![Expr::Int(1), variable("x"), Expr::String("s".to_string())]).unwrap(),
        "1, x, \"s\""
    );
}

#[test]
fn operators() {
    assert_eq!(compile_operator(&Token::Plus), Ok("+"));
    assert_eq!(compile_operator(&Token::Minus), Ok("-"));
    assert_eq!(compile_operator(&Token::Star), Ok("*"));
    assert_eq!(compile_operator(&Token::Slash), Ok("/"));
    assert_eq!(compile_operator(&Token::Dot), Err(EmitError::InvalidOperator));
    assert_eq!(
        compile_binary_op(&Expr::Int(1), &Token::Slash, &variable("x")).unwrap(),
        "1 / x"
    );
    assert_eq!(lowered("1 - 2 - 3").unwrap(), "1 - 2 - 3");
    assert_eq!(lowered("(1 + 2) * 3").unwrap(), "1 + 2 * 3");
}

#[test]
fn statements_and_expressions() {
    assert_eq!(compile_return(&Expr::Int(0)).unwrap(), "return 0;\n");
    assert_eq!(compile_return(&Expr::Empty).unwrap(), "return ;\n");
    assert_eq!(compile_member(&variable("a"), &"b".to_string()).unwrap(), "a.b");
    assert_eq!(lowered("a.b.c").unwrap(), "a.b.c");
    let call = FunctionCall { name: "f".to_string(), args: vec![Expr::Int(1), Expr::Int(2)] };
    assert_eq!(compile_function_call(&call).unwrap(), "f(1, 2)");
    assert_eq!(compile_member_function_call(&variable("p"), &call).unwrap(), "p->f(1, 2)");
    assert_eq!(lowered("p->f(1)->g()").unwrap(), "p->f(1)->g()");
    assert_eq!(lowered("foo(1, 2);").unwrap(), "foo(1, 2)");
    assert_eq!(
        compile_new(&New { class_name: "A".to_string(), args: vec![Expr::Int(1), variable("y")] })
            .unwrap(),
        "new A(1, y)"
    );
    assert_eq!(compile_expr(&Expr::Empty).unwrap(), "");
    assert_eq!(lowered(";").unwrap(), "");
    assert_eq!(compile_expr(&variable("x")).unwrap(), "x");
    assert_eq!(compile_expr(&Expr::Int(-5)).unwrap(), "-5");
    assert_eq!(compile_expr(&Expr::String("s".to_string())).unwrap(), "\"s\"");
}

#[test]
fn variable_declarations_keep_const_after_the_type() {
    let declaration = |constant| VariableDeclaration {
        name: "x".to_string(),
        value: Box::new(Expr::Int(1)),
        var_type: Type::Int,
        constant,
    };
    assert_eq!(compile_variable_declaration(&declaration(false)).unwrap(), "int x = 1;\n");
    assert_eq!(compile_variable_declaration(&declaration(true)).unwrap(), "int const x = 1;\n");
    assert_eq!(lowered("var s: string = \"a\";").unwrap(), "std::string s = \"a\";\n");
    assert_eq!(lowered("const p: A** = q;").unwrap(), "A** const p = q;\n");
}

#[test]
fn blocks_and_functions() {
    assert_eq!(compile_block(&Block { exprs: vec![] }).unwrap(), "{\n}\n");
    assert_eq!(lowered("{ return 1; }").unwrap(), "{\nreturn 1;\n}\n");
    assert_eq!(
        lowered("function add(a: int, b: int) -> int { return a + b; }").unwrap(),
        "int add(int a, int b) {\nreturn a + b;\n}\n"
    );
    let declaration = Function {
        name: "f".to_string(),
        args: vec![],
        return_type: Type::Int,
        body: Box::new(Expr::Empty),
    };
    assert_eq!(compile_function(&declaration), Err(EmitError::InvalidBody(NodeKind::Empty)));
    assert_eq!(lowered("function f() -> int;"), Err(EmitError::InvalidBody(NodeKind::Empty)));
}

#[test]
fn built_in_calls() {
    let call = |name: &str, args| FunctionCall { name: name.to_string(), args };
    assert_eq!(
        compile_internal_function_call(&call("print", vec![variable("x")])).unwrap(),
        "printf(x);\n"
    );
    assert_eq!(
        compile_internal_function_call(&call("println", vec![variable("x"), Expr::Int(2)]))
            .unwrap(),
        "printf(x+\"\\n\");\n"
    );
    assert_eq!(
        compile_internal_function_call(&call("printf", vec![variable("x")])),
        Err(EmitError::UnknownBuiltin)
    );
    assert_eq!(
        compile_internal_function_call(&call("print", vec![])),
        Err(EmitError::MissingArgument)
    );
    assert_eq!(
        compile_internal_function_call(&call("write", vec![])),
        Err(EmitError::UnknownBuiltin)
    );
    assert_eq!(lowered("println();"), Err(EmitError::MissingArgument));
}

#[test]
fn methods() {
    let mut f = method("f", AccessModifier::Public, empty_block());
    assert_eq!(compile_class_function(&f).unwrap(), "void f() {\n}\n");
    f.is_virtual = true;
    assert_eq!(compile_class_function(&f).unwrap(), "virtual void f() {\n}\n");
    f.is_virtual = false;
    f.is_override = true;
    f.args = vec![("a".to_string(), Type::Int)];
    assert_eq!(compile_class_function(&f).unwrap(), "void f(int a) override {\n}\n");
    let mut g = method("g", AccessModifier::Private, Expr::Empty);
    assert_eq!(compile_class_function(&g).unwrap(), "void g() = 0;\n");
    g.is_virtual = true;
    assert_eq!(compile_class_function(&g).unwrap(), "virtual void g() = 0;\n");
    g.is_virtual = false;
    g.is_external = true;
    assert_eq!(compile_class_function(&g).unwrap(), "void g() = 0;\n");
}

#[test]
fn method_faults() {
    let mut f = method("f", AccessModifier::Public, Expr::Empty);
    f.is_override = true;
    assert_eq!(compile_class_function(&f), Err(EmitError::OverrideWithoutBody));
    assert_eq!(
        lowered("class A { override function f() -> int; }"),
        Err(EmitError::OverrideWithoutBody)
    );
    f.is_external = true;
    assert_eq!(compile_class_function(&f), Err(EmitError::ConflictingModifiers));
    f.is_override = false;
    f.is_virtual = true;
    assert_eq!(compile_class_function(&f), Err(EmitError::ConflictingModifiers));
    f.is_external = false;
    f.is_override = true;
    assert_eq!(compile_class_function(&f), Err(EmitError::ConflictingModifiers));
    let mut g = method("g", AccessModifier::Public, empty_block());
    g.is_external = true;
    assert_eq!(compile_class_function(&g), Err(EmitError::ExternalWithBody));
    let h = method("h", AccessModifier::Public, Expr::Int(1));
    assert_eq!(compile_class_function(&h), Err(EmitError::InvalidBody(NodeKind::Int)));
}

#[test]
fn public_methods_come_before_private_ones() {
    let source = "class K { function a() -> int; public function b() -> int; \
                  private function c() -> int; public function d() -> int; }";
    assert_eq!(
        lowered(source).unwrap(),
        "class K {\npublic:\nint b() = 0;\nint d() = 0;\nprivate:\nint a() = 0;\nint c() = 0;\n};\n"
    );
}

#[test]
fn a_section_without_methods_has_no_label() {
    assert_eq!(lowered("class E { }").unwrap(), "class E {\n};\n");
    assert_eq!(
        lowered("class E : F { function a() -> int; }").unwrap(),
        "class E: public F {\nprivate:\nint a() = 0;\n};\n"
    );
    assert_eq!(
        lowered("class E { public function a() -> int; }").unwrap(),
        "class E {\npublic:\nint a() = 0;\n};\n"
    );
}

#[test]
fn sections_of_a_class() {
    let members = vec![
        Expr::ClassFunction(method("a", AccessModifier::Private, Expr::Empty)),
        Expr::ClassFunction(method("b", AccessModifier::Public, Expr::Empty)),
        Expr::ClassFunction(method("c", AccessModifier::Private, Expr::Empty)),
    ];
    assert_eq!(
        compile_section(&members, AccessModifier::Public).unwrap(),
        ("void b() = 0;\n".to_string(), true)
    );
    assert_eq!(
        compile_section(&members, AccessModifier::Private).unwrap(),
        ("void a() = 0;\nvoid c() = 0;\n".to_string(), true)
    );
    assert_eq!(
        compile_section(&members[1..2].iter().map(Expr::duplicate).collect(), AccessModifier::Private)
            .unwrap(),
        (String::new(), false)
    );
    assert_eq!(find_foreign_member(&members), None);
}

#[test]
fn class_faults_in_emission_order() {
    let mut bad_public = method("p", AccessModifier::Public, Expr::Empty);
    bad_public.is_override = true;
    let bad_private = method("q", AccessModifier::Private, Expr::Int(1));
    let class = |methods| Class { name: "A".to_string(), base_class: None, methods };
    assert_eq!(
        compile_class(&class(vec![
            Expr::ClassFunction(bad_private.clone_for_test()),
            Expr::ClassFunction(bad_public.clone_for_test()),
        ])),
        Err(EmitError::OverrideWithoutBody)
    );
    assert_eq!(
        compile_class(&class(vec![
            Expr::ClassFunction(bad_private.clone_for_test()),
            Expr::ClassFunction(bad_public.clone_for_test()),
            Expr::Int(3),
        ])),
        Err(EmitError::UnexpectedNode(NodeKind::Int))
    );
    assert_eq!(
        compile_class(&class(vec![Expr::ClassFunction(bad_private.clone_for_test())])),
        Err(EmitError::InvalidBody(NodeKind::Int))
    );
    assert_eq!(
        find_foreign_member(&vec![
            Expr::ClassFunction(bad_private.clone_for_test()),
            Expr::Empty,
            Expr::Int(1)
        ]),
        Some(NodeKind::Empty)
    );
}

trait CloneForTest {
    fn clone_for_test(&self) -> Self;
}

impl CloneForTest for ClassFunction {
    fn clone_for_test(&self) -> ClassFunction {
        match Expr::ClassFunction(ClassFunction {
            name: self.name.clone(),
            args: vec![],
            return_type: self.return_type.duplicate(),
            body: Box::new(self.body.duplicate()),
            is_virtual: self.is_virtual,
            is_override: self.is_override,
            is_external: self.is_external,
            access: self.access,
        }) {
            Expr::ClassFunction(f) => f,
            _ => unreachable!(),
        }
    }
}

#[test]
fn a_method_outside_a_class_has_no_text() {
    let f = method("f", AccessModifier::Public, empty_block());
    assert_eq!(
        compile_expr(&Expr::ClassFunction(f)),
        Err(EmitError::UnexpectedNode(NodeKind::ClassFunction))
    );
}

#[test]
fn an_operator_must_be_arithmetic() {
    assert_eq!(
        compile_binary_op(&Expr::Int(1), &Token::Comma, &Expr::Int(2)),
        Err(EmitError::InvalidOperator)
    );
    let bad = Expr::ClassFunction(method("f", AccessModifier::Public, empty_block()));
    assert_eq!(
        compile_binary_op(&bad, &Token::Comma, &Expr::Int(2)),
        Err(EmitError::UnexpectedNode(NodeKind::ClassFunction))
    );
    assert_eq!(
        compile_binary_op(&Expr::Int(1), &Token::Comma, &bad),
        Err(EmitError::InvalidOperator)
    );
}

#[test]
fn the_first_fault_of_a_sequence_is_reported() {
    let f = || Expr::ClassFunction(method("f", AccessModifier::Public, empty_block()));
    let call = Expr::InternalFunctionCall(FunctionCall { name: "print".to_string(), args: vec![] });
    assert_eq!(
        compile_sequence(&vec![Expr::Int(1), call.duplicate(), f()]),
        Err(EmitError::MissingArgument)
    );
    assert_eq!(
        compile_args(&vec![f(), call.duplicate()]),
        Err(EmitError::UnexpectedNode(NodeKind::ClassFunction))
    );
}

#[test]
fn kinds_of_nodes() {
    assert_eq!(node_kind(&Expr::Empty), NodeKind::Empty);
    assert_eq!(node_kind(&Expr::Int(1)), NodeKind::Int);
    assert_eq!(node_kind(&variable("x")), NodeKind::Variable);
    assert_eq!(node_kind(&Expr::String(String::new())), NodeKind::String);
    assert_eq!(node_kind(&empty_block()), NodeKind::Block);
    assert_eq!(node_kind(&Expr::Return(Box::new(Expr::Empty))), NodeKind::Return);
    assert_eq!(
        node_kind(&Expr::BinaryOp(Box::new(Expr::Empty), Token::Plus, Box::new(Expr::Empty))),
        NodeKind::BinaryOp
    );
    assert_eq!(
        node_kind(&Expr::Member(Box::new(Expr::Empty), String::new())),
        NodeKind::Member
    );
}

#[test]
fn a_translation_unit_starts_with_the_includes() {
    assert_eq!(compile_program(&vec![]).unwrap(), "#include <stdio.h>\n#include <string>\n");
    let mut gem = Gemstone::new();
    assert_eq!(
        gem.compile(&vec![Expr::Int(1), Expr::Return(Box::new(Expr::Int(2)))]).unwrap(),
        "#include <stdio.h>\n#include <string>\n1return 2;\n"
    );
    assert_eq!(
        gem.compile(&vec![Expr::ClassFunction(method("f", AccessModifier::Public, Expr::Empty))]),
        Err(EmitError::UnexpectedNode(NodeKind::ClassFunction))
    );
}
