use gemstone::ast::{
    AccessModifier, Block, Class, ClassFunction, Expr, Function, FunctionCall, New, Type,
    VariableDeclaration,
};
use gemstone::grammar::{Expected, ParseError};
use gemstone::lexer::tokenize;
use gemstone::parser::{
    parse_additive, parse_class_function_def, parse_function, parse_primary, parse_program,
    parse_token, parse_type,
};
use gemstone::token::Token;

fn parsed(source: &str) -> Vec<Expr> {
    parse_program(&tokenize(source).unwrap()).unwrap()
}

fn failure(source: &str) -> ParseError {
    parse_program(&tokenize(source).unwrap()).unwrap_err()
}

fn word(text: &str) -> Token {
    Token::Word(text.to_string())
}

fn variable(name: &str) -> Expr {
    Expr::Variable(name.to_string())
}

fn binary(lhs: Expr, op: Token, rhs: Expr) -> Expr {
    Expr::BinaryOp(Box::new(lhs), op, Box::new(rhs))
}

#[test]
fn multiplication_binds_tighter_than_addition() {
    for (sum, sum_token) in [("+", Token::Plus), ("-", Token::Minus)] {
        for (product, product_token) in [("*", Token::Star), ("/", Token::Slash)] {
            let source = format!("a {} 2 {} \"c\"", sum, product);
            let tokens = tokenize(&source).unwrap();
            let (expr, next) = parse_additive(&tokens, 0).unwrap();
            assert_eq!(next, 5);
            assert_eq!(
                expr,
                binary(
                    variable("a"),
                    sum_token.duplicate(),
                    binary(Expr::Int(2), product_token.duplicate(), Expr::String("c".to_string())),
                )
            );
        }
    }
}

#[test]
fn operators_group_from_the_left() {
    assert_eq!(
        parsed("1 - 2 - 3"),
        vec![binary(binary(Expr::Int(1), Token::Minus, Expr::Int(2)), Token::Minus, Expr::Int(3))]
    );
    assert_eq!(
        parsed("8 / 4 * 2"),
        vec![binary(binary(Expr::Int(8), Token::Slash, Expr::Int(4)), Token::Star, Expr::Int(2))]
    );
    assert_eq!(
        parsed("1 * 2 + 3"),
        vec![binary(binary(Expr::Int(1), Token::Star, Expr::Int(2)), Token::Plus, Expr::Int(3))]
    );
}

#[test]
fn parentheses_group() {
    assert_eq!(
        parsed("(1 + 2) * 3"),
        vec![binary(binary(Expr::Int(1), Token::Plus, Expr::Int(2)), Token::Star, Expr::Int(3))]
    );
    let error = failure("(1 + 2");
    assert_eq!(error.expected, Expected::Token(Token::RightParen));
    assert_eq!(error.found, None);
    assert_eq!(error.before, Some(Token::Int(2)));
    assert_eq!(error.after, None);
}

#[test]
fn member_access_and_method_calls() {
    assert_eq!(
        parsed("a.b.c"),
        vec![Expr::Member(
            Box::new(Expr::Member(Box::new(variable("a")), "b".to_string())),
            "c".to_string()
        )]
    );
    assert_eq!(
        parsed("p->f(1, x)->g()"),
        vec![Expr::MemberFunctionCall(
            Box::new(Expr::MemberFunctionCall(
                Box::new(variable("p")),
                FunctionCall { name: "f".to_string(), args: vec![Expr::Int(1), variable("x")] },
            )),
            FunctionCall { name: "g".to_string(), args: vec![] },
        )]
    );
    assert_eq!(
        parsed("p->f().x * 2"),
        vec![binary(
            Expr::Member(
                Box::new(Expr::MemberFunctionCall(
                    Box::new(variable("p")),
                    FunctionCall { name: "f".to_string(), args: vec![] },
                )),
                "x".to_string()
            ),
            Token::Star,
            Expr::Int(2)
        )]
    );
    assert_eq!(failure("a.1").expected, Expected::Word);
    assert_eq!(failure("a->1").expected, Expected::Word);
    assert_eq!(failure("a->f 1").expected, Expected::Token(Token::LeftParen));
}

#[test]
fn new_takes_its_arguments() {
    assert_eq!(
        parsed("new A()"),
        vec![Expr::New(New { class_name: "A".to_string(), args: vec![] })]
    );
    assert_eq!(
        parsed("new A(1, b + 2, \"s\")"),
        vec![Expr::New(New {
            class_name: "A".to_string(),
            args: vec![
                Expr::Int(1),
                binary(variable("b"), Token::Plus, Expr::Int(2)),
                Expr::String("s".to_string()),
            ],
        })]
    );
    assert_eq!(
        parsed("1 + new A(2)"),
        vec![binary(
            Expr::Int(1),
            Token::Plus,
            Expr::New(New { class_name: "A".to_string(), args: vec![Expr::Int(2)] })
        )]
    );
    assert_eq!(failure("new A(1").expected, Expected::Token(Token::RightParen));
    assert_eq!(failure("new (").expected, Expected::Word);
    assert_eq!(failure("new A 1").expected, Expected::Token(Token::LeftParen));
}

#[test]
fn a_call_statement_ends_with_a_semicolon() {
    assert_eq!(
        parsed("foo(1, 2);"),
        vec![Expr::FunctionCall(FunctionCall {
            name: "foo".to_string(),
            args: vec![Expr::Int(1), Expr::Int(2)],
        })]
    );
    let error = failure("foo(1)");
    assert_eq!(error.expected, Expected::Token(Token::Semicolon));
    assert_eq!(error.found, None);
    assert_eq!(error.before, Some(Token::RightParen));
}

#[test]
fn a_call_inside_an_expression_takes_no_semicolon() {
    assert_eq!(
        parsed("return f(g(1), 2);"),
        vec![Expr::Return(Box::new(Expr::FunctionCall(FunctionCall {
            name: "f".to_string(),
            args: vec![
                Expr::FunctionCall(FunctionCall { name: "g".to_string(), args: vec![Expr::Int(1)] }),
                Expr::Int(2),
            ],
        })))]
    );
    assert_eq!(
        parsed("var y: int = f(1);"),
        vec![Expr::VariableDeclaration(VariableDeclaration {
            name: "y".to_string(),
            value: Box::new(Expr::FunctionCall(FunctionCall {
                name: "f".to_string(),
                args: vec![Expr::Int(1)],
            })),
            var_type: Type::Int,
            constant: false,
        })]
    );
    let tokens = tokenize("f(1)").unwrap();
    let (expr, next) = parse_token(&tokens, 0, false).unwrap();
    assert_eq!(next, 4);
    assert_eq!(
        expr,
        Expr::FunctionCall(FunctionCall { name: "f".to_string(), args: vec![Expr::Int(1)] })
    );
    assert!(parse_token(&tokens, 0, true).is_err());
}

#[test]
fn built_in_calls_have_their_own_node() {
    assert_eq!(
        parsed("print(x); println(\"a\"); printer(1);"),
        vec![
            Expr::InternalFunctionCall(FunctionCall {
                name: "print".to_string(),
                args: vec![variable("x")],
            }),
            Expr::InternalFunctionCall(FunctionCall {
                name: "println".to_string(),
                args: vec![Expr::String("a".to_string())],
            }),
            Expr::FunctionCall(FunctionCall {
                name: "printer".to_string(),
                args: vec![Expr::Int(1)],
            }),
        ]
    );
}

#[test]
fn return_with_and_without_a_value() {
    assert_eq!(parsed("return;"), vec![Expr::Return(Box::new(Expr::Empty))]);
    assert_eq!(parsed("return 1;"), vec![Expr::Return(Box::new(Expr::Int(1)))]);
    let error = failure("return 1");
    assert_eq!(error.expected, Expected::Token(Token::Semicolon));
    assert_eq!(error.found, None);
}

#[test]
fn variable_declarations() {
    assert_eq!(
        parsed("var p: A** = q; const s: string = \"t\";"),
        vec![
            Expr::VariableDeclaration(VariableDeclaration {
                name: "p".to_string(),
                value: Box::new(variable("q")),
                var_type: Type::Pointer(Box::new(Type::Pointer(Box::new(Type::Class(
                    "A".to_string()
                ))))),
                constant: false,
            }),
            Expr::VariableDeclaration(VariableDeclaration {
                name: "s".to_string(),
                value: Box::new(Expr::String("t".to_string())),
                var_type: Type::String,
                constant: true,
            }),
        ]
    );
    assert_eq!(failure("var 1: int = 2;").expected, Expected::Word);
    assert_eq!(failure("var x int = 2;").expected, Expected::Token(Token::Colon));
    assert_eq!(failure("var x: = 2;").expected, Expected::Word);
    assert_eq!(failure("var x: int 2;").expected, Expected::Token(Token::Equal));
    assert_eq!(failure("var x: int = 2").expected, Expected::Token(Token::Semicolon));
    assert_eq!(failure("var").expected, Expected::Word);
}

#[test]
fn types_are_a_word_and_stars() {
    let cases = [
        ("int", Type::Int),
        ("float", Type::Float),
        ("string", Type::String),
        ("bool", Type::Bool),
        ("void", Type::Void),
        ("char", Type::Char),
        ("Shape", Type::Class("Shape".to_string())),
    ];
    for (text, expected) in cases {
        let tokens = tokenize(text).unwrap();
        assert_eq!(parse_type(&tokens, 0).unwrap(), (expected, 1));
    }
    let tokens = tokenize("x int** y").unwrap();
    assert_eq!(
        parse_type(&tokens, 1).unwrap(),
        (Type::Pointer(Box::new(Type::Pointer(Box::new(Type::Int)))), 4)
    );
    assert_eq!(parse_type(&tokens, 2).unwrap_err().expected, Expected::Word);
    assert_eq!(parse_type(&tokens, 9).unwrap_err().found, None);
}

#[test]
fn functions_with_and_without_a_body() {
    let tokens = tokenize("function add(a: int, b: int*) -> int { return a + b; }").unwrap();
    let (function, next) = parse_function(&tokens, 0, false).unwrap();
    assert_eq!(next, tokens.len());
    assert_eq!(
        function,
        Function {
            name: "add".to_string(),
            args: vec![
                ("a".to_string(), Type::Int),
                ("b".to_string(), Type::Pointer(Box::new(Type::Int))),
            ],
            return_type: Type::Int,
            body: Box::new(Expr::Block(Block {
                exprs: vec![Expr::Return(Box::new(binary(
                    variable("a"),
                    Token::Plus,
                    variable("b")
                )))],
            })),
        }
    );
    assert_eq!(
        parsed("function f() -> void;"),
        vec![Expr::Function(Function {
            name: "f".to_string(),
            args: vec![],
            return_type: Type::Void,
            body: Box::new(Expr::Empty),
        })]
    );
    let tokens = tokenize("function f() -> void { }").unwrap();
    let error = parse_function(&tokens, 0, true).unwrap_err();
    assert_eq!(error.expected, Expected::Token(Token::Semicolon));
    assert_eq!(error.found, Some(Token::LeftCurly));
}

#[test]
fn parameters_are_separated_by_commas() {
    let error = failure("function f(a: int b: int) -> int;");
    assert_eq!(error.expected, Expected::Token(Token::RightParen));
    assert_eq!(error.found, Some(word("b")));
    let error = failure("function f(a: int,) -> int;");
    assert_eq!(error.expected, Expected::Word);
    assert_eq!(error.found, Some(Token::RightParen));
    assert_eq!(failure("function f(a int) -> int;").expected, Expected::Token(Token::Colon));
    assert_eq!(failure("function f() int;").expected, Expected::Token(Token::LeftArrow));
    assert_eq!(failure("function f() -> int").expected, Expected::Token(Token::LeftCurly));
    assert_eq!(failure("function f() -> int {").expected, Expected::Token(Token::RightCurly));
    assert_eq!(failure("function").expected, Expected::Word);
    assert_eq!(failure("function f").expected, Expected::Token(Token::LeftParen));
}

#[test]
fn classes_with_members() {
    let source = "class C : B { function a() -> int; public virtual function b() -> int; \
                  private override function c() -> void { } external function d() -> int; }";
    let method = |name: &str, ret: Type, body: Expr, v: bool, o: bool, e: bool, access| {
        Expr::ClassFunction(ClassFunction {
            name: name.to_string(),
            args: vec![],
            return_type: ret,
            body: Box::new(body),
            is_virtual: v,
            is_override: o,
            is_external: e,
            access,
        })
    };
    assert_eq!(
        parsed(source),
        vec![Expr::Class(Class {
            name: "C".to_string(),
            base_class: Some("B".to_string()),
            methods: vec![
                method("a", Type::Int, Expr::Empty, false, false, false, AccessModifier::Private),
                method("b", Type::Int, Expr::Empty, true, false, false, AccessModifier::Public),
                method(
                    "c",
                    Type::Void,
                    Expr::Block(Block { exprs: vec![] }),
                    false,
                    true,
                    false,
                    AccessModifier::Private
                ),
                method("d", Type::Int, Expr::Empty, false, false, true, AccessModifier::Private),
            ],
        })]
    );
    assert_eq!(
        parsed("class E { }"),
        vec![Expr::Class(Class { name: "E".to_string(), base_class: None, methods: vec![] })]
    );
    assert_eq!(AccessModifier::default(), AccessModifier::Private);
}

#[test]
fn class_errors() {
    assert_eq!(failure("class { }").expected, Expected::Word);
    assert_eq!(failure("class A : { }").expected, Expected::Word);
    assert_eq!(failure("class A }").expected, Expected::Token(Token::LeftCurly));
    assert_eq!(failure("class A { function f() -> int;").expected, Expected::Token(Token::RightCurly));
    assert_eq!(failure("class A { var x: int = 1; }").expected, Expected::Token(word("function")));
    let error = failure("class A { public private function f() -> int; }");
    assert_eq!(error.expected, Expected::Token(word("function")));
    assert_eq!(error.found, Some(word("private")));
}

#[test]
fn an_external_method_has_no_body() {
    let error = failure("class A { external function f() -> int { return 1; } }");
    assert_eq!(error.expected, Expected::Token(Token::Semicolon));
    assert_eq!(error.found, Some(Token::LeftCurly));
    assert_eq!(error.before, Some(word("int")));
    assert_eq!(error.after, Some(word("return")));
}

#[test]
fn a_method_has_at_most_one_modifier() {
    for source in [
        "virtual override function f() -> int;",
        "virtual external function f() -> int;",
        "override virtual function f() -> int;",
        "override external function f() -> int;",
        "external virtual function f() -> int;",
        "external override function f() -> int;",
    ] {
        let tokens = tokenize(source).unwrap();
        let error = parse_class_function_def(&tokens, 0).unwrap_err();
        assert_eq!(error.expected, Expected::Token(word("function")));
        assert_eq!(error.found, Some(tokens[1].duplicate()));
    }
    for (source, flags) in [
        ("function f() -> int;", (false, false, false)),
        ("virtual function f() -> int;", (true, false, false)),
        ("override function f() -> int;", (false, true, false)),
        ("external function f() -> int;", (false, false, true)),
    ] {
        let tokens = tokenize(source).unwrap();
        match parse_class_function_def(&tokens, 0).unwrap() {
            (Expr::ClassFunction(f), next) => {
                assert_eq!((f.is_virtual, f.is_override, f.is_external), flags);
                assert_eq!(next, tokens.len());
            }
            other => panic!("unexpected {:?}", other),
        }
    }
}

#[test]
fn blocks_and_empty_statements() {
    assert_eq!(
        parsed("{ x; }"),
        vec![Expr::Block(Block { exprs: vec![variable("x"), Expr::Empty] })]
    );
    assert_eq!(parsed(";"), vec![Expr::Empty]);
    assert_eq!(
        parsed("{ { } }"),
        vec![Expr::Block(Block { exprs: vec![Expr::Block(Block { exprs: vec![] })] })]
    );
    assert_eq!(failure("{ x;").expected, Expected::Token(Token::RightCurly));
    assert_eq!(parsed(""), vec![]);
}

#[test]
fn reserved_words_are_no_variables() {
    for reserved in [
        "public", "private", "virtual", "override", "external", "int", "float", "string", "bool",
        "void", "char",
    ] {
        let error = failure(reserved);
        assert_eq!(error.expected, Expected::Primary);
        assert_eq!(error.found, Some(word(reserved)));
    }
    assert_eq!(parsed("integer"), vec![variable("integer")]);
}

#[test]
fn a_primary_must_start_with_a_fitting_token() {
    for source in [")", "}", ",", ":", "=", "+", "*", ".", "->", "1.5"] {
        let tokens = tokenize(source).unwrap();
        let error = parse_primary(&tokens, 0).unwrap_err();
        assert_eq!(error.expected, Expected::Primary);
        assert_eq!(error.found, Some(tokens[0].duplicate()));
        assert_eq!(error.before, None);
    }
    let error = parse_primary(&vec![], 0).unwrap_err();
    assert_eq!(error, ParseError { expected: Expected::Primary, found: None, before: None, after: None });
    let error = failure("1 +");
    assert_eq!(error.expected, Expected::Primary);
    assert_eq!(error.found, None);
    assert_eq!(error.before, Some(Token::Plus));
}

#[test]
fn parsing_twice_gives_equal_trees() {
    let source = "class A { public function f(a: int) -> int { return a * 2 + 1; } } \
                  var p: A* = new A(); p->f(3);";
    let first = tokenize(source).unwrap();
    let second = tokenize(source).unwrap();
    assert_eq!(parse_program(&first).unwrap(), parse_program(&first).unwrap());
    assert_eq!(parse_program(&first).unwrap(), parse_program(&second).unwrap());
}

fn check_shape(expr: &Expr) {
    match expr {
        Expr::Class(c) => {
            for m in &c.methods {
                assert!(matches!(m, Expr::ClassFunction(_)));
                check_shape(m);
            }
        }
        Expr::ClassFunction(f) => {
            let count = [f.is_virtual, f.is_override, f.is_external].iter().filter(|b| **b).count();
            assert!(count <= 1);
            assert!(matches!(*f.body, Expr::Block(_) | Expr::Empty));
            if f.is_external {
                assert_eq!(*f.body, Expr::Empty);
            }
            check_shape(&f.body);
        }
        Expr::Function(f) => {
            assert!(matches!(*f.body, Expr::Block(_) | Expr::Empty));
            check_shape(&f.body);
        }
        Expr::Block(b) => b.exprs.iter().for_each(check_shape),
        Expr::Return(v) => check_shape(v),
        Expr::VariableDeclaration(d) => check_shape(&d.value),
        Expr::BinaryOp(l, op, r) => {
            assert!(matches!(op, Token::Plus | Token::Minus | Token::Star | Token::Slash));
            check_shape(l);
            check_shape(r);
        }
        _ => {}
    }
}

#[test]
fn parsed_trees_are_well_formed() {
    let source = "class A : B { virtual function a() -> int; public override function b() -> int \
                  { return 1 + 2 * 3; } external function c() -> void; private function d() -> \
                  void { function inner() -> int; } } function g() -> int { return 0; } \
                  function h() -> int;";
    for expr in parsed(source) {
        check_shape(&expr);
    }
}

#[test]
fn a_function_without_a_body_ends_with_a_semicolon() {
    let tokens = tokenize("function h(a: int) -> int; 1").unwrap();
    let (function, next) = parse_function(&tokens, 0, false).unwrap();
    assert_eq!(*function.body, Expr::Empty);
    assert_eq!(tokens[next - 1], Token::Semicolon);
}

#[test]
fn an_item_parses_alike_wherever_it_stands() {
    let source = "var a: int = 1; class A : B { public function f(x: int) -> int { return x * 2; } } \
                  p->g(1, new A())->h().i + 3; { foo(2); }";
    let tokens = tokenize(source).unwrap();
    for k in 0..tokens.len() {
        let rest: Vec<Token> = tokens[k..].iter().map(Token::duplicate).collect();
        for statement in [true, false] {
            match (parse_token(&rest, 0, statement), parse_token(&tokens, k, statement)) {
                (Ok((here, j)), Ok((moved, m))) => {
                    assert_eq!(here, moved);
                    assert_eq!(j + k, m);
                }
                (Err(here), Err(moved)) => {
                    assert_eq!(here.expected, moved.expected);
                    assert_eq!(here.found, moved.found);
                    assert_eq!(here.after, moved.after);
                }
                (here, moved) => panic!("{:?} and {:?} at {}", here, moved, k),
            }
        }
    }
}
