use gemstone::ast::{Block, Expr, Function, New, Type, VariableDeclaration};
use gemstone::checker::{
    derives, type_check_all, type_check_expr, type_check_function,
    type_check_variable_declaration, type_checker_get_type, type_checker_match,
};
use gemstone::gemstone::Gemstone;
use gemstone::lowering::NodeKind;
use gemstone::table::Table;
use gemstone::typing::TypeCheckError;
use gemstone::ast::Class;

fn class(name: &str) -> Type {
    Type::Class(name.to_string())
}

fn pointer(t: Type) -> Type {
    Type::Pointer(Box::new(t))
}

fn checked(source: &str) -> Result<(), TypeCheckError> {
    let mut gem = Gemstone::new();
    let tokens = gem.lex(&source.to_string()).unwrap();
    let exprs = gem.parse(&tokens).unwrap();
    gem.type_checker(&exprs)
}

fn family() -> Table<Class> {
    let mut classes = Table::new();
    for (name, base) in [("A", Some("B")), ("B", Some("C")), ("C", None), ("D", None)] {
        classes.insert(
            name.to_string(),
            Class { name: name.to_string(), base_class: base.map(str::to_string), methods: vec![] },
        );
    }
    classes
}

#[test]
fn values_have_types() {
    assert_eq!(type_checker_get_type(&Expr::Int(3)).unwrap(), Type::Int);
    assert_eq!(type_checker_get_type(&Expr::String("s".to_string())).unwrap(), Type::String);
    assert_eq!(
        type_checker_get_type(&Expr::New(New { class_name: "A".to_string(), args: vec![] }))
            .unwrap(),
        pointer(class("A"))
    );
    assert_eq!(
        type_checker_get_type(&Expr::Variable("x".to_string())),
        Err(TypeCheckError::NotYetImplemented(NodeKind::Variable))
    );
    assert_eq!(
        type_checker_get_type(&Expr::Empty),
        Err(TypeCheckError::NotYetImplemented(NodeKind::Empty))
    );
}

#[test]
fn a_class_derives_from_itself_and_its_bases() {
    let classes = family();
    let name = |n: &str| n.to_string();
    assert!(derives(&classes, &name("A"), &name("A")));
    assert!(derives(&classes, &name("A"), &name("B")));
    assert!(derives(&classes, &name("A"), &name("C")));
    assert!(derives(&classes, &name("B"), &name("C")));
    assert!(!derives(&classes, &name("C"), &name("A")));
    assert!(!derives(&classes, &name("A"), &name("D")));
    assert!(!derives(&classes, &name("D"), &name("A")));
    assert!(derives(&classes, &name("Z"), &name("Z")));
    assert!(!derives(&classes, &name("Z"), &name("A")));
}

#[test]
fn a_cycle_of_base_classes_is_climbed_once() {
    let mut classes = Table::new();
    for (name, base) in [("A", "B"), ("B", "C"), ("C", "A")] {
        classes.insert(
            name.to_string(),
            Class {
                name: name.to_string(),
                base_class: Some(base.to_string()),
                methods: vec![],
            },
        );
    }
    let name = |n: &str| n.to_string();
    assert!(derives(&classes, &name("A"), &name("C")));
    assert!(derives(&classes, &name("C"), &name("B")));
    assert!(!derives(&classes, &name("A"), &name("Q")));
}

#[test]
fn pointers_match_by_target_and_classes_by_descent() {
    let classes = family();
    assert!(type_checker_match(&classes, &class("A"), &class("A")));
    assert!(type_checker_match(&classes, &class("A"), &class("C")));
    assert!(type_checker_match(&classes, &class("C"), &class("A")));
    assert!(!type_checker_match(&classes, &class("A"), &class("D")));
    assert!(type_checker_match(&classes, &pointer(class("B")), &pointer(class("A"))));
    assert!(type_checker_match(
        &classes,
        &pointer(pointer(class("A"))),
        &pointer(pointer(class("C")))
    ));
    assert!(!type_checker_match(&classes, &pointer(class("A")), &class("A")));
    assert!(!type_checker_match(&classes, &class("A"), &pointer(class("A"))));
    assert!(!type_checker_match(&classes, &pointer(class("A")), &pointer(pointer(class("A")))));
    assert!(!type_checker_match(&classes, &Type::Int, &Type::Int));
    assert!(!type_checker_match(&classes, &Type::String, &Type::String));
    assert!(!type_checker_match(&classes, &pointer(Type::Int), &pointer(Type::Int)));
    assert!(!type_checker_match(&classes, &Type::Int, &class("A")));
}

#[test]
fn declarations_are_held_to_their_types() {
    let source = "class C { } class B : C { } class A : B { } class D { } ";
    assert_eq!(checked(&format!("{} var p: A* = new A();", source)), Ok(()));
    assert_eq!(checked(&format!("{} var p: C* = new A();", source)), Ok(()));
    assert_eq!(checked(&format!("{} var p: A* = new C();", source)), Ok(()));
    assert_eq!(
        checked(&format!("{} var p: D* = new A();", source)),
        Err(TypeCheckError::Mismatch { declared: pointer(class("D")), found: pointer(class("A")) })
    );
    assert_eq!(
        checked(&format!("{} var p: A = new A();", source)),
        Err(TypeCheckError::Mismatch { declared: class("A"), found: pointer(class("A")) })
    );
    assert_eq!(checked("var p: Z* = new Z();"), Ok(()));
}

#[test]
fn primitive_types_match_nothing() {
    assert_eq!(
        checked("var x: int = 1;"),
        Err(TypeCheckError::Mismatch { declared: Type::Int, found: Type::Int })
    );
    assert_eq!(
        checked("var s: string = \"a\";"),
        Err(TypeCheckError::Mismatch { declared: Type::String, found: Type::String })
    );
}

#[test]
fn values_without_a_rule_are_named() {
    assert_eq!(
        checked("var x: int = a + 1;"),
        Err(TypeCheckError::NotYetImplemented(NodeKind::BinaryOp))
    );
    assert_eq!(
        checked("var x: int = p->f();"),
        Err(TypeCheckError::NotYetImplemented(NodeKind::MemberFunctionCall))
    );
    assert_eq!(
        checked("var x: int = f(1);"),
        Err(TypeCheckError::NotYetImplemented(NodeKind::FunctionCall))
    );
}

#[test]
fn only_functions_blocks_and_declarations_are_looked_at() {
    assert_eq!(checked("1 + 2; foo(3); return x;"), Ok(()));
    assert_eq!(checked("class A { function f() -> int { var x: int = 1; } }"), Ok(()));
    assert_eq!(checked("return { var x: int = 1; };"), Ok(()));
    assert_eq!(
        checked("function f() -> int { { var x: int = y; } }"),
        Err(TypeCheckError::NotYetImplemented(NodeKind::Variable))
    );
    assert_eq!(checked("function f() -> int;"), Ok(()));
    assert_eq!(
        checked("function f() -> A* { var a: A* = new A(); var b: int = 2; var c: int = c; }"),
        Err(TypeCheckError::Mismatch { declared: Type::Int, found: Type::Int })
    );
}

#[test]
fn the_parts_of_the_checker() {
    let classes = family();
    let good = VariableDeclaration {
        name: "p".to_string(),
        value: Box::new(Expr::New(New { class_name: "A".to_string(), args: vec![] })),
        var_type: pointer(class("B")),
        constant: false,
    };
    let bad = VariableDeclaration {
        name: "p".to_string(),
        value: Box::new(Expr::New(New { class_name: "A".to_string(), args: vec![] })),
        var_type: pointer(class("D")),
        constant: true,
    };
    let mismatch =
        TypeCheckError::Mismatch { declared: pointer(class("D")), found: pointer(class("A")) };
    assert_eq!(type_check_variable_declaration(&classes, &good), Ok(()));
    assert_eq!(type_check_variable_declaration(&classes, &bad), Err(mismatch.duplicate_for_test()));
    let body = Expr::Block(Block {
        exprs: vec![Expr::VariableDeclaration(good), Expr::VariableDeclaration(bad)],
    });
    let function = Function {
        name: "f".to_string(),
        args: vec![],
        return_type: Type::Void,
        body: Box::new(body),
    };
    assert_eq!(type_check_function(&classes, &function), Err(mismatch.duplicate_for_test()));
    assert_eq!(
        type_check_expr(&classes, &Expr::Function(function)),
        Err(mismatch.duplicate_for_test())
    );
    assert_eq!(type_check_all(&classes, &vec![Expr::Int(1)]), Ok(()));
    assert_eq!(type_check_all(&classes, &vec![]), Ok(()));
}

trait DuplicateForTest {
    fn duplicate_for_test(&self) -> Self;
}

impl DuplicateForTest for TypeCheckError {
    fn duplicate_for_test(&self) -> TypeCheckError {
        match self {
            TypeCheckError::Mismatch { declared, found } => TypeCheckError::Mismatch {
                declared: declared.duplicate(),
                found: found.duplicate(),
            },
            TypeCheckError::NotYetImplemented(kind) => TypeCheckError::NotYetImplemented(*kind),
        }
    }
}
