use gemstone::ast::{Expr, Type};
use gemstone::gemstone::Gemstone;
use gemstone::table::Table;

fn parsed(gem: &mut Gemstone, source: &str) -> Vec<Expr> {
    let tokens = gem.lex(&source.to_string()).unwrap();
    gem.parse(&tokens).unwrap()
}

#[test]
fn a_table_maps_names_to_values() {
    let mut table: Table<u32> = Table::new();
    assert_eq!(table.len(), 0);
    assert_eq!(table.get(&"a".to_string()), None);
    table.insert("a".to_string(), 1);
    table.insert("b".to_string(), 2);
    assert_eq!(table.len(), 2);
    assert_eq!(table.get(&"a".to_string()), Some(&1));
    assert_eq!(table.get(&"b".to_string()), Some(&2));
    assert_eq!(table.get(&"c".to_string()), None);
}

#[test]
fn inserting_again_replaces() {
    let mut table: Table<u32> = Table::new();
    table.insert("a".to_string(), 1);
    table.insert("b".to_string(), 2);
    table.insert("a".to_string(), 3);
    assert_eq!(table.len(), 2);
    assert_eq!(table.get(&"a".to_string()), Some(&3));
    assert_eq!(table.get(&"b".to_string()), Some(&2));
}

#[test]
fn a_new_context_declares_nothing() {
    let gem = Gemstone::new();
    assert!(gem.class(&"A".to_string()).is_none());
    assert!(gem.variable(&"x".to_string()).is_none());
    assert!(gem.is_internal_function(&"print".to_string()));
    assert!(gem.is_internal_function(&"println".to_string()));
    assert!(!gem.is_internal_function(&"printf".to_string()));
}

#[test]
fn parsing_enters_classes_and_variables() {
    let mut gem = Gemstone::new();
    let exprs = parsed(&mut gem, "class A : B { function f() -> int; } var x: int = 1;");
    let class = gem.class(&"A".to_string()).unwrap();
    assert_eq!(Expr::Class(class.duplicate()), exprs[0]);
    assert_eq!(class.base_class, Some("B".to_string()));
    let variable = gem.variable(&"x".to_string()).unwrap();
    assert_eq!(Expr::VariableDeclaration(variable.duplicate()), exprs[1]);
    assert!(gem.class(&"B".to_string()).is_none());
    assert!(gem.variable(&"A".to_string()).is_none());
}

#[test]
fn a_later_declaration_replaces_an_earlier_one() {
    let mut gem = Gemstone::new();
    parsed(&mut gem, "class A { } var x: int = 1; class A : B { } const x: string = \"s\";");
    assert_eq!(gem.class(&"A".to_string()).unwrap().base_class, Some("B".to_string()));
    let variable = gem.variable(&"x".to_string()).unwrap();
    assert_eq!(variable.var_type, Type::String);
    assert!(variable.constant);
    parsed(&mut gem, "class A : C { }");
    assert_eq!(gem.class(&"A".to_string()).unwrap().base_class, Some("C".to_string()));
    assert!(gem.variable(&"x".to_string()).is_some());
}

#[test]
fn nested_declarations_are_entered_too() {
    let mut gem = Gemstone::new();
    parsed(
        &mut gem,
        "function main() -> int { var a: int = 1; { const b: int = 2; } return (var c: int = 3;); } \
         class K { function f() -> void { class L { } var d: int = 4; } } \
         foo(var e: int = 5;, 6);",
    );
    for name in ["a", "b", "c", "d", "e"] {
        assert!(gem.variable(&name.to_string()).is_some(), "{}", name);
    }
    assert!(gem.class(&"K".to_string()).is_some());
    assert!(gem.class(&"L".to_string()).is_some());
}

#[test]
fn a_parse_error_enters_nothing() {
    let mut gem = Gemstone::new();
    let tokens = gem.lex(&"class A { } var x: int = 1; )".to_string()).unwrap();
    assert!(gem.parse(&tokens).is_err());
    assert!(gem.class(&"A".to_string()).is_none());
    assert!(gem.variable(&"x".to_string()).is_none());
}
