use gemstone::ast::Expr;
use gemstone::gemstone::Gemstone;
use gemstone::grammar::{Expected, ParseError};
use gemstone::lexer::LexError;
use gemstone::lowering::{EmitError, NodeKind};
use gemstone::{lower_source, CompileError};
use gemstone::token::Token;

fn squeeze(text: &str) -> String {
    text.chars().filter(|c| !c.is_whitespace()).collect()
}

fn lower(source: &str) -> String {
    let mut gem = Gemstone::new();
    let tokens = gem.lex(&source.to_string()).expect("lexes");
    let exprs = gem.parse(&tokens).expect("parses");
    gem.compile(&exprs).expect("lowers")
}

fn parse_error(source: &str) -> ParseError {
    let mut gem = Gemstone::new();
    let tokens = gem.lex(&source.to_string()).expect("lexes");
    gem.parse(&tokens).expect_err("does not parse")
}

fn assert_lowered_contains(source: &str, expected: &str) {
    let output = lower(source);
    assert!(
        squeeze(&output).contains(&squeeze(expected)),
        "{:?} does not contain {:?}",
        output,
        expected
    );
}

#[test]
fn main_function_is_lowered() {
    assert_lowered_contains(
        "function main() -> int { return 0; }",
        "int main() {\n return 0;\n}\n",
    );
    assert_eq!(
        lower("function main() -> int { return 0; }"),
        "#include <stdio.h>\n#include <string>\nint main() {\nreturn 0;\n}\n"
    );
}

#[test]
fn precedence_needs_no_parentheses() {
    assert_lowered_contains("var x: int = 1 + 2 * 3;", "int x = 1 + 2 * 3;");
    assert_eq!(
        lower("var x: int = 1 + 2 * 3;"),
        "#include <stdio.h>\n#include <string>\nint x = 1 + 2 * 3;\n"
    );
}

#[test]
fn class_with_public_method_is_lowered() {
    assert_lowered_contains(
        "class A { public function f() -> void { return; } }",
        "class A {\npublic:\nvoid f() {\nreturn ;\n}\n};",
    );
    assert_eq!(
        lower("class A { public function f() -> void { return; } }"),
        "#include <stdio.h>\n#include <string>\nclass A {\npublic:\nvoid f() {\nreturn ;\n}\n};\n"
    );
}

#[test]
fn virtual_declaration_and_override_are_lowered() {
    let source = "class B : A { public virtual function g() -> int; } \
                  class C : B { public override function g() -> int { return 1; } }";
    assert_lowered_contains(source, "virtual int g() = 0;");
    assert_lowered_contains(source, "int g() override {\nreturn 1;\n}");
    assert_eq!(
        lower(source),
        "#include <stdio.h>\n#include <string>\n\
         class B: public A {\npublic:\nvirtual int g() = 0;\n};\n\
         class C: public B {\npublic:\nint g() override {\nreturn 1;\n}\n};\n"
    );
}

#[test]
fn pointer_variable_with_new_is_lowered() {
    assert_lowered_contains("var p: A* = new A();", "A *p = new A();");
    assert_eq!(
        lower("var p: A* = new A();"),
        "#include <stdio.h>\n#include <string>\nA* p = new A();\n"
    );
}

#[test]
fn print_and_println_become_printf() {
    assert_lowered_contains("println(\"hi\");", "printf(\"hi\"+\"\\n\");");
    assert_lowered_contains("print(\"hi\");", "printf(\"hi\");");
    assert_eq!(
        lower("println(\"hi\"); print(\"hi\");"),
        "#include <stdio.h>\n#include <string>\nprintf(\"hi\"+\"\\n\");\nprintf(\"hi\");\n"
    );
}

#[test]
fn missing_parameter_name_is_a_parse_error() {
    let error = parse_error("function f( -> int {}");
    assert_eq!(error.expected, Expected::Word);
    assert_eq!(error.found, Some(Token::LeftArrow));
    assert_eq!(error.before, Some(Token::LeftParen));
    assert_eq!(error.after, Some(Token::Word("int".to_string())));
}

#[test]
fn conflicting_modifiers_are_rejected() {
    let error = parse_error("external override function x() -> int;");
    assert_eq!(error.expected, Expected::Primary);
    assert_eq!(error.found, Some(Token::Word("external".to_string())));

    let error = parse_error("class A { external override function x() -> int; }");
    assert_eq!(error.expected, Expected::Token(Token::Word("function".to_string())));
    assert_eq!(error.found, Some(Token::Word("override".to_string())));

    let error = parse_error("class A { virtual external function x() -> int; }");
    assert_eq!(error.found, Some(Token::Word("external".to_string())));
}

#[test]
fn unterminated_string_is_a_lex_error() {
    let mut gem = Gemstone::new();
    assert_eq!(gem.lex(&"\"abc".to_string()), Err(LexError::UnterminatedString));
}

#[test]
fn nested_statements_keep_their_order() {
    let mut gem = Gemstone::new();
    let tokens = gem.lex(&"var a: int = 1; var b: int = 2;".to_string()).unwrap();
    let exprs = gem.parse(&tokens).unwrap();
    assert_eq!(exprs.len(), 2);
    match (&exprs[0], &exprs[1]) {
        (Expr::VariableDeclaration(a), Expr::VariableDeclaration(b)) => {
            assert_eq!(a.name, "a");
            assert_eq!(b.name, "b");
        }
        other => panic!("unexpected {:?}", other),
    }
}

#[test]
fn the_pipeline_in_one_call() {
    assert_eq!(
        lower_source("function main() -> int { println(\"hi\"); return 1 + 2; }"),
        Ok("#include <stdio.h>\n#include <string>\nint main() {\nprintf(\"hi\"+\"\\n\");\nreturn 1 + 2;\n}\n"
            .to_string())
    );
    assert_eq!(lower_source("\"abc"), Err(CompileError::Lex(LexError::UnterminatedString)));
    match lower_source("function f( -> int {}") {
        Err(CompileError::Parse(e)) => {
            assert_eq!(e.expected, Expected::Word);
            assert_eq!(e.found, Some(Token::LeftArrow));
        }
        other => panic!("unexpected {:?}", other),
    }
    assert_eq!(
        lower_source("function f() -> int;"),
        Err(CompileError::Emit(EmitError::InvalidBody(NodeKind::Empty)))
    );
}
