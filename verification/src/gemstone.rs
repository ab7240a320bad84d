//! The compiler context: the built-in functions and the tables of the
//! classes and variables declared so far, with the phases of the compiler
//! as methods.
use vstd::prelude::*;
use vstd::string::*;
use crate::ast::{
    class_views, declaration_views, exprs_view, Class, ClassView, Expr, VariableDeclaration,
    VariableDeclarationView,
};
use crate::checker::{checked_view, type_check_all};
use crate::emitter::{compile_program, text_view};
use crate::grammar;
use crate::grammar::ParseError;
use crate::lexer::{lex_tokens, lexed_view, tokenize, LexError};
use crate::lowering;
use crate::lowering::EmitError;
use crate::parser::{parse_program, parsed_program_view};
use crate::scope::{
    declared_classes, declared_classes_all, declared_variables, declared_variables_all,
    lemma_with_classes_concat, lemma_with_variables_concat, with_classes, with_variables,
};
use crate::table::Table;
use crate::token::{tokens_view, Token};
use crate::typing;
use crate::typing::TypeCheckError;

verus! {

/// The state of a compilation.
pub struct Gemstone {
    internal_functions: Vec<String>,
    classes: Table<Class>,
    variables: Table<VariableDeclaration>,
}

impl Gemstone {
    /// The tables are well formed, and the built-in functions are `print`
    /// and `println`.
    pub closed spec fn wf(&self) -> bool {
        &&& self.classes.wf()
        &&& self.variables.wf()
        &&& self.internal_functions@.len() == 2
        &&& self.internal_functions@[0]@ == "print"@
        &&& self.internal_functions@[1]@ == "println"@
    }

    /// The classes declared so far, by name.
    pub closed spec fn classes(&self) -> Map<Seq<char>, ClassView> {
        class_views(self.classes.map())
    }

    /// The variables declared so far, by name.
    pub closed spec fn variables(&self) -> Map<Seq<char>, VariableDeclarationView> {
        declaration_views(self.variables.map())
    }

    /// A context in which nothing is declared yet.
    pub fn new() -> (g: Gemstone)
        ensures
            g.wf(),
            g.classes() == Map::<Seq<char>, ClassView>::empty(),
            g.variables() == Map::<Seq<char>, VariableDeclarationView>::empty(),
    {
        let mut internal_functions: Vec<String> = Vec::new();
        internal_functions.push(String::from_str("print"));
        internal_functions.push(String::from_str("println"));
        let g = Gemstone { internal_functions, classes: Table::new(), variables: Table::new() };
        assert(g.classes() =~= Map::<Seq<char>, ClassView>::empty());
        assert(g.variables() =~= Map::<Seq<char>, VariableDeclarationView>::empty());
        g
    }

    /// Whether `name` names a built-in function.
    pub fn is_internal_function(&self, name: &String) -> (r: bool)
        requires
            self.wf(),
        ensures
            r == grammar::is_builtin(name@),
    {
        self.internal_functions[0] == *name || self.internal_functions[1] == *name
    }

    /// The class declared under `name`, if there is one.
    pub fn class(&self, name: &String) -> (r: Option<&Class>)
        requires
            self.wf(),
        ensures
            match r {
                Some(c) => self.classes().contains_key(name@) && self.classes()[name@] == c@,
                None => !self.classes().contains_key(name@),
            },
    {
        self.classes.get(name)
    }

    /// The variable declared under `name`, if there is one.
    pub fn variable(&self, name: &String) -> (r: Option<&VariableDeclaration>)
        requires
            self.wf(),
        ensures
            match r {
                Some(d) => self.variables().contains_key(name@) && self.variables()[name@] == d@,
                None => !self.variables().contains_key(name@),
            },
    {
        self.variables.get(name)
    }

    /// The tokens of `contents`, or the first lexical error in it. The
    /// context stays as it is.
    pub fn lex(&mut self, contents: &String) -> (r: Result<Vec<Token>, LexError>)
        ensures
            lexed_view(r) == lex_tokens(contents@),
            *final(self) == *old(self),
    {
        tokenize(contents.as_str())
    }

    /// Enters the declarations of `e` into the tables.
    fn record(&mut self, e: &Expr)
        requires
            old(self).wf(),
        ensures
            final(self).wf(),
            final(self).classes() == with_classes(old(self).classes(), declared_classes(e@)),
            final(self).variables() == with_variables(
                old(self).variables(),
                declared_variables(e@),
            ),
        decreases e, 1int,
    {
        match e {
            Expr::Class(c) => {
                self.record_all(&c.methods);
                let ghost inner = self.classes();
                let ghost found = declared_classes_all(exprs_view(c.methods@));
                self.classes.insert(c.name.clone(), c.duplicate());
                proof {
                    assert(self.classes() =~= inner.insert(c@.name, c@));
                    assert(found.push(c@).drop_last() =~= found);
                }
            },
            Expr::ClassFunction(f) => {
                self.record(&f.body);
            },
            Expr::Function(f) => {
                self.record(&f.body);
            },
            Expr::Block(b) => {
                self.record_all(&b.exprs);
            },
            Expr::FunctionCall(c) => {
                self.record_all(&c.args);
            },
            Expr::InternalFunctionCall(c) => {
                self.record_all(&c.args);
            },
            Expr::Return(value) => {
                self.record(value);
            },
            Expr::VariableDeclaration(d) => {
                self.record(&d.value);
                let ghost inner = self.variables();
                let ghost found = declared_variables(*d@.value);
                self.variables.insert(d.name.clone(), d.duplicate());
                proof {
                    assert(self.variables() =~= inner.insert(d@.name, d@));
                    assert(found.push(d@).drop_last() =~= found);
                }
            },
            Expr::New(n) => {
                self.record_all(&n.args);
            },
            Expr::BinaryOp(lhs, _, rhs) => {
                self.record(lhs);
                self.record(rhs);
                proof {
                    lemma_with_classes_concat(
                        old(self).classes(),
                        declared_classes(lhs@),
                        declared_classes(rhs@),
                    );
                    lemma_with_variables_concat(
                        old(self).variables(),
                        declared_variables(lhs@),
                        declared_variables(rhs@),
                    );
                }
            },
            Expr::Member(object, _) => {
                self.record(object);
            },
            Expr::MemberFunctionCall(object, c) => {
                self.record(object);
                self.record_all(&c.args);
                proof {
                    lemma_with_classes_concat(
                        old(self).classes(),
                        declared_classes(object@),
                        declared_classes_all(exprs_view(c.args@)),
                    );
                    lemma_with_variables_concat(
                        old(self).variables(),
                        declared_variables(object@),
                        declared_variables_all(exprs_view(c.args@)),
                    );
                }
            },
            _ => {},
        }
    }

    /// Enters the declarations of each node of `es`, in order.
    fn record_all(&mut self, es: &Vec<Expr>)
        requires
            old(self).wf(),
        ensures
            final(self).wf(),
            final(self).classes() == with_classes(
                old(self).classes(),
                declared_classes_all(exprs_view(es@)),
            ),
            final(self).variables() == with_variables(
                old(self).variables(),
                declared_variables_all(exprs_view(es@)),
            ),
        decreases es, 2int,
    {
        let ghost all = exprs_view(es@);
        let mut k: usize = 0;
        while k < es.len()
            invariant
                all == exprs_view(es@),
                k <= es.len(),
                self.wf(),
                self.classes() == with_classes(
                    old(self).classes(),
                    declared_classes_all(all.take(k as int)),
                ),
                self.variables() == with_variables(
                    old(self).variables(),
                    declared_variables_all(all.take(k as int)),
                ),
            decreases es.len() - k,
        {
            proof {
                assert(decreases_to!(*es => es[k as int]));
                assert(all.take(k + 1).drop_last() =~= all.take(k as int));
                assert(all.take(k + 1).last() == es[k as int]@);
                lemma_with_classes_concat(
                    old(self).classes(),
                    declared_classes_all(all.take(k as int)),
                    declared_classes(es[k as int]@),
                );
                lemma_with_variables_concat(
                    old(self).variables(),
                    declared_variables_all(all.take(k as int)),
                    declared_variables(es[k as int]@),
                );
            }
            self.record(&es[k]);
            k += 1;
        }
        assert(all.take(k as int) =~= all);
    }

    /// Parses `tokens` into the top-level items they spell, and enters
    /// the classes and variables that these declare into the tables. On a
    /// mismatch nothing is entered.
    pub fn parse(&mut self, tokens: &Vec<Token>) -> (r: Result<Vec<Expr>, ParseError>)
        requires
            old(self).wf(),
        ensures
            final(self).wf(),
            parsed_program_view(r) == grammar::parse_tokens(tokens_view(tokens@)),
            match r {
                Ok(exprs) => {
                    &&& final(self).classes() == with_classes(
                        old(self).classes(),
                        declared_classes_all(exprs_view(exprs@)),
                    )
                    &&& final(self).variables() == with_variables(
                        old(self).variables(),
                        declared_variables_all(exprs_view(exprs@)),
                    )
                },
                Err(_) => *final(self) == *old(self),
            },
    {
        match parse_program(tokens) {
            Ok(exprs) => {
                self.record_all(&exprs);
                Ok(exprs)
            },
            Err(e) => Err(e),
        }
    }

    /// Checks `exprs` against the classes declared so far: the first
    /// declaration whose value has no type yet, or whose types do not
    /// match, is the error. The context stays as it is.
    pub fn type_checker(&mut self, exprs: &Vec<Expr>) -> (r: Result<(), TypeCheckError>)
        requires
            old(self).wf(),
        ensures
            checked_view(r) == typing::check_all(old(self).classes(), exprs_view(exprs@)),
            *final(self) == *old(self),
    {
        type_check_all(&self.classes, exprs)
    }

    /// The C++ translation unit for `exprs`, or the first fault that keeps
    /// them from being lowered. The context stays as it is.
    pub fn compile(&mut self, exprs: &Vec<Expr>) -> (r: Result<String, EmitError>)
        ensures
            text_view(r) == lowering::program_text(exprs_view(exprs@)),
            *final(self) == *old(self),
    {
        compile_program(exprs)
    }
}

} // verus!
