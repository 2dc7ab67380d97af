use gold::ast::{
    Arguments, BasicLit, ConstDecl, ConstSpec, Expression, ImportDecl, ImportPath, ImportSpec,
    Literal, Operand, OperandName, PackageClause, PrimaryExpr, SourceFile, StringLit, UnaryExpr,
};
use gold::scope::{bind, bind_import_spec, bind_source_file, eval, Scope};

fn ident_expr(name: &str, loc: usize) -> Expression {
    Expression {
        unary_expr: Some(UnaryExpr {
            primary_expr: PrimaryExpr {
                operand: Some(Operand {
                    loc,
                    literal: None,
                    operand_name: Some(OperandName { identifier: String::from(name) }),
                }),
                method_expr: None,
                selector: None,
                arguments: None,
            },
        }),
        expression1: None,
        expression2: None,
    }
}

fn interpreted_expr(text: &str, loc: usize) -> Expression {
    Expression {
        unary_expr: Some(UnaryExpr {
            primary_expr: PrimaryExpr {
                operand: Some(Operand {
                    loc,
                    literal: Some(Literal {
                        basic_lit: BasicLit {
                            string_lit: StringLit {
                                raw_string_lit: None,
                                interpreted_string_lit: Some(String::from(text)),
                            },
                        },
                    }),
                    operand_name: None,
                }),
                method_expr: None,
                selector: None,
                arguments: None,
            },
        }),
        expression1: None,
        expression2: None,
    }
}

fn raw_expr(text: &str, loc: usize) -> Expression {
    Expression {
        unary_expr: Some(UnaryExpr {
            primary_expr: PrimaryExpr {
                operand: Some(Operand {
                    loc,
                    literal: Some(Literal {
                        basic_lit: BasicLit {
                            string_lit: StringLit {
                                raw_string_lit: Some(String::from(text)),
                                interpreted_string_lit: None,
                            },
                        },
                    }),
                    operand_name: None,
                }),
                method_expr: None,
                selector: None,
                arguments: None,
            },
        }),
        expression1: None,
        expression2: None,
    }
}

fn call_expr(callee: &str, arg: Expression, loc: usize) -> Expression {
    Expression {
        unary_expr: Some(UnaryExpr {
            primary_expr: PrimaryExpr {
                operand: Some(Operand {
                    loc,
                    literal: None,
                    operand_name: Some(OperandName { identifier: String::from(callee) }),
                }),
                method_expr: None,
                selector: None,
                arguments: Some(Arguments { expression_list: vec![arg] }),
            },
        }),
        expression1: None,
        expression2: None,
    }
}

fn import(alias: Option<&str>, quoted_path: &str) -> ImportSpec {
    ImportSpec {
        alias: alias.map(String::from),
        import_path: ImportPath {
            string_lit: StringLit {
                raw_string_lit: None,
                interpreted_string_lit: Some(String::from(quoted_path)),
            },
        },
    }
}

#[test]
fn eval_strips_interpreted_delimiters() {
    let scope = Scope::new();
    let e = interpreted_expr("\"hello\"", 0);
    assert_eq!(eval(&scope, &e), Some(String::from("hello")));
}

#[test]
fn eval_strips_raw_delimiters() {
    let scope = Scope::new();
    let e = raw_expr("`a[b`", 0);
    assert_eq!(eval(&scope, &e), Some(String::from("a[b")));
}

#[test]
fn eval_of_unbound_identifier_is_none() {
    let scope = Scope::new();
    assert_eq!(eval(&scope, &ident_expr("x", 0)), None);
}

#[test]
fn eval_of_call_is_none() {
    let scope = Scope::new();
    let e = call_expr("f", interpreted_expr("\"x\"", 1), 0);
    assert_eq!(eval(&scope, &e), None);
}

#[test]
fn bind_records_and_lookup_finds() {
    let mut scope = Scope::new();
    bind(&mut scope, "x", &interpreted_expr("\"one\"", 0));
    assert_eq!(eval(&scope, &ident_expr("x", 1)), Some(String::from("one")));
}

#[test]
fn later_binding_shadows_earlier() {
    let mut scope = Scope::new();
    bind(&mut scope, "x", &interpreted_expr("\"one\"", 0));
    bind(&mut scope, "x", &interpreted_expr("\"two\"", 1));
    assert_eq!(eval(&scope, &ident_expr("x", 2)), Some(String::from("two")));
}

#[test]
fn failed_binding_keeps_prior_value() {
    let mut scope = Scope::new();
    bind(&mut scope, "x", &interpreted_expr("\"one\"", 0));
    bind(&mut scope, "x", &ident_expr("unbound", 1));
    assert_eq!(eval(&scope, &ident_expr("x", 2)), Some(String::from("one")));
}

#[test]
fn import_binds_last_segment_to_full_path() {
    let mut scope = Scope::new();
    bind_import_spec(&mut scope, &import(None, "\"net/http\""));
    assert_eq!(scope.get("http"), Some(String::from("net/http")));
    assert_eq!(scope.get("net/http"), None);
}

#[test]
fn import_alias_overrides_segment() {
    let mut scope = Scope::new();
    bind_import_spec(&mut scope, &import(Some("re"), "\"regexp\""));
    assert_eq!(scope.get("re"), Some(String::from("regexp")));
    assert_eq!(scope.get("regexp"), None);
}

#[test]
fn source_file_walk_binds_imports_and_constants() {
    let file = SourceFile {
        package_clause: PackageClause { package_name: String::from("main") },
        import_decl: ImportDecl { import_spec: vec![import(None, "\"regexp\"")] },
        top_level_decls: vec![gold::ast::TopLevelDecl {
            declaration: Some(gold::ast::Declaration {
                const_decl: Some(ConstDecl {
                    const_spec: ConstSpec {
                        identifier_list: vec![String::from("pattern")],
                        expression_list: vec![interpreted_expr("\"[\"", 3)],
                    },
                }),
                type_decl: None,
                var_decl: None,
            }),
            function_decl: None,
            method_decl: None,
        }],
    };
    let mut scope = Scope::new();
    bind_source_file(&mut scope, &file);
    assert_eq!(scope.get("regexp"), Some(String::from("regexp")));
    assert_eq!(scope.get("pattern"), Some(String::from("[")));
}
