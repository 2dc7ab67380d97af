use gold::ast::{
    Arguments, BasicLit, Expression, Literal, Operand, OperandName, PrimaryExpr, Selector,
    StringLit, UnaryExpr,
};
use gold::configuration::Configuration;
use gold::error::Point;
use gold::f001;
use gold::f002;
use gold::f002::{ImportItem, ImportList};
use gold::sa1000;
use gold::sa1001;
use gold::sa1002;
use gold::scope::{bind_import_spec, Scope};

fn param(list: usize, decl: usize, span: (usize, usize), name: &str, kind: &str, row: usize, column: usize) -> f001::Parameter {
    f001::Parameter {
        list,
        decl,
        decl_start: span.0,
        decl_end: span.1,
        name: String::from(name),
        kind: String::from(kind),
        kind_pos: Point { row, column },
    }
}

fn ident_arg(name: &str, loc: usize) -> Expression {
    Expression {
        unary_expr: Some(UnaryExpr {
            primary_expr: PrimaryExpr {
                operand: Some(Operand {
                    loc,
                    literal: None,
                    operand_name: Some(OperandName { identifier: String::from(name) }),
                }),
                method_expr: None,
                selector: None,
                arguments: None,
            },
        }),
        expression1: None,
        expression2: None,
    }
}

fn literal_arg(text: &str, loc: usize) -> Expression {
    Expression {
        unary_expr: Some(UnaryExpr {
            primary_expr: PrimaryExpr {
                operand: Some(Operand {
                    loc,
                    literal: Some(Literal {
                        basic_lit: BasicLit {
                            string_lit: StringLit {
                                raw_string_lit: None,
                                interpreted_string_lit: Some(String::from(text)),
                            },
                        },
                    }),
                    operand_name: None,
                }),
                method_expr: None,
                selector: None,
                arguments: None,
            },
        }),
        expression1: None,
        expression2: None,
    }
}

fn call(package: &str, method: &str, arg: Expression) -> PrimaryExpr {
    PrimaryExpr {
        operand: Some(Operand {
            loc: 0,
            literal: None,
            operand_name: Some(OperandName { identifier: String::from(package) }),
        }),
        method_expr: None,
        selector: Some(Selector { identifier: String::from(method) }),
        arguments: Some(Arguments { expression_list: vec![arg] }),
    }
}

fn plain_import(quoted_path: &str) -> gold::ast::ImportSpec {
    gold::ast::ImportSpec {
        alias: None,
        import_path: gold::ast::ImportPath {
            string_lit: StringLit {
                raw_string_lit: None,
                interpreted_string_lit: Some(String::from(quoted_path)),
            },
        },
    }
}

fn item(text: &str, row: usize) -> ImportItem {
    ImportItem { text: String::from(text), pos: Point { row, column: 1 } }
}

#[test]
fn one_declaration_group_is_fine() {
    let params = vec![
        param(1, 10, (4, 5), "a", "string", 0, 4),
        param(1, 10, (4, 5), "b", "string", 0, 7),
    ];
    let (errors, edits) = f001::run("main.go", false, &Configuration::default(), &params);
    assert!(errors.is_empty());
    assert!(edits.is_empty());
}

#[test]
fn adjacent_groups_with_same_type_are_flagged() {
    let params = vec![
        param(1, 10, (5, 13), "a", "string", 0, 7),
        param(1, 11, (15, 23), "b", "string", 0, 17),
    ];
    let (errors, edits) = f001::run("main.go", false, &Configuration::default(), &params);
    assert_eq!(errors.len(), 1);
    assert!(edits.is_empty());
    assert_eq!(errors[0].position, Point { row: 0, column: 7 });
    assert_eq!(errors[0].rule, "F001");
    assert_eq!(errors[0].message, r#"redundant parameter type "string""#);
    assert_eq!(
        errors[0].text(),
        String::from(r#"main.go:1:8: redundant parameter type "string" (F001)"#)
    );
}

#[test]
fn fix_mode_merges_the_broken_group() {
    let params = vec![
        param(1, 10, (5, 13), "a", "string", 0, 7),
        param(1, 11, (15, 23), "b", "string", 0, 17),
    ];
    let (errors, edits) = f001::run("main.go", true, &Configuration::default(), &params);
    assert!(errors.is_empty());
    assert_eq!(edits.len(), 1);
    assert_eq!((edits[0].start, edits[0].end), (5, 13));
    assert_eq!(edits[0].text, "a");
}

#[test]
fn fix_merges_all_names_of_the_group() {
    let params = vec![
        param(1, 10, (5, 16), "a", "int", 0, 10),
        param(1, 10, (5, 16), "b", "int", 0, 10),
        param(1, 11, (18, 23), "c", "int", 0, 20),
    ];
    let (errors, edits) = f001::run("main.go", true, &Configuration::default(), &params);
    assert!(errors.is_empty());
    assert_eq!(edits.len(), 1);
    assert_eq!(edits[0].text, "a, b");
}

#[test]
fn different_types_are_not_flagged() {
    let params = vec![
        param(1, 10, (5, 13), "a", "int", 0, 7),
        param(1, 11, (15, 23), "b", "string", 0, 17),
    ];
    let (errors, edits) = f001::run("main.go", false, &Configuration::default(), &params);
    assert!(errors.is_empty());
    assert!(edits.is_empty());
}

#[test]
fn disabled_rule_stays_silent() {
    let params = vec![
        param(1, 10, (5, 13), "a", "string", 0, 7),
        param(1, 11, (15, 23), "b", "string", 0, 17),
    ];
    let mut configuration = Configuration::default();
    configuration.enable = Some(vec![String::from("F002")]);
    let (errors, edits) = f001::run("main.go", false, &configuration, &params);
    assert!(errors.is_empty());
    assert!(edits.is_empty());
}

#[test]
fn sorted_imports_pass() {
    let lists = vec![ImportList {
        start: 10,
        end: 60,
        items: vec![
            item("(", 1),
            item("\"fmt\"", 2),
            item("\n\n", 2),
            item("\"example.com/x\"", 3),
            item(")", 4),
        ],
    }];
    let (errors, edits) = f002::run("main.go", &Configuration::default(), &lists);
    assert!(errors.is_empty());
    assert!(edits.is_empty());
}

#[test]
fn unsorted_import_is_reported_and_rewritten() {
    let lists = vec![ImportList {
        start: 10,
        end: 60,
        items: vec![
            item("(", 1),
            item("\"example.com/x\"", 2),
            item("\"fmt\"", 3),
            item(")", 4),
        ],
    }];
    let (errors, edits) = f002::run("main.go", &Configuration::default(), &lists);
    assert_eq!(errors.len(), 1);
    assert_eq!(errors[0].message, r#"unsorted import "fmt""#);
    assert_eq!(errors[0].rule, "F002");
    assert_eq!(errors[0].position, Point { row: 3, column: 1 });
    assert_eq!(edits.len(), 1);
    assert_eq!((edits[0].start, edits[0].end), (10, 60));
    assert_eq!(edits[0].text, "(\n\t\"fmt\"\n\n\t\"example.com/x\"\n)");
}

#[test]
fn unclassified_import_is_reported() {
    let mut configuration = Configuration::default();
    configuration.settings = Some(gold::configuration::Settings {
        F002: vec![String::from("standard")],
    });
    let lists = vec![ImportList {
        start: 0,
        end: 30,
        items: vec![item("(", 1), item("\"example.com/x\"", 2), item(")", 3)],
    }];
    let (errors, edits) = f002::run("main.go", &configuration, &lists);
    assert_eq!(errors.len(), 1);
    assert_eq!(errors[0].message, r#"unclassified import "example.com/x""#);
    assert_eq!(edits.len(), 1);
    // unclassified imports are dropped from the rewritten block
    assert_eq!(edits[0].text, "(\n\n)");
}

#[test]
fn aliased_import_spec_text_is_classified_by_its_path() {
    let lists = vec![ImportList {
        start: 0,
        end: 40,
        items: vec![
            item("(", 1),
            item("x \"example.com/x\"", 2),
            item("\"fmt\"", 3),
            item(")", 4),
        ],
    }];
    let (errors, _) = f002::run("main.go", &Configuration::default(), &lists);
    assert_eq!(errors.len(), 1);
    assert_eq!(errors[0].message, r#"unsorted import "fmt""#);
}

#[test]
fn fixing_twice_changes_nothing_more() {
    // first pass: the block is out of order and gets rewritten
    let source = "import (\n\"example.com/x\"\n\"fmt\"\n)\n";
    let lists = vec![ImportList {
        start: 7,
        end: 32,
        items: vec![
            item("(", 0),
            item("\"example.com/x\"", 1),
            item("\"fmt\"", 2),
            item(")", 3),
        ],
    }];
    let (errors, edits) = f002::run("main.go", &Configuration::default(), &lists);
    assert_eq!(errors.len(), 1);
    let fixed = gold::edit::apply_edits(source, &edits).unwrap();
    assert_eq!(fixed, "import (\n\t\"fmt\"\n\n\t\"example.com/x\"\n)\n");

    // second pass: the children the rewritten block denotes lint clean
    let lists = vec![ImportList {
        start: 7,
        end: 38,
        items: vec![
            item("(", 0),
            item("\"fmt\"", 1),
            item("\n\n", 2),
            item("\"example.com/x\"", 3),
            item(")", 4),
        ],
    }];
    let (errors, edits) = f002::run("main.go", &Configuration::default(), &lists);
    assert!(errors.is_empty());
    assert!(edits.is_empty());
    assert_eq!(gold::edit::apply_edits(&fixed, &edits).unwrap(), fixed);
}

#[test]
fn unresolved_variable_produces_no_request() {
    let mut scope = Scope::new();
    bind_import_spec(&mut scope, &plain_import("\"regexp\""));
    let c = call("regexp", "Compile", ident_arg("x", 30));
    assert!(sa1000::run(&Configuration::default(), &scope, &c).is_none());
}

#[test]
fn resolved_literal_becomes_a_request() {
    let mut scope = Scope::new();
    bind_import_spec(&mut scope, &plain_import("\"regexp\""));
    let c = call("regexp", "MustCompile", literal_arg("\"[\"", 30));
    let req = sa1000::run(&Configuration::default(), &scope, &c).unwrap();
    assert_eq!(req.expr, "[");
    assert_eq!(req.loc, 30);
}

#[test]
fn unimported_package_stays_silent() {
    let scope = Scope::new();
    let c = call("regexp", "Compile", literal_arg("\"[\"", 30));
    assert!(sa1000::run(&Configuration::default(), &scope, &c).is_none());
}

#[test]
fn other_package_stays_silent() {
    let mut scope = Scope::new();
    bind_import_spec(&mut scope, &plain_import("\"strings\""));
    let c = call("strings", "Compile", literal_arg("\"[\"", 30));
    assert!(sa1000::run(&Configuration::default(), &scope, &c).is_none());
}

#[test]
fn oracle_message_is_reported_verbatim() {
    let oracle_message = "error parsing regexp: missing closing ]: `[`";
    let report = sa1000::report(
        "main.go",
        Point { row: 4, column: 20 },
        Some(String::from(oracle_message)),
    )
    .unwrap();
    assert_eq!(report.message, oracle_message);
    assert_eq!(
        report.text(),
        format!("main.go:5:21: {} (SA1000)", oracle_message)
    );
}

#[test]
fn valid_pattern_yields_no_diagnostic() {
    assert!(sa1000::report("main.go", Point { row: 4, column: 20 }, None).is_none());
}

#[test]
fn template_dialect_follows_the_import() {
    let mut scope = Scope::new();
    bind_import_spec(&mut scope, &plain_import("\"html/template\""));
    let req = sa1001::run(
        &Configuration::default(),
        &scope,
        &ident_arg("template", 10),
        &literal_arg("\"{{\"", 25),
    )
    .unwrap();
    assert_eq!(req.dialect, sa1001::Dialect::HtmlTemplate);
    assert_eq!(req.expr, "{{");
    assert_eq!(req.loc, 25);
}

#[test]
fn template_parse_errors_only() {
    let pos = Point { row: 0, column: 0 };
    let kept = sa1001::report("t.go", pos, Some(String::from("template: x:1: unexpected EOF")));
    assert!(kept.is_some());
    let dropped = sa1001::report("t.go", pos, Some(String::from("template: map has no entry")));
    assert!(dropped.is_none());
}

#[test]
fn time_layout_is_normalized() {
    let mut scope = Scope::new();
    bind_import_spec(&mut scope, &plain_import("\"time\""));
    let c = call("time", "Parse", literal_arg("\"2006_01_02Z\"", 12));
    let req = sa1002::run(&Configuration::default(), &scope, &c).unwrap();
    assert_eq!(req.expr, "2006 01 02-");
    assert_eq!(req.loc, 12);
}
