use gold::configuration::golangci::{Gci, GolangciConfiguration, LintersSettings, Run};
use gold::configuration::{resolve, Configuration};
use gold::file_linter;
use gold::error::Point;
use gold::module_linter::{is_source_file, ModuleLinter};

fn foreign(sections: Option<Vec<&str>>, skip_dirs: Option<Vec<&str>>) -> GolangciConfiguration {
    GolangciConfiguration {
        run: Some(Run {
            skip_dirs: skip_dirs.map(|d| d.iter().map(|s| String::from(*s)).collect()),
        }),
        linters_settings: Some(LintersSettings {
            gci: Some(Gci {
                sections: sections.map(|d| d.iter().map(|s| String::from(*s)).collect()),
            }),
        }),
    }
}

#[test]
fn default_configuration_shape() {
    let c = Configuration::default();
    assert!(c.enable.is_none());
    assert!(c.ignore.is_none());
    let sections = c.settings.unwrap().F002;
    assert_eq!(sections, vec![String::from("standard"), String::from("default")]);
}

#[test]
fn new_is_the_default_configuration() {
    let c = Configuration::new();
    assert!(c.enable.is_none());
    assert_eq!(
        c.settings.unwrap().F002,
        vec![String::from("standard"), String::from("default")]
    );
}

#[test]
fn every_rule_runs_without_an_allow_list() {
    let c = Configuration::default();
    assert!(c.is_enabled(String::from("F001")));
    assert!(c.is_enabled(String::from("F002")));
    assert!(c.is_enabled(String::from("SA1000")));
}

#[test]
fn allow_list_restricts_rules() {
    let mut c = Configuration::default();
    c.enable = Some(vec![String::from("F002")]);
    assert!(!c.is_enabled(String::from("F001")));
    assert!(c.is_enabled(String::from("F002")));
}

#[test]
fn foreign_configuration_adapts_sections_and_skips() {
    let gc = foreign(
        Some(vec!["standard", "prefix(example.com)", "default"]),
        Some(vec!["vendor"]),
    );
    let c = Configuration::from(gc);
    assert!(c.enable.is_none());
    assert_eq!(
        c.settings.unwrap().F002,
        vec![
            String::from("standard"),
            String::from("prefix(example.com)"),
            String::from("default")
        ]
    );
    assert_eq!(c.ignore, Some(vec![String::from("vendor")]));
}

#[test]
fn foreign_configuration_without_sections_keeps_defaults() {
    let gc = foreign(None, None);
    let c = Configuration::from(gc);
    assert_eq!(
        c.settings.unwrap().F002,
        vec![String::from("standard"), String::from("default")]
    );
    assert!(c.ignore.is_none());
}

#[test]
fn native_configuration_wins_without_a_notice() {
    let mut native = Configuration::default();
    native.enable = Some(vec![String::from("F001")]);
    let (chosen, notice) = resolve(Some(native), Some(foreign(Some(vec!["default"]), None)));
    assert!(!notice);
    assert_eq!(chosen.enable, Some(vec![String::from("F001")]));
    assert_eq!(
        chosen.settings.unwrap().F002,
        vec![String::from("standard"), String::from("default")]
    );
}

#[test]
fn foreign_fallback_emits_a_notice() {
    let (chosen, notice) = resolve(None, Some(foreign(Some(vec!["default"]), None)));
    assert!(notice);
    assert_eq!(chosen.settings.unwrap().F002, vec![String::from("default")]);
}

#[test]
fn built_in_default_closes_the_list() {
    let (chosen, notice) = resolve(None, None);
    assert!(!notice);
    assert!(chosen.enable.is_none());
}

#[test]
fn module_linter_starts_from_the_default() {
    let linter = ModuleLinter::new(true);
    assert!(linter.fix);
    assert!(linter.configuration.enable.is_none());
    let linter = ModuleLinter::new(false);
    assert!(!linter.fix);
}

#[test]
fn module_path_comes_from_the_module_directive() {
    let source = "module example.com/x\n\ngo 1.21\n";
    assert_eq!(
        gold::module_linter::get_module(source),
        Some(String::from("example.com/x"))
    );
}

#[test]
fn quoted_module_path_is_unquoted() {
    assert_eq!(
        gold::module_linter::get_module("module \"example.com/x\"\n"),
        Some(String::from("example.com/x"))
    );
}

#[test]
fn module_directive_must_open_a_line() {
    assert_eq!(gold::module_linter::get_module("xmodule y\n"), None);
    assert_eq!(gold::module_linter::get_module("go 1.21\n"), None);
    assert_eq!(
        gold::module_linter::get_module("go 1.21\nmodule m/x"),
        Some(String::from("m/x"))
    );
}

#[test]
fn source_files_end_in_the_suffix() {
    assert!(is_source_file("cmd/main.go"));
    assert!(is_source_file("a.go"));
    assert!(!is_source_file("go.mod"));
    assert!(!is_source_file("go"));
    assert!(!is_source_file("main.rs"));
}

#[test]
fn clean_file_round_trips() {
    let params = vec![];
    let lists = vec![];
    let (errors, edits) = file_linter::run("main.go", false, &Configuration::default(), &params, &lists);
    assert!(errors.is_empty());
    assert!(edits.is_empty());
    let (errors, edits) = file_linter::run("main.go", true, &Configuration::default(), &params, &lists);
    assert!(errors.is_empty());
    let source = "package main\n";
    assert_eq!(gold::edit::apply_edits(source, &edits), Some(String::from(source)));
}

#[test]
fn combined_run_appends_in_rule_order() {
    let params = vec![
        gold::f001::Parameter {
            list: 1,
            decl: 10,
            decl_start: 5,
            decl_end: 13,
            name: String::from("a"),
            kind: String::from("string"),
            kind_pos: Point { row: 0, column: 7 },
        },
        gold::f001::Parameter {
            list: 1,
            decl: 11,
            decl_start: 15,
            decl_end: 23,
            name: String::from("b"),
            kind: String::from("string"),
            kind_pos: Point { row: 0, column: 17 },
        },
    ];
    let lists = vec![gold::f002::ImportList {
        start: 0,
        end: 20,
        items: vec![
            gold::f002::ImportItem { text: String::from("("), pos: Point { row: 1, column: 0 } },
            gold::f002::ImportItem {
                text: String::from("\"example.com/x\""),
                pos: Point { row: 2, column: 1 },
            },
            gold::f002::ImportItem {
                text: String::from("\"fmt\""),
                pos: Point { row: 3, column: 1 },
            },
            gold::f002::ImportItem { text: String::from(")"), pos: Point { row: 4, column: 0 } },
        ],
    }];
    let (errors, edits) = file_linter::run("main.go", false, &Configuration::default(), &params, &lists);
    assert_eq!(errors.len(), 2);
    assert_eq!(errors[0].rule, "F001");
    assert_eq!(errors[1].rule, "F002");
    assert_eq!(edits.len(), 1);
}
