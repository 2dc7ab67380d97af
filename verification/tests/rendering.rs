use gold::error::{Error, Point};

fn err(row: usize, column: usize) -> Error {
    Error {
        filename: String::from("main.go"),
        position: Point { row, column },
        rule: String::from("F001"),
        message: String::from(r#"redundant parameter type "string""#),
    }
}

#[test]
fn to_string() {
    let error = err(0, 0);
    assert_eq!(
        error.text(),
        String::from(r#"main.go:1:1: redundant parameter type "string" (F001)"#)
    );
}

#[test]
fn text_is_one_based() {
    let error = err(11, 3);
    assert_eq!(
        error.text(),
        String::from(r#"main.go:12:4: redundant parameter type "string" (F001)"#)
    );
}

#[test]
fn position_of_counts_rows_and_columns() {
    let source = "package main\nimport \"fmt\"\n";
    let p = gold::error::position_of(source, 0);
    assert_eq!((p.row, p.column), (0, 0));
    let p = gold::error::position_of(source, 5);
    assert_eq!((p.row, p.column), (0, 5));
    let p = gold::error::position_of(source, 13);
    assert_eq!((p.row, p.column), (1, 0));
    let p = gold::error::position_of(source, 20);
    assert_eq!((p.row, p.column), (1, 7));
}

#[test]
fn decimal_rendering() {
    assert_eq!(gold::text::dec_of(0), "0");
    assert_eq!(gold::text::dec_of(7), "7");
    assert_eq!(gold::text::dec_of(40960), "40960");
    assert_eq!(gold::text::dec_of(1000001), "1000001");
}

#[test]
fn last_token_takes_the_final_word() {
    assert_eq!(gold::text::last_token("alias \"x/y\""), Some(String::from("\"x/y\"")));
    assert_eq!(gold::text::last_token("\t_ \"pkg\"  "), Some(String::from("\"pkg\"")));
    assert_eq!(gold::text::last_token("single"), Some(String::from("single")));
    assert_eq!(gold::text::last_token("  \t\n"), None);
}

#[test]
fn trim_quotes_strips_both_ends() {
    assert_eq!(gold::text::trim_quotes("\"fmt\""), "fmt");
    assert_eq!(gold::text::trim_quotes("fmt"), "fmt");
    assert_eq!(gold::text::trim_quotes("\"\"\"a\"\""), "a");
    assert_eq!(gold::text::trim_quotes("\"\""), "");
}

#[test]
fn replace_char_touches_every_occurrence() {
    assert_eq!(gold::text::replace_char("2006_01_02Z", '_', ' '), "2006 01 02Z");
    assert_eq!(gold::text::replace_char("2006 01 02Z", 'Z', '-'), "2006 01 02-");
}

#[test]
fn join_with_separator() {
    let parts = vec![String::from("a"), String::from("b"), String::from("c")];
    assert_eq!(gold::text::join(&parts, ", "), "a, b, c");
    let one = vec![String::from("a")];
    assert_eq!(gold::text::join(&one, ", "), "a");
    let none: Vec<String> = vec![];
    assert_eq!(gold::text::join(&none, ", "), "");
}

#[test]
fn str_contains_finds_substrings() {
    assert!(gold::text::str_contains("unexpected EOF", "unexpected"));
    assert!(gold::text::str_contains("a bad character here", "bad character"));
    assert!(!gold::text::str_contains("executed", "unexpected"));
}
