use gold::edit::{apply_edit, apply_edits, Edit};

fn edit(start: usize, end: usize, text: &str) -> Edit {
    Edit { start, end, text: String::from(text) }
}

#[test]
fn single_edit_replaces_only_its_span() {
    let out = apply_edit("hello world", &edit(0, 5, "goodbye"));
    assert_eq!(out, "goodbye world");
}

#[test]
fn empty_edit_list_leaves_the_buffer_unchanged() {
    let out = apply_edits("package main\n", &vec![]);
    assert_eq!(out, Some(String::from("package main\n")));
}

#[test]
fn edits_apply_in_reverse_discovery_order() {
    // spans recorded against the original buffer stay valid
    let source = "aa bb cc";
    let edits = vec![edit(0, 2, "xxxx"), edit(6, 8, "y")];
    assert_eq!(apply_edits(source, &edits), Some(String::from("xxxx bb y")));
}

#[test]
fn insertion_and_deletion_spans() {
    let source = "abcdef";
    let edits = vec![edit(2, 2, "__"), edit(4, 6, "")];
    assert_eq!(apply_edits(source, &edits), Some(String::from("ab__cd")));
}

#[test]
fn overlapping_edits_are_refused() {
    let source = "abcdef";
    let edits = vec![edit(0, 3, "x"), edit(2, 5, "y")];
    assert_eq!(apply_edits(source, &edits), None);
}

#[test]
fn out_of_bounds_edit_is_refused() {
    let source = "abc";
    let edits = vec![edit(2, 9, "x")];
    assert_eq!(apply_edits(source, &edits), None);
}

#[test]
fn unordered_edits_are_refused() {
    let source = "abcdef";
    let edits = vec![edit(4, 5, "x"), edit(0, 1, "y")];
    assert_eq!(apply_edits(source, &edits), None);
}
