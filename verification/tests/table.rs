//! Aligned tables.

use synapse::output::table::render;

#[test]
fn basic_alignment() {
    let headers = ["Name", "Kind"];
    let rows = vec![
        vec!["Foo".to_string(), "class".to_string()],
        vec!["LongerName".to_string(), "fn".to_string()],
    ];
    let out = render(&headers, &rows);
    let expected = "\
Name        Kind
Foo         class
LongerName  fn
";
    assert_eq!(out, expected);
}

#[test]
fn ends_with_newline() {
    let out = render(&["A"], &[vec!["x".to_string()]]);
    assert!(out.ends_with('\n'));
}

#[test]
fn no_trailing_whitespace_on_lines() {
    let headers = ["Name", "Kind"];
    let rows = vec![vec!["Foo".to_string(), "class".to_string()]];
    let out = render(&headers, &rows);
    for line in out.lines() {
        assert_eq!(line, line.trim_end(), "line had trailing space: {line:?}");
    }
}

#[test]
fn final_column_not_padded() {
    // Header "Kind" is shorter than its cell; final col should not be padded
    // and the header line's trailing spaces must be trimmed.
    let headers = ["Name", "Kind"];
    let rows = vec![vec!["X".to_string(), "interface".to_string()]];
    let out = render(&headers, &rows);
    let lines: Vec<&str> = out.lines().collect();
    assert_eq!(lines[0], "Name  Kind");
    assert_eq!(lines[1], "X     interface");
}

#[test]
fn empty_rows_shows_note() {
    let out = render(&["Symbol", "Kind"], &[]);
    let expected = "\
Symbol  Kind
(no results)
";
    assert_eq!(out, expected);
}

#[test]
fn ragged_row_missing_cells_treated_empty() {
    let headers = ["A", "B", "C"];
    let rows = vec![
        vec!["1".to_string()],
        vec!["x".to_string(), "y".to_string(), "z".to_string()],
    ];
    let out = render(&headers, &rows);
    let lines: Vec<&str> = out.lines().collect();
    // Row with only one cell: trailing empties trimmed away.
    assert_eq!(lines[1], "1");
    assert_eq!(lines[2], "x  y  z");
}

#[test]
fn unicode_width_by_char_count() {
    // "café" is 4 chars but 5 bytes; width must use char count.
    let headers = ["X"];
    let rows = vec![vec!["café".to_string()], vec!["ab".to_string()]];
    let out = render(&headers, &rows);
    let lines: Vec<&str> = out.lines().collect();
    // Column width = 4 ("café"); "ab" padded to 4 but trimmed (last col).
    assert_eq!(lines[0], "X");
    assert_eq!(lines[1], "café");
    assert_eq!(lines[2], "ab");
}

#[test]
fn min_two_space_separator() {
    let headers = ["AA", "BB"];
    let rows = vec![vec!["1".to_string(), "2".to_string()]];
    let out = render(&headers, &rows);
    // "AA" width 2, separated by 2 spaces from "BB".
    assert_eq!(out.lines().next().unwrap(), "AA  BB");
}

#[test]
fn empty_headers_and_rows() {
    let out = render(&[], &[]);
    assert_eq!(out, "\n(no results)\n");
}
