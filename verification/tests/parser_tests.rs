use lvm_inventory::parser::{parse_line, parse_records, split_raw};
use lvm_inventory::text::trim_str;

#[test]
fn blank_and_whitespace_lines_are_dropped() {
    let rows = parse_records("\n   \n\t\nfoo,bar\n  \n", ',', 2);
    assert_eq!(rows.len(), 1);
    assert_eq!(rows[0], vec!["foo".to_string(), "bar".to_string()]);
}

#[test]
fn empty_input_yields_no_rows() {
    let rows = parse_records("", ',', 1);
    assert!(rows.is_empty());
}

#[test]
fn fields_are_trimmed() {
    let rows = parse_records("  a , b\t, c \n", ',', 3);
    assert_eq!(rows, vec![vec!["a".to_string(), "b".to_string(), "c".to_string()]]);
}

#[test]
fn retrimming_parsed_fields_changes_nothing() {
    let fields = parse_line("  a , b\t,  c d  ", ',');
    for f in &fields {
        assert_eq!(&trim_str(f.as_str()), f);
    }
}

#[test]
fn short_rows_are_dropped_without_error() {
    let rows = parse_records("a,b,c\nx\ny,z\n", ',', 3);
    assert_eq!(rows, vec![vec!["a".to_string(), "b".to_string(), "c".to_string()]]);
    let none = parse_records("a,b,c\n", ',', 4);
    assert!(none.is_empty());
}

#[test]
fn line_order_is_preserved() {
    let rows = parse_records("a,1\nb,2\nc,3\n", ',', 2);
    assert_eq!(rows.len(), 3);
    assert_eq!(rows[0][0], "a");
    assert_eq!(rows[1][0], "b");
    assert_eq!(rows[2][0], "c");
}

#[test]
fn split_keeps_empty_pieces() {
    let pieces = split_raw("a,,b", ',');
    assert_eq!(pieces, vec!["a".to_string(), "".to_string(), "b".to_string()]);
    let pieces = split_raw("", ',');
    assert_eq!(pieces, vec!["".to_string()]);
}

#[test]
fn unicode_whitespace_is_trimmed() {
    assert_eq!(trim_str("\u{00A0}a b\u{3000}"), "a b");
    let rows = parse_records("\u{00A0}\u{2003}\nx,y\n", ',', 2);
    assert_eq!(rows, vec![vec!["x".to_string(), "y".to_string()]]);
}

#[test]
fn carriage_returns_are_trimmed_from_fields() {
    let rows = parse_records("a,b\r\nc,d\r\n", ',', 2);
    assert_eq!(
        rows,
        vec![
            vec!["a".to_string(), "b".to_string()],
            vec!["c".to_string(), "d".to_string()],
        ]
    );
}
