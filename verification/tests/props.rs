use satysfi_formatter::comment::{get_comments, line_starts, to_comment_string};
use satysfi_formatter::config::OptionData;
use satysfi_formatter::helper::{indent_space, indent_tab};
use satysfi_formatter::FormatError;

fn default_option() -> OptionData {
    OptionData {
        row_length: 80,
        indent_space: 4,
        command_args_space: true,
    }
}

fn fmt(input: &str, option: OptionData) -> (String, Option<FormatError>) {
    let (out, err) = satysfi_formatter::format(&input.as_bytes().to_vec(), option);
    (String::from_utf8(out).unwrap(), err)
}

/// The end-to-end example: default configuration, one title field, one
/// paragraph.
#[test]
fn test_spec_example() {
    let (out, err) = fmt("document(|title = {hello}|)'<+p{hello world}>", default_option());
    assert!(err.is_none());
    assert_eq!(
        out,
        "document(|title = { hello }|)'<\n    +p { hello world }\n>\n"
    );
}

/// Formatting a second time changes nothing.
#[test]
fn test_idempotent_simple() {
    let text = "@require: stdja\n\n\ndocument(|title = {hello}; author = {x};|)'<+p{hello  world}+p{ a }>";
    let (once, err1) = fmt(text, default_option());
    assert!(err1.is_none());
    let (twice, err2) = fmt(&once, default_option());
    assert!(err2.is_none());
    assert_eq!(once, twice);
}

/// Formatting a second time changes nothing, comments included.
#[test]
fn test_idempotent_comments() {
    let text = "document(|title = {hello}|)'<+p{% one\nhello% two\n}>";
    let (once, err1) = fmt(text, default_option());
    assert!(err1.is_none());
    let (twice, err2) = fmt(&once, default_option());
    assert!(err2.is_none());
    assert_eq!(once, twice);
}

/// An unparseable document is returned unchanged with the parse position.
#[test]
fn test_parse_error_returns_input() {
    let text = "@@@ this is not satysfi";
    let (out, err) = fmt(text, default_option());
    assert_eq!(out, text);
    assert!(matches!(err, Some(FormatError::Parse { .. })));
}

/// The empty document does not parse; it comes back unchanged.
#[test]
fn test_empty_input() {
    let (out, err) = fmt("", default_option());
    assert_eq!(out, "");
    assert!(matches!(err, Some(FormatError::Parse { .. })));
}

/// A body within the row length stays on one line.
#[test]
fn test_width_below_threshold() {
    let (out, err) = fmt("document(||)'<+p{abcdef}>", default_option());
    assert!(err.is_none());
    assert_eq!(out, "document(||)'<\n    +p { abcdef }\n>\n");
}

/// The same body beyond the row length switches to the multi-line form.
#[test]
fn test_width_above_threshold() {
    let narrow = OptionData {
        row_length: 3,
        indent_space: 4,
        command_args_space: true,
    };
    let (out, err) = fmt("document(||)'<+p{abcdef}>", narrow);
    assert!(err.is_none());
    assert_eq!(out, "document(||)'<\n    +p {\n        abcdef\n    }\n>\n");
}

/// A record with one field stays single-line; two fields force one field
/// per line, each closed by a semicolon.
#[test]
fn test_record_arity() {
    let (one, err1) = fmt("document(|title = {a}|)'<>", default_option());
    assert!(err1.is_none());
    assert_eq!(one, "document(|title = { a }|)'<>\n");
    let (two, err2) = fmt("document(|title = {a}; author = {b}|)'<>", default_option());
    assert!(err2.is_none());
    assert_eq!(
        two,
        "document(|\n    title = { a };\n    author = { b };\n|)'<>\n"
    );
}

/// Every comment of the input reappears in the output, in order.
#[test]
fn test_comment_conservation() {
    let text = "document(|title = {hello}|)'<+p{% one\nhello% two\nworld% three\n}>";
    let (out, err) = fmt(text, default_option());
    assert!(err.is_none());
    assert_eq!(out.matches("% one").count(), 1);
    assert_eq!(out.matches("% two").count(), 1);
    assert_eq!(out.matches("% three").count(), 1);
    let p1 = out.find("% one").unwrap();
    let p2 = out.find("% two").unwrap();
    let p3 = out.find("% three").unwrap();
    assert!(p1 < p2 && p2 < p3);
}

/// An escaped `%` yields no comment; a doubly escaped one does.
#[test]
fn test_escape_recovery() {
    let text = b"ab \\% cd\n".to_vec();
    let lines = line_starts(&text);
    assert!(get_comments(&text, &lines).is_empty());

    let text2 = b"ab \\\\% cd\n".to_vec();
    let lines2 = line_starts(&text2);
    let found = get_comments(&text2, &lines2);
    assert_eq!(found.len(), 1);
    assert_eq!(found[0].text, b"% cd".to_vec());
    assert_eq!(found[0].span.start, 5);
}

/// An escaped `%` does not stop the scan: the comment starts at the first
/// unescaped `%` of the line, even when an escaped one precedes it.
#[test]
fn test_escape_scan_continues() {
    let text = b"a\\%b%c\n".to_vec();
    let lines = line_starts(&text);
    let found = get_comments(&text, &lines);
    assert_eq!(found.len(), 1);
    assert_eq!(found[0].span.start, 4);
    assert_eq!(found[0].text, b"% c".to_vec());
}

/// Header lines are never scanned for comments.
#[test]
fn test_header_exclusion() {
    let text = b"@require: foo % bar\n@import: x%y\n".to_vec();
    let lines = line_starts(&text);
    assert!(get_comments(&text, &lines).is_empty());
}

/// Comment normalization: one separating space is inserted, existing
/// whitespace or further `%` signs are kept verbatim, trailing space goes.
#[test]
fn test_to_comment_string() {
    assert_eq!(to_comment_string(b"%abc".to_vec()), b"% abc".to_vec());
    assert_eq!(to_comment_string(b"% abc ".to_vec()), b"% abc".to_vec());
    assert_eq!(to_comment_string(b"%  abc".to_vec()), b"%  abc".to_vec());
    assert_eq!(to_comment_string(b"%%abc".to_vec()), b"%%abc".to_vec());
    assert_eq!(to_comment_string(b"%".to_vec()), b"%".to_vec());
    assert_eq!(to_comment_string(b"x%y\n".to_vec()), b"% y".to_vec());
}

/// The indentation helpers.
#[test]
fn test_indent_helpers() {
    assert_eq!(indent_space(3), vec![b' ', b' ', b' ']);
    assert_eq!(indent_space(0), Vec::<u8>::new());
    assert_eq!(indent_tab(2), vec![b'\t', b'\t']);
}

/// The `cspace` toggle: without it the text argument hugs its command.
#[test]
fn test_command_args_space_off() {
    let tight = OptionData {
        row_length: 80,
        indent_space: 4,
        command_args_space: false,
    };
    let (out, err) = fmt("document(||)'<+p{abc}>", tight);
    assert!(err.is_none());
    assert_eq!(out, "document(||)'<\n    +p{ abc }\n>\n");
}
