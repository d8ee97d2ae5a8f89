use print_dispatch::escape::escape_single_quotes;
use print_dispatch::escape::shell_unquote;

#[test]
fn escapes_concrete_receipt_text() {
    let escaped = escape_single_quotes("O'Brien's Cafe");
    assert_eq!(escaped, "O'\\''Brien'\\''s Cafe");
}

#[test]
fn escape_leaves_quote_free_text_unchanged() {
    assert_eq!(escape_single_quotes(""), "");
    assert_eq!(escape_single_quotes("plain receipt text"), "plain receipt text");
    assert_eq!(escape_single_quotes("line1\nline2\ttab"), "line1\nline2\ttab");
}

#[test]
fn escape_handles_only_quotes() {
    assert_eq!(escape_single_quotes("'"), "'\\''");
    assert_eq!(escape_single_quotes("''"), "'\\'''\\''");
}

#[test]
fn escape_keeps_multibyte_text() {
    assert_eq!(escape_single_quotes("caf\u{e9} '\u{20ac}'"), "caf\u{e9} '\\''\u{20ac}'\\''");
}

#[test]
fn round_trip_through_shell_reading() {
    let cases = [
        "O'Brien's Cafe",
        "",
        "no quotes here",
        "'",
        "''",
        "a'b'c",
        "ends with quote'",
        "'starts with quote",
    ];
    for original in cases {
        let quoted = format!("'{}'", escape_single_quotes(original));
        let read_back = shell_unquote(&quoted);
        assert_eq!(read_back, Some(original.to_string()));
    }
}

#[test]
fn shell_unquote_reads_plain_words() {
    assert_eq!(shell_unquote("plain"), Some("plain".to_string()));
    assert_eq!(shell_unquote("'quoted text'"), Some("quoted text".to_string()));
    assert_eq!(shell_unquote("a\\'b"), Some("a'b".to_string()));
}

#[test]
fn shell_unquote_rejects_ill_formed_words() {
    assert_eq!(shell_unquote("'unclosed"), None);
    assert_eq!(shell_unquote("trailing\\"), None);
}
