use netrc::text::{is_whitespace, line_number, parse_port, to_chars};

#[test]
fn whitespace_classes() {
    for c in [' ', '\t', '\n', '\r', '\u{B}', '\u{C}', '\u{85}', '\u{A0}', '\u{2003}', '\u{3000}'] {
        assert!(is_whitespace(c));
        assert_eq!(is_whitespace(c), c.is_whitespace());
    }
    for c in ['a', '#', '\u{200B}', 'é', '\0'] {
        assert!(!is_whitespace(c));
        assert_eq!(is_whitespace(c), c.is_whitespace());
    }
}

#[test]
fn chars_of_text() {
    assert_eq!(to_chars("aé b"), vec!['a', 'é', ' ', 'b']);
    assert!(to_chars("").is_empty());
}

#[test]
fn line_numbers() {
    let t = to_chars("ab\ncd\n\nx");
    assert_eq!(line_number(&t, 0), 1);
    assert_eq!(line_number(&t, 3), 2);
    assert_eq!(line_number(&t, 6), 3);
    assert_eq!(line_number(&t, 7), 4);
    assert_eq!(line_number(&t, 8), 4);
    let t = to_chars("ab\n");
    assert_eq!(line_number(&t, 3), 1);
    assert_eq!(line_number(&to_chars(""), 0), 0);
}

#[test]
fn port_values() {
    assert_eq!(parse_port(&to_chars("42")), Some(42));
    assert_eq!(parse_port(&to_chars("+42")), Some(42));
    assert_eq!(parse_port(&to_chars("65535")), Some(65535));
    assert_eq!(parse_port(&to_chars("65536")), None);
    assert_eq!(parse_port(&to_chars("")), None);
    assert_eq!(parse_port(&to_chars("4x")), None);
    assert_eq!(parse_port(&to_chars("١٢")), None);
}
