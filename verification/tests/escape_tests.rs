use bradis_bridge::escape::{escape_ascii, unescape_ascii};

#[test]
fn printable_bytes_stand_for_themselves() {
    assert_eq!(escape_ascii(b"PING"), "PING");
    assert_eq!(escape_ascii(b" ~az09"), " ~az09");
    assert_eq!(escape_ascii(b""), "");
}

#[test]
fn named_escapes_are_used() {
    assert_eq!(escape_ascii(b"\t"), "\\t");
    assert_eq!(escape_ascii(b"\r"), "\\r");
    assert_eq!(escape_ascii(b"\n"), "\\n");
    assert_eq!(escape_ascii(b"'"), "\\'");
    assert_eq!(escape_ascii(b"\""), "\\\"");
    assert_eq!(escape_ascii(b"\\"), "\\\\");
}

#[test]
fn other_bytes_are_written_in_lower_case_hex() {
    assert_eq!(escape_ascii(&[0x00]), "\\x00");
    assert_eq!(escape_ascii(&[0x1f]), "\\x1f");
    assert_eq!(escape_ascii(&[0x7f]), "\\x7f");
    assert_eq!(escape_ascii(&[0x80]), "\\x80");
    assert_eq!(escape_ascii(&[0xab]), "\\xab");
    assert_eq!(escape_ascii(&[0xff]), "\\xff");
}

#[test]
fn escaping_agrees_with_std_on_every_byte() {
    for b in 0..=255u8 {
        assert_eq!(escape_ascii(&[b]), [b].escape_ascii().to_string(), "byte {}", b);
    }
    let all: Vec<u8> = (0..=255u8).collect();
    assert_eq!(escape_ascii(&all), all.escape_ascii().to_string());
}

#[test]
fn escaped_text_is_printable_ascii() {
    let all: Vec<u8> = (0..=255u8).collect();
    assert!(escape_ascii(&all).bytes().all(|b| (0x20..=0x7e).contains(&b)));
}

#[test]
fn unescape_recovers_every_byte() {
    for b in 0..=255u8 {
        assert_eq!(unescape_ascii(&escape_ascii(&[b])), Some(vec![b]), "byte {}", b);
    }
    let all: Vec<u8> = (0..=255u8).rev().collect();
    assert_eq!(unescape_ascii(&escape_ascii(&all)), Some(all));
}

#[test]
fn unescape_reads_each_form() {
    assert_eq!(unescape_ascii(""), Some(vec![]));
    assert_eq!(unescape_ascii("abc"), Some(b"abc".to_vec()));
    assert_eq!(unescape_ascii("\\t\\r\\n\\'\\\"\\\\"), Some(b"\t\r\n'\"\\".to_vec()));
    assert_eq!(unescape_ascii("\\x41\\x00\\xff"), Some(vec![0x41, 0x00, 0xff]));
    assert_eq!(unescape_ascii("\\xFF\\xaB"), Some(vec![0xff, 0xab]));
    assert_eq!(unescape_ascii("it's \"fine\""), Some(b"it's \"fine\"".to_vec()));
}

#[test]
fn unescape_rejects_what_is_no_escaped_form() {
    assert_eq!(unescape_ascii("\\"), None);
    assert_eq!(unescape_ascii("abc\\"), None);
    assert_eq!(unescape_ascii("\\q"), None);
    assert_eq!(unescape_ascii("\\x"), None);
    assert_eq!(unescape_ascii("\\x4"), None);
    assert_eq!(unescape_ascii("\\x4g"), None);
    assert_eq!(unescape_ascii("\\xg4"), None);
    assert_eq!(unescape_ascii("a\tb"), None);
    assert_eq!(unescape_ascii("a\nb"), None);
    assert_eq!(unescape_ascii("\u{7f}"), None);
    assert_eq!(unescape_ascii("caf\u{e9}"), None);
}
