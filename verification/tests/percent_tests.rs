use codep::percent::{decode, encode, find_malformed_escape, DecodeError};

#[test]
fn decode_replaces_escapes() {
    assert_eq!(decode("file:///home/x/my%20project"), Ok("file:///home/x/my project".to_string()));
    assert_eq!(decode("%41%62%7e"), Ok("Ab~".to_string()));
    assert_eq!(decode("%2f%2F"), Ok("//".to_string()));
}

#[test]
fn decode_leaves_plain_text_alone() {
    assert_eq!(decode(""), Ok(String::new()));
    assert_eq!(decode("plain-text_1.~"), Ok("plain-text_1.~".to_string()));
    assert_eq!(decode("a+b"), Ok("a+b".to_string()));
}

#[test]
fn decode_reads_multibyte_text() {
    assert_eq!(decode("%F0%9F%91%BE%20x"), Ok("\u{1F47E} x".to_string()));
    assert_eq!(decode("caf%C3%A9"), Ok("caf\u{e9}".to_string()));
    assert_eq!(decode("caf\u{e9}"), Ok("caf\u{e9}".to_string()));
}

#[test]
fn decode_rejects_a_malformed_escape() {
    assert_eq!(decode("%zz"), Err(DecodeError::MalformedEscape));
    assert_eq!(decode("abc%"), Err(DecodeError::MalformedEscape));
    assert_eq!(decode("abc%4"), Err(DecodeError::MalformedEscape));
    assert_eq!(decode("%4g"), Err(DecodeError::MalformedEscape));
    assert_eq!(decode("%%41"), Err(DecodeError::MalformedEscape));
    assert_eq!(decode("100%"), Err(DecodeError::MalformedEscape));
}

#[test]
fn decode_rejects_bytes_that_are_not_utf8() {
    assert_eq!(decode("%ff"), Err(DecodeError::InvalidUtf8));
    assert_eq!(decode("a%C3"), Err(DecodeError::InvalidUtf8));
    assert_eq!(decode("%ed%a0%80"), Err(DecodeError::InvalidUtf8));
}

#[test]
fn malformed_escape_wins_over_invalid_utf8() {
    assert_eq!(decode("%ff%"), Err(DecodeError::MalformedEscape));
}

#[test]
fn find_malformed_escape_scans_all_bytes() {
    assert!(!find_malformed_escape(b""));
    assert!(!find_malformed_escape(b"abc"));
    assert!(!find_malformed_escape(b"%41%42"));
    assert!(find_malformed_escape(b"%41%4"));
    assert!(find_malformed_escape(b"%"));
    assert!(find_malformed_escape(b"%G0"));
    assert!(find_malformed_escape(b"%0G"));
}

#[test]
fn encode_escapes_all_but_unreserved() {
    assert_eq!(encode("this that"), "this%20that");
    assert_eq!(encode("AZaz09-._~"), "AZaz09-._~");
    assert_eq!(encode("/a?b=c&d%"), "%2Fa%3Fb%3Dc%26d%25");
    assert_eq!(encode("\u{1F47E} Exterminate!"), "%F0%9F%91%BE%20Exterminate%21");
    assert_eq!(encode(""), "");
}

#[test]
fn decode_inverts_encode() {
    let samples = [
        "",
        "plain",
        "file:///home/x/my project",
        "100% sure? yes & no",
        "tab\there\nnewline\0nul",
        "caf\u{e9} \u{1F47E} \u{4e2d}\u{6587}",
        "%41 is not A here",
        "vscode-remote://ssh-remote+7b7d/home",
    ];
    for s in samples {
        assert_eq!(decode(&encode(s)), Ok(s.to_string()));
    }
}
