use skype_rs::codec::{decode_line, frame_message, trim, white_space};

#[test]
fn frame_appends_newline() {
    assert_eq!(frame_message(b"{\"type\":\"register_ok\"}".to_vec()), b"{\"type\":\"register_ok\"}\n".to_vec());
    assert_eq!(frame_message(Vec::new()), b"\n".to_vec());
}

#[test]
fn decode_trims_line() {
    let text = decode_line("  {\"a\":1}\r\n", 11).expect("text");
    assert_eq!(text, "{\"a\":1}");
}

#[test]
fn decode_reports_closed_connection() {
    let err = decode_line("", 0).expect_err("closed");
    assert!(err.is_connection_closed());
    match err {
        skype_rs::error::AppError::Protocol(m) => assert_eq!(m, "connection closed"),
        _ => panic!("expected a protocol error"),
    }
}

#[test]
fn frame_then_decode_roundtrip() {
    let body = "{\"type\":\"ack\",\"message\":\"hi\"}";
    let framed = frame_message(body.as_bytes().to_vec());
    let line = String::from_utf8(framed.clone()).expect("utf8");
    assert_eq!(decode_line(&line, framed.len()).expect("text"), body);
}

#[test]
fn trim_matches_std_trim() {
    let samples = [
        "", " ", "\n", "abc", "  abc  ", "\t\u{a0}x y\u{3000}\u{2028}", "\u{85}z\u{200a}", "a\u{200b}",
        "\u{1680}\u{205f}q\u{202f}",
    ];
    for s in samples {
        assert_eq!(trim(s), s.trim(), "sample {:?}", s);
    }
}

#[test]
fn white_space_matches_std() {
    for v in 0u32..0x3100 {
        if let Some(c) = char::from_u32(v) {
            assert_eq!(white_space(c), c.is_whitespace(), "char {:#x}", v);
        }
    }
}
