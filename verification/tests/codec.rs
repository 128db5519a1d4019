use tldrs::msg::{decode_line, Msg, ParseErrorKind};

#[test]
fn empty_line_is_noop() {
    assert_eq!(decode_line(b""), Msg::Empty);
    assert_eq!(decode_line(b"   \t  \n"), Msg::Empty);
}

#[test]
fn open_binds_trace_id() {
    assert_eq!(decode_line(b"OPEN t1\n"), Msg::Open { trace_id: b"t1".to_vec() });
    assert_eq!(decode_line(b"  OPEN   my-trace  \n"), Msg::Open {
        trace_id: b"my-trace".to_vec(),
    });
}

#[test]
fn open_keyword_without_payload_is_malformed() {
    // Trimming eats the keyword's trailing space first, so a bare `OPEN `
    // never matches the prefix.
    assert_eq!(decode_line(b"OPEN \n"), Msg::ParseError { kind: ParseErrorKind::Unrecognized });
}

#[test]
fn open_without_space_is_malformed() {
    assert_eq!(decode_line(b"OPEN\n"), Msg::ParseError { kind: ParseErrorKind::Unrecognized });
}

#[test]
fn die_commands() {
    assert_eq!(decode_line(b"DIE\n"), Msg::Die);
    assert_eq!(decode_line(b"DIE_WHEN_IDLE\n"), Msg::DieWhenIdle);
}

#[test]
fn die_with_trailing_junk_is_malformed() {
    assert_eq!(decode_line(b"DIE NOW\n"), Msg::ParseError { kind: ParseErrorKind::Unrecognized });
}

#[test]
fn emit_tef_carries_path() {
    assert_eq!(decode_line(b"EMIT_TEF /tmp/out.json\n"), Msg::EmitTef {
        path: b"/tmp/out.json".to_vec(),
    });
}

#[test]
fn link_commands_are_accepted() {
    assert_eq!(decode_line(b"SYMLINK /tmp/a\n"), Msg::Symlink { file: b"/tmp/a".to_vec() });
    assert_eq!(decode_line(b"HARDLINK /tmp/b\n"), Msg::Hardlink { file: b"/tmp/b".to_vec() });
}

#[test]
fn json_object_line_is_add() {
    assert_eq!(decode_line(b"{\"a\":1}\n"), Msg::Add { json: b"{\"a\":1}".to_vec() });
}

#[test]
fn json_line_keeps_inner_spacing() {
    assert_eq!(decode_line(b"  { \"a\" : 1 }  \n"), Msg::Add { json: b"{ \"a\" : 1 }".to_vec() });
}

#[test]
fn unterminated_json_is_malformed() {
    assert_eq!(decode_line(b"{\"a\":1\n"), Msg::ParseError { kind: ParseErrorKind::UnclosedJson });
}

#[test]
fn arbitrary_text_is_malformed() {
    assert_eq!(decode_line(b"hello world\n"), Msg::ParseError {
        kind: ParseErrorKind::Unrecognized,
    });
}

#[test]
fn parse_error_reasons_are_descriptive() {
    assert_eq!(ParseErrorKind::UnclosedJson.describe(), "Non closed JSON object");
    assert_eq!(ParseErrorKind::Unrecognized.describe(), "Expected a valid client message");
}
