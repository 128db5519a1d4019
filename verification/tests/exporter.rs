use tldrs::emit_tef;

#[test]
fn empty_source_yields_empty_array() {
    let (out, bad) = emit_tef(b"");
    assert_eq!(out, b"[]\n".to_vec());
    assert_eq!(bad, 0);
}

#[test]
fn whitespace_only_source_yields_empty_array() {
    let (out, bad) = emit_tef(b"\n   \n\t\n");
    assert_eq!(out, b"[]\n".to_vec());
    assert_eq!(bad, 0);
}

#[test]
fn single_record() {
    let (out, bad) = emit_tef(b"{\"a\":1}\n");
    assert_eq!(out, b"[{\"a\":1}]\n".to_vec());
    assert_eq!(bad, 0);
}

#[test]
fn two_records() {
    let (out, bad) = emit_tef(b"{\"a\":1}\n{\"b\":2}\n");
    assert_eq!(out, b"[{\"a\":1},\n{\"b\":2}]\n".to_vec());
    assert_eq!(bad, 0);
}

#[test]
fn every_well_formed_line_is_kept_in_order() {
    let input = b"{\"n\":0}\n{\"n\":1}\n{\"n\":2}\n{\"n\":3}\n";
    let (out, bad) = emit_tef(input);
    assert_eq!(bad, 0);
    let text = String::from_utf8(out).unwrap();
    assert!(text.starts_with('['));
    assert!(text.ends_with("]\n"));
    let inner = &text[1..text.len() - 2];
    let elems: Vec<&str> = inner.split(",\n").collect();
    assert_eq!(elems, vec!["{\"n\":0}", "{\"n\":1}", "{\"n\":2}", "{\"n\":3}"]);
}

#[test]
fn record_lines_are_trimmed() {
    let (out, bad) = emit_tef(b"  {\"a\":1}  \n");
    assert_eq!(out, b"[{\"a\":1}]\n".to_vec());
    assert_eq!(bad, 0);
}

#[test]
fn malformed_lines_are_omitted_and_counted() {
    let input = b"{\"a\":1}\nnot json\n{\"b\":2\n{\"c\":3}\n";
    let (out, bad) = emit_tef(input);
    assert_eq!(out, b"[{\"a\":1},\n{\"c\":3}]\n".to_vec());
    assert_eq!(bad, 2);
}

#[test]
fn all_lines_malformed_yields_empty_array() {
    let (out, bad) = emit_tef(b"one\ntwo\nthree\n");
    assert_eq!(out, b"[]\n".to_vec());
    assert_eq!(bad, 3);
}

#[test]
fn final_line_without_newline_still_counts() {
    let (out, bad) = emit_tef(b"{\"a\":1}\n{\"b\":2}");
    assert_eq!(out, b"[{\"a\":1},\n{\"b\":2}]\n".to_vec());
    assert_eq!(bad, 0);
}

#[test]
fn export_is_bounded_by_snapshot_length() {
    let mut content = b"{\"a\":1}\n".to_vec();
    let snapshot_len = content.len();
    let before = emit_tef(&content[..snapshot_len]);

    // A writer appends after the snapshot was taken.
    content.extend_from_slice(b"{\"b\":2}\n");
    let after = emit_tef(&content[..snapshot_len]);

    assert_eq!(before, after);
    assert_eq!(after.0, b"[{\"a\":1}]\n".to_vec());
}
