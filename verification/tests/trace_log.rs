use tldrs::TraceBuf;

#[test]
fn appends_keep_order_one_line_each() {
    let mut b = TraceBuf::new(0);
    b.append_line(b"{\"a\":1}");
    b.append_line(b"{\"b\":2}");
    b.append_line(b"{\"c\":3}");
    let chunk = b.take_pending();
    assert_eq!(chunk, b"{\"a\":1}\n{\"b\":2}\n{\"c\":3}\n".to_vec());
}

#[test]
fn take_pending_drains_and_counts_durable() {
    let mut b = TraceBuf::new(0);
    b.append_line(b"{}");
    assert!(b.can_flush());
    let chunk = b.take_pending();
    assert_eq!(chunk.len(), 3);
    assert_eq!(b.snapshot_len(), 3);
    let chunk = b.take_pending();
    assert_eq!(chunk, Vec::<u8>::new());
    assert_eq!(b.snapshot_len(), 3);
}

#[test]
fn buffer_over_a_preexisting_file_counts_its_bytes() {
    let mut b = TraceBuf::new(100);
    b.append_line(b"{\"a\":1}");
    b.take_pending();
    assert_eq!(b.snapshot_len(), 108);
}

#[test]
fn snapshot_then_more_appends_bounds_an_export() {
    // The snapshot length taken at export time never includes bytes a
    // writer appends afterwards.
    let mut file: Vec<u8> = Vec::new();
    let mut b = TraceBuf::new(0);
    b.append_line(b"{\"a\":1}");
    file.extend_from_slice(&b.take_pending());
    let snap = b.snapshot_len() as usize;

    b.append_line(b"{\"b\":2}");
    file.extend_from_slice(&b.take_pending());

    let (out, _) = tldrs::emit_tef(&file[..snap]);
    assert_eq!(out, b"[{\"a\":1}]\n".to_vec());
}
