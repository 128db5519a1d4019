use tldrs::msg::decode_line;
use tldrs::{Action, Session};

#[test]
fn empty_line_continues() {
    let mut s = Session::new();
    assert_eq!(s.step(decode_line(b"\n")), Action::Continue);
    assert_eq!(s.n_errors, 0);
}

#[test]
fn open_asks_for_a_bind() {
    let mut s = Session::new();
    let a = s.step(decode_line(b"OPEN t1\n"));
    assert_eq!(a, Action::Bind { trace_id: b"t1".to_vec() });
    // The binding itself only changes once the registry resolved a handle.
    assert_eq!(s.bound, None);
    assert_eq!(s.bind_done(7), None);
    assert_eq!(s.bound, Some(7));
}

#[test]
fn rebind_hands_back_the_old_handle() {
    let mut s = Session::new();
    s.bind_done(7);
    assert_eq!(s.bind_done(9), Some(7));
    assert_eq!(s.bound, Some(9));
}

#[test]
fn add_without_open_is_rejected_and_nothing_is_written() {
    // No trace file is defined for the session, so the add produces no
    // append action and no trace file could ever be created for it.
    let mut s = Session::new();
    let a = s.step(decode_line(b"{\"a\":1}\n"));
    assert_eq!(a, Action::RejectNoTrace);
    assert_eq!(s.bound, None);
    assert_eq!(s.n_errors, 0);
}

#[test]
fn add_with_binding_appends() {
    let mut s = Session::new();
    s.bind_done(3);
    let a = s.step(decode_line(b"{\"a\":1}\n"));
    assert_eq!(a, Action::Append { json: b"{\"a\":1}".to_vec() });
}

#[test]
fn emit_without_open_is_rejected() {
    let mut s = Session::new();
    assert_eq!(s.step(decode_line(b"EMIT_TEF /tmp/out.json\n")), Action::RejectNoTrace);
}

#[test]
fn emit_with_binding_exports() {
    let mut s = Session::new();
    s.bind_done(3);
    let a = s.step(decode_line(b"EMIT_TEF /tmp/out.json\n"));
    assert_eq!(a, Action::Emit { path: b"/tmp/out.json".to_vec() });
}

#[test]
fn malformed_line_counts_and_continues() {
    // An unterminated JSON object is classified as malformed: the error
    // counter moves, nothing is appended, the session goes on.
    let mut s = Session::new();
    s.bind_done(3);
    let a = s.step(decode_line(b"{\"a\":1\n"));
    assert_eq!(a, Action::Continue);
    assert_eq!(s.n_errors, 1);
    let a = s.step(decode_line(b"garbage\n"));
    assert_eq!(a, Action::Continue);
    assert_eq!(s.n_errors, 2);
}

#[test]
fn die_kills_and_die_when_idle_sets_the_flag() {
    let mut s = Session::new();
    assert_eq!(s.step(decode_line(b"DIE\n")), Action::Kill);
    assert_eq!(s.step(decode_line(b"DIE_WHEN_IDLE\n")), Action::SetIdleFlag);
}

#[test]
fn link_commands_fail_loudly() {
    let mut s = Session::new();
    assert_eq!(s.step(decode_line(b"SYMLINK /tmp/a\n")), Action::Unimplemented);
    assert_eq!(s.step(decode_line(b"HARDLINK /tmp/b\n")), Action::Unimplemented);
}

#[test]
fn default_trace_id_names_default() {
    assert_eq!(tldrs::session::default_trace_id(), b"default".to_vec());
}
