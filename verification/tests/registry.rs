use tldrs::Registry;

fn fresh() -> Registry {
    Registry::new(b"/data".to_vec(), None)
}

#[test]
fn new_registry_is_empty_and_active() {
    let r = fresh();
    assert!(r.is_active());
    assert!(!r.contains(b"t1"));
}

#[test]
fn trace_file_path_joins_dir_id_and_suffix() {
    let r = fresh();
    assert_eq!(r.trace_file_path(b"t1"), b"/data/t1.jsonl".to_vec());
}

#[test]
fn single_file_override_wins() {
    let r = Registry::new(b"/data".to_vec(), Some(b"/tmp/all.jsonl".to_vec()));
    assert_eq!(r.trace_file_path(b"t1"), b"/tmp/all.jsonl".to_vec());
    assert_eq!(r.trace_file_path(b"t2"), b"/tmp/all.jsonl".to_vec());
}

#[test]
fn bind_existing_misses_before_insert() {
    let mut r = fresh();
    assert_eq!(r.bind_existing(b"t1"), None);
}

#[test]
fn insert_then_bind_shares_the_handle() {
    let mut r = fresh();
    let h = r.insert_opened(b"t1".to_vec()).unwrap();
    assert!(r.contains(b"t1"));
    assert_eq!(r.bind_existing(b"t1"), Some(h));
}

#[test]
fn distinct_traces_get_distinct_handles() {
    let mut r = fresh();
    let h1 = r.insert_opened(b"t1".to_vec()).unwrap();
    let h2 = r.insert_opened(b"t2".to_vec()).unwrap();
    assert_ne!(h1, h2);
}

#[test]
fn sweep_keeps_held_entries() {
    let mut r = fresh();
    let h = r.insert_opened(b"t1".to_vec()).unwrap();
    let sw = r.sweep();
    assert_eq!(sw.evicted, Vec::<u64>::new());
    assert_eq!(sw.live, vec![h]);
    assert!(!sw.shutdown);
    assert!(r.contains(b"t1"));
}

#[test]
fn sweep_evicts_after_last_unbind() {
    // A session opens a trace, then disconnects; the next reclaimer pass
    // removes the entry and hands the handle out for closing.
    let mut r = fresh();
    let h = r.insert_opened(b"t1".to_vec()).unwrap();
    r.unbind(h);
    let sw = r.sweep();
    assert_eq!(sw.evicted, vec![h]);
    assert_eq!(sw.live, Vec::<u64>::new());
    assert!(!r.contains(b"t1"));
}

#[test]
fn rebind_after_eviction_is_a_miss() {
    let mut r = fresh();
    let h = r.insert_opened(b"t1".to_vec()).unwrap();
    r.unbind(h);
    r.sweep();
    assert_eq!(r.bind_existing(b"t1"), None);
}

#[test]
fn a_second_holder_keeps_the_entry_alive() {
    let mut r = fresh();
    let h = r.insert_opened(b"t1".to_vec()).unwrap();
    r.bind_existing(b"t1").unwrap();
    r.unbind(h);
    let sw = r.sweep();
    assert_eq!(sw.live, vec![h]);
    assert!(r.contains(b"t1"));
}

#[test]
fn idle_flag_on_empty_registry_shuts_down_in_one_pass() {
    let mut r = fresh();
    r.set_die_when_idle();
    let sw = r.sweep();
    assert!(sw.shutdown);
    assert!(!r.is_active());
}

#[test]
fn idle_flag_waits_for_the_registry_to_drain() {
    let mut r = fresh();
    let h = r.insert_opened(b"t1".to_vec()).unwrap();
    r.set_die_when_idle();
    let sw = r.sweep();
    assert!(!sw.shutdown);
    assert!(r.is_active());
    r.unbind(h);
    let sw = r.sweep();
    assert!(sw.shutdown);
    assert!(!r.is_active());
}

#[test]
fn no_idle_flag_means_no_shutdown() {
    let mut r = fresh();
    let sw = r.sweep();
    assert!(!sw.shutdown);
    assert!(r.is_active());
}

#[test]
fn kill_drains_everything_and_deactivates() {
    let mut r = fresh();
    let h1 = r.insert_opened(b"t1".to_vec()).unwrap();
    let h2 = r.insert_opened(b"t2".to_vec()).unwrap();
    let hs = r.kill();
    assert_eq!(hs, vec![h1, h2]);
    assert!(!r.is_active());
    assert!(!r.contains(b"t1"));
    assert!(!r.contains(b"t2"));
}
