use tldrs::files::{find_latest_file, join_path};

#[test]
fn join_path_inserts_a_separator() {
    assert_eq!(join_path(b"/data", b"t1.jsonl"), b"/data/t1.jsonl".to_vec());
}

#[test]
fn latest_of_empty_listing_is_none() {
    assert_eq!(find_latest_file(&Vec::new()), None);
}

#[test]
fn latest_is_the_lexicographically_last() {
    let files = vec![
        b"/data/b.jsonl".to_vec(),
        b"/data/c.jsonl".to_vec(),
        b"/data/a.jsonl".to_vec(),
    ];
    assert_eq!(find_latest_file(&files), Some(b"/data/c.jsonl".to_vec()));
}

#[test]
fn latest_of_a_single_file() {
    let files = vec![b"/data/only.jsonl".to_vec()];
    assert_eq!(find_latest_file(&files), Some(b"/data/only.jsonl".to_vec()));
}

#[test]
fn a_prefix_sorts_before_its_extension() {
    let files = vec![b"/data/a".to_vec(), b"/data/a0".to_vec()];
    assert_eq!(find_latest_file(&files), Some(b"/data/a0".to_vec()));
}
