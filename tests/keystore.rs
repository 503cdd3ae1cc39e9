use app_therapy::keystore::{load_keys, KeyEntry};

fn entry(id: &str, contents: Option<Vec<u8>>) -> KeyEntry {
    (id.to_string(), contents)
}

#[test]
fn lookup_of_unknown_identifier_is_absent() {
    let store = load_keys(&vec![entry("alice", Some(vec![1u8; 32]))]);
    assert_eq!(store.lookup(&"mallory".to_string()), None);
    let empty = load_keys(&vec![]);
    assert_eq!(empty.lookup(&"alice".to_string()), None);
}

#[test]
fn lookup_after_load_gives_key_bytes() {
    let bytes: Vec<u8> = (100..132u8).collect();
    let store = load_keys(&vec![entry("bob", Some(vec![2u8; 32])), entry("alice", Some(bytes.clone()))]);
    assert_eq!(&store.lookup(&"alice".to_string()).unwrap().0[..], &bytes[..]);
    assert_eq!(store.lookup(&"bob".to_string()).unwrap().0, [2u8; 32]);
}

#[test]
fn unreadable_or_malformed_entries_are_skipped() {
    let store = load_keys(&vec![
        entry("carol", None),
        entry("dave", Some(vec![1u8; 31])),
        entry("erin", Some(vec![1u8; 33])),
        entry("alice", Some(vec![9u8; 32])),
    ]);
    assert_eq!(store.lookup(&"carol".to_string()), None);
    assert_eq!(store.lookup(&"dave".to_string()), None);
    assert_eq!(store.lookup(&"erin".to_string()), None);
    assert_eq!(store.lookup(&"alice".to_string()).unwrap().0, [9u8; 32]);
}

#[test]
fn later_valid_entry_replaces_earlier() {
    let store = load_keys(&vec![
        entry("alice", Some(vec![1u8; 32])),
        entry("alice", Some(vec![2u8; 32])),
        entry("alice", Some(vec![3u8; 5])),
    ]);
    assert_eq!(store.lookup(&"alice".to_string()).unwrap().0, [2u8; 32]);
}

#[test]
fn lookup_is_exact_on_identifier() {
    let store = load_keys(&vec![entry("alice", Some(vec![1u8; 32]))]);
    assert_eq!(store.lookup(&"Alice".to_string()), None);
    assert_eq!(store.lookup(&"alice ".to_string()), None);
    assert_eq!(store.lookup(&"".to_string()), None);
}
