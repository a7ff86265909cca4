use price_monitor::resources::{collect_batch, ResourceMap};

fn item(key: &str, bytes: Option<&[u8]>) -> (String, Option<Vec<u8>>) {
    (key.to_string(), bytes.map(|b| b.to_vec()))
}

#[test]
fn join_keeps_exactly_the_successes() {
    let outcomes = vec![
        item("k1", None),
        item("k2", Some(b"two")),
        item("k3", None),
        item("k4", Some(b"four")),
        item("k5", Some(b"five")),
    ];
    let map = collect_batch(outcomes);
    assert_eq!(map.len(), 3);
    assert!(map.get("k1").is_none());
    assert_eq!(map.get("k2").unwrap(), &b"two".to_vec());
    assert!(map.get("k3").is_none());
    assert_eq!(map.get("k4").unwrap(), &b"four".to_vec());
    assert_eq!(map.get("k5").unwrap(), &b"five".to_vec());
}

#[test]
fn all_failures_join_to_an_empty_map() {
    let outcomes = vec![item("k1", None), item("k2", None), item("k3", None)];
    let map = collect_batch(outcomes);
    assert_eq!(map.len(), 0);
    assert!(map.get("k1").is_none());
}

#[test]
fn empty_batch_joins_to_an_empty_map() {
    let map = collect_batch(Vec::new());
    assert_eq!(map.len(), 0);
}

#[test]
fn insert_supersedes_and_merge_prefers_the_newcomer() {
    let mut map = ResourceMap::new();
    map.insert("ae".to_string(), b"old".to_vec());
    map.insert("us".to_string(), b"stars".to_vec());
    map.insert("ae".to_string(), b"new".to_vec());
    assert_eq!(map.len(), 2);
    assert_eq!(map.get("ae").unwrap(), &b"new".to_vec());

    let mut other = ResourceMap::new();
    other.insert("us".to_string(), b"stripes".to_vec());
    other.insert("jp".to_string(), b"sun".to_vec());
    map.merge(&other);
    assert_eq!(map.len(), 3);
    assert_eq!(map.get("us").unwrap(), &b"stripes".to_vec());
    assert_eq!(map.get("jp").unwrap(), &b"sun".to_vec());
    assert_eq!(map.get("ae").unwrap(), &b"new".to_vec());
}
