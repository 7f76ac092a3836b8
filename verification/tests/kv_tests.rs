use metainfo::Node;

#[test]
fn test_add_stale() {
    let mut node = Node::default();
    node.set_stale("key".to_string(), "value".to_string());
    println!("{:?}", node);
}

#[test]
fn node_segments_are_independent() {
    let mut node = Node::new();
    node.set_persistent("k".to_string(), "p".to_string());
    node.set_transient("k".to_string(), "t".to_string());
    node.set_stale("k".to_string(), "s".to_string());
    assert_eq!(node.get_persistent("k").map(|s| s.as_str()), Some("p"));
    assert_eq!(node.get_transient("k").map(|s| s.as_str()), Some("t"));
    assert_eq!(node.get_stale("k").map(|s| s.as_str()), Some("s"));
    assert_eq!(node.del_transient("k").as_deref(), Some("t"));
    assert_eq!(node.get_transient("k"), None);
    assert_eq!(node.get_persistent("k").map(|s| s.as_str()), Some("p"));
}

#[test]
fn node_get_all_tracks_allocation() {
    let mut node = Node::new();
    assert!(node.get_all_persistents().is_none());
    node.set_persistent("a".to_string(), "1".to_string());
    let all = node.get_all_persistents().unwrap();
    assert_eq!(all.len(), 1);
    assert_eq!(all.get("a").map(|s| s.as_str()), Some("1"));
    // deleting the only key keeps the allocated, now empty segment
    node.del_persistent("a");
    let all = node.get_all_persistents().unwrap();
    assert_eq!(all.len(), 0);
}

#[test]
fn node_del_missing_is_noop() {
    let mut node = Node::new();
    assert_eq!(node.del_persistent("missing"), None);
    node.set_persistent("a".to_string(), "1".to_string());
    assert_eq!(node.del_persistent("missing"), None);
    assert_eq!(node.get_persistent("a").map(|s| s.as_str()), Some("1"));
}

#[test]
fn node_extend_adopts_and_merges() {
    // absent local segment: adopted wholesale
    let mut a = Node::new();
    let mut b = Node::new();
    b.set_persistent("x".to_string(), "bx".to_string());
    a.extend(b);
    assert_eq!(a.get_persistent("x").map(|s| s.as_str()), Some("bx"));

    // present local segment: merged key by key, incoming side wins
    let mut c = Node::new();
    c.set_persistent("x".to_string(), "cx".to_string());
    c.set_persistent("y".to_string(), "cy".to_string());
    let mut d = Node::new();
    d.set_persistent("x".to_string(), "dx".to_string());
    d.set_persistent("z".to_string(), "dz".to_string());
    c.extend(d);
    assert_eq!(c.get_persistent("x").map(|s| s.as_str()), Some("dx"));
    assert_eq!(c.get_persistent("y").map(|s| s.as_str()), Some("cy"));
    assert_eq!(c.get_persistent("z").map(|s| s.as_str()), Some("dz"));
}

#[test]
fn node_clear_empties_segments() {
    let mut node = Node::new();
    node.set_persistent("a".to_string(), "1".to_string());
    node.set_stale("b".to_string(), "2".to_string());
    node.clear();
    assert_eq!(node.get_persistent("a"), None);
    assert_eq!(node.get_stale("b"), None);
}

#[test]
fn node_clone_is_deep() {
    let mut node = Node::new();
    node.set_transient("k".to_string(), "v".to_string());
    let mut copy = node.clone();
    copy.set_transient("k".to_string(), "changed".to_string());
    assert_eq!(node.get_transient("k").map(|s| s.as_str()), Some("v"));
    assert_eq!(copy.get_transient("k").map(|s| s.as_str()), Some("changed"));
}
