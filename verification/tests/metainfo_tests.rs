use std::sync::Arc;

use metainfo::{MetaInfo, Value};

// Type-identity tokens used by these tests; each stands for one payload
// type, as the token-keyed typed store expects.
const TK_I8: u64 = 1;
const TK_I16: u64 = 2;
const TK_I32: u64 = 3;
const TK_I64: u64 = 4;
const TK_I128: u64 = 5;
const TK_U8: u64 = 6;
const TK_U16: u64 = 7;
const TK_U32: u64 = 8;
const TK_U64: u64 = 9;
const TK_U128: u64 = 10;
const TK_BOOL: u64 = 11;
const TK_MY_TYPE: u64 = 12;

#[test]
fn test_remove() {
    let mut map = MetaInfo::new();

    map.insert(TK_I8, Value::I8(123));
    assert!(map.get(TK_I8).is_some());

    map.remove(TK_I8);
    assert!(map.get(TK_I8).is_none());

    map.insert(TK_I8, Value::I8(123));

    let mut m2 = MetaInfo::from(Arc::new(map));

    m2.remove(TK_I8);
    assert!(m2.get(TK_I8).is_some());
}

#[test]
fn test_clear() {
    let mut map = MetaInfo::new();

    map.insert(TK_I8, Value::I8(8));
    map.insert(TK_I16, Value::I16(16));
    map.insert(TK_I32, Value::I32(32));

    assert!(map.contains(TK_I8));
    assert!(map.contains(TK_I16));
    assert!(map.contains(TK_I32));

    map.clear();

    assert!(!map.contains(TK_I8));
    assert!(!map.contains(TK_I16));
    assert!(!map.contains(TK_I32));

    map.insert(TK_I8, Value::I8(10));
    assert_eq!(map.get(TK_I8), Some(&Value::I8(10)));
}

#[test]
fn test_integers() {
    let mut map = MetaInfo::new();

    map.insert(TK_I8, Value::I8(8));
    map.insert(TK_I16, Value::I16(16));
    map.insert(TK_I32, Value::I32(32));
    map.insert(TK_I64, Value::I64(64));
    map.insert(TK_I128, Value::I128(128));
    map.insert(TK_U8, Value::U8(8));
    map.insert(TK_U16, Value::U16(16));
    map.insert(TK_U32, Value::U32(32));
    map.insert(TK_U64, Value::U64(64));
    map.insert(TK_U128, Value::U128(128));
    assert!(map.get(TK_I8).is_some());
    assert!(map.get(TK_I16).is_some());
    assert!(map.get(TK_I32).is_some());
    assert!(map.get(TK_I64).is_some());
    assert!(map.get(TK_I128).is_some());
    assert!(map.get(TK_U8).is_some());
    assert!(map.get(TK_U16).is_some());
    assert!(map.get(TK_U32).is_some());
    assert!(map.get(TK_U64).is_some());
    assert!(map.get(TK_U128).is_some());

    let m2 = MetaInfo::from(Arc::new(map));
    assert!(m2.get(TK_I8).is_some());
    assert!(m2.get(TK_I16).is_some());
    assert!(m2.get(TK_I32).is_some());
    assert!(m2.get(TK_I64).is_some());
    assert!(m2.get(TK_I128).is_some());
    assert!(m2.get(TK_U8).is_some());
    assert!(m2.get(TK_U16).is_some());
    assert!(m2.get(TK_U32).is_some());
    assert!(m2.get(TK_U64).is_some());
    assert!(m2.get(TK_U128).is_some());
}

#[test]
fn test_metainfo() {
    let mut metainfo = MetaInfo::new();

    metainfo.insert(TK_I32, Value::I32(5));
    metainfo.insert(TK_MY_TYPE, Value::I32(10));

    assert_eq!(metainfo.get(TK_I32), Some(&Value::I32(5)));

    assert_eq!(metainfo.remove(TK_I32), Some(Value::I32(5)));
    assert!(metainfo.get(TK_I32).is_none());

    assert_eq!(metainfo.get(TK_BOOL), None);
    assert_eq!(metainfo.get(TK_MY_TYPE), Some(&Value::I32(10)));
}

#[test]
fn test_extend() {
    let mut metainfo = MetaInfo::new();

    metainfo.insert(TK_I32, Value::I32(5));
    metainfo.insert(TK_MY_TYPE, Value::I32(10));

    let mut other = MetaInfo::new();

    other.insert(TK_I32, Value::I32(15));
    other.insert(TK_U8, Value::U8(20));

    metainfo.extend(other);

    assert_eq!(metainfo.get(TK_I32), Some(&Value::I32(15)));

    assert_eq!(metainfo.remove(TK_I32), Some(Value::I32(15)));
    assert!(metainfo.get(TK_I32).is_none());

    assert_eq!(metainfo.get(TK_BOOL), None);
    assert_eq!(metainfo.get(TK_MY_TYPE), Some(&Value::I32(10)));

    assert_eq!(metainfo.get(TK_U8), Some(&Value::U8(20)));
}

#[test]
fn rpc_forward_test() {
    let mut metainfo = MetaInfo::new();
    metainfo.strip_rpc_prefix_and_set_persistent("RPC_PERSIST_TEST_KEY", "PERSIST".to_string());
    metainfo.strip_rpc_prefix_and_set_upstream("RPC_TRANSIT_TEST_KEY", "TRANSIT".to_string());
    assert_eq!(metainfo.get_persistent("TEST_KEY").unwrap(), "PERSIST");
    assert_eq!(metainfo.get_upstream("TEST_KEY").unwrap(), "TRANSIT");
    let map = metainfo
        .get_all_persistents_and_transients_with_rpc_prefix()
        .unwrap();
    assert_eq!(map.get("RPC_PERSIST_TEST_KEY").unwrap(), "PERSIST");
    // The `RPC_TRANSIT_TEST_KEY` is inserted into `upstream` and we cannot get it from
    // `transients`.
}

#[test]
fn http_forward_test() {
    let mut metainfo = MetaInfo::new();
    metainfo.strip_http_prefix_and_set_persistent("rpc-persist-test-key", "persist".to_string());
    metainfo.strip_http_prefix_and_set_upstream("rpc-transit-test-key", "transit".to_string());
    assert_eq!(metainfo.get_persistent("TEST_KEY").unwrap(), "persist");
    assert_eq!(metainfo.get_upstream("TEST_KEY").unwrap(), "transit");
    let map = metainfo
        .get_all_persistents_and_transients_with_http_prefix()
        .unwrap();
    assert_eq!(map.get("rpc-persist-test-key").unwrap(), "persist");
    // The `RPC_TRANSIT_TEST_KEY` is inserted into `upstream` and we cannot get it from
    // `transients`.
}

#[test]
fn parent_values_visible_until_shadowed() {
    let mut parent = MetaInfo::new();
    parent.insert(TK_I8, Value::I8(2));
    let parent = Arc::new(parent);
    let mut child = MetaInfo::from(parent);

    assert_eq!(child.get(TK_I8), Some(&Value::I8(2)));
    child.insert(TK_I8, Value::I8(4));
    assert_eq!(child.get(TK_I8), Some(&Value::I8(4)));
    child.remove(TK_I8);
    assert_eq!(child.get(TK_I8), Some(&Value::I8(2)));
}

#[test]
fn derive_without_overrides_shares_parent() {
    let mut root = MetaInfo::new();
    root.insert(TK_I8, Value::I8(2));
    let (m1, m2) = root.derive();
    // the original had local data, so both results are fresh children of
    // the promoted original and still see its data
    assert_eq!(m1.get(TK_I8), Some(&Value::I8(2)));
    assert_eq!(m2.get(TK_I8), Some(&Value::I8(2)));

    // deriving one of them again: no local overrides now, so the parent
    // chain is reused rather than grown
    let (m2a, m2b) = m2.derive();
    assert_eq!(m2a.get(TK_I8), Some(&Value::I8(2)));
    assert_eq!(m2b.get(TK_I8), Some(&Value::I8(2)));
}

#[test]
fn derive_isolates_siblings() {
    let mut root = MetaInfo::new();
    root.insert(TK_I8, Value::I8(2));
    let (_m1, mut m2) = root.derive();
    m2.insert(TK_I8, Value::I8(4));
    assert_eq!(m2.get(TK_I8), Some(&Value::I8(4)));
    m2.remove(TK_I8);
    assert_eq!(m2.get(TK_I8), Some(&Value::I8(2)));
}

#[test]
fn string_store_with_ancestor_fallback() {
    let mut parent = MetaInfo::new();
    parent.insert_string("city".to_string(), "rome".to_string());
    parent.insert_faststr(TK_U64, "tag".to_string());
    let mut child = MetaInfo::from(Arc::new(parent));

    assert!(child.contains_string("city"));
    assert_eq!(child.get_string("city").map(|s| s.as_str()), Some("rome"));
    assert!(child.contains_faststr(TK_U64));
    assert_eq!(child.get_faststr(TK_U64).map(|s| s.as_str()), Some("tag"));

    // local removal cannot touch the parent
    assert_eq!(child.remove_string("city"), None);
    assert_eq!(child.get_string("city").map(|s| s.as_str()), Some("rome"));

    // a local write shadows, a local removal unshadows
    child.insert_string("city".to_string(), "pisa".to_string());
    assert_eq!(child.get_string("city").map(|s| s.as_str()), Some("pisa"));
    assert_eq!(child.remove_string("city").as_deref(), Some("pisa"));
    assert_eq!(child.get_string("city").map(|s| s.as_str()), Some("rome"));
}

#[test]
fn persistent_exports_with_both_styles() {
    let mut metainfo = MetaInfo::new();
    metainfo.set_persistent("TEST_KEY".to_string(), "v".to_string());

    let rpc = metainfo
        .get_all_persistents_and_transients_with_rpc_prefix()
        .unwrap();
    assert_eq!(rpc.len(), 1);
    assert_eq!(rpc.get("RPC_PERSIST_TEST_KEY").unwrap(), "v");

    let http = metainfo
        .get_all_persistents_and_transients_with_http_prefix()
        .unwrap();
    assert_eq!(http.len(), 1);
    assert_eq!(http.get("rpc-persist-test-key").unwrap(), "v");
}

#[test]
fn export_merges_persistents_and_transients() {
    let mut metainfo = MetaInfo::new();
    metainfo.set_persistent("PKEY".to_string(), "pv".to_string());
    metainfo.set_transient("TKEY".to_string(), "tv".to_string());
    let map = metainfo
        .get_all_persistents_and_transients_with_rpc_prefix()
        .unwrap();
    assert_eq!(map.len(), 2);
    assert_eq!(map.get("RPC_PERSIST_PKEY").unwrap(), "pv");
    assert_eq!(map.get("RPC_TRANSIT_TKEY").unwrap(), "tv");
}

#[test]
fn export_of_empty_context_is_none() {
    let metainfo = MetaInfo::new();
    assert!(metainfo
        .get_all_persistents_and_transients_with_rpc_prefix()
        .is_none());
    assert!(metainfo
        .get_all_backward_transients_with_rpc_prefix()
        .is_none());

    // a node whose entries were all deleted again exports nothing
    let mut emptied = MetaInfo::new();
    emptied.set_persistent("K".to_string(), "v".to_string());
    emptied.del_persistent("K");
    assert!(emptied
        .get_all_persistents_and_transients_with_rpc_prefix()
        .is_none());
}

#[test]
fn strip_without_prefix_writes_nothing() {
    let mut metainfo = MetaInfo::new();
    metainfo.strip_rpc_prefix_and_set_persistent("RPC_PERSIST_TEST_KEY", "v".to_string());
    assert_eq!(metainfo.get_persistent("TEST_KEY").unwrap(), "v");

    let mut other = MetaInfo::new();
    other.strip_rpc_prefix_and_set_persistent("TEST_KEY", "v".to_string());
    assert_eq!(other.get_persistent("TEST_KEY"), None);
}

#[test]
fn backward_accessors_and_export() {
    let mut metainfo = MetaInfo::new();
    metainfo.set_backward_transient("BK".to_string(), "bv".to_string());
    metainfo.set_backward_downstream("DK".to_string(), "dv".to_string());
    assert_eq!(metainfo.get_backward_transient("BK").unwrap(), "bv");
    assert_eq!(metainfo.get_backward_downstream("DK").unwrap(), "dv");

    let rpc = metainfo.get_all_backward_transients_with_rpc_prefix().unwrap();
    assert_eq!(rpc.len(), 1);
    assert_eq!(rpc.get("RPC_TRANSIT_BK").unwrap(), "bv");

    let http = metainfo.get_all_backward_transients_with_http_prefix().unwrap();
    assert_eq!(http.len(), 1);
    assert_eq!(http.get("rpc-transit-bk").unwrap(), "bv");

    assert_eq!(metainfo.del_backward_transient("BK").as_deref(), Some("bv"));
    assert!(metainfo.get_all_backward_transients_with_rpc_prefix().is_none());
}

#[test]
fn strip_backward_prefixes() {
    let mut metainfo = MetaInfo::new();
    metainfo.strip_rpc_prefix_and_set_backward_downstream("RPC_BACKWARD_DK", "dv".to_string());
    assert_eq!(metainfo.get_backward_downstream("DK").unwrap(), "dv");
    metainfo.strip_http_prefix_and_set_backward_downstream("rpc-backward-hk", "hv".to_string());
    assert_eq!(metainfo.get_backward_downstream("HK").unwrap(), "hv");
    // no write without the exact prefix
    metainfo.strip_rpc_prefix_and_set_backward_downstream("DK2", "x".to_string());
    assert_eq!(metainfo.get_backward_downstream("DK2"), None);
}

#[test]
fn clear_drops_parent_but_not_earlier_children() {
    let mut root = MetaInfo::new();
    root.insert(TK_I8, Value::I8(7));
    let (mut a, b) = root.derive();

    // `b` was derived before the clear and keeps seeing the ancestor data
    a.clear();
    assert!(a.get(TK_I8).is_none());
    assert_eq!(b.get(TK_I8), Some(&Value::I8(7)));

    // the cleared context is a fresh root again
    a.insert(TK_I8, Value::I8(9));
    assert_eq!(a.get(TK_I8), Some(&Value::I8(9)));
}

#[test]
fn extend_persistent_overlap_incoming_wins() {
    let mut local = MetaInfo::new();
    local.set_persistent("SHARED".to_string(), "local".to_string());
    local.set_persistent("ONLY_LOCAL".to_string(), "l".to_string());

    let mut incoming = MetaInfo::new();
    incoming.set_persistent("SHARED".to_string(), "incoming".to_string());
    incoming.set_persistent("ONLY_INCOMING".to_string(), "i".to_string());

    local.extend(incoming);

    assert_eq!(local.get_persistent("SHARED").unwrap(), "incoming");
    assert_eq!(local.get_persistent("ONLY_LOCAL").unwrap(), "l");
    assert_eq!(local.get_persistent("ONLY_INCOMING").unwrap(), "i");
}

#[test]
fn http_export_folds_case_collisions() {
    // two keys that differ only by case land on the same kebab wire key
    let mut metainfo = MetaInfo::new();
    metainfo.set_persistent("KEY".to_string(), "upper".to_string());
    metainfo.set_persistent("key".to_string(), "lower".to_string());

    let http = metainfo
        .get_all_persistents_and_transients_with_http_prefix()
        .unwrap();
    assert_eq!(http.len(), 1);
    let v = http.get("rpc-persist-key").unwrap();
    assert!(v == "upper" || v == "lower");

    // the snake-style export keeps them apart
    let rpc = metainfo
        .get_all_persistents_and_transients_with_rpc_prefix()
        .unwrap();
    assert_eq!(rpc.len(), 2);
    assert_eq!(rpc.get("RPC_PERSIST_KEY").unwrap(), "upper");
    assert_eq!(rpc.get("RPC_PERSIST_key").unwrap(), "lower");
}

#[test]
fn forward_segment_accessors() {
    let mut metainfo = MetaInfo::new();
    assert!(metainfo.get_all_transients().is_none());
    metainfo.set_transient("T".to_string(), "tv".to_string());
    metainfo.set_upstream("U".to_string(), "uv".to_string());
    assert_eq!(metainfo.get_transient("T").unwrap(), "tv");
    assert_eq!(metainfo.get_upstream("U").unwrap(), "uv");
    assert_eq!(metainfo.get_all_transients().unwrap().len(), 1);
    assert_eq!(metainfo.get_all_upstreams().unwrap().len(), 1);
    assert!(metainfo.get_all_persistents().is_none());
    assert_eq!(metainfo.del_upstream("U").as_deref(), Some("uv"));
    assert_eq!(metainfo.del_transient("MISSING"), None);
}
