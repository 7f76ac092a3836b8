use metainfo::{FastStrMap, StrMap, TypeMap, Value};

const TK_A: u64 = 100;
const TK_B: u64 = 101;

#[test]
fn type_map_insert_get_remove() {
    let mut map = TypeMap::new();
    assert!(map.is_empty());
    assert!(!map.contains(TK_A));

    map.insert(TK_A, Value::I64(-9));
    assert!(map.contains(TK_A));
    assert_eq!(map.get(TK_A), Some(&Value::I64(-9)));
    assert_eq!(map.get(TK_B), None);

    // overwriting keeps one payload per token
    map.insert(TK_A, Value::Bool(true));
    assert_eq!(map.get(TK_A), Some(&Value::Bool(true)));

    assert_eq!(map.remove(TK_A), Some(Value::Bool(true)));
    assert_eq!(map.remove(TK_A), None);
    assert!(map.is_empty());
}

#[test]
fn type_map_get_mut_and_clear() {
    let mut map = TypeMap::with_capacity(4);
    map.insert(TK_A, Value::U32(1));
    if let Some(v) = map.get_mut(TK_A) {
        *v = Value::U32(2);
    }
    assert_eq!(map.get(TK_A), Some(&Value::U32(2)));
    assert!(map.get_mut(TK_B).is_none());
    map.clear();
    assert!(map.is_empty());
}

#[test]
fn type_map_extend_overwrites() {
    let mut a = TypeMap::new();
    a.insert(TK_A, Value::I8(1));
    let mut b = TypeMap::new();
    b.insert(TK_A, Value::I8(2));
    b.insert(TK_B, Value::Text("s".to_string()));
    a.extend(b);
    assert_eq!(a.get(TK_A), Some(&Value::I8(2)));
    assert_eq!(a.get(TK_B), Some(&Value::Text("s".to_string())));
}

#[test]
fn entry_or_insert() {
    let mut map = TypeMap::new();
    assert_eq!(*map.entry(TK_A).or_insert(Value::I32(5)), Value::I32(5));
    // present: the stored payload is handed back, the default is ignored
    assert_eq!(*map.entry(TK_A).or_insert(Value::I32(9)), Value::I32(5));
    // the handed-out slot is live
    *map.entry(TK_A).or_insert(Value::I32(0)) = Value::I32(7);
    assert_eq!(map.get(TK_A), Some(&Value::I32(7)));
}

#[test]
fn entry_or_insert_with() {
    let mut map = TypeMap::new();
    assert_eq!(
        *map.entry(TK_A).or_insert_with(|| Value::U8(3)),
        Value::U8(3),
    );
    assert_eq!(
        *map.entry(TK_A).or_insert_with(|| Value::U8(8)),
        Value::U8(3),
    );
}

#[test]
fn entry_or_insert_with_key() {
    let mut map = TypeMap::new();
    assert_eq!(
        *map.entry(TK_A).or_insert_with_key(|k| Value::U64(k + 1)),
        Value::U64(TK_A + 1),
    );
}

#[test]
fn entry_and_modify() {
    let mut map = TypeMap::new();
    // absent: and_modify leaves the store untouched
    map.entry(TK_A).and_modify(|v| v).or_insert(Value::I16(1));
    assert_eq!(map.get(TK_A), Some(&Value::I16(1)));
    // present: the function rewrites the payload
    map.entry(TK_A)
        .and_modify(|_| Value::I16(2))
        .or_insert(Value::I16(99));
    assert_eq!(map.get(TK_A), Some(&Value::I16(2)));
}

#[test]
fn entry_or_default() {
    let mut map = TypeMap::new();
    assert_eq!(*map.entry(TK_A).or_default(), Value::Unit);
    map.insert(TK_B, Value::Bool(false));
    assert_eq!(*map.entry(TK_B).or_default(), Value::Bool(false));
}

#[test]
fn faststr_map_basics() {
    let mut map = FastStrMap::new();
    assert!(map.is_empty());
    map.insert(TK_A, "alpha".to_string());
    assert!(map.contains(TK_A));
    assert_eq!(map.get(TK_A).map(|s| s.as_str()), Some("alpha"));
    if let Some(v) = map.get_mut(TK_A) {
        v.push('!');
    }
    assert_eq!(map.get(TK_A).map(|s| s.as_str()), Some("alpha!"));
    assert_eq!(map.remove(TK_A).as_deref(), Some("alpha!"));
    assert!(!map.contains(TK_A));

    let mut other = FastStrMap::with_capacity(2);
    other.insert(TK_B, "beta".to_string());
    map.extend(other);
    assert_eq!(map.get(TK_B).map(|s| s.as_str()), Some("beta"));
    map.clear();
    assert!(map.is_empty());
}

#[test]
fn str_map_basics() {
    let mut map = StrMap::new();
    assert!(map.is_empty());
    assert_eq!(map.len(), 0);
    map.set("a".to_string(), "1".to_string());
    map.set("b".to_string(), "2".to_string());
    map.set("a".to_string(), "3".to_string());
    assert_eq!(map.len(), 2);
    assert_eq!(map.get("a").map(|s| s.as_str()), Some("3"));
    assert_eq!(map.get("b").map(|s| s.as_str()), Some("2"));
    assert_eq!(map.get("c"), None);
    assert_eq!(map.del("a").as_deref(), Some("3"));
    assert_eq!(map.del("a"), None);
    assert_eq!(map.len(), 1);

    let mut incoming = StrMap::with_capacity(2);
    incoming.set("b".to_string(), "20".to_string());
    incoming.set("c".to_string(), "30".to_string());
    map.extend(incoming);
    assert_eq!(map.get("b").map(|s| s.as_str()), Some("20"));
    assert_eq!(map.get("c").map(|s| s.as_str()), Some("30"));

    let copy = map.clone();
    assert_eq!(copy.get("b").map(|s| s.as_str()), Some("20"));

    map.clear();
    assert!(map.is_empty());
}

#[test]
fn str_map_entry_iteration() {
    let mut map = StrMap::new();
    map.set("x".to_string(), "1".to_string());
    map.set("y".to_string(), "2".to_string());
    let mut seen = Vec::new();
    for i in 0..map.entry_count() {
        let (k, v) = map.entry_at(i);
        seen.push((k.clone(), v.clone()));
    }
    seen.sort();
    assert_eq!(
        seen,
        vec![
            ("x".to_string(), "1".to_string()),
            ("y".to_string(), "2".to_string()),
        ],
    );
}
