use livekit_portal::name_map::NameMap;
use livekit_portal::name_set::NameSet;
use livekit_portal::text::{append_decimal, same, same_bytes};
use livekit_portal::wire::{get_le, put_le};

#[test]
fn maps_keep_one_value_per_name() {
    let mut m = NameMap::new();
    assert!(m.is_empty());
    m.insert("a".to_string(), 1);
    m.insert("b".to_string(), 2);
    m.insert("a".to_string(), 3);
    assert_eq!(m.len(), 2);
    assert_eq!(m.get("a"), Some(&3));
    assert_eq!(m.get("c"), None);
    assert!(m.contains_key("b") && !m.contains_key("c"));
    m.replace("b", 7);
    assert_eq!(m.get("b"), Some(&7));
    assert_eq!(m.entries().len(), 2);
    assert_eq!(m.clone().get("a"), Some(&3));
}

#[test]
fn sets_are_ordered() {
    let mut s = NameSet::new();
    for n in ["b", "é", "a", "ab", "Z", "b"] {
        s.insert(n);
    }
    assert_eq!(s.to_vec(), vec!["Z", "a", "ab", "b", "é"]);
    assert!(!s.insert("a"));
    assert!(s.remove("a"));
    assert!(!s.remove("a"));
    assert!(s.contains("ab") && !s.contains("a"));
    s.clear();
    assert!(s.to_vec().is_empty());
}

#[test]
fn numbers_in_words() {
    for n in [0u128, 9, 10, 101, 65_535, u64::MAX as u128] {
        let mut s = "n=".to_string();
        append_decimal(&mut s, n);
        assert_eq!(s, format!("n={n}"));
    }
    assert!(same("a", "a") && !same("a", "b") && !same("a", "ab"));
    assert!(same_bytes(&[1, 2], &[1, 2]) && !same_bytes(&[1], &[1, 2]));
}

#[test]
fn little_endian_round_trip() {
    for n in [0u64, 1, 255, 256, 0x0102_0304, u64::MAX] {
        let mut v = vec![9];
        put_le(&mut v, n, 8);
        assert_eq!(&v[1..], &n.to_le_bytes());
        assert_eq!(get_le(&v, 1, 8), n);
    }
}
