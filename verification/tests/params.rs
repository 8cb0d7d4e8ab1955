use linexus_orch::params::Params;

#[test]
fn insert_returns_previous_value() {
    let mut p = Params::new();
    assert_eq!(p.insert("a".into(), "1".into()), None);
    assert_eq!(p.insert("a".into(), "2".into()), Some("1".to_string()));
    assert_eq!(p.get("a").map(String::as_str), Some("2"));
    assert_eq!(p.entries().len(), 1);
}

#[test]
fn clone_keeps_entries() {
    let mut p = Params::new();
    p.insert("x".into(), "y".into());
    p.insert("z".into(), "w".into());
    let q = p.clone();
    assert_eq!(q.get("x").map(String::as_str), Some("y"));
    assert_eq!(q.get("z").map(String::as_str), Some("w"));
    assert_eq!(q.entries().len(), 2);
}

#[test]
fn keys_compare_by_characters() {
    let mut p = Params::new();
    p.insert("ключ".into(), "значение".into());
    assert_eq!(p.get("ключ").map(String::as_str), Some("значение"));
    assert_eq!(p.get("клю"), None);
}

#[test]
fn entries_are_kept_in_key_order() {
    let mut p = Params::new();
    p.insert("version".into(), "1".into());
    p.insert("name".into(), "nginx".into());
    p.insert("state".into(), "present".into());
    p.insert("Zeta".into(), "z".into());
    p.insert("name".into(), "vim".into());
    let keys: Vec<&str> = p.entries().iter().map(|(k, _)| k.as_str()).collect();
    assert_eq!(keys, vec!["Zeta", "name", "state", "version"]);
    assert_eq!(p.get("name").map(String::as_str), Some("vim"));
}

#[test]
fn key_order_is_byte_order() {
    let mut p = Params::new();
    for k in ["é", "z", "ab", "a", "", "b"] {
        p.insert(k.into(), "v".into());
    }
    let keys: Vec<String> = p.entries().iter().map(|(k, _)| k.clone()).collect();
    let mut sorted = keys.clone();
    sorted.sort();
    assert_eq!(keys, sorted);
    assert_eq!(keys.len(), 6);
}
