use whatszara::params::ParamMap;

#[test]
fn reading_after_writing_gives_the_value_back() {
    let mut p = ParamMap::new();
    assert_eq!(p.len(), 0);
    p.insert("a".to_string(), "1".to_string());
    p.insert("b".to_string(), "2".to_string());
    assert_eq!(p.get("a").map(|s| s.as_str()), Some("1"));
    p.insert("a".to_string(), "3".to_string());
    assert_eq!(p.get("a").map(|s| s.as_str()), Some("3"));
    assert_eq!(p.get("b").map(|s| s.as_str()), Some("2"));
    assert_eq!(p.get("c"), None);
    assert_eq!(p.len(), 2);
    let order: Vec<(&str, &str)> = p.entries().iter().map(|(k, v)| (k.as_str(), v.as_str())).collect();
    assert_eq!(order, vec![("a", "3"), ("b", "2")]);
    let q = p.duplicate();
    assert_eq!(q.get("a").map(|s| s.as_str()), Some("3"));
    assert_eq!(q.len(), 2);
}
