use minmon::placeholder::{merge_placeholders, PlaceholderMap};

fn get(m: &PlaceholderMap, k: &str) -> Option<String> {
    m.get(&String::from(k))
}

#[test]
fn test_empty_map() {
    let m = PlaceholderMap::new();
    assert_eq!(m.len(), 0);
    assert!(!m.contains_key(&String::from("k")));
    assert_eq!(get(&m, "k"), None);
}

#[test]
fn test_insert_and_get() {
    let mut m = PlaceholderMap::new();
    m.insert(String::from("k"), String::from("v"));
    assert_eq!(m.len(), 1);
    assert!(m.contains_key(&String::from("k")));
    assert_eq!(get(&m, "k"), Some(String::from("v")));
}

#[test]
fn test_insert_supersedes() {
    let mut m = PlaceholderMap::new();
    m.insert(String::from("k"), String::from("v1"));
    m.insert(String::from("k"), String::from("v2"));
    assert_eq!(m.len(), 1);
    assert_eq!(get(&m, "k"), Some(String::from("v2")));
}

#[test]
fn test_merge_does_not_overwrite() {
    let mut dst = PlaceholderMap::new();
    dst.insert(String::from("Foo"), String::from("Bar"));
    let mut src = PlaceholderMap::new();
    src.insert(String::from("Hello"), String::from("World"));
    src.insert(String::from("Foo"), String::from("Broader"));
    merge_placeholders(&mut dst, &src);
    assert_eq!(dst.len(), 2);
    assert_eq!(get(&dst, "Foo"), Some(String::from("Bar")));
    assert_eq!(get(&dst, "Hello"), Some(String::from("World")));
}

#[test]
fn test_merge_into_empty() {
    let mut dst = PlaceholderMap::new();
    let mut src = PlaceholderMap::new();
    src.insert(String::from("a"), String::from("1"));
    src.insert(String::from("b"), String::from("2"));
    merge_placeholders(&mut dst, &src);
    assert_eq!(dst.len(), 2);
    assert_eq!(get(&dst, "a"), Some(String::from("1")));
    assert_eq!(get(&dst, "b"), Some(String::from("2")));
}

#[test]
fn test_clone_denotes_same_mapping() {
    let mut m = PlaceholderMap::new();
    m.insert(String::from("a"), String::from("1"));
    let c = m.clone();
    m.insert(String::from("b"), String::from("2"));
    assert_eq!(c.len(), 1);
    assert_eq!(get(&c, "a"), Some(String::from("1")));
    assert_eq!(get(&c, "b"), None);
}
