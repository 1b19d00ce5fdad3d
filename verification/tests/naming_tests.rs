use moxide::naming::{candidate, contains_name, u64_to_string, unique_name};

fn names(list: &[&str]) -> Vec<String> {
    list.iter().map(|s| s.to_string()).collect()
}

#[test]
fn unique_name_skips_taken_suffixes() {
    let taken = names(&["sess", "sess-1", "sess-2"]);
    assert_eq!(unique_name(&"sess".to_string(), &taken), "sess-3".to_string());
}

#[test]
fn unique_name_keeps_free_base() {
    let taken = names(&["other"]);
    assert_eq!(unique_name(&"sess".to_string(), &taken), "sess".to_string());
    assert_eq!(unique_name(&"sess".to_string(), &Vec::new()), "sess".to_string());
}

#[test]
fn unique_name_takes_first_gap() {
    let taken = names(&["sess", "sess-2"]);
    assert_eq!(unique_name(&"sess".to_string(), &taken), "sess-1".to_string());
}

#[test]
fn decimal_rendering_is_exact() {
    assert_eq!(u64_to_string(0), "0".to_string());
    assert_eq!(u64_to_string(7), "7".to_string());
    assert_eq!(u64_to_string(10), "10".to_string());
    assert_eq!(u64_to_string(12345), "12345".to_string());
}

#[test]
fn candidate_names_are_base_then_suffixed() {
    let base = "s".to_string();
    assert_eq!(candidate(&base, 0), "s".to_string());
    assert_eq!(candidate(&base, 1), "s-1".to_string());
    assert_eq!(candidate(&base, 12), "s-12".to_string());
}

#[test]
fn contains_name_finds_exact_matches() {
    let taken = names(&["a", "b"]);
    assert!(contains_name(&taken, &"a".to_string()));
    assert!(!contains_name(&taken, &"c".to_string()));
}

#[test]
fn unique_name_suffixes_an_already_suffixed_base() {
    let taken = names(&["s-1"]);
    assert_eq!(unique_name(&"s-1".to_string(), &taken), "s-1-1".to_string());
}
