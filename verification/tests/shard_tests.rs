use crates_index::Index;
use crates_index::resolve;

#[test]
fn resolve_one_char() {
    assert_eq!(resolve("a").unwrap(), "1/a");
    assert_eq!(resolve("z").unwrap(), "1/z");
}

#[test]
fn resolve_two_chars() {
    assert_eq!(resolve("ab").unwrap(), "2/ab");
    assert_eq!(resolve("cc").unwrap(), "2/cc");
}

#[test]
fn resolve_three_chars() {
    assert_eq!(resolve("abc").unwrap(), "3/a/abc");
    assert_eq!(resolve("gcc").unwrap(), "3/g/gcc");
}

#[test]
fn resolve_four_and_more_chars() {
    assert_eq!(resolve("abcd").unwrap(), "ab/cd/abcd");
    assert_eq!(resolve("serde").unwrap(), "se/rd/serde");
    assert_eq!(resolve("crates-index").unwrap(), "cr/at/crates-index");
}

#[test]
fn resolve_is_case_insensitive() {
    assert_eq!(resolve("CC").unwrap(), "2/cc");
    assert_eq!(resolve("Serde").unwrap(), "se/rd/serde");
    assert_eq!(resolve("TOML").unwrap(), resolve("toml").unwrap());
}

#[test]
fn resolve_is_deterministic() {
    let first = resolve("serde");
    let second = resolve("serde");
    assert_eq!(first, second);
    assert_eq!(resolve("a"), resolve("a"));
}

#[test]
fn resolve_rejects_empty_and_non_ascii() {
    assert!(resolve("").is_none());
    assert!(resolve("\u{7121}").is_none());
}

#[test]
fn crate_path_joins_root_and_shard() {
    let index = Index::new(String::from("root"));
    assert_eq!(index.crate_path("abc").unwrap(), "root/3/a/abc");
    assert_eq!(index.crate_path("serde").unwrap(), "root/se/rd/serde");
    assert!(index.crate_path("\u{7121}").is_none());
    assert_eq!(index.path(), "root");
}
