use theymer::digest::{decimal, fingerprint, fnv1a_bytes, hex};
use theymer::paths::{
    ancestors, assemble, components, file_name, is_absolute, join, nearest_marked, parent, split,
    strip_prefix,
};
use theymer::text::{
    chars_of, contains, ends_with, find, matches_at, replace, same_text, starts_with, string_of,
    strip_suffix,
};

#[test]
fn chars_and_back() {
    let v = chars_of("héllo");
    assert_eq!(v, vec!['h', 'é', 'l', 'l', 'o']);
    assert_eq!(string_of(&v, 1, 4), "éll");
    assert_eq!(string_of(&v, 2, 2), "");
}

#[test]
fn finds_first_occurrence() {
    let s = chars_of("abcabc");
    assert_eq!(find(&s, &chars_of("bc")), Some(1));
    assert_eq!(find(&s, &chars_of("cb")), None);
    assert_eq!(find(&s, &chars_of("")), Some(0));
    assert_eq!(find(&chars_of(""), &chars_of("")), Some(0));
    assert_eq!(find(&s, &chars_of("abcabcd")), None);
    assert!(matches_at(&s, &chars_of("abc"), 3));
    assert!(!matches_at(&s, &chars_of("abc"), 4));
    assert!(matches_at(&s, &chars_of(""), 6));
    assert!(!matches_at(&s, &chars_of(""), 7));
}

#[test]
fn contains_prefix_suffix() {
    assert!(contains("a-{SWATCH}.conf", "{SWATCH}"));
    assert!(!contains("a-SWATCH.conf", "{SWATCH}"));
    assert!(starts_with("_partial", "_"));
    assert!(!starts_with("partial_", "_"));
    assert!(ends_with("x.jinja", ".jinja"));
    assert!(!ends_with("x.jinja2", ".jinja"));
    assert!(!ends_with("ja", ".jinja"));
    assert!(same_text("abc", "abc"));
    assert!(!same_text("abc", "abd"));
    assert!(!same_text("abc", "ab"));
}

#[test]
fn strips_suffix_once() {
    assert_eq!(strip_suffix("x.conf.jinja", ".jinja"), "x.conf");
    assert_eq!(strip_suffix("x.jinja.jinja", ".jinja"), "x.jinja");
    assert_eq!(strip_suffix("x.conf", ".jinja"), "x.conf");
    assert_eq!(strip_suffix(".jinja", ".jinja"), "");
}

#[test]
fn replaces_every_occurrence_from_the_left() {
    assert_eq!(replace("{THEME}-{SCHEME}.conf", "{THEME}", "forest"), "forest-{SCHEME}.conf");
    assert_eq!(replace("aaa", "aa", "b"), "ba");
    assert_eq!(replace("abab", "ab", "abab"), "abababab");
    assert_eq!(replace("abc", "x", "y"), "abc");
    assert_eq!(replace("abc", "", "y"), "abc");
    assert_eq!(replace("", "a", "b"), "");
    assert_eq!(replace("a\\b\\c", "\\", "/"), "a/b/c");
    assert_eq!(replace("xx", "x", ""), "");
}

#[test]
fn digest_is_fnv1a_in_hex() {
    assert_eq!(fingerprint(""), "cbf29ce484222325");
    assert_eq!(fingerprint("a"), "af63dc4c8601ec8c");
    assert_eq!(fingerprint("foobar"), "85944171f73967e8");
    assert_eq!(fingerprint("hello world"), "779a65e7023cd2e7");
    assert_eq!(fingerprint("é"), "0ac21707b7181e01");
    assert_eq!(fnv1a_bytes(&[]), 0xcbf2_9ce4_8422_2325);
    assert_eq!(fnv1a_bytes(&[0x61]), 0xaf63_dc4c_8601_ec8c);
}

#[test]
fn hex_has_sixteen_digits() {
    assert_eq!(hex(0), "0000000000000000");
    assert_eq!(hex(0xabc), "0000000000000abc");
    assert_eq!(hex(u64::MAX), "ffffffffffffffff");
    assert_eq!(hex(0x0123_4567_89ab_cdef), "0123456789abcdef");
}

#[test]
fn decimal_has_no_leading_zeros() {
    assert_eq!(decimal(0), "0");
    assert_eq!(decimal(7), "7");
    assert_eq!(decimal(10), "10");
    assert_eq!(decimal(99), "99");
    assert_eq!(decimal(100), "100");
    assert_eq!(decimal(255), "255");
}

#[test]
fn joins_paths() {
    assert_eq!(join("render", "forest-dark.conf"), "render/forest-dark.conf");
    assert_eq!(join("render/", "x"), "render/x");
    assert_eq!(join("render", ""), "render");
    assert_eq!(join("", "x"), "x");
    assert_eq!(join("render", "/abs/x"), "/abs/x");
    assert_eq!(join("/", "x"), "/x");
}

#[test]
fn parents_and_file_names() {
    assert_eq!(parent("a/b/c.conf"), "a/b");
    assert_eq!(parent("c.conf"), "");
    assert_eq!(parent("/c.conf"), "/");
    assert_eq!(parent("/"), "/");
    assert_eq!(parent(""), "");
    assert_eq!(file_name("a/b/c.conf"), Some("c.conf".to_owned()));
    assert_eq!(file_name("c.conf"), Some("c.conf".to_owned()));
    assert_eq!(file_name("a/"), None);
    assert_eq!(file_name(""), None);
    assert_eq!(file_name("a/.."), None);
    assert_eq!(file_name("a/."), None);
    assert_eq!(file_name("a/..."), Some("...".to_owned()));
    assert!(is_absolute("/a"));
    assert!(!is_absolute("a/b"));
    assert!(!is_absolute(""));
}

#[test]
fn strips_leading_components() {
    assert_eq!(strip_prefix("/repo/out/x.conf", "/repo"), Some("out/x.conf".to_owned()));
    assert_eq!(strip_prefix("/repo/out/x.conf", "/repo/"), Some("out/x.conf".to_owned()));
    assert_eq!(strip_prefix("/repo", "/repo"), Some("".to_owned()));
    assert_eq!(strip_prefix("/repository/x", "/repo"), None);
    assert_eq!(strip_prefix("/other/x", "/repo"), None);
    assert_eq!(strip_prefix("a/b", ""), Some("a/b".to_owned()));
    assert_eq!(strip_prefix("/a/b", ""), Some("/a/b".to_owned()));
    assert_eq!(strip_prefix("/a", "/a/b"), None);
    assert_eq!(strip_prefix("/repo//x", "/repo"), Some("x".to_owned()));
    assert_eq!(strip_prefix("/repo", "/repo/"), Some("".to_owned()));
    assert_eq!(strip_prefix("/repo/./x/", "/repo"), Some("x".to_owned()));
    assert_eq!(strip_prefix("./a/b", "a"), None);
    assert_eq!(strip_prefix("./a/b", "."), Some("a/b".to_owned()));
    assert_eq!(strip_prefix("a/b", "/a"), None);
    assert_eq!(strip_prefix("/a/b", "a"), None);
    assert_eq!(strip_prefix("/a/b", "/"), Some("a/b".to_owned()));
}

#[test]
fn splits_into_pieces_and_components() {
    let texts = |list: Vec<String>| list;
    assert_eq!(texts(split("a//b/")), vec!["a", "", "b", ""]);
    assert_eq!(texts(split("")), vec![""]);
    assert_eq!(texts(split("/")), vec!["", ""]);
    assert_eq!(texts(components("/a//b/./c/")), vec!["/", "a", "b", "c"]);
    assert_eq!(texts(components("./a/../b")), vec![".", "a", "..", "b"]);
    assert_eq!(texts(components("")), Vec::<String>::new());
    assert_eq!(texts(components("/")), vec!["/"]);
    let list = components("/a/b/c");
    assert_eq!(assemble(&list, 0), "/a/b/c");
    assert_eq!(assemble(&list, 2), "b/c");
    assert_eq!(assemble(&list, 4), "");
}

#[test]
fn lists_ancestors_nearest_first() {
    assert_eq!(ancestors("/a/b"), vec!["/a/b".to_owned(), "/a".to_owned(), "/".to_owned()]);
    assert_eq!(ancestors("a/b"), vec!["a/b".to_owned(), "a".to_owned(), "".to_owned()]);
    assert_eq!(ancestors("/"), vec!["/".to_owned()]);
    assert_eq!(ancestors(""), vec!["".to_owned()]);
}

#[test]
fn nearest_marked_ancestor_wins() {
    assert_eq!(nearest_marked("/a/b/c", &vec![false, true, true]), Some("/a/b".to_owned()));
    assert_eq!(nearest_marked("/a/b/c", &vec![true, true]), Some("/a/b/c".to_owned()));
    assert_eq!(nearest_marked("/a/b/c", &vec![false, false, false, true]), Some("/".to_owned()));
    assert_eq!(nearest_marked("/a/b/c", &vec![false, false, false, false, true]), None);
    assert_eq!(nearest_marked("/a/b/c", &vec![]), None);
    assert_eq!(nearest_marked("a", &vec![false, true]), Some("".to_owned()));
}
