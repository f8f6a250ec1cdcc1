//! Texts, keyed texts, paths and JSON values.

use ate::json::{Json, JsonNumber};
use ate::path::{
    absolute_glob_anchor, components, display_relative, is_absolute, is_descending, is_under,
    join_path,
};
use ate::text::{
    chars_of, clip, comes_before, contains, contains_char, copy_texts, decimal_text,
    is_white_space, join, lines, lower_ascii, position_in, same_ignoring_ascii_case, same_text,
    sorted_unique, split, starts_with, string_of, to_ascii_lower,
};
use ate::text_map::TextMap;

fn strings(list: &[&str]) -> Vec<String> {
    list.iter().map(|text| text.to_string()).collect()
}

#[test]
fn white_space_is_that_of_unicode() {
    for code in 0..=0x10FFFFu32 {
        if let Some(c) = char::from_u32(code) {
            assert_eq!(is_white_space(c), c.is_whitespace(), "{code:#x}");
        }
    }
}

#[test]
fn characters_and_ranges() {
    assert_eq!(chars_of("aé"), ['a', 'é']);
    assert_eq!(string_of(&['a', 'b', 'c'], 1, 3), "bc");
    assert_eq!(clip("abé", 3), ("abé".to_string(), false));
    assert_eq!(clip("abé", 2), ("ab".to_string(), true));
    assert_eq!(clip("", 0), (String::new(), false));
    assert_eq!(copy_texts(&strings(&["x", ""])), ["x", ""]);
}

#[test]
fn splitting_and_lines_agree_with_the_standard_library() {
    for text in [
        "", "a", ":", "a:b", ":a:", "a::b", "one\ntwo\n", "one\r\ntwo", "\n", "\r\n", "a\rb\n\nc\r",
        "x\n\r\ny",
    ] {
        let pieces: Vec<String> = text.split(':').map(str::to_string).collect();
        assert_eq!(split(text, ':'), pieces, "{text:?}");
        let all: Vec<String> = text.lines().map(str::to_string).collect();
        assert_eq!(lines(text), all, "{text:?}");
    }
}

#[test]
fn searching_agrees_with_the_standard_library() {
    for text in ["", "a", "aab", "abcabd", "éa"] {
        for needle in ["", "a", "ab", "abd", "é", "abcabdx"] {
            assert_eq!(contains(text, needle), text.contains(needle));
            assert_eq!(starts_with(text, needle), text.starts_with(needle));
            assert_eq!(same_text(text, needle), text == needle);
            assert_eq!(comes_before(text, needle), text < needle, "{text} {needle}");
        }
        assert_eq!(contains_char(text, 'b'), text.contains('b'));
    }
}

#[test]
fn joining_and_numbers() {
    assert_eq!(join(&strings(&["a", "b", "c"]), ", "), "a, b, c");
    assert_eq!(join(&strings(&["a"]), ", "), "a");
    assert_eq!(join(&[], ", "), "");
    for n in [0u128, 7, 10, 1_048_576, u128::MAX] {
        assert_eq!(decimal_text(n), n.to_string());
    }
}

#[test]
fn ascii_case() {
    assert_eq!(lower_ascii("HelloÉ"), "helloÉ");
    assert_eq!(to_ascii_lower('Z'), 'z');
    assert_eq!(to_ascii_lower('['), '[');
    assert!(same_ignoring_ascii_case("LocalHost", "localhost"));
    assert!(!same_ignoring_ascii_case("É", "é"));
    assert!(!same_ignoring_ascii_case("a", "ab"));
}

#[test]
fn sorting() {
    let sorted = sorted_unique(&strings(&["b", "a", "b", "aa", ""]));
    assert_eq!(sorted, ["", "a", "aa", "b"]);
    assert_eq!(position_in(&sorted, "aa"), 2);
    assert_eq!(position_in(&sorted, "ab"), 3);
}

#[test]
fn keyed_texts() {
    let mut map: TextMap<u8> = TextMap::new();
    assert_eq!(map.insert("b".to_string(), 1), None);
    assert_eq!(map.insert("a".to_string(), 2), None);
    assert_eq!(map.insert("b".to_string(), 3), Some(1));
    assert_eq!(map.len(), 2);
    assert_eq!(map.get("b"), Some(&3));
    assert_eq!(map.get("c"), None);
    assert!(map.contains_key("a"));
    assert_eq!(map.keys(), ["a", "b"]);
    assert_eq!(map.entries().len(), 2);
    assert_eq!(map.remove("a"), Some(2));
    assert_eq!(map.remove("a"), None);
    assert_eq!(map.take_all(), [("b".to_string(), 3)]);
    assert_eq!(map.len(), 0);
}

#[test]
fn paths_are_read_component_by_component() {
    assert!(is_absolute("/a"));
    assert!(!is_absolute("a/b"));
    assert_eq!(components("a/b"), ["a", "b"]);
    assert!(is_descending("a/b"));
    assert!(!is_descending("../a"));
    assert!(!is_descending("/a"));
    assert!(is_under("/home/u/project", "/home/u"));
    assert!(is_under("/home/u", "/home/u"));
    assert!(!is_under("/home/user", "/home/u"));
    assert_eq!(join_path("/home/u", "a/b"), "/home/u/a/b");
    assert_eq!(join_path("/home/u/", "a"), "/home/u/a");
    assert_eq!(join_path("/home/u", "/etc"), "/etc");
    assert_eq!(display_relative("/home/u", "/home/u/a/b"), "a/b");
    assert_eq!(display_relative("/home/u", "/etc/x"), "/etc/x");
    assert_eq!(absolute_glob_anchor("/home/u/src/*.rs"), "/home/u/src");
    assert_eq!(absolute_glob_anchor("/home/u/a.rs"), "/home/u/a.rs");
}

#[test]
fn joined_descending_paths_lie_under_their_base() {
    for rest in ["a", "a/b", "./a", "a/./b"] {
        assert!(is_descending(rest));
        assert!(is_under(&join_path("/base", rest), "/base"), "{rest}");
    }
}

#[test]
fn json_members_are_found_by_their_key() {
    let value = Json::object(vec![
        ("b".to_string(), Json::text("x")),
        ("a".to_string(), Json::unsigned(4)),
        ("n".to_string(), Json::Null),
    ]);
    assert_eq!(value.get("b").and_then(Json::as_str), Some("x"));
    assert_eq!(value.get_str("b"), Some("x"));
    assert_eq!(value.get_str("a"), None);
    assert_eq!(value.get_u64("a"), Some(4));
    assert_eq!(value.get_u64("b"), None);
    assert_eq!(value.get("c"), None);
    assert!(value.get("n").unwrap().is_null());
    assert!(!value.is_null());
    assert_eq!(Json::Null.get("a"), None);
    assert_eq!(Json::Number(JsonNumber::Negative(-1)).as_u64(), None);
    assert_eq!(Json::Number(JsonNumber::Other("1.5".to_string())).as_u64(), None);
    assert_eq!(value.keys().len(), 3);
    assert_eq!(Json::array(vec![]).keys(), Vec::<String>::new());
    assert_eq!(value.clone(), value);
}
