use std::path::{Component, Path};

use hotpath::numbers::{decimal_text, parse_i64, parse_u64, NumberFault};
use hotpath::paths::native::{
    lexically_normalize, requested_candidates, strip_root, NativePath, NormalPath, PathPart,
    RequestPlaces,
};
use hotpath::paths::{join_path, RequestFault};
use hotpath::table::{TextMap, TextSet};
use hotpath::text;

fn native(text: &str) -> NativePath {
    let path = Path::new(text);
    NativePath {
        text: text.to_owned(),
        prefix: Vec::new(),
        rooted: path.has_root(),
        absolute: path.is_absolute(),
        parts: path
            .components()
            .filter_map(|component| match component {
                Component::ParentDir => Some(PathPart::Parent),
                Component::Normal(name) => Some(PathPart::Name(name.as_encoded_bytes().to_vec())),
                _ => None,
            })
            .collect(),
    }
}

fn places(current: &str, root: &str) -> RequestPlaces {
    RequestPlaces {
        current: Some(lexically_normalize(&native(current))),
        root: Some(lexically_normalize(&native(root))),
    }
}

#[test]
fn white_space_is_that_of_unicode() {
    for c in '\0'..=char::MAX {
        assert_eq!(text::is_white_space(c), c.is_whitespace(), "{c:?}");
    }
}

#[test]
fn texts_are_cut_and_joined_as_std_does() {
    let samples = [
        "",
        " ",
        "a",
        "a\nb\r\nc",
        "\n",
        "a\n",
        "\r\n\r",
        " \u{2003}x\u{3000}y\t",
        "..a..b..",
        "\u{e9}\u{1f600}",
    ];
    for sample in samples {
        let owned = |parts: Vec<&str>| -> Vec<String> {
            parts.into_iter().map(|part| part.to_owned()).collect()
        };
        assert_eq!(text::trim(sample), sample.trim());
        assert_eq!(text::lines_of(sample), owned(sample.lines().collect()));
        assert_eq!(text::words_of(sample), owned(sample.split_whitespace().collect()));
        assert_eq!(text::split_text(sample, 'a'), owned(sample.split('a').collect()));
        assert_eq!(text::split_str(sample, ".."), owned(sample.split("..").collect()));
        assert_eq!(text::to_lower(sample), sample.to_ascii_lowercase());
        assert_eq!(text::contains(sample, ".b"), sample.contains(".b"));
        for other in samples {
            assert_eq!(text::precedes(sample, other), sample < other);
            assert_eq!(text::same(sample, other), sample == other);
            assert_eq!(text::starts_with(sample, other), sample.starts_with(other));
            assert_eq!(text::ends_with(sample, other), sample.ends_with(other));
        }
    }
}

#[test]
fn numbers_are_read_back() {
    for n in [0, 9, 10, 18_446_744_073_709_551_615u64] {
        assert_eq!(decimal_text(n), n.to_string());
        assert_eq!(parse_u64(&decimal_text(n)), Ok(n));
    }
    assert_eq!(parse_u64("+7"), Ok(7));
    assert_eq!(parse_u64(""), Err(NumberFault::Empty));
    assert_eq!(parse_u64("-1"), Err(NumberFault::InvalidDigit));
    assert_eq!(parse_u64("18446744073709551616"), Err(NumberFault::TooLarge));
    assert_eq!(parse_i64("-9223372036854775808"), Ok(i64::MIN));
    assert_eq!(parse_i64("-9223372036854775809"), Err(NumberFault::TooSmall));
    assert_eq!(parse_i64("9223372036854775808"), Err(NumberFault::TooLarge));
    for sample in ["", "-", "+", "12a", "007", "-0", " 1"] {
        assert_eq!(parse_i64(sample).ok(), sample.parse::<i64>().ok(), "{sample}");
        assert_eq!(
            parse_i64(sample).map_err(|fault| fault.message().to_owned()),
            sample.parse::<i64>().map_err(|fault| fault.to_string())
        );
    }
}

#[test]
fn tables_keep_their_keys_in_order() {
    let mut set = TextSet::new();
    let mut map = TextMap::new();
    for key in ["b", "a", "c", "a"] {
        let added = set.insert(key);
        assert_eq!(added, map.get(key).is_none());
        map.insert(key, format!("{key}{}", set.len()));
    }

    assert_eq!(set.len(), 3);
    assert!(set.contains("c"));
    assert!(!set.contains("d"));
    assert_eq!(map.keys, vec!["a", "b", "c"]);
    assert_eq!(map.get("a"), Some(&"a3".to_owned()));
    assert_eq!(map.get("d"), None);
}

#[test]
fn paths_are_normalized_without_a_disk() {
    let normal = |path: &str| lexically_normalize(&native(path));
    let names = |names: &[&str]| {
        names
            .iter()
            .map(|name| name.as_bytes().to_vec())
            .collect::<Vec<_>>()
    };

    assert_eq!(normal("/a/./b/../c//d").parts, names(&["a", "c", "d"]));
    assert_eq!(normal("../../a").parts, names(&["a"]));
    assert_eq!(
        strip_root(&normal("/a"), &normal("/a/b/../c")),
        Some(NormalPath {
            prefix: Vec::new(),
            rooted: false,
            parts: names(&["c"]),
        })
    );
    assert_eq!(strip_root(&normal("/a"), &normal("/ab")), None);
    assert_eq!(join_path("/a/", "b", '/'), "/a/b");
    assert_eq!(join_path("/a", "b", '/'), "/a/b");
    assert_eq!(join_path("/a", "/b", '/'), "/b");
    assert_eq!(join_path("", "b", '/'), "b");
    assert_eq!(
        requested_candidates(&places("/repo", "/repo"), &native("")),
        Err(RequestFault::EmptyPath)
    );
    assert_eq!(
        requested_candidates(&places("/repo", "/repo"), &native("../x")),
        Err(RequestFault::OutsideRepository)
    );
}
