use baywatch::names::NameMap;
use baywatch::paths::{dir_and_name, file_name_of, join_path, path_from, paths_equal};
use baywatch::text::{
    chars_of, decimal_text, eq_ignore_ascii_case, is_white_space, join, same_text, split_once,
    text_before, trim,
};
use std::path::{Path, PathBuf};

#[test]
fn white_space_is_that_of_unicode() {
    for c in '\0'..=char::MAX {
        assert_eq!(is_white_space(c), c.is_whitespace(), "{:?}", c);
    }
}

#[test]
fn texts_are_trimmed() {
    for t in ["", " ", "a", "  a b\t", "\r\n tail x \n", "\u{2003}x\u{a0}", "é "] {
        assert_eq!(trim(t), t.trim());
    }
}

#[test]
fn texts_are_split() {
    for t in ["", " ", "a", "a b", " b", "a ", "a b c", "é ü"] {
        assert_eq!(split_once(t, ' '), t.split_once(' '));
        assert_eq!(text_before(t, ' '), t.split(' ').next().unwrap());
    }
}

#[test]
fn texts_are_joined() {
    let parts: Vec<String> = vec!["a".to_string(), "".to_string(), "b".to_string()];
    assert_eq!(join(&parts, ", "), parts.join(", "));
    assert_eq!(join(&Vec::new(), ", "), "");
    assert_eq!(join(&vec!["x".to_string()], ", "), "x");
}

#[test]
fn numbers_are_written() {
    for n in [0, 7, 10, 80, 999, 65535, u64::MAX] {
        assert_eq!(decimal_text(n), n.to_string());
    }
}

#[test]
fn capitals_are_ignored() {
    for (a, b) in [
        ("WebSocket", "websocket"),
        ("websockets", "websocket"),
        ("É", "é"),
        ("", ""),
        ("h2c", "H2C"),
        ("[", "{"),
    ] {
        assert_eq!(eq_ignore_ascii_case(a, b), a.eq_ignore_ascii_case(b));
    }
}

#[test]
fn characters_are_kept() {
    assert_eq!(chars_of("aé\n"), vec!['a', 'é', '\n']);
    assert!(same_text("é", "é"));
    assert!(!same_text("e", "é"));
}

#[test]
fn paths_are_joined_as_the_system_does() {
    for dir in ["", "/", "/srv", "/srv/", ".", "a//"] {
        for name in ["baywatch", "", "/etc", "a/b", "."] {
            let expected: PathBuf = PathBuf::from(dir).join(name);
            assert_eq!(
                join_path(&path_from(dir), &path_from(name)),
                path_from(expected.to_str().unwrap())
            );
        }
    }
}

const PATHS: [&str; 37] = [
    "", "/", "//", ".", "./", "./.", "/.", "..", "/..", "a", "a/", "./a", "a/.", "a/./", "/a",
    "//a", "/a/", "/a/.", "a/b", "a//b", "a/./b", "./a/b", "a/../b", "b", ".a", "a.", "~", "~/a",
    "/a/b", "/./a", "...", "é/", "é", "a/..", "./..", ".//a", "a/.b/",
];

#[test]
fn paths_are_compared_as_the_system_does() {
    for a in PATHS {
        for b in PATHS {
            assert_eq!(
                paths_equal(&path_from(a), &path_from(b)),
                Path::new(a) == Path::new(b),
                "{:?} {:?}",
                a,
                b
            );
        }
    }
}

#[test]
fn paths_are_divided_as_the_system_does() {
    for p in PATHS {
        let path = Path::new(p);
        let name = path.file_name().and_then(|n| n.to_str());
        assert_eq!(file_name_of(&path_from(p)), name.map(path_from), "{:?}", p);
        match dir_and_name(&path_from(p)) {
            Ok((dir, file)) => {
                assert_eq!(Some(file), name.map(path_from));
                let parent = path.parent().unwrap().to_str().unwrap();
                assert!(paths_equal(&dir, &path_from(parent)), "{:?}", p);
            }
            Err(e) => {
                assert_eq!(name, None);
                assert_eq!(e == "Config path has no parent directory", path.parent().is_none());
            }
        }
    }
}

#[test]
fn names_stay_in_order() {
    let mut map: NameMap<String> = NameMap::new();
    map.insert("b".to_string(), "1".to_string());
    map.insert("a".to_string(), "2".to_string());
    map.insert("b".to_string(), "3".to_string());
    assert_eq!(map.len(), 2);
    assert_eq!(map.name_at(0), "b");
    assert_eq!(map.value_at(0), "3");
    assert_eq!(map.position("a"), Some(1));
    assert_eq!(map.get("c"), None);
    assert!(map.same_as(&map.clone()));
    assert_eq!(map.remove("b"), Some("3".to_string()));
    assert_eq!(map.remove("b"), None);
    assert!(!map.contains_key("b"));
    assert_eq!(map.name_at(0), "a");
}
