use file_browser::path::{
    extension, extension_of_name, file_name, is_dot_dot, is_hidden, join, replace_all, same_text,
    AbsolutePath,
};
use std::path::Path;

fn abs(text: &str) -> AbsolutePath {
    AbsolutePath::new(text).expect("an absolute path")
}

const SAMPLES: [&str; 30] = [
    "",
    "/",
    "//",
    "/a",
    "/a/",
    "/a/b",
    "/a//b",
    "/a/b/",
    "/a/b//",
    "/a/.",
    "/a/./",
    "/a/./b",
    "/a/..",
    "/a/../b",
    "/.",
    "/..",
    "/.hidden",
    "/a/b.txt",
    "/a/b.tar.gz",
    "/a/.profile",
    "/a/b.",
    "a",
    "a/b",
    ".",
    "./",
    "./a",
    "..",
    "a/.",
    "/home/user/Pictures/a.png",
    "/home/us er/é.JPG",
];

#[test]
fn new_accepts_absolute_text_only() {
    assert!(AbsolutePath::new("/").is_some());
    assert!(AbsolutePath::new("/home/user").is_some());
    assert!(AbsolutePath::new("").is_none());
    assert!(AbsolutePath::new("home").is_none());
    assert!(AbsolutePath::new("./home").is_none());
    assert_eq!(abs("/home/user").as_str(), "/home/user");
    assert_eq!(AbsolutePath::root().as_str(), "/");
    assert_eq!(abs("/x/y").duplicate().as_str(), "/x/y");
}

#[test]
fn join_adjoins_after_one_separator() {
    assert_eq!(join("/home/user", "Pictures"), "/home/user/Pictures");
    assert_eq!(join("/home/user/", "Pictures"), "/home/user/Pictures");
    assert_eq!(join("/", "etc"), "/etc");
    assert_eq!(join("", "etc"), "etc");
    assert_eq!(join("/a", ""), "/a/");
    assert_eq!(join("/a", "b/c"), "/a/b/c");
    assert_eq!(join("/a", "../../etc"), "/a/../../etc");
}

#[test]
fn join_with_absolute_token_replaces_base() {
    assert_eq!(join("/home/user", "/etc"), "/etc");
    assert_eq!(abs("/home/user").join("/etc").as_str(), "/etc");
}

#[test]
fn join_agrees_with_the_host_on_samples() {
    for base in SAMPLES {
        for token in SAMPLES {
            let expected = Path::new(base).join(token);
            assert_eq!(join(base, token), expected.to_str().unwrap(), "{base:?} + {token:?}");
        }
    }
}

#[test]
fn parent_drops_the_last_component() {
    assert_eq!(abs("/home/user").parent().unwrap().as_str(), "/home");
    assert_eq!(abs("/home").parent().unwrap().as_str(), "/");
    assert_eq!(abs("/home/user/").parent().unwrap().as_str(), "/home");
    assert_eq!(abs("/home//user").parent().unwrap().as_str(), "/home");
    assert_eq!(abs("/home/./user").parent().unwrap().as_str(), "/home");
    assert_eq!(abs("/home/..").parent().unwrap().as_str(), "/home");
}

#[test]
fn root_has_no_parent() {
    assert!(abs("/").parent().is_none());
    assert!(abs("//").parent().is_none());
    assert!(abs("/.").parent().is_none());
}

#[test]
fn parent_agrees_with_the_host_on_samples() {
    for sample in SAMPLES {
        if let Some(path) = AbsolutePath::new(sample) {
            let expected = Path::new(sample).parent().map(|p| p.to_str().unwrap().to_string());
            let found = path.parent().map(|p| p.as_str().to_string());
            assert_eq!(found, expected, "{sample:?}");
        }
    }
}

#[test]
fn resolve_dot_dot_at_root_stays_at_root() {
    let root = AbsolutePath::root();
    assert_eq!(root.resolve("..").as_str(), "/");
}

#[test]
fn resolve_dot_dot_goes_to_the_parent() {
    assert_eq!(abs("/home/user").resolve("..").as_str(), "/home");
    assert_eq!(abs("/home").resolve("..").as_str(), "/");
}

#[test]
fn resolve_adjoins_any_other_token() {
    assert_eq!(abs("/home/user").resolve("Pictures").as_str(), "/home/user/Pictures");
    assert_eq!(abs("/home/user").resolve("../../etc").as_str(), "/home/user/../../etc");
    assert_eq!(abs("/home/user").resolve(".").as_str(), "/home/user/.");
    assert_eq!(abs("/home/user").resolve("/srv").as_str(), "/srv");
}

#[test]
fn file_name_is_the_last_component() {
    assert_eq!(file_name("/home/user/a.png").as_deref(), Some("a.png"));
    assert_eq!(file_name("/home/user/").as_deref(), Some("user"));
    assert_eq!(file_name("a.png").as_deref(), Some("a.png"));
    assert_eq!(file_name("/a/."), Some("a".to_string()));
    assert_eq!(file_name("/"), None);
    assert_eq!(file_name(""), None);
    assert_eq!(file_name("/a/.."), None);
    assert_eq!(file_name(".."), None);
    assert_eq!(file_name("."), None);
}

#[test]
fn file_name_agrees_with_the_host_on_samples() {
    for sample in SAMPLES {
        let expected = Path::new(sample).file_name().map(|n| n.to_str().unwrap().to_string());
        assert_eq!(file_name(sample), expected, "{sample:?}");
    }
}

#[test]
fn extension_follows_the_last_dot() {
    assert_eq!(extension("/a/b.png").as_deref(), Some("png"));
    assert_eq!(extension("/a/b.tar.gz").as_deref(), Some("gz"));
    assert_eq!(extension("/a/b.").as_deref(), Some(""));
    assert_eq!(extension("/a/.profile"), None);
    assert_eq!(extension("/a/b"), None);
    assert_eq!(extension("/a.d/b"), None);
    assert_eq!(extension("/a/.."), None);
    assert_eq!(extension_of_name("photo.PNG").as_deref(), Some("PNG"));
    assert_eq!(extension_of_name(".."), None);
    assert_eq!(extension_of_name(".a.b").as_deref(), Some("b"));
}

#[test]
fn extension_agrees_with_the_host_on_samples() {
    for sample in SAMPLES {
        let expected = Path::new(sample).extension().map(|n| n.to_str().unwrap().to_string());
        assert_eq!(extension(sample), expected, "{sample:?}");
    }
}

#[test]
fn hidden_names_begin_with_a_dot() {
    assert!(is_hidden(".git"));
    assert!(is_hidden(".env"));
    assert!(is_hidden("."));
    assert!(!is_hidden("notes.txt"));
    assert!(!is_hidden(""));
    assert!(!is_hidden("a.b"));
}

#[test]
fn dot_dot_is_recognised() {
    assert!(is_dot_dot(".."));
    assert!(!is_dot_dot("."));
    assert!(!is_dot_dot("..."));
    assert!(!is_dot_dot("a."));
    assert!(!is_dot_dot(""));
}

#[test]
fn same_text_compares_character_by_character() {
    assert!(same_text("", ""));
    assert!(same_text("héllo", "héllo"));
    assert!(!same_text("hello", "hellO"));
    assert!(!same_text("hello", "hell"));
}

#[test]
fn replace_all_replaces_every_occurrence() {
    assert_eq!(replace_all("/home/user/a.png", "/home/user", "/files"), "/files/a.png");
    assert_eq!(replace_all("/srv/a.png", "/home/user", "/files"), "/srv/a.png");
    assert_eq!(replace_all("/h/h/h", "/h", "/files"), "/files/files/files");
    assert_eq!(replace_all("aaa", "aa", "b"), "ba");
    assert_eq!(replace_all("abc", "", "x"), "abc");
    assert_eq!(replace_all("", "a", "x"), "");
    assert_eq!(replace_all("é/é", "é", "e"), "e/e");
}

#[test]
fn replace_all_agrees_with_the_host_on_samples() {
    for text in SAMPLES {
        for pattern in ["/", "/a", "a/", ".", "..", "/home/us er", "b"] {
            assert_eq!(replace_all(text, pattern, "/files"), text.replace(pattern, "/files"));
        }
    }
}

#[test]
fn entering_a_child_and_leaving_it_leads_back() {
    for start in ["/", "/home", "/home/user", "/a b/c"] {
        for name in ["Pictures", "a.png", ".git", "...", "a b"] {
            let child = abs(start).resolve(name);
            assert_eq!(file_name(child.as_str()).as_deref(), Some(name));
            assert_eq!(child.parent().unwrap().as_str(), start);
            assert_eq!(child.resolve("..").as_str(), start);
        }
    }
}

fn texts_up_to(alphabet: &[char], length: usize) -> Vec<String> {
    let mut all = vec![String::new()];
    let mut last = vec![String::new()];
    for _ in 0..length {
        let mut next = Vec::new();
        for text in &last {
            for c in alphabet {
                let mut longer = text.clone();
                longer.push(*c);
                next.push(longer);
            }
        }
        all.extend(next.iter().cloned());
        last = next;
    }
    all
}

#[test]
fn components_agree_with_the_host_on_every_short_path() {
    for text in texts_up_to(&['/', '.', 'a'], 7) {
        let host = Path::new(&text);
        let expected = host.file_name().map(|n| n.to_str().unwrap().to_string());
        assert_eq!(file_name(&text), expected, "file name of {text:?}");
        let expected = host.extension().map(|n| n.to_str().unwrap().to_string());
        assert_eq!(extension(&text), expected, "extension of {text:?}");
        if let Some(path) = AbsolutePath::new(&text) {
            let expected = host.parent().map(|p| p.to_str().unwrap().to_string());
            let found = path.parent().map(|p| p.as_str().to_string());
            assert_eq!(found, expected, "parent of {text:?}");
        }
    }
}

#[test]
fn join_agrees_with_the_host_on_every_short_path() {
    let texts = texts_up_to(&['/', '.', 'a'], 4);
    for base in &texts {
        for token in &texts {
            let expected = Path::new(base).join(token);
            assert_eq!(join(base, token), expected.to_str().unwrap(), "{base:?} + {token:?}");
        }
    }
}

#[test]
fn replace_all_agrees_with_the_host_on_every_short_text() {
    let texts = texts_up_to(&['/', 'a'], 6);
    let patterns = texts_up_to(&['/', 'a'], 3);
    for text in &texts {
        for pattern in patterns.iter().skip(1) {
            assert_eq!(replace_all(text, pattern, "-"), text.replace(pattern.as_str(), "-"));
        }
    }
}
