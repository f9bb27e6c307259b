use nicyrtdyn::path::{
    ancestors, components, extension_is_some, file_name, is_absolute, join, last, order, parent,
    with_extension, Component, Os, PrefixKind,
};
use std::path::Path;

const SAMPLES: [&str; 36] = [
    "", "/", ".", "..", "a", "/a", "a/", "a/b", "/a/b", "a//b", "./a", "a/./b", "a/.", "a/..",
    "../a", "../..", "./", ".//a", "//a", "/./a", "/..", "a.b", "a.b.c", ".a", ".a.b", "a.", "a/.b",
    "a/b.c/", "/x/init.lua", "x/init.luau/", "./.", "a/./.", "/a/b/../c", "é/日.本", "a/b//",
    "././a",
];

fn text(p: &Path) -> String {
    p.to_string_lossy().to_string()
}

fn component(c: std::path::Component<'_>) -> Component<String> {
    match c {
        std::path::Component::RootDir => Component::Root,
        std::path::Component::CurDir => Component::Current,
        std::path::Component::ParentDir => Component::Parent,
        std::path::Component::Normal(s) => Component::Normal(s.to_string_lossy().to_string()),
        std::path::Component::Prefix(_) => unreachable!(),
    }
}

#[test]
fn parents_agree_with_the_standard_library() {
    for s in SAMPLES {
        assert_eq!(parent(Os::Unix, s), Path::new(s).parent().map(text), "{:?}", s);
    }
}

#[test]
fn file_names_agree_with_the_standard_library() {
    for s in SAMPLES {
        let expected = Path::new(s).file_name().map(|n| n.to_string_lossy().to_string());
        assert_eq!(file_name(Os::Unix, s), expected, "{:?}", s);
        assert_eq!(is_absolute(Os::Unix, s), Path::new(s).is_absolute(), "{:?}", s);
    }
}

#[test]
fn components_agree_with_the_standard_library() {
    for s in SAMPLES {
        let expected: Vec<Component<String>> = Path::new(s).components().map(component).collect();
        assert_eq!(components(Os::Unix, s), expected, "{:?}", s);
        if let Some(c) = last(Os::Unix, s) {
            assert_eq!(Some(c), Path::new(s).components().last().map(component), "{:?}", s);
        }
    }
}

#[test]
fn ancestors_run_from_the_top_down() {
    for s in SAMPLES {
        let mut expected: Vec<String> = Path::new(s).ancestors().map(text).collect();
        expected.reverse();
        assert_eq!(ancestors(Os::Unix, s), expected, "{:?}", s);
    }
    assert_eq!(ancestors(Os::Unix, "/a/b"), vec!["/", "/a", "/a/b"]);
}

#[test]
fn joining_agrees_with_the_standard_library() {
    for a in SAMPLES {
        for b in SAMPLES {
            assert_eq!(join(Os::Unix, a, b), text(&Path::new(a).join(b)), "{:?} {:?}", a, b);
        }
    }
}

#[test]
fn extensions_agree_with_the_standard_library() {
    for s in SAMPLES {
        assert_eq!(extension_is_some(Os::Unix, s), Path::new(s).extension().is_some(), "{:?}", s);
        assert_eq!(
            with_extension(Os::Unix, s, "luau"),
            text(&Path::new(s).with_extension("luau")),
            "{:?}",
            s
        );
        assert_eq!(with_extension(Os::Unix, s, ""), text(&Path::new(s).with_extension("")), "{:?}", s);
    }
}

#[test]
fn order_agrees_with_the_standard_library() {
    for a in SAMPLES {
        for b in SAMPLES {
            let expected = (Path::new(a) == Path::new(b), Path::new(a) < Path::new(b));
            assert_eq!(order(Os::Unix, a, b), expected, "{:?} {:?}", a, b);
        }
    }
}

const W: Os = Os::Windows;

fn normal(s: &str) -> Component<String> {
    Component::Normal(s.to_string())
}

fn prefix(kind: PrefixKind, a: &str, b: &str) -> Component<String> {
    Component::Prefix(kind, a.to_string(), b.to_string())
}

#[test]
fn windows_prefixes_are_read() {
    let share = prefix(PrefixKind::Share, "server", "share");
    assert_eq!(components(W, r"c:\a/b"), vec![
        prefix(PrefixKind::Drive, "C", ""),
        Component::Root,
        normal("a"),
        normal("b"),
    ]);
    assert_eq!(components(W, "c:a"), vec![prefix(PrefixKind::Drive, "C", ""), normal("a")]);
    assert_eq!(components(W, r"\\server\share\a"), vec![share, Component::Root, normal("a")]);
    assert_eq!(components(W, "//server/share"), vec![
        prefix(PrefixKind::Share, "server", "share"),
        Component::Root,
    ]);
    assert_eq!(components(W, r"\\.\COM1\x"), vec![
        prefix(PrefixKind::Device, "COM1", ""),
        Component::Root,
        normal("x"),
    ]);
    assert_eq!(components(W, r"\\?\C:\a/b\.\c"), vec![
        prefix(PrefixKind::VerbatimDrive, "C", ""),
        Component::Root,
        normal("a/b"),
        Component::Current,
        normal("c"),
    ]);
    assert_eq!(components(W, r"\\?\UNC\server\share\a"), vec![
        prefix(PrefixKind::VerbatimShare, "server", "share"),
        Component::Root,
        normal("a"),
    ]);
    assert_eq!(components(W, r"\\?\pictures\cat"), vec![
        prefix(PrefixKind::Verbatim, "pictures", ""),
        Component::Root,
        normal("cat"),
    ]);
    assert_eq!(components(W, r"\\server"), vec![Component::Root, normal("server")]);
    assert_eq!(components(W, r".\a\.\..\b\"), vec![
        Component::Current,
        normal("a"),
        Component::Parent,
        normal("b"),
    ]);
}

#[test]
fn windows_paths_are_absolute_with_a_prefix_and_a_root() {
    for (p, expected) in [
        (r"c:\windows", true),
        ("c:/windows", true),
        ("c:temp", false),
        (r"\temp", false),
        ("/temp", false),
        (r"\\server\share", true),
        (r"\\?\C:\a", true),
        ("a", false),
    ] {
        assert_eq!(is_absolute(W, p), expected, "{:?}", p);
    }
    assert!(!is_absolute(Os::Unix, r"c:\windows"));
}

#[test]
fn windows_parents_end_at_the_root() {
    assert_eq!(parent(W, r"C:\a\b"), Some(r"C:\a".to_string()));
    assert_eq!(parent(W, r"C:\a"), Some(r"C:\".to_string()));
    assert_eq!(parent(W, r"C:\"), None);
    assert_eq!(parent(W, "C:"), None);
    assert_eq!(parent(W, "C:a"), Some("C:".to_string()));
    assert_eq!(parent(W, r"a\b"), Some("a".to_string()));
    assert_eq!(
        ancestors(W, r"\\?\C:\a\b"),
        vec![r"\\?\C:\", r"\\?\C:\a", r"\\?\C:\a\b"]
    );
    assert_eq!(file_name(W, r"..\lib\x"), Some("x".to_string()));
    assert!(!extension_is_some(W, r"..\lib\x"));
    assert!(extension_is_some(W, r"a\x.lua"));
    assert_eq!(with_extension(W, r"C:\a.b\x", "luau"), r"C:\a.b\x.luau");
}

#[test]
fn windows_paths_are_joined() {
    for (a, b, expected) in [
        (r"C:\a", "b", r"C:\a\b"),
        (r"C:\a\", "b", r"C:\a\b"),
        ("C:/a/", "b", "C:/a/b"),
        ("C:", "b", "C:b"),
        (r"C:\a", r"\b", r"C:\b"),
        (r"C:\a", r"D:\b", r"D:\b"),
        (r"C:\a", "D:b", "D:b"),
        (r"C:\a", r"..\b", r"C:\a\..\b"),
        ("", "b", "b"),
        (r"\\server\share", "b", r"\\server\share\b"),
        (r"\\?\C:\a", r"..\b/.\c", r"\\?\C:\b\c"),
        (r"\\?\C:\a", "", r"\\?\C:\a\"),
        (r"\\?\C:\a\b", r"\c", r"\\?\C:\c"),
        (r"\\?\C:\", r"..\..\c", r"\\?\C:\c"),
        (r"\\?\C:", "c", r"\\?\C:\c"),
        (r"\\?\UNC\server\share\a", "./b", r"\\?\UNC\server\share\a\b"),
    ] {
        assert_eq!(join(W, a, b), expected, "{:?} {:?}", a, b);
    }
}

#[test]
fn windows_paths_are_ordered_by_their_components() {
    assert_eq!(order(W, r"c:\a", "C:/a"), (true, false));
    assert_eq!(order(W, r"C:\a", r"C:\b"), (false, true));
    assert_eq!(order(W, r"D:\a", r"C:\b"), (false, false));
    assert_eq!(order(W, r"\\?\C:\a", r"C:\a"), (false, true));
    assert_eq!(order(W, r"C:\a", r"C:\a\b"), (false, true));
    assert_eq!(order(Os::Unix, r"c:\a", "c:/a"), (false, false));
}
