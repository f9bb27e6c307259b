use nicyrtdyn::source::{chunk_name, strip_native_directive};

fn split(s: &str) -> (bool, String) {
    strip_native_directive(s)
}

#[test]
fn the_directive_is_found_on_the_first_line() {
    assert_eq!(split("--!native\nprint(1)\nprint(2)"), (true, "print(1)\nprint(2)".to_string()));
    assert_eq!(split("  --!native -- fast\r\na\r\nb\r\n"), (true, "a\nb".to_string()));
    assert_eq!(split("\t--!nativexyz\n"), (true, "".to_string()));
    assert_eq!(split("--!native"), (true, "".to_string()));
}

#[test]
fn other_sources_are_kept() {
    for s in ["", "\n--!native\n", "print(1)\r\n", "-- !native\nx", "a --!native\n"] {
        assert_eq!(split(s), (false, s.to_string()));
    }
}

#[test]
fn a_chunk_name_has_one_nul_at_its_end() {
    assert_eq!(chunk_name("/a/b.luau"), "/a/b.luau\0");
    assert_eq!(chunk_name("a\0b"), "a?b\0");
    assert_eq!(chunk_name(""), "\0");
}
