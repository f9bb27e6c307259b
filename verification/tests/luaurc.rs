use nicyrtdyn::luaurc::{parse_aliases_from_luaurc, strip_quotes};

fn aliases(content: &str) -> Vec<(String, String)> {
    let m = parse_aliases_from_luaurc(content);
    let mut out: Vec<(String, String)> = (0..m.len())
        .map(|i| {
            let (k, v) = m.entry(i);
            (k.clone(), v.clone())
        })
        .collect();
    out.sort();
    out
}

fn pairs(list: &[(&str, &str)]) -> Vec<(String, String)> {
    list.iter().map(|(k, v)| (k.to_string(), v.to_string())).collect()
}

#[test]
fn quotes_and_brackets_are_taken_off() {
    assert_eq!(strip_quotes(" \"a\" "), "a");
    assert_eq!(strip_quotes("[ 'a' ]"), "a");
    assert_eq!(strip_quotes("[\"'a'\"]"), "a");
    assert_eq!(strip_quotes("\"a"), "a");
    assert_eq!(strip_quotes("a]"), "a");
    assert_eq!(strip_quotes("\"\""), "");
    assert_eq!(strip_quotes("\" a \""), " a ");
}

#[test]
fn json_aliases_are_read() {
    let content = "{\n  \"aliases\": {\n    \"lib\": \"./libs\",\n    \"@app\": \"/srv/app\"\n  }\n}\n";
    assert_eq!(aliases(content), pairs(&[("@app", "/srv/app"), ("@lib", "./libs")]));
}

#[test]
fn lua_aliases_are_read() {
    let content = "aliases = {\r\n  lib = 'x',\r\n  [\"b\"] = \"y\",\r\n}\r\n";
    assert_eq!(aliases(content), pairs(&[("@b", "y"), ("@lib", "x")]));
}

#[test]
fn comments_and_incomplete_lines_declare_nothing() {
    let content = "aliases {\n-- a: b\n// c: d\n\n  nothing\n e: \n : f\n g: h\n}";
    assert_eq!(aliases(content), pairs(&[("@g", "h")]));
}

#[test]
fn the_block_ends_where_its_braces_balance() {
    assert_eq!(aliases("aliases {\na: {\nb: c }\nd: e\n}\nf: g"), pairs(&[("@a", "{"), ("@b", "c }"), ("@d", "e")]));
    assert_eq!(aliases("aliases {\na: b\n"), pairs(&[]));
    assert_eq!(aliases("aliases"), pairs(&[]));
    assert_eq!(aliases("{ a: b }"), pairs(&[]));
    assert_eq!(aliases(""), pairs(&[]));
}

#[test]
fn a_later_declaration_counts() {
    assert_eq!(aliases("aliases {\na: 1\n@a = 2\n}"), pairs(&[("@a", "2")]));
}

#[test]
fn a_colon_comes_before_an_equals_sign() {
    assert_eq!(aliases("aliases {\na=b:c\n}"), pairs(&[("@a=b", "c")]));
}

#[test]
fn a_quoted_declaration_names_its_value() {
    for (name, value) in [("lib", "./x"), ("@core", "/a/b"), ("a-b", "c=d")] {
        for comma in ["", ","] {
            let content = format!("aliases {{\n\"{}\": \"{}\"{}\n}}", name, value, comma);
            let key = if name.starts_with('@') { name.to_string() } else { format!("@{}", name) };
            assert_eq!(aliases(&content), vec![(key, value.to_string())]);
        }
    }
}

#[test]
fn every_alias_has_an_at_sign_and_a_value() {
    let content = "aliases {\na: b\n@: c\n'd' = 'e'\n}";
    let found = aliases(content);
    assert_eq!(found.len(), 3);
    for (k, v) in found {
        assert!(k.starts_with('@') && !v.is_empty());
    }
}
