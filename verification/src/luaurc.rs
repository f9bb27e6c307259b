//! `.luaurc` files: the aliases that they declare.
use crate::text::{
    begins, find, find_char, find_char_from, find_from, from_chars, is_space,
    lemma_find_char_first, lemma_trim_start, lines, split_lines, starts_with, strip_prefix_char, strip_suffix_char, texts, to_chars, trim,
    trim_end_char, trim_end_matches, trimmed, without_prefix_char, without_suffix_char,
};
use crate::text_map::TextMap;
use vstd::prelude::*;
use vstd::slice::slice_subrange;

verus! {

/// `s` without the white space around it, one pair of square brackets, the
/// white space inside of them, and one pair of double, then of single quotes.
/// Each bracket and each quote is taken off whether or not its partner is
/// there.
pub open spec fn unquoted(s: Seq<char>) -> Seq<char> {
    let open = trimmed(without_prefix_char(trimmed(s), '['));
    let bare = trimmed(without_suffix_char(open, ']'));
    let double = without_suffix_char(without_prefix_char(bare, '"'), '"');
    without_suffix_char(without_prefix_char(double, '\''), '\'')
}

/// The first position at or after `i` at which the braces that are open,
/// `depth` of them before `i`, are all closed.
pub open spec fn closing_brace(s: Seq<char>, i: int, depth: int) -> Option<int>
    decreases s.len() - i,
{
    if i >= s.len() {
        None
    } else if s[i] == '{' {
        closing_brace(s, i + 1, depth + 1)
    } else if s[i] == '}' {
        if depth == 1 {
            Some(i)
        } else {
            closing_brace(s, i + 1, depth - 1)
        }
    } else {
        closing_brace(s, i + 1, depth)
    }
}

/// The text between the first brace after the first `aliases` and the brace
/// that closes it.
pub open spec fn alias_block(content: Seq<char>) -> Option<Seq<char>> {
    match find_from(content, "aliases"@, 0) {
        None => None,
        Some(word) => match find_char_from(content, '{', word) {
            None => None,
            Some(start) => match closing_brace(content, start, 0) {
                None => None,
                Some(end) => Some(content.subrange(start + 1, end)),
            },
        },
    }
}

/// The position of the first colon of `s` or, if it has none, of its first
/// equals sign.
pub open spec fn alias_separator(s: Seq<char>) -> Option<int> {
    match find_char_from(s, ':', 0) {
        Some(i) => Some(i),
        None => find_char_from(s, '=', 0),
    }
}

/// An alias name with an `@` in front.
pub open spec fn alias_name(key: Seq<char>) -> Seq<char> {
    if key.len() > 0 && key[0] == '@' {
        key
    } else {
        seq!['@'] + key
    }
}

/// The alias that a line declares, and what it stands for. An empty line, a
/// comment, a line without a separator and one whose key or value is empty
/// declare none.
pub open spec fn alias_entry(line: Seq<char>) -> Option<(Seq<char>, Seq<char>)> {
    let t = trimmed(line);
    if t.len() == 0 || begins(t, "--"@) || begins(t, "//"@) {
        None
    } else {
        let u = trim_end_char(t, ',');
        match alias_separator(u) {
            None => None,
            Some(i) => {
                let key = trimmed(unquoted(u.take(i)));
                let value = trimmed(unquoted(u.skip(i + 1)));
                if key.len() == 0 || value.len() == 0 {
                    None
                } else {
                    Some((alias_name(key), value))
                }
            },
        }
    }
}

/// The aliases that a list of lines declares; of two declarations of one name
/// the later counts.
pub open spec fn declared(ls: Seq<Seq<char>>) -> Map<Seq<char>, Seq<char>>
    decreases ls.len(),
{
    if ls.len() == 0 {
        Map::empty()
    } else {
        match alias_entry(ls.last()) {
            None => declared(ls.drop_last()),
            Some((name, value)) => declared(ls.drop_last()).insert(name, value),
        }
    }
}

/// The aliases that the content of a `.luaurc` file declares.
pub open spec fn aliases_in(content: Seq<char>) -> Map<Seq<char>, Seq<char>> {
    match alias_block(content) {
        None => Map::empty(),
        Some(block) => declared(lines(block)),
    }
}

/// `v` without the white space, brackets and quotes around it.
fn unquote(v: &[char]) -> (r: &[char])
    ensures
        r@ == unquoted(v@),
{
    let open = trim(strip_prefix_char(trim(v), '['));
    let bare = trim(strip_suffix_char(open, ']'));
    let double = strip_suffix_char(strip_prefix_char(bare, '"'), '"');
    strip_suffix_char(strip_prefix_char(double, '\''), '\'')
}

/// `v` without the white space, brackets and quotes around it.
pub fn strip_quotes(v: &str) -> (r: String)
    ensures
        r@ == unquoted(v@),
{
    let chars = to_chars(v);
    from_chars(unquote(chars.as_slice()))
}

/// The position at which the braces that open at `start` are all closed.
fn find_closing(s: &[char], start: usize) -> (r: Option<usize>)
    requires
        start < s@.len(),
        s@[start as int] == '{',
    ensures
        match r {
            Some(i) => closing_brace(s@, start as int, 0) == Some(i as int) && start < i < s@.len(),
            None => closing_brace(s@, start as int, 0) is None,
        },
{
    assert(s@.len() == s.len());
    let mut i: usize = start + 1;
    let mut depth: usize = 1;
    while i < s.len()
        invariant
            start < i <= s@.len(),
            1 <= depth <= i,
            closing_brace(s@, start as int, 0) == closing_brace(s@, i as int, depth as int),
        decreases s@.len() - i,
    {
        if s[i] == '{' {
            depth += 1;
        } else if s[i] == '}' {
            if depth == 1 {
                return Some(i);
            }
            depth -= 1;
        }
        i += 1;
    }
    None
}

/// The alias that a line declares, and what it stands for.
fn parse_entry(line: &str) -> (r: Option<(String, String)>)
    ensures
        match r {
            Some((name, value)) => alias_entry(line@) == Some((name@, value@)),
            None => alias_entry(line@) is None,
        },
{
    let chars = to_chars(line);
    let t = trim(chars.as_slice());
    if t.len() == 0 || starts_with(t, "--") || starts_with(t, "//") {
        return None;
    }
    let u = trim_end_matches(t, ',');
    let i = match find_char(u, ':', 0) {
        Some(i) => i,
        None => match find_char(u, '=', 0) {
            Some(i) => i,
            None => {
                return None;
            },
        },
    };
    assert(u@.len() == u.len());
    let left = slice_subrange(u, 0, i);
    let right = slice_subrange(u, i + 1, u.len());
    assert(left@ =~= u@.take(i as int));
    assert(right@ =~= u@.skip(i + 1));
    let key = trim(unquote(left));
    let value = trim(unquote(right));
    if key.len() == 0 || value.len() == 0 {
        return None;
    }
    let name = if key[0] == '@' {
        from_chars(key)
    } else {
        let mut name = String::new();
        name.push('@');
        name.append(from_chars(key).as_str());
        assert(name@ =~= alias_name(key@));
        name
    };
    Some((name, from_chars(value)))
}

/// The aliases that the content of a `.luaurc` file declares.
pub fn parse_aliases_from_luaurc(content: &str) -> (out: TextMap<String>)
    ensures
        out@ == aliases_in(content@),
{
    let mut out: TextMap<String> = TextMap::new();
    let chars = to_chars(content);
    let word = match find(chars.as_slice(), "aliases") {
        None => {
            return out;
        },
        Some(i) => i,
    };
    let start = match find_char(chars.as_slice(), '{', word) {
        None => {
            return out;
        },
        Some(i) => i,
    };
    let end = match find_closing(chars.as_slice(), start) {
        None => {
            return out;
        },
        Some(i) => i,
    };
    let block = slice_subrange(chars.as_slice(), start + 1, end);
    let ls = split_lines(block);
    let ghost all = lines(block@);
    let mut i: usize = 0;
    while i < ls.len()
        invariant
            i <= ls@.len(),
            all == texts(ls@),
            out@ == declared(all.take(i as int)),
        decreases ls@.len() - i,
    {
        assert(all.take(i + 1).drop_last() =~= all.take(i as int));
        assert(all.take(i + 1).last() == ls@[i as int]@);
        if let Some((name, value)) = parse_entry(ls[i].as_str()) {
            out.insert(name, value);
        }
        i += 1;
    }
    assert(all.take(i as int) =~= all);
    out
}

/// Whether a text can stand between quotes in a declaration: it is not empty,
/// and holds no white space and none of the marks around keys and values.
pub open spec fn plain_name(s: Seq<char>) -> bool {
    &&& s.len() > 0
    &&& forall|i: int|
        0 <= i < s.len() ==> !is_space(#[trigger] s[i]) && s[i] != '"' && s[i] != '\'' && s[i] != '['
            && s[i] != ']' && s[i] != ':'
}

/// A text that neither starts nor ends with white space.
proof fn lemma_trimmed(s: Seq<char>)
    requires
        s.len() > 0,
        !is_space(s[0]),
        !is_space(s.last()),
    ensures
        trimmed(s) == s,
{
    lemma_trim_start(Seq::empty(), s);
    assert(Seq::<char>::empty() + s =~= s);
}

/// A text in double quotes.
proof fn lemma_unquoted(s: Seq<char>)
    requires
        plain_name(s),
    ensures
        trimmed(unquoted(seq!['"'] + s + seq!['"'])) == s,
{
    let q = seq!['"'] + s + seq!['"'];
    lemma_trimmed(q);
    let inner = q.drop_first();
    assert(without_prefix_char(q, '[') == q);
    assert(without_suffix_char(q, ']') == q);
    assert(without_prefix_char(q, '"') == inner);
    assert(inner.drop_last() =~= s);
    assert(without_prefix_char(s, '\'') == s) by {
        assert(s[0] != '\'');
    }
    assert(without_suffix_char(s, '\'') == s) by {
        assert(s[s.len() - 1] != '\'');
    }
    assert(!is_space(s[0]) && !is_space(s[s.len() - 1]));
    lemma_trimmed(s);
}

/// A line `"name": "value",` declares the alias `@name` for `value`, with and
/// without the comma at its end.
pub proof fn law_quoted_declaration(name: Seq<char>, value: Seq<char>, comma: bool)
    requires
        plain_name(name),
        plain_name(value),
    ensures
        alias_entry(
            "\""@ + name + "\": \""@ + value + "\""@ + (if comma {
                ","@
            } else {
                ""@
            }),
        ) == Some((alias_name(name), value)),
{
    reveal_strlit("\"");
    reveal_strlit("\": \"");
    reveal_strlit(",");
    reveal_strlit("");
    reveal_strlit("--");
    reveal_strlit("//");
    let u = "\""@ + name + "\": \""@ + value + "\""@;
    let line = u + (if comma {
        ","@
    } else {
        ""@
    });
    assert(line[0] == '"');
    lemma_trimmed(line);
    assert(!begins(line, "--"@)) by {
        if begins(line, "--"@) {
            assert(line.subrange(0, 2)[0] == '-');
        }
    }
    assert(!begins(line, "//"@)) by {
        if begins(line, "//"@) {
            assert(line.subrange(0, 2)[0] == '/');
        }
    }
    assert(u.last() == '"');
    if comma {
        assert(line.drop_last() =~= u);
        assert(trim_end_char(line, ',') == trim_end_char(u, ','));
    } else {
        assert(line =~= u);
    }
    assert(trim_end_char(line, ',') == u);
    let i = name.len() as int + 2;
    assert(u[i] == ':');
    assert forall|j: int| 0 <= j < i implies u[j] != ':' by {
        if 0 < j < i - 1 {
            assert(u[j] == name[j - 1]);
        }
    }
    lemma_find_char_first(u, ':', 0, i);
    assert(u.take(i) =~= seq!['"'] + name + seq!['"']);
    lemma_unquoted(name);
    let quoted = seq!['"'] + value + seq!['"'];
    assert(u.skip(i + 1) =~= seq![' '] + quoted);
    lemma_trim_start(seq![' '], quoted);
    lemma_trimmed(quoted);
    lemma_unquoted(value);
    assert(trimmed(u.skip(i + 1)) == trimmed(quoted));
}

/// Every alias that a `.luaurc` file declares has a name that starts with an
/// `@`, and stands for a text that is not empty.
pub proof fn law_alias_names(content: Seq<char>, name: Seq<char>)
    requires
        aliases_in(content).contains_key(name),
    ensures
        name.len() > 0,
        name[0] == '@',
        aliases_in(content)[name].len() > 0,
{
    lemma_declared(lines(alias_block(content)->0), name);
}

proof fn lemma_declared(ls: Seq<Seq<char>>, name: Seq<char>)
    requires
        declared(ls).contains_key(name),
    ensures
        name.len() > 0,
        name[0] == '@',
        declared(ls)[name].len() > 0,
    decreases ls.len(),
{
    match alias_entry(ls.last()) {
        Some((last, _)) if last == name => {},
        _ => {
            lemma_declared(ls.drop_last(), name);
        },
    }
}

} // verus!
