//! What holds of `.luaurc` files: how an alias is declared, and which of the
//! declarations count.
use crate::luaurc::{alias_block, alias_entry, aliases_in, closing_brace, declared, unquoted};
use crate::text::{
    begins, find_char_from, find_from, is_space, lemma_find_char_first, lines, occurs_at,
    trim_end_char, trimmed, without_prefix_char, without_suffix_char,
};
use crate::text_laws::{
    blank, free_of, law_character_is_found, law_lines, law_text_is_found, law_trimmed_alike,
    lemma_not_found,
};
use vstd::prelude::*;

verus! {

/// How a name or a path is written in a declaration.
pub enum Quoting {
    /// `name`
    Bare,
    /// `"name"`
    Double,
    /// `'name'`
    Single,
    /// `["name"]`
    Bracketed,
}

/// A name or a path as it is written.
pub open spec fn written(s: Seq<char>, q: Quoting) -> Seq<char> {
    match q {
        Quoting::Bare => s,
        Quoting::Double => "\""@ + s + "\""@,
        Quoting::Single => "'"@ + s + "'"@,
        Quoting::Bracketed => "[\""@ + s + "\"]"@,
    }
}

/// Whether a character is a mark around a name or a path, or white space.
pub open spec fn around(c: char) -> bool {
    is_space(c) || c == '"' || c == '\'' || c == '[' || c == ']'
}

/// Whether a text can be written in each of those ways: it is not empty, and
/// neither starts nor ends with white space, a quote, a bracket or a comma.
pub open spec fn writable(s: Seq<char>) -> bool {
    &&& s.len() > 0
    &&& !around(s[0])
    &&& !around(s.last())
    &&& s.last() != ','
}

/// Whether a text can be the name of an alias in a declaration: it holds none
/// of the separators, and does not start as a comment does.
pub open spec fn writable_name(s: Seq<char>) -> bool {
    writable(s) && free_of(s, ':') && free_of(s, '=') && s[0] != '-' && s[0] != '/'
}

/// A text without white space at its ends is as it is when trimmed.
proof fn lemma_as_it_is(s: Seq<char>)
    requires
        s.len() > 0 ==> !is_space(s[0]) && !is_space(s.last()),
    ensures
        trimmed(s) == s,
{
    let none = Seq::<char>::empty();
    law_trimmed_alike(none, s, none);
    assert(none + s + none =~= s);
}

/// What is written, with white space around it, is what was meant.
proof fn lemma_unquoted(a: Seq<char>, s: Seq<char>, q: Quoting, b: Seq<char>)
    requires
        blank(a),
        blank(b),
        writable(s),
    ensures
        unquoted(a + written(s, q) + b) == s,
        trimmed(s) == s,
        written(s, q).len() > 0,
        !is_space(written(s, q)[0]),
        !is_space(written(s, q).last()),
        written(s, q).last() != ',',
{
    reveal_strlit("\"");
    reveal_strlit("'");
    reveal_strlit("[\"");
    reveal_strlit("\"]");
    let w = written(s, q);
    let quoted = "\""@ + s + "\""@;
    law_trimmed_alike(a, w, b);
    lemma_as_it_is(s);
    lemma_as_it_is(w);
    assert(without_prefix_char(s, '\'') == s);
    assert(without_suffix_char(s, '\'') == s);
    match q {
        Quoting::Bare => {},
        Quoting::Double => {
            assert(w.drop_first().drop_last() =~= s);
        },
        Quoting::Single => {
            assert(w.drop_first().drop_last() =~= s);
        },
        Quoting::Bracketed => {
            let half = w.drop_first();
            assert(half =~= quoted.push(']'));
            lemma_as_it_is(half);
            assert(half.drop_last() =~= quoted);
            lemma_as_it_is(quoted);
            assert(quoted.drop_first().drop_last() =~= s);
        },
    }
}

/// A text comes out of white space, quotes and brackets as it was put in, in
/// whichever way it was written; a quote is taken off also where its partner is
/// not there.
pub proof fn law_quotes_are_taken_off(a: Seq<char>, s: Seq<char>, q: Quoting, b: Seq<char>)
    requires
        blank(a),
        blank(b),
        writable(s),
    ensures
        unquoted(a + written(s, q) + b) == s,
        unquoted("\""@ + s) == s,
        unquoted(s + "\""@) == s,
        unquoted("'"@ + s) == s,
        unquoted(s + "'"@) == s,
        unquoted("["@ + s) == s,
        unquoted(s + "]"@) == s,
{
    reveal_strlit("\"");
    reveal_strlit("'");
    reveal_strlit("[");
    reveal_strlit("]");
    lemma_unquoted(a, s, q, b);
    lemma_half_quoted('"', s);
    lemma_half_quoted('\'', s);
    lemma_half_bracketed(s);
    assert("\""@ + s =~= seq!['"'] + s);
    assert("'"@ + s =~= seq!['\''] + s);
    assert("["@ + s =~= seq!['['] + s);
    assert(s + "\""@ =~= s.push('"'));
    assert(s + "'"@ =~= s.push('\''));
    assert(s + "]"@ =~= s.push(']'));
}

/// A text with a quote at one end.
proof fn lemma_half_quoted(c: char, s: Seq<char>)
    requires
        c == '"' || c == '\'',
        writable(s),
    ensures
        unquoted(seq![c] + s) == s,
        unquoted(s.push(c)) == s,
{
    let x = seq![c] + s;
    let y = s.push(c);
    lemma_as_it_is(x);
    lemma_as_it_is(y);
    assert(x.drop_first() =~= s);
    assert(y.drop_last() =~= s);
    assert(x.last() == s.last());
}

/// A text with a bracket at one end.
proof fn lemma_half_bracketed(s: Seq<char>)
    requires
        writable(s),
    ensures
        unquoted(seq!['['] + s) == s,
        unquoted(s.push(']')) == s,
{
    let x = seq!['['] + s;
    let y = s.push(']');
    lemma_as_it_is(s);
    lemma_as_it_is(x);
    lemma_as_it_is(y);
    assert(x.drop_first() =~= s);
    assert(y.drop_last() =~= s);
}

/// What is written holds no separator that was not there before, and starts no
/// comment.
proof fn lemma_written(s: Seq<char>, q: Quoting)
    requires
        writable(s),
    ensures
        free_of(s, ':') ==> free_of(written(s, q), ':'),
        free_of(s, '=') ==> free_of(written(s, q), '='),
        s[0] != '-' ==> written(s, q)[0] != '-',
        s[0] != '/' ==> written(s, q)[0] != '/',
{
    reveal_strlit("\"");
    reveal_strlit("'");
    reveal_strlit("[\"");
    reveal_strlit("\"]");
    let w = written(s, q);
    let k = match q {
        Quoting::Bare => 0int,
        Quoting::Double => 1int,
        Quoting::Single => 1int,
        Quoting::Bracketed => 2int,
    };
    assert forall|i: int| 0 <= i < w.len() implies (free_of(s, ':') ==> #[trigger] w[i] != ':') && (
    free_of(s, '=') ==> w[i] != '=') by {
        if k <= i < k + s.len() {
            assert(w[i] == s[i - k]);
        }
    }
}

/// A line `name: value` or `name = value` declares the alias `@name` for
/// `value`, in whichever way the two are written, whatever white space stands
/// around them, and with or without a comma at its end. An `@` that the name
/// starts with is not put there again. Behind an equals sign the value holds no
/// colon.
pub proof fn law_declaration(
    margin: Seq<char>,
    name: Seq<char>,
    name_quoting: Quoting,
    before: Seq<char>,
    separator: char,
    after: Seq<char>,
    value: Seq<char>,
    value_quoting: Quoting,
    comma: bool,
    end: Seq<char>,
)
    requires
        blank(margin),
        writable_name(name),
        blank(before),
        separator == ':' || separator == '=' && free_of(value, ':'),
        blank(after),
        writable(value),
        blank(end),
    ensures
        alias_entry(
            margin + (written(name, name_quoting) + before + seq![separator] + after + written(
                value,
                value_quoting,
            ) + (if comma {
                ","@
            } else {
                ""@
            })) + end,
        ) == Some(
            (
                if name[0] == '@' {
                    name
                } else {
                    "@"@ + name
                },
                value,
            ),
        ),
{
    reveal_strlit(",");
    reveal_strlit("");
    reveal_strlit("--");
    reveal_strlit("//");
    reveal_strlit("@");
    let key = written(name, name_quoting);
    let val = written(value, value_quoting);
    let none = Seq::<char>::empty();
    let u = key + before + seq![separator] + after + val;
    let t = u + (if comma {
        ","@
    } else {
        ""@
    });
    lemma_unquoted(none, name, name_quoting, before);
    lemma_unquoted(after, value, value_quoting, none);
    lemma_written(name, name_quoting);
    lemma_written(value, value_quoting);
    assert(u.last() == val.last());
    assert(t[0] == key[0]);
    law_trimmed_alike(margin, t, end);
    assert(!begins(t, "--"@)) by {
        if begins(t, "--"@) {
            assert(t.subrange(0, 2)[0] == '-');
        }
    }
    assert(!begins(t, "//"@)) by {
        if begins(t, "//"@) {
            assert(t.subrange(0, 2)[0] == '/');
        }
    }
    if comma {
        assert(t.drop_last() =~= u);
        assert(trim_end_char(t, ',') == trim_end_char(u, ','));
    } else {
        assert(t =~= u);
    }
    assert(trim_end_char(t, ',') == u);
    let i = key.len() + before.len();
    assert(u[i as int] == separator);
    assert forall|j: int| 0 <= j < i implies u[j] != ':' && u[j] != '=' by {
        if j < key.len() {
            assert(u[j] == key[j]);
        } else {
            assert(u[j] == before[j - key.len()]);
            assert(is_space(before[j - key.len()]));
        }
    }
    lemma_find_char_first(u, separator, 0, i as int);
    if separator == '=' {
        assert forall|j: int| 0 <= j < u.len() implies #[trigger] u[j] != ':' by {
            if j < i {
                assert(u[j] != ':');
            } else if j > i && j <= i + after.len() {
                assert(u[j] == after[j - i - 1]);
                assert(is_space(after[j - i - 1]));
            } else if j > i {
                assert(u[j] == val[j - i - 1 - after.len()]);
            }
        }
        lemma_not_found(u, ':', 0);
    }
    assert(u.take(i as int) =~= none + key + before);
    assert(u.skip(i as int + 1) =~= after + val + none);
    assert(seq!['@'] + name =~= "@"@ + name);
}

/// A line of white space, a comment, and a line without a separator declare
/// nothing.
pub proof fn law_other_lines_declare_nothing(margin: Seq<char>, text: Seq<char>)
    requires
        blank(margin),
    ensures
        alias_entry(margin) is None,
        alias_entry(margin + "--"@ + text) is None,
        alias_entry(margin + "//"@ + text) is None,
        free_of(text, ':') && free_of(text, '=') ==> alias_entry(text) is None,
{
    reveal_strlit("--");
    reveal_strlit("//");
    let none = Seq::<char>::empty();
    law_trimmed_alike(margin, none, none);
    assert(margin + none + none =~= margin);
    lemma_comment(margin, "--"@, text);
    lemma_comment(margin, "//"@, text);
    if free_of(text, ':') && free_of(text, '=') {
        crate::text_laws::law_trimmed(text);
        let t = trimmed(text);
        let (a, b) = choose|a: Seq<char>, b: Seq<char>| #[trigger]
            (a + t + b) == text && blank(a) && blank(b);
        assert forall|i: int| 0 <= i < t.len() implies #[trigger] t[i] != ':' && t[i] != '=' by {
            assert((a + t + b)[a.len() + i] == t[i]);
            assert(text[a.len() + i] != ':' && text[a.len() + i] != '=');
        }
        let u = trim_end_char(t, ',');
        lemma_beginning(t, ',');
        assert forall|i: int| 0 <= i < u.len() implies #[trigger] u[i] != ':' && u[i] != '=' by {
            assert(t[i] != ':' && t[i] != '=');
        }
        lemma_not_found(u, ':', 0);
        lemma_not_found(u, '=', 0);
    }
}

/// What is left without some characters at the end is a beginning.
proof fn lemma_beginning(s: Seq<char>, c: char)
    ensures
        trim_end_char(s, c).len() <= s.len(),
        trim_end_char(s, c) == s.take(trim_end_char(s, c).len() as int),
    decreases s.len(),
{
    if s.len() > 0 && s.last() == c {
        lemma_beginning(s.drop_last(), c);
        let n = trim_end_char(s, c).len() as int;
        assert(s.drop_last().take(n) =~= s.take(n));
    } else {
        assert(s.take(s.len() as int) =~= s);
    }
}

/// A comment stays one when it is trimmed.
proof fn lemma_comment(margin: Seq<char>, mark: Seq<char>, text: Seq<char>)
    requires
        blank(margin),
        mark == "--"@ || mark == "//"@,
    ensures
        alias_entry(margin + mark + text) is None,
{
    reveal_strlit("--");
    reveal_strlit("//");
    let line = margin + mark + text;
    let rest = mark + text;
    assert(line =~= margin + rest);
    assert(!is_space(rest[0]) && !is_space(rest[1]));
    crate::text::lemma_trim_start(margin, rest);
    crate::text::lemma_trim_end(rest, 1);
    assert(trimmed(line).subrange(0, 2) =~= mark);
}

/// The braces that are open at the end of a text.
pub open spec fn open_braces(s: Seq<char>) -> int
    decreases s.len(),
{
    if s.len() == 0 {
        0
    } else {
        open_braces(s.drop_last()) + (if s.last() == '{' {
            1int
        } else if s.last() == '}' {
            -1int
        } else {
            0int
        })
    }
}

/// The search for the brace that closes others, in terms of those open.
proof fn lemma_closing(s: Seq<char>, start: int, i: int)
    requires
        0 <= start < i <= s.len(),
        s[start] == '{',
        forall|j: int| start < j <= i ==> open_braces(#[trigger] s.subrange(start, j)) > 0,
    ensures
        match closing_brace(s, i, open_braces(s.subrange(start, i))) {
            Some(k) => i <= k < s.len() && s[k] == '}' && open_braces(s.subrange(start, k + 1)) == 0
                && forall|j: int|
                start < j <= k ==> open_braces(#[trigger] s.subrange(start, j)) > 0,
            None => forall|j: int|
                start < j <= s.len() ==> open_braces(#[trigger] s.subrange(start, j)) > 0,
        },
    decreases s.len() - i,
{
    if i < s.len() {
        let next = s.subrange(start, i + 1);
        assert(next.drop_last() =~= s.subrange(start, i));
        assert(next.last() == s[i]);
        if !(s[i] == '}' && open_braces(s.subrange(start, i)) == 1) {
            lemma_closing(s, start, i + 1);
        }
    }
}

/// Whether `start` is the first brace behind the first word `aliases`, which
/// stands at `word`, and `end` the brace that closes it: at every place between
/// the two that brace is open, and behind the second none is.
pub open spec fn aliases_between(content: Seq<char>, word: int, start: int, end: int) -> bool {
    &&& 0 <= word
    &&& word + 7 <= start < end < content.len()
    &&& content.subrange(word, word + 7) == "aliases"@
    &&& forall|j: int| 0 <= j < word ==> #[trigger] content.subrange(j, j + 7) != "aliases"@
    &&& content[start] == '{'
    &&& forall|j: int| word <= j < start ==> #[trigger] content[j] != '{'
    &&& content[end] == '}'
    &&& forall|j: int| start < j <= end ==> open_braces(#[trigger] content.subrange(start, j)) > 0
    &&& open_braces(content.subrange(start, end + 1)) == 0
}

/// The aliases stand between the first brace behind the first word `aliases`
/// and the brace that closes it. Without the word, the brace, or one that
/// closes it, there are none.
pub proof fn law_alias_block(content: Seq<char>)
    ensures
        match alias_block(content) {
            Some(block) => exists|word: int, start: int, end: int| #[trigger]
                aliases_between(content, word, start, end) && block == content.subrange(
                    start + 1,
                    end,
                ),
            None => forall|word: int, start: int, end: int|
                !#[trigger] aliases_between(content, word, start, end),
        },
{
    reveal_strlit("aliases");
    law_text_is_found(content, "aliases"@, 0);
    match find_from(content, "aliases"@, 0) {
        None => {
            assert forall|w: int, s: int, e: int| !#[trigger] aliases_between(content, w, s, e) by {
                if aliases_between(content, w, s, e) {
                    assert(content.subrange(w, w + 7) != "aliases"@);
                }
            }
        },
        Some(word) => {
            law_character_is_found(content, '{', word);
            let first = find_char_from(content, '{', word);
            assert forall|w: int, s: int, e: int| #[trigger]
                aliases_between(content, w, s, e) implies w == word && Some(s) == first by {
                if w < word {
                    assert(content.subrange(w, w + 7) != "aliases"@);
                } else if word < w {
                    assert(content.subrange(word, word + 7) != "aliases"@);
                }
                if let Some(start) = first {
                    if s < start {
                        assert(content[s] != '{');
                    } else if start < s {
                        assert(content[start] != '{');
                    }
                } else {
                    assert(content[s] != '{');
                }
            }
            if let Some(start) = first {
                assert forall|j: int| word <= j < word + 7 implies content[j] != '{' by {
                    assert(content.subrange(word, word + 7)[j - word] == content[j]);
                }
                let open = content.subrange(start, start + 1);
                assert(open.drop_last() =~= Seq::empty());
                assert(open_braces(open.drop_last()) == 0);
                assert(open_braces(open) == 1);
                lemma_closing(content, start, start + 1);
                match closing_brace(content, start, 0) {
                    Some(end) => {
                        assert(aliases_between(content, word, start, end));
                    },
                    None => {
                        assert forall|w: int, s: int, e: int|
                            !#[trigger] aliases_between(content, w, s, e) by {
                            if aliases_between(content, w, s, e) {
                                assert(open_braces(content.subrange(start, e + 1)) > 0);
                            }
                        }
                    },
                }
            }
        },
    }
}

/// Of the lines of a block the last that declares a name decides; a line that
/// declares nothing changes nothing.
pub proof fn law_last_declaration_counts(ls: Seq<Seq<char>>, line: Seq<char>)
    ensures
        declared(Seq::empty()) == Map::<Seq<char>, Seq<char>>::empty(),
        alias_entry(line) is None ==> declared(ls.push(line)) == declared(ls),
        alias_entry(line) matches Some((name, value)) ==> declared(ls.push(line)) == declared(
            ls,
        ).insert(name, value),
{
    assert(ls.push(line).drop_last() =~= ls);
}

/// The lines of a text that ends in a line feed stay as they are whatever
/// follows.
proof fn lemma_lines_and_more(a: Seq<char>, b: Seq<char>)
    requires
        a.len() > 0 ==> a.last() == '\n',
    ensures
        lines(a + b) == lines(a) + lines(b),
    decreases a.len(),
{
    if a.len() == 0 {
        assert(a + b =~= b);
        assert(lines(a) + lines(b) =~= lines(b));
    } else {
        law_character_is_found(a, '\n', 0);
        match find_char_from(a, '\n', 0) {
            None => {
                assert(a[a.len() - 1] != '\n');
            },
            Some(k) => {
                let rest = a.skip(k + 1);
                if rest.len() > 0 {
                    assert(rest.last() == a.last());
                }
                lemma_lines_and_more(rest, b);
                let s = a + b;
                assert forall|j: int| 0 <= j < k implies s[j] != '\n' by {
                    assert(a[j] != '\n');
                }
                lemma_find_char_first(s, '\n', 0, k);
                assert(s.take(k) =~= a.take(k));
                assert(s.skip(k + 1) =~= rest + b);
                assert(lines(s) =~= lines(a) + lines(b));
            },
        }
    }
}

/// The content of a `.luaurc` file with nothing but aliases, which are declared
/// by the lines of `block`.
pub open spec fn file_with(block: Seq<char>) -> Seq<char> {
    "{\"aliases\": {\n"@ + block + "}}"@
}

/// A file declares what the lines of its block do.
proof fn lemma_file_with(block: Seq<char>)
    requires
        free_of(block, '{'),
        free_of(block, '}'),
    ensures
        aliases_in(file_with(block)) == declared(lines(block)),
{
    reveal_strlit("{\"aliases\": {\n");
    reveal_strlit("}}");
    reveal_strlit("aliases");
    let head = "{\"aliases\": {\n"@;
    let content = file_with(block);
    let n = head.len() as int;
    let start = n - 2;
    let end = n + block.len();
    assert(content.subrange(2, 9) =~= "aliases"@);
    assert(!occurs_at(content, "aliases"@, 0)) by {
        assert(content.subrange(0, 7)[0] == '{');
    }
    assert(!occurs_at(content, "aliases"@, 1)) by {
        assert(content.subrange(1, 8)[0] == '"');
    }
    reveal_with_fuel(find_from, 3);
    assert(find_from(content, "aliases"@, 0) == Some(2int));
    assert(content[start] == '{');
    assert forall|j: int| 2 <= j < start implies content[j] != '{' by {
        assert(content[j] == head[j]);
    }
    lemma_find_char_first(content, '{', 2, start);
    assert forall|j: int| start < j < end implies #[trigger] content[j] != '{' && content[j] != '}' by {
        if j >= n {
            assert(content[j] == block[j - n]);
        }
    }
    assert(content[end] == '}');
    lemma_closes(content, start + 1, end);
    assert(closing_brace(content, start, 0) == Some(end));
    let inner = content.subrange(start + 1, end);
    let feed = seq!['\n'];
    assert(inner =~= feed + block);
    lemma_lines_and_more(feed, block);
    let none = Seq::<char>::empty();
    assert(lines(feed) =~= seq![none]) by {
        assert(feed.take(0) =~= none);
        assert(feed.skip(1) =~= none);
        assert(lines(none) =~= Seq::empty());
    }
    lemma_first_line_declares_nothing(lines(block));
}

/// An empty line in front declares nothing.
proof fn lemma_first_line_declares_nothing(ls: Seq<Seq<char>>)
    ensures
        declared(seq![Seq::<char>::empty()] + ls) == declared(ls),
    decreases ls.len(),
{
    let none = Seq::<char>::empty();
    let all = seq![none] + ls;
    law_other_lines_declare_nothing(none, none);
    if ls.len() == 0 {
        assert(all.drop_last() =~= ls);
        assert(all.last() == none);
    } else {
        lemma_first_line_declares_nothing(ls.drop_last());
        assert(all.drop_last() =~= seq![none] + ls.drop_last());
        assert(all.last() == ls.last());
    }
}

/// A file without lines declares nothing. One line more at the end of a file
/// declares its alias and leaves all others as they were: one with the same
/// name gives way to it.
pub proof fn law_line_of_file(
    block: Seq<char>,
    name: Seq<char>,
    value: Seq<char>,
    other: Seq<char>,
)
    requires
        free_of(block, '{'),
        free_of(block, '}'),
        block.len() > 0 ==> block.last() == '\n',
        writable_name(name),
        name[0] != '@',
        free_of(name, '{'),
        free_of(name, '}'),
        free_of(name, '\n'),
        free_of(name, '\r'),
        writable(value),
        free_of(value, '{'),
        free_of(value, '}'),
        free_of(value, '\n'),
        free_of(value, '\r'),
    ensures
        aliases_in(file_with(""@)) == Map::<Seq<char>, Seq<char>>::empty(),
        ({
            let before = aliases_in(file_with(block));
            let after = aliases_in(
                file_with(block + ("\""@ + name + "\": \""@ + value + "\","@) + "\n"@),
            );
            &&& after.contains_key("@"@ + name)
            &&& after["@"@ + name] == value
            &&& other != "@"@ + name ==> after.contains_key(other) == before.contains_key(other)
            &&& other != "@"@ + name && before.contains_key(other) ==> after[other]
                == before[other]
        }),
{
    reveal_strlit("");
    reveal_strlit("\"");
    reveal_strlit("\": \"");
    reveal_strlit("\",");
    reveal_strlit(",");
    reveal_strlit("\n");
    let none = Seq::<char>::empty();
    assert(""@ =~= none);
    lemma_file_with(none);
    assert(lines(none) =~= Seq::empty());
    let line = "\""@ + name + "\": \""@ + value + "\","@;
    let more = block + line + "\n"@;
    assert forall|i: int| 0 <= i < line.len() implies #[trigger] line[i] != '\n' && line[i] != '\r'
        && line[i] != '{' && line[i] != '}' by {
        if 1 <= i < 1 + name.len() {
            assert(line[i] == name[i - 1]);
        } else if 5 + name.len() <= i < 5 + name.len() + value.len() {
            assert(line[i] == value[i - 5 - name.len()]);
        }
    }
    assert forall|i: int| 0 <= i < more.len() implies #[trigger] more[i] != '{' && more[i] != '}' by {
        if i < block.len() {
            assert(more[i] == block[i]);
        } else if i < block.len() + line.len() {
            assert(more[i] == line[i - block.len()]);
        }
    }
    lemma_file_with(block);
    lemma_file_with(more);
    lemma_lines_and_more(block, line + "\n"@);
    assert(more =~= block + (line + "\n"@));
    law_lines(line, none);
    assert(line + "\n"@ + none =~= line + "\n"@);
    assert(seq![line] + lines(none) =~= seq![line]);
    assert(lines(more) =~= lines(block).push(line));
    let space = seq![' '];
    law_declaration(
        none,
        name,
        Quoting::Double,
        none,
        ':',
        space,
        value,
        Quoting::Double,
        true,
        none,
    );
    assert(none + (written(name, Quoting::Double) + none + seq![':'] + space + written(
        value,
        Quoting::Double,
    ) + ","@) + none =~= line);
    law_last_declaration_counts(lines(block), line);
}

/// A text without braces up to a closing one.
proof fn lemma_closes(s: Seq<char>, i: int, end: int)
    requires
        0 <= i <= end < s.len(),
        s[end] == '}',
        forall|j: int| i <= j < end ==> #[trigger] s[j] != '{' && s[j] != '}',
    ensures
        closing_brace(s, i, 1) == Some(end),
    decreases end - i,
{
    if i < end {
        assert(s[i] != '{' && s[i] != '}');
        lemma_closes(s, i + 1, end);
    }
}

/// A declaration whose name or whose value is empty declares nothing, with or
/// without quotes.
pub proof fn law_empty_declaration(
    name: Seq<char>,
    name_quoting: Quoting,
    before: Seq<char>,
    text: Seq<char>,
)
    requires
        writable_name(name),
        blank(before),
        text.len() > 0,
        !is_space(text.last()),
        text.last() != ',',
    ensures
        alias_entry(":"@ + text) is None,
        alias_entry(written(name, name_quoting) + before + ":"@) is None,
        alias_entry(written(name, name_quoting) + before + ":\"\""@) is None,
{
    reveal_strlit(":");
    reveal_strlit(":\"\"");
    reveal_strlit("--");
    reveal_strlit("//");
    let none = Seq::<char>::empty();
    let unnamed = ":"@ + text;
    lemma_as_it_is(unnamed);
    assert(unnamed.last() == text.last());
    assert(!begins(unnamed, "--"@)) by {
        if begins(unnamed, "--"@) {
            assert(unnamed.subrange(0, 2)[0] == '-');
        }
    }
    assert(!begins(unnamed, "//"@)) by {
        if begins(unnamed, "//"@) {
            assert(unnamed.subrange(0, 2)[0] == '/');
        }
    }
    lemma_find_char_first(unnamed, ':', 0, 0);
    assert(unnamed.take(0) =~= none);
    lemma_as_it_is(none);
    assert(unquoted(none) =~= none);
    assert(":"@ =~= seq![':'] + none);
    lemma_empty_value(name, name_quoting, before, ":"@, none);
    let quotes = seq!['"', '"'];
    lemma_as_it_is(quotes);
    assert(unquoted(quotes) =~= none) by {
        assert(quotes.drop_first() =~= seq!['"']);
        assert(seq!['"'].drop_last() =~= none);
    }
    assert(":\"\""@ =~= seq![':'] + quotes);
    lemma_empty_value(name, name_quoting, before, ":\"\""@, quotes);
}

/// A declaration with nothing behind its colon.
proof fn lemma_empty_value(
    name: Seq<char>,
    name_quoting: Quoting,
    before: Seq<char>,
    end: Seq<char>,
    value: Seq<char>,
)
    requires
        writable_name(name),
        blank(before),
        end == seq![':'] + value,
        !is_space(end.last()),
        end.last() != ',',
        unquoted(value) == Seq::<char>::empty(),
    ensures
        alias_entry(written(name, name_quoting) + before + end) is None,
{
    reveal_strlit("--");
    reveal_strlit("//");
    let none = Seq::<char>::empty();
    let key = written(name, name_quoting);
    let line = key + before + end;
    lemma_unquoted(none, name, name_quoting, before);
    lemma_written(name, name_quoting);
    assert(line[0] == key[0]);
    assert(line.last() == end.last());
    lemma_as_it_is(line);
    assert(!begins(line, "--"@)) by {
        if begins(line, "--"@) {
            assert(line.subrange(0, 2)[0] == '-');
        }
    }
    assert(!begins(line, "//"@)) by {
        if begins(line, "//"@) {
            assert(line.subrange(0, 2)[0] == '/');
        }
    }
    let i = key.len() + before.len();
    assert(line[i as int] == ':');
    assert forall|j: int| 0 <= j < i implies line[j] != ':' by {
        if j < key.len() {
            assert(line[j] == key[j]);
        } else {
            assert(line[j] == before[j - key.len()]);
            assert(is_space(before[j - key.len()]));
        }
    }
    lemma_find_char_first(line, ':', 0, i as int);
    assert(line.skip(i as int + 1) =~= value);
    lemma_as_it_is(none);
}

} // verus!
