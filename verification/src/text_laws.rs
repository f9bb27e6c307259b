//! What holds of texts: their lines, the white space around them, and what is
//! found in them.
use crate::text::{
    begins, find_char_from, find_from, is_space, joined, lemma_find_char_first, lines, occurs_at,
    outcome, text_opt, texts, trim_end, trim_end_char, trim_start, trimmed, without_nul,
    without_prefix_char, without_suffix_char,
};
use vstd::prelude::*;

verus! {

/// Whether a character does not occur in a text.
pub open spec fn free_of(s: Seq<char>, c: char) -> bool {
    forall|i: int| 0 <= i < s.len() ==> #[trigger] s[i] != c
}

/// Whether a text consists of white space.
pub open spec fn blank(s: Seq<char>) -> bool {
    forall|i: int| 0 <= i < s.len() ==> is_space(#[trigger] s[i])
}

/// A character that does not occur is not found.
pub proof fn lemma_not_found(s: Seq<char>, c: char, i: int)
    requires
        0 <= i,
        forall|j: int| i <= j < s.len() ==> #[trigger] s[j] != c,
    ensures
        find_char_from(s, c, i) is None,
    decreases s.len() - i,
{
    if i < s.len() {
        assert(s[i] != c);
        lemma_not_found(s, c, i + 1);
    }
}

/// A character is found where it stands first, from a position on, or it does
/// not stand there at all.
pub proof fn law_character_is_found(s: Seq<char>, c: char, i: int)
    requires
        0 <= i,
    ensures
        match find_char_from(s, c, i) {
            Some(k) => i <= k < s.len() && s[k] == c && forall|j: int|
                i <= j < k ==> #[trigger] s[j] != c,
            None => forall|j: int| i <= j < s.len() ==> #[trigger] s[j] != c,
        },
    decreases s.len() - i,
{
    if i < s.len() && s[i] != c {
        law_character_is_found(s, c, i + 1);
    }
}

/// A text is found where it stands first in another, from a position on, or it
/// does not stand there at all.
pub proof fn law_text_is_found(s: Seq<char>, p: Seq<char>, i: int)
    requires
        0 <= i,
    ensures
        match find_from(s, p, i) {
            Some(k) => i <= k && k + p.len() <= s.len() && s.subrange(k, k + p.len()) == p
                && forall|j: int| i <= j < k ==> #[trigger] s.subrange(j, j + p.len()) != p,
            None => forall|j: int|
                i <= j && j + p.len() <= s.len() ==> #[trigger] s.subrange(j, j + p.len()) != p,
        },
    decreases s.len() + 1 - i,
{
    if i + p.len() <= s.len() && !occurs_at(s, p, i) {
        law_text_is_found(s, p, i + 1);
    }
}

/// A text starts with another exactly if it is the other with something behind
/// it.
pub proof fn law_text_starts(s: Seq<char>, p: Seq<char>, tail: Seq<char>)
    ensures
        begins(p + tail, p),
        begins(s, p) ==> s == p + s.skip(p.len() as int),
{
    assert((p + tail).subrange(0, p.len() as int) =~= p);
    if begins(s, p) {
        assert(s =~= s.subrange(0, p.len() as int) + s.skip(p.len() as int));
    }
}

/// No text has no line. A text without a line feed is one line. What stands
/// before the first line feed is the first line, without a carriage return at
/// its end, and the lines behind it follow.
pub proof fn law_lines(first: Seq<char>, rest: Seq<char>)
    requires
        free_of(first, '\n'),
    ensures
        lines(""@) == Seq::<Seq<char>>::empty(),
        first.len() > 0 ==> lines(first) == seq![first],
        free_of(first, '\r') ==> lines(first + "\n"@ + rest) == seq![first] + lines(rest),
        lines(first + "\r\n"@ + rest) == seq![first] + lines(rest),
{
    reveal_strlit("");
    reveal_strlit("\n");
    reveal_strlit("\r\n");
    assert(""@ =~= Seq::empty());
    lemma_not_found(first, '\n', 0);
    let n = first.len() as int;
    let s = first + "\n"@ + rest;
    assert forall|j: int| 0 <= j < n implies s[j] != '\n' by {
        assert(first[j] != '\n');
    }
    lemma_find_char_first(s, '\n', 0, n);
    assert(s.take(n) =~= first);
    assert(s.skip(n + 1) =~= rest);
    if n > 0 && free_of(first, '\r') {
        assert(first[n - 1] != '\r');
    }
    let t = first + "\r\n"@ + rest;
    assert forall|j: int| 0 <= j < n + 1 implies t[j] != '\n' by {
        if j < n {
            assert(first[j] != '\n');
        }
    }
    assert(t[n + 1] == '\n');
    lemma_find_char_first(t, '\n', 0, n + 1);
    assert(t.take(n + 1) =~= first.push('\r'));
    assert(first.push('\r').drop_last() =~= first);
    assert(t.skip(n + 2) =~= rest);
}

/// Texts are joined from the first to the last: nothing comes of none, a
/// single one stays as it is, and the first of more has the separator and the
/// others behind it.
pub proof fn law_joined_texts(first: Seq<char>, rest: Seq<Seq<char>>, sep: Seq<char>)
    ensures
        joined(Seq::empty(), sep) == ""@,
        joined(seq![first], sep) == first,
        rest.len() > 0 ==> joined(seq![first] + rest, sep) == first + sep + joined(rest, sep),
    decreases rest.len(),
{
    reveal_strlit("");
    assert(joined(Seq::empty(), sep) =~= ""@);
    let all = seq![first] + rest;
    if rest.len() == 1 {
        assert(all.drop_last() =~= seq![first]);
        assert(all.last() == rest[0]);
        assert(joined(all, sep) == joined(seq![first], sep) + sep + rest[0]);
    } else if rest.len() > 1 {
        law_joined_texts(first, rest.drop_last(), sep);
        assert(all.drop_last() =~= seq![first] + rest.drop_last());
        assert(all.last() == rest.last());
        assert(joined(all, sep) =~= first + sep + joined(rest, sep));
    }
}

/// The lines of a text that knows no carriage returns are the text again when
/// they are joined by line feeds, but for a line feed at its very end.
pub proof fn law_lines_join_again(s: Seq<char>)
    requires
        free_of(s, '\r'),
    ensures
        joined(lines(s), "\n"@) == (if s.len() > 0 && s.last() == '\n' {
            s.drop_last()
        } else {
            s
        }),
    decreases s.len(),
{
    reveal_strlit("\n");
    reveal_strlit("");
    law_character_is_found(s, '\n', 0);
    match find_char_from(s, '\n', 0) {
        None => {
            if s.len() > 0 {
                law_lines(s, s);
                law_joined_texts(s, Seq::empty(), "\n"@);
                assert(s[s.len() - 1] != '\n');
            } else {
                law_joined_texts(s, Seq::empty(), "\n"@);
                assert(s =~= ""@);
            }
        },
        Some(k) => {
            let first = s.take(k);
            let rest = s.skip(k + 1);
            assert(s =~= first + "\n"@ + rest);
            assert forall|i: int| 0 <= i < first.len() implies #[trigger] first[i] != '\r' by {
                assert(s[i] != '\r');
            }
            assert forall|i: int| 0 <= i < rest.len() implies #[trigger] rest[i] != '\r' by {
                assert(s[i + k + 1] != '\r');
            }
            law_lines(first, rest);
            law_lines_join_again(rest);
            law_joined_texts(first, lines(rest), "\n"@);
            if rest.len() == 0 {
                assert(lines(rest) =~= Seq::empty());
                assert(seq![first] + lines(rest) =~= seq![first]);
                assert(s.drop_last() =~= first);
            } else {
                assert(rest.last() == s.last());
                if s.last() == '\n' {
                    assert(s.drop_last() =~= first + "\n"@ + rest.drop_last());
                }
            }
        },
    }
}

/// White space at the start is what `trim_start` takes off.
pub proof fn lemma_start_trimmed(s: Seq<char>)
    ensures
        trim_start(s).len() <= s.len(),
        trim_start(s) == s.skip(s.len() - trim_start(s).len()),
        blank(s.take(s.len() - trim_start(s).len())),
        trim_start(s).len() > 0 ==> !is_space(trim_start(s)[0]),
    decreases s.len(),
{
    if s.len() > 0 && is_space(s.first()) {
        let t = s.drop_first();
        lemma_start_trimmed(t);
        let n = s.len() - trim_start(s).len();
        assert(t.skip(n - 1) =~= s.skip(n));
        assert forall|i: int| 0 <= i < n implies is_space(#[trigger] s.take(n)[i]) by {
            if i > 0 {
                assert(is_space(t.take(n - 1)[i - 1]));
            }
        }
    } else {
        assert(s.skip(0) =~= s);
    }
}

/// White space at the end is what `trim_end` takes off.
pub proof fn lemma_end_trimmed(s: Seq<char>)
    ensures
        trim_end(s).len() <= s.len(),
        trim_end(s) == s.take(trim_end(s).len() as int),
        blank(s.skip(trim_end(s).len() as int)),
        trim_end(s).len() > 0 ==> !is_space(trim_end(s).last()),
    decreases s.len(),
{
    if s.len() > 0 && is_space(s.last()) {
        let t = s.drop_last();
        lemma_end_trimmed(t);
        let n = trim_end(s).len() as int;
        assert(t.take(n) =~= s.take(n));
        assert forall|i: int| 0 <= i < s.len() - n implies is_space(#[trigger] s.skip(n)[i]) by {
            if i < t.len() - n {
                assert(is_space(t.skip(n)[i]));
            }
        }
    } else {
        assert(s.take(s.len() as int) =~= s);
    }
}

/// A trimmed text is the text without white space before and behind it: it
/// stands in the text with nothing but white space around it, and neither
/// starts nor ends with any.
pub proof fn law_trimmed(s: Seq<char>)
    ensures
        exists|a: Seq<char>, b: Seq<char>| #[trigger]
            (a + trimmed(s) + b) == s && blank(a) && blank(b),
        trimmed(s).len() > 0 ==> !is_space(trimmed(s)[0]) && !is_space(trimmed(s).last()),
{
    lemma_start_trimmed(s);
    let t = trim_start(s);
    lemma_end_trimmed(t);
    let a = s.take(s.len() - t.len());
    let b = t.skip(trimmed(s).len() as int);
    assert(a + trimmed(s) + b =~= s);
    if trimmed(s).len() > 0 {
        assert(trimmed(s)[0] == t[0]);
    }
}

/// White space around a text makes no difference once it is trimmed, and a
/// text of white space is nothing.
pub proof fn law_trimmed_alike(a: Seq<char>, s: Seq<char>, b: Seq<char>)
    requires
        blank(a),
        blank(b),
        s.len() > 0 ==> !is_space(s[0]) && !is_space(s.last()),
    ensures
        trimmed(a + s + b) == s,
    decreases a.len() + b.len(),
{
    let all = a + s + b;
    lemma_start_trimmed(all);
    let t = trim_start(all);
    lemma_end_trimmed(t);
    let n = all.len() - t.len();
    if s.len() == 0 {
        if t.len() > 0 {
            assert(t[0] == all[n]);
            if n < a.len() {
                assert(is_space(a[n]));
            } else {
                assert(is_space(b[n - a.len()]));
            }
        }
        assert(trimmed(all) =~= s);
    } else {
        assert(all[a.len() as int] == s[0]);
        if n > a.len() {
            assert(is_space(all.take(n)[a.len() as int]));
        }
        if n < a.len() {
            assert(t[0] == all[n]);
            assert(is_space(a[n]));
        }
        assert(t =~= s + b);
        let m = trim_end(t).len() as int;
        if m < s.len() {
            assert(is_space(t.skip(m)[s.len() - 1 - m]));
        }
        if m > s.len() {
            assert(trim_end(t).last() == b[m - 1 - s.len()]);
        }
        assert(t.take(m) =~= s);
    }
}

/// Spaces, tabulators and line endings are white space; letters, digits, and
/// the marks of source and of `.luaurc` files are not.
pub proof fn law_white_space(c: char)
    ensures
        c == ' ' || c == '\t' || c == '\n' || c == '\r' ==> is_space(c),
        'a' as int <= c as int <= 'z' as int || 'A' as int <= c as int <= 'Z' as int || '0' as int
            <= c as int <= '9' as int ==> !is_space(c),
        c == '-' || c == '!' || c == '/' || c == '.' || c == '@' || c == '"' || c == '\'' || c
            == '[' || c == ']' || c == '{' || c == '}' || c == ':' || c == '=' || c == ',' || c
            == '_' || c == '\\' || c == '\0' ==> !is_space(c),
{
}

/// A NUL is shown as a question mark, and every other character as it is.
pub proof fn law_nul_is_replaced(s: Seq<char>)
    ensures
        without_nul(s).len() == s.len(),
        forall|i: int|
            0 <= i < s.len() ==> #[trigger] without_nul(s)[i] == (if s[i] == '\0' {
                '?'
            } else {
                s[i]
            }),
        free_of(s, '\0') ==> without_nul(s) == s,
{
    if free_of(s, '\0') {
        assert(without_nul(s) =~= s);
    }
}

/// A character is taken off the front or the back of a text once, and only if
/// it is there; at the end it can be taken off as often as it is there.
pub proof fn law_characters_taken_off(s: Seq<char>, c: char, d: char, n: nat)
    ensures
        without_prefix_char(seq![c] + s, c) == s,
        c != d ==> without_prefix_char(seq![d] + s, c) == seq![d] + s,
        without_prefix_char(""@, c) == ""@,
        without_suffix_char(s.push(c), c) == s,
        c != d ==> without_suffix_char(s.push(d), c) == s.push(d),
        without_suffix_char(""@, c) == ""@,
        c != d ==> trim_end_char(s.push(d) + Seq::new(n, |i: int| c), c) == s.push(d),
    decreases n,
{
    reveal_strlit("");
    assert((seq![c] + s).drop_first() =~= s);
    assert((seq![d] + s).first() == d);
    assert(s.push(c).drop_last() =~= s);
    assert(s.push(d).last() == d);
    let tail = Seq::new(n, |i: int| c);
    if n == 0 {
        assert(s.push(d) + tail =~= s.push(d));
    } else {
        let less = Seq::new((n - 1) as nat, |i: int| c);
        law_characters_taken_off(s, c, d, (n - 1) as nat);
        assert((s.push(d) + tail).last() == c);
        assert((s.push(d) + tail).drop_last() =~= s.push(d) + less);
    }
}

/// What strings hold is told of each of them alike, whether there is one, a
/// list of them, or an outcome.
pub proof fn law_strings_hold_texts(s: String, list: Seq<String>, i: int)
    ensures
        text_opt(Some(s)) == Some(s@),
        text_opt(None) is None,
        outcome(Ok(s)) == Ok::<Seq<char>, Seq<char>>(s@),
        outcome(Err(s)) == Err::<Seq<char>, Seq<char>>(s@),
        texts(list).len() == list.len(),
        0 <= i < list.len() ==> texts(list)[i] == list[i]@,
{
}

/// The characters that are white space are those with that property in Unicode,
/// by their code points.
pub proof fn law_white_space_by_code(c: char)
    ensures
        is_space(c) <==> c == '\t' || c == '\n' || c == '\u{b}' || c == '\u{c}' || c == '\r' || c
            == ' ' || c == '\u{85}' || c == '\u{a0}' || c == '\u{1680}' || c == '\u{2000}' || c
            == '\u{2001}' || c == '\u{2002}' || c == '\u{2003}' || c == '\u{2004}' || c
            == '\u{2005}' || c == '\u{2006}' || c == '\u{2007}' || c == '\u{2008}' || c
            == '\u{2009}' || c == '\u{200a}' || c == '\u{2028}' || c == '\u{2029}' || c
            == '\u{202f}' || c == '\u{205f}' || c == '\u{3000}',
{
}

} // verus!
