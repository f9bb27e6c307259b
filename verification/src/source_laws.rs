//! What holds of source files: when a source asks for native code, and what of
//! it is compiled.
use crate::source::{asks_for_native, code_of, law_directive_asks_for_native};
use crate::text::{
    begins, find_char_from, is_space, joined, lemma_trim_end, lemma_trim_start, lines, trim_start,
    trimmed, without_suffix_char,
};
use crate::text_laws::{
    free_of, law_character_is_found, law_lines, law_lines_join_again, lemma_end_trimmed,
    lemma_start_trimmed,
};
use vstd::prelude::*;

verus! {

/// Whether the directive `--!native` stands in a source at `n`, with nothing
/// but white space before it on the first line.
pub open spec fn directive_at(source: Seq<char>, n: int) -> bool {
    &&& 0 <= n
    &&& n + 9 <= source.len()
    &&& source.subrange(n, n + 9) == "--!native"@
    &&& forall|i: int| 0 <= i < n ==> is_space(#[trigger] source[i]) && source[i] != '\n'
}

/// The first line of a source, as far as white space and its end go.
proof fn lemma_first_line(source: Seq<char>, line: Seq<char>)
    requires
        line.len() <= source.len(),
        line == source.take(line.len() as int),
        free_of(line, '\n'),
        begins(trimmed(line), "--!native"@),
    ensures
        exists|n: int| directive_at(source, n),
{
    reveal_strlit("--!native");
    lemma_start_trimmed(line);
    let t = trim_start(line);
    lemma_end_trimmed(t);
    let n = line.len() - t.len();
    assert(trimmed(line).subrange(0, 9) =~= t.subrange(0, 9));
    assert(t.subrange(0, 9) =~= source.subrange(n, n + 9));
    assert forall|i: int| 0 <= i < n implies is_space(#[trigger] source[i]) && source[i] != '\n' by {
        assert(is_space(line.take(n)[i]));
        assert(line[i] != '\n');
    }
    assert(directive_at(source, n));
}

/// Where a source asks for native code, the directive is there.
proof fn lemma_directive_is_there(source: Seq<char>)
    requires
        asks_for_native(source),
    ensures
        exists|n: int| directive_at(source, n),
{
    law_character_is_found(source, '\n', 0);
    match find_char_from(source, '\n', 0) {
        None => {
            assert(source.take(source.len() as int) =~= source);
            assert(lines(source)[0] == source);
            lemma_first_line(source, source);
        },
        Some(k) => {
            let line = without_suffix_char(source.take(k), '\r');
            assert(lines(source)[0] == line);
            assert(line =~= source.take(line.len() as int));
            assert forall|i: int| 0 <= i < line.len() implies #[trigger] line[i] != '\n' by {
                assert(source[i] != '\n');
            }
            lemma_first_line(source, line);
        },
    }
}

/// The directive on a source of one line.
proof fn lemma_only_line(space: Seq<char>, rest: Seq<char>)
    requires
        forall|i: int| 0 <= i < space.len() ==> is_space(#[trigger] space[i]),
        rest.len() >= 9,
        rest.take(9) == "--!native"@,
        free_of(space + rest, '\n'),
    ensures
        asks_for_native(space + rest),
{
    reveal_strlit("--!native");
    let source = space + rest;
    assert(rest.take(9)[0] == '-');
    assert(rest.take(9)[8] == 'e');
    lemma_trim_start(space, rest);
    lemma_trim_end(rest, 8);
    assert(trimmed(source).subrange(0, 9) =~= rest.take(9));
    law_lines(source, source);
}

/// Where the directive is, a source asks for native code.
proof fn lemma_directive_asks(source: Seq<char>, n: int)
    requires
        directive_at(source, n),
    ensures
        asks_for_native(source),
{
    law_character_is_found(source, '\n', 0);
    let space = source.take(n);
    assert forall|i: int| 0 <= i < space.len() implies is_space(#[trigger] space[i]) && space[i]
        != '\n' by {
        assert(is_space(source[i]));
    }
    match find_char_from(source, '\n', 0) {
        None => {
            let rest = source.skip(n);
            assert(source =~= space + rest);
            assert(rest.take(9) =~= source.subrange(n, n + 9));
            lemma_only_line(space, rest);
        },
        Some(k) => {
            assert(k >= n + 9) by {
                reveal_strlit("--!native");
                if k < n {
                    assert(source[k] != '\n');
                } else if k < n + 9 {
                    assert(source.subrange(n, n + 9)[k - n] == '\n');
                }
            }
            let comment = source.subrange(n + 9, k);
            let body = source.skip(k + 1);
            assert forall|i: int| 0 <= i < comment.len() implies #[trigger] comment[i] != '\n' by {
                assert(source[i + n + 9] != '\n');
            }
            law_directive_asks_for_native(space, comment, body);
            assert(source =~= space + "--!native"@ + comment + "\n"@ + body) by {
                reveal_strlit("\n");
                reveal_strlit("--!native");
                assert(source =~= space + source.subrange(n, n + 9) + comment + seq!['\n'] + body);
                assert("\n"@ =~= seq!['\n']);
            }
        },
    }
}

/// A source asks for native code exactly if the directive stands on its first
/// line, with nothing but white space before it.
pub proof fn law_native_only_by_directive(source: Seq<char>)
    ensures
        asks_for_native(source) <==> exists|n: int| directive_at(source, n),
{
    if asks_for_native(source) {
        lemma_directive_is_there(source);
    }
    if exists|n: int| directive_at(source, n) {
        lemma_directive_asks(source, choose|n: int| directive_at(source, n));
    }
}

/// A source without the directive on its first line is compiled to the last
/// character as it stands: whatever its first line holds, it stays.
pub proof fn law_other_source_is_kept(source: Seq<char>)
    requires
        forall|n: int| !directive_at(source, n),
    ensures
        !asks_for_native(source),
        code_of(source) == source,
{
    law_native_only_by_directive(source);
}

/// A source whose first visible text is not the directive is kept: `space` is
/// white space on the first line, and `rest` starts with something visible, or
/// with the end of the line.
pub proof fn law_source_with_other_start_is_kept(space: Seq<char>, rest: Seq<char>)
    requires
        forall|i: int| 0 <= i < space.len() ==> is_space(#[trigger] space[i]) && space[i] != '\n',
        rest.len() > 0 ==> rest[0] == '\n' || !is_space(rest[0]),
        !(rest.len() >= 9 && rest.take(9) == "--!native"@),
    ensures
        !asks_for_native(space + rest),
        code_of(space + rest) == space + rest,
{
    reveal_strlit("--!native");
    let source = space + rest;
    assert forall|n: int| !directive_at(source, n) by {
        if directive_at(source, n) {
            let m = space.len() as int;
            if n < m {
                assert(source.subrange(n, n + 9)[0] == source[n]);
                assert(source[n] == space[n]);
                assert(is_space('-'));
            } else if n == m {
                assert(source.subrange(n, n + 9) =~= rest.take(9));
            } else {
                assert(source[m] == rest[0]);
                assert(is_space(source[m]) && source[m] != '\n');
            }
        }
    }
    law_other_source_is_kept(source);
}

/// Behind the directive, what is compiled is the text that follows the first
/// line, but for a line feed at its very end; where it has carriage returns,
/// it is its lines with a line feed between each two.
pub proof fn law_code_behind_directive(space: Seq<char>, comment: Seq<char>, body: Seq<char>)
    requires
        forall|i: int| 0 <= i < space.len() ==> is_space(#[trigger] space[i]) && space[i] != '\n',
        free_of(comment, '\n'),
    ensures
        asks_for_native(space + "--!native"@ + comment + "\n"@ + body),
        code_of(space + "--!native"@ + comment + "\n"@ + body) == joined(lines(body), "\n"@),
        free_of(body, '\r') && (body.len() == 0 || body.last() != '\n') ==> code_of(
            space + "--!native"@ + comment + "\n"@ + body,
        ) == body,
        free_of(body, '\r') ==> code_of(space + "--!native"@ + comment + "\n"@ + body.push('\n'))
            == body,
{
    law_directive_asks_for_native(space, comment, body);
    law_directive_asks_for_native(space, comment, body.push('\n'));
    if free_of(body, '\r') {
        law_lines_join_again(body);
        assert forall|i: int| 0 <= i < body.push('\n').len() implies #[trigger] body.push('\n')[i]
            != '\r' by {
            if i < body.len() {
                assert(body[i] != '\r');
            }
        }
        law_lines_join_again(body.push('\n'));
        assert(body.push('\n').drop_last() =~= body);
    }
}

/// Nothing is compiled of a source that ends on the line of the directive.
pub proof fn law_nothing_behind_directive(space: Seq<char>, comment: Seq<char>)
    requires
        forall|i: int| 0 <= i < space.len() ==> is_space(#[trigger] space[i]) && space[i] != '\n',
        free_of(comment, '\n'),
    ensures
        asks_for_native(space + "--!native"@ + comment),
        code_of(space + "--!native"@ + comment) == ""@,
{
    reveal_strlit("--!native");
    reveal_strlit("");
    let directive = "--!native"@;
    let source = space + directive + comment;
    let rest = directive + comment;
    let n = space.len() as int;
    assert(source =~= space + rest);
    assert(rest.take(9) =~= directive);
    assert forall|i: int| 0 <= i < source.len() implies #[trigger] source[i] != '\n' by {
        if i < n {
            assert(is_space(space[i]));
            assert(source[i] == space[i]);
        } else if i < n + 9 {
            assert(source[i] == directive[i - n]);
        } else {
            assert(source[i] == comment[i - n - 9]);
        }
    }
    lemma_only_line(space, rest);
    law_lines(source, source);
    assert(lines(source).skip(1) =~= Seq::empty());
    assert(joined(Seq::empty(), "\n"@) =~= ""@);
}

} // verus!
