//! Source files: the directive that asks for native code generation, and the
//! names under which chunks are loaded.

use crate::text::{
    begins, is_space, join, joined, lemma_find_char_first, lemma_trim_end, lemma_trim_start, lines,
    replace_nul, split_lines, starts_with, texts, to_chars, trim, trimmed, without_nul,
    without_suffix_char,
};
use vstd::prelude::*;
use vstd::slice::slice_subrange;

verus! {

/// Whether the first line of a source starts, after white space, with
/// `--!native`.
pub open spec fn asks_for_native(source: Seq<char>) -> bool {
    lines(source).len() > 0 && begins(trimmed(lines(source)[0]), "--!native"@)
}

/// The code of a source: all of it, or the lines after the directive.
pub open spec fn code_of(source: Seq<char>) -> Seq<char> {
    if asks_for_native(source) {
        joined(lines(source).skip(1), "\n"@)
    } else {
        source
    }
}

/// Tells whether a source asks for native code generation and gives the code
/// to compile: the source as it is, or, behind the directive, the lines that
/// follow the first, with one line feed between each two.
pub fn strip_native_directive(source: &str) -> (r: (bool, String))
    ensures
        r.0 == asks_for_native(source@),
        r.1@ == code_of(source@),
{
    let chars = to_chars(source);
    let all = split_lines(chars.as_slice());
    let ghost ls = lines(source@);
    if all.len() == 0 {
        return (false, source.to_owned());
    }
    let first = to_chars(all[0].as_str());
    assert(first@ == ls[0]);
    if !starts_with(trim(first.as_slice()), "--!native") {
        return (false, source.to_owned());
    }
    let rest = slice_subrange(all.as_slice(), 1, all.len());
    assert(texts(rest@) =~= ls.skip(1));
    (true, join(rest, "\n"))
}

/// The name under which the chunk of a file is loaded, with the NUL that ends
/// it: the path with every NUL of its own replaced.
pub fn chunk_name(path: &str) -> (r: String)
    ensures
        r@ == without_nul(path@).push('\0'),
{
    let mut name = replace_nul(path);
    name.push('\0');
    name
}

/// The directive counts whatever white space stands before it and whatever
/// follows it on the first line, and what is compiled is the lines after it.
pub proof fn law_directive_asks_for_native(
    space: Seq<char>,
    comment: Seq<char>,
    body: Seq<char>,
)
    requires
        forall|i: int| 0 <= i < space.len() ==> is_space(#[trigger] space[i]) && space[i] != '\n',
        forall|i: int| 0 <= i < comment.len() ==> #[trigger] comment[i] != '\n',
    ensures
        asks_for_native(space + "--!native"@ + comment + "\n"@ + body),
        code_of(space + "--!native"@ + comment + "\n"@ + body) == joined(lines(body), "\n"@),
{
    reveal_strlit("--!native");
    reveal_strlit("\n");
    let directive = "--!native"@;
    let first = space + directive + comment;
    let source = first + "\n"@ + body;
    let n = first.len() as int;
    assert forall|j: int| 0 <= j < n implies source[j] != '\n' by {
        if j < space.len() {
            assert(is_space(space[j]));
            assert(source[j] == space[j]);
        } else if j < space.len() + directive.len() {
            assert(source[j] == directive[j - space.len()]);
        } else {
            assert(source[j] == comment[j - space.len() - directive.len()]);
        }
    }
    assert(source[n] == '\n');
    lemma_find_char_first(source, '\n', 0, n);
    assert(source.take(n) =~= first);
    assert(source.skip(n + 1) =~= body);
    let line = without_suffix_char(first, '\r');
    let m = space.len() + directive.len();
    assert(first[m - 1] == 'e');
    assert(line.len() >= m);
    let rest = line.skip(space.len() as int);
    assert(line =~= space + rest);
    assert(rest[0] == '-');
    lemma_trim_start(space, rest);
    assert(rest[8] == 'e');
    lemma_trim_end(rest, 8);
    assert(trimmed(line).subrange(0, 9) =~= directive);
    assert(lines(source) == seq![line] + lines(body));
    assert(lines(source).skip(1) =~= lines(body));
}

/// A source without the directive on its first line is compiled as it stands.
pub proof fn law_plain_source_is_kept(source: Seq<char>)
    requires
        !asks_for_native(source),
    ensures
        code_of(source) == source,
{
}

/// The name of a chunk holds one NUL, at its end, and is otherwise the path
/// with its own NULs replaced.
pub proof fn law_chunk_name_ends_at_nul(path: Seq<char>)
    ensures
        ({
            let name = without_nul(path).push('\0');
            &&& name.len() == path.len() + 1
            &&& name.last() == '\0'
            &&& forall|i: int|
                0 <= i < path.len() ==> #[trigger] name[i] != '\0' && (path[i] != '\0' ==> name[i]
                    == path[i])
        }),
{
}

} // verus!
