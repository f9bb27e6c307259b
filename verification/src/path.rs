//! Lexical paths: text that is read as a path by the rules of a system.
//!
//! On Unix `/` separates the components. On Windows `\` does so too, and a
//! path may begin with a prefix: a drive (`C:`), a share (`\\server\share`), a
//! device (`\\.\name`), or one of those in its verbatim form (`\\?\C:`,
//! `\\?\UNC\server\share`, `\\?\name`), behind which only `\` separates and
//! `.` is a component like any other.
//!
//! Repeated separators, a separator at the end and, but for verbatim paths, a
//! component `.` that is not the first of a relative path are of no
//! significance.
use crate::text::{from_chars, same, texts, to_chars};
use vstd::prelude::*;
use vstd::slice::slice_subrange;

verus! {

/// The system by whose rules paths are read.
#[derive(Clone, Copy, PartialEq, Eq, Structural, Debug)]
pub enum Os {
    Unix,
    Windows,
}

/// The characters that separate components.
#[derive(Clone, Copy, PartialEq, Eq, Structural, Debug)]
pub enum Separators {
    /// `/`, on Unix.
    Slash,
    /// `/` and `\`, on Windows.
    Both,
    /// `\`, in a verbatim path.
    Backslash,
}

/// The kind of a prefix.
#[derive(Clone, Copy, PartialEq, Eq, Structural, Debug)]
pub enum PrefixKind {
    /// `\\?\name`
    Verbatim,
    /// `\\?\UNC\server\share`
    VerbatimShare,
    /// `\\?\C:`
    VerbatimDrive,
    /// `\\.\name`
    Device,
    /// `\\server\share`
    Share,
    /// `C:`
    Drive,
}

/// Where the prefix of a path lies: it ends at `len`, and what it names stands
/// from `start` to `middle` and, of a share, from behind `middle` to the end.
#[derive(Clone, Copy, PartialEq, Eq, Structural, Debug)]
pub struct Prefix {
    pub kind: PrefixKind,
    pub start: usize,
    pub middle: usize,
    pub len: usize,
}

/// What a `Prefix` stands for.
#[verifier::ext_equal]
pub struct PrefixView {
    pub kind: PrefixKind,
    pub start: int,
    pub middle: int,
    pub len: int,
}

impl View for Prefix {
    type V = PrefixView;

    open spec fn view(&self) -> PrefixView {
        PrefixView {
            kind: self.kind,
            start: self.start as int,
            middle: self.middle as int,
            len: self.len as int,
        }
    }
}

/// One component of a path.
#[verifier::ext_equal]
#[derive(PartialEq, Eq, Debug)]
pub enum Component<T> {
    /// The prefix of a path, by its kind and what it names: a server and a
    /// share, a drive letter in upper case, or a name.
    Prefix(PrefixKind, T, T),
    /// The root of a path.
    Root,
    /// A leading `.` of a relative path, or a `.` in a verbatim one.
    Current,
    /// A `..`.
    Parent,
    /// A name.
    Normal(T),
}

impl View for Component<String> {
    type V = Component<Seq<char>>;

    open spec fn view(&self) -> Component<Seq<char>> {
        match *self {
            Component::Prefix(kind, a, b) => Component::Prefix(kind, a@, b@),
            Component::Root => Component::Root,
            Component::Current => Component::Current,
            Component::Parent => Component::Parent,
            Component::Normal(s) => Component::Normal(s@),
        }
    }
}

/// Whether a character separates components.
pub open spec fn separates(k: Separators, c: char) -> bool {
    match k {
        Separators::Slash => c == '/',
        Separators::Both => c == '/' || c == '\\',
        Separators::Backslash => c == '\\',
    }
}

/// The separators of a path that is not verbatim.
pub open spec fn plain(os: Os) -> Separators {
    match os {
        Os::Unix => Separators::Slash,
        Os::Windows => Separators::Both,
    }
}

/// Whether a character is a letter that can name a drive.
pub open spec fn letter(c: char) -> bool {
    'a' as int <= c as int <= 'z' as int || 'A' as int <= c as int <= 'Z' as int
}

/// A letter in upper case.
pub open spec fn upper(c: char) -> char {
    if 'a' as int <= c as int <= 'z' as int {
        ((c as int) - 32) as char
    } else {
        c
    }
}

/// The position of the first separator at `i` or behind it, or the end.
pub open spec fn separator_from(k: Separators, p: Seq<char>, i: int) -> int
    decreases p.len() - i,
{
    if i < 0 || i >= p.len() {
        p.len() as int
    } else if separates(k, p[i]) {
        i
    } else {
        separator_from(k, p, i + 1)
    }
}

/// The prefix of a path that begins with `\\?\`.
pub open spec fn verbatim_prefix(p: Seq<char>) -> PrefixView {
    let k = Separators::Backslash;
    if p.len() >= 8 && p[4] == 'U' && p[5] == 'N' && p[6] == 'C' && separates(
        Separators::Both,
        p[7],
    ) {
        let middle = separator_from(k, p, 8);
        let end = separator_from(k, p, middle + 1);
        PrefixView {
            kind: PrefixKind::VerbatimShare,
            start: 8,
            middle,
            len: if end > middle + 1 {
                end
            } else {
                middle
            },
        }
    } else if p.len() >= 6 && letter(p[4]) && p[5] == ':' && (p.len() == 6 || separates(
        Separators::Both,
        p[6],
    )) {
        PrefixView { kind: PrefixKind::VerbatimDrive, start: 4, middle: 5, len: 6 }
    } else {
        let end = separator_from(k, p, 4);
        PrefixView { kind: PrefixKind::Verbatim, start: 4, middle: end, len: end }
    }
}

/// The prefix of a path, if it has one.
pub open spec fn prefix_of(os: Os, p: Seq<char>) -> Option<PrefixView> {
    let k = Separators::Both;
    if os == Os::Unix {
        None
    } else if p.len() >= 2 && separates(k, p[0]) && separates(k, p[1]) {
        if p.len() >= 4 && p[0] == '\\' && p[1] == '\\' && p[2] == '?' && p[3] == '\\' {
            Some(verbatim_prefix(p))
        } else if p.len() >= 4 && p[2] == '.' && separates(k, p[3]) {
            let end = separator_from(k, p, 4);
            Some(PrefixView { kind: PrefixKind::Device, start: 4, middle: end, len: end })
        } else {
            let middle = separator_from(k, p, 2);
            let end = separator_from(k, p, middle + 1);
            if middle > 2 && end > middle + 1 {
                Some(PrefixView { kind: PrefixKind::Share, start: 2, middle, len: end })
            } else {
                None
            }
        }
    } else if p.len() >= 2 && letter(p[0]) && p[1] == ':' {
        Some(PrefixView { kind: PrefixKind::Drive, start: 0, middle: 1, len: 2 })
    } else {
        None
    }
}

/// Whether a kind of prefix is a verbatim one.
pub open spec fn verbatim(kind: PrefixKind) -> bool {
    kind == PrefixKind::Verbatim || kind == PrefixKind::VerbatimShare || kind
        == PrefixKind::VerbatimDrive
}

/// The length of the prefix.
pub open spec fn prefix_len(os: Os, p: Seq<char>) -> int {
    match prefix_of(os, p) {
        Some(x) => x.len,
        None => 0,
    }
}

/// Whether the path is a verbatim one.
pub open spec fn is_verbatim(os: Os, p: Seq<char>) -> bool {
    prefix_of(os, p) matches Some(x) && verbatim(x.kind)
}

/// The separators of the path.
pub open spec fn separators(os: Os, p: Seq<char>) -> Separators {
    if is_verbatim(os, p) {
        Separators::Backslash
    } else {
        plain(os)
    }
}

/// Whether a separator stands at the root of the path.
pub open spec fn root_shown(os: Os, p: Seq<char>) -> bool {
    prefix_len(os, p) < p.len() && separates(plain(os), p[prefix_len(os, p)])
}

/// Whether the path has a root: it is shown, or the prefix implies it, as each
/// but a drive does.
pub open spec fn has_root(os: Os, p: Seq<char>) -> bool {
    root_shown(os, p) || (prefix_of(os, p) matches Some(x) && x.kind != PrefixKind::Drive)
}

/// Whether the path is absolute: it has a root and, on Windows, a prefix.
pub open spec fn absolute(os: Os, p: Seq<char>) -> bool {
    has_root(os, p) && (os == Os::Unix || prefix_of(os, p) is Some)
}

/// Whether the path has no root and starts with the component `.`, behind its
/// prefix.
pub open spec fn starts_at_current(os: Os, p: Seq<char>) -> bool {
    let n = prefix_len(os, p);
    !has_root(os, p) && n < p.len() && p[n] == '.' && (p.len() == n + 1 || separates(
        plain(os),
        p[n + 1],
    ))
}

/// The length of the prefix and of the `/` or `.` behind it.
pub open spec fn lead(os: Os, p: Seq<char>) -> int {
    prefix_len(os, p) + if root_shown(os, p) || starts_at_current(os, p) {
        1int
    } else {
        0int
    }
}

/// `p` without the separators and the components `.` of no significance at its
/// end, down to the length `low`.
pub open spec fn cut_end(k: Separators, p: Seq<char>, low: int) -> Seq<char>
    decreases p.len(),
{
    if p.len() <= low || p.len() == 0 {
        p
    } else if separates(k, p.last()) || (k != Separators::Backslash && p.last() == '.' && (p.len()
        - 1 == low || separates(k, p[p.len() - 2]))) {
        cut_end(k, p.drop_last(), low)
    } else {
        p
    }
}

/// `p` up to the end of its last component.
pub open spec fn significant(os: Os, p: Seq<char>) -> Seq<char> {
    cut_end(separators(os, p), p, lead(os, p))
}

/// The position behind the last separator of `p` that is not below `low`, or
/// `low`.
pub open spec fn after_separator(k: Separators, p: Seq<char>, low: int) -> int
    decreases p.len(),
{
    if p.len() <= low || p.len() == 0 {
        low
    } else if separates(k, p.last()) {
        p.len() as int
    } else {
        after_separator(k, p.drop_last(), low)
    }
}

/// Where the last component of `p` begins that stands behind its lead.
pub open spec fn last_start(os: Os, p: Seq<char>) -> int {
    after_separator(separators(os, p), significant(os, p), lead(os, p))
}

/// The last component of `p` behind its lead, if there is one.
pub open spec fn last_component(os: Os, p: Seq<char>) -> Option<Component<Seq<char>>> {
    let q = significant(os, p);
    if q.len() > lead(os, p) {
        let name = q.skip(last_start(os, p));
        if name == seq!['.', '.'] {
            Some(Component::Parent)
        } else if name == seq!['.'] {
            Some(Component::Current)
        } else {
            Some(Component::Normal(name))
        }
    } else {
        None
    }
}

/// The path without its last component; a root, a prefix and an empty path
/// have none.
pub open spec fn parent_of(os: Os, p: Seq<char>) -> Option<Seq<char>> {
    let q = significant(os, p);
    if q.len() > lead(os, p) {
        Some(cut_end(separators(os, p), q.take(last_start(os, p)), lead(os, p)))
    } else if starts_at_current(os, p) && prefix_of(os, p) is None {
        Some(Seq::empty())
    } else {
        None
    }
}

/// The last component, if it is a name.
pub open spec fn file_name_of(os: Os, p: Seq<char>) -> Option<Seq<char>> {
    match last_component(os, p) {
        Some(Component::Normal(name)) => Some(name),
        _ => None,
    }
}

/// The length of a file name without its extension: up to its last dot, if
/// that is not its first character.
pub open spec fn stem_len(name: Seq<char>) -> int {
    let dot = last_dot(name);
    if dot > 0 {
        dot
    } else {
        name.len() as int
    }
}

/// The position of the last dot, or -1.
pub open spec fn last_dot(name: Seq<char>) -> int
    decreases name.len(),
{
    if name.len() == 0 {
        -1
    } else if name.last() == '.' {
        name.len() - 1
    } else {
        last_dot(name.drop_last())
    }
}

/// Whether the file name of `p` has an extension.
pub open spec fn has_extension(os: Os, p: Seq<char>) -> bool {
    file_name_of(os, p) matches Some(name) && stem_len(name) < name.len()
}

/// `p` with `ext` as the extension of its file name, if it has a file name;
/// an empty `ext` takes the extension away.
pub open spec fn with_extension_of(os: Os, p: Seq<char>, ext: Seq<char>) -> Seq<char> {
    match file_name_of(os, p) {
        None => p,
        Some(name) => {
            let q = significant(os, p);
            let kept = q.take(q.len() - name.len() + stem_len(name));
            if ext.len() == 0 {
                kept
            } else {
                kept + seq!['.'] + ext
            }
        },
    }
}

/// The components in the lead of a path: its prefix, and its root or `.`.
pub open spec fn front_of(os: Os, p: Seq<char>) -> Seq<Component<Seq<char>>> {
    match prefix_of(os, p) {
        Some(x) => {
            let first = if x.kind == PrefixKind::Drive || x.kind == PrefixKind::VerbatimDrive {
                seq![upper(p[x.start])]
            } else {
                p.subrange(x.start, x.middle)
            };
            let second = if x.kind == PrefixKind::Share || x.kind == PrefixKind::VerbatimShare {
                if x.middle < x.len {
                    p.subrange(x.middle + 1, x.len)
                } else {
                    Seq::empty()
                }
            } else {
                Seq::empty()
            };
            let prefix = Component::Prefix(x.kind, first, second);
            if root_shown(os, p) || (x.kind != PrefixKind::Drive && !verbatim(x.kind)) {
                seq![prefix, Component::Root]
            } else {
                seq![prefix]
            }
        },
        None => if root_shown(os, p) {
            seq![Component::Root]
        } else if starts_at_current(os, p) {
            seq![Component::Current]
        } else {
            Seq::empty()
        },
    }
}

/// The components of a verbatim path, once the component `c` of another path
/// has been added: `.` is left out, and `..` takes a name away.
pub open spec fn added(
    list: Seq<Component<Seq<char>>>,
    c: Component<Seq<char>>,
) -> Seq<Component<Seq<char>>> {
    match c {
        Component::Root => if list.len() == 0 {
            seq![c]
        } else {
            seq![list[0], c]
        },
        Component::Current => list,
        Component::Parent => if list.len() > 0 && list.last() is Normal {
            list.drop_last()
        } else {
            list
        },
        _ => list.push(c),
    }
}

/// The components of a verbatim path, once those of another path have been
/// added.
pub open spec fn all_added(
    list: Seq<Component<Seq<char>>>,
    tail: Seq<Component<Seq<char>>>,
) -> Seq<Component<Seq<char>>>
    decreases tail.len(),
{
    if tail.len() == 0 {
        list
    } else {
        added(all_added(list, tail.drop_last()), tail.last())
    }
}

/// The text of a component of a verbatim path whose prefix is written
/// `prefix`.
pub open spec fn component_text(prefix: Seq<char>, c: Component<Seq<char>>) -> Seq<char> {
    match c {
        Component::Prefix(_, _, _) => prefix,
        Component::Root => seq!['\\'],
        Component::Current => seq!['.'],
        Component::Parent => seq!['.', '.'],
        Component::Normal(name) => name,
    }
}

/// The text of a verbatim path whose prefix is written `prefix`.
pub open spec fn verbatim_text(prefix: Seq<char>, list: Seq<Component<Seq<char>>>) -> Seq<char>
    decreases list.len(),
{
    if list.len() == 0 {
        Seq::empty()
    } else {
        let front = list.drop_last();
        let c = list.last();
        let before = verbatim_text(prefix, front);
        if front.len() > 0 && !(front.last() is Root) && !(c is Root) {
            before.push('\\') + component_text(prefix, c)
        } else {
            before + component_text(prefix, c)
        }
    }
}

/// Whether a path consists of a drive alone.
pub open spec fn bare_drive(os: Os, p: Seq<char>) -> bool {
    prefix_of(os, p) matches Some(x) && x.kind == PrefixKind::Drive && p.len() == x.len
}

/// `base` followed by `tail`. A `tail` that is absolute, or has a prefix,
/// stands alone; one that has a root but no prefix replaces all but the prefix
/// of `base`. A verbatim `base` takes no `.` and no `..`.
pub open spec fn join_of(os: Os, base: Seq<char>, tail: Seq<char>) -> Seq<char> {
    if absolute(os, tail) || prefix_of(os, tail) is Some {
        tail
    } else if is_verbatim(os, base) && tail.len() > 0 {
        verbatim_text(
            base.take(prefix_len(os, base)),
            all_added(components_of(os, base), components_of(os, tail)),
        )
    } else if has_root(os, tail) {
        base.take(prefix_len(os, base)) + tail
    } else if base.len() > 0 && !separates(plain(os), base.last()) && !bare_drive(os, base) {
        base.push(main_separator(os)) + tail
    } else {
        base + tail
    }
}

/// The separator that is written between two components.
pub open spec fn main_separator(os: Os) -> char {
    match os {
        Os::Unix => '/',
        Os::Windows => '\\',
    }
}

/// A separator is found at or behind where it is looked for.
proof fn lemma_separator_from(k: Separators, p: Seq<char>, i: int)
    ensures
        0 <= separator_from(k, p, i) <= p.len(),
        0 <= i <= p.len() ==> i <= separator_from(k, p, i),
    decreases p.len() - i,
{
    if 0 <= i < p.len() && !separates(k, p[i]) {
        lemma_separator_from(k, p, i + 1);
    }
}

/// A prefix lies in its path, and names something of it.
proof fn lemma_prefix(os: Os, p: Seq<char>)
    ensures
        prefix_of(os, p) matches Some(x) ==> 0 <= x.start <= x.middle <= x.len <= p.len()
            && x.start < p.len() + 1 && x.len > 0 && (x.kind == PrefixKind::Drive || x.kind
            == PrefixKind::VerbatimDrive ==> x.start < p.len()),
        0 <= prefix_len(os, p) <= lead(os, p) <= p.len(),
{
    let k = Separators::Both;
    let v = Separators::Backslash;
    lemma_separator_from(k, p, 4);
    lemma_separator_from(k, p, 2);
    lemma_separator_from(k, p, separator_from(k, p, 2) + 1);
    lemma_separator_from(v, p, 4);
    lemma_separator_from(v, p, 8);
    lemma_separator_from(v, p, separator_from(v, p, 8) + 1);
}

/// A path loses at least one character with its last component.
pub proof fn lemma_parent_shorter(os: Os, p: Seq<char>)
    ensures
        parent_of(os, p) matches Some(q) ==> q.len() < p.len(),
{
    let k = separators(os, p);
    let low = lead(os, p);
    lemma_prefix(os, p);
    lemma_cut_end(k, p, low);
    let q = significant(os, p);
    if q.len() > low {
        lemma_name_not_empty(os, p);
        lemma_after_separator(k, q, low);
        lemma_cut_end(k, q.take(last_start(os, p)), low);
    }
}

/// What is left of a path is a beginning of it, and no shorter than `low`.
proof fn lemma_cut_end(k: Separators, p: Seq<char>, low: int)
    ensures
        cut_end(k, p, low).len() <= p.len(),
        cut_end(k, p, low) == p.take(cut_end(k, p, low).len() as int),
        0 <= low <= p.len() ==> low <= cut_end(k, p, low).len(),
    decreases p.len(),
{
    if p.len() <= low || p.len() == 0 {
        assert(p.take(p.len() as int) =~= p);
    } else if separates(k, p.last()) || (k != Separators::Backslash && p.last() == '.' && (p.len()
        - 1 == low || separates(k, p[p.len() - 2]))) {
        lemma_cut_end(k, p.drop_last(), low);
        let n = cut_end(k, p, low).len() as int;
        assert(p.drop_last().take(n) =~= p.take(n));
    } else {
        assert(p.take(p.len() as int) =~= p);
    }
}

/// Where the last component begins.
proof fn lemma_after_separator(k: Separators, p: Seq<char>, low: int)
    requires
        0 <= low <= p.len(),
    ensures
        low <= after_separator(k, p, low) <= p.len(),
        after_separator(k, p, low) > low ==> separates(k, p[after_separator(k, p, low) - 1]),
    decreases p.len(),
{
    if p.len() > low && !separates(k, p.last()) {
        lemma_after_separator(k, p.drop_last(), low);
    }
}

/// A last component has at least one character.
proof fn lemma_name_not_empty(os: Os, p: Seq<char>)
    requires
        significant(os, p).len() > lead(os, p),
    ensures
        last_start(os, p) < significant(os, p).len(),
{
    let k = separators(os, p);
    lemma_prefix(os, p);
    lemma_cut_end(k, p, lead(os, p));
    lemma_cut_end_stops(k, p, lead(os, p));
    lemma_after_separator(k, significant(os, p), lead(os, p));
}

/// What is left of a path ends in no separator, unless it is as short as `low`.
proof fn lemma_cut_end_stops(k: Separators, p: Seq<char>, low: int)
    requires
        low >= 0,
    ensures
        cut_end(k, p, low).len() > low ==> !separates(k, cut_end(k, p, low).last()),
    decreases p.len(),
{
    if p.len() > low && (separates(k, p.last()) || (k != Separators::Backslash && p.last() == '.' && (
    p.len() - 1 == low || separates(k, p[p.len() - 2])))) {
        lemma_cut_end_stops(k, p.drop_last(), low);
    }
}

/// The components of a path, from the first to the last.
pub open spec fn components_of(os: Os, p: Seq<char>) -> Seq<Component<Seq<char>>>
    decreases p.len(),
{
    match (last_component(os, p), parent_of(os, p)) {
        (Some(last), Some(q)) => {
            proof {
                lemma_parent_shorter(os, p);
            }
            components_of(os, q).push(last)
        },
        _ => front_of(os, p),
    }
}

/// The directories above `p`, from the topmost down to `p` itself.
pub open spec fn ancestors_of(os: Os, p: Seq<char>) -> Seq<Seq<char>>
    decreases p.len(),
{
    match parent_of(os, p) {
        None => seq![p],
        Some(q) => {
            proof {
                lemma_parent_shorter(os, p);
            }
            ancestors_of(os, q).push(p)
        },
    }
}

/// Whether `a` comes before `b` in the order of their characters.
pub open spec fn text_before(a: Seq<char>, b: Seq<char>) -> bool
    decreases a.len(),
{
    if b.len() == 0 {
        false
    } else if a.len() == 0 {
        true
    } else if a.first() == b.first() {
        text_before(a.drop_first(), b.drop_first())
    } else {
        (a.first() as int) < (b.first() as int)
    }
}

/// The place of a kind of prefix in the order of prefixes.
pub open spec fn prefix_rank(kind: PrefixKind) -> int {
    match kind {
        PrefixKind::Verbatim => 0,
        PrefixKind::VerbatimShare => 1,
        PrefixKind::VerbatimDrive => 2,
        PrefixKind::Device => 3,
        PrefixKind::Share => 4,
        PrefixKind::Drive => 5,
    }
}

/// The place of a kind of component in the order of components.
pub open spec fn rank(c: Component<Seq<char>>) -> int {
    match c {
        Component::Prefix(_, _, _) => 0,
        Component::Root => 1,
        Component::Current => 2,
        Component::Parent => 3,
        Component::Normal(_) => 4,
    }
}

/// Whether the component `a` comes before the component `b`.
pub open spec fn component_before(a: Component<Seq<char>>, b: Component<Seq<char>>) -> bool {
    match (a, b) {
        (Component::Prefix(k, x, u), Component::Prefix(m, y, v)) => if k != m {
            prefix_rank(k) < prefix_rank(m)
        } else if x != y {
            text_before(x, y)
        } else {
            text_before(u, v)
        },
        (Component::Normal(x), Component::Normal(y)) => text_before(x, y),
        _ => rank(a) < rank(b),
    }
}

/// Whether a list of components comes before another: the first difference
/// decides, and a beginning comes before the whole.
pub open spec fn components_before(
    a: Seq<Component<Seq<char>>>,
    b: Seq<Component<Seq<char>>>,
) -> bool
    decreases a.len(),
{
    if b.len() == 0 {
        false
    } else if a.len() == 0 {
        true
    } else if a.first() == b.first() {
        components_before(a.drop_first(), b.drop_first())
    } else {
        component_before(a.first(), b.first())
    }
}

/// Whether the path `a` comes before the path `b`, component by component.
pub open spec fn path_before(os: Os, a: Seq<char>, b: Seq<char>) -> bool {
    components_before(components_of(os, a), components_of(os, b))
}

/// Whether two paths have the same components.
pub open spec fn same_path(os: Os, a: Seq<char>, b: Seq<char>) -> bool {
    components_of(os, a) == components_of(os, b)
}

/// Text order is a strict total order.
proof fn lemma_text_before(a: Seq<char>, b: Seq<char>, c: Seq<char>)
    ensures
        !text_before(a, a),
        text_before(a, b) && text_before(b, c) ==> text_before(a, c),
        a == b || text_before(a, b) || text_before(b, a),
    decreases a.len(),
{
    if a.len() > 0 {
        let x = a.drop_first();
        let y = if b.len() > 0 { b.drop_first() } else { b };
        let z = if c.len() > 0 { c.drop_first() } else { c };
        lemma_text_before(x, y, z);
        if b.len() > 0 {
            let (p, q): (char, char) = (a.first(), b.first());
            assert(p as int == q as int ==> p == q);
            if p == q && x == y {
                assert(a =~= seq![p] + x);
                assert(b =~= seq![q] + y);
            }
        }
    } else if b.len() == 0 {
        assert(a =~= b);
    }
}

/// The order of components is a strict total order.
proof fn lemma_component_before(
    a: Component<Seq<char>>,
    b: Component<Seq<char>>,
    c: Component<Seq<char>>,
)
    ensures
        !component_before(a, a),
        component_before(a, b) && component_before(b, c) ==> component_before(a, c),
        a == b || component_before(a, b) || component_before(b, a),
{
    let (x, y, z) = (names_in(a), names_in(b), names_in(c));
    lemma_text_before(x.0, y.0, z.0);
    lemma_text_before(x.1, y.1, z.1);
    lemma_text_before(y.0, z.0, z.0);
    lemma_text_before(y.1, z.1, z.1);
}

/// The order of lists of components is a strict total order.
proof fn lemma_components_before(
    a: Seq<Component<Seq<char>>>,
    b: Seq<Component<Seq<char>>>,
    c: Seq<Component<Seq<char>>>,
)
    ensures
        !components_before(a, a),
        components_before(a, b) && components_before(b, c) ==> components_before(a, c),
        a == b || components_before(a, b) || components_before(b, a),
    decreases a.len(),
{
    if a.len() > 0 {
        let x = a.drop_first();
        let y = if b.len() > 0 { b.drop_first() } else { b };
        let z = if c.len() > 0 { c.drop_first() } else { c };
        lemma_components_before(x, y, z);
        if b.len() > 0 {
            if a.first() == b.first() && x == y {
                assert(a =~= seq![a.first()] + x);
                assert(b =~= seq![b.first()] + y);
            }
            let last = if c.len() > 0 { c.first() } else { b.first() };
            lemma_component_before(a.first(), b.first(), last);
            lemma_component_before(b.first(), last, last);
        }
    } else if b.len() == 0 {
        assert(a =~= b);
    }
}

/// The names that a component holds, or no text.
spec fn names_in(c: Component<Seq<char>>) -> (Seq<char>, Seq<char>) {
    match c {
        Component::Prefix(_, a, b) => (a, b),
        Component::Normal(name) => (name, Seq::empty()),
        _ => (Seq::empty(), Seq::empty()),
    }
}

/// The order of paths is a strict total order on what they denote.
pub proof fn law_path_order(os: Os, a: Seq<char>, b: Seq<char>, c: Seq<char>)
    ensures
        same_path(os, a, b) ==> !path_before(os, a, b),
        path_before(os, a, b) && path_before(os, b, c) ==> path_before(os, a, c),
        same_path(os, a, b) || path_before(os, a, b) || path_before(os, b, a),
{
    lemma_components_before(components_of(os, a), components_of(os, b), components_of(os, c));
}

/// What a list of components holds.
pub open spec fn component_views(v: Seq<Component<String>>) -> Seq<Component<Seq<char>>> {
    v.map_values(|c: Component<String>| c@)
}

/// Whether a character separates components.
fn is_separator(k: Separators, c: char) -> (r: bool)
    ensures
        r == separates(k, c),
{
    match k {
        Separators::Slash => c == '/',
        Separators::Both => c == '/' || c == '\\',
        Separators::Backslash => c == '\\',
    }
}

/// The separators of a path that is not verbatim.
fn plain_separators(os: Os) -> (r: Separators)
    ensures
        r == plain(os),
{
    match os {
        Os::Unix => Separators::Slash,
        Os::Windows => Separators::Both,
    }
}

/// The scalar value of a character.
fn scalar(c: char) -> (n: u32)
    ensures
        n as int == c as int,
{
    c as u32
}

/// Whether a character is a letter that can name a drive.
fn is_letter(c: char) -> (r: bool)
    ensures
        r == letter(c),
{
    let n = scalar(c);
    97 <= n && n <= 122 || 65 <= n && n <= 90
}

/// A letter in upper case.
fn to_upper(c: char) -> (r: char)
    ensures
        r == upper(c),
{
    let n = scalar(c);
    if 97 <= n && n <= 122 {
        let m: u8 = (n - 32) as u8;
        m as char
    } else {
        c
    }
}

/// The position of the first separator at `i` or behind it, or the end.
fn find_separator(k: Separators, v: &[char], i: usize) -> (r: usize)
    ensures
        r == separator_from(k, v@, i as int),
        r <= v@.len(),
        i <= v@.len() ==> i <= r,
{
    let mut r: usize = i;
    while r < v.len() && !is_separator(k, v[r])
        invariant
            i <= r,
            i <= v@.len() ==> r <= v@.len(),
            i > v@.len() ==> r == i,
            separator_from(k, v@, i as int) == separator_from(k, v@, r as int),
        decreases v@.len() - r,
    {
        r += 1;
    }
    if r < v.len() {
        r
    } else {
        v.len()
    }
}

/// The prefix of a path that begins with `\\?\`.
fn find_verbatim_prefix(v: &[char]) -> (r: Prefix)
    requires
        v@.len() >= 4,
    ensures
        r@ == verbatim_prefix(v@),
{
    let k = Separators::Backslash;
    if v.len() >= 8 && v[4] == 'U' && v[5] == 'N' && v[6] == 'C' && is_separator(
        Separators::Both,
        v[7],
    ) {
        let middle = find_separator(k, v, 8);
        let len: usize = if middle < v.len() {
            let end = find_separator(k, v, middle + 1);
            if end > middle + 1 {
                end
            } else {
                middle
            }
        } else {
            middle
        };
        return Prefix { kind: PrefixKind::VerbatimShare, start: 8, middle, len };
    }
    if v.len() >= 6 && is_letter(v[4]) && v[5] == ':' && (v.len() == 6 || is_separator(
        Separators::Both,
        v[6],
    )) {
        return Prefix { kind: PrefixKind::VerbatimDrive, start: 4, middle: 5, len: 6 };
    }
    let end = find_separator(k, v, 4);
    Prefix { kind: PrefixKind::Verbatim, start: 4, middle: end, len: end }
}

/// The prefix of a path, if it has one.
fn find_prefix(os: Os, v: &[char]) -> (r: Option<Prefix>)
    ensures
        match r {
            Some(x) => prefix_of(os, v@) == Some(x@),
            None => prefix_of(os, v@) is None,
        },
{
    let k = Separators::Both;
    if os == Os::Unix || v.len() < 2 {
        return None;
    }
    if is_separator(k, v[0]) && is_separator(k, v[1]) {
        if v.len() >= 4 && v[0] == '\\' && v[1] == '\\' && v[2] == '?' && v[3] == '\\' {
            return Some(find_verbatim_prefix(v));
        }
        if v.len() >= 4 && v[2] == '.' && is_separator(k, v[3]) {
            let end = find_separator(k, v, 4);
            return Some(Prefix { kind: PrefixKind::Device, start: 4, middle: end, len: end });
        }
        let middle = find_separator(k, v, 2);
        if middle > 2 && middle < v.len() {
            let end = find_separator(k, v, middle + 1);
            if end > middle + 1 {
                return Some(Prefix { kind: PrefixKind::Share, start: 2, middle, len: end });
            }
        }
        return None;
    }
    if is_letter(v[0]) && v[1] == ':' {
        return Some(Prefix { kind: PrefixKind::Drive, start: 0, middle: 1, len: 2 });
    }
    None
}

/// How the lead of a path is read.
struct Lead {
    prefix: Option<Prefix>,
    separators: Separators,
    root_shown: bool,
    rooted: bool,
    current: bool,
    prefix_len: usize,
    len: usize,
}

/// Reads the lead of a path.
fn read_lead(os: Os, v: &[char]) -> (r: Lead)
    ensures
        match r.prefix {
            Some(x) => prefix_of(os, v@) == Some(x@),
            None => prefix_of(os, v@) is None,
        },
        r.separators == separators(os, v@),
        r.root_shown == root_shown(os, v@),
        r.rooted == has_root(os, v@),
        r.current == starts_at_current(os, v@),
        r.prefix_len == prefix_len(os, v@),
        r.len == lead(os, v@),
        r.prefix_len <= r.len <= v@.len(),
{
    proof {
        lemma_prefix(os, v@);
    }
    let k = plain_separators(os);
    let prefix = find_prefix(os, v);
    let mut n: usize = 0;
    let mut separators = k;
    let mut implied = false;
    if let Some(x) = prefix {
        n = x.len;
        implied = x.kind != PrefixKind::Drive;
        if x.kind == PrefixKind::Verbatim || x.kind == PrefixKind::VerbatimShare || x.kind
            == PrefixKind::VerbatimDrive {
            separators = Separators::Backslash;
        }
    }
    let root_shown = n < v.len() && is_separator(k, v[n]);
    let rooted = root_shown || implied;
    let current = !rooted && n < v.len() && v[n] == '.' && (v.len() - n == 1 || is_separator(
        k,
        v[n + 1],
    ));
    let len: usize = if root_shown || current {
        n + 1
    } else {
        n
    };
    Lead { prefix, separators, root_shown, rooted, current, prefix_len: n, len }
}

/// Whether the path is absolute.
pub fn is_absolute(os: Os, p: &str) -> (r: bool)
    ensures
        r == absolute(os, p@),
{
    let v = to_chars(p);
    let l = read_lead(os, v.as_slice());
    l.rooted && (os == Os::Unix || l.prefix.is_some())
}

/// The length that is left of the first `n` characters of `v` without what is
/// of no significance at their end, down to the length `low`.
fn cut_len(k: Separators, v: &[char], n: usize, low: usize) -> (r: usize)
    requires
        n <= v@.len(),
    ensures
        r <= n,
        v@.take(r as int) == cut_end(k, v@.take(n as int), low as int),
{
    let mut r: usize = n;
    while r > low && (is_separator(k, v[r - 1]) || (k != Separators::Backslash && v[r - 1] == '.' && (r
        - 1 == low || is_separator(k, v[r - 2]))))
        invariant
            r <= n <= v@.len(),
            cut_end(k, v@.take(n as int), low as int) == cut_end(k, v@.take(r as int), low as int),
        decreases r,
    {
        assert(v@.take(r as int).drop_last() =~= v@.take(r - 1));
        r -= 1;
    }
    r
}

/// The position behind the last separator of the first `n` characters of `v`
/// that is not below `low`, or `low`.
fn separator_len(k: Separators, v: &[char], n: usize, low: usize) -> (r: usize)
    requires
        low <= n <= v@.len(),
    ensures
        low <= r <= n,
        r == after_separator(k, v@.take(n as int), low as int),
{
    let mut r: usize = n;
    while r > low && !is_separator(k, v[r - 1])
        invariant
            low <= r <= n <= v@.len(),
            after_separator(k, v@.take(n as int), low as int) == after_separator(
                k,
                v@.take(r as int),
                low as int,
            ),
        decreases r,
    {
        assert(v@.take(r as int).drop_last() =~= v@.take(r - 1));
        r -= 1;
    }
    r
}

/// Where the last component of a path lies: its start and its end.
fn last_span(l: &Lead, os: Os, v: &[char]) -> (r: (usize, usize))
    requires
        l.separators == separators(os, v@),
        l.len == lead(os, v@),
        l.len <= v@.len(),
    ensures
        l.len <= r.0 <= r.1 <= v@.len(),
        v@.take(r.1 as int) == significant(os, v@),
        r.0 == last_start(os, v@),
{
    assert(v@.take(v@.len() as int) =~= v@);
    proof {
        lemma_cut_end(l.separators, v@, l.len as int);
    }
    let end = cut_len(l.separators, v, v.len(), l.len);
    (separator_len(l.separators, v, end, l.len), end)
}

/// The path without its last component; a root, a prefix and an empty path
/// have none.
pub fn parent(os: Os, p: &str) -> (r: Option<String>)
    ensures
        match r {
            Some(q) => parent_of(os, p@) == Some(q@),
            None => parent_of(os, p@) is None,
        },
{
    let v = to_chars(p);
    let l = read_lead(os, v.as_slice());
    let (start, end) = last_span(&l, os, v.as_slice());
    if end > l.len {
        let n = cut_len(l.separators, v.as_slice(), start, l.len);
        assert(v@.take(end as int).take(start as int) =~= v@.take(start as int));
        Some(from_chars(slice_subrange(v.as_slice(), 0, n)))
    } else if l.current && l.prefix.is_none() {
        Some(String::new())
    } else {
        None
    }
}

/// The last component of the path behind its lead, if there is one.
pub fn last(os: Os, p: &str) -> (r: Option<Component<String>>)
    ensures
        match r {
            Some(c) => last_component(os, p@) == Some(c@),
            None => last_component(os, p@) is None,
        },
{
    let v = to_chars(p);
    let l = read_lead(os, v.as_slice());
    let (start, end) = last_span(&l, os, v.as_slice());
    if end > l.len {
        let name = slice_subrange(v.as_slice(), start, end);
        assert(name@ =~= v@.take(end as int).skip(start as int));
        if name.len() == 2 && name[0] == '.' && name[1] == '.' {
            assert(name@ =~= seq!['.', '.']);
            Some(Component::Parent)
        } else if name.len() == 1 && name[0] == '.' {
            assert(name@ =~= seq!['.']);
            Some(Component::Current)
        } else {
            Some(Component::Normal(from_chars(name)))
        }
    } else {
        None
    }
}

/// The last component, if it is a name.
pub fn file_name(os: Os, p: &str) -> (r: Option<String>)
    ensures
        match r {
            Some(name) => file_name_of(os, p@) == Some(name@),
            None => file_name_of(os, p@) is None,
        },
{
    match last(os, p) {
        Some(Component::Normal(name)) => Some(name),
        _ => None,
    }
}

/// The components in the lead of a path: its prefix, and its root or `.`.
fn front(os: Os, p: &str) -> (r: Vec<Component<String>>)
    ensures
        component_views(r@) == front_of(os, p@),
{
    let v = to_chars(p);
    let l = read_lead(os, v.as_slice());
    proof {
        lemma_prefix(os, p@);
    }
    let mut r: Vec<Component<String>> = Vec::new();
    match l.prefix {
        Some(x) => {
            let first = if x.kind == PrefixKind::Drive || x.kind == PrefixKind::VerbatimDrive {
                let mut s = String::new();
                s.push(to_upper(v[x.start]));
                assert(s@ =~= seq![upper(p@[x.start as int])]);
                s
            } else {
                from_chars(slice_subrange(v.as_slice(), x.start, x.middle))
            };
            let second = if (x.kind == PrefixKind::Share || x.kind == PrefixKind::VerbatimShare)
                && x.middle < x.len {
                from_chars(slice_subrange(v.as_slice(), x.middle + 1, x.len))
            } else {
                String::new()
            };
            r.push(Component::Prefix(x.kind, first, second));
            if l.root_shown || (l.rooted && l.separators != Separators::Backslash) {
                r.push(Component::Root);
            }
        },
        None => if l.root_shown {
            r.push(Component::Root);
        } else if l.current {
            r.push(Component::Current);
        },
    }
    assert(component_views(r@) =~= front_of(os, p@));
    r
}

/// The components of a path, from the first to the last.
pub fn components(os: Os, p: &str) -> (r: Vec<Component<String>>)
    ensures
        component_views(r@) == components_of(os, p@),
    decreases p@.len(),
{
    let c = match last(os, p) {
        None => {
            return front(os, p);
        },
        Some(c) => c,
    };
    match parent(os, p) {
        None => front(os, p),
        Some(q) => {
            proof {
                lemma_parent_shorter(os, p@);
            }
            let mut r = components(os, q.as_str());
            let ghost before = component_views(r@);
            r.push(c);
            assert(component_views(r@) =~= before.push(c@));
            r
        },
    }
}

/// The directories above `p`, from the topmost down to `p` itself.
pub fn ancestors(os: Os, p: &str) -> (r: Vec<String>)
    ensures
        texts(r@) == ancestors_of(os, p@),
    decreases p@.len(),
{
    let mut r: Vec<String> = Vec::new();
    if let Some(q) = parent(os, p) {
        proof {
            lemma_parent_shorter(os, p@);
        }
        r = ancestors(os, q.as_str());
    }
    let ghost before = texts(r@);
    r.push(p.to_owned());
    assert(texts(r@) =~= before.push(p@));
    assert(texts(r@) =~= ancestors_of(os, p@));
    r
}

/// Adds a component of another path to those of a verbatim path.
fn add_component(list: &mut Vec<Component<String>>, c: Component<String>)
    ensures
        component_views(final(list)@) == added(component_views(old(list)@), c@),
{
    let ghost before = component_views(list@);
    match c {
        Component::Root => {
            list.truncate(1);
            list.push(Component::Root);
        },
        Component::Current => {},
        Component::Parent => {
            if list.len() > 0 {
                let named = match &list[list.len() - 1] {
                    Component::Normal(_) => true,
                    _ => false,
                };
                assert(before.last() == list@.last()@);
                if named {
                    list.pop();
                }
            }
        },
        Component::Prefix(kind, a, b) => {
            list.push(Component::Prefix(kind, a, b));
        },
        Component::Normal(name) => {
            list.push(Component::Normal(name));
        },
    }
    assert(component_views(list@) =~= added(before, c@));
}

/// The text of a verbatim path whose prefix is written `prefix`.
fn write_verbatim(prefix: &str, list: &Vec<Component<String>>) -> (r: String)
    ensures
        r@ == verbatim_text(prefix@, component_views(list@)),
{
    let ghost all = component_views(list@);
    let mut r = String::new();
    let mut i: usize = 0;
    let mut joint = false;
    assert(r@ =~= verbatim_text(prefix@, all.take(0)));
    while i < list.len()
        invariant
            i <= list@.len(),
            all == component_views(list@),
            joint == (i > 0 && !(all[i - 1] is Root)),
            r@ == verbatim_text(prefix@, all.take(i as int)),
        decreases list@.len() - i,
    {
        let ghost before = r@;
        let ghost c = all[i as int];
        assert(all.take(i + 1).drop_last() =~= all.take(i as int));
        assert(all.take(i + 1).last() == c);
        assert(c == list@[i as int]@);
        assert(i > 0 ==> all.take(i as int).last() == all[i - 1]);
        let is_root = match &list[i] {
            Component::Root => true,
            _ => false,
        };
        if joint && !is_root {
            r.push('\\');
        }
        let ghost middle = r@;
        match &list[i] {
            Component::Prefix(_, _, _) => r.append(prefix),
            Component::Root => r.push('\\'),
            Component::Current => r.push('.'),
            Component::Parent => {
                r.push('.');
                r.push('.');
            },
            Component::Normal(name) => r.append(name.as_str()),
        }
        assert(r@ =~= middle + component_text(prefix@, c));
        joint = !is_root;
        i += 1;
    }
    assert(all.take(i as int) =~= all);
    r
}

/// `base`, which is verbatim, followed by `tail`.
fn join_verbatim(os: Os, base: &str, prefix: &str, tail: &str) -> (r: String)
    ensures
        r@ == verbatim_text(
            prefix@,
            all_added(components_of(os, base@), components_of(os, tail@)),
        ),
{
    let mut list = components(os, base);
    let mut more = components(os, tail);
    let ghost first = component_views(list@);
    let ghost all = component_views(more@);
    let n: usize = more.len();
    let mut i: usize = 0;
    assert(all.take(0) =~= Seq::<Component<Seq<char>>>::empty());
    assert(all.skip(0) =~= all);
    while i < n
        invariant
            i <= n == all.len(),
            component_views(more@) == all.skip(i as int),
            component_views(list@) == all_added(first, all.take(i as int)),
        decreases n - i,
    {
        let ghost left = component_views(more@);
        assert(left.len() == more@.len());
        let c = more.remove(0);
        assert(component_views(more@) =~= left.drop_first());
        assert(left.drop_first() =~= all.skip(i + 1));
        assert(all.take(i + 1).drop_last() =~= all.take(i as int));
        assert(all.take(i + 1).last() == all[i as int]);
        assert(c@ == left[0]);
        add_component(&mut list, c);
        i += 1;
    }
    assert(all.take(i as int) =~= all);
    write_verbatim(prefix, &list)
}

/// `base` followed by `tail`.
pub fn join(os: Os, base: &str, tail: &str) -> (r: String)
    ensures
        r@ == join_of(os, base@, tail@),
{
    let t = to_chars(tail);
    let l = read_lead(os, t.as_slice());
    if l.prefix.is_some() || (l.rooted && os == Os::Unix) {
        return tail.to_owned();
    }
    let v = to_chars(base);
    let b = read_lead(os, v.as_slice());
    let prefix = from_chars(slice_subrange(v.as_slice(), 0, b.prefix_len));
    assert(prefix@ =~= base@.take(prefix_len(os, base@)));
    if b.separators == Separators::Backslash && t.len() > 0 {
        return join_verbatim(os, base, prefix.as_str(), tail);
    }
    if l.rooted {
        let mut r = prefix;
        r.append(tail);
        return r;
    }
    let drive = match b.prefix {
        Some(x) => x.kind == PrefixKind::Drive && v.len() == x.len,
        None => false,
    };
    let mut r = base.to_owned();
    if v.len() > 0 && !is_separator(plain_separators(os), v[v.len() - 1]) && !drive {
        match os {
            Os::Unix => r.push('/'),
            Os::Windows => r.push('\\'),
        }
    }
    r.append(tail);
    r
}

/// The length of a file name without its extension.
fn stem(name: &[char]) -> (r: usize)
    ensures
        r == stem_len(name@),
        r <= name@.len(),
{
    let mut i: usize = name.len();
    assert(name@.take(i as int) =~= name@);
    while i > 0
        invariant
            i <= name@.len(),
            last_dot(name@) == last_dot(name@.take(i as int)),
        decreases i,
    {
        assert(name@.take(i as int).drop_last() =~= name@.take(i - 1));
        if name[i - 1] == '.' {
            return if i > 1 {
                i - 1
            } else {
                name.len()
            };
        }
        i -= 1;
    }
    name.len()
}

/// Whether the file name of `p` has an extension.
pub fn extension_is_some(os: Os, p: &str) -> (r: bool)
    ensures
        r == has_extension(os, p@),
{
    match file_name(os, p) {
        None => false,
        Some(name) => {
            let v = to_chars(name.as_str());
            stem(v.as_slice()) < v.len()
        },
    }
}

/// `p` with `ext` as the extension of its file name, if it has a file name;
/// an empty `ext` takes the extension away.
pub fn with_extension(os: Os, p: &str, ext: &str) -> (r: String)
    ensures
        r@ == with_extension_of(os, p@, ext@),
{
    let name = match file_name(os, p) {
        None => {
            return p.to_owned();
        },
        Some(name) => to_chars(name.as_str()),
    };
    let v = to_chars(p);
    let l = read_lead(os, v.as_slice());
    let (start, end) = last_span(&l, os, v.as_slice());
    let n = stem(name.as_slice());
    let ghost q = significant(os, p@);
    assert(name@ == q.skip(start as int));
    let mut r = from_chars(slice_subrange(v.as_slice(), 0, start + n));
    assert(r@ =~= q.take(q.len() - name@.len() + n));
    if !ext.is_empty() {
        r.push('.');
        r.append(ext);
        assert(r@ =~= q.take(q.len() - name@.len() + n) + seq!['.'] + ext@);
    }
    r
}

/// Whether `a` comes before `b` in the order of their characters.
fn text_less(a: &[char], b: &[char]) -> (r: bool)
    ensures
        r == text_before(a@, b@),
{
    let mut i: usize = 0;
    assert(a@.skip(0) =~= a@);
    assert(b@.skip(0) =~= b@);
    while i < a.len() && i < b.len()
        invariant
            i <= a@.len(),
            i <= b@.len(),
            text_before(a@, b@) == text_before(a@.skip(i as int), b@.skip(i as int)),
        decreases a@.len() - i,
    {
        if a[i] != b[i] {
            return scalar(a[i]) < scalar(b[i]);
        }
        assert(a@.skip(i as int).drop_first() =~= a@.skip(i + 1));
        assert(b@.skip(i as int).drop_first() =~= b@.skip(i + 1));
        i += 1;
    }
    i < b.len()
}

/// How the component `a` stands to `b`: whether they are equal, and whether
/// `a` comes before `b`.
fn component_order(a: &Component<String>, b: &Component<String>) -> (r: (bool, bool))
    ensures
        r.0 == (a@ == b@),
        r.1 == component_before(a@, b@),
{
    match (a, b) {
        (Component::Prefix(k, x, u), Component::Prefix(m, y, v)) => if *k != *m {
            (false, rank_of_prefix(*k) < rank_of_prefix(*m))
        } else if !same(x.as_str(), y.as_str()) {
            let s = to_chars(x.as_str());
            let t = to_chars(y.as_str());
            (false, text_less(s.as_slice(), t.as_slice()))
        } else {
            let s = to_chars(u.as_str());
            let t = to_chars(v.as_str());
            (same(u.as_str(), v.as_str()), text_less(s.as_slice(), t.as_slice()))
        },
        (Component::Normal(x), Component::Normal(y)) => {
            let u = to_chars(x.as_str());
            let v = to_chars(y.as_str());
            (same(x.as_str(), y.as_str()), text_less(u.as_slice(), v.as_slice()))
        },
        _ => {
            let m = component_rank(a);
            let n = component_rank(b);
            (m == n, m < n)
        },
    }
}

/// The place of a kind of prefix in the order of prefixes.
fn rank_of_prefix(kind: PrefixKind) -> (r: u8)
    ensures
        r == prefix_rank(kind),
{
    match kind {
        PrefixKind::Verbatim => 0,
        PrefixKind::VerbatimShare => 1,
        PrefixKind::VerbatimDrive => 2,
        PrefixKind::Device => 3,
        PrefixKind::Share => 4,
        PrefixKind::Drive => 5,
    }
}

/// The place of a kind of component in the order of components.
fn component_rank(c: &Component<String>) -> (r: u8)
    ensures
        r == rank(c@),
{
    match c {
        Component::Prefix(_, _, _) => 0,
        Component::Root => 1,
        Component::Current => 2,
        Component::Parent => 3,
        Component::Normal(_) => 4,
    }
}

/// How the path `a` stands to `b`: whether they have the same components,
/// and whether `a` comes before `b`.
pub fn order(os: Os, a: &str, b: &str) -> (r: (bool, bool))
    ensures
        r.0 == same_path(os, a@, b@),
        r.1 == path_before(os, a@, b@),
{
    let x = components(os, a);
    let y = components(os, b);
    let ghost u = components_of(os, a@);
    let ghost v = components_of(os, b@);
    let mut i: usize = 0;
    assert(u.skip(0) =~= u);
    assert(v.skip(0) =~= v);
    while i < x.len() && i < y.len()
        invariant
            i <= x@.len(),
            i <= y@.len(),
            component_views(x@) == u,
            component_views(y@) == v,
            u == components_of(os, a@),
            v == components_of(os, b@),
            u.take(i as int) == v.take(i as int),
            components_before(u, v) == components_before(u.skip(i as int), v.skip(i as int)),
        decreases x@.len() - i,
    {
        let (equal, before) = component_order(&x[i], &y[i]);
        assert(u[i as int] == x@[i as int]@);
        assert(v[i as int] == y@[i as int]@);
        if !equal {
            return (false, before);
        }
        assert(u.skip(i as int).drop_first() =~= u.skip(i + 1));
        assert(v.skip(i as int).drop_first() =~= v.skip(i + 1));
        assert(u.take(i + 1) =~= u.take(i as int).push(u[i as int]));
        assert(v.take(i + 1) =~= v.take(i as int).push(v[i as int]));
        i += 1;
    }
    proof {
        if x@.len() == y@.len() {
            assert(u.take(i as int) =~= u);
            assert(v.take(i as int) =~= v);
        }
    }
    (x.len() == y.len(), i < y.len())
}

} // verus!
