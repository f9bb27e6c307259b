//! What holds of Windows paths: their prefixes, and paths in the verbatim form
//! that canonical paths have.
use crate::path::{
    absolute, added, after_separator, all_added, component_before, components_of, cut_end,
    file_name_of, front_of, has_extension, has_root, is_verbatim, join_of, last_component,
    last_start, lead, letter, parent_of, prefix_of, same_path, separator_from, separators,
    significant, starts_at_current, upper, verbatim_prefix, verbatim_text, with_extension_of,
    Component, Os, PrefixKind, PrefixView, Separators,
};
use crate::path_laws::{between, on_drive, one_component, one_name, relative_on_windows, undivided};
use crate::text_laws::free_of;
use vstd::prelude::*;

verus! {

/// Whether a path is a verbatim one on a drive, with its root: `\\?\C:\`, and
/// something behind it or nothing.
pub open spec fn on_verbatim_drive(p: Seq<char>) -> bool {
    &&& p.len() >= 7
    &&& p[0] == '\\' && p[1] == '\\' && p[2] == '?' && p[3] == '\\'
    &&& letter(p[4])
    &&& p[5] == ':'
    &&& p[6] == '\\'
}

/// How a verbatim path on a drive is read.
proof fn lemma_verbatim_lead(p: Seq<char>)
    requires
        on_verbatim_drive(p),
    ensures
        prefix_of(Os::Windows, p) == Some(
            PrefixView { kind: PrefixKind::VerbatimDrive, start: 4, middle: 5, len: 6 },
        ),
        lead(Os::Windows, p) == 7,
        separators(Os::Windows, p) == Separators::Backslash,
        is_verbatim(Os::Windows, p),
        has_root(Os::Windows, p),
{
}

/// A name is all that stands behind the last `\`.
proof fn lemma_last_verbatim_name(front: Seq<char>, name: Seq<char>, low: int)
    requires
        0 <= low <= front.len(),
        front.len() > low ==> front.last() == '\\',
        free_of(name, '\\'),
    ensures
        after_separator(Separators::Backslash, front + name, low) == front.len(),
    decreases name.len(),
{
    let p = front + name;
    if name.len() == 0 {
        assert(p =~= front);
    } else {
        assert(p.last() == name[name.len() - 1]);
        assert(p.drop_last() =~= front + name.drop_last());
        assert forall|i: int| 0 <= i < name.len() - 1 implies #[trigger] name.drop_last()[i] != '\\' by {
            assert(name[i] != '\\');
        }
        lemma_last_verbatim_name(front, name.drop_last(), low);
    }
}

/// A verbatim path `dir\name` lies in `dir`, in which a `/` and a `.` are
/// characters like others.
pub proof fn law_path_in_verbatim_directory(dir: Seq<char>, name: Seq<char>)
    requires
        on_verbatim_drive(dir),
        dir.len() == 7 || dir.last() != '\\',
        name.len() > 0,
        free_of(name, '\\'),
    ensures
        ({
            let p = if dir.len() == 7 {
                dir + name
            } else {
                dir.push('\\') + name
            };
            &&& parent_of(Os::Windows, p) == Some(dir)
            &&& name != "."@ && name != ".."@ ==> file_name_of(Os::Windows, p) == Some(name)
            &&& components_of(Os::Windows, p) == components_of(Os::Windows, dir).push(
                if name == ".."@ {
                    Component::Parent
                } else if name == "."@ {
                    Component::Current
                } else {
                    Component::Normal(name)
                },
            )
        }),
{
    reveal_strlit(".");
    reveal_strlit("..");
    assert("."@ =~= seq!['.']);
    assert(".."@ =~= seq!['.', '.']);
    let front = if dir.len() == 7 {
        dir
    } else {
        dir.push('\\')
    };
    let p = front + name;
    assert(on_verbatim_drive(p)) by {
        assert(p[0] == dir[0] && p[1] == dir[1] && p[2] == dir[2] && p[3] == dir[3] && p[4]
            == dir[4] && p[5] == dir[5] && p[6] == dir[6]);
    }
    lemma_verbatim_lead(p);
    assert(p.last() == name[name.len() - 1]);
    assert(significant(Os::Windows, p) == p);
    lemma_last_verbatim_name(front, name, 7);
    assert(p.skip(front.len() as int) =~= name);
    assert(p.take(front.len() as int) =~= front);
    assert(front.drop_last() =~= if dir.len() == 7 {
        dir.drop_last()
    } else {
        dir
    });
    if dir.len() > 7 {
        assert(front.last() == '\\');
        assert(cut_end(Separators::Backslash, front, 7) == cut_end(Separators::Backslash, dir, 7));
    }
    assert(cut_end(Separators::Backslash, dir, 7) == dir);
}

/// The components of the root of a verbatim drive.
proof fn lemma_verbatim_root(root: Seq<char>)
    requires
        on_verbatim_drive(root),
        root.len() == 7,
    ensures
        components_of(Os::Windows, root) == front_of(Os::Windows, root),
        components_of(Os::Windows, root).len() == 2,
        components_of(Os::Windows, root)[0] is Prefix,
        components_of(Os::Windows, root)[1] is Root,
{
    lemma_verbatim_lead(root);
    assert(significant(Os::Windows, root) == root);
}

/// The components of a relative path on Windows: of a name, and of a name
/// behind `./` and behind `../`.
proof fn lemma_relative_components(name: Seq<char>)
    requires
        one_name(Os::Windows, name),
        relative_on_windows(name),
    ensures
        components_of(Os::Windows, name) == seq![Component::Normal(name)],
        components_of(Os::Windows, "./"@ + name) == seq![
            Component::Current,
            Component::Normal(name),
        ],
        components_of(Os::Windows, "../"@ + name) == seq![
            Component::Parent,
            Component::Normal(name),
        ],
{
    reveal_strlit("./");
    reveal_strlit("../");
    let none = Seq::<char>::empty();
    assert(none + name =~= name);
    lemma_relative_span(none, name);
    lemma_relative_span("./"@, name);
    lemma_relative_span("../"@, name);
    assert(components_of(Os::Windows, none) =~= Seq::empty());
    let dot = seq!['.'];
    let dots = seq!['.', '.'];
    assert("./"@.drop_last() =~= dot);
    assert(cut_end(Separators::Both, dot, 1) == dot);
    assert(cut_end(Separators::Both, "./"@, 1) == dot);
    assert(starts_at_current(Os::Windows, dot));
    assert(significant(Os::Windows, dot) == dot);
    assert(components_of(Os::Windows, dot) =~= seq![Component::Current]);
    assert("../"@.drop_last() =~= dots);
    assert(cut_end(Separators::Both, "../"@, 0) == cut_end(Separators::Both, dots, 0));
    assert(cut_end(Separators::Both, dots, 0) == dots);
    lemma_relative_span(none, dots);
    assert(none + dots =~= dots);
    assert(components_of(Os::Windows, dots) =~= seq![Component::Parent]);
    assert(components_of(Os::Windows, name) =~= seq![Component::Normal(name)]);
    assert(components_of(Os::Windows, "./"@ + name) =~= seq![
        Component::Current,
        Component::Normal(name),
    ]);
    assert(components_of(Os::Windows, "../"@ + name) =~= seq![
        Component::Parent,
        Component::Normal(name),
    ]);
}

/// How a relative path on Windows is read: `front` is empty, `./` or `../`.
proof fn lemma_relative_span(front: Seq<char>, name: Seq<char>)
    requires
        one_component(Os::Windows, name),
        relative_on_windows(name),
        front.len() == 0 || front == "./"@ || front == "../"@,
    ensures
        ({
            let p = front + name;
            let low = if front == "./"@ {
                1int
            } else {
                0int
            };
            &&& prefix_of(Os::Windows, p) is None
            &&& lead(Os::Windows, p) == low
            &&& last_component(Os::Windows, p) == Some(
                if name == seq!['.', '.'] {
                    Component::Parent
                } else {
                    Component::Normal(name)
                },
            )
            &&& parent_of(Os::Windows, p) == Some(cut_end(Separators::Both, front, low))
        }),
{
    reveal_strlit("./");
    reveal_strlit("../");
    let p = front + name;
    assert(!between(Os::Windows, name[0]));
    if front.len() == 0 {
        assert(p =~= name);
        if p[0] == '.' && p.len() == 1 {
            assert(name =~= seq!['.']);
        }
        if p.len() > 1 {
            assert(!between(Os::Windows, name[1]));
        }
    } else {
        assert(p[0] == '.');
    }
    assert(prefix_of(Os::Windows, p) is None);
    crate::path_laws::lemma_span(Os::Windows, front, name);
}

/// The components of a verbatim path with one or two more.
proof fn lemma_two_added(
    list: Seq<Component<Seq<char>>>,
    a: Component<Seq<char>>,
    b: Component<Seq<char>>,
)
    ensures
        all_added(list, seq![b]) == added(list, b),
        all_added(list, seq![a, b]) == added(added(list, a), b),
{
    reveal_with_fuel(all_added, 3);
    let none = Seq::<Component<Seq<char>>>::empty();
    assert(seq![b].drop_last() =~= none);
    assert(seq![a, b].drop_last() =~= seq![a]);
    assert(seq![a].drop_last() =~= none);
    assert(all_added(list, none) == list);
}

/// A name that is joined to the root of a verbatim drive stands behind it, and
/// one that is joined to `dir\name` behind that and a `\`, where `dir` is
/// written with what it is made of.
pub proof fn law_joined_to_verbatim(root: Seq<char>, dir: Seq<char>, name: Seq<char>, tail: Seq<char>)
    requires
        on_verbatim_drive(root),
        root.len() == 7,
        on_verbatim_drive(dir),
        dir.len() == 7 || dir.last() != '\\',
        one_name(Os::Windows, name),
        relative_on_windows(name),
        one_name(Os::Windows, tail),
        relative_on_windows(tail),
    ensures
        join_of(Os::Windows, root, name) == root + name,
        ({
            let p = if dir.len() == 7 {
                dir + name
            } else {
                dir.push('\\') + name
            };
            join_of(Os::Windows, p, tail) == join_of(Os::Windows, dir, name) + "\\"@ + tail
        }),
{
    reveal_strlit("\\");
    reveal_strlit(".");
    reveal_strlit("..");
    assert("."@ =~= seq!['.']);
    assert(".."@ =~= seq!['.', '.']);
    lemma_relative_components(name);
    lemma_relative_components(tail);
    let none = Seq::<char>::empty();
    assert(none + name =~= name);
    assert(none + tail =~= tail);
    lemma_relative_span(none, name);
    lemma_relative_span(none, tail);
    lemma_verbatim_root(root);
    lemma_verbatim_lead(root);
    let top = components_of(Os::Windows, root);
    let x = Component::Normal(name);
    let y = Component::Normal(tail);
    lemma_two_added(top, x, x);
    let prefix = root.take(6);
    reveal_with_fuel(verbatim_text, 4);
    assert(top.push(x).drop_last() =~= top);
    assert(top.drop_last().len() == 1);
    assert(top.drop_last().last() == top[0]);
    assert(top.drop_last().drop_last().len() == 0);
    assert(verbatim_text(prefix, top.drop_last()) =~= prefix);
    assert(verbatim_text(prefix, top) =~= root) by {
        assert(root =~= prefix + seq!['\\']);
    }
    assert(join_of(Os::Windows, root, name) =~= root + name);
    let p = if dir.len() == 7 {
        dir + name
    } else {
        dir.push('\\') + name
    };
    assert(free_of(name, '\\')) by {
        assert forall|i: int| 0 <= i < name.len() implies #[trigger] name[i] != '\\' by {
            assert(!between(Os::Windows, name[i]));
        }
    }
    law_path_in_verbatim_directory(dir, name);
    assert(on_verbatim_drive(p)) by {
        assert(p[0] == dir[0] && p[1] == dir[1] && p[2] == dir[2] && p[3] == dir[3] && p[4]
            == dir[4] && p[5] == dir[5] && p[6] == dir[6]);
    }
    lemma_verbatim_lead(dir);
    lemma_verbatim_lead(p);
    assert(p.take(6) =~= dir.take(6));
    let list = components_of(Os::Windows, dir);
    lemma_two_added(list, x, x);
    lemma_two_added(list.push(x), y, y);
    assert(list.push(x).push(y).drop_last() =~= list.push(x));
    assert(list.push(x).push(y).last() == y);
    assert(list.push(x).last() == x);
    assert(join_of(Os::Windows, p, tail) =~= join_of(Os::Windows, dir, name) + "\\"@ + tail);
}

/// In a verbatim path nothing is left of a `./` or a `../` that is joined to
/// it: the former changes nothing, and the latter goes one directory up.
pub proof fn law_dots_joined_to_verbatim(dir: Seq<char>, name: Seq<char>, tail: Seq<char>)
    requires
        on_verbatim_drive(dir),
        dir.len() == 7 || dir.last() != '\\',
        one_name(Os::Windows, name),
        one_name(Os::Windows, tail),
        relative_on_windows(tail),
    ensures
        join_of(Os::Windows, dir, "./"@ + tail) == join_of(Os::Windows, dir, tail),
        ({
            let p = if dir.len() == 7 {
                dir + name
            } else {
                dir.push('\\') + name
            };
            join_of(Os::Windows, p, "../"@ + tail) == join_of(Os::Windows, dir, tail)
        }),
{
    reveal_strlit("./");
    reveal_strlit("../");
    reveal_strlit(".");
    reveal_strlit("..");
    assert("."@ =~= seq!['.']);
    assert(".."@ =~= seq!['.', '.']);
    lemma_relative_components(tail);
    let none = Seq::<char>::empty();
    assert(none + tail =~= tail);
    lemma_relative_span(none, tail);
    lemma_relative_span("./"@, tail);
    lemma_relative_span("../"@, tail);
    let p = if dir.len() == 7 {
        dir + name
    } else {
        dir.push('\\') + name
    };
    assert(free_of(name, '\\')) by {
        assert forall|i: int| 0 <= i < name.len() implies #[trigger] name[i] != '\\' by {
            assert(!between(Os::Windows, name[i]));
        }
    }
    law_path_in_verbatim_directory(dir, name);
    assert(on_verbatim_drive(p)) by {
        assert(p[0] == dir[0] && p[1] == dir[1] && p[2] == dir[2] && p[3] == dir[3] && p[4]
            == dir[4] && p[5] == dir[5] && p[6] == dir[6]);
    }
    lemma_verbatim_lead(dir);
    lemma_verbatim_lead(p);
    assert(p.take(6) =~= dir.take(6));
    let list = components_of(Os::Windows, dir);
    let x = Component::Normal(name);
    let y = Component::Normal(tail);
    lemma_two_added(list, Component::Current, y);
    lemma_two_added(list.push(x), Component::Parent, y);
    assert(list.push(x).drop_last() =~= list);
}

/// Whether a text can be the name of a server or of a share.
pub open spec fn share_name(s: Seq<char>) -> bool {
    s.len() > 0 && free_of(s, '\\') && free_of(s, '/')
}

/// The first separator behind a text without any.
proof fn lemma_separator_behind(front: Seq<char>, s: Seq<char>, rest: Seq<char>, i: int)
    requires
        front.len() <= i <= front.len() + s.len(),
        free_of(s, '\\'),
        free_of(s, '/'),
        rest.len() > 0 ==> rest[0] == '\\',
    ensures
        separator_from(Separators::Both, front + s + rest, i) == front.len() + s.len(),
    decreases front.len() + s.len() - i,
{
    let p = front + s + rest;
    if i < front.len() + s.len() {
        assert(p[i] == s[i - front.len()]);
        lemma_separator_behind(front, s, rest, i + 1);
    } else if rest.len() > 0 {
        assert(p[i] == rest[0]);
    }
}

/// A path `\\server\share` is absolute, and its first components are the share
/// and the root, which it has even where it is not written; a path below it
/// begins with the same. A relative path that is joined to it stands behind it.
pub proof fn law_share(server: Seq<char>, share: Seq<char>, name: Seq<char>)
    requires
        share_name(server),
        server != "."@,
        server != "?"@,
        share_name(share),
        one_name(Os::Windows, name),
        relative_on_windows(name),
    ensures
        ({
            let top = "\\\\"@ + server + "\\"@ + share;
            let whole = Component::Prefix(PrefixKind::Share, server, share);
            &&& absolute(Os::Windows, top)
            &&& parent_of(Os::Windows, top) is None
            &&& components_of(Os::Windows, top) == seq![whole, Component::Root]
            &&& absolute(Os::Windows, top + "\\"@ + name)
            &&& file_name_of(Os::Windows, top + "\\"@ + name) == Some(name)
            &&& parent_of(Os::Windows, top + "\\"@ + name) == Some(top + "\\"@)
            &&& join_of(Os::Windows, top, name) == top + "\\"@ + name
        }),
{
    reveal_strlit("\\\\");
    reveal_strlit("\\");
    reveal_strlit(".");
    reveal_strlit("?");
    let two = "\\\\"@;
    let none = Seq::<char>::empty();
    let top = two + server + "\\"@ + share;
    let front = top + "\\"@;
    let p = front + name;
    let m = 2 + server.len();
    let n = m + 1 + share.len();
    lemma_separator_behind(two, server, "\\"@ + share, 2);
    assert(two + server + ("\\"@ + share) =~= top);
    lemma_separator_behind(two + server + "\\"@, share, none, m as int + 1);
    assert(two + server + "\\"@ + share + none =~= top);
    lemma_separator_behind(two, server, "\\"@ + share + "\\"@ + name, 2);
    assert(two + server + ("\\"@ + share + "\\"@ + name) =~= p);
    lemma_separator_behind(two + server + "\\"@, share, "\\"@ + name, m as int + 1);
    assert(two + server + "\\"@ + share + ("\\"@ + name) =~= p);
    assert(server[0] != '/' && server[0] != '\\');
    assert(top[2] == server[0] && p[2] == server[0]);
    if server.len() == 1 {
        if server[0] == '.' {
            assert(server =~= "."@);
        }
        if server[0] == '?' {
            assert(server =~= "?"@);
        }
    } else {
        assert(server[1] != '/' && server[1] != '\\');
        assert(top[3] == server[1] && p[3] == server[1]);
    }
    let x = PrefixView { kind: PrefixKind::Share, start: 2, middle: m as int, len: n as int };
    assert(prefix_of(Os::Windows, top) == Some(x));
    assert(prefix_of(Os::Windows, p) == Some(x));
    assert(top.subrange(2, m as int) =~= server);
    assert(top.subrange(m as int + 1, n as int) =~= share);
    assert(significant(Os::Windows, top) == top);
    assert(p[n as int] == '\\');
    assert(lead(Os::Windows, p) == n + 1);
    crate::path_laws::lemma_span(Os::Windows, front, name);
    assert(cut_end(Separators::Both, front, n as int + 1) == front);
    let r = prefix_of(Os::Windows, name);
    assert(none + name =~= name);
    lemma_relative_span(none, name);
    assert(components_of(Os::Windows, top) =~= seq![
        Component::Prefix(PrefixKind::Share, server, share),
        Component::Root,
    ]);
    assert(top.last() == share[share.len() - 1]);
    assert(top.push('\\') =~= front);
    assert(join_of(Os::Windows, top, name) =~= p);
}

/// A server without a share is no prefix, and such a path is not absolute.
pub proof fn law_server_without_share(server: Seq<char>)
    requires
        share_name(server),
        server != "."@,
        server != "?"@,
    ensures
        prefix_of(Os::Windows, "\\\\"@ + server) is None,
        prefix_of(Os::Windows, "\\\\"@ + server + "\\"@) is None,
        !absolute(Os::Windows, "\\\\"@ + server),
        !absolute(Os::Windows, "\\\\"@ + server + "\\"@),
{
    reveal_strlit("\\\\");
    reveal_strlit("\\");
    reveal_strlit(".");
    reveal_strlit("?");
    let two = "\\\\"@;
    let none = Seq::<char>::empty();
    let p = two + server;
    let q = two + server + "\\"@;
    let m = 2 + server.len() as int;
    lemma_separator_behind(two, server, none, 2);
    assert(two + server + none =~= p);
    lemma_separator_behind(two, server, "\\"@, 2);
    assert(separator_from(Separators::Both, p, m + 1) == p.len());
    assert(separator_from(Separators::Both, q, m + 1) == q.len());
    assert(server[0] != '/' && server[0] != '\\');
    assert(p[2] == server[0] && q[2] == server[0]);
    if server.len() == 1 {
        if server[0] == '.' {
            assert(server =~= "."@);
        }
        if server[0] == '?' {
            assert(server =~= "?"@);
        }
    } else {
        assert(server[1] != '/' && server[1] != '\\');
        assert(p[3] == server[1] && q[3] == server[1]);
    }
}

/// The first `\` behind a text without any.
proof fn lemma_backslash_behind(front: Seq<char>, s: Seq<char>, rest: Seq<char>, i: int)
    requires
        front.len() <= i <= front.len() + s.len(),
        free_of(s, '\\'),
        rest.len() > 0 ==> rest[0] == '\\',
    ensures
        separator_from(Separators::Backslash, front + s + rest, i) == front.len() + s.len(),
    decreases front.len() + s.len() - i,
{
    let p = front + s + rest;
    if i < front.len() + s.len() {
        assert(p[i] == s[i - front.len()]);
        lemma_backslash_behind(front, s, rest, i + 1);
    } else if rest.len() > 0 {
        assert(p[i] == rest[0]);
    }
}

/// A device `\\.\name`, a verbatim drive `\\?\C:`, any other verbatim name and
/// a verbatim share `\\?\UNC\server\share` are prefixes of their own, with the
/// names that they hold; each of them is absolute.
pub proof fn law_other_prefixes(name: Seq<char>, c: char, server: Seq<char>, share: Seq<char>)
    requires
        share_name(name),
        !(name.len() == 2 && letter(name[0]) && name[1] == ':'),
        letter(c),
        share_name(server),
        share_name(share),
    ensures
        ({
            let none = Seq::<char>::empty();
            let device = "\\\\.\\"@ + name;
            let other = "\\\\?\\"@ + name;
            let drive = "\\\\?\\"@ + seq![c, ':'];
            let shared = "\\\\?\\UNC\\"@ + server + "\\"@ + share;
            let of = |kind: PrefixKind, x: Seq<char>, y: Seq<char>| Component::Prefix(kind, x, y);
            &&& absolute(Os::Windows, device)
            &&& front_of(Os::Windows, device) == seq![
                of(PrefixKind::Device, name, none),
                Component::Root,
            ]
            &&& absolute(Os::Windows, other)
            &&& front_of(Os::Windows, other) == seq![of(PrefixKind::Verbatim, name, none)]
            &&& absolute(Os::Windows, drive)
            &&& front_of(Os::Windows, drive) == seq![
                of(PrefixKind::VerbatimDrive, seq![upper(c)], none),
            ]
            &&& absolute(Os::Windows, shared)
            &&& front_of(Os::Windows, shared) == seq![of(PrefixKind::VerbatimShare, server, share)]
        }),
{
    reveal_strlit("\\\\.\\");
    reveal_strlit("\\\\?\\");
    reveal_strlit("\\\\?\\UNC\\");
    reveal_strlit("\\");
    let none = Seq::<char>::empty();
    let device = "\\\\.\\"@ + name;
    let other = "\\\\?\\"@ + name;
    let drive = "\\\\?\\"@ + seq![c, ':'];
    let head = "\\\\?\\UNC\\"@;
    let shared = head + server + "\\"@ + share;
    lemma_separator_behind("\\\\.\\"@, name, none, 4);
    assert("\\\\.\\"@ + name + none =~= device);
    assert(device.subrange(4, device.len() as int) =~= name);
    assert(front_of(Os::Windows, device) =~= seq![
        Component::Prefix(PrefixKind::Device, name, none),
        Component::Root,
    ]);
    lemma_backslash_behind("\\\\?\\"@, name, none, 4);
    assert("\\\\?\\"@ + name + none =~= other);
    assert(other.subrange(4, other.len() as int) =~= name);
    if name.len() > 2 {
        assert(other[6] == name[2]);
    }
    if name.len() > 3 {
        assert(other[7] == name[3]);
    }
    assert(verbatim_prefix(other).kind == PrefixKind::Verbatim);
    assert(front_of(Os::Windows, other) =~= seq![
        Component::Prefix(PrefixKind::Verbatim, name, none),
    ]);
    assert(verbatim_prefix(drive).kind == PrefixKind::VerbatimDrive);
    assert(front_of(Os::Windows, drive) =~= seq![
        Component::Prefix(PrefixKind::VerbatimDrive, seq![upper(c)], none),
    ]);
    let m = 8 + server.len() as int;
    lemma_backslash_behind(head, server, "\\"@ + share, 8);
    assert(head + server + ("\\"@ + share) =~= shared);
    lemma_backslash_behind(head + server + "\\"@, share, none, m + 1);
    assert(head + server + "\\"@ + share + none =~= shared);
    assert(shared.subrange(8, m) =~= server);
    assert(shared.subrange(m + 1, shared.len() as int) =~= share);
    assert(verbatim_prefix(shared).kind == PrefixKind::VerbatimShare);
    assert(front_of(Os::Windows, shared) =~= seq![
        Component::Prefix(PrefixKind::VerbatimShare, server, share),
    ]);
}

/// A drive alone is no absolute path: what is joined to it stands directly
/// behind it. With a root it is absolute, and so is nothing without a drive or
/// another prefix.
pub proof fn law_drive(c: char, name: Seq<char>, rest: Seq<char>)
    requires
        letter(c),
        one_name(Os::Windows, name),
        relative_on_windows(name),
    ensures
        !absolute(Os::Windows, seq![c, ':'] + name),
        absolute(Os::Windows, seq![c, ':', '\\'] + rest),
        absolute(Os::Windows, seq![c, ':', '/'] + rest),
        !absolute(Os::Windows, name),
        join_of(Os::Windows, seq![c, ':'], name) == seq![c, ':'] + name,
        parent_of(Os::Windows, seq![c, ':', '\\']) is None,
        file_name_of(Os::Windows, seq![c, ':']) is None,
        parent_of(Os::Windows, seq![c, ':', '\\'] + name) == Some(seq![c, ':', '\\']),
        file_name_of(Os::Windows, seq![c, ':', '\\'] + name) == Some(name),
{
    let none = Seq::<char>::empty();
    let drive = seq![c, ':'];
    let root = seq![c, ':', '\\'];
    assert(none + name =~= name);
    assert(!between(Os::Windows, name[0]));
    lemma_relative_span(none, name);
    assert((drive + name)[2] == name[0]);
    assert((root + rest)[2] == '\\');
    assert((seq![c, ':', '/'] + rest)[2] == '/');
    assert(significant(Os::Windows, root) == root);
    assert(significant(Os::Windows, drive) == drive);
    assert(lead(Os::Windows, root + name) == 3);
    crate::path_laws::lemma_span(Os::Windows, root, name);
    assert(cut_end(Separators::Both, root, 3) == root);
}

/// The two cases of a letter.
pub open spec fn two_cases(a: char, b: char) -> bool {
    'a' as int <= a as int <= 'z' as int && b as int == a as int - 32
}

/// What is left of two texts that differ in their first character alone.
proof fn lemma_cut_alike(k: Separators, p: Seq<char>, q: Seq<char>, low: int)
    requires
        p.len() == q.len(),
        p.len() >= 2,
        p.drop_first() == q.drop_first(),
        low >= 2,
    ensures
        cut_end(k, p, low).len() == cut_end(k, q, low).len(),
        2 <= cut_end(k, p, low).len() <= p.len(),
        cut_end(k, p, low) == p.take(cut_end(k, p, low).len() as int),
        cut_end(k, q, low) == q.take(cut_end(k, p, low).len() as int),
    decreases p.len(),
{
    assert(p.take(p.len() as int) =~= p);
    assert(q.take(q.len() as int) =~= q);
    if p.len() > low {
        let n = p.len() as int;
        assert(p[n - 1] == p.drop_first()[n - 2] && q[n - 1] == q.drop_first()[n - 2]);
        assert(p[n - 2] == p.drop_first()[n - 3] && q[n - 2] == q.drop_first()[n - 3]);
        let a = p.drop_last();
        let b = q.drop_last();
        assert(a.drop_first() =~= p.drop_first().drop_last());
        assert(b.drop_first() =~= q.drop_first().drop_last());
        lemma_cut_alike(k, a, b, low);
        let m = cut_end(k, a, low).len() as int;
        assert(a.take(m) =~= p.take(m));
        assert(b.take(m) =~= q.take(m));
    }
}

/// Where the last component begins in two texts that differ in their first
/// character alone.
proof fn lemma_start_alike(k: Separators, p: Seq<char>, q: Seq<char>, low: int)
    requires
        p.len() == q.len(),
        p.len() >= low >= 2,
        p.drop_first() == q.drop_first(),
    ensures
        after_separator(k, p, low) == after_separator(k, q, low),
        low <= after_separator(k, p, low) <= p.len(),
    decreases p.len(),
{
    if p.len() > low {
        let n = p.len() as int;
        assert(p.last() == p.drop_first()[n - 2]);
        assert(q.last() == q.drop_first()[n - 2]);
        assert(p.drop_last().drop_first() =~= p.drop_first().drop_last());
        assert(q.drop_last().drop_first() =~= q.drop_first().drop_last());
        lemma_start_alike(k, p.drop_last(), q.drop_last(), low);
    }
}

/// A drive is the same in both cases of its letter: `c:\dir` and `C:\dir` are
/// one path.
pub proof fn law_case_of_drive(a: char, b: char, rest: Seq<char>)
    requires
        two_cases(a, b),
    ensures
        same_path(Os::Windows, seq![a, ':'] + rest, seq![b, ':'] + rest),
    decreases rest.len(),
{
    let p = seq![a, ':'] + rest;
    let q = seq![b, ':'] + rest;
    assert(p.drop_first() =~= q.drop_first());
    assert(b as int == a as int - 32);
    assert(prefix_of(Os::Windows, p) == prefix_of(Os::Windows, q));
    let low = lead(Os::Windows, p);
    if rest.len() > 0 {
        assert(p[2] == q[2]);
        if rest.len() > 1 {
            assert(p[3] == q[3]);
        }
    }
    assert(low == lead(Os::Windows, q));
    let k = Separators::Both;
    lemma_cut_alike(k, p, q, low);
    let u = significant(Os::Windows, p);
    let v = significant(Os::Windows, q);
    let n = u.len() as int;
    assert(u.drop_first() =~= p.drop_first().take(n - 1));
    assert(v.drop_first() =~= q.drop_first().take(n - 1));
    if n > low {
        lemma_start_alike(k, u, v, low);
        let i = last_start(Os::Windows, p);
        assert(i == last_start(Os::Windows, q));
        assert(u.skip(i) =~= u.drop_first().skip(i - 1));
        assert(v.skip(i) =~= v.drop_first().skip(i - 1));
        assert(u.skip(i) == v.skip(i));
        assert(last_component(Os::Windows, p) == last_component(Os::Windows, q));
        let x = u.take(i);
        let y = v.take(i);
        assert(x.drop_first() =~= u.drop_first().take(i - 1));
        assert(y.drop_first() =~= v.drop_first().take(i - 1));
        lemma_cut_alike(k, x, y, low);
        crate::path::lemma_parent_shorter(Os::Windows, p);
        let c = parent_of(Os::Windows, p)->0;
        let d = parent_of(Os::Windows, q)->0;
        let m = c.len() as int;
        let less = rest.take(m - 2);
        assert(c =~= seq![a, ':'] + less);
        assert(d =~= seq![b, ':'] + less);
        law_case_of_drive(a, b, less);
    } else {
        assert(parent_of(Os::Windows, p) is None);
        assert(parent_of(Os::Windows, q) is None);
        assert(front_of(Os::Windows, p) == front_of(Os::Windows, q)) by {
            assert(crate::path::upper(a) == crate::path::upper(b)) by {
                assert(crate::path::upper(a) as int == b as int);
            }
        }
    }
}

/// Components of different kinds are ordered by their kinds: prefixes, the
/// root, `.`, `..`, and names; and prefixes among themselves: verbatim ones,
/// verbatim shares, verbatim drives, devices, shares, and drives.
pub proof fn law_order_of_kinds(a: Seq<char>, b: Seq<char>, c: Seq<char>, d: Seq<char>)
    ensures
        ({
            let prefix = Component::Prefix(PrefixKind::Drive, a, b);
            let name = Component::Normal(c);
            &&& component_before(prefix, Component::Root)
            &&& component_before(Component::Root, Component::Current)
            &&& component_before(Component::Current, Component::Parent)
            &&& component_before(Component::Parent, name)
            &&& !component_before(name, Component::Parent)
            &&& !component_before(Component::Root, prefix)
        }),
        ({
            let of = |kind: PrefixKind, x: Seq<char>, y: Seq<char>| Component::Prefix(kind, x, y);
            &&& component_before(
                of(PrefixKind::Verbatim, a, b),
                of(PrefixKind::VerbatimShare, c, d),
            )
            &&& component_before(
                of(PrefixKind::VerbatimShare, a, b),
                of(PrefixKind::VerbatimDrive, c, d),
            )
            &&& component_before(of(PrefixKind::VerbatimDrive, a, b), of(PrefixKind::Device, c, d))
            &&& component_before(of(PrefixKind::Device, a, b), of(PrefixKind::Share, c, d))
            &&& component_before(of(PrefixKind::Share, a, b), of(PrefixKind::Drive, c, d))
        }),
{
}

/// How the name of a file on a drive is found, verbatim or not: `front` is its
/// directory with the `\` behind it.
proof fn lemma_file_on_windows(front: Seq<char>, name: Seq<char>)
    requires
        on_drive(front) || on_verbatim_drive(front),
        front.last() == '\\',
        one_name(Os::Windows, name),
    ensures
        significant(Os::Windows, front + name) == front + name,
        file_name_of(Os::Windows, front + name) == Some(name),
{
    let p = front + name;
    assert(p[0] == front[0] && p[1] == front[1] && p[2] == front[2]);
    if on_verbatim_drive(front) {
        assert(p[3] == front[3] && p[4] == front[4] && p[5] == front[5] && p[6] == front[6]);
        lemma_verbatim_lead(p);
        assert forall|i: int| 0 <= i < name.len() implies #[trigger] name[i] != '\\' by {
            assert(!between(Os::Windows, name[i]));
        }
        assert(p.last() == name[name.len() - 1]);
        assert(significant(Os::Windows, p) == p);
        lemma_last_verbatim_name(front, name, 7);
        assert(p.skip(front.len() as int) =~= name);
    } else {
        assert(lead(Os::Windows, p) == 3);
        crate::path_laws::lemma_span(Os::Windows, front, name);
    }
}

/// On Windows too, another extension takes the place of the one that the name
/// of a file has, follows a name that has none, and leaves the directory and
/// the stem alone.
pub proof fn law_extension_on_windows(
    front: Seq<char>,
    stem: Seq<char>,
    ext: Seq<char>,
    new: Seq<char>,
)
    requires
        on_drive(front) || on_verbatim_drive(front),
        front.last() == '\\',
        stem.len() > 0,
        undivided(Os::Windows, stem),
        ext.len() > 0,
        undivided(Os::Windows, ext),
        free_of(ext, '.'),
        new.len() > 0,
    ensures
        has_extension(Os::Windows, front + stem + "."@ + ext),
        with_extension_of(Os::Windows, front + stem + "."@ + ext, new) == front + stem + "."@ + new,
        free_of(stem, '.') ==> !has_extension(Os::Windows, front + stem) && with_extension_of(
            Os::Windows,
            front + stem,
            new,
        ) == front + stem + "."@ + new,
{
    reveal_strlit(".");
    let name = stem.push('.') + ext;
    let p = front + name;
    assert(name[0] == stem[0]);
    assert forall|i: int| 0 <= i < name.len() implies !between(Os::Windows, #[trigger] name[i]) by {
        if i < stem.len() {
            assert(!between(Os::Windows, stem[i]));
        } else if i > stem.len() {
            assert(!between(Os::Windows, ext[i - stem.len() - 1]));
        }
    }
    assert(name.last() == ext[ext.len() - 1]);
    assert(name != seq!['.', '.'] && name != seq!['.']);
    assert(front + stem + "."@ + ext =~= p);
    lemma_file_on_windows(front, name);
    crate::path_laws::lemma_last_dot(stem, ext);
    assert(p.take(p.len() - name.len() + stem.len()) =~= front + stem);
    assert(front + stem + seq!['.'] + new =~= front + stem + "."@ + new);
    if free_of(stem, '.') {
        let q = front + stem;
        assert(stem[0] != '.');
        lemma_file_on_windows(front, stem);
        crate::path_laws::lemma_no_dot(stem);
        assert(q.take(q.len() as int) =~= q);
    }
}

/// The components of a drive are its letter in upper case and, where it is
/// written, the root.
pub proof fn law_components_of_drive(c: char)
    requires
        'A' as int <= c as int <= 'Z' as int,
    ensures
        ({
            let none = Seq::<char>::empty();
            let prefix = Component::Prefix(PrefixKind::Drive, seq![c], none);
            &&& components_of(Os::Windows, seq![c, ':']) == seq![prefix]
            &&& components_of(Os::Windows, seq![c, ':', '\\']) == seq![prefix, Component::Root]
            &&& components_of(Os::Windows, seq![c, ':', '/']) == seq![prefix, Component::Root]
        }),
{
    let none = Seq::<char>::empty();
    let prefix = Component::Prefix(PrefixKind::Drive, seq![c], none);
    let drive = seq![c, ':'];
    let root = seq![c, ':', '\\'];
    let other = seq![c, ':', '/'];
    assert(significant(Os::Windows, drive) == drive);
    assert(significant(Os::Windows, root) == root);
    assert(significant(Os::Windows, other) == other);
    assert(components_of(Os::Windows, drive) =~= seq![prefix]);
    assert(components_of(Os::Windows, root) =~= seq![prefix, Component::Root]);
    assert(components_of(Os::Windows, other) =~= seq![prefix, Component::Root]);
}

} // verus!
