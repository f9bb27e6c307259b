//! What holds of paths as texts: how a directory, a name and an extension
//! stand together in a path, and how they are found in it again.
use crate::path::{
    absolute, after_separator, ancestors_of, component_before, components_before, components_of,
    cut_end, file_name_of, front_of, has_extension, join_of, last_component, last_dot, last_start,
    lead, lemma_parent_shorter, letter, parent_of, path_before, plain, prefix_len, same_path,
    separators, significant, text_before, with_extension_of, Component, Os, Separators,
};
use vstd::prelude::*;

verus! {

/// Whether a character stands between components: `/`, and on Windows `\`.
pub open spec fn between(os: Os, c: char) -> bool {
    c == '/' || os == Os::Windows && c == '\\'
}

/// Whether a text holds no separator.
pub open spec fn undivided(os: Os, s: Seq<char>) -> bool {
    forall|i: int| 0 <= i < s.len() ==> !between(os, #[trigger] s[i])
}

/// Whether a text is one component of a path: it is not empty, holds no
/// separator, and is not the `.` that is of no significance.
pub open spec fn one_component(os: Os, name: Seq<char>) -> bool {
    name.len() > 0 && name != seq!['.'] && undivided(os, name)
}

/// Whether a text is the name of a file or of a directory.
pub open spec fn one_name(os: Os, name: Seq<char>) -> bool {
    one_component(os, name) && name != seq!['.', '.']
}

/// Whether a path ends in a component, and not in a separator or in a `.` of
/// no significance.
pub open spec fn ends_in_component(os: Os, dir: Seq<char>) -> bool {
    &&& dir.len() > 0
    &&& !between(os, dir.last())
    &&& dir.len() > 1 && dir.last() == '.' ==> !between(os, dir[dir.len() - 2])
}

/// Whether a Windows path begins with a drive and its root.
pub open spec fn on_drive(p: Seq<char>) -> bool {
    &&& p.len() >= 3
    &&& letter(p[0])
    &&& p[1] == ':'
    &&& p[2] == '\\'
}

/// A name is all that stands behind the last separator.
proof fn lemma_last_name(os: Os, front: Seq<char>, name: Seq<char>, low: int)
    requires
        0 <= low <= front.len(),
        front.len() > low ==> between(os, front.last()),
        undivided(os, name),
    ensures
        after_separator(plain(os), front + name, low) == front.len(),
    decreases name.len(),
{
    let p = front + name;
    if name.len() == 0 {
        assert(p =~= front);
    } else {
        assert(p.last() == name[name.len() - 1]);
        assert(p.drop_last() =~= front + name.drop_last());
        assert(undivided(os, name.drop_last())) by {
            assert forall|i: int| 0 <= i < name.len() - 1 implies !between(
                os,
                #[trigger] name.drop_last()[i],
            ) by {
                assert(!between(os, name[i]));
            }
        }
        lemma_last_name(os, front, name.drop_last(), low);
    }
}

/// A path that ends in the component `name` is significant to its end, and its
/// last component begins where `name` does.
pub proof fn lemma_span(os: Os, front: Seq<char>, name: Seq<char>)
    requires
        one_component(os, name),
        separators(os, front + name) == plain(os),
        0 <= lead(os, front + name) <= front.len(),
        front.len() > lead(os, front + name) ==> between(os, front.last()),
    ensures
        significant(os, front + name) == front + name,
        last_start(os, front + name) == front.len(),
        last_component(os, front + name) == Some(
            if name == seq!['.', '.'] {
                Component::Parent
            } else {
                Component::Normal(name)
            },
        ),
        parent_of(os, front + name) == Some(
            cut_end(plain(os), front, lead(os, front + name)),
        ),
{
    let p = front + name;
    let n = name.len() as int;
    assert(p.last() == name[n - 1]);
    if n > 1 {
        assert(p[p.len() - 2] == name[n - 2]);
    } else if p.last() == '.' {
        assert(name =~= seq!['.']);
    }
    assert(significant(os, p) == p);
    lemma_last_name(os, front, name, lead(os, p));
    assert(p.skip(front.len() as int) =~= name);
    assert(p.take(front.len() as int) =~= front);
}

/// How a Unix path with a directory is read.
proof fn lemma_unix_front(front: Seq<char>, name: Seq<char>)
    requires
        one_component(Os::Unix, name),
        front.len() > 0 ==> front.last() == '/',
    ensures
        separators(Os::Unix, front + name) == Separators::Slash,
        0 <= lead(Os::Unix, front + name) <= front.len(),
        lead(Os::Unix, front + name) <= 1,
        lead(Os::Unix, front + name) == 1 <==> front.len() > 0 && (front[0] == '/' || front[0]
            == '.' && front[1] == '/'),
{
    let p = front + name;
    if front.len() == 0 {
        assert(p =~= name);
        if p.len() == 1 && p[0] == '.' {
            assert(name =~= seq!['.']);
        }
    } else if front.len() == 1 {
        assert(p[0] == '/');
    }
}

/// A Unix path `dir/name` lies in the directory `dir`: that is its parent, its
/// components are those of `dir` and then `name`, and the directories above it
/// are those above `dir`, and `dir`.
pub proof fn law_path_in_directory(dir: Seq<char>, name: Seq<char>)
    requires
        ends_in_component(Os::Unix, dir),
        one_component(Os::Unix, name),
    ensures
        parent_of(Os::Unix, dir + "/"@ + name) == Some(dir),
        one_name(Os::Unix, name) ==> file_name_of(Os::Unix, dir + "/"@ + name) == Some(name),
        name == ".."@ ==> file_name_of(Os::Unix, dir + "/"@ + name) is None,
        components_of(Os::Unix, dir + "/"@ + name) == components_of(Os::Unix, dir).push(
            if name == ".."@ {
                Component::Parent
            } else {
                Component::Normal(name)
            },
        ),
        ancestors_of(Os::Unix, dir + "/"@ + name) == ancestors_of(Os::Unix, dir).push(
            dir + "/"@ + name,
        ),
{
    reveal_strlit("/");
    reveal_strlit("..");
    let front = dir + "/"@;
    let p = front + name;
    assert(".."@ =~= seq!['.', '.']);
    lemma_unix_front(front, name);
    lemma_span(Os::Unix, front, name);
    assert(front.drop_last() =~= dir);
    let low = lead(Os::Unix, p);
    assert(cut_end(Separators::Slash, front, low) == cut_end(Separators::Slash, dir, low));
    assert(front[0] == dir[0]);
    if dir.len() > 1 {
        assert(front[1] == dir[1]);
    }
    assert(cut_end(Separators::Slash, dir, low) == dir);
}

/// A Unix path `/name` lies in the root, which lies in nothing and has no
/// name.
pub proof fn law_path_in_root(name: Seq<char>)
    requires
        one_name(Os::Unix, name),
    ensures
        parent_of(Os::Unix, "/"@ + name) == Some("/"@),
        file_name_of(Os::Unix, "/"@ + name) == Some(name),
        components_of(Os::Unix, "/"@ + name) == seq![Component::Root, Component::Normal(name)],
        ancestors_of(Os::Unix, "/"@ + name) == seq!["/"@, "/"@ + name],
        parent_of(Os::Unix, "/"@) is None,
        file_name_of(Os::Unix, "/"@) is None,
{
    reveal_strlit("/");
    let p = "/"@ + name;
    lemma_unix_front("/"@, name);
    lemma_span(Os::Unix, "/"@, name);
    assert(significant(Os::Unix, "/"@) == "/"@);
    assert(components_of(Os::Unix, "/"@) =~= seq![Component::Root]);
    assert(components_of(Os::Unix, p) == components_of(Os::Unix, "/"@).push(
        Component::Normal(name),
    ));
    assert(ancestors_of(Os::Unix, "/"@) =~= seq!["/"@]);
    assert(ancestors_of(Os::Unix, p) == ancestors_of(Os::Unix, "/"@).push(p));
}

/// A bare name lies in a directory without a name, which lies in nothing.
pub proof fn law_bare_name(name: Seq<char>)
    requires
        one_name(Os::Unix, name),
    ensures
        parent_of(Os::Unix, name) == Some(""@),
        file_name_of(Os::Unix, name) == Some(name),
        components_of(Os::Unix, name) == seq![Component::Normal(name)],
        ancestors_of(Os::Unix, name) == seq![""@, name],
        parent_of(Os::Unix, ""@) is None,
        file_name_of(Os::Unix, ""@) is None,
{
    reveal_strlit("");
    let empty = Seq::<char>::empty();
    assert(""@ =~= empty);
    assert(empty + name =~= name);
    lemma_unix_front(empty, name);
    lemma_span(Os::Unix, empty, name);
    assert(significant(Os::Unix, empty) == empty);
    assert(components_of(Os::Unix, empty) =~= Seq::empty());
    assert(components_of(Os::Unix, name) == components_of(Os::Unix, empty).push(
        Component::Normal(name),
    ));
    assert(ancestors_of(Os::Unix, empty) =~= seq![empty]);
    assert(ancestors_of(Os::Unix, name) == ancestors_of(Os::Unix, empty).push(name));
}

/// A separator at the end of a Unix path, and a `.` behind it, change nothing:
/// the path denotes the same, in the same directory and with the same name.
pub proof fn law_end_of_path_is_insignificant(p: Seq<char>)
    requires
        p.len() > 0,
    ensures
        parent_of(Os::Unix, p + "/"@) == parent_of(Os::Unix, p),
        file_name_of(Os::Unix, p + "/"@) == file_name_of(Os::Unix, p),
        same_path(Os::Unix, p + "/"@, p),
        parent_of(Os::Unix, p + "/."@) == parent_of(Os::Unix, p),
        file_name_of(Os::Unix, p + "/."@) == file_name_of(Os::Unix, p),
        same_path(Os::Unix, p + "/."@, p),
{
    reveal_strlit("/");
    reveal_strlit("/.");
    let q = p + "/"@;
    let r = p + "/."@;
    assert(q.drop_last() =~= p);
    assert(r.drop_last() =~= q);
    assert(q[0] == p[0] && r[0] == p[0]);
    if p.len() > 1 {
        assert(q[1] == p[1] && r[1] == p[1]);
    }
    assert(lead(Os::Unix, q) == lead(Os::Unix, p));
    assert(lead(Os::Unix, r) == lead(Os::Unix, p));
    assert(significant(Os::Unix, q) == significant(Os::Unix, p));
    assert(significant(Os::Unix, r) == significant(Os::Unix, p));
    assert(front_of(Os::Unix, q) == front_of(Os::Unix, p));
    assert(front_of(Os::Unix, r) == front_of(Os::Unix, p));
}

/// The directories above a path go from one without a parent down to the path
/// itself, each being the parent of the next.
pub proof fn law_directories_above(os: Os, p: Seq<char>)
    ensures
        ({
            let dirs = ancestors_of(os, p);
            &&& dirs.len() > 0
            &&& dirs.last() == p
            &&& parent_of(os, dirs[0]) is None
            &&& forall|i: int|
                0 < i < dirs.len() ==> parent_of(os, #[trigger] dirs[i]) == Some(dirs[i - 1])
        }),
    decreases p.len(),
{
    if let Some(q) = parent_of(os, p) {
        lemma_parent_shorter(os, p);
        law_directories_above(os, q);
        let dirs = ancestors_of(os, q);
        assert(ancestors_of(os, p) =~= dirs.push(p));
    } else {
        assert(ancestors_of(os, p) =~= seq![p]);
    }
}

/// On Unix an absolute path stands alone behind whatever it is joined to, and
/// a relative one follows it, with one `/` put between the two where there is
/// none.
pub proof fn law_joined_path(base: Seq<char>, tail: Seq<char>)
    ensures
        join_of(Os::Unix, base, "/"@ + tail) == "/"@ + tail,
        tail.len() > 0 && tail[0] == '/' || base.len() == 0 ==> join_of(Os::Unix, base, tail)
            == tail,
        !(tail.len() > 0 && tail[0] == '/') && base.len() > 0 && base.last() != '/' ==> join_of(
            Os::Unix,
            base,
            tail,
        ) == base + "/"@ + tail,
        !(tail.len() > 0 && tail[0] == '/') ==> join_of(Os::Unix, base + "/"@, tail) == base + "/"@
            + tail,
{
    reveal_strlit("/");
    let rooted = "/"@ + tail;
    assert(rooted[0] == '/');
    if base.len() == 0 {
        assert(base + tail =~= tail);
    }
    assert(base.push('/') =~= base + "/"@);
    assert((base + "/"@).last() == '/');
}

/// A name that is joined to a directory lies in it: the directory is the
/// parent of the path, and the name is its file name.
pub proof fn law_join_and_part(dir: Seq<char>, name: Seq<char>)
    requires
        ends_in_component(Os::Unix, dir),
        one_name(Os::Unix, name),
    ensures
        parent_of(Os::Unix, join_of(Os::Unix, dir, name)) == Some(dir),
        file_name_of(Os::Unix, join_of(Os::Unix, dir, name)) == Some(name),
{
    assert(!between(Os::Unix, name[0]));
    law_joined_path(dir, name);
    law_path_in_directory(dir, name);
}

/// Whether a text is read as a path with no drive and no root on Windows.
pub open spec fn relative_on_windows(p: Seq<char>) -> bool {
    &&& p.len() > 0 ==> !between(Os::Windows, p[0])
    &&& !(p.len() >= 2 && letter(p[0]) && p[1] == ':')
}

/// On Windows a relative path follows the path that it is joined to, with one
/// `\` put between the two where there is no separator; one with a root but no
/// drive keeps the drive alone; and one with a drive stands alone.
pub proof fn law_joined_path_on_drive(base: Seq<char>, tail: Seq<char>)
    requires
        on_drive(base),
    ensures
        relative_on_windows(tail) && !between(Os::Windows, base.last()) ==> join_of(
            Os::Windows,
            base,
            tail,
        ) == base + "\\"@ + tail,
        relative_on_windows(tail) && between(Os::Windows, base.last()) ==> join_of(
            Os::Windows,
            base,
            tail,
        ) == base + tail,
        tail.len() > 0 && between(Os::Windows, tail[0]) && !(tail.len() > 1 && between(
            Os::Windows,
            tail[1],
        )) ==> join_of(Os::Windows, base, tail) == base.take(2) + tail,
        tail.len() >= 2 && letter(tail[0]) && tail[1] == ':' ==> join_of(Os::Windows, base, tail)
            == tail,
{
    reveal_strlit("\\");
    assert(base.push('\\') =~= base + "\\"@);
}

/// A Windows path `dir\name` on a drive lies in the directory `dir`, whichever
/// separator stands between the two.
pub proof fn law_path_in_directory_on_drive(dir: Seq<char>, separator: char, name: Seq<char>)
    requires
        on_drive(dir),
        ends_in_component(Os::Windows, dir),
        between(Os::Windows, separator),
        one_component(Os::Windows, name),
    ensures
        parent_of(Os::Windows, dir.push(separator) + name) == Some(dir),
        name != seq!['.', '.'] ==> file_name_of(Os::Windows, dir.push(separator) + name) == Some(
            name,
        ),
        components_of(Os::Windows, dir.push(separator) + name) == components_of(
            Os::Windows,
            dir,
        ).push(
            if name == seq!['.', '.'] {
                Component::Parent
            } else {
                Component::Normal(name)
            },
        ),
{
    let front = dir.push(separator);
    let p = front + name;
    assert(p[0] == dir[0] && p[1] == dir[1] && p[2] == dir[2]);
    assert(prefix_len(Os::Windows, p) == 2);
    assert(lead(Os::Windows, p) == 3);
    assert(separators(Os::Windows, p) == Separators::Both);
    lemma_span(Os::Windows, front, name);
    assert(front.drop_last() =~= dir);
    assert(cut_end(Separators::Both, front, 3) == cut_end(Separators::Both, dir, 3));
    assert(cut_end(Separators::Both, dir, 3) == dir);
}

/// The last dot of a name stands before its last part without dots.
pub proof fn lemma_last_dot(a: Seq<char>, b: Seq<char>)
    requires
        forall|i: int| 0 <= i < b.len() ==> #[trigger] b[i] != '.',
    ensures
        last_dot(a.push('.') + b) == a.len(),
    decreases b.len(),
{
    let s = a.push('.') + b;
    if b.len() == 0 {
        assert(s =~= a.push('.'));
    } else {
        assert(s.last() == b[b.len() - 1]);
        assert(s.drop_last() =~= a.push('.') + b.drop_last());
        lemma_last_dot(a, b.drop_last());
    }
}

/// A name without a dot behind its first character has none that counts.
pub proof fn lemma_no_dot(s: Seq<char>)
    requires
        forall|i: int| 0 < i < s.len() ==> #[trigger] s[i] != '.',
    ensures
        last_dot(s) <= 0,
    decreases s.len(),
{
    if s.len() > 0 {
        lemma_no_dot(s.drop_last());
    }
}

/// The name of a file `stem.ext` has an extension, and another one takes its
/// place: the directory and the stem stay as they are, whatever the extension
/// was. `front` is the directory with the `/` behind it, or empty.
pub proof fn law_extension_is_replaced(
    front: Seq<char>,
    stem: Seq<char>,
    ext: Seq<char>,
    new: Seq<char>,
)
    requires
        front.len() > 0 ==> front.last() == '/',
        stem.len() > 0,
        undivided(Os::Unix, stem),
        ext.len() > 0,
        undivided(Os::Unix, ext),
        forall|i: int| 0 <= i < ext.len() ==> #[trigger] ext[i] != '.',
    ensures
        has_extension(Os::Unix, front + stem + "."@ + ext),
        new.len() > 0 ==> with_extension_of(Os::Unix, front + stem + "."@ + ext, new) == front + stem
            + "."@ + new,
        with_extension_of(Os::Unix, front + stem + "."@ + ext, ""@) == front + stem,
{
    reveal_strlit(".");
    reveal_strlit("");
    let name = stem.push('.') + ext;
    let p = front + name;
    assert(name[0] == stem[0]);
    assert forall|i: int| 0 <= i < name.len() implies !between(Os::Unix, #[trigger] name[i]) by {
        if i < stem.len() {
            assert(!between(Os::Unix, stem[i]));
        } else if i > stem.len() {
            assert(!between(Os::Unix, ext[i - stem.len() - 1]));
        }
    }
    assert(name.last() == ext[ext.len() - 1]);
    assert(name != seq!['.', '.'] && name != seq!['.']);
    assert(front + stem + "."@ + ext =~= p);
    lemma_unix_front(front, name);
    lemma_span(Os::Unix, front, name);
    lemma_last_dot(stem, ext);
    assert(p.take(p.len() - name.len() + stem.len()) =~= front + stem);
    assert(front + stem + seq!['.'] + new =~= front + stem + "."@ + new);
    assert(""@.len() == 0);
}

/// The name of a file without a dot, but for one at its start, has no
/// extension, and one that it is given follows it.
pub proof fn law_extension_is_added(front: Seq<char>, name: Seq<char>, new: Seq<char>)
    requires
        front.len() > 0 ==> front.last() == '/',
        one_name(Os::Unix, name),
        forall|i: int| 0 < i < name.len() ==> #[trigger] name[i] != '.',
        new.len() > 0,
    ensures
        !has_extension(Os::Unix, front + name),
        with_extension_of(Os::Unix, front + name, new) == front + name + "."@ + new,
{
    reveal_strlit(".");
    let p = front + name;
    lemma_unix_front(front, name);
    lemma_span(Os::Unix, front, name);
    lemma_no_dot(name);
    assert(p.take(p.len() as int) =~= p);
    assert(p + seq!['.'] + new =~= p + "."@ + new);
}

/// A path without a file name has no extension, and is given none.
pub proof fn law_no_extension_without_name(os: Os, p: Seq<char>, new: Seq<char>)
    requires
        file_name_of(os, p) is None,
    ensures
        !has_extension(os, p),
        with_extension_of(os, p, new) == p,
{
}

/// The first character in which two texts differ decides which comes first,
/// and a beginning comes before the whole.
pub proof fn law_text_order(common: Seq<char>, a: Seq<char>, b: Seq<char>)
    ensures
        b.len() > 0 ==> text_before(common, common + b) && !text_before(common + b, common),
        a.len() > 0 && b.len() > 0 && a[0] != b[0] ==> text_before(common + a, common + b) == ((
        a[0] as int) < (b[0] as int)),
    decreases common.len(),
{
    if common.len() == 0 {
        assert(common + a =~= a);
        assert(common + b =~= b);
    } else {
        law_text_order(common.drop_first(), a, b);
        assert((common + a).drop_first() =~= common.drop_first() + a);
        assert((common + b).drop_first() =~= common.drop_first() + b);
        assert((common + a).first() == common.first());
        assert((common + b).first() == common.first());
    }
}

/// Lists of components that differ in the last alone are in the order of the
/// last.
proof fn lemma_last_decides(
    list: Seq<Component<Seq<char>>>,
    x: Component<Seq<char>>,
    y: Component<Seq<char>>,
)
    ensures
        components_before(list.push(x), list.push(y)) == (x != y && component_before(x, y)),
        components_before(list, list.push(y)),
    decreases list.len(),
{
    if list.len() > 0 {
        lemma_last_decides(list.drop_first(), x, y);
        assert(list.push(x).drop_first() =~= list.drop_first().push(x));
        assert(list.push(y).drop_first() =~= list.drop_first().push(y));
        assert(list.push(x).first() == list.first());
        assert(list.push(y).first() == list.first());
    } else {
        let none = Seq::<Component<Seq<char>>>::empty();
        assert(list.push(x).drop_first() =~= none);
        assert(list.push(y).drop_first() =~= none);
        assert(!components_before(none, none));
    }
}

/// Files of one directory are in the order of their names, and the directory
/// comes before them; they are the same path only if they have the same name.
pub proof fn law_order_in_directory(dir: Seq<char>, a: Seq<char>, b: Seq<char>)
    requires
        ends_in_component(Os::Unix, dir),
        one_name(Os::Unix, a),
        one_name(Os::Unix, b),
    ensures
        path_before(Os::Unix, dir + "/"@ + a, dir + "/"@ + b) == (a != b && text_before(a, b)),
        same_path(Os::Unix, dir + "/"@ + a, dir + "/"@ + b) == (a == b),
        path_before(Os::Unix, dir, dir + "/"@ + a),
{
    reveal_strlit("..");
    assert(".."@ =~= seq!['.', '.']);
    law_path_in_directory(dir, a);
    law_path_in_directory(dir, b);
    let list = components_of(Os::Unix, dir);
    let x = Component::Normal(a);
    let y = Component::Normal(b);
    lemma_last_decides(list, x, y);
    lemma_last_decides(list, y, x);
    assert(list.push(x).last() == x && list.push(y).last() == y);
}

/// On Unix a path is absolute exactly if it starts with a `/`.
pub proof fn law_absolute_path(p: Seq<char>)
    ensures
        absolute(Os::Unix, p) <==> p.len() > 0 && p[0] == '/',
{
}

/// The first component in which two paths differ decides which comes first,
/// whatever follows it, and a path comes before those below it.
pub proof fn law_first_difference(
    list: Seq<Component<Seq<char>>>,
    x: Component<Seq<char>>,
    a: Seq<Component<Seq<char>>>,
    y: Component<Seq<char>>,
    b: Seq<Component<Seq<char>>>,
)
    requires
        x != y,
    ensures
        components_before(list + seq![x] + a, list + seq![y] + b) == component_before(x, y),
        components_before(list, list + seq![y] + b),
        !components_before(list + seq![y] + b, list),
    decreases list.len(),
{
    let u = list + seq![x] + a;
    let v = list + seq![y] + b;
    if list.len() == 0 {
        assert(u.first() == x && v.first() == y);
    } else {
        let rest = list.drop_first();
        law_first_difference(rest, x, a, y, b);
        assert(u.drop_first() =~= rest + seq![x] + a);
        assert(v.drop_first() =~= rest + seq![y] + b);
        assert(u.first() == list.first() && v.first() == list.first());
    }
}

/// Two paths are the same, and in the order that they are, exactly by their
/// components.
pub proof fn law_order_by_components(os: Os, a: Seq<char>, b: Seq<char>)
    ensures
        same_path(os, a, b) <==> components_of(os, a) == components_of(os, b),
        path_before(os, a, b) <==> components_before(components_of(os, a), components_of(os, b)),
{
}

/// Repeated separators, and a `.` between two of them, count as one separator
/// in a Unix path.
pub proof fn law_middle_of_path_is_insignificant(p: Seq<char>, name: Seq<char>)
    requires
        p.len() > 0,
        one_component(Os::Unix, name),
    ensures
        parent_of(Os::Unix, p + "//"@ + name) == parent_of(Os::Unix, p + "/"@ + name),
        file_name_of(Os::Unix, p + "//"@ + name) == file_name_of(Os::Unix, p + "/"@ + name),
        same_path(Os::Unix, p + "//"@ + name, p + "/"@ + name),
        parent_of(Os::Unix, p + "/./"@ + name) == parent_of(Os::Unix, p + "/"@ + name),
        file_name_of(Os::Unix, p + "/./"@ + name) == file_name_of(Os::Unix, p + "/"@ + name),
        same_path(Os::Unix, p + "/./"@ + name, p + "/"@ + name),
{
    let one = p + "/"@;
    let two = p + "//"@;
    let dot = p + "/./"@;
    lemma_more_separators(p);
    lemma_fronts_alike(one, two, name);
    lemma_fronts_alike(one, dot, name);
}

/// What is left of a path with separators behind it.
proof fn lemma_more_separators(p: Seq<char>)
    requires
        p.len() > 0,
    ensures
        ({
            let one = p + "/"@;
            let two = p + "//"@;
            let dot = p + "/./"@;
            &&& one.len() > 1 && two.len() > 1 && dot.len() > 1
            &&& one.last() == '/' && two.last() == '/' && dot.last() == '/'
            &&& one[0] == p[0] && two[0] == p[0] && dot[0] == p[0]
            &&& one[1] == two[1] && one[1] == dot[1]
            &&& cut_end(Separators::Slash, two, 0) == cut_end(Separators::Slash, one, 0)
            &&& cut_end(Separators::Slash, two, 1) == cut_end(Separators::Slash, one, 1)
            &&& cut_end(Separators::Slash, dot, 0) == cut_end(Separators::Slash, one, 0)
            &&& cut_end(Separators::Slash, dot, 1) == cut_end(Separators::Slash, one, 1)
        }),
{
    reveal_strlit("/");
    reveal_strlit("//");
    reveal_strlit("/./");
    let one = p + "/"@;
    let two = p + "//"@;
    let dot = p + "/./"@;
    let half = dot.drop_last();
    assert(two.drop_last() =~= one);
    assert(half.drop_last() =~= one);
    assert(half.last() == '.' && half[half.len() - 2] == '/');
    assert(cut_end(Separators::Slash, half, 0) == cut_end(Separators::Slash, one, 0));
    assert(cut_end(Separators::Slash, half, 1) == cut_end(Separators::Slash, one, 1));
}

/// Two directories of which the same is left make no difference to a name.
proof fn lemma_fronts_alike(one: Seq<char>, other: Seq<char>, name: Seq<char>)
    requires
        one.len() > 1,
        other.len() > 1,
        one.last() == '/',
        other.last() == '/',
        one[0] == other[0],
        one[1] == other[1],
        cut_end(Separators::Slash, one, 0) == cut_end(Separators::Slash, other, 0),
        cut_end(Separators::Slash, one, 1) == cut_end(Separators::Slash, other, 1),
        one_component(Os::Unix, name),
    ensures
        parent_of(Os::Unix, other + name) == parent_of(Os::Unix, one + name),
        file_name_of(Os::Unix, other + name) == file_name_of(Os::Unix, one + name),
        same_path(Os::Unix, other + name, one + name),
{
    lemma_unix_front(one, name);
    lemma_unix_front(other, name);
    lemma_span(Os::Unix, one, name);
    lemma_span(Os::Unix, other, name);
}

/// A separator at the end of the path of a file goes with the extension.
pub proof fn law_extension_at_end_of_path(p: Seq<char>, new: Seq<char>)
    requires
        p.len() > 0,
        file_name_of(Os::Unix, p) is Some,
    ensures
        has_extension(Os::Unix, p + "/"@) == has_extension(Os::Unix, p),
        with_extension_of(Os::Unix, p + "/"@, new) == with_extension_of(Os::Unix, p, new),
{
    reveal_strlit("/");
    law_end_of_path_is_insignificant(p);
    let q = p + "/"@;
    assert(q.drop_last() =~= p);
    assert(q[0] == p[0]);
    if p.len() > 1 {
        assert(q[1] == p[1]);
    }
    assert(significant(Os::Unix, q) == significant(Os::Unix, p));
}

/// A name is joined to a relative path on Windows by a `\`, and stands alone
/// where there is nothing to join it to.
pub proof fn law_joined_to_relative_on_windows(base: Seq<char>, tail: Seq<char>)
    requires
        relative_on_windows(base),
        relative_on_windows(tail),
    ensures
        base.len() > 0 && !between(Os::Windows, base.last()) ==> join_of(Os::Windows, base, tail)
            == base + "\\"@ + tail,
        base.len() > 0 && between(Os::Windows, base.last()) ==> join_of(Os::Windows, base, tail)
            == base + tail,
        base.len() == 0 ==> join_of(Os::Windows, base, tail) == tail,
{
    reveal_strlit("\\");
    assert(base.push('\\') =~= base + "\\"@);
    if base.len() == 0 {
        assert(base + tail =~= tail);
    }
}

} // verus!
