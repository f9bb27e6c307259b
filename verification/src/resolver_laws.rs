//! What holds of the names of modules and of native libraries: where each kind
//! of name points to.
use crate::path::{file_name_of, has_extension, join_of, parent_of, with_extension_of, Os};
use crate::path_laws::{
    between, ends_in_component, law_bare_name, law_extension_is_added, law_extension_is_replaced,
    law_joined_path, law_joined_path_on_drive, law_no_extension_without_name, law_path_in_directory,
    law_path_in_directory_on_drive, law_path_in_root, on_drive, one_name, relative_on_windows,
    undivided,
};
use crate::require_resolver::{
    candidates, canonical, dir_or_current, init_module, loadlib_base, spec_base, PathProbe,
    SpecBase,
};
use crate::text::{begins, find_char_from, lemma_find_char_first};
use crate::text_laws::free_of;
use crate::windows_path_laws::{
    law_dots_joined_to_verbatim, law_path_in_verbatim_directory, on_verbatim_drive,
};
use vstd::prelude::*;

verus! {

/// A text begins with what it was begun with.
proof fn lemma_begins(p: Seq<char>, tail: Seq<char>)
    ensures
        begins(p + tail, p),
{
    assert((p + tail).subrange(0, p.len() as int) =~= p);
}

/// A text does not begin with a text that has another character at `i`.
proof fn lemma_begins_not(s: Seq<char>, p: Seq<char>, i: int)
    requires
        0 <= i < p.len(),
        s.len() <= i || s[i] != p[i],
    ensures
        !begins(s, p),
{
    if begins(s, p) {
        assert(s.subrange(0, p.len() as int)[i] == p[i]);
    }
}

/// A name that starts with `./` or `../` counts from the directory of the
/// module that it stands in, for modules and for native libraries: neither the
/// file name of the module nor the entry directory makes a difference.
pub proof fn law_relative_name(
    os: Os,
    entry_dir: Seq<char>,
    module: Seq<char>,
    dir: Seq<char>,
    tail: Seq<char>,
)
    requires
        parent_of(os, module) == Some(dir),
    ensures
        spec_base(os, entry_dir, module, "./"@ + tail) == SpecBase::Path(
            join_of(os, dir, "./"@ + tail),
        ),
        spec_base(os, entry_dir, module, "../"@ + tail) == SpecBase::Path(
            join_of(os, dir, "../"@ + tail),
        ),
        loadlib_base(os, entry_dir, module, "./"@ + tail) == Ok::<Seq<char>, Seq<char>>(
            join_of(os, dir, "./"@ + tail),
        ),
        loadlib_base(os, entry_dir, module, "../"@ + tail) == Ok::<Seq<char>, Seq<char>>(
            join_of(os, dir, "../"@ + tail),
        ),
{
    reveal_strlit("./");
    reveal_strlit("../");
    reveal_strlit("@self");
    lemma_begins("./"@, tail);
    lemma_begins("../"@, tail);
    lemma_begins_not("./"@ + tail, "@self"@, 0);
    lemma_begins_not("../"@ + tail, "@self"@, 0);
}

/// Two modules of one directory mean the same by a name that starts with `./`
/// or `../`, whatever their file names are, in whatever runtimes they run.
pub proof fn law_relative_name_in_one_directory(
    os: Os,
    entry_dir: Seq<char>,
    module: Seq<char>,
    other_dir: Seq<char>,
    other: Seq<char>,
    tail: Seq<char>,
)
    requires
        parent_of(os, module) is Some,
        parent_of(os, module) == parent_of(os, other),
    ensures
        spec_base(os, entry_dir, module, "./"@ + tail) == spec_base(
            os,
            other_dir,
            other,
            "./"@ + tail,
        ),
        spec_base(os, entry_dir, module, "../"@ + tail) == spec_base(
            os,
            other_dir,
            other,
            "../"@ + tail,
        ),
        loadlib_base(os, entry_dir, module, "./"@ + tail) == loadlib_base(
            os,
            other_dir,
            other,
            "./"@ + tail,
        ),
        loadlib_base(os, entry_dir, module, "../"@ + tail) == loadlib_base(
            os,
            other_dir,
            other,
            "../"@ + tail,
        ),
{
    let dir = parent_of(os, module)->0;
    law_relative_name(os, entry_dir, module, dir, tail);
    law_relative_name(os, other_dir, other, dir, tail);
}

/// In a module `dir/name` on Unix, `./` and `../` stand behind `dir/`, whether
/// or not the module is the init module of its directory.
pub proof fn law_relative_name_on_unix(
    entry_dir: Seq<char>,
    dir: Seq<char>,
    name: Seq<char>,
    tail: Seq<char>,
)
    requires
        ends_in_component(Os::Unix, dir),
        one_name(Os::Unix, name),
    ensures
        spec_base(Os::Unix, entry_dir, dir + "/"@ + name, "./"@ + tail) == SpecBase::Path(
            dir + "/"@ + ("./"@ + tail),
        ),
        spec_base(Os::Unix, entry_dir, dir + "/"@ + name, "../"@ + tail) == SpecBase::Path(
            dir + "/"@ + ("../"@ + tail),
        ),
        loadlib_base(Os::Unix, entry_dir, dir + "/"@ + name, "./"@ + tail) == Ok::<
            Seq<char>,
            Seq<char>,
        >(dir + "/"@ + ("./"@ + tail)),
        loadlib_base(Os::Unix, entry_dir, dir + "/"@ + name, "../"@ + tail) == Ok::<
            Seq<char>,
            Seq<char>,
        >(dir + "/"@ + ("../"@ + tail)),
{
    reveal_strlit("./");
    reveal_strlit("../");
    law_path_in_directory(dir, name);
    law_relative_name(Os::Unix, entry_dir, dir + "/"@ + name, dir, tail);
    law_joined_path(dir, "./"@ + tail);
    law_joined_path(dir, "../"@ + tail);
}

/// The same on Windows, in a module on a drive.
pub proof fn law_relative_name_on_drive(
    entry_dir: Seq<char>,
    dir: Seq<char>,
    name: Seq<char>,
    tail: Seq<char>,
)
    requires
        on_drive(dir),
        ends_in_component(Os::Windows, dir),
        one_name(Os::Windows, name),
    ensures
        spec_base(Os::Windows, entry_dir, dir + "\\"@ + name, "./"@ + tail) == SpecBase::Path(
            dir + "\\"@ + ("./"@ + tail),
        ),
        spec_base(Os::Windows, entry_dir, dir + "\\"@ + name, "../"@ + tail) == SpecBase::Path(
            dir + "\\"@ + ("../"@ + tail),
        ),
        loadlib_base(Os::Windows, entry_dir, dir + "\\"@ + name, "./"@ + tail) == Ok::<
            Seq<char>,
            Seq<char>,
        >(dir + "\\"@ + ("./"@ + tail)),
        loadlib_base(Os::Windows, entry_dir, dir + "\\"@ + name, "../"@ + tail) == Ok::<
            Seq<char>,
            Seq<char>,
        >(dir + "\\"@ + ("../"@ + tail)),
{
    reveal_strlit("./");
    reveal_strlit("../");
    reveal_strlit("\\");
    assert(dir.push('\\') =~= dir + "\\"@);
    law_path_in_directory_on_drive(dir, '\\', name);
    law_relative_name(Os::Windows, entry_dir, dir + "\\"@ + name, dir, tail);
    law_joined_path_on_drive(dir, "./"@ + tail);
    law_joined_path_on_drive(dir, "../"@ + tail);
}

/// In a verbatim path, as canonical paths are on Windows, nothing is left of the
/// `./` and the `../`: the former stands for the directory `dir\sub` of the
/// module, and the latter for `dir`.
pub proof fn law_relative_name_in_verbatim_directory(
    entry_dir: Seq<char>,
    dir: Seq<char>,
    sub: Seq<char>,
    name: Seq<char>,
    tail: Seq<char>,
)
    requires
        on_verbatim_drive(dir),
        dir.len() > 7,
        dir.last() != '\\',
        one_name(Os::Windows, sub),
        one_name(Os::Windows, name),
        one_name(Os::Windows, tail),
        relative_on_windows(tail),
    ensures
        ({
            let module = dir + "\\"@ + sub + "\\"@ + name;
            let below = join_of(Os::Windows, dir + "\\"@ + sub, tail);
            let beside = join_of(Os::Windows, dir, tail);
            &&& spec_base(Os::Windows, entry_dir, module, "./"@ + tail) == SpecBase::Path(below)
            &&& spec_base(Os::Windows, entry_dir, module, "../"@ + tail) == SpecBase::Path(beside)
            &&& loadlib_base(Os::Windows, entry_dir, module, "./"@ + tail) == Ok::<
                Seq<char>,
                Seq<char>,
            >(below)
            &&& loadlib_base(Os::Windows, entry_dir, module, "../"@ + tail) == Ok::<
                Seq<char>,
                Seq<char>,
            >(beside)
        }),
{
    reveal_strlit("\\");
    let lower = dir + "\\"@ + sub;
    let module = lower + "\\"@ + name;
    assert(dir.push('\\') =~= dir + "\\"@);
    assert(lower.push('\\') =~= lower + "\\"@);
    assert(lower.last() == sub[sub.len() - 1]);
    assert(!between(Os::Windows, sub[sub.len() - 1]));
    assert(on_verbatim_drive(lower)) by {
        assert(lower[0] == dir[0] && lower[1] == dir[1] && lower[2] == dir[2] && lower[3] == dir[3]
            && lower[4] == dir[4] && lower[5] == dir[5] && lower[6] == dir[6]);
    }
    assert(free_of(name, '\\')) by {
        assert forall|i: int| 0 <= i < name.len() implies #[trigger] name[i] != '\\' by {
            assert(!between(Os::Windows, name[i]));
        }
    }
    law_path_in_verbatim_directory(lower, name);
    law_relative_name(Os::Windows, entry_dir, module, lower, tail);
    law_dots_joined_to_verbatim(lower, name, tail);
    law_dots_joined_to_verbatim(dir, sub, tail);
}

/// A module that lies in no directory takes the entry directory for its own.
pub proof fn law_relative_name_without_directory(
    os: Os,
    entry_dir: Seq<char>,
    module: Seq<char>,
    tail: Seq<char>,
)
    requires
        parent_of(os, module) is None,
    ensures
        spec_base(os, entry_dir, module, "./"@ + tail) == SpecBase::Path(
            join_of(os, entry_dir, "./"@ + tail),
        ),
        spec_base(os, entry_dir, module, "../"@ + tail) == SpecBase::Path(
            join_of(os, entry_dir, "../"@ + tail),
        ),
        loadlib_base(os, entry_dir, module, "./"@ + tail) == Ok::<Seq<char>, Seq<char>>(
            join_of(os, entry_dir, "./"@ + tail),
        ),
        loadlib_base(os, entry_dir, module, "../"@ + tail) == Ok::<Seq<char>, Seq<char>>(
            join_of(os, entry_dir, "../"@ + tail),
        ),
{
    reveal_strlit("./");
    reveal_strlit("../");
    reveal_strlit("@self");
    lemma_begins("./"@, tail);
    lemma_begins("../"@, tail);
    lemma_begins_not("./"@ + tail, "@self"@, 0);
    lemma_begins_not("../"@ + tail, "@self"@, 0);
}

/// Whether a name is none of those with a meaning of their own: it starts
/// neither with an `@` nor with `./` or `../`, and is not `.`.
pub open spec fn plain_spec(spec: Seq<char>) -> bool {
    &&& spec.len() > 0 ==> spec[0] != '@'
    &&& !(spec.len() == 1 && spec[0] == '.')
    &&& !(spec.len() >= 2 && spec[0] == '.' && spec[1] == '/')
    &&& !(spec.len() >= 3 && spec[0] == '.' && spec[1] == '.' && spec[2] == '/')
}

/// Any other name counts from the entry directory, whatever the module it
/// stands in.
pub proof fn law_plain_name(os: Os, entry_dir: Seq<char>, module: Seq<char>, spec: Seq<char>)
    requires
        plain_spec(spec),
    ensures
        spec_base(os, entry_dir, module, spec) == SpecBase::Path(join_of(os, entry_dir, spec)),
        loadlib_base(os, entry_dir, module, spec) == Ok::<Seq<char>, Seq<char>>(
            join_of(os, entry_dir, spec),
        ),
        os == Os::Unix && spec.len() > 0 && spec[0] != '/' && ends_in_component(os, entry_dir)
            ==> spec_base(os, entry_dir, module, spec) == SpecBase::Path(
            entry_dir + "/"@ + spec,
        ) && loadlib_base(os, entry_dir, module, spec) == Ok::<Seq<char>, Seq<char>>(
            entry_dir + "/"@ + spec,
        ),
        os == Os::Unix && spec.len() > 0 && spec[0] == '/' ==> spec_base(
            os,
            entry_dir,
            module,
            spec,
        ) == SpecBase::Path(spec) && loadlib_base(os, entry_dir, module, spec) == Ok::<
            Seq<char>,
            Seq<char>,
        >(spec),
{
    reveal_strlit("./");
    reveal_strlit("../");
    reveal_strlit("@self");
    reveal_strlit(".");
    if spec.len() == 0 {
        lemma_begins_not(spec, "./"@, 0);
        lemma_begins_not(spec, "../"@, 0);
    } else if spec[0] != '.' {
        lemma_begins_not(spec, "./"@, 0);
        lemma_begins_not(spec, "../"@, 0);
    } else if spec[1] != '.' {
        lemma_begins_not(spec, "./"@, 1);
        lemma_begins_not(spec, "../"@, 1);
    } else {
        lemma_begins_not(spec, "./"@, 1);
        lemma_begins_not(spec, "../"@, 2);
    }
    lemma_begins_not(spec, "@self"@, 0);
    assert(spec != "."@);
    law_joined_path(entry_dir, spec);
}

/// A native library named `.` is looked for in the entry directory too.
pub proof fn law_dot_is_no_library(os: Os, entry_dir: Seq<char>, module: Seq<char>)
    ensures
        loadlib_base(os, entry_dir, module, "."@) == Ok::<Seq<char>, Seq<char>>(
            join_of(os, entry_dir, "."@),
        ),
{
    reveal_strlit("./");
    reveal_strlit("../");
    reveal_strlit("@self");
    reveal_strlit(".");
    lemma_begins_not("."@, "./"@, 1);
    lemma_begins_not("."@, "../"@, 1);
    lemma_begins_not("."@, "@self"@, 0);
}

/// `@self` is a module itself but, in the init module of a directory, that
/// directory. For modules, `.` is the same.
pub proof fn law_self(entry_dir: Seq<char>, dir: Seq<char>, name: Seq<char>)
    requires
        ends_in_component(Os::Unix, dir),
        one_name(Os::Unix, name),
    ensures
        ({
            let module = dir + "/"@ + name;
            let itself = if name == "init.luau"@ || name == "init.lua"@ {
                dir
            } else {
                module
            };
            &&& spec_base(Os::Unix, entry_dir, module, "@self"@) == SpecBase::Path(itself)
            &&& spec_base(Os::Unix, entry_dir, module, "."@) == SpecBase::Path(itself)
            &&& loadlib_base(Os::Unix, entry_dir, module, "@self"@) == Ok::<Seq<char>, Seq<char>>(
                itself,
            )
        }),
{
    reveal_strlit("./");
    reveal_strlit("../");
    reveal_strlit("@self");
    reveal_strlit(".");
    let none = Seq::<char>::empty();
    assert("@self"@ + none =~= "@self"@);
    lemma_begins("@self"@, none);
    lemma_begins_not("@self"@, "./"@, 0);
    lemma_begins_not("@self"@, "../"@, 0);
    lemma_begins_not("."@, "./"@, 1);
    lemma_begins_not("."@, "../"@, 1);
    law_path_in_directory(dir, name);
}

/// A name below `@self` counts from the directory of the module, whatever its
/// file name and the entry directory; one `/` behind `@self` is left out. A
/// module that lies in no directory takes the entry directory for its own.
pub proof fn law_below_self(
    os: Os,
    entry_dir: Seq<char>,
    module: Seq<char>,
    dir: Seq<char>,
    tail: Seq<char>,
)
    requires
        dir == (match parent_of(os, module) {
            Some(parent) => parent,
            None => entry_dir,
        }),
    ensures
        spec_base(os, entry_dir, module, "@self/"@ + tail) == SpecBase::Path(
            join_of(os, dir, tail),
        ),
        loadlib_base(os, entry_dir, module, "@self/"@ + tail) == Ok::<Seq<char>, Seq<char>>(
            join_of(os, dir, tail),
        ),
        tail.len() > 0 && tail[0] != '/' ==> spec_base(os, entry_dir, module, "@self"@ + tail)
            == SpecBase::Path(join_of(os, dir, tail)) && loadlib_base(
            os,
            entry_dir,
            module,
            "@self"@ + tail,
        ) == Ok::<Seq<char>, Seq<char>>(join_of(os, dir, tail)),
        os == Os::Unix && ends_in_component(os, dir) && !(tail.len() > 0 && tail[0] == '/')
            ==> spec_base(os, entry_dir, module, "@self/"@ + tail) == SpecBase::Path(
            dir + "/"@ + tail,
        ),
{
    reveal_strlit("./");
    reveal_strlit("../");
    reveal_strlit("@self");
    reveal_strlit("@self/");
    reveal_strlit(".");
    let rest = seq!['/'] + tail;
    assert("@self/"@ + tail =~= "@self"@ + rest);
    lemma_begins("@self"@, rest);
    lemma_begins("@self"@, tail);
    lemma_begins_not("@self"@ + rest, "./"@, 0);
    lemma_begins_not("@self"@ + rest, "../"@, 0);
    lemma_begins_not("@self"@ + tail, "./"@, 0);
    lemma_begins_not("@self"@ + tail, "../"@, 0);
    assert(("@self"@ + rest).skip(5) =~= rest);
    assert(("@self"@ + tail).skip(5) =~= tail);
    assert(rest.drop_first() =~= tail);
    assert(("@self"@ + rest)[0] == '@' && ("@self"@ + tail)[0] == '@');
    assert("@self"@ + rest != "."@ && "@self"@ + tail != "."@);
    law_joined_path(dir, tail);
}

/// Whether a text can follow the `@` of an alias: it holds no `/`, and does
/// not start with `self`.
pub open spec fn alias_text(name: Seq<char>) -> bool {
    &&& undivided(Os::Unix, name)
    &&& !(name.len() >= 4 && name[0] == 's' && name[1] == 'e' && name[2] == 'l' && name[3] == 'f')
}

/// A name `@name` or `@name/rest` points below the alias `@name`, which is
/// looked for from the directory of the module. For native libraries there are
/// no aliases.
pub proof fn law_alias_is_looked_for(
    os: Os,
    entry_dir: Seq<char>,
    module: Seq<char>,
    dir: Seq<char>,
    name: Seq<char>,
    rest: Seq<char>,
)
    requires
        dir == (match parent_of(os, module) {
            Some(parent) => parent,
            None => entry_dir,
        }),
        alias_text(name),
    ensures
        spec_base(os, entry_dir, module, "@"@ + name) == (SpecBase::Alias {
            key: "@"@ + name,
            rest: ""@,
            dir,
        }),
        spec_base(os, entry_dir, module, "@"@ + name + "/"@ + rest) == (SpecBase::Alias {
            key: "@"@ + name,
            rest,
            dir,
        }),
        loadlib_base(os, entry_dir, module, "@"@ + name) == Err::<Seq<char>, Seq<char>>(
            "loadlib supports only @self aliases"@,
        ),
        loadlib_base(os, entry_dir, module, "@"@ + name + "/"@ + rest) == Err::<
            Seq<char>,
            Seq<char>,
        >("loadlib supports only @self aliases"@),
{
    reveal_strlit("./");
    reveal_strlit("../");
    reveal_strlit("@self");
    reveal_strlit(".");
    reveal_strlit("@");
    reveal_strlit("/");
    reveal_strlit("");
    let short = "@"@ + name;
    let long = "@"@ + name + "/"@ + rest;
    lemma_begins_not(short, "./"@, 0);
    lemma_begins_not(short, "../"@, 0);
    lemma_begins_not(long, "./"@, 0);
    lemma_begins_not(long, "../"@, 0);
    let i = if name.len() < 1 || name[0] != 's' {
        1int
    } else if name.len() < 2 || name[1] != 'e' {
        2int
    } else if name.len() < 3 || name[2] != 'l' {
        3int
    } else {
        4int
    };
    if name.len() >= i {
        assert(short[i] == name[i - 1]);
        assert(long[i] == name[i - 1]);
    } else {
        assert(long[i] == '/');
    }
    lemma_begins_not(short, "@self"@, i);
    lemma_begins_not(long, "@self"@, i);
    let tail = name + "/"@ + rest;
    assert(short.drop_first() =~= name);
    assert(long.drop_first() =~= tail);
    let n = name.len() as int;
    assert forall|j: int| 0 <= j < n implies tail[j] != '/' by {
        assert(!between(Os::Unix, name[j]));
    }
    lemma_find_char_first(tail, '/', 0, n);
    lemma_find_char_none(name, 0);
    assert(tail.take(n) =~= name);
    assert(name.take(n) =~= name);
    assert(tail.skip(n + 1) =~= rest);
    assert(seq!['@'] + name =~= short);
    assert(""@ =~= Seq::empty());
    assert(short != "."@ && long != "."@);
}

/// A text without a slash has none to be found.
proof fn lemma_find_char_none(s: Seq<char>, i: int)
    requires
        0 <= i,
        undivided(Os::Unix, s),
    ensures
        find_char_from(s, '/', i) is None,
    decreases s.len() - i,
{
    if i < s.len() {
        assert(!between(Os::Unix, s[i]));
        lemma_find_char_none(s, i + 1);
    }
}

/// A path whose name has an extension stands for that file alone.
pub proof fn law_candidate_with_extension(front: Seq<char>, stem: Seq<char>, ext: Seq<char>)
    requires
        front.len() > 0 ==> front.last() == '/',
        stem.len() > 0,
        undivided(Os::Unix, stem),
        ext.len() > 0,
        undivided(Os::Unix, ext),
        forall|i: int| 0 <= i < ext.len() ==> #[trigger] ext[i] != '.',
    ensures
        candidates(Os::Unix, front + stem + "."@ + ext) == seq![front + stem + "."@ + ext],
{
    law_extension_is_replaced(front, stem, ext, ext);
}

/// A path whose name has no extension stands for the file with the extension
/// `luau`, then for that with `lua`, and then for the init modules of the
/// directory of that name.
pub proof fn law_candidates_without_extension(front: Seq<char>, name: Seq<char>)
    requires
        front.len() > 0 ==> front.last() == '/',
        one_name(Os::Unix, name),
        forall|i: int| 0 < i < name.len() ==> #[trigger] name[i] != '.',
    ensures
        candidates(Os::Unix, front + name) == seq![
            front + name + ".luau"@,
            front + name + ".lua"@,
            front + name + "/init.luau"@,
            front + name + "/init.lua"@,
        ],
{
    reveal_strlit(".luau");
    reveal_strlit(".lua");
    reveal_strlit("/init.luau");
    reveal_strlit("/init.lua");
    reveal_strlit("luau");
    reveal_strlit("lua");
    reveal_strlit("init.luau");
    reveal_strlit("init.lua");
    reveal_strlit(".");
    reveal_strlit("/");
    let p = front + name;
    law_extension_is_added(front, name, "luau"@);
    law_extension_is_added(front, name, "lua"@);
    assert(!between(Os::Unix, name[name.len() - 1]));
    assert(p.last() == name[name.len() - 1]);
    law_joined_path(p, "init.luau"@);
    law_joined_path(p, "init.lua"@);
    assert(p + "."@ + "luau"@ =~= p + ".luau"@);
    assert(p + "."@ + "lua"@ =~= p + ".lua"@);
    assert(p + "/"@ + "init.luau"@ =~= p + "/init.luau"@);
    assert(p + "/"@ + "init.lua"@ =~= p + "/init.lua"@);
}

/// A path without a file name stands for itself and for the init modules in
/// it.
pub proof fn law_candidates_without_name(os: Os, p: Seq<char>)
    requires
        file_name_of(os, p) is None,
    ensures
        candidates(os, p) == seq![p, p, join_of(os, p, "init.luau"@), join_of(os, p, "init.lua"@)],
{
    law_no_extension_without_name(os, p, "luau"@);
    law_no_extension_without_name(os, p, "lua"@);
}

/// The modules of a directory that stand for it are `init.luau` and
/// `init.lua`, and no others.
pub proof fn law_init_modules(dir: Seq<char>, name: Seq<char>)
    requires
        ends_in_component(Os::Unix, dir),
        one_name(Os::Unix, name),
    ensures
        init_module(Os::Unix, dir + "/"@ + name) == (name == "init.luau"@ || name == "init.lua"@),
        init_module(Os::Unix, name) == (name == "init.luau"@ || name == "init.lua"@),
{
    law_path_in_directory(dir, name);
    law_bare_name(name);
}

/// The entry directory is the directory of the entry file: of `dir/name` it is
/// `dir`, of `/name` the root, of a bare name the directory without a name, and
/// of what lies in no directory `.`.
pub proof fn law_entry_directory(dir: Seq<char>, name: Seq<char>)
    requires
        ends_in_component(Os::Unix, dir),
        one_name(Os::Unix, name),
    ensures
        dir_or_current(Os::Unix, dir + "/"@ + name) == dir,
        dir_or_current(Os::Unix, "/"@ + name) == "/"@,
        dir_or_current(Os::Unix, name) == ""@,
        dir_or_current(Os::Unix, "/"@) == "."@,
{
    law_path_in_directory(dir, name);
    law_path_in_root(name);
    law_bare_name(name);
}

/// A file that is there has its canonical path; one that is not, and one whose
/// canonical path cannot be told, have a message that names them.
pub proof fn law_canonical_path(path: Seq<char>, file: Seq<char>, why: Seq<char>)
    ensures
        canonical(path, PathProbe::Canonical(file)) == Ok::<Seq<char>, Seq<char>>(file),
        canonical(path, PathProbe::Missing) == Err::<Seq<char>, Seq<char>>(
            "path does not exist: "@ + path,
        ),
        canonical(path, PathProbe::Failed(why)) == Err::<Seq<char>, Seq<char>>(
            "failed to canonicalize '"@ + path + "': "@ + why,
        ),
{
}

/// On every system, `@self` and `.` are a module itself, unless its file name
/// is `init.luau` or `init.lua`: then they are the directory that it lies in.
pub proof fn law_self_on_every_system(os: Os, entry_dir: Seq<char>, module: Seq<char>)
    ensures
        ({
            let name = file_name_of(os, module);
            let itself = if name == Some("init.luau"@) || name == Some("init.lua"@) {
                match parent_of(os, module) {
                    Some(dir) => dir,
                    None => entry_dir,
                }
            } else {
                module
            };
            &&& spec_base(os, entry_dir, module, "@self"@) == SpecBase::Path(itself)
            &&& spec_base(os, entry_dir, module, "."@) == SpecBase::Path(itself)
            &&& loadlib_base(os, entry_dir, module, "@self"@) == Ok::<Seq<char>, Seq<char>>(itself)
            &&& init_module(os, module) == (name == Some("init.luau"@) || name == Some("init.lua"@))
        }),
{
    reveal_strlit("./");
    reveal_strlit("../");
    reveal_strlit("@self");
    reveal_strlit(".");
    let none = Seq::<char>::empty();
    assert("@self"@ + none =~= "@self"@);
    lemma_begins("@self"@, none);
    lemma_begins_not("@self"@, "./"@, 0);
    lemma_begins_not("@self"@, "../"@, 0);
    lemma_begins_not("."@, "./"@, 1);
    lemma_begins_not("."@, "../"@, 1);
}

/// On every system, a path stands for itself alone where its name has an
/// extension, and otherwise for itself with `luau`, with `lua`, and for the two
/// init modules in it, in this order.
pub proof fn law_candidates_on_every_system(os: Os, p: Seq<char>)
    ensures
        has_extension(os, p) ==> candidates(os, p) == seq![p],
        !has_extension(os, p) ==> candidates(os, p) == seq![
            with_extension_of(os, p, "luau"@),
            with_extension_of(os, p, "lua"@),
            join_of(os, p, "init.luau"@),
            join_of(os, p, "init.lua"@),
        ],
{
}

/// On every system, the entry directory is the parent of the entry file, or `.`
/// if it has none.
pub proof fn law_entry_directory_on_every_system(os: Os, file: Seq<char>)
    ensures
        dir_or_current(os, file) == (match parent_of(os, file) {
            Some(dir) => dir,
            None => "."@,
        }),
{
}

} // verus!
