//! What holds of the aliases that a search looks up, and of what the runtime
//! keeps of `.luaurc` files.
use crate::luaurc::aliases_in;
use crate::path::ancestors_of;
use crate::require_resolver::{spec_base, SpecBase};
use crate::resolution::{
    alias_done, alias_on, luaurc_of, merged, query_of, runtime_after, search_of, search_step, sound,
    AliasSearch, AliasView, FileEvent, FileQuery, Search, SearchView, StageView,
};
use crate::resolution_laws::{answer, left_of, lemma_answered_search, Disk};
use crate::runtime_data::{FileFingerprint, LuaurcRecord, RuntimeView};
use vstd::prelude::*;

verus! {

/// What comes of looking up the aliases of a search: the runtime, the search,
/// and how many files were read.
#[verifier::ext_equal]
pub struct LookedUp {
    pub rt: RuntimeView,
    pub search: SearchView,
    pub reads: nat,
}

/// What comes of looking up the aliases of a search, when the file system
/// stands still.
#[verifier::opaque]
pub open spec fn looked_up(disk: Disk, rt: RuntimeView, s: SearchView) -> LookedUp
    decreases left_of(s).0, left_of(s).1,
    when sound(s)
    via looked_up_ends
{
    if s.stage is Stat || s.stage is Read {
        let e = answer(disk, query_of(s)->0);
        let next = looked_up(disk, runtime_after(rt, s, e), search_step(rt, s, e));
        LookedUp {
            reads: next.reads + if query_of(s)->0 is Read {
                1nat
            } else {
                0nat
            },
            ..next
        }
    } else {
        LookedUp { rt, search: s, reads: 0 }
    }
}

#[via_fn]
proof fn looked_up_ends(disk: Disk, rt: RuntimeView, s: SearchView) {
    if !(s.stage is Done) {
        lemma_answered_search(disk, rt, s);
    }
}

/// Whether the runtime keeps the version of a `.luaurc` file that the file
/// system has.
pub open spec fn up_to_date(rt: RuntimeView, disk: Disk, rc: Seq<char>) -> bool {
    rt.luaurc_cache.contains_key(rc) && rt.luaurc_cache[rc].fp == disk.luaurc[rc].0
}

/// The runtime once the `.luaurc` file of a directory has been looked at.
pub open spec fn seen(disk: Disk, rt: RuntimeView, dir: Seq<char>) -> RuntimeView {
    let rc = luaurc_of(rt.os, dir);
    if disk.luaurc.contains_key(rc) && !up_to_date(rt, disk, rc) {
        rt.luaurc_read(
            rc,
            LuaurcRecord { fp: disk.luaurc[rc].0, aliases: aliases_in(disk.luaurc[rc].1) },
        )
    } else {
        rt
    }
}

/// The aliases found once the `.luaurc` file of a directory has been looked
/// at.
pub open spec fn found_with(
    disk: Disk,
    rt: RuntimeView,
    dir: Seq<char>,
    found: Map<Seq<char>, Seq<char>>,
) -> Map<Seq<char>, Seq<char>> {
    let rc = luaurc_of(rt.os, dir);
    if disk.luaurc.contains_key(rc) {
        merged(rt.os, found, dir, seen(disk, rt, dir).luaurc_cache[rc].aliases)
    } else {
        found
    }
}

/// The runtime once the `.luaurc` files of directories have been looked at.
pub open spec fn all_seen(disk: Disk, rt: RuntimeView, dirs: Seq<Seq<char>>) -> RuntimeView
    decreases dirs.len(),
{
    if dirs.len() == 0 {
        rt
    } else {
        all_seen(disk, seen(disk, rt, dirs.first()), dirs.drop_first())
    }
}

/// The aliases found once the `.luaurc` files of directories have been looked
/// at.
pub open spec fn all_found(
    disk: Disk,
    rt: RuntimeView,
    dirs: Seq<Seq<char>>,
    found: Map<Seq<char>, Seq<char>>,
) -> Map<Seq<char>, Seq<char>>
    decreases dirs.len(),
{
    if dirs.len() == 0 {
        found
    } else {
        all_found(
            disk,
            seen(disk, rt, dirs.first()),
            dirs.drop_first(),
            found_with(disk, rt, dirs.first(), found),
        )
    }
}

/// How many `.luaurc` files of directories are read.
pub open spec fn all_read(disk: Disk, rt: RuntimeView, dirs: Seq<Seq<char>>) -> nat
    decreases dirs.len(),
{
    if dirs.len() == 0 {
        0
    } else {
        let rc = luaurc_of(rt.os, dirs.first());
        all_read(disk, seen(disk, rt, dirs.first()), dirs.drop_first()) + if disk.luaurc.contains_key(
            rc,
        ) && !up_to_date(rt, disk, rc) {
            1nat
        } else {
            0nat
        }
    }
}

/// The lookup looks at one directory after the other.
#[verifier::rlimit(40)]
proof fn lemma_first_directory(disk: Disk, rt: RuntimeView, s: SearchView, a: AliasView)
    requires
        s.stage == StageView::Stat(a),
        a.dirs.len() > 0,
        s.os == rt.os,
    ensures
        ({
            let dir = a.dirs.first();
            let rc = luaurc_of(s.os, dir);
            let next = Search {
                stage: alias_on(
                    s.os,
                    AliasSearch {
                        dirs: a.dirs.drop_first(),
                        found: found_with(disk, rt, dir, a.found),
                        ..a
                    },
                ),
                ..s
            };
            let rest = looked_up(disk, seen(disk, rt, dir), next);
            looked_up(disk, rt, s) == (LookedUp {
                reads: rest.reads + if disk.luaurc.contains_key(rc) && !up_to_date(rt, disk, rc) {
                    1nat
                } else {
                    0nat
                },
                ..rest
            })
        }),
{
    let rc = luaurc_of(s.os, a.dirs.first());
    let e = answer(disk, query_of(s)->0);
    let t = search_step(rt, s, e);
    lemma_looked_up(disk, rt, s);
    assert(runtime_after(rt, s, e) == rt);
    if disk.luaurc.contains_key(rc) && !up_to_date(rt, disk, rc) {
        assert(t.stage == StageView::Read(a, disk.luaurc[rc].0));
        lemma_looked_up(disk, rt, t);
        assert(query_of(t) == Some(FileQuery::Read(rc)));
    }
}

/// The lookup goes on with one answer more.
#[verifier::spinoff_prover]
#[verifier::rlimit(60)]
proof fn lemma_looked_up(disk: Disk, rt: RuntimeView, s: SearchView)
    requires
        sound(s),
    ensures
        s.stage is Stat || s.stage is Read ==> {
            let e = answer(disk, query_of(s)->0);
            let next = looked_up(disk, runtime_after(rt, s, e), search_step(rt, s, e));
            looked_up(disk, rt, s) == (LookedUp {
                reads: next.reads + if query_of(s)->0 is Read {
                    1nat
                } else {
                    0nat
                },
                ..next
            })
        },
        !(s.stage is Stat || s.stage is Read) ==> looked_up(disk, rt, s) == (LookedUp {
            rt,
            search: s,
            reads: 0,
        }),
{
    reveal(looked_up);
}

/// The lookup comes to the aliases of all the directories.
proof fn lemma_lookup(disk: Disk, rt: RuntimeView, s: SearchView, a: AliasView)
    requires
        s.stage == alias_on(s.os, a),
        s.os == rt.os,
    ensures
        looked_up(disk, rt, s) == (LookedUp {
            rt: all_seen(disk, rt, a.dirs),
            search: Search {
                stage: alias_done(
                    s.os,
                    AliasSearch { found: all_found(disk, rt, a.dirs, a.found), ..a },
                ),
                ..s
            },
            reads: all_read(disk, rt, a.dirs),
        }),
    decreases a.dirs.len(),
{
    if a.dirs.len() == 0 {
        lemma_looked_up(disk, rt, s);
    } else {
        let dir = a.dirs.first();
        let b = AliasSearch {
            dirs: a.dirs.drop_first(),
            found: found_with(disk, rt, dir, a.found),
            ..a
        };
        lemma_first_directory(disk, rt, s, a);
        lemma_lookup(disk, seen(disk, rt, dir), Search { stage: alias_on(s.os, b), ..s }, b);
    }
}

/// What is up to date stays as it is.
proof fn lemma_stays(disk: Disk, rt: RuntimeView, dirs: Seq<Seq<char>>, rc: Seq<char>)
    requires
        disk.luaurc.contains_key(rc),
        up_to_date(rt, disk, rc),
    ensures
        up_to_date(all_seen(disk, rt, dirs), disk, rc),
        all_seen(disk, rt, dirs).luaurc_cache[rc] == rt.luaurc_cache[rc],
    decreases dirs.len(),
{
    if dirs.len() > 0 {
        lemma_stays(disk, seen(disk, rt, dirs.first()), dirs.drop_first(), rc);
    }
}

/// To look at the same files again finds the same, reads nothing and changes
/// nothing.
proof fn lemma_again(
    disk: Disk,
    rt: RuntimeView,
    dirs: Seq<Seq<char>>,
    found: Map<Seq<char>, Seq<char>>,
)
    ensures
        ({
            let after = all_seen(disk, rt, dirs);
            &&& all_seen(disk, after, dirs) == after
            &&& all_found(disk, after, dirs, found) == all_found(disk, rt, dirs, found)
            &&& all_read(disk, after, dirs) == 0
            &&& forall|i: int|
                0 <= i < dirs.len() && disk.luaurc.contains_key(luaurc_of(rt.os, #[trigger] dirs[i]))
                    ==> up_to_date(after, disk, luaurc_of(rt.os, dirs[i]))
        }),
    decreases dirs.len(),
{
    if dirs.len() > 0 {
        let dir = dirs.first();
        let rest = dirs.drop_first();
        let rc = luaurc_of(rt.os, dir);
        let mid = seen(disk, rt, dir);
        let after = all_seen(disk, rt, dirs);
        lemma_same_entry(disk, rt, dirs);
        lemma_again(disk, mid, rest, found_with(disk, rt, dir, found));
        if disk.luaurc.contains_key(rc) {
            lemma_stays(disk, mid, rest, rc);
        }
        assert(seen(disk, after, dir) == after);
        assert(found_with(disk, after, dir, found) == found_with(disk, rt, dir, found));
        assert forall|i: int|
            0 <= i < dirs.len() && disk.luaurc.contains_key(
                luaurc_of(rt.os, #[trigger] dirs[i]),
            ) implies up_to_date(after, disk, luaurc_of(rt.os, dirs[i])) by {
            if i > 0 {
                assert(rest[i - 1] == dirs[i]);
            }
        }
    }
}

/// A second lookup, the files being unchanged, finds the same aliases, reads
/// no file and leaves the runtime as it is; the first has left the version of
/// each `.luaurc` file above the module in the runtime.
pub proof fn law_second_lookup_reads_nothing(
    disk: Disk,
    rt: RuntimeView,
    from: Seq<char>,
    spec: Seq<char>,
)
    ensures
        ({
            let first = looked_up(disk, rt, search_of(rt, from, spec));
            let second = looked_up(disk, first.rt, search_of(first.rt, from, spec));
            &&& second == (LookedUp { reads: 0, ..first })
            &&& spec_base(rt.os, rt.entry_dir, from, spec) matches SpecBase::Alias { dir, .. } ==> {
                let dirs = ancestors_of(rt.os, dir);
                forall|i: int|
                    0 <= i < dirs.len() && disk.luaurc.contains_key(luaurc_of(rt.os, #[trigger] dirs[i]))
                        ==> up_to_date(first.rt, disk, luaurc_of(rt.os, dirs[i]))
            }
        }),
{
    let s = search_of(rt, from, spec);
    match spec_base(rt.os, rt.entry_dir, from, spec) {
        SpecBase::Path(_) => {
            lemma_looked_up(disk, rt, s);
        },
        SpecBase::Alias { key, rest, dir } => {
            let dirs = ancestors_of(rt.os, dir);
            let a = AliasSearch { key, rest, dirs, found: Map::empty() };
            lemma_lookup(disk, rt, s, a);
            let after = all_seen(disk, rt, dirs);
            lemma_same_entry(disk, rt, dirs);
            lemma_again(disk, rt, dirs, a.found);
            lemma_lookup(disk, after, search_of(after, from, spec), a);
        },
    }
}

/// Looking at `.luaurc` files leaves the entry directory, and how paths are
/// read, alone.
proof fn lemma_same_entry(disk: Disk, rt: RuntimeView, dirs: Seq<Seq<char>>)
    ensures
        all_seen(disk, rt, dirs).entry_dir == rt.entry_dir,
        all_seen(disk, rt, dirs).os == rt.os,
    decreases dirs.len(),
{
    if dirs.len() > 0 {
        lemma_same_entry(disk, seen(disk, rt, dirs.first()), dirs.drop_first());
    }
}

/// A `.luaurc` file of another version than the one that is kept, or of which
/// none is kept, is read, and what it declares replaces what was kept of it.
pub proof fn law_changed_luaurc_is_read_anew(
    rt: RuntimeView,
    s: SearchView,
    a: AliasView,
    fp: FileFingerprint,
    content: Seq<char>,
)
    requires
        s.stage == StageView::Stat(a),
        a.dirs.len() > 0,
        !(rt.luaurc_cache.contains_key(luaurc_of(s.os, a.dirs.first()))
            && rt.luaurc_cache[luaurc_of(s.os, a.dirs.first())].fp == fp),
    ensures
        ({
            let rc = luaurc_of(s.os, a.dirs.first());
            let t = search_step(rt, s, FileEvent::Stamped(fp));
            let after = runtime_after(rt, t, FileEvent::Content(content));
            &&& query_of(t) == Some(FileQuery::Read(rc))
            &&& after.luaurc_cache == rt.luaurc_cache.insert(
                rc,
                LuaurcRecord { fp, aliases: aliases_in(content) },
            )
        }),
{
}

} // verus!
