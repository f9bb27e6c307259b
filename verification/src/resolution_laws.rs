//! What holds of the search for modules as a whole.
use crate::luaurc::aliases_in;
use crate::path::{ancestors_of, join_of, law_path_order, path_before, same_path, Os};
use crate::require_resolver::{candidates, spec_base, SpecBase};
use crate::resolution::{
    alias_on, ambiguous_message, ascending_distinct, chosen, luaurc_of,
    merged, not_found_message, placed, probe_next, probing, query_of, runtime_after, search_of,
    search_step, sound, unknown_alias_message, AliasSearch, AliasView, FileEvent, FileQuery, Search,
    SearchView, Stage, StageView,
};
use crate::runtime_data::{FileFingerprint, RuntimeView};
use vstd::prelude::*;

verus! {

/// A file system that stands still.
pub struct Disk {
    /// The system by whose rules paths are read.
    pub os: Os,
    /// The version and the content of each `.luaurc` file.
    pub luaurc: Map<Seq<char>, (FileFingerprint, Seq<char>)>,
    /// The canonical path of each file.
    pub files: Map<Seq<char>, Seq<char>>,
}

/// What the file system answers to a query.
pub open spec fn answer(disk: Disk, q: FileQuery<Seq<char>>) -> FileEvent<Seq<char>> {
    match q {
        FileQuery::Stat(p) => if disk.luaurc.contains_key(p) {
            FileEvent::Stamped(disk.luaurc[p].0)
        } else {
            FileEvent::Absent
        },
        FileQuery::Stamp(p) => FileEvent::Stamped(disk.luaurc[p].0),
        FileQuery::Read(p) => FileEvent::Content(disk.luaurc[p].1),
        FileQuery::Probe(p) => if disk.files.contains_key(p) {
            FileEvent::Canonical(disk.files[p])
        } else {
            FileEvent::Absent
        },
    }
}

/// Whether the runtime reads paths as the file system does, and what it keeps
/// of `.luaurc` files is true of the file system: a record with the version
/// that a file has holds the aliases that the file declares.
pub open spec fn truthful(rt: RuntimeView, disk: Disk) -> bool {
    &&& rt.os == disk.os
    &&& forall|rc: Seq<char>| #[trigger]
        rt.luaurc_cache.contains_key(rc) && disk.luaurc.contains_key(rc) && rt.luaurc_cache[rc].fp
            == disk.luaurc[rc].0 ==> rt.luaurc_cache[rc].aliases == aliases_in(disk.luaurc[rc].1)
}

/// The aliases that the `.luaurc` files of the directories `dirs` declare, on
/// top of those in `found`; a later directory comes before an earlier one.
pub open spec fn aliases_of(
    disk: Disk,
    dirs: Seq<Seq<char>>,
    found: Map<Seq<char>, Seq<char>>,
) -> Map<Seq<char>, Seq<char>>
    decreases dirs.len(),
{
    if dirs.len() == 0 {
        found
    } else {
        let rc = luaurc_of(disk.os, dirs.first());
        aliases_of(
            disk,
            dirs.drop_first(),
            if disk.luaurc.contains_key(rc) {
                merged(disk.os, found, dirs.first(), aliases_in(disk.luaurc[rc].1))
            } else {
                found
            },
        )
    }
}

/// The canonical paths of the files of a list that are there.
pub open spec fn existing_of(disk: Disk, list: Seq<Seq<char>>) -> Seq<Seq<char>>
    decreases list.len(),
{
    if list.len() == 0 {
        Seq::empty()
    } else if disk.files.contains_key(list.first()) {
        seq![disk.files[list.first()]] + existing_of(disk, list.drop_first())
    } else {
        existing_of(disk, list.drop_first())
    }
}

/// The path below an alias.
pub open spec fn below_alias(
    os: Os,
    aliases: Map<Seq<char>, Seq<char>>,
    key: Seq<char>,
    rest: Seq<char>,
) -> Result<Seq<char>, Seq<char>> {
    if !aliases.contains_key(key) {
        Err(unknown_alias_message(key))
    } else if rest.len() == 0 {
        Ok(aliases[key])
    } else {
        Ok(join_of(os, aliases[key], rest))
    }
}

/// The path that the module name `spec` stands for, seen from `from`.
pub open spec fn base_of(disk: Disk, entry_dir: Seq<char>, from: Seq<char>, spec: Seq<char>) -> Result<
    Seq<char>,
    Seq<char>,
> {
    match spec_base(disk.os, entry_dir, from, spec) {
        SpecBase::Path(base) => Ok(base),
        SpecBase::Alias { key, rest, dir } => below_alias(
            disk.os,
            aliases_of(disk, ancestors_of(disk.os, dir), Map::empty()),
            key,
            rest,
        ),
    }
}

/// The file of the module named `spec` in the module `from`, or why there is
/// none.
pub open spec fn module_file(disk: Disk, entry_dir: Seq<char>, from: Seq<char>, spec: Seq<char>) -> Result<
    Seq<char>,
    Seq<char>,
> {
    match base_of(disk, entry_dir, from, spec) {
        Err(e) => Err(e),
        Ok(base) => chosen(disk.os, spec, from, existing_of(disk, candidates(disk.os, base))),
    }
}

/// How much is left of a search.
pub open spec fn left_of(s: SearchView) -> (int, int) {
    match s.stage {
        Stage::Stat(a) => (1, 2 * a.dirs.len() as int + 1),
        Stage::Read(a, _) => (1, 2 * a.dirs.len() as int),
        Stage::Probe { candidates, .. } => (0, candidates.len() as int + 1),
        Stage::Done(_) => (0, 0),
    }
}

/// A search that is answered has something to ask for as long as it runs, and
/// comes closer to its end.
#[verifier::spinoff_prover]
#[verifier::rlimit(60)]
pub proof fn lemma_answered_search(disk: Disk, rt: RuntimeView, s: SearchView)
    requires
        sound(s),
        !(s.stage is Done),
    ensures
        ({
            let t = search_step(rt, s, answer(disk, query_of(s)->0));
            &&& sound(t)
            &&& left_of(t).0 >= 0 && left_of(t).1 >= 0
            &&& left_of(t).0 < left_of(s).0 || left_of(t).0 == left_of(s).0 && left_of(t).1
                < left_of(s).1
        }),
{
}

/// What a search comes to, when the file system stands still.
#[verifier::opaque]
pub open spec fn searched(disk: Disk, rt: RuntimeView, s: SearchView) -> Result<
    Seq<char>,
    Seq<char>,
>
    decreases left_of(s).0, left_of(s).1,
    when sound(s)
    via searched_ends
{
    match s.stage {
        Stage::Done(r) => r,
        _ => {
            let e = answer(disk, query_of(s)->0);
            searched(disk, runtime_after(rt, s, e), search_step(rt, s, e))
        },
    }
}

#[via_fn]
proof fn searched_ends(disk: Disk, rt: RuntimeView, s: SearchView) {
}

/// A search that runs comes to what it comes to with one answer more; one
/// that is done, to what it has found.
#[verifier::spinoff_prover]
#[verifier::rlimit(60)]
pub proof fn lemma_searched(disk: Disk, rt: RuntimeView, s: SearchView)
    requires
        sound(s),
    ensures
        s.stage matches Stage::Done(r) ==> searched(disk, rt, s) == r,
        !(s.stage is Done) ==> searched(disk, rt, s) == searched(
            disk,
            runtime_after(rt, s, answer(disk, query_of(s)->0)),
            search_step(rt, s, answer(disk, query_of(s)->0)),
        ),
{
    reveal(searched);
}

/// The search for candidates comes to the one that is there.
proof fn lemma_probing(disk: Disk, rt: RuntimeView, s: SearchView)
    requires
        sound(s),
        s.stage is Probe,
    ensures
        searched(disk, rt, s) == chosen(
            s.os,
            s.spec,
            s.from,
            s.stage->existing + existing_of(disk, s.stage->candidates),
        ),
    decreases s.stage->candidates.len(),
{
    let candidates = s.stage->candidates;
    let existing = s.stage->existing;
    let e = answer(disk, query_of(s)->0);
    let t = search_step(rt, s, e);
    let more = if disk.files.contains_key(candidates.first()) {
        existing.push(disk.files[candidates.first()])
    } else {
        existing
    };
    lemma_searched(disk, rt, s);
    assert(runtime_after(rt, s, e) == rt);
    assert(t.stage == probe_next(s.os, s.spec, s.from, candidates, more));
    if candidates.len() > 1 {
        lemma_probing(disk, rt, t);
    } else {
        lemma_searched(disk, rt, t);
        assert(existing_of(disk, candidates.drop_first()) =~= Seq::empty());
    }
    assert(more + existing_of(disk, candidates.drop_first()) =~= existing + existing_of(
        disk,
        candidates,
    ));
}

/// The search for the candidates of a path comes to the one that is there.
proof fn lemma_probing_base(disk: Disk, rt: RuntimeView, s: SearchView, base: Seq<char>)
    requires
        s.stage == probing(s.os, base),
    ensures
        searched(disk, rt, s) == chosen(s.os, s.spec, s.from, existing_of(disk, candidates(s.os, base))),
{
    lemma_probing(disk, rt, s);
    assert(Seq::<Seq<char>>::empty() + existing_of(disk, candidates(s.os, base)) =~= existing_of(
        disk,
        candidates(s.os, base),
    ));
}

/// The search for an alias with the first directory dealt with.
pub open spec fn past_first(disk: Disk, a: AliasView) -> AliasView {
    let rc = luaurc_of(disk.os, a.dirs.first());
    AliasSearch {
        dirs: a.dirs.drop_first(),
        found: if disk.luaurc.contains_key(rc) {
            merged(disk.os, a.found, a.dirs.first(), aliases_in(disk.luaurc[rc].1))
        } else {
            a.found
        },
        ..a
    }
}

/// The search for an alias goes on to the next directory, whether the
/// `.luaurc` file of the first one is read or has been read before. What the
/// runtime then keeps is handed back.
#[verifier::rlimit(40)]
proof fn lemma_past_first(disk: Disk, rt: RuntimeView, s: SearchView, a: AliasView) -> (next:
    RuntimeView)
    requires
        s.stage == StageView::Stat(a),
        a.dirs.len() > 0,
        s.os == disk.os,
        truthful(rt, disk),
    ensures
        truthful(next, disk),
        searched(disk, rt, s) == searched(
            disk,
            next,
            Search { stage: alias_on(s.os, past_first(disk, a)), ..s },
        ),
{
    let rc = luaurc_of(s.os, a.dirs.first());
    let e = answer(disk, query_of(s)->0);
    let t = search_step(rt, s, e);
    let end = Search { stage: alias_on(s.os, past_first(disk, a)), ..s };
    lemma_searched(disk, rt, s);
    assert(runtime_after(rt, s, e) == rt);
    if t.stage is Read {
        let read = answer(disk, query_of(t)->0);
        let next = runtime_after(rt, t, read);
        assert(t.stage == StageView::Read(a, disk.luaurc[rc].0));
        assert(search_step(rt, t, read) == end);
        lemma_searched(disk, rt, t);
        next
    } else {
        assert(t == end);
        rt
    }
}

/// The search for an alias comes to the candidates of the path below it.
proof fn lemma_alias(disk: Disk, rt: RuntimeView, s: SearchView, a: AliasView)
    requires
        s.stage == alias_on(s.os, a),
        s.os == disk.os,
        truthful(rt, disk),
    ensures
        searched(disk, rt, s) == (match below_alias(
            disk.os,
            aliases_of(disk, a.dirs, a.found),
            a.key,
            a.rest,
        ) {
            Err(e) => Err(e),
            Ok(base) => chosen(s.os, s.spec, s.from, existing_of(disk, candidates(s.os, base))),
        }),
    decreases a.dirs.len(),
{
    if a.dirs.len() == 0 {
        if a.found.contains_key(a.key) {
            let base = if a.rest.len() == 0 {
                a.found[a.key]
            } else {
                join_of(s.os, a.found[a.key], a.rest)
            };
            lemma_probing_base(disk, rt, s, base);
        } else {
            lemma_searched(disk, rt, s);
        }
    } else {
        let next = lemma_past_first(disk, rt, s, a);
        let b = past_first(disk, a);
        lemma_alias(disk, next, Search { stage: alias_on(s.os, b), ..s }, b);
    }
}

/// A search comes to the file that the name of the module stands for: the
/// answers may come from the file system or from what the runtime keeps of
/// `.luaurc` files read before.
pub proof fn law_search_finds_module(
    disk: Disk,
    rt: RuntimeView,
    from: Seq<char>,
    spec: Seq<char>,
)
    requires
        truthful(rt, disk),
    ensures
        searched(disk, rt, search_of(rt, from, spec)) == module_file(
            disk,
            rt.entry_dir,
            from,
            spec,
        ),
{
    let s = search_of(rt, from, spec);
    match spec_base(rt.os, rt.entry_dir, from, spec) {
        SpecBase::Path(base) => {
            lemma_probing_base(disk, rt, s, base);
        },
        SpecBase::Alias { key, rest, dir } => {
            let a = AliasSearch { key, rest, dirs: ancestors_of(rt.os, dir), found: Map::empty() };
            lemma_alias(disk, rt, s, a);
        },
    }
}

/// A runtime in which nothing has happened yet keeps nothing that is not true
/// of the file system.
pub proof fn law_fresh_runtime_is_truthful(
    disk: Disk,
    entry_file: Seq<char>,
    entry_dir: Seq<char>,
)
    ensures
        truthful(RuntimeView::fresh(disk.os, entry_file, entry_dir), disk),
{
}

/// What a search leaves in the runtime stays true of the file system.
pub proof fn law_search_keeps_truth(disk: Disk, rt: RuntimeView, s: SearchView)
    requires
        truthful(rt, disk),
        query_of(s) is Some,
        s.stage matches Stage::Read(a, fp) ==> disk.luaurc.contains_key(luaurc_of(s.os, a.dirs.first()))
            && disk.luaurc[luaurc_of(s.os, a.dirs.first())].0 == fp,
    ensures
        truthful(runtime_after(rt, s, answer(disk, query_of(s)->0)), disk),
{
}

/// Whether each path of a list comes before the next.
pub open spec fn ascending(os: Os, list: Seq<Seq<char>>) -> bool {
    forall|i: int, j: int| 0 <= i < j < list.len() ==> path_before(os, #[trigger] list[i], #[trigger] list[j])
}

/// Whether a list has a path that denotes the same as `p`.
pub open spec fn denoted_in(os: Os, list: Seq<Seq<char>>, p: Seq<char>) -> bool {
    exists|i: int| 0 <= i < list.len() && same_path(os, p, #[trigger] list[i])
}

/// A path put in its place keeps a list in ascending order and adds nothing
/// else.
proof fn lemma_placed(os: Os, list: Seq<Seq<char>>, p: Seq<char>)
    requires
        ascending(os, list),
    ensures
        ascending(os, placed(os, list, p)),
        denoted_in(os, placed(os, list, p), p),
        forall|q: Seq<char>| #[trigger] placed(os, list, p).contains(q) ==> q == p || list.contains(q),
        forall|q: Seq<char>| #[trigger] list.contains(q) ==> placed(os, list, p).contains(q),
    decreases list.len(),
{
    let r = placed(os, list, p);
    if list.len() == 0 {
        assert(r =~= seq![p]);
        assert(same_path(os, p, r[0]));
    } else if same_path(os, p, list.first()) {
        assert(same_path(os, p, r[0]));
    } else if path_before(os, p, list.first()) {
        assert(r[0] == p);
        assert(same_path(os, p, r[0]));
        assert forall|i: int, j: int| 0 <= i < j < r.len() implies path_before(
            os,
            #[trigger] r[i],
            #[trigger] r[j],
        ) by {
            if i == 0 {
                law_path_order(os, p, list[0], list[j - 1]);
                if j > 1 {
                    assert(path_before(os, list[0], list[j - 1]));
                }
            } else {
                assert(path_before(os, list[i - 1], list[j - 1]));
            }
        }
        assert forall|q: Seq<char>| #[trigger] r.contains(q) implies q == p || list.contains(q) by {
            let i = choose|i: int| 0 <= i < r.len() && r[i] == q;
            if i > 0 {
                assert(list[i - 1] == q);
            }
        }
        assert forall|q: Seq<char>| #[trigger] list.contains(q) implies r.contains(q) by {
            let i = choose|i: int| 0 <= i < list.len() && list[i] == q;
            assert(r[i + 1] == q);
        }
    } else {
        let first = list.first();
        let rest = list.drop_first();
        assert(ascending(os, rest)) by {
            assert forall|i: int, j: int| 0 <= i < j < rest.len() implies path_before(
                os,
                #[trigger] rest[i],
                #[trigger] rest[j],
            ) by {
                assert(path_before(os, list[i + 1], list[j + 1]));
            }
        }
        lemma_placed(os, rest, p);
        law_path_order(os, p, first, first);
        let tail = placed(os, rest, p);
        assert(r == seq![first] + tail);
        assert forall|i: int, j: int| 0 <= i < j < r.len() implies path_before(
            os,
            #[trigger] r[i],
            #[trigger] r[j],
        ) by {
            if i == 0 {
                assert(tail.contains(tail[j - 1]));
                if tail[j - 1] != p {
                    let k = choose|k: int| 0 <= k < rest.len() && rest[k] == tail[j - 1];
                    assert(path_before(os, list[0], list[k + 1]));
                }
            } else {
                assert(path_before(os, tail[i - 1], tail[j - 1]));
            }
        }
        let at = choose|i: int| 0 <= i < tail.len() && same_path(os, p, #[trigger] tail[i]);
        assert(same_path(os, p, r[at + 1]));
        assert forall|q: Seq<char>| #[trigger] r.contains(q) implies q == p || list.contains(q) by {
            let i = choose|i: int| 0 <= i < r.len() && r[i] == q;
            if i == 0 {
                assert(list[0] == q);
            } else {
                assert(tail[i - 1] == q);
                assert(tail.contains(q));
                if q != p {
                    let k = choose|k: int| 0 <= k < rest.len() && rest[k] == q;
                    assert(list[k + 1] == q);
                }
            }
        }
        assert forall|q: Seq<char>| #[trigger] list.contains(q) implies r.contains(q) by {
            let i = choose|i: int| 0 <= i < list.len() && list[i] == q;
            if i == 0 {
                assert(r[0] == q);
            } else {
                assert(rest[i - 1] == q);
                assert(rest.contains(q));
                let k = choose|k: int| 0 <= k < tail.len() && tail[k] == q;
                assert(r[k + 1] == q);
            }
        }
    }
}

/// The different paths of a list are in ascending order, all come from the
/// list, and each path of the list denotes one of them.
pub proof fn law_ascending_distinct(os: Os, list: Seq<Seq<char>>)
    ensures
        ascending(os, ascending_distinct(os, list)),
        forall|p: Seq<char>| #[trigger]
            ascending_distinct(os, list).contains(p) ==> list.contains(p),
        forall|p: Seq<char>| #[trigger]
            list.contains(p) ==> denoted_in(os, ascending_distinct(os, list), p),
    decreases list.len(),
{
    let r = ascending_distinct(os, list);
    if list.len() > 0 {
        let front = list.drop_last();
        let before = ascending_distinct(os, front);
        law_ascending_distinct(os, front);
        lemma_placed(os, before, list.last());
        assert forall|p: Seq<char>| #[trigger] r.contains(p) implies list.contains(p) by {
            if p == list.last() {
                assert(list[list.len() - 1] == p);
            } else {
                let i = choose|i: int| 0 <= i < front.len() && front[i] == p;
                assert(list[i] == p);
            }
        }
        assert forall|p: Seq<char>| #[trigger] list.contains(p) implies denoted_in(os, r, p) by {
            let i = choose|i: int| 0 <= i < list.len() && list[i] == p;
            if i < front.len() {
                assert(front[i] == p);
                assert(front.contains(p));
                let k = choose|k: int| 0 <= k < before.len() && same_path(os, p, #[trigger] before[k]);
                assert(before.contains(before[k]));
                let m = choose|m: int| 0 <= m < r.len() && r[m] == before[k];
                assert(same_path(os, p, r[m]));
            }
        }
    }
}

/// No module is chosen where none is there. Where all candidates that are
/// there denote one file, that file is chosen. Where two denote different
/// files, the name is ambiguous, and the message lists the files in order.
pub proof fn law_choice(os: Os, spec: Seq<char>, from: Seq<char>, existing: Seq<Seq<char>>)
    ensures
        existing.len() == 0 ==> chosen(os, spec, from, existing) == Err::<Seq<char>, Seq<char>>(
            not_found_message(spec, from),
        ),
        existing.len() > 0 && (forall|i: int|
            0 <= i < existing.len() ==> same_path(os, #[trigger] existing[i], existing[0]))
            ==> chosen(os, spec, from, existing) == Ok::<Seq<char>, Seq<char>>(existing[0]),
        (exists|i: int, j: int|
            0 <= i < existing.len() && 0 <= j < existing.len() && !same_path(
                os,
                #[trigger] existing[i],
                #[trigger] existing[j],
            )) ==> chosen(os, spec, from, existing) == Err::<Seq<char>, Seq<char>>(
            ambiguous_message(spec, ascending_distinct(os, existing)),
        ),
{
    let paths = ascending_distinct(os, existing);
    law_ascending_distinct(os, existing);
    if existing.len() > 0 && (forall|i: int|
        0 <= i < existing.len() ==> same_path(os, #[trigger] existing[i], existing[0])) {
        lemma_one_file(os, existing);
    }
    if exists|i: int, j: int|
        0 <= i < existing.len() && 0 <= j < existing.len() && !same_path(
            os,
            #[trigger] existing[i],
            #[trigger] existing[j],
        ) {
        let (i, j) = choose|i: int, j: int|
            0 <= i < existing.len() && 0 <= j < existing.len() && !same_path(
                os,
                #[trigger] existing[i],
                #[trigger] existing[j],
            );
        assert(existing.contains(existing[i]) && existing.contains(existing[j]));
        assert(denoted_in(os, paths, existing[i]) && denoted_in(os, paths, existing[j]));
    }
}

/// Of paths that all denote one file, the first is kept.
proof fn lemma_one_file(os: Os, list: Seq<Seq<char>>)
    requires
        list.len() > 0,
        forall|i: int| 0 <= i < list.len() ==> same_path(os, #[trigger] list[i], list[0]),
    ensures
        ascending_distinct(os, list) == seq![list[0]],
    decreases list.len(),
{
    let front = list.drop_last();
    if front.len() > 0 {
        assert forall|i: int| 0 <= i < front.len() implies same_path(
            os,
            #[trigger] front[i],
            front[0],
        ) by {
            assert(same_path(os, list[i], list[0]));
        }
        lemma_one_file(os, front);
        assert(same_path(os, list[list.len() - 1], list[0]));
    } else {
        assert(ascending_distinct(os, front) =~= Seq::empty());
        assert(placed(os, Seq::empty(), list.last()) =~= seq![list[0]]);
    }
}

/// The aliases that are known with one more directory below.
proof fn lemma_last_directory(
    disk: Disk,
    dirs: Seq<Seq<char>>,
    found: Map<Seq<char>, Seq<char>>,
)
    requires
        dirs.len() > 0,
    ensures
        aliases_of(disk, dirs, found) == aliases_of(
            disk,
            seq![dirs.last()],
            aliases_of(disk, dirs.drop_last(), found),
        ),
    decreases dirs.len(),
{
    if dirs.len() == 1 {
        assert(dirs =~= seq![dirs.last()]);
        assert(aliases_of(disk, dirs.drop_last(), found) == found);
    } else {
        let rc = luaurc_of(disk.os, dirs.first());
        let next = if disk.luaurc.contains_key(rc) {
            merged(disk.os, found, dirs.first(), aliases_in(disk.luaurc[rc].1))
        } else {
            found
        };
        lemma_last_directory(disk, dirs.drop_first(), next);
        assert(dirs.drop_first().drop_last() =~= dirs.drop_last().drop_first());
    }
}

/// An alias stands for what the nearest `.luaurc` file that declares it says:
/// a declaration in the last directory decides, and where there is none the
/// directories above decide. A relative path counts from the directory of
/// the declaration.
pub proof fn law_nearest_declaration_wins(
    disk: Disk,
    dirs: Seq<Seq<char>>,
    found: Map<Seq<char>, Seq<char>>,
    key: Seq<char>,
)
    requires
        dirs.len() > 0,
    ensures
        ({
            let rc = luaurc_of(disk.os, dirs.last());
            let aliases = aliases_of(disk, dirs, found);
            let above = aliases_of(disk, dirs.drop_last(), found);
            if disk.luaurc.contains_key(rc) && aliases_in(disk.luaurc[rc].1).contains_key(key) {
                aliases.contains_key(key) && aliases[key] == join_of(
                    disk.os,
                    dirs.last(),
                    aliases_in(disk.luaurc[rc].1)[key],
                )
            } else {
                aliases.contains_key(key) == above.contains_key(key) && (above.contains_key(key)
                    ==> aliases[key] == above[key])
            }
        }),
{
    lemma_last_directory(disk, dirs, found);
    reveal_with_fuel(aliases_of, 2);
    assert(seq![dirs.last()].drop_first().len() == 0);
}

} // verus!
