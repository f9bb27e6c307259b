//! The search for the file of a module.
//!
//! A search asks for one thing at a time of the file system and goes on with
//! the answer, until it has found the one file that the name of the module
//! stands for, or a reason why there is none.
use crate::luaurc::{aliases_in, parse_aliases_from_luaurc};
use crate::path::{self, ancestors_of, join_of, path_before, same_path, Os};
use crate::require_resolver::{
    candidate_paths, candidates, resolve_spec_base, spec_base, SpecBase,
};
use crate::runtime_data::{
    FileFingerprint, LuaurcCacheEntry, LuaurcRecord, RuntimeData, RuntimeView,
};
use crate::text::{join, joined, outcome, texts};
use crate::text_map::TextMap;
use vstd::prelude::*;

verus! {

/// What the file system answers.
#[verifier::ext_equal]
#[derive(PartialEq, Eq, Debug)]
pub enum FileEvent<T> {
    /// There is no such file.
    Absent,
    /// The file was there a moment ago, and is there no more.
    Vanished,
    /// The version of the file.
    Stamped(FileFingerprint),
    /// What the file holds.
    Content(T),
    /// The canonical path of the file.
    Canonical(T),
    /// It could not be done, and this is why.
    Failed(T),
}

impl View for FileEvent<String> {
    type V = FileEvent<Seq<char>>;

    open spec fn view(&self) -> FileEvent<Seq<char>> {
        match *self {
            FileEvent::Absent => FileEvent::Absent,
            FileEvent::Vanished => FileEvent::Vanished,
            FileEvent::Stamped(fp) => FileEvent::Stamped(fp),
            FileEvent::Content(t) => FileEvent::Content(t@),
            FileEvent::Canonical(t) => FileEvent::Canonical(t@),
            FileEvent::Failed(t) => FileEvent::Failed(t@),
        }
    }
}

/// What is asked of the file system.
#[verifier::ext_equal]
#[derive(PartialEq, Eq, Debug)]
pub enum FileQuery<T> {
    /// Whether the file is there and, if it is, its version.
    Stat(T),
    /// The version of the file.
    Stamp(T),
    /// What the file holds.
    Read(T),
    /// Whether the file is there and, if it is, its canonical path.
    Probe(T),
}

impl View for FileQuery<String> {
    type V = FileQuery<Seq<char>>;

    open spec fn view(&self) -> FileQuery<Seq<char>> {
        match *self {
            FileQuery::Stat(t) => FileQuery::Stat(t@),
            FileQuery::Stamp(t) => FileQuery::Stamp(t@),
            FileQuery::Read(t) => FileQuery::Read(t@),
            FileQuery::Probe(t) => FileQuery::Probe(t@),
        }
    }
}

/// An alias being looked for: its key, what follows it in the name, the
/// directories whose `.luaurc` files are still to be looked at, topmost
/// first, and the aliases found so far.
#[verifier::ext_equal]
pub struct AliasSearch<T, L, M> {
    pub key: T,
    pub rest: T,
    pub dirs: L,
    pub found: M,
}

/// A search for the file of the module named `spec` in the module `from`.
#[verifier::ext_equal]
pub struct Search<T, L, M> {
    pub os: Os,
    pub spec: T,
    pub from: T,
    pub stage: Stage<T, L, M>,
}

/// How far a search has come.
#[verifier::ext_equal]
pub enum Stage<T, L, M> {
    /// Looking for the `.luaurc` file of the first directory.
    Stat(AliasSearch<T, L, M>),
    /// Reading the `.luaurc` file of the first directory, in this version.
    Read(AliasSearch<T, L, M>, FileFingerprint),
    /// Looking for the first of the candidates that are left; the canonical
    /// paths of those that are there have been collected.
    Probe {
        candidates: L,
        existing: L,
    },
    /// The file, or why there is none.
    Done(Result<T, T>),
}

/// A search that runs.
pub type Resolution = Search<String, Vec<String>, TextMap<String>>;

/// What a search stands for.
pub type SearchView = Search<Seq<char>, Seq<Seq<char>>, Map<Seq<char>, Seq<char>>>;

/// What a stage stands for.
pub type StageView = Stage<Seq<char>, Seq<Seq<char>>, Map<Seq<char>, Seq<char>>>;

/// What a search for an alias stands for.
pub type AliasView = AliasSearch<Seq<char>, Seq<Seq<char>>, Map<Seq<char>, Seq<char>>>;

impl View for AliasSearch<String, Vec<String>, TextMap<String>> {
    type V = AliasView;

    open spec fn view(&self) -> AliasView {
        AliasSearch {
            key: self.key@,
            rest: self.rest@,
            dirs: texts(self.dirs@),
            found: self.found@,
        }
    }
}

impl View for Stage<String, Vec<String>, TextMap<String>> {
    type V = StageView;

    open spec fn view(&self) -> StageView {
        match *self {
            Stage::Stat(a) => Stage::Stat(a@),
            Stage::Read(a, fp) => Stage::Read(a@, fp),
            Stage::Probe { candidates, existing } => Stage::Probe {
                candidates: texts(candidates@),
                existing: texts(existing@),
            },
            Stage::Done(r) => Stage::Done(outcome(r)),
        }
    }
}

impl View for Search<String, Vec<String>, TextMap<String>> {
    type V = SearchView;

    open spec fn view(&self) -> SearchView {
        Search { os: self.os, spec: self.spec@, from: self.from@, stage: self.stage@ }
    }
}

/// The `.luaurc` file of a directory.
pub open spec fn luaurc_of(os: Os, dir: Seq<char>) -> Seq<char> {
    join_of(os, dir, ".luaurc"@)
}

/// The aliases of a `.luaurc` file in `dir`, each with the path that it
/// stands for: what is declared, relative to `dir`.
pub open spec fn rooted(
    os: Os,
    dir: Seq<char>,
    aliases: Map<Seq<char>, Seq<char>>,
) -> Map<Seq<char>, Seq<char>> {
    Map::new(|k: Seq<char>| aliases.contains_key(k), |k: Seq<char>| join_of(os, dir, aliases[k]))
}

/// The aliases found so far, and those of a `.luaurc` file in `dir`, which
/// come before them.
pub open spec fn merged(
    os: Os,
    found: Map<Seq<char>, Seq<char>>,
    dir: Seq<char>,
    aliases: Map<Seq<char>, Seq<char>>,
) -> Map<Seq<char>, Seq<char>> {
    found.union_prefer_right(rooted(os, dir, aliases))
}

/// `list`, which is in ascending order, with `p` put in its place; a path
/// that is there already is not put in again.
pub open spec fn placed(os: Os, list: Seq<Seq<char>>, p: Seq<char>) -> Seq<Seq<char>>
    decreases list.len(),
{
    if list.len() == 0 {
        seq![p]
    } else if same_path(os, p, list.first()) {
        list
    } else if path_before(os, p, list.first()) {
        seq![p] + list
    } else {
        seq![list.first()] + placed(os, list.drop_first(), p)
    }
}

/// The different paths of a list, in ascending order; of those that denote
/// the same path the first is kept.
pub open spec fn ascending_distinct(os: Os, list: Seq<Seq<char>>) -> Seq<Seq<char>>
    decreases list.len(),
{
    if list.len() == 0 {
        Seq::empty()
    } else {
        placed(os, ascending_distinct(os, list.drop_last()), list.last())
    }
}

pub open spec fn not_found_message(spec: Seq<char>, from: Seq<char>) -> Seq<char> {
    "module '"@ + spec + "' not found from '"@ + from + "'"@
}

pub open spec fn ambiguous_message(spec: Seq<char>, paths: Seq<Seq<char>>) -> Seq<char> {
    "module '"@ + spec + "' is ambiguous: "@ + joined(paths, ", "@)
}

pub open spec fn unknown_alias_message(key: Seq<char>) -> Seq<char> {
    "unknown alias '"@ + key + "'"@
}

pub open spec fn stat_failed_message(path: Seq<char>, why: Seq<char>) -> Seq<char> {
    "failed to stat '"@ + path + "': "@ + why
}

pub open spec fn read_failed_message(path: Seq<char>, why: Seq<char>) -> Seq<char> {
    "failed to read '"@ + path + "': "@ + why
}

pub open spec fn missing_message(path: Seq<char>) -> Seq<char> {
    "path does not exist: "@ + path
}

pub open spec fn canonicalize_failed_message(path: Seq<char>, why: Seq<char>) -> Seq<char> {
    "failed to canonicalize '"@ + path + "': "@ + why
}

/// The one file among the candidates that are there. Candidates that denote
/// the same file count once; none, and more than one, are errors.
pub open spec fn chosen(
    os: Os,
    spec: Seq<char>,
    from: Seq<char>,
    existing: Seq<Seq<char>>,
) -> Result<Seq<char>, Seq<char>> {
    let paths = ascending_distinct(os, existing);
    if paths.len() == 0 {
        Err(not_found_message(spec, from))
    } else if paths.len() > 1 {
        Err(ambiguous_message(spec, paths))
    } else {
        Ok(paths[0])
    }
}

/// The search for the candidates of a path.
pub open spec fn probing(os: Os, base: Seq<char>) -> StageView {
    Stage::Probe { candidates: candidates(os, base), existing: Seq::empty() }
}

/// The search for an alias with no directory left to look at: the alias has
/// been found, or is not known.
pub open spec fn alias_done(os: Os, a: AliasView) -> StageView {
    if !a.found.contains_key(a.key) {
        Stage::Done(Err(unknown_alias_message(a.key)))
    } else if a.rest.len() == 0 {
        probing(os, a.found[a.key])
    } else {
        probing(os, join_of(os, a.found[a.key], a.rest))
    }
}

/// The search for an alias goes on with the next directory, if there is one.
pub open spec fn alias_on(os: Os, a: AliasView) -> StageView {
    if a.dirs.len() == 0 {
        alias_done(os, a)
    } else {
        Stage::Stat(a)
    }
}

/// The search for an alias once the first directory has been dealt with, with
/// `found` the aliases found.
pub open spec fn alias_next(os: Os, a: AliasView, found: Map<Seq<char>, Seq<char>>) -> StageView {
    alias_on(os, AliasSearch { dirs: a.dirs.drop_first(), found, ..a })
}

/// A search that begins.
pub open spec fn search_of(rt: RuntimeView, from: Seq<char>, spec: Seq<char>) -> SearchView {
    let os = rt.os;
    Search {
        os,
        spec,
        from,
        stage: match spec_base(os, rt.entry_dir, from, spec) {
            SpecBase::Path(base) => probing(os, base),
            SpecBase::Alias { key, rest, dir } => alias_on(
                os,
                AliasSearch { key, rest, dirs: ancestors_of(os, dir), found: Map::empty() },
            ),
        },
    }
}

/// What a search asks of the file system; nothing once it is done.
pub open spec fn query_of(s: SearchView) -> Option<FileQuery<Seq<char>>> {
    match s.stage {
        Stage::Stat(a) => Some(FileQuery::Stat(luaurc_of(s.os, a.dirs.first()))),
        Stage::Read(a, _) => Some(FileQuery::Read(luaurc_of(s.os, a.dirs.first()))),
        Stage::Probe { candidates, .. } => Some(FileQuery::Probe(candidates.first())),
        Stage::Done(_) => None,
    }
}

/// The search for candidates with the first of them dealt with.
pub open spec fn probe_next(
    os: Os,
    spec: Seq<char>,
    from: Seq<char>,
    candidates: Seq<Seq<char>>,
    existing: Seq<Seq<char>>,
) -> StageView {
    if candidates.len() <= 1 {
        Stage::Done(chosen(os, spec, from, existing))
    } else {
        Stage::Probe { candidates: candidates.drop_first(), existing }
    }
}

/// How the search for an alias goes on when the file system has been asked
/// for the `.luaurc` file of the first directory. A file whose version has
/// been read before is not read again.
pub open spec fn stat_step(os: Os, rt: RuntimeView, a: AliasView, e: FileEvent<Seq<char>>) -> StageView {
    let rc = luaurc_of(os, a.dirs.first());
    match e {
        FileEvent::Absent => alias_next(os, a, a.found),
        FileEvent::Stamped(fp) => if rt.luaurc_cache.contains_key(rc) && rt.luaurc_cache[rc].fp
            == fp {
            alias_next(os, a, merged(os, a.found, a.dirs.first(), rt.luaurc_cache[rc].aliases))
        } else {
            Stage::Read(a, fp)
        },
        FileEvent::Failed(why) => Stage::Done(Err(stat_failed_message(rc, why))),
        _ => Stage::Stat(a),
    }
}

/// How the search for an alias goes on when the file system has been asked
/// for the content of the first `.luaurc` file.
pub open spec fn read_step(
    os: Os,
    a: AliasView,
    fp: FileFingerprint,
    e: FileEvent<Seq<char>>,
) -> StageView {
    match e {
        FileEvent::Content(content) => alias_next(
            os,
            a,
            merged(os, a.found, a.dirs.first(), aliases_in(content)),
        ),
        FileEvent::Failed(why) => Stage::Done(
            Err(read_failed_message(luaurc_of(os, a.dirs.first()), why)),
        ),
        _ => Stage::Read(a, fp),
    }
}

/// How the search for candidates goes on when the file system has been asked
/// for the first of them.
pub open spec fn probe_step(
    os: Os,
    spec: Seq<char>,
    from: Seq<char>,
    candidates: Seq<Seq<char>>,
    existing: Seq<Seq<char>>,
    e: FileEvent<Seq<char>>,
) -> StageView {
    match e {
        FileEvent::Absent => probe_next(os, spec, from, candidates, existing),
        FileEvent::Canonical(p) => probe_next(os, spec, from, candidates, existing.push(p)),
        FileEvent::Vanished => Stage::Done(Err(missing_message(candidates.first()))),
        FileEvent::Failed(why) => Stage::Done(
            Err(canonicalize_failed_message(candidates.first(), why)),
        ),
        _ => Stage::Probe { candidates, existing },
    }
}

/// How a search goes on when the file system has answered `e`. An answer to
/// something else than was asked changes nothing.
pub open spec fn search_step(
    rt: RuntimeView,
    s: SearchView,
    e: FileEvent<Seq<char>>,
) -> SearchView {
    Search {
        stage: match s.stage {
            Stage::Stat(a) => stat_step(s.os, rt, a, e),
            Stage::Read(a, fp) => read_step(s.os, a, fp, e),
            Stage::Probe { candidates, existing } => probe_step(
                s.os,
                s.spec,
                s.from,
                candidates,
                existing,
                e,
            ),
            Stage::Done(r) => Stage::Done(r),
        },
        ..s
    }
}

/// What an answer of the file system leaves in the runtime: a `.luaurc` file
/// that was read is kept.
pub open spec fn runtime_after(
    rt: RuntimeView,
    s: SearchView,
    e: FileEvent<Seq<char>>,
) -> RuntimeView {
    match (s.stage, e) {
        (Stage::Read(a, fp), FileEvent::Content(content)) => rt.luaurc_read(
            luaurc_of(s.os, a.dirs.first()),
            LuaurcRecord { fp, aliases: aliases_in(content) },
        ),
        _ => rt,
    }
}

/// Whether a search has something to ask for at each stage but the last.
pub open spec fn sound(s: SearchView) -> bool {
    match s.stage {
        Stage::Stat(a) => a.dirs.len() > 0,
        Stage::Read(a, _) => a.dirs.len() > 0,
        Stage::Probe { candidates, .. } => candidates.len() > 0,
        Stage::Done(_) => true,
    }
}

/// `list`, which is in ascending order, with `p` put in its place; a path
/// that is there already is not put in again.
fn place(os: Os, list: Vec<String>, p: &str) -> (r: Vec<String>)
    ensures
        texts(r@) == placed(os, texts(list@), p@),
{
    let ghost all = texts(list@);
    let mut i: usize = 0;
    assert(all.skip(0) =~= all);
    assert(placed(os, all, p@) =~= all.take(0) + placed(os, all.skip(0), p@));
    while i < list.len()
        invariant
            i <= list@.len(),
            all == texts(list@),
            placed(os, all, p@) == all.take(i as int) + placed(os, all.skip(i as int), p@),
        decreases list@.len() - i,
    {
        let (equal, before) = path::order(os, p, list[i].as_str());
        let ghost rest = all.skip(i as int);
        assert(rest.first() == list@[i as int]@);
        if equal {
            assert(all.take(i as int) + rest =~= all);
            return list;
        }
        if before {
            let mut r = list;
            r.insert(i, p.to_owned());
            assert(texts(r@) =~= all.take(i as int) + (seq![p@] + rest));
            return r;
        }
        assert(rest.drop_first() =~= all.skip(i + 1));
        assert(all.take(i as int) + (seq![rest.first()] + placed(os, all.skip(i + 1), p@))
            =~= all.take(i + 1) + placed(os, all.skip(i + 1), p@));
        i += 1;
    }
    let mut r = list;
    r.push(p.to_owned());
    assert(texts(r@) =~= all.take(i as int) + seq![p@]);
    r
}

/// The one file among the candidates that are there.
pub fn choose_existing(os: Os, spec: &str, from: &str, existing: &Vec<String>) -> (r: Result<String, String>)
    ensures
        outcome(r) == chosen(os, spec@, from@, texts(existing@)),
{
    let mut paths: Vec<String> = Vec::new();
    let ghost all = texts(existing@);
    let mut i: usize = 0;
    assert(texts(paths@) =~= ascending_distinct(os, all.take(0)));
    while i < existing.len()
        invariant
            i <= existing@.len(),
            all == texts(existing@),
            texts(paths@) == ascending_distinct(os, all.take(i as int)),
        decreases existing@.len() - i,
    {
        assert(all.take(i + 1).drop_last() =~= all.take(i as int));
        assert(all.take(i + 1).last() == existing@[i as int]@);
        paths = place(os, paths, existing[i].as_str());
        i += 1;
    }
    assert(all.take(i as int) =~= all);
    if paths.len() == 0 {
        let mut m = "module '".to_owned();
        m.append(spec);
        m.append("' not found from '");
        m.append(from);
        m.append("'");
        return Err(m);
    }
    if paths.len() > 1 {
        let mut m = "module '".to_owned();
        m.append(spec);
        m.append("' is ambiguous: ");
        m.append(join(paths.as_slice(), ", ").as_str());
        return Err(m);
    }
    Ok(paths[0].clone())
}

/// Adds to the aliases found so far those of a `.luaurc` file in `dir`.
fn merge_into(os: Os, found: &mut TextMap<String>, dir: &str, aliases: &TextMap<String>)
    ensures
        final(found)@ == merged(os, old(found)@, dir@, aliases@),
{
    let n: usize = aliases.len();
    let ghost keys = aliases.keys();
    let ghost before = found@;
    let ghost all = rooted(os, dir@, aliases@);
    let mut i: usize = 0;
    assert(before.union_prefer_right(all.restrict(keys.take(0).to_set())) =~= before);
    while i < n
        invariant
            i <= n == keys.len(),
            keys == aliases.keys(),
            keys.to_set() == aliases@.dom(),
            all == rooted(os, dir@, aliases@),
            found@ == before.union_prefer_right(all.restrict(keys.take(i as int).to_set())),
        decreases n - i,
    {
        let (k, v) = aliases.entry(i);
        found.insert(k.clone(), path::join(os, dir, v.as_str()));
        proof {
            assert(keys.take(i + 1) =~= keys.take(i as int).push(keys[i as int]));
            keys.take(i as int).lemma_push_to_set_commute(keys[i as int]);
            assert(found@ =~= before.union_prefer_right(
                all.restrict(keys.take(i + 1).to_set()),
            ));
        }
        i += 1;
    }
    assert(keys.take(i as int) =~= keys);
    assert(all.restrict(keys.to_set()) =~= all);
}

/// The search for the candidates of a path.
fn probe(os: Os, base: &str) -> (r: Stage<String, Vec<String>, TextMap<String>>)
    ensures
        r@ == probing(os, base@),
{
    let existing: Vec<String> = Vec::new();
    assert(texts(existing@) =~= Seq::empty());
    Stage::Probe { candidates: candidate_paths(os, base), existing }
}

/// The search for an alias goes on with the next directory, if there is one.
fn continue_alias(os: Os, a: AliasSearch<String, Vec<String>, TextMap<String>>) -> (r: Stage<
    String,
    Vec<String>,
    TextMap<String>,
>)
    ensures
        r@ == alias_on(os, a@),
{
    if a.dirs.len() > 0 {
        return Stage::Stat(a);
    }
    match a.found.get(a.key.as_str()) {
        None => {
            let mut m = "unknown alias '".to_owned();
            m.append(a.key.as_str());
            m.append("'");
            Stage::Done(Err(m))
        },
        Some(base) => if a.rest.as_str().is_empty() {
            probe(os, base.as_str())
        } else {
            probe(os, path::join(os, base.as_str(), a.rest.as_str()).as_str())
        },
    }
}

/// The message of a failure with the file `path`.
pub(crate) fn failure(what: &str, path: &str, why: &str) -> (m: String)
    ensures
        m@ == what@ + path@ + "': "@ + why@,
{
    let mut m = what.to_owned();
    m.append(path);
    m.append("': ");
    m.append(why);
    m
}

/// The search for an alias once the first directory has been dealt with.
fn next_alias(os: Os, a: AliasSearch<String, Vec<String>, TextMap<String>>) -> (r: Stage<
    String,
    Vec<String>,
    TextMap<String>,
>)
    requires
        a@.dirs.len() > 0,
    ensures
        r@ == alias_next(os, a@, a@.found),
{
    let mut a = a;
    let ghost dirs = texts(a.dirs@);
    a.dirs.remove(0);
    assert(texts(a.dirs@) =~= dirs.drop_first());
    continue_alias(os, a)
}

/// The search for candidates with the first of them dealt with.
fn next_probe(
    os: Os,
    spec: &str,
    from: &str,
    candidates: Vec<String>,
    existing: Vec<String>,
) -> (r: Stage<String, Vec<String>, TextMap<String>>)
    requires
        candidates@.len() > 0,
    ensures
        r@ == probe_next(os, spec@, from@, texts(candidates@), texts(existing@)),
{
    if candidates.len() <= 1 {
        return Stage::Done(choose_existing(os, spec, from, &existing));
    }
    let mut left = candidates;
    left.remove(0);
    assert(texts(left@) =~= texts(candidates@).drop_first());
    Stage::Probe { candidates: left, existing }
}

/// Goes on when the file system has been asked for a `.luaurc` file.
fn advance_stat(
    os: Os,
    rt: &RuntimeData,
    a: AliasSearch<String, Vec<String>, TextMap<String>>,
    e: FileEvent<String>,
) -> (r: Stage<String, Vec<String>, TextMap<String>>)
    requires
        a@.dirs.len() > 0,
    ensures
        r@ == stat_step(os, rt@, a@, e@),
{
    match e {
        FileEvent::Absent => next_alias(os, a),
        FileEvent::Stamped(fp) => {
            let mut a = a;
            let dir = a.dirs[0].clone();
            let rc = path::join(os, dir.as_str(), ".luaurc");
            match rt.luaurc(rc.as_str(), fp) {
                Some(aliases) => {
                    merge_into(os, &mut a.found, dir.as_str(), aliases);
                    next_alias(os, a)
                },
                None => Stage::Read(a, fp),
            }
        },
        FileEvent::Failed(why) => {
            let rc = path::join(os, a.dirs[0].as_str(), ".luaurc");
            Stage::Done(Err(failure("failed to stat '", rc.as_str(), why.as_str())))
        },
        _ => Stage::Stat(a),
    }
}

/// Goes on when the file system has been asked for the content of a
/// `.luaurc` file.
fn advance_read(
    os: Os,
    rt: &mut RuntimeData,
    a: AliasSearch<String, Vec<String>, TextMap<String>>,
    fp: FileFingerprint,
    e: FileEvent<String>,
) -> (r: Stage<String, Vec<String>, TextMap<String>>)
    requires
        a@.dirs.len() > 0,
    ensures
        r@ == read_step(os, a@, fp, e@),
        final(rt)@ == (match e@ {
            FileEvent::Content(content) => old(rt)@.luaurc_read(
                luaurc_of(os, a@.dirs.first()),
                LuaurcRecord { fp, aliases: aliases_in(content) },
            ),
            _ => old(rt)@,
        }),
{
    match e {
        FileEvent::Content(content) => {
            let mut a = a;
            let dir = a.dirs[0].clone();
            let rc = path::join(os, dir.as_str(), ".luaurc");
            let aliases = parse_aliases_from_luaurc(content.as_str());
            merge_into(os, &mut a.found, dir.as_str(), &aliases);
            rt.store_luaurc(rc, LuaurcCacheEntry { fp, aliases });
            next_alias(os, a)
        },
        FileEvent::Failed(why) => {
            let rc = path::join(os, a.dirs[0].as_str(), ".luaurc");
            Stage::Done(Err(failure("failed to read '", rc.as_str(), why.as_str())))
        },
        _ => Stage::Read(a, fp),
    }
}

/// Goes on when the file system has been asked for a candidate.
fn advance_probe(
    os: Os,
    spec: &str,
    from: &str,
    candidates: Vec<String>,
    existing: Vec<String>,
    e: FileEvent<String>,
) -> (r: Stage<String, Vec<String>, TextMap<String>>)
    requires
        candidates@.len() > 0,
    ensures
        r@ == probe_step(os, spec@, from@, texts(candidates@), texts(existing@), e@),
{
    match e {
        FileEvent::Absent => next_probe(os, spec, from, candidates, existing),
        FileEvent::Canonical(p) => {
            let mut existing = existing;
            let ghost before = texts(existing@);
            existing.push(p);
            assert(texts(existing@) =~= before.push(p@));
            next_probe(os, spec, from, candidates, existing)
        },
        FileEvent::Vanished => {
            let mut m = "path does not exist: ".to_owned();
            m.append(candidates[0].as_str());
            Stage::Done(Err(m))
        },
        FileEvent::Failed(why) => Stage::Done(
            Err(failure("failed to canonicalize '", candidates[0].as_str(), why.as_str())),
        ),
        _ => Stage::Probe { candidates, existing },
    }
}

impl Search<String, Vec<String>, TextMap<String>> {
    /// Begins the search for the module named `spec` in the module `from`.
    pub fn begin(rt: &RuntimeData, from: &str, spec: &str) -> (r: Resolution)
        ensures
            r@ == search_of(rt@, from@, spec@),
            sound(r@),
    {
        let os = rt.os();
        let stage = match resolve_spec_base(rt, from, spec) {
            SpecBase::Path(base) => probe(os, base.as_str()),
            SpecBase::Alias { key, rest, dir } => {
                let dirs = path::ancestors(os, dir.as_str());
                continue_alias(os, AliasSearch { key, rest, dirs, found: TextMap::new() })
            },
        };
        Search { os, spec: spec.to_owned(), from: from.to_owned(), stage }
    }

    /// What the search asks of the file system; nothing once it is done.
    pub fn query(&self) -> (r: Option<FileQuery<String>>)
        requires
            sound(self@),
        ensures
            match r {
                Some(q) => query_of(self@) == Some(q@),
                None => query_of(self@) is None,
            },
    {
        let os = self.os;
        match &self.stage {
            Stage::Stat(a) => Some(FileQuery::Stat(path::join(os, a.dirs[0].as_str(), ".luaurc"))),
            Stage::Read(a, _) => Some(FileQuery::Read(path::join(os, a.dirs[0].as_str(), ".luaurc"))),
            Stage::Probe { candidates, .. } => Some(FileQuery::Probe(candidates[0].clone())),
            Stage::Done(_) => None,
        }
    }

    /// Goes on with the answer `e` of the file system.
    #[verifier::spinoff_prover]
    #[verifier::rlimit(100)]
    pub fn advance(self, rt: &mut RuntimeData, e: FileEvent<String>) -> (r: Resolution)
        requires
            sound(self@),
        ensures
            r@ == search_step(old(rt)@, self@, e@),
            final(rt)@ == runtime_after(old(rt)@, self@, e@),
            sound(r@),
    {
        let Search { os, spec, from, stage } = self;
        let stage = match stage {
            Stage::Stat(a) => advance_stat(os, rt, a, e),
            Stage::Read(a, fp) => advance_read(os, rt, a, fp, e),
            Stage::Probe { candidates, existing } => advance_probe(
                os,
                spec.as_str(),
                from.as_str(),
                candidates,
                existing,
                e,
            ),
            Stage::Done(r) => Stage::Done(r),
        };
        Search { os, spec, from, stage }
    }

    /// The file that was found, or why there is none; nothing while the
    /// search runs.
    pub fn result(self) -> (r: Option<Result<String, String>>)
        ensures
            match r {
                Some(x) => self@.stage == Stage::<
                    Seq<char>,
                    Seq<Seq<char>>,
                    Map<Seq<char>, Seq<char>>,
                >::Done(outcome(x)),
                None => !(self@.stage is Done),
            },
    {
        match self.stage {
            Stage::Done(r) => Some(r),
            _ => None,
        }
    }
}

} // verus!
