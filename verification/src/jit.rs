//! `runtime.hasJIT`: whether a module runs as native code.
use crate::require::{call_effect, Call, CallEvent};
use crate::require_resolver::has_jit;
use crate::resolution::{
    query_of, runtime_after, search_of, search_step, sound, FileEvent, FileQuery, Resolution, Search,
    SearchView, Stage,
};
use crate::resolution_laws::{
    answer, law_search_finds_module, left_of, lemma_answered_search, lemma_searched,
    module_file, searched, truthful, Disk,
};
use crate::runtime_data::{updated, FileFingerprint, Runtimes, RuntimesView};
use crate::text::text_opt;
use vstd::prelude::*;

verus! {

/// How far the question has come.
#[verifier::ext_equal]
pub enum JitQuery<S> {
    /// The file of the module is being looked for.
    Searching(S),
    Answer(bool),
}

impl View for JitQuery<Resolution> {
    type V = JitQuery<SearchView>;

    open spec fn view(&self) -> JitQuery<SearchView> {
        match *self {
            JitQuery::Searching(s) => JitQuery::Searching(s@),
            JitQuery::Answer(b) => JitQuery::Answer(b),
        }
    }
}

/// The question once its search has come so far: a module that cannot be
/// found is not native.
pub open spec fn jit_found(all: RuntimesView, l: usize, s: SearchView) -> JitQuery<SearchView> {
    match s.stage {
        Stage::Done(Ok(path)) => JitQuery::Answer(all.contains_key(l) && all[l].jit(path)),
        Stage::Done(Err(_)) => JitQuery::Answer(false),
        _ => JitQuery::Searching(s),
    }
}

/// The question for the module named `spec`, or for the one that is running.
pub open spec fn jit_of(all: RuntimesView, l: usize, spec: Option<Seq<char>>) -> JitQuery<
    SearchView,
> {
    if !all.contains_key(l) {
        JitQuery::Answer(false)
    } else {
        match spec {
            None => JitQuery::Answer(all[l].jit(all[l].current())),
            Some(name) => jit_found(all, l, search_of(all[l], all[l].current(), name)),
        }
    }
}

/// How the question goes on when the file system has answered `e`.
pub open spec fn jit_step(
    all: RuntimesView,
    l: usize,
    c: JitQuery<SearchView>,
    e: FileEvent<Seq<char>>,
) -> JitQuery<SearchView> {
    match c {
        JitQuery::Searching(s) => if all.contains_key(l) {
            jit_found(jit_effect(all, l, c, e), l, search_step(all[l], s, e))
        } else {
            JitQuery::Answer(false)
        },
        JitQuery::Answer(b) => JitQuery::Answer(b),
    }
}

/// What an answer of the file system leaves in the runtimes.
pub open spec fn jit_effect(
    all: RuntimesView,
    l: usize,
    c: JitQuery<SearchView>,
    e: FileEvent<Seq<char>>,
) -> RuntimesView {
    match c {
        JitQuery::Searching(s) => updated(all, l, runtime_after(all[l], s, e)),
        JitQuery::Answer(_) => all,
    }
}

/// Whether a question that searches has something to ask for.
pub open spec fn sound_query(c: JitQuery<SearchView>) -> bool {
    c matches JitQuery::Searching(s) ==> sound(s) && !(s.stage is Done)
}

/// The question once its search has come so far.
fn found(all: &Runtimes, l: usize, s: Resolution) -> (r: JitQuery<Resolution>)
    requires
        sound(s@),
    ensures
        r@ == jit_found(all@, l, s@),
        sound_query(r@),
{
    let Search { os, spec, from, stage } = s;
    match stage {
        Stage::Done(r) => JitQuery::Answer(has_jit(all, l, Some(r))),
        stage => JitQuery::Searching(Search { os, spec, from, stage }),
    }
}

impl JitQuery<Resolution> {
    /// Begins to ask for the module named `spec`, or for the one that is
    /// running.
    pub fn begin(all: &Runtimes, l: usize, spec: Option<String>) -> (r: JitQuery<Resolution>)
        ensures
            r@ == jit_of(all@, l, text_opt(spec)),
            sound_query(r@),
    {
        let name = match spec {
            None => {
                return JitQuery::Answer(has_jit(all, l, None));
            },
            Some(name) => name,
        };
        match all.get(l) {
            None => JitQuery::Answer(false),
            Some(rt) => {
                let from = rt.current();
                found(all, l, Search::begin(rt, from.as_str(), name.as_str()))
            },
        }
    }

    /// What the question asks of the file system; nothing once it is
    /// answered.
    pub fn query(&self) -> (r: Option<FileQuery<String>>)
        requires
            sound_query(self@),
        ensures
            match (r, self@) {
                (Some(q), JitQuery::Searching(s)) => query_of(s) == Some(q@),
                (None, JitQuery::Answer(_)) => true,
                _ => false,
            },
    {
        match self {
            JitQuery::Searching(s) => s.query(),
            JitQuery::Answer(_) => None,
        }
    }

    /// Goes on with the answer `e` of the file system.
    pub fn advance(self, all: &mut Runtimes, l: usize, e: FileEvent<String>) -> (r: JitQuery<
        Resolution,
    >)
        requires
            sound_query(self@),
        ensures
            r@ == jit_step(old(all)@, l, self@, e@),
            final(all)@ == jit_effect(old(all)@, l, self@, e@),
            sound_query(r@),
    {
        let s = match self {
            JitQuery::Answer(b) => {
                return JitQuery::Answer(b);
            },
            JitQuery::Searching(s) => s,
        };
        match all.take(l) {
            None => {
                assert(all@ =~= old(all)@);
                JitQuery::Answer(false)
            },
            Some(mut rt) => {
                let t = s.advance(&mut rt, e);
                all.put(l, rt);
                assert(all@ =~= old(all)@.insert(l, rt@));
                found(all, l, t)
            },
        }
    }

    /// The answer; nothing while the module is being looked for.
    pub fn answer(&self) -> (r: Option<bool>)
        ensures
            r == (match self@ {
                JitQuery::Answer(b) => Some(b),
                JitQuery::Searching(_) => None,
            }),
    {
        match self {
            JitQuery::Answer(b) => Some(*b),
            JitQuery::Searching(_) => None,
        }
    }
}

/// What the question comes to, when the file system stands still.
pub open spec fn answered(disk: Disk, all: RuntimesView, l: usize, c: JitQuery<SearchView>) -> bool
    decreases (match c {
        JitQuery::Searching(s) => left_of(s).0,
        _ => 0,
    }), (match c {
        JitQuery::Searching(s) => left_of(s).1,
        _ => 0,
    }),
    when all.contains_key(l) && sound_query(c)
    via answered_ends
{
    match c {
        JitQuery::Searching(s) => {
            let e = answer(disk, query_of(s)->0);
            answered(disk, jit_effect(all, l, c, e), l, jit_step(all, l, c, e))
        },
        JitQuery::Answer(b) => b,
    }
}

#[via_fn]
proof fn answered_ends(disk: Disk, all: RuntimesView, l: usize, c: JitQuery<SearchView>) {
    if let JitQuery::Searching(s) = c {
        lemma_answered_search(disk, all[l], s);
    }
}

/// The question goes the way of its search.
proof fn lemma_answered(disk: Disk, all: RuntimesView, l: usize, s: SearchView)
    requires
        all.contains_key(l),
        sound(s),
    ensures
        answered(disk, all, l, jit_found(all, l, s)) == (searched(disk, all[l], s) matches Ok(path)
            && all[l].jit(path)),
    decreases left_of(s).0, left_of(s).1,
{
    lemma_searched(disk, all[l], s);
    if !(s.stage is Done) {
        let e = answer(disk, query_of(s)->0);
        let c = JitQuery::Searching(s);
        let t = search_step(all[l], s, e);
        let after = jit_effect(all, l, c, e);
        lemma_answered_search(disk, all[l], s);
        assert(after[l] == runtime_after(all[l], s, e));
        assert(after[l].module_jit == all[l].module_jit);
        lemma_answered(disk, after, l, t);
        assert(answered(disk, all, l, c) == answered(disk, after, l, jit_found(after, l, t)));
    }
}

/// A module is said to be native exactly if its name stands for a file, seen
/// from the module that is running, and that file was compiled to native
/// code.
pub proof fn law_jit_of_named_module(disk: Disk, all: RuntimesView, l: usize, name: Seq<char>)
    requires
        all.contains_key(l),
        truthful(all[l], disk),
    ensures
        answered(disk, all, l, jit_of(all, l, Some(name))) == (module_file(
            disk,
            all[l].entry_dir,
            all[l].current(),
            name,
        ) matches Ok(path) && all[l].jit(path)),
{
    let from = all[l].current();
    law_search_finds_module(disk, all[l], from, name);
    lemma_answered(disk, all, l, search_of(all[l], from, name));
}

/// Without a name the question is for the module that is running, and is
/// answered at once: a module that runs, for the first time too, is native
/// exactly if its code asked for it and code generation could be set up.
pub proof fn law_jit_of_running_module(
    all: RuntimesView,
    l: usize,
    path: Seq<char>,
    fp: FileFingerprint,
    native: bool,
    code: Seq<char>,
    codegen: bool,
    error: Option<Seq<char>>,
)
    requires
        all.contains_key(l),
    ensures
        ({
            let running = call_effect(
                all,
                l,
                Call::Loading { path, fp, native, code },
                CallEvent::Loaded { status: 0, codegen, error },
            );
            jit_of(running, l, None) == JitQuery::<SearchView>::Answer(native && codegen)
        }),
{
}

} // verus!
