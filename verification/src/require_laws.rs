//! What holds of `require` as a whole.
use crate::require::{
    action_of, call_effect, call_of, call_step, cyclic_message, resolving, sound_call, Call,
    CallAction, CallEvent, CallView, TextArgument,
};
use crate::resolution::{
    query_of, runtime_after, search_of, search_step, sound, FileEvent, SearchView,
};
use crate::resolution_laws::{
    answer, law_search_finds_module, left_of, lemma_answered_search, lemma_searched,
    module_file, searched, truthful, Disk,
};
use crate::runtime_data::{FileFingerprint, RuntimeView, RuntimesView};
use crate::source::{asks_for_native, code_of};
use vstd::prelude::*;

verus! {

/// How a call stands once it has found the file of its module, or has found
/// out why there is none, when the file system stands still.
pub open spec fn found_by(disk: Disk, all: RuntimesView, l: usize, c: CallView) -> CallView
    decreases (match c {
        Call::Resolving(s) => left_of(s).0,
        _ => 0,
    }), (match c {
        Call::Resolving(s) => left_of(s).1,
        _ => 0,
    }),
    when all.contains_key(l) && sound_call(c)
    via found_by_ends
{
    match c {
        Call::Resolving(s) => {
            let e = CallEvent::File(answer(disk, query_of(s)->0));
            found_by(disk, call_effect(all, l, c, e), l, call_step(all, l, c, e))
        },
        _ => c,
    }
}

#[via_fn]
proof fn found_by_ends(disk: Disk, all: RuntimesView, l: usize, c: CallView) {
    if let Call::Resolving(s) = c {
        lemma_answered_search(disk, all[l], s);
    }
}

/// A call goes the way of its search.
proof fn lemma_found_by(disk: Disk, all: RuntimesView, l: usize, s: SearchView)
    requires
        all.contains_key(l),
        sound(s),
    ensures
        found_by(disk, all, l, resolving(s)) == (match searched(disk, all[l], s) {
            Ok(path) => CallView::Stamping { path },
            Err(message) => CallView::Error(message),
        }),
    decreases left_of(s).0, left_of(s).1,
{
    lemma_searched(disk, all[l], s);
    if !(s.stage is Done) {
        let f = answer(disk, query_of(s)->0);
        let e = CallEvent::File(f);
        let c = CallView::Resolving(s);
        let t = search_step(all[l], s, f);
        let after = call_effect(all, l, c, e);
        lemma_answered_search(disk, all[l], s);
        assert(after[l] == runtime_after(all[l], s, f));
        assert(call_step(all, l, c, e) == resolving(t));
        lemma_found_by(disk, after, l, t);
    }
}

/// `require` finds the file that the name of the module stands for, seen from
/// the module that is running, and asks for its version; if there is none it
/// fails with the reason.
pub proof fn law_require_finds_module(disk: Disk, all: RuntimesView, l: usize, spec: Seq<char>)
    requires
        all.contains_key(l),
        all[l].module_stack.len() > 0,
        truthful(all[l], disk),
    ensures
        found_by(disk, all, l, call_of(all, l, TextArgument::Text(spec))) == (match module_file(
            disk,
            all[l].entry_dir,
            all[l].module_stack.last(),
            spec,
        ) {
            Ok(path) => CallView::Stamping { path },
            Err(message) => CallView::Error(message),
        }),
{
    let from = all[l].module_stack.last();
    law_search_finds_module(disk, all[l], from, spec);
    lemma_found_by(disk, all, l, search_of(all[l], from, spec));
}

/// A module whose value is kept from the version that its file has is not
/// loaded again: the call returns the value, and nothing changes.
pub proof fn law_kept_module_is_reused(
    all: RuntimesView,
    l: usize,
    path: Seq<char>,
    fp: FileFingerprint,
)
    requires
        all.contains_key(l),
        all[l].module_cache.contains_key(path),
        all[l].module_cache[path].fp == fp,
    ensures
        ({
            let c = Call::Stamping { path };
            let e = CallEvent::File(FileEvent::Stamped(fp));
            call_step(all, l, c, e) == CallView::Value(all[l].module_cache[path].value_ref)
                && call_effect(all, l, c, e) == all
        }),
{
}

/// A module whose file has changed is loaded anew: its old value is released,
/// nothing is kept of it any more, and the file is read, unless the module is
/// being loaded already.
pub proof fn law_changed_file_is_reloaded(
    all: RuntimesView,
    l: usize,
    path: Seq<char>,
    fp: FileFingerprint,
)
    requires
        all.contains_key(l),
        all[l].module_cache.contains_key(path),
        all[l].module_cache[path].fp != fp,
    ensures
        ({
            let old = all[l].module_cache[path].value_ref;
            let stamping = Call::Stamping { path };
            let stamped = CallEvent::File(FileEvent::Stamped(fp));
            let releasing = call_step(all, l, stamping, stamped);
            let after = call_effect(all, l, releasing, CallEvent::Released);
            let next = call_step(all, l, releasing, CallEvent::Released);
            &&& call_effect(all, l, stamping, stamped) == all
            &&& action_of(releasing) == CallAction::<Seq<char>>::Release(old)
            &&& after.contains_key(l)
            &&& !after[l].module_cache.contains_key(path)
            &&& !after[l].module_jit.contains_key(path)
            &&& next == if all[l].loading.contains(path) {
                CallView::Error(cyclic_message(path))
            } else {
                CallView::Reading { path, fp }
            }
        }),
{
}

/// A module that requires itself, directly or through others, is refused: a
/// call for a module that is being loaded never comes to read it, and leaves
/// the modules that are being loaded as they are.
pub proof fn law_cycle_is_refused(
    all: RuntimesView,
    l: usize,
    path: Seq<char>,
    fp: FileFingerprint,
)
    requires
        all.contains_key(l),
        all[l].loading.contains(path),
        all[l].fresh_ref(path, fp) is None,
    ensures
        ({
            let stamping = Call::Stamping { path };
            let stamped = CallEvent::File(FileEvent::Stamped(fp));
            let next = call_step(all, l, stamping, stamped);
            let after = call_effect(all, l, stamping, stamped);
            let last = call_step(after, l, next, CallEvent::Released);
            let end = call_effect(after, l, next, CallEvent::Released);
            &&& next == CallView::Error(cyclic_message(path)) || next is Releasing
            &&& last == CallView::Error(cyclic_message(path))
            &&& after[l].loading == all[l].loading
            &&& end[l].loading == all[l].loading
            &&& end[l].module_stack == all[l].module_stack
        }),
{
}

/// What a call keeps of a module is what the next call for the same version
/// of its file returns, and it is known whether its code is native.
pub proof fn law_kept_value_is_returned(
    all: RuntimesView,
    l: usize,
    path: Seq<char>,
    fp: FileFingerprint,
    jit: bool,
    nil: bool,
    value_ref: i32,
)
    requires
        all.contains_key(l),
    ensures
        ({
            let keeping = Call::Keeping { path, fp, jit, nil };
            let kept = CallEvent::Kept(value_ref);
            let after = call_effect(all, l, keeping, kept);
            let stamping = Call::Stamping { path };
            let stamped = CallEvent::File(FileEvent::Stamped(fp));
            &&& call_step(all, l, keeping, kept) == CallView::Value(value_ref)
            &&& call_step(after, l, stamping, stamped) == CallView::Value(value_ref)
            &&& after[l].jit(path) == jit
        }),
{
}

/// The code of a module is native exactly if its first line asks for it and
/// code generation could be set up; that is what is compiled and what is kept.
pub proof fn law_native_code_on_request(
    reading: RuntimesView,
    loading: RuntimesView,
    running: RuntimesView,
    keeping: RuntimesView,
    l: usize,
    path: Seq<char>,
    fp: FileFingerprint,
    source: Seq<char>,
    codegen: bool,
    tag: i32,
    value_ref: i32,
)
    requires
        keeping.contains_key(l),
    ensures
        ({
            let no_error: Option<Seq<char>> = None;
            let content = CallEvent::File(FileEvent::Content(source));
            let c1 = call_step(reading, l, Call::Reading { path, fp }, content);
            let c2 = call_step(
                loading,
                l,
                c1,
                CallEvent::Loaded { status: 0, codegen, error: no_error },
            );
            let ran = CallEvent::Ran { status: 0, tag, error: no_error };
            let c3 = call_step(running, l, c2, ran);
            let end = call_effect(keeping, l, c3, CallEvent::Kept(value_ref));
            let native = asks_for_native(source);
            &&& action_of(c1) matches CallAction::Load { code, native: n, .. } && code == code_of(
                source,
            ) && n == native
            &&& action_of(c2) == CallAction::<Seq<char>>::Run { compile: native && codegen }
            &&& end[l].jit(path) == (native && codegen)
        }),
{
}

/// A value is kept only once its module has run without an error, and given up
/// only for another version of its file: no other answer changes which values
/// are kept, nor what is noted of any module but the one being loaded.
pub proof fn law_only_good_values_are_kept(
    all: RuntimesView,
    l: usize,
    c: CallView,
    e: CallEvent<Seq<char>>,
    other: Seq<char>,
)
    requires
        all.contains_key(l),
        !(c is Keeping && e is Kept),
        !(c is Releasing && e is Released),
        held(c) != Some(other),
    ensures
        call_effect(all, l, c, e)[l].module_cache == all[l].module_cache,
        call_effect(all, l, c, e)[l].jit_noted(other) == all[l].jit_noted(other),
        call_step(all, l, c, e) is Keeping ==> c is Keeping || c is Running && e is Ran
            && e->Ran_status == 0,
{
}

/// While a module runs, for the first time too, it is known whether its code
/// is native; if it fails, what was noted before is noted again.
pub proof fn law_running_module_is_noted(
    loading: RuntimesView,
    running: RuntimesView,
    l: usize,
    path: Seq<char>,
    fp: FileFingerprint,
    native: bool,
    code: Seq<char>,
    codegen: bool,
    status: i32,
    tag: i32,
    error: Option<Seq<char>>,
)
    requires
        loading.contains_key(l),
        running.contains_key(l),
        status != 0,
    ensures
        ({
            let c = Call::Loading { path, fp, native, code };
            let loaded = CallEvent::Loaded { status: 0, codegen, error };
            let next = call_step(loading, l, c, loaded);
            let after = call_effect(loading, l, c, loaded);
            let end = call_effect(running, l, next, CallEvent::Ran { status, tag, error });
            &&& next is Running
            &&& after[l].current() == path
            &&& after[l].jit(path) == (native && codegen)
            &&& action_of(next) == CallAction::<Seq<char>>::Run { compile: native && codegen }
            &&& end[l].jit_noted(path) == loading[l].jit_noted(path)
        }),
{
}

/// A call in one state leaves the runtimes of all other states alone, and
/// makes and removes none.
pub proof fn law_other_states_are_left_alone(
    all: RuntimesView,
    l: usize,
    c: CallView,
    e: CallEvent<Seq<char>>,
    other: usize,
)
    requires
        other != l,
    ensures
        call_effect(all, l, c, e).contains_key(other) == all.contains_key(other),
        all.contains_key(other) ==> call_effect(all, l, c, e)[other] == all[other],
        call_effect(all, l, c, e).contains_key(l) == all.contains_key(l),
{
}

/// The module that a call has put among those being loaded.
pub open spec fn held(c: CallView) -> Option<Seq<char>> {
    match c {
        Call::Reading { path, .. } => Some(path),
        Call::Loading { path, .. } => Some(path),
        Call::Running { path, .. } => Some(path),
        _ => None,
    }
}

/// Whether what a call holds is in the runtime: its module among those being
/// loaded and, while it runs, on top of the module stack.
pub open spec fn holds(rt: RuntimeView, c: CallView) -> bool {
    &&& held(c) matches Some(path) ==> rt.loading.contains(path)
    &&& c matches Call::Running { path, .. } ==> rt.module_stack.len() > 0
        && rt.module_stack.last() == path
}

/// The modules being loaded, but for the one that the call holds.
pub open spec fn loading_around(rt: RuntimeView, c: CallView) -> Set<Seq<char>> {
    match held(c) {
        Some(path) => rt.loading.remove(path),
        None => rt.loading,
    }
}

/// The module stack, but for the entry that the call holds.
pub open spec fn stack_around(rt: RuntimeView, c: CallView) -> Seq<Seq<char>> {
    if c is Running {
        rt.module_stack.drop_last()
    } else {
        rt.module_stack
    }
}

/// While a call reads, compiles or runs a module, no other call comes to read
/// it: it is refused as cyclic, unless a value is kept of the very version of
/// the file.
pub proof fn law_module_is_loaded_by_one_call(
    all: RuntimesView,
    l: usize,
    c: CallView,
    path: Seq<char>,
    fp: FileFingerprint,
)
    requires
        all.contains_key(l),
        holds(all[l], c),
        held(c) == Some(path),
    ensures
        ({
            let e = CallEvent::File(FileEvent::Stamped(fp));
            let next = call_step(all, l, Call::Stamping { path }, e);
            let last = call_step(all, l, next, CallEvent::Released);
            if all[l].fresh_ref(path, fp) is Some {
                next is Value
            } else {
                (next is Releasing || next is Error) && last == CallView::Error(
                    cyclic_message(path),
                )
            }
        }),
{
}

/// Each answer leaves alone what is around a call: the module stack and the
/// modules being loaded, but for what the call itself holds of them.
pub proof fn law_call_keeps_what_is_around(
    all: RuntimesView,
    l: usize,
    c: CallView,
    e: CallEvent<Seq<char>>,
)
    requires
        all.contains_key(l),
        holds(all[l], c),
    ensures
        ({
            let after = call_effect(all, l, c, e)[l];
            let next = call_step(all, l, c, e);
            &&& holds(after, next)
            &&& stack_around(after, next) == stack_around(all[l], c)
            &&& loading_around(after, next) == loading_around(all[l], c)
        }),
{
    let after = call_effect(all, l, c, e)[l];
    let next = call_step(all, l, c, e);
    assert(stack_around(after, next) =~= stack_around(all[l], c));
    assert(loading_around(after, next) =~= loading_around(all[l], c));
}

/// A call of `require` with all that happens until it returns: its answers,
/// one after the other.
pub struct CallTree {
    pub argument: TextArgument<Seq<char>>,
    pub answers: Seq<Answer>,
}

/// An answer to a call: the calls that were made before it came, such as those
/// of the module while it runs, the runtimes as they then are, and the answer.
pub struct Answer {
    pub calls: Seq<CallTree>,
    pub all: RuntimesView,
    pub event: CallEvent<Seq<char>>,
}

/// The runtimes, and how a call stands, after all its answers.
pub open spec fn tree_after(all: RuntimesView, l: usize, tree: CallTree) -> (
    RuntimesView,
    CallView,
)
    decreases tree,
{
    answers_after(l, all, call_of(all, l, tree.argument), tree.answers)
}

/// The runtimes, and how a call stands, after a number of answers.
pub open spec fn answers_after(
    l: usize,
    all: RuntimesView,
    c: CallView,
    answers: Seq<Answer>,
) -> (RuntimesView, CallView)
    decreases answers,
{
    if answers.len() == 0 {
        (all, c)
    } else {
        let t = answers[0];
        answers_after(
            l,
            call_effect(t.all, l, c, t.event),
            call_step(t.all, l, c, t.event),
            answers.drop_first(),
        )
    }
}

/// The runtimes after a number of calls, one after the other.
pub open spec fn calls_after(all: RuntimesView, l: usize, calls: Seq<CallTree>) -> RuntimesView
    decreases calls,
{
    if calls.len() == 0 {
        all
    } else {
        calls_after(tree_after(all, l, calls[0]).0, l, calls.drop_first())
    }
}

/// Whether a call returns, as do all the calls made in it, and nothing but
/// those calls touches the module stack and the modules being loaded.
pub open spec fn orderly(all: RuntimesView, l: usize, tree: CallTree) -> bool
    decreases tree,
{
    let end = tree_after(all, l, tree).1;
    &&& orderly_answers(l, all, call_of(all, l, tree.argument), tree.answers)
    &&& end is Value || end is Error
}

/// Whether a number of answers come in an orderly call.
pub open spec fn orderly_answers(
    l: usize,
    all: RuntimesView,
    c: CallView,
    answers: Seq<Answer>,
) -> bool
    decreases answers,
{
    if answers.len() == 0 {
        true
    } else {
        let t = answers[0];
        let before = calls_after(all, l, t.calls);
        &&& orderly_calls(all, l, t.calls)
        &&& t.all.contains_key(l)
        &&& t.all[l].module_stack == before[l].module_stack
        &&& t.all[l].loading == before[l].loading
        &&& orderly_answers(
            l,
            call_effect(t.all, l, c, t.event),
            call_step(t.all, l, c, t.event),
            answers.drop_first(),
        )
    }
}

/// Whether calls, made one after the other, are orderly.
pub open spec fn orderly_calls(all: RuntimesView, l: usize, calls: Seq<CallTree>) -> bool
    decreases calls,
{
    calls.len() == 0 || orderly(all, l, calls[0]) && orderly_calls(
        tree_after(all, l, calls[0]).0,
        l,
        calls.drop_first(),
    )
}

/// A call leaves the module stack and the modules being loaded as it found
/// them, whether it returns a value or an error, and so do all the calls made
/// in it, however deep they nest. It returns one value, or nil and a message.
pub proof fn law_nested_calls_restore(all: RuntimesView, l: usize, tree: CallTree)
    requires
        all.contains_key(l),
        orderly(all, l, tree),
    ensures
        ({
            let (after, end) = tree_after(all, l, tree);
            &&& after.contains_key(l)
            &&& after[l].module_stack == all[l].module_stack
            &&& after[l].loading == all[l].loading
            &&& action_of(end) is Push || action_of(end) is Fail
        }),
    decreases tree,
{
    lemma_answers_restore(l, all, call_of(all, l, tree.argument), tree.answers);
}

proof fn lemma_answers_restore(l: usize, all: RuntimesView, c: CallView, answers: Seq<Answer>)
    requires
        all.contains_key(l),
        holds(all[l], c),
        orderly_answers(l, all, c, answers),
    ensures
        ({
            let (after, next) = answers_after(l, all, c, answers);
            &&& after.contains_key(l)
            &&& holds(after[l], next)
            &&& stack_around(after[l], next) == stack_around(all[l], c)
            &&& loading_around(after[l], next) == loading_around(all[l], c)
        }),
    decreases answers,
{
    if answers.len() > 0 {
        let t = answers[0];
        lemma_calls_restore(all, l, t.calls);
        law_call_keeps_what_is_around(t.all, l, c, t.event);
        lemma_answers_restore(
            l,
            call_effect(t.all, l, c, t.event),
            call_step(t.all, l, c, t.event),
            answers.drop_first(),
        );
    }
}

proof fn lemma_calls_restore(all: RuntimesView, l: usize, calls: Seq<CallTree>)
    requires
        all.contains_key(l),
        orderly_calls(all, l, calls),
    ensures
        calls_after(all, l, calls).contains_key(l),
        calls_after(all, l, calls)[l].module_stack == all[l].module_stack,
        calls_after(all, l, calls)[l].loading == all[l].loading,
    decreases calls,
{
    if calls.len() > 0 {
        law_nested_calls_restore(all, l, calls[0]);
        lemma_calls_restore(tree_after(all, l, calls[0]).0, l, calls.drop_first());
    }
}

/// A call that has returned asks for nothing more, whatever is answered.
pub proof fn law_finished_call_stays(
    all: RuntimesView,
    l: usize,
    c: CallView,
    e: CallEvent<Seq<char>>,
)
    requires
        c is Value || c is Error,
    ensures
        call_step(all, l, c, e) == c,
        call_effect(all, l, c, e) == all,
{
}

} // verus!
