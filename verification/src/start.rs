//! The run of a script: its file is read, a Luau state and a runtime are made
//! for it, it is compiled and run, then its tasks, and all is released.
use crate::path::Os;
use crate::report::{error_line, marked, report_error};
use crate::require::TextArgument;
use crate::require_resolver::{
    canonical, dir_or_current, entry_dir_of, init_runtime, pop_entry_module, push_entry_module,
    set_entry_jit, shutdown_runtime, PathProbe,
};
use crate::runtime_data::{
    holds_all_refs, lists_refs, no_runtime_message, updated, RuntimeView, Runtimes, RuntimesView,
};
use crate::source::{asks_for_native, chunk_name, code_of, strip_native_directive};
use crate::text::{text_opt, without_nul};
use vstd::prelude::*;

verus! {

/// How far the run of a script has come.
#[verifier::ext_equal]
pub enum Start<T, R> {
    /// The canonical path of the script is being asked for.
    Canonicalizing { path: T },
    /// The script is being read.
    Reading { entry: T },
    /// A Luau state is being made.
    Creating { entry: T, native: bool, code: T },
    /// The state is being set up.
    SettingUp { l: usize, entry: T, native: bool, code: T },
    /// The file that the runtime starts on is being looked for.
    Probing { l: usize, entry: T, jit: bool, code: T },
    /// The code is being compiled.
    Loading { l: usize, entry: T, jit: bool, code: T },
    /// The script is being run.
    Running { l: usize, jit: bool },
    /// The tasks are being run.
    Tasks { l: usize },
    /// The references that the runtime kept are being released, and the state
    /// is being closed.
    Closing { l: usize, report: Option<T>, refs: R },
    /// There was an error before there was a state.
    Failed(T),
    /// The run is over.
    Done,
}

/// What the run of a script asks of its host.
#[verifier::ext_equal]
#[derive(PartialEq, Eq, Debug)]
pub enum StartAction<T, R> {
    /// To ask for the canonical path of a file.
    Canonicalize(T),
    /// To read a file.
    Read(T),
    /// To make a Luau state.
    Create,
    /// To open the libraries of the state, to set up native code generation
    /// if that is asked for, and to install `task`, `runtime` and `require`.
    SetUp { l: usize, native: bool, entry_file: T, entry_dir: T },
    /// To look for a file and ask for its canonical path.
    Probe(T),
    /// To compile the code as a chunk of the given name.
    Load { l: usize, code: T, chunk: T },
    /// To run the chunk, after compiling it to native code if that is asked
    /// for.
    Run { l: usize, compile: bool },
    /// To run tasks until there are none.
    RunTasks { l: usize },
    /// To report an error if there is one, to release the references, and to
    /// close the state.
    Close { l: usize, report: Option<T>, refs: R },
    /// To report an error.
    Report(T),
    /// Nothing more.
    Nothing,
}

/// What the host of the run of a script answers.
#[verifier::ext_equal]
#[derive(PartialEq, Eq, Debug)]
pub enum StartEvent<T> {
    Canonical(T),
    NotCanonical,
    Content(T),
    /// The file could not be read, and this is why.
    Unreadable(T),
    /// The state under this handle is made.
    Created(usize),
    NotCreated,
    /// The state is set up; whether native code generation is, too.
    SetUp { codegen: bool },
    Probed(PathProbe<T>),
    /// The chunk is compiled, or it is not: the status, and the error message
    /// if there is one.
    Loaded { status: i32, error: Option<T> },
    /// The chunk has run: the status, and the error message if there is one.
    Ran { status: i32, error: Option<T> },
    TasksDone,
    Closed,
}

/// The run of a script.
pub type ScriptRun = Start<String, Vec<i32>>;

/// What the run of a script stands for.
pub type StartView = Start<Seq<char>, Seq<i32>>;

impl View for Start<String, Vec<i32>> {
    type V = StartView;

    open spec fn view(&self) -> StartView {
        match *self {
            Start::Canonicalizing { path } => Start::Canonicalizing { path: path@ },
            Start::Reading { entry } => Start::Reading { entry: entry@ },
            Start::Creating { entry, native, code } => Start::Creating {
                entry: entry@,
                native,
                code: code@,
            },
            Start::SettingUp { l, entry, native, code } => Start::SettingUp {
                l,
                entry: entry@,
                native,
                code: code@,
            },
            Start::Probing { l, entry, jit, code } => Start::Probing {
                l,
                entry: entry@,
                jit,
                code: code@,
            },
            Start::Loading { l, entry, jit, code } => Start::Loading {
                l,
                entry: entry@,
                jit,
                code: code@,
            },
            Start::Running { l, jit } => Start::Running { l, jit },
            Start::Tasks { l } => Start::Tasks { l },
            Start::Closing { l, report, refs } => Start::Closing {
                l,
                report: text_opt(report),
                refs: refs@,
            },
            Start::Failed(m) => Start::Failed(m@),
            Start::Done => Start::Done,
        }
    }
}

impl View for StartAction<String, Vec<i32>> {
    type V = StartAction<Seq<char>, Seq<i32>>;

    open spec fn view(&self) -> StartAction<Seq<char>, Seq<i32>> {
        match *self {
            StartAction::Canonicalize(p) => StartAction::Canonicalize(p@),
            StartAction::Read(p) => StartAction::Read(p@),
            StartAction::Create => StartAction::Create,
            StartAction::SetUp { l, native, entry_file, entry_dir } => StartAction::SetUp {
                l,
                native,
                entry_file: entry_file@,
                entry_dir: entry_dir@,
            },
            StartAction::Probe(p) => StartAction::Probe(p@),
            StartAction::Load { l, code, chunk } => StartAction::Load {
                l,
                code: code@,
                chunk: chunk@,
            },
            StartAction::Run { l, compile } => StartAction::Run { l, compile },
            StartAction::RunTasks { l } => StartAction::RunTasks { l },
            StartAction::Close { l, report, refs } => StartAction::Close {
                l,
                report: text_opt(report),
                refs: refs@,
            },
            StartAction::Report(m) => StartAction::Report(m@),
            StartAction::Nothing => StartAction::Nothing,
        }
    }
}

impl View for StartEvent<String> {
    type V = StartEvent<Seq<char>>;

    open spec fn view(&self) -> StartEvent<Seq<char>> {
        match *self {
            StartEvent::Canonical(p) => StartEvent::Canonical(p@),
            StartEvent::NotCanonical => StartEvent::NotCanonical,
            StartEvent::Content(c) => StartEvent::Content(c@),
            StartEvent::Unreadable(why) => StartEvent::Unreadable(why@),
            StartEvent::Created(l) => StartEvent::Created(l),
            StartEvent::NotCreated => StartEvent::NotCreated,
            StartEvent::SetUp { codegen } => StartEvent::SetUp { codegen },
            StartEvent::Probed(p) => StartEvent::Probed(p@),
            StartEvent::Loaded { status, error } => StartEvent::Loaded {
                status,
                error: text_opt(error),
            },
            StartEvent::Ran { status, error } => StartEvent::Ran {
                status,
                error: text_opt(error),
            },
            StartEvent::TasksDone => StartEvent::TasksDone,
            StartEvent::Closed => StartEvent::Closed,
        }
    }
}

/// The run of a script that begins.
pub open spec fn start_of(path: TextArgument<Seq<char>>) -> StartView {
    match path {
        TextArgument::Missing => Start::Failed("[nicyrtdyn] Error: path_ptr is null"@),
        TextArgument::NotUtf8 => Start::Failed(
            "[nicyrtdyn] Error opening file: invalid path encoding"@,
        ),
        TextArgument::Text(path) => Start::Canonicalizing { path },
    }
}

/// The report of an error of `require`.
pub open spec fn require_error(message: Seq<char>) -> Option<Seq<char>> {
    Some("[NICY REQUIRE ERROR] "@ + message)
}

/// How the run of a script goes on when its host has answered `e`; `refs` are
/// the references that the runtime gives back where it ends. An answer to
/// something else than was asked changes nothing.
pub open spec fn start_step(
    all: RuntimesView,
    c: StartView,
    e: StartEvent<Seq<char>>,
    refs: Seq<i32>,
) -> StartView {
    match (c, e) {
        (Start::Canonicalizing { .. }, StartEvent::Canonical(entry)) => Start::Reading { entry },
        (Start::Canonicalizing { path }, StartEvent::NotCanonical) => Start::Reading {
            entry: path,
        },
        (Start::Reading { entry }, StartEvent::Content(source)) => Start::Creating {
            entry,
            native: asks_for_native(source),
            code: code_of(source),
        },
        (Start::Reading { .. }, StartEvent::Unreadable(why)) => Start::Failed(
            "[nicyrtdyn] Error opening file: "@ + why,
        ),
        (Start::Creating { entry, native, code }, StartEvent::Created(l)) => Start::SettingUp {
            l,
            entry,
            native,
            code,
        },
        (Start::Creating { .. }, StartEvent::NotCreated) => Start::Failed(
            "[nicyrtdyn] Failed to create Luau state"@,
        ),
        (Start::SettingUp { l, entry, native, code }, StartEvent::SetUp { codegen }) =>
            Start::Probing { l, entry, jit: native && codegen, code },
        (Start::Probing { l, entry, jit, code }, StartEvent::Probed(probe)) => match canonical(
            entry,
            probe,
        ) {
            Ok(_) => Start::Loading { l, entry, jit, code },
            Err(m) => Start::Closing { l, report: require_error(m), refs: Seq::empty() },
        },
        (Start::Loading { l, jit, .. }, StartEvent::Loaded { status, error }) => if status != 0 {
            Start::Closing { l, report: Some(error_line("[LUAU LOAD ERROR] "@, error)), refs }
        } else if !all.contains_key(l) {
            Start::Closing { l, report: require_error(no_runtime_message()), refs }
        } else {
            Start::Running { l, jit }
        },
        (Start::Running { l, .. }, StartEvent::Ran { status, error }) => if status != 0 {
            Start::Closing { l, report: Some(error_line("[LUAU ERROR] "@, error)), refs }
        } else {
            Start::Tasks { l }
        },
        (Start::Tasks { l }, StartEvent::TasksDone) => Start::Closing { l, report: None, refs },
        (Start::Closing { .. }, StartEvent::Closed) => Start::Done,
        _ => c,
    }
}

/// What an answer of the host leaves in the runtimes.
pub open spec fn start_effect(
    os: Os,
    all: RuntimesView,
    c: StartView,
    e: StartEvent<Seq<char>>,
) -> RuntimesView {
    match (c, e) {
        (Start::Probing { l, entry, jit, .. }, StartEvent::Probed(probe)) => match canonical(
            entry,
            probe,
        ) {
            Ok(p) => all.insert(l, RuntimeView::fresh(os, p, dir_or_current(os, p)).jit_set(p, jit)),
            Err(_) => all,
        },
        (Start::Loading { l, .. }, StartEvent::Loaded { status, .. }) => if status != 0 {
            all.remove(l)
        } else {
            updated(all, l, all[l].entered(all[l].entry_file))
        },
        (Start::Running { l, .. }, StartEvent::Ran { status, .. }) => if status != 0 {
            all.remove(l)
        } else {
            updated(all, l, all[l].left())
        },
        (Start::Tasks { l }, StartEvent::TasksDone) => all.remove(l),
        _ => all,
    }
}

/// What the run of a script asks of its host.
pub open spec fn start_action(os: Os, c: StartView) -> StartAction<Seq<char>, Seq<i32>> {
    match c {
        Start::Canonicalizing { path } => StartAction::Canonicalize(path),
        Start::Reading { entry } => StartAction::Read(entry),
        Start::Creating { .. } => StartAction::Create,
        Start::SettingUp { l, entry, native, .. } => StartAction::SetUp {
            l,
            native,
            entry_file: entry,
            entry_dir: dir_or_current(os, entry),
        },
        Start::Probing { entry, .. } => StartAction::Probe(entry),
        Start::Loading { l, entry, code, .. } => StartAction::Load {
            l,
            code,
            chunk: without_nul(entry).push('\0'),
        },
        Start::Running { l, jit } => StartAction::Run { l, compile: jit },
        Start::Tasks { l } => StartAction::RunTasks { l },
        Start::Closing { l, report, refs } => StartAction::Close { l, report, refs },
        Start::Failed(m) => StartAction::Report(m),
        Start::Done => StartAction::Nothing,
    }
}

/// The references that are released where the run of a script ends.
pub open spec fn refs_of(c: StartView) -> Seq<i32> {
    match c {
        Start::Closing { refs, .. } => refs,
        _ => Seq::empty(),
    }
}

/// Whether `refs` are what the runtime of `l`, if there is one, gives back.
pub open spec fn given_back(all: RuntimesView, l: usize, refs: Seq<i32>) -> bool {
    if all.contains_key(l) {
        holds_all_refs(all[l], refs)
    } else {
        refs.len() == 0
    }
}

/// Whether the step from `c` to the end of the state `l` hands on all the
/// references that its runtime kept.
pub open spec fn gives_back(all: RuntimesView, c: StartView, next: StartView) -> bool {
    match (c, next) {
        (Start::Loading { l, .. }, Start::Closing { refs, .. }) => given_back(all, l, refs),
        (Start::Running { l, .. }, Start::Closing { refs, .. }) => given_back(all, l, refs),
        (Start::Tasks { l }, Start::Closing { refs, .. }) => given_back(all, l, refs),
        _ => true,
    }
}

/// Ends the runtime of `l`.
fn close(all: &mut Runtimes, l: usize, report: Option<String>) -> (r: ScriptRun)
    ensures
        r@ == (Start::Closing { l, report: text_opt(report), refs: refs_of(r@) }),
        given_back(old(all)@, l, refs_of(r@)),
        final(all)@ == old(all)@.remove(l),
{
    let refs = shutdown_runtime(all, l);
    Start::Closing { l, report, refs }
}

/// Makes the runtime of `l`.
fn probed(
    os: Os,
    all: &mut Runtimes,
    l: usize,
    entry: String,
    jit: bool,
    code: String,
    probe: PathProbe<String>,
) -> (r: ScriptRun)
    ensures
        r@ == start_step(
            old(all)@,
            Start::Probing { l, entry: entry@, jit, code: code@ },
            StartEvent::Probed(probe@),
            refs_of(r@),
        ),
        final(all)@ == start_effect(
            os,
            old(all)@,
            Start::Probing { l, entry: entry@, jit, code: code@ },
            StartEvent::Probed(probe@),
        ),
{
    if let Err(m) = init_runtime(all, l, os, entry.as_str(), probe) {
        let report = Some(marked("[NICY REQUIRE ERROR] ", m.as_str()));
        let refs: Vec<i32> = Vec::new();
        assert(refs@ =~= Seq::empty());
        return Start::Closing { l, report, refs };
    }
    let ghost made = all@;
    let _ = set_entry_jit(all, l, jit);
    assert(all@ =~= old(all)@.insert(l, made[l].jit_set(made[l].entry_file, jit)));
    Start::Loading { l, entry, jit, code }
}

/// Goes on when the code has been compiled, or has not.
fn loaded(all: &mut Runtimes, l: usize, jit: bool, status: i32, error: Option<String>) -> (r:
    ScriptRun)
    ensures
        forall|entry: Seq<char>, code: Seq<char>|
            #![trigger start_step(old(all)@, (Start::Loading { l, entry, jit, code }), (StartEvent::Loaded { status, error: text_opt(error) }), refs_of(r@))]
            r@ == start_step(
                old(all)@,
                Start::Loading { l, entry, jit, code },
                StartEvent::Loaded { status, error: text_opt(error) },
                refs_of(r@),
            ),
        r@ is Closing ==> given_back(old(all)@, l, refs_of(r@)),
        final(all)@ == (if status != 0 {
            old(all)@.remove(l)
        } else {
            updated(old(all)@, l, old(all)@[l].entered(old(all)@[l].entry_file))
        }),
{
    if status != 0 {
        return close(all, l, Some(report_error("[LUAU LOAD ERROR] ", error)));
    }
    match push_entry_module(all, l) {
        Ok(_) => Start::Running { l, jit },
        Err(m) => {
            let r = close(all, l, Some(marked("[NICY REQUIRE ERROR] ", m.as_str())));
            assert(all@ =~= old(all)@);
            r
        },
    }
}

/// Goes on when the script has run.
fn ran(all: &mut Runtimes, l: usize, status: i32, error: Option<String>) -> (r: ScriptRun)
    ensures
        forall|jit: bool|
            #![trigger start_step(old(all)@, (Start::Running { l, jit }), (StartEvent::Ran { status, error: text_opt(error) }), refs_of(r@))]
            r@ == start_step(
                old(all)@,
                Start::Running { l, jit },
                StartEvent::Ran { status, error: text_opt(error) },
                refs_of(r@),
            ),
        r@ is Closing ==> given_back(old(all)@, l, refs_of(r@)),
        final(all)@ == (if status != 0 {
            old(all)@.remove(l)
        } else {
            updated(old(all)@, l, old(all)@[l].left())
        }),
{
    pop_entry_module(all, l);
    let ghost popped = all@;
    if status != 0 {
        let r = close(all, l, Some(report_error("[LUAU ERROR] ", error)));
        assert(all@ =~= old(all)@.remove(l));
        assert(given_back(old(all)@, l, refs_of(r@))) by {
            if old(all)@.contains_key(l) {
                let keys = choose|keys: Seq<Seq<char>>|
                    lists_refs(popped[l], refs_of(r@), keys);
                assert(lists_refs(old(all)@[l], refs_of(r@), keys));
            }
        }
        return r;
    }
    Start::Tasks { l }
}

impl Start<String, Vec<i32>> {
    /// Begins the run of the script at `path`.
    pub fn begin(path: TextArgument<String>) -> (r: ScriptRun)
        ensures
            r@ == start_of(path@),
    {
        match path {
            TextArgument::Missing => Start::Failed(
                "[nicyrtdyn] Error: path_ptr is null".to_owned(),
            ),
            TextArgument::NotUtf8 => Start::Failed(
                "[nicyrtdyn] Error opening file: invalid path encoding".to_owned(),
            ),
            TextArgument::Text(path) => Start::Canonicalizing { path },
        }
    }

    /// What the run asks of its host.
    pub fn action(&self, os: Os) -> (r: StartAction<String, Vec<i32>>)
        ensures
            r@ == start_action(os, self@),
    {
        match self {
            Start::Canonicalizing { path } => StartAction::Canonicalize(path.clone()),
            Start::Reading { entry } => StartAction::Read(entry.clone()),
            Start::Creating { .. } => StartAction::Create,
            Start::SettingUp { l, entry, native, .. } => StartAction::SetUp {
                l: *l,
                native: *native,
                entry_file: entry.clone(),
                entry_dir: entry_dir_of(os, entry.as_str()),
            },
            Start::Probing { entry, .. } => StartAction::Probe(entry.clone()),
            Start::Loading { l, entry, code, .. } => StartAction::Load {
                l: *l,
                code: code.clone(),
                chunk: chunk_name(entry.as_str()),
            },
            Start::Running { l, jit } => StartAction::Run { l: *l, compile: *jit },
            Start::Tasks { l } => StartAction::RunTasks { l: *l },
            Start::Closing { l, report, refs } => {
                let report = match report {
                    Some(m) => Some(m.clone()),
                    None => None,
                };
                let refs = refs.clone();
                StartAction::Close { l: *l, report, refs }
            },
            Start::Failed(m) => StartAction::Report(m.clone()),
            Start::Done => StartAction::Nothing,
        }
    }

    /// Goes on with the answer `e` of the host.
    pub fn advance(self, os: Os, all: &mut Runtimes, e: StartEvent<String>) -> (r: ScriptRun)
        ensures
            r@ == start_step(old(all)@, self@, e@, refs_of(r@)),
            final(all)@ == start_effect(os, old(all)@, self@, e@),
            gives_back(old(all)@, self@, r@),
    {
        match (self, e) {
            (Start::Canonicalizing { .. }, StartEvent::Canonical(entry)) => Start::Reading {
                entry,
            },
            (Start::Canonicalizing { path }, StartEvent::NotCanonical) => Start::Reading {
                entry: path,
            },
            (Start::Reading { entry }, StartEvent::Content(source)) => {
                let (native, code) = strip_native_directive(source.as_str());
                Start::Creating { entry, native, code }
            },
            (Start::Reading { .. }, StartEvent::Unreadable(why)) => Start::Failed(
                marked("[nicyrtdyn] Error opening file: ", why.as_str()),
            ),
            (Start::Creating { entry, native, code }, StartEvent::Created(l)) => Start::SettingUp {
                l,
                entry,
                native,
                code,
            },
            (Start::Creating { .. }, StartEvent::NotCreated) => Start::Failed(
                "[nicyrtdyn] Failed to create Luau state".to_owned(),
            ),
            (Start::SettingUp { l, entry, native, code }, StartEvent::SetUp { codegen }) =>
                Start::Probing { l, entry, jit: native && codegen, code },
            (Start::Probing { l, entry, jit, code }, StartEvent::Probed(probe)) => probed(
                os,
                all,
                l,
                entry,
                jit,
                code,
                probe,
            ),
            (Start::Loading { l, jit, .. }, StartEvent::Loaded { status, error }) => loaded(
                all,
                l,
                jit,
                status,
                error,
            ),
            (Start::Running { l, .. }, StartEvent::Ran { status, error }) => ran(
                all,
                l,
                status,
                error,
            ),
            (Start::Tasks { l }, StartEvent::TasksDone) => close(all, l, None),
            (Start::Closing { .. }, StartEvent::Closed) => Start::Done,
            (c, _) => c,
        }
    }
}

/// The state that the run of a script has made and not closed yet.
pub open spec fn open_state(c: StartView) -> Option<usize> {
    match c {
        Start::SettingUp { l, .. } => Some(l),
        Start::Probing { l, .. } => Some(l),
        Start::Loading { l, .. } => Some(l),
        Start::Running { l, .. } => Some(l),
        Start::Tasks { l } => Some(l),
        Start::Closing { l, .. } => Some(l),
        _ => None,
    }
}

/// A state that was made stays open until it has been closed, and is the one
/// that every action is about: a run cannot end without closing it.
pub proof fn law_state_is_closed(
    os: Os,
    all: RuntimesView,
    c: StartView,
    e: StartEvent<Seq<char>>,
    refs: Seq<i32>,
    l: usize,
)
    requires
        open_state(c) == Some(l),
    ensures
        open_state(start_step(all, c, e, refs)) == Some(l) || (start_action(os, c) matches StartAction::Close {
            l: closed,
            ..
        } && closed == l && e is Closed && start_step(all, c, e, refs) is Done),
{
}

/// When a state is about to be closed its runtime is gone. A runtime that
/// could not be made was never there.
pub proof fn law_runtime_ends_with_state(
    os: Os,
    all: RuntimesView,
    c: StartView,
    e: StartEvent<Seq<char>>,
    refs: Seq<i32>,
    l: usize,
)
    requires
        open_state(c) == Some(l),
        !(c is Closing),
        start_step(all, c, e, refs) is Closing,
        c is Probing ==> !all.contains_key(l),
    ensures
        !start_effect(os, all, c, e).contains_key(l),
{
}

/// The run of a script leaves the runtimes of other states alone.
pub proof fn law_run_leaves_other_states_alone(
    os: Os,
    all: RuntimesView,
    c: StartView,
    e: StartEvent<Seq<char>>,
    other: usize,
)
    requires
        open_state(c) != Some(other),
    ensures
        start_effect(os, all, c, e).contains_key(other) == all.contains_key(other),
        all.contains_key(other) ==> start_effect(os, all, c, e)[other] == all[other],
{
}

/// The entry file is the module that runs while the script does, and no
/// longer: it is put on the module stack before and taken off after. A script
/// that puts its own modules back leaves the stack as it was.
pub proof fn law_entry_runs_as_module(
    os: Os,
    all: RuntimesView,
    l: usize,
    entry: Seq<char>,
    jit: bool,
    code: Seq<char>,
    after: RuntimesView,
    refs: Seq<i32>,
)
    requires
        all.contains_key(l),
        ({
            let running = start_effect(
                os,
                all,
                Start::Loading { l, entry, jit, code },
                StartEvent::Loaded { status: 0, error: None },
            );
            after.contains_key(l) && after[l].module_stack == running[l].module_stack
        }),
    ensures
        ({
            let loading = Start::Loading { l, entry, jit, code };
            let loaded = StartEvent::Loaded { status: 0, error: None };
            let running = start_effect(os, all, loading, loaded);
            let ran = StartEvent::Ran { status: 0, error: None };
            let next = start_step(all, loading, loaded, refs);
            let end = start_effect(os, after, next, ran);
            &&& next == StartView::Running { l, jit }
            &&& running[l].module_stack == all[l].module_stack.push(all[l].entry_file)
            &&& running[l].current() == all[l].entry_file
            &&& end[l].module_stack == all[l].module_stack
        }),
{
    let running = start_effect(
        os,
        all,
        Start::Loading { l, entry, jit, code },
        StartEvent::Loaded { status: 0, error: None },
    );
    assert(running[l].module_stack.drop_last() =~= all[l].module_stack);
}

/// The entry file counts as native exactly if its first line asks for it and
/// native code generation could be set up, and then it is compiled to native
/// code.
pub proof fn law_entry_native_on_request(
    os: Os,
    all: RuntimesView,
    l: usize,
    entry: Seq<char>,
    source: Seq<char>,
    codegen: bool,
    file: Seq<char>,
    refs: Seq<i32>,
)
    ensures
        ({
            let none: Option<Seq<char>> = None;
            let c1 = start_step(all, Start::Reading { entry }, StartEvent::Content(source), refs);
            let c2 = start_step(all, c1, StartEvent::Created(l), refs);
            let c3 = start_step(all, c2, StartEvent::SetUp { codegen }, refs);
            let probed = StartEvent::Probed(PathProbe::Canonical(file));
            let c4 = start_step(all, c3, probed, refs);
            let made = start_effect(os, all, c3, probed);
            let c5 = start_step(made, c4, StartEvent::Loaded { status: 0, error: none }, refs);
            let jit = asks_for_native(source) && codegen;
            &&& made[l].entry_file == file
            &&& made[l].jit(file) == jit
            &&& made[l].jit(made[l].current()) == jit
            &&& start_action(os, c5) == StartAction::<Seq<char>, Seq<i32>>::Run { l, compile: jit }
        }),
{
}

} // verus!
