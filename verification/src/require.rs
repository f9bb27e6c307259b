//! `require`: a module is found, loaded and run once for each version of its
//! file, and its value is kept.
//!
//! A call of `require` asks its host for one thing at a time and goes on with
//! the answer. The host holds the Luau state; here is what is decided.
use crate::luau;
use crate::resolution::{
    failure, query_of, read_failed_message, runtime_after, search_of, search_step, sound,
    stat_failed_message, FileEvent, FileQuery, Resolution, Search, SearchView, Stage,
};
use crate::runtime_data::{
    no_runtime_message, updated, FileFingerprint, ModuleCacheEntry, Runtimes, RuntimesView,
};
use crate::source::{asks_for_native, chunk_name, code_of, strip_native_directive};
use crate::text::{replace_nul, text_opt, without_nul};
use vstd::prelude::*;

verus! {

/// An argument that has to be a text.
#[verifier::ext_equal]
#[derive(PartialEq, Eq, Debug)]
pub enum TextArgument<T> {
    /// There is none.
    Missing,
    /// It is not valid UTF-8.
    NotUtf8,
    Text(T),
}

impl View for TextArgument<String> {
    type V = TextArgument<Seq<char>>;

    open spec fn view(&self) -> TextArgument<Seq<char>> {
        match *self {
            TextArgument::Missing => TextArgument::Missing,
            TextArgument::NotUtf8 => TextArgument::NotUtf8,
            TextArgument::Text(t) => TextArgument::Text(t@),
        }
    }
}

/// How far a call of `require` has come.
#[verifier::ext_equal]
pub enum Call<T, S> {
    /// The file of the module is being looked for.
    Resolving(S),
    /// The version of the file is being asked for.
    Stamping { path: T },
    /// The value of another version of the file is being released.
    Releasing { path: T, fp: FileFingerprint, old: i32 },
    /// The file is being read.
    Reading { path: T, fp: FileFingerprint },
    /// The code is being compiled.
    Loading { path: T, fp: FileFingerprint, native: bool, code: T },
    /// The module is being run; `before` is what was noted of it before this:
    /// whether its code is native.
    Running { path: T, fp: FileFingerprint, jit: bool, before: Option<bool> },
    /// The value of the module is being put under a reference; `nil` tells
    /// whether it is nil.
    Keeping { path: T, fp: FileFingerprint, jit: bool, nil: bool },
    /// A reference that has no place is being released.
    Discarding { value_ref: i32, message: T },
    /// The call returns the value under this reference.
    Value(i32),
    /// The call fails with this message.
    Error(T),
}

/// What a call of `require` asks of its host.
#[verifier::ext_equal]
#[derive(PartialEq, Eq, Debug)]
pub enum CallAction<T> {
    /// To ask this of the file system.
    File(FileQuery<T>),
    /// To release a reference.
    Release(i32),
    /// To compile the code as a chunk of the given name, after setting up
    /// native code generation if that is asked for.
    Load { code: T, chunk: T, native: bool },
    /// To run the chunk, after compiling it to native code if that is asked
    /// for.
    Run { compile: bool },
    /// To put the value that the chunk returned, or `true` in place of a nil,
    /// under a reference.
    Keep { replace_nil: bool },
    /// To return the value under a reference.
    Push(i32),
    /// To return nil and a message.
    Fail(T),
}

/// What the host of a call of `require` answers.
#[verifier::ext_equal]
#[derive(PartialEq, Eq, Debug)]
pub enum CallEvent<T> {
    /// The answer of the file system.
    File(FileEvent<T>),
    /// The reference is released.
    Released,
    /// The chunk is compiled, or it is not: the status, whether native code
    /// generation could be set up, and the error message if there is one.
    Loaded { status: i32, codegen: bool, error: Option<T> },
    /// The chunk has run: the status, the type of the value returned, and the
    /// error message if there is one.
    Ran { status: i32, tag: i32, error: Option<T> },
    /// The value is kept under this reference.
    Kept(i32),
}

/// A call of `require` that runs.
pub type Require = Call<String, Resolution>;

/// What a call of `require` stands for.
pub type CallView = Call<Seq<char>, SearchView>;

impl View for Call<String, Resolution> {
    type V = CallView;

    open spec fn view(&self) -> CallView {
        match *self {
            Call::Resolving(s) => Call::Resolving(s@),
            Call::Stamping { path } => Call::Stamping { path: path@ },
            Call::Releasing { path, fp, old } => Call::Releasing { path: path@, fp, old },
            Call::Reading { path, fp } => Call::Reading { path: path@, fp },
            Call::Loading { path, fp, native, code } => Call::Loading {
                path: path@,
                fp,
                native,
                code: code@,
            },
            Call::Running { path, fp, jit, before } => Call::Running {
                path: path@,
                fp,
                jit,
                before,
            },
            Call::Keeping { path, fp, jit, nil } => Call::Keeping { path: path@, fp, jit, nil },
            Call::Discarding { value_ref, message } => Call::Discarding {
                value_ref,
                message: message@,
            },
            Call::Value(r) => Call::Value(r),
            Call::Error(m) => Call::Error(m@),
        }
    }
}

impl View for CallAction<String> {
    type V = CallAction<Seq<char>>;

    open spec fn view(&self) -> CallAction<Seq<char>> {
        match *self {
            CallAction::File(q) => CallAction::File(q@),
            CallAction::Release(r) => CallAction::Release(r),
            CallAction::Load { code, chunk, native } => CallAction::Load {
                code: code@,
                chunk: chunk@,
                native,
            },
            CallAction::Run { compile } => CallAction::Run { compile },
            CallAction::Keep { replace_nil } => CallAction::Keep { replace_nil },
            CallAction::Push(r) => CallAction::Push(r),
            CallAction::Fail(m) => CallAction::Fail(m@),
        }
    }
}

impl View for CallEvent<String> {
    type V = CallEvent<Seq<char>>;

    open spec fn view(&self) -> CallEvent<Seq<char>> {
        match *self {
            CallEvent::File(e) => CallEvent::File(e@),
            CallEvent::Released => CallEvent::Released,
            CallEvent::Loaded { status, codegen, error } => CallEvent::Loaded {
                status,
                codegen,
                error: text_opt(error),
            },
            CallEvent::Ran { status, tag, error } => CallEvent::Ran {
                status,
                tag,
                error: text_opt(error),
            },
            CallEvent::Kept(r) => CallEvent::Kept(r),
        }
    }
}

pub open spec fn no_context_message() -> Seq<char> {
    "require has no current module context"@
}

pub open spec fn cyclic_message(path: Seq<char>) -> Seq<char> {
    "cyclic require detected for '"@ + path + "'"@
}

pub open spec fn load_error_message(path: Seq<char>, error: Option<Seq<char>>) -> Seq<char> {
    "load error in '"@ + path + "': "@ + (match error {
        Some(m) => m,
        None => "unknown load error"@,
    })
}

pub open spec fn runtime_error_message(path: Seq<char>, error: Option<Seq<char>>) -> Seq<char> {
    "runtime error in '"@ + path + "': "@ + (match error {
        Some(m) => m,
        None => "unknown runtime error"@,
    })
}

/// A call that looks for the file of its module: once that is found, its
/// version is asked for.
pub open spec fn resolving(s: SearchView) -> CallView {
    match s.stage {
        Stage::Done(Ok(path)) => Call::Stamping { path },
        Stage::Done(Err(message)) => Call::Error(message),
        _ => Call::Resolving(s),
    }
}

/// A call of `require` that begins, in the module that is running.
pub open spec fn call_of(
    all: RuntimesView,
    l: usize,
    argument: TextArgument<Seq<char>>,
) -> CallView {
    match argument {
        TextArgument::Missing => Call::Error("expected a string"@),
        TextArgument::NotUtf8 => Call::Error("invalid utf-8 string"@),
        TextArgument::Text(spec) => if !all.contains_key(l) {
            Call::Error(no_runtime_message())
        } else if all[l].module_stack.len() == 0 {
            Call::Error(no_context_message())
        } else {
            resolving(search_of(all[l], all[l].module_stack.last(), spec))
        },
    }
}

/// A module of which no value is kept: it is read, unless its loading has
/// begun and not ended.
pub open spec fn load_call(
    all: RuntimesView,
    l: usize,
    path: Seq<char>,
    fp: FileFingerprint,
) -> CallView {
    if !all.contains_key(l) {
        Call::Error(no_runtime_message())
    } else if all[l].loading.contains(path) {
        Call::Error(cyclic_message(path))
    } else {
        Call::Reading { path, fp }
    }
}

/// The runtimes once the reading of a module begins.
pub open spec fn load_effect(all: RuntimesView, l: usize, path: Seq<char>) -> RuntimesView {
    if all.contains_key(l) && !all[l].loading.contains(path) {
        all.insert(l, all[l].begun(path))
    } else {
        all
    }
}

/// A module whose version is known: its value is returned if it was loaded
/// from that version; a value from another version is released first.
pub open spec fn stamped_call(
    all: RuntimesView,
    l: usize,
    path: Seq<char>,
    fp: FileFingerprint,
) -> CallView {
    if !all.contains_key(l) {
        Call::Error(no_runtime_message())
    } else if all[l].fresh_ref(path, fp) is Some {
        Call::Value(all[l].fresh_ref(path, fp)->0)
    } else if all[l].any_ref(path) is Some {
        Call::Releasing { path, fp, old: all[l].any_ref(path)->0 }
    } else {
        load_call(all, l, path, fp)
    }
}

/// What is noted of the module `path` in the state `l`: whether its code is
/// native.
pub open spec fn noted_of(all: RuntimesView, l: usize, path: Seq<char>) -> Option<bool> {
    if all.contains_key(l) {
        all[l].jit_noted(path)
    } else {
        None
    }
}

/// How a call of `require` goes on when its host has answered `e`. An answer
/// to something else than was asked changes nothing.
pub open spec fn call_step(
    all: RuntimesView,
    l: usize,
    c: CallView,
    e: CallEvent<Seq<char>>,
) -> CallView {
    match (c, e) {
        (Call::Resolving(s), CallEvent::File(f)) => if all.contains_key(l) {
            resolving(search_step(all[l], s, f))
        } else {
            Call::Error(no_runtime_message())
        },
        (Call::Stamping { path }, CallEvent::File(FileEvent::Stamped(fp))) => stamped_call(
            all,
            l,
            path,
            fp,
        ),
        (Call::Stamping { path }, CallEvent::File(FileEvent::Failed(why))) => Call::Error(
            stat_failed_message(path, why),
        ),
        (Call::Releasing { path, fp, .. }, CallEvent::Released) => load_call(all, l, path, fp),
        (Call::Reading { path, fp }, CallEvent::File(FileEvent::Content(source))) => Call::Loading {
            path,
            fp,
            native: asks_for_native(source),
            code: code_of(source),
        },
        (Call::Reading { path, .. }, CallEvent::File(FileEvent::Failed(why))) => Call::Error(
            read_failed_message(path, why),
        ),
        (Call::Loading { path, fp, native, .. }, CallEvent::Loaded { status, codegen, error }) =>
            if status != 0 {
                Call::Error(load_error_message(path, error))
            } else {
                Call::Running { path, fp, jit: native && codegen, before: noted_of(all, l, path) }
            },
        (Call::Running { path, fp, jit, .. }, CallEvent::Ran { status, tag, error }) => if status
            != 0 {
            Call::Error(runtime_error_message(path, error))
        } else {
            Call::Keeping { path, fp, jit, nil: tag == luau::nil_tag_value() }
        },
        (Call::Keeping { .. }, CallEvent::Kept(value_ref)) => if all.contains_key(l) {
            Call::Value(value_ref)
        } else {
            Call::Discarding { value_ref, message: no_runtime_message() }
        },
        (Call::Discarding { message, .. }, CallEvent::Released) => Call::Error(message),
        _ => c,
    }
}

/// What an answer of the host leaves in the runtimes. Whether the code of a
/// module is native is noted before it runs, and taken back if it fails.
pub open spec fn call_effect(
    all: RuntimesView,
    l: usize,
    c: CallView,
    e: CallEvent<Seq<char>>,
) -> RuntimesView {
    match (c, e) {
        (Call::Resolving(s), CallEvent::File(f)) => updated(all, l, runtime_after(all[l], s, f)),
        (Call::Stamping { path }, CallEvent::File(FileEvent::Stamped(fp))) => if all.contains_key(l)
            && all[l].any_ref(path) is Some {
            all
        } else {
            load_effect(all, l, path)
        },
        (Call::Releasing { path, .. }, CallEvent::Released) => load_effect(
            updated(all, l, all[l].forgotten(path)),
            l,
            path,
        ),
        (Call::Reading { path, .. }, CallEvent::File(FileEvent::Failed(_))) => updated(
            all,
            l,
            all[l].ended(path),
        ),
        (Call::Loading { path, native, .. }, CallEvent::Loaded { status, codegen, .. }) => if status
            != 0 {
            updated(all, l, all[l].ended(path))
        } else {
            updated(all, l, all[l].entered(path).jit_set(path, native && codegen))
        },
        (Call::Running { path, before, .. }, CallEvent::Ran { status, .. }) => if status != 0 {
            updated(all, l, all[l].left().ended(path).jit_restored(path, before))
        } else {
            updated(all, l, all[l].left().ended(path))
        },
        (Call::Keeping { path, fp, jit, .. }, CallEvent::Kept(value_ref)) => updated(
            all,
            l,
            all[l].stored(path, ModuleCacheEntry { fp, value_ref }, jit),
        ),
        _ => all,
    }
}

/// What a call of `require` asks of its host.
pub open spec fn action_of(c: CallView) -> CallAction<Seq<char>> {
    match c {
        Call::Resolving(s) => CallAction::File(query_of(s)->0),
        Call::Stamping { path } => CallAction::File(FileQuery::Stamp(path)),
        Call::Releasing { old, .. } => CallAction::Release(old),
        Call::Reading { path, .. } => CallAction::File(FileQuery::Read(path)),
        Call::Loading { path, native, code, .. } => CallAction::Load {
            code,
            chunk: without_nul(path).push('\0'),
            native,
        },
        Call::Running { jit, .. } => CallAction::Run { compile: jit },
        Call::Keeping { nil, .. } => CallAction::Keep { replace_nil: nil },
        Call::Discarding { value_ref, .. } => CallAction::Release(value_ref),
        Call::Value(r) => CallAction::Push(r),
        Call::Error(m) => CallAction::Fail(without_nul(m)),
    }
}

/// Whether a call that looks for the file of its module has something to ask
/// for.
pub open spec fn sound_call(c: CallView) -> bool {
    c matches Call::Resolving(s) ==> sound(s) && !(s.stage is Done)
}

/// The message of an error in the module `path`.
fn error_message(what: &str, path: &str, error: Option<String>, unknown: &str) -> (m: String)
    ensures
        m@ == what@ + path@ + "': "@ + (match text_opt(error) {
            Some(m) => m,
            None => unknown@,
        }),
{
    match error {
        Some(e) => failure(what, path, e.as_str()),
        None => failure(what, path, unknown),
    }
}

/// A call that looks for the file of its module.
fn look_for(s: Resolution) -> (r: Require)
    requires
        sound(s@),
    ensures
        r@ == resolving(s@),
        sound_call(r@),
{
    let Search { os, spec, from, stage } = s;
    match stage {
        Stage::Done(Ok(path)) => Call::Stamping { path },
        Stage::Done(Err(message)) => Call::Error(message),
        stage => Call::Resolving(Search { os, spec, from, stage }),
    }
}

/// Begins to read a module, unless its loading has begun and not ended.
fn load(all: &mut Runtimes, l: usize, path: String, fp: FileFingerprint) -> (r: Require)
    ensures
        r@ == load_call(old(all)@, l, path@, fp),
        final(all)@ == load_effect(old(all)@, l, path@),
{
    match all.take(l) {
        None => {
            assert(all@ =~= old(all)@);
            Call::Error("runtime context is not initialized".to_owned())
        },
        Some(mut rt) => {
            let cycle = rt.begin(path.as_str());
            all.put(l, rt);
            if cycle {
                assert(all@ =~= old(all)@);
                let mut m = "cyclic require detected for '".to_owned();
                m.append(path.as_str());
                m.append("'");
                Call::Error(m)
            } else {
                assert(all@ =~= old(all)@.insert(l, old(all)@[l].begun(path@)));
                Call::Reading { path, fp }
            }
        },
    }
}

/// Goes on with a module whose version is known.
fn stamped(all: &mut Runtimes, l: usize, path: String, fp: FileFingerprint) -> (r: Require)
    ensures
        r@ == stamped_call(old(all)@, l, path@, fp),
        final(all)@ == call_effect(
            old(all)@,
            l,
            Call::Stamping { path: path@ },
            CallEvent::File(FileEvent::Stamped(fp)),
        ),
{
    if let Some(rt) = all.get(l) {
        if let Some(r) = rt.fresh_ref(path.as_str(), fp) {
            return Call::Value(r);
        }
        if let Some(old) = rt.any_ref(path.as_str()) {
            return Call::Releasing { path, fp, old };
        }
    }
    load(all, l, path, fp)
}

/// Goes on with the search for the file of the module.
fn searched(all: &mut Runtimes, l: usize, s: Resolution, e: FileEvent<String>) -> (r: Require)
    requires
        sound(s@),
    ensures
        r@ == call_step(old(all)@, l, Call::Resolving(s@), CallEvent::File(e@)),
        final(all)@ == call_effect(old(all)@, l, Call::Resolving(s@), CallEvent::File(e@)),
        sound_call(r@),
{
    match all.take(l) {
        None => {
            assert(all@ =~= old(all)@);
            Call::Error("runtime context is not initialized".to_owned())
        },
        Some(mut rt) => {
            let s = s.advance(&mut rt, e);
            all.put(l, rt);
            assert(all@ =~= old(all)@.insert(l, rt@));
            look_for(s)
        },
    }
}

/// Drops what is kept of the module `path`.
fn forget(all: &mut Runtimes, l: usize, path: &str)
    ensures
        final(all)@ == updated(old(all)@, l, old(all)@[l].forgotten(path@)),
{
    if let Some(mut rt) = all.take(l) {
        rt.forget(path);
        all.put(l, rt);
    }
    assert(all@ =~= updated(old(all)@, l, old(all)@[l].forgotten(path@)));
}

/// Notes that the loading of the module `path` has ended.
fn end(all: &mut Runtimes, l: usize, path: &str)
    ensures
        final(all)@ == updated(old(all)@, l, old(all)@[l].ended(path@)),
{
    if let Some(mut rt) = all.take(l) {
        rt.end(path);
        all.put(l, rt);
    }
    assert(all@ =~= updated(old(all)@, l, old(all)@[l].ended(path@)));
}

/// Puts the module `path` on top of the module stack and notes whether its
/// code is native; gives what was noted before.
fn enter(all: &mut Runtimes, l: usize, path: &str, jit: bool) -> (before: Option<bool>)
    ensures
        before == noted_of(old(all)@, l, path@),
        final(all)@ == updated(old(all)@, l, old(all)@[l].entered(path@).jit_set(path@, jit)),
{
    let mut before: Option<bool> = None;
    if let Some(mut rt) = all.take(l) {
        before = rt.jit_noted(path);
        rt.enter(path.to_owned());
        rt.restore_jit(path, Some(jit));
        all.put(l, rt);
    }
    assert(all@ =~= updated(old(all)@, l, old(all)@[l].entered(path@).jit_set(path@, jit)));
    before
}

/// Takes the module `path`, which has run, off the module stack.
fn leave(all: &mut Runtimes, l: usize, path: &str)
    ensures
        final(all)@ == updated(old(all)@, l, old(all)@[l].left().ended(path@)),
{
    if let Some(mut rt) = all.take(l) {
        rt.leave();
        rt.end(path);
        all.put(l, rt);
    }
    assert(all@ =~= updated(old(all)@, l, old(all)@[l].left().ended(path@)));
}

/// Takes the module `path`, which has failed, off the module stack, and takes
/// back what was noted of it.
fn leave_failed(all: &mut Runtimes, l: usize, path: &str, before: Option<bool>)
    ensures
        final(all)@ == updated(
            old(all)@,
            l,
            old(all)@[l].left().ended(path@).jit_restored(path@, before),
        ),
{
    if let Some(mut rt) = all.take(l) {
        rt.leave();
        rt.end(path);
        rt.restore_jit(path, before);
        all.put(l, rt);
    }
    assert(all@ =~= updated(
        old(all)@,
        l,
        old(all)@[l].left().ended(path@).jit_restored(path@, before),
    ));
}

/// Keeps the module `path`, if there is a runtime to keep it in.
fn keep(all: &mut Runtimes, l: usize, path: &str, entry: ModuleCacheEntry, jit: bool) -> (kept: bool)
    ensures
        kept == old(all)@.contains_key(l),
        final(all)@ == updated(old(all)@, l, old(all)@[l].stored(path@, entry, jit)),
{
    let kept = match all.take(l) {
        Some(mut rt) => {
            rt.store(path, entry, jit);
            all.put(l, rt);
            true
        },
        None => false,
    };
    assert(all@ =~= updated(old(all)@, l, old(all)@[l].stored(path@, entry, jit)));
    kept
}

impl Call<String, Resolution> {
    /// Begins a call of `require` in the state `l`.
    pub fn begin(all: &Runtimes, l: usize, argument: TextArgument<String>) -> (r: Require)
        ensures
            r@ == call_of(all@, l, argument@),
            sound_call(r@),
    {
        let spec = match argument {
            TextArgument::Missing => {
                return Call::Error("expected a string".to_owned());
            },
            TextArgument::NotUtf8 => {
                return Call::Error("invalid utf-8 string".to_owned());
            },
            TextArgument::Text(spec) => spec,
        };
        match all.get(l) {
            None => Call::Error("runtime context is not initialized".to_owned()),
            Some(rt) => match rt.running() {
                None => Call::Error("require has no current module context".to_owned()),
                Some(module) => look_for(Search::begin(rt, module.as_str(), spec.as_str())),
            },
        }
    }

    /// What the call asks of its host.
    pub fn action(&self) -> (r: CallAction<String>)
        requires
            sound_call(self@),
        ensures
            r@ == action_of(self@),
    {
        match self {
            Call::Resolving(s) => CallAction::File(s.query().unwrap()),
            Call::Stamping { path } => CallAction::File(FileQuery::Stamp(path.clone())),
            Call::Releasing { old, .. } => CallAction::Release(*old),
            Call::Reading { path, .. } => CallAction::File(FileQuery::Read(path.clone())),
            Call::Loading { path, native, code, .. } => CallAction::Load {
                code: code.clone(),
                chunk: chunk_name(path.as_str()),
                native: *native,
            },
            Call::Running { jit, .. } => CallAction::Run { compile: *jit },
            Call::Keeping { nil, .. } => CallAction::Keep { replace_nil: *nil },
            Call::Discarding { value_ref, .. } => CallAction::Release(*value_ref),
            Call::Value(r) => CallAction::Push(*r),
            Call::Error(m) => CallAction::Fail(replace_nul(m.as_str())),
        }
    }

    /// Goes on with the answer `e` of the host.
    pub fn advance(self, all: &mut Runtimes, l: usize, e: CallEvent<String>) -> (r: Require)
        requires
            sound_call(self@),
        ensures
            r@ == call_step(old(all)@, l, self@, e@),
            final(all)@ == call_effect(old(all)@, l, self@, e@),
            sound_call(r@),
    {
        match (self, e) {
            (Call::Resolving(s), CallEvent::File(f)) => searched(all, l, s, f),
            (Call::Stamping { path }, CallEvent::File(FileEvent::Stamped(fp))) => stamped(
                all,
                l,
                path,
                fp,
            ),
            (Call::Stamping { path }, CallEvent::File(FileEvent::Failed(why))) => Call::Error(
                failure("failed to stat '", path.as_str(), why.as_str()),
            ),
            (Call::Releasing { path, fp, .. }, CallEvent::Released) => {
                forget(all, l, path.as_str());
                load(all, l, path, fp)
            },
            (Call::Reading { path, fp }, CallEvent::File(FileEvent::Content(source))) => {
                let (native, code) = strip_native_directive(source.as_str());
                Call::Loading { path, fp, native, code }
            },
            (Call::Reading { path, .. }, CallEvent::File(FileEvent::Failed(why))) => {
                end(all, l, path.as_str());
                Call::Error(failure("failed to read '", path.as_str(), why.as_str()))
            },
            (
                Call::Loading { path, fp, native, .. },
                CallEvent::Loaded { status, codegen, error },
            ) => if status != 0 {
                end(all, l, path.as_str());
                Call::Error(
                    error_message("load error in '", path.as_str(), error, "unknown load error"),
                )
            } else {
                let jit = native && codegen;
                let before = enter(all, l, path.as_str(), jit);
                Call::Running { path, fp, jit, before }
            },
            (Call::Running { path, fp, jit, before }, CallEvent::Ran { status, tag, error }) => {
                if status != 0 {
                    leave_failed(all, l, path.as_str(), before);
                    Call::Error(
                        error_message(
                            "runtime error in '",
                            path.as_str(),
                            error,
                            "unknown runtime error",
                        ),
                    )
                } else {
                    leave(all, l, path.as_str());
                    Call::Keeping { path, fp, jit, nil: tag == luau::nil_tag() }
                }
            },
            (Call::Keeping { path, fp, jit, .. }, CallEvent::Kept(value_ref)) => {
                let entry = ModuleCacheEntry { fp, value_ref };
                if keep(all, l, path.as_str(), entry, jit) {
                    Call::Value(value_ref)
                } else {
                    Call::Discarding {
                        value_ref,
                        message: "runtime context is not initialized".to_owned(),
                    }
                }
            },
            (Call::Discarding { message, .. }, CallEvent::Released) => Call::Error(message),
            (c, _) => c,
        }
    }
}

} // verus!
