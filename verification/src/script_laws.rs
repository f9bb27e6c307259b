//! What holds of scripts from their beginning to their end: what is asked of
//! the host when they are run, compiled or evaluated, and with what.
use crate::compile::{
    bytecode_file, compile_action, compile_of, compile_step, Compile, CompileAction, CompileEvent,
    CompileView,
};
use crate::eval::{eval_action, eval_of, eval_step, Eval, EvalAction, EvalEvent};
use crate::path::{parent_of, with_extension_of, Os};
use crate::path_laws::{law_extension_is_added, law_extension_is_replaced, undivided};
use crate::require::TextArgument;
use crate::require_resolver::{needs_runtime, PathProbe};
use crate::runtime_data::{lists_refs, LuaurcRecord, ModuleCacheEntry, RuntimeView, RuntimesView};
use crate::source::code_of;
use crate::source_laws::{
    directive_at, law_code_behind_directive, law_native_only_by_directive,
    law_nothing_behind_directive, law_other_source_is_kept,
};
use crate::start::{
    given_back, gives_back, start_action, start_effect, start_of, start_step, Start, StartAction,
    StartEvent, StartView,
};
use crate::text::{is_space, joined, lines, without_nul};
use crate::text_laws::{free_of, law_nul_is_replaced};
use vstd::prelude::*;

verus! {

/// What the run of a script asks for.
pub type StartAsks = StartAction<Seq<char>, Seq<i32>>;

/// What a compilation asks for.
pub type CompileAsks = CompileAction<Seq<char>, Seq<u8>>;

/// The run of a script with its source at hand, when its host has made the
/// state `l`, set it up, and found the file of the script. The runtimes may
/// change from one answer to the next.
pub open spec fn run_up_to_load(
    all: Seq<RuntimesView>,
    refs: Seq<i32>,
    entry: Seq<char>,
    source: Seq<char>,
    l: usize,
    codegen: bool,
    file: Seq<char>,
) -> StartView {
    let c1 = start_step(all[0], Start::Reading { entry }, StartEvent::Content(source), refs);
    let c2 = start_step(all[1], c1, StartEvent::Created(l), refs);
    let c3 = start_step(all[2], c2, StartEvent::SetUp { codegen }, refs);
    start_step(all[3], c3, StartEvent::Probed(PathProbe::Canonical(file)), refs)
}

/// A script is loaded with all of its source, whatever its first line is, as
/// long as that is not the directive `--!native`; its chunk is named after it.
pub proof fn law_script_is_loaded_whole(
    os: Os,
    all: Seq<RuntimesView>,
    refs: Seq<i32>,
    entry: Seq<char>,
    source: Seq<char>,
    l: usize,
    codegen: bool,
    file: Seq<char>,
)
    requires
        forall|n: int| !directive_at(source, n),
    ensures
        start_action(os, run_up_to_load(all, refs, entry, source, l, codegen, file)) == (
        StartAsks::Load { l, code: source, chunk: without_nul(entry).push('\0') }),
        free_of(entry, '\0') ==> start_action(
            os,
            run_up_to_load(all, refs, entry, source, l, codegen, file),
        ) == (StartAsks::Load { l, code: source, chunk: entry.push('\0') }),
{
    law_other_source_is_kept(source);
    law_nul_is_replaced(entry);
}

/// A script whose first line is the directive is loaded with the lines behind
/// it: with the text that follows, but for a line feed at its very end, where
/// it knows no carriage returns.
pub proof fn law_script_is_loaded_behind_directive(
    os: Os,
    all: Seq<RuntimesView>,
    refs: Seq<i32>,
    entry: Seq<char>,
    space: Seq<char>,
    comment: Seq<char>,
    body: Seq<char>,
    l: usize,
    codegen: bool,
    file: Seq<char>,
)
    requires
        forall|i: int| 0 <= i < space.len() ==> is_space(#[trigger] space[i]) && space[i] != '\n',
        free_of(comment, '\n'),
    ensures
        ({
            let first = space + "--!native"@ + comment;
            let chunk = without_nul(entry).push('\0');
            let whole = run_up_to_load(all, refs, entry, first + "\n"@ + body, l, codegen, file);
            let ended = run_up_to_load(
                all,
                refs,
                entry,
                first + "\n"@ + body.push('\n'),
                l,
                codegen,
                file,
            );
            let alone = run_up_to_load(all, refs, entry, first, l, codegen, file);
            &&& start_action(os, whole) == (StartAsks::Load {
                l,
                code: joined(lines(body), "\n"@),
                chunk,
            })
            &&& free_of(body, '\r') && !(body.len() > 0 && body.last() == '\n') ==> start_action(
                os,
                whole,
            ) == (StartAsks::Load { l, code: body, chunk })
            &&& free_of(body, '\r') ==> start_action(os, ended) == (StartAsks::Load {
                l,
                code: body,
                chunk,
            })
            &&& start_action(os, alone) == (StartAsks::Load { l, code: ""@, chunk })
        }),
{
    law_code_behind_directive(space, comment, body);
    law_nothing_behind_directive(space, comment);
}

/// A script is found, read, given a state, set up, looked for again, loaded,
/// run as native code exactly if it asks for that and it can be had, followed
/// by its tasks, and closed, in that order, and nothing else is asked for.
pub proof fn law_script_goes_through(
    os: Os,
    all: Seq<RuntimesView>,
    refs: Seq<i32>,
    path: Seq<char>,
    entry: Seq<char>,
    source: Seq<char>,
    l: usize,
    codegen: bool,
    file: Seq<char>,
    error: Option<Seq<char>>,
)
    requires
        all[4].contains_key(l),
    ensures
        ({
            let native = exists|n: int| directive_at(source, n);
            let c0 = start_of(TextArgument::Text(path));
            let c1 = start_step(all[0], c0, StartEvent::Canonical(entry), refs);
            let c2 = start_step(all[1], c1, StartEvent::Content(source), refs);
            let c3 = start_step(all[2], c2, StartEvent::Created(l), refs);
            let c4 = start_step(all[3], c3, StartEvent::SetUp { codegen }, refs);
            let c5 = start_step(
                all[3],
                c4,
                StartEvent::Probed(PathProbe::Canonical(file)),
                refs,
            );
            let c6 = start_step(all[4], c5, StartEvent::Loaded { status: 0, error }, refs);
            let c7 = start_step(all[5], c6, StartEvent::Ran { status: 0, error }, refs);
            let c8 = start_step(all[6], c7, StartEvent::TasksDone, refs);
            let c9 = start_step(all[7], c8, StartEvent::Closed, refs);
            &&& start_action(os, c0) == StartAsks::Canonicalize(path)
            &&& start_action(os, c1) == StartAsks::Read(entry)
            &&& start_step(all[0], c0, StartEvent::NotCanonical, refs) == (StartView::Reading {
                entry: path,
            })
            &&& start_action(os, c2) is Create
            &&& start_action(os, c3) == (StartAsks::SetUp {
                l,
                native,
                entry_file: entry,
                entry_dir: match parent_of(os, entry) {
                    Some(dir) => dir,
                    None => "."@,
                },
            })
            &&& start_action(os, c4) == StartAsks::Probe(entry)
            &&& start_action(os, c5) is Load
            &&& start_action(os, c6) == (StartAsks::Run {
                l,
                compile: native && codegen,
            })
            &&& start_action(os, c7) == (StartAsks::RunTasks { l })
            &&& start_action(os, c8) == (StartAsks::Close {
                l,
                report: None,
                refs,
            })
            &&& start_action(os, c9) is Nothing
        }),
{
    law_native_only_by_directive(source);
}

/// What the run of a script leaves in the runtimes: the state gets a runtime
/// with the file that was found, its directory, and nothing else; that file is
/// the module that runs while the script does; and in the end the state has no
/// runtime any more. No other answer leaves anything.
pub proof fn law_script_has_its_runtime(
    os: Os,
    all: RuntimesView,
    l: usize,
    entry: Seq<char>,
    jit: bool,
    code: Seq<char>,
    file: Seq<char>,
    why: Seq<char>,
    status: i32,
    error: Option<Seq<char>>,
)
    ensures
        ({
            let probing = Start::Probing { l, entry, jit, code };
            let loading = Start::Loading { l, entry, jit, code };
            let running = Start::Running { l, jit };
            let made = start_effect(
                os,
                all,
                probing,
                StartEvent::Probed(PathProbe::Canonical(file)),
            );
            let rt = made[l];
            &&& made == all.insert(l, rt)
            &&& rt.os == os
            &&& rt.entry_file == file
            &&& rt.entry_dir == (match parent_of(os, file) {
                Some(dir) => dir,
                None => "."@,
            })
            &&& rt.module_stack.len() == 0
            &&& rt.module_cache == Map::<Seq<char>, ModuleCacheEntry>::empty()
            &&& rt.module_jit == map![file => jit]
            &&& rt.loading == Set::<Seq<char>>::empty()
            &&& rt.luaurc_cache == Map::<Seq<char>, LuaurcRecord>::empty()
            &&& start_effect(os, all, probing, StartEvent::Probed(PathProbe::Missing)) == all
            &&& start_effect(os, all, probing, StartEvent::Probed(PathProbe::Failed(why))) == all
            &&& all.contains_key(l) ==> start_effect(
                os,
                all,
                loading,
                StartEvent::Loaded { status: 0, error },
            ) == all.insert(
                l,
                RuntimeView { module_stack: all[l].module_stack.push(all[l].entry_file), ..all[l] },
            )
            &&& all.contains_key(l) && all[l].module_stack.len() > 0 ==> start_effect(
                os,
                all,
                running,
                StartEvent::Ran { status: 0, error },
            ) == all.insert(
                l,
                RuntimeView { module_stack: all[l].module_stack.drop_last(), ..all[l] },
            )
            &&& status != 0 ==> start_effect(
                os,
                all,
                loading,
                StartEvent::Loaded { status, error },
            ) == all.remove(l)
            &&& status != 0 ==> start_effect(os, all, running, StartEvent::Ran { status, error })
                == all.remove(l)
            &&& start_effect(os, all, Start::Tasks { l }, StartEvent::TasksDone) == all.remove(l)
        }),
{
    let made = start_effect(
        os,
        all,
        Start::Probing { l, entry, jit, code },
        StartEvent::Probed(PathProbe::Canonical(file)),
    );
    assert(made[l].module_jit =~= map![file => jit]);
    assert(made =~= all.insert(l, made[l]));
}

/// Whatever goes wrong with a script is reported, in these words, and a state
/// that was made is closed.
pub proof fn law_script_failures(
    os: Os,
    all: RuntimesView,
    refs: Seq<i32>,
    entry: Seq<char>,
    native: bool,
    code: Seq<char>,
    l: usize,
    why: Seq<char>,
    status: i32,
)
    requires
        status != 0,
    ensures
        ({
            let probing = Start::Probing { l, entry, jit: native, code };
            let loading = Start::Loading { l, entry, jit: native, code };
            let running = Start::Running { l, jit: native };
            let said = Some(why);
            let unsaid: Option<Seq<char>> = None;
            let reported = |c: StartView, m: Seq<char>|
                start_action(os, c) == StartAsks::Report(m);
            let closed = |c: StartView, m: Seq<char>, kept: Seq<i32>|
                start_action(os, c) == (StartAsks::Close {
                    l,
                    report: Some(m),
                    refs: kept,
                });
            &&& reported(
                start_of(TextArgument::Missing),
                "[nicyrtdyn] Error: path_ptr is null"@,
            )
            &&& reported(
                start_of(TextArgument::NotUtf8),
                "[nicyrtdyn] Error opening file: invalid path encoding"@,
            )
            &&& reported(
                start_step(all, Start::Reading { entry }, StartEvent::Unreadable(why), refs),
                "[nicyrtdyn] Error opening file: "@ + why,
            )
            &&& reported(
                start_step(
                    all,
                    Start::Creating { entry, native, code },
                    StartEvent::NotCreated,
                    refs,
                ),
                "[nicyrtdyn] Failed to create Luau state"@,
            )
            &&& closed(
                start_step(all, probing, StartEvent::Probed(PathProbe::Missing), refs),
                "[NICY REQUIRE ERROR] "@ + ("path does not exist: "@ + entry),
                Seq::empty(),
            )
            &&& closed(
                start_step(all, probing, StartEvent::Probed(PathProbe::Failed(why)), refs),
                "[NICY REQUIRE ERROR] "@ + ("failed to canonicalize '"@ + entry + "': "@ + why),
                Seq::empty(),
            )
            &&& closed(
                start_step(all, loading, StartEvent::Loaded { status, error: said }, refs),
                "[LUAU LOAD ERROR] "@ + why,
                refs,
            )
            &&& closed(
                start_step(all, loading, StartEvent::Loaded { status, error: unsaid }, refs),
                "[LUAU LOAD ERROR] "@ + "unknown"@,
                refs,
            )
            &&& !all.contains_key(l) ==> closed(
                start_step(all, loading, StartEvent::Loaded { status: 0, error: said }, refs),
                "[NICY REQUIRE ERROR] "@ + "runtime context is not initialized"@,
                refs,
            )
            &&& closed(
                start_step(all, running, StartEvent::Ran { status, error: said }, refs),
                "[LUAU ERROR] "@ + why,
                refs,
            )
            &&& closed(
                start_step(all, running, StartEvent::Ran { status, error: unsaid }, refs),
                "[LUAU ERROR] "@ + "unknown"@,
                refs,
            )
        }),
{
}

/// Whether `e` answers what the run of a script asks for.
pub open spec fn answers_start(
    a: StartAction<Seq<char>, Seq<i32>>,
    e: StartEvent<Seq<char>>,
) -> bool {
    match a {
        StartAction::Canonicalize(_) => e is Canonical || e is NotCanonical,
        StartAction::Read(_) => e is Content || e is Unreadable,
        StartAction::Create => e is Created || e is NotCreated,
        StartAction::SetUp { .. } => e is SetUp,
        StartAction::Probe(_) => e is Probed,
        StartAction::Load { .. } => e is Loaded,
        StartAction::Run { .. } => e is Ran,
        StartAction::RunTasks { .. } => e is TasksDone,
        StartAction::Close { .. } => e is Closed,
        StartAction::Report(_) => false,
        StartAction::Nothing => false,
    }
}

/// What was not asked for changes nothing, neither the run of a script nor the
/// runtimes; what was asked for makes it go on.
pub proof fn law_script_goes_on_when_answered(
    os: Os,
    all: RuntimesView,
    c: StartView,
    e: StartEvent<Seq<char>>,
    refs: Seq<i32>,
)
    ensures
        answers_start(start_action(os, c), e) <==> start_step(all, c, e, refs) != c,
        !answers_start(start_action(os, c), e) ==> start_effect(os, all, c, e) == all,
{
}

/// What a runtime gives back is the references of all the modules that it
/// kept: each of them, as often as modules are kept under it, and no other.
pub proof fn law_all_references_are_given_back(
    all: RuntimesView,
    l: usize,
    refs: Seq<i32>,
    path: Seq<char>,
    i: int,
)
    requires
        given_back(all, l, refs),
    ensures
        !all.contains_key(l) ==> refs.len() == 0,
        all.contains_key(l) && all[l].module_cache.contains_key(path) ==> refs.contains(
            all[l].module_cache[path].value_ref,
        ),
        all.contains_key(l) && 0 <= i < refs.len() ==> exists|p: Seq<char>| #[trigger]
            all[l].module_cache.contains_key(p) && all[l].module_cache[p].value_ref == refs[i],
        all.contains_key(l) ==> refs.len() == all[l].module_cache.dom().len(),
{
    if all.contains_key(l) {
        let rt = all[l];
        let keys = choose|keys: Seq<Seq<char>>| lists_refs(rt, refs, keys);
        assert(lists_refs(rt, refs, keys));
        keys.unique_seq_to_set();
        if rt.module_cache.contains_key(path) {
            assert(keys.to_set().contains(path));
            let k = choose|k: int| 0 <= k < keys.len() && keys[k] == path;
            assert(refs[k] == rt.module_cache[path].value_ref);
        }
        if 0 <= i < refs.len() {
            assert(keys.to_set().contains(keys[i]));
            assert(rt.module_cache.contains_key(keys[i]));
        }
    }
}

/// A piece of code is evaluated whole: what is loaded in the state that was
/// made is the very text that was given, first line and all, as a chunk named
/// `eval`.
pub proof fn law_code_is_evaluated_whole(code: Seq<char>, l: usize)
    ensures
        ({
            let c0 = eval_of(TextArgument::Text(code));
            let c1 = eval_step(c0, EvalEvent::Created(l));
            let c2 = eval_step(c1, EvalEvent::SetUp);
            &&& eval_action(c0) == EvalAction::<Seq<char>>::Create
            &&& eval_action(c1) == (EvalAction::<Seq<char>>::SetUp {
                l,
                entry_file: "eval"@,
                entry_dir: ""@,
            })
            &&& eval_action(c2) == (EvalAction::<Seq<char>>::Load { l, code, chunk: "eval\0"@ })
        }),
{
    reveal_strlit("");
    reveal_strlit("eval");
    reveal_strlit("eval\0");
    assert(""@ =~= Seq::empty());
    assert("eval"@.push('\0') =~= "eval\0"@);
}

/// Code that is loaded is run, and then the state is closed with nothing to
/// report.
pub proof fn law_code_is_run(code: Seq<char>, l: usize, error: Option<Seq<char>>)
    ensures
        ({
            let c2 = Eval::Loading { l, code };
            let c3 = eval_step(c2, EvalEvent::Loaded { status: 0, error });
            let c4 = eval_step(c3, EvalEvent::Ran { status: 0, error });
            let c5 = eval_step(c4, EvalEvent::Closed);
            &&& eval_action(c3) == (EvalAction::<Seq<char>>::Run { l })
            &&& eval_action(c4) == (EvalAction::<Seq<char>>::Close { l, report: None })
            &&& eval_action(c5) == EvalAction::<Seq<char>>::Nothing
        }),
{
}

/// Whatever goes wrong with an evaluation is reported, in these words, and a
/// state that was made is closed.
pub proof fn law_evaluation_failures(code: Seq<char>, l: usize, why: Seq<char>, status: i32)
    requires
        status != 0,
    ensures
        ({
            let loading = Eval::Loading { l, code };
            let running = Eval::Running { l };
            let unsaid: Option<Seq<char>> = None;
            let reported = |c: Eval<Seq<char>>, m: Seq<char>| eval_action(c) == EvalAction::Report(m);
            let closed = |c: Eval<Seq<char>>, m: Seq<char>|
                eval_action(c) == (EvalAction::Close { l, report: Some(m) });
            &&& reported(
                eval_of(TextArgument::Missing),
                "[nicyrtdyn] Error: code_ptr is null"@,
            )
            &&& reported(
                eval_of(TextArgument::NotUtf8),
                "[nicyrtdyn] Error: invalid code encoding"@,
            )
            &&& reported(
                eval_step(Eval::Creating { code }, EvalEvent::NotCreated),
                "[nicyrtdyn] Failed to create Luau state for eval"@,
            )
            &&& closed(
                eval_step(loading, EvalEvent::Loaded { status, error: Some(why) }),
                "[LUAU EVAL COMPILE ERROR] "@ + why,
            )
            &&& closed(
                eval_step(loading, EvalEvent::Loaded { status, error: unsaid }),
                "[LUAU EVAL COMPILE ERROR] "@ + "unknown"@,
            )
            &&& closed(
                eval_step(running, EvalEvent::Ran { status, error: Some(why) }),
                "[LUAU EVAL RUNTIME ERROR] "@ + why,
            )
            &&& closed(
                eval_step(running, EvalEvent::Ran { status, error: unsaid }),
                "[LUAU EVAL RUNTIME ERROR] "@ + "unknown"@,
            )
        }),
{
}

/// Whether `e` answers what an evaluation asks for.
pub open spec fn answers_eval(a: EvalAction<Seq<char>>, e: EvalEvent<Seq<char>>) -> bool {
    match a {
        EvalAction::Create => e is Created || e is NotCreated,
        EvalAction::SetUp { .. } => e is SetUp,
        EvalAction::Load { .. } => e is Loaded,
        EvalAction::Run { .. } => e is Ran,
        EvalAction::Close { .. } => e is Closed,
        EvalAction::Report(_) => false,
        EvalAction::Nothing => false,
    }
}

/// An evaluation goes on exactly when it is answered what it asks for.
pub proof fn law_evaluation_goes_on_when_answered(c: Eval<Seq<char>>, e: EvalEvent<Seq<char>>)
    ensures
        answers_eval(eval_action(c), e) <==> eval_step(c, e) != c,
{
}

/// The bytecode of a script `stem.ext` is written next to it, to `stem.luauc`,
/// whatever the extension is, and that of a script without an extension to its
/// name and `.luauc`. `front` is the directory with the `/` behind it, or
/// empty.
pub proof fn law_bytecode_lies_next_to_script(front: Seq<char>, stem: Seq<char>, ext: Seq<char>)
    requires
        front.len() > 0 ==> front.last() == '/',
        stem.len() > 0,
        undivided(Os::Unix, stem),
        ext.len() > 0,
        undivided(Os::Unix, ext),
        free_of(ext, '.'),
    ensures
        bytecode_file(Os::Unix, front + stem + "."@ + ext) == front + stem + ".luauc"@,
        free_of(stem, '.') ==> bytecode_file(Os::Unix, front + stem) == front + stem + ".luauc"@,
{
    reveal_strlit("luauc");
    reveal_strlit(".luauc");
    reveal_strlit(".");
    let name = front + stem;
    law_extension_is_replaced(front, stem, ext, "luauc"@);
    assert(name + "."@ + "luauc"@ =~= name + ".luauc"@);
    if free_of(stem, '.') {
        assert(stem[0] != '.');
        law_extension_is_added(front, stem, "luauc"@);
    }
}

/// A script `dir/stem.ext` is compiled with all of its source, unless its first
/// line is the directive, and what the compiler gives is written to
/// `dir/stem.luauc` and told of by that name.
pub proof fn law_script_is_compiled(
    path: Seq<char>,
    dir: Seq<char>,
    stem: Seq<char>,
    ext: Seq<char>,
    source: Seq<char>,
    bytes: Seq<u8>,
    why: Seq<char>,
)
    requires
        stem.len() > 0,
        undivided(Os::Unix, stem),
        ext.len() > 0,
        undivided(Os::Unix, ext),
        free_of(ext, '.'),
        bytes.len() > 0,
        bytes[0] != 0,
    ensures
        ({
            let entry = dir + "/"@ + stem + "."@ + ext;
            let out = dir + "/"@ + stem + ".luauc"@;
            let c0 = compile_of(TextArgument::Text(path));
            let c1 = compile_step(Os::Unix, c0, CompileEvent::Canonical(entry));
            let c2 = compile_step(Os::Unix, c1, CompileEvent::Content(source));
            let c3 = compile_step(Os::Unix, c2, CompileEvent::Compiled(bytes));
            let c4 = compile_step(Os::Unix, c3, CompileEvent::Written);
            let c5 = compile_step(Os::Unix, c3, CompileEvent::Unwritable(why));
            &&& compile_action(c0) == CompileAsks::Canonicalize(path)
            &&& compile_action(c1) == CompileAsks::Read(entry)
            &&& (forall|n: int| !directive_at(source, n)) ==> compile_action(c2)
                == CompileAsks::Compile(source)
            &&& compile_action(c2) == CompileAsks::Compile(code_of(source))
            &&& compile_action(c3) == (CompileAsks::Write {
                path: out,
                bytes,
            })
            &&& compile_action(c4) == CompileAsks::Print(
                "[NICY] Bytecode successfully compiled to "@ + out,
            )
            &&& compile_action(c5) == CompileAsks::Report(
                "[LUAU COMPILE ERROR] Failed to save bytecode to "@ + out + ": "@ + why,
            )
        }),
{
    reveal_strlit("/");
    let front = dir + "/"@;
    assert(front.last() == '/');
    law_bytecode_lies_next_to_script(front, stem, ext);
    if forall|n: int| !directive_at(source, n) {
        law_other_source_is_kept(source);
    }
}

/// Whatever goes wrong with a compilation is reported, in these words, and
/// nothing is written: of a script that cannot be read, and where the compiler
/// gives nothing, or a message behind a zero.
pub proof fn law_compilation_failures(
    os: Os,
    path: Seq<char>,
    entry: Seq<char>,
    code: Seq<char>,
    why: Seq<char>,
    rest: Seq<u8>,
)
    ensures
        ({
            let reading = Compile::Reading { entry };
            let compiling = Compile::Compiling { entry, code };
            let reported = |c: CompileView, m: Seq<char>|
                compile_action(c) == CompileAsks::Report(m);
            let failed = "[LUAU COMPILE ERROR] Failed to generate bytecode (syntax error?)"@;
            &&& reported(
                compile_of(TextArgument::Missing),
                "[nicyrtdyn] Error: path_ptr is null"@,
            )
            &&& reported(
                compile_of(TextArgument::NotUtf8),
                "[nicyrtdyn] Error: invalid path encoding"@,
            )
            &&& compile_step(os, Compile::Canonicalizing { path }, CompileEvent::NotCanonical) == (
            CompileView::Reading { entry: path })
            &&& reported(
                compile_step(os, reading, CompileEvent::Unreadable(why)),
                "[nicyrtdyn] Compile Error reading file: "@ + why,
            )
            &&& reported(compile_step(os, compiling, CompileEvent::Compiled(Seq::empty())), failed)
            &&& reported(
                compile_step(os, compiling, CompileEvent::Compiled(seq![0u8] + rest)),
                failed,
            )
        }),
{
    assert((seq![0u8] + rest)[0] == 0u8);
}

/// Whether `e` answers what a compilation asks for.
pub open spec fn answers_compile(
    a: CompileAction<Seq<char>, Seq<u8>>,
    e: CompileEvent<Seq<char>, Seq<u8>>,
) -> bool {
    match a {
        CompileAction::Canonicalize(_) => e is Canonical || e is NotCanonical,
        CompileAction::Read(_) => e is Content || e is Unreadable,
        CompileAction::Compile(_) => e is Compiled,
        CompileAction::Write { .. } => e is Written || e is Unwritable,
        CompileAction::Print(_) => false,
        CompileAction::Report(_) => false,
    }
}

/// A compilation goes on exactly when it is answered what it asks for.
pub proof fn law_compilation_goes_on_when_answered(
    os: Os,
    c: CompileView,
    e: CompileEvent<Seq<char>, Seq<u8>>,
)
    ensures
        answers_compile(compile_action(c), e) <==> compile_step(os, c, e) != c,
{
}

/// On every system the bytecode of a script is written to the path of the
/// script with the extension `luauc`, and nowhere else.
pub proof fn law_bytecode_has_its_extension(
    os: Os,
    entry: Seq<char>,
    code: Seq<char>,
    bytes: Seq<u8>,
)
    requires
        bytes.len() > 0,
        bytes[0] != 0,
    ensures
        bytecode_file(os, entry) == with_extension_of(os, entry, "luauc"@),
        compile_action(
            compile_step(os, Compile::Compiling { entry, code }, CompileEvent::Compiled(bytes)),
        ) == (CompileAsks::Write { path: with_extension_of(os, entry, "luauc"@), bytes }),
{
}

/// Where the run of a script closes its state, the references of all the
/// modules that its runtime kept are handed on to be released.
pub proof fn law_run_hands_on_references(
    all: RuntimesView,
    c: StartView,
    l: usize,
    report: Option<Seq<char>>,
    refs: Seq<i32>,
    path: Seq<char>,
)
    requires
        all.contains_key(l),
        all[l].module_cache.contains_key(path),
        c matches Start::Loading { l: m, .. } ==> m == l,
        c matches Start::Running { l: m, .. } ==> m == l,
        c matches Start::Tasks { l: m } ==> m == l,
        c is Loading || c is Running || c is Tasks,
        gives_back(all, c, Start::Closing { l, report, refs }),
    ensures
        refs.contains(all[l].module_cache[path].value_ref),
        refs.len() == all[l].module_cache.dom().len(),
{
    law_all_references_are_given_back(all, l, refs, path, 0);
}

/// What needs the runtime of a state is done exactly if there is one, and fails
/// in these words otherwise.
pub proof fn law_runtime_is_needed(all: RuntimesView, l: usize, r: Result<(), String>)
    requires
        needs_runtime(all, l, r),
    ensures
        r is Ok <==> all.contains_key(l),
        r matches Err(e) ==> e@ == "runtime context is not initialized"@,
{
}

} // verus!
