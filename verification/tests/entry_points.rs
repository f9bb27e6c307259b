use mlua_sys::luau::lua;
use nicyrtdyn::compile::{Compile, CompileAction, CompileEvent};
use nicyrtdyn::eval::{Eval, EvalAction, EvalEvent};
use nicyrtdyn::loadlib::{cache_is_missing, loadlib_panic, Loadlib, LoadlibAction, LoadlibEvent};
use nicyrtdyn::path::Os;
use nicyrtdyn::report::PanicPayload;
use nicyrtdyn::require::TextArgument;
use nicyrtdyn::require_resolver::{has_jit, init_runtime, PathProbe};
use nicyrtdyn::runtime_data::{FileFingerprint, ModuleCacheEntry, Runtimes};
use nicyrtdyn::start::{ScriptRun, Start, StartAction, StartEvent};

const L: usize = 16;

fn t(s: &str) -> String {
    s.to_string()
}

fn text(s: &str) -> TextArgument<String> {
    TextArgument::Text(t(s))
}

fn at_setup(all: &mut Runtimes, source: &str) -> ScriptRun {
    let c = Start::begin(text("main.luau"));
    assert_eq!(c.action(Os::Unix), StartAction::Canonicalize(t("main.luau")));
    let c = c.advance(Os::Unix, all, StartEvent::Canonical(t("/app/main.luau")));
    assert_eq!(c.action(Os::Unix), StartAction::Read(t("/app/main.luau")));
    let c = c.advance(Os::Unix, all, StartEvent::Content(t(source)));
    assert_eq!(c.action(Os::Unix), StartAction::Create);
    c.advance(Os::Unix, all, StartEvent::Created(L))
}

fn at_loading(all: &mut Runtimes, source: &str, codegen: bool) -> ScriptRun {
    let c = at_setup(all, source).advance(Os::Unix, all, StartEvent::SetUp { codegen });
    assert_eq!(c.action(Os::Unix), StartAction::Probe(t("/app/main.luau")));
    c.advance(Os::Unix, all, StartEvent::Probed(PathProbe::Canonical(t("/app/main.luau"))))
}

fn close(report: Option<&str>, refs: Vec<i32>) -> StartAction<String, Vec<i32>> {
    StartAction::Close { l: L, report: report.map(t), refs }
}

#[test]
fn a_script_runs_and_all_is_released() {
    let mut all = Runtimes::new();
    let c = at_setup(&mut all, "--!native\nreturn");
    assert_eq!(
        c.action(Os::Unix),
        StartAction::SetUp { l: L, native: true, entry_file: t("/app/main.luau"), entry_dir: t("/app") }
    );
    let c = c.advance(Os::Unix, &mut all, StartEvent::SetUp { codegen: true });
    let c = c.advance(Os::Unix, &mut all, StartEvent::Probed(PathProbe::Canonical(t("/app/main.luau"))));
    assert!(has_jit(&all, L, None));
    assert_eq!(
        c.action(Os::Unix),
        StartAction::Load { l: L, code: t("return"), chunk: t("/app/main.luau\0") }
    );
    let c = c.advance(Os::Unix, &mut all, StartEvent::Loaded { status: 0, error: None });
    assert_eq!(c.action(Os::Unix), StartAction::Run { l: L, compile: true });
    assert_eq!(all.get(L).unwrap().running(), Some(t("/app/main.luau")));
    let mut rt = all.take(L).unwrap();
    let fp = FileFingerprint { modified_ns: 0, size: 0 };
    rt.store("/app/a.luau", ModuleCacheEntry { fp, value_ref: 5 }, false);
    all.put(L, rt);
    let c = c.advance(Os::Unix, &mut all, StartEvent::Ran { status: 0, error: None });
    assert_eq!(c.action(Os::Unix), StartAction::RunTasks { l: L });
    assert_eq!(all.get(L).unwrap().running(), None);
    let c = c.advance(Os::Unix, &mut all, StartEvent::TasksDone);
    assert_eq!(c.action(Os::Unix), close(None, vec![5]));
    assert!(all.get(L).is_none());
    let c = c.advance(Os::Unix, &mut all, StartEvent::Closed);
    assert_eq!(c.action(Os::Unix), StartAction::Nothing);
}

#[test]
fn native_code_needs_both_the_directive_and_code_generation() {
    for (source, codegen, jit) in [("--!native\n", true, true), ("--!native\n", false, false), ("x", true, false)] {
        let mut all = Runtimes::new();
        let c = at_loading(&mut all, source, codegen);
        assert_eq!(has_jit(&all, L, None), jit);
        let c = c.advance(Os::Unix, &mut all, StartEvent::Loaded { status: 0, error: None });
        assert_eq!(c.action(Os::Unix), StartAction::Run { l: L, compile: jit });
    }
}

#[test]
fn a_script_fails_before_there_is_a_state() {
    let mut all = Runtimes::new();
    let report = |m: &str| StartAction::Report(t(m));
    assert_eq!(Start::begin(TextArgument::Missing).action(Os::Unix), report("[nicyrtdyn] Error: path_ptr is null"));
    assert_eq!(
        Start::begin(TextArgument::NotUtf8).action(Os::Unix),
        report("[nicyrtdyn] Error opening file: invalid path encoding")
    );
    let c = Start::begin(text("main.luau")).advance(Os::Unix, &mut all, StartEvent::NotCanonical);
    assert_eq!(c.action(Os::Unix), StartAction::Read(t("main.luau")));
    let c = c.advance(Os::Unix, &mut all, StartEvent::Unreadable(t("denied")));
    assert_eq!(c.action(Os::Unix), report("[nicyrtdyn] Error opening file: denied"));
    let c = Start::begin(text("main.luau")).advance(Os::Unix, &mut all, StartEvent::NotCanonical);
    let c = c.advance(Os::Unix, &mut all, StartEvent::Content(t(""))).advance(Os::Unix, &mut all, StartEvent::NotCreated);
    assert_eq!(c.action(Os::Unix), report("[nicyrtdyn] Failed to create Luau state"));
}

#[test]
fn a_script_fails_and_its_state_is_closed() {
    let mut all = Runtimes::new();
    let c = at_setup(&mut all, "").advance(Os::Unix, &mut all, StartEvent::SetUp { codegen: false });
    let c = c.advance(Os::Unix, &mut all, StartEvent::Probed(PathProbe::Missing));
    assert_eq!(c.action(Os::Unix), close(Some("[NICY REQUIRE ERROR] path does not exist: /app/main.luau"), vec![]));

    for (error, line) in [(Some(t("e")), "[LUAU LOAD ERROR] e"), (None, "[LUAU LOAD ERROR] unknown")] {
        let c = at_loading(&mut all, "", false).advance(Os::Unix, &mut all, StartEvent::Loaded { status: 3, error });
        assert_eq!(c.action(Os::Unix), close(Some(line), vec![]));
        assert!(all.get(L).is_none());
    }

    for (error, line) in [(Some(t("e")), "[LUAU ERROR] e"), (None, "[LUAU ERROR] unknown")] {
        let c = at_loading(&mut all, "", false).advance(Os::Unix, &mut all, StartEvent::Loaded { status: 0, error: None });
        let c = c.advance(Os::Unix, &mut all, StartEvent::Ran { status: 2, error });
        assert_eq!(c.action(Os::Unix), close(Some(line), vec![]));
        assert!(all.get(L).is_none());
    }

    let c = at_loading(&mut all, "", false);
    let _ = all.take(L);
    let c = c.advance(Os::Unix, &mut all, StartEvent::Loaded { status: 0, error: None });
    assert_eq!(c.action(Os::Unix), close(Some("[NICY REQUIRE ERROR] runtime context is not initialized"), vec![]));
}

#[test]
fn code_is_evaluated_in_a_state_of_its_own() {
    let c = Eval::begin(text("return 1"));
    assert_eq!(c.action(), EvalAction::Create);
    let c = c.advance(EvalEvent::Created(L));
    assert_eq!(c.action(), EvalAction::SetUp { l: L, entry_file: t("eval"), entry_dir: t("") });
    let c = c.advance(EvalEvent::SetUp);
    assert_eq!(c.action(), EvalAction::Load { l: L, code: t("return 1"), chunk: t("eval\0") });
    let c = c.advance(EvalEvent::Loaded { status: 0, error: None });
    assert_eq!(c.action(), EvalAction::Run { l: L });
    let c = c.advance(EvalEvent::Ran { status: 0, error: None });
    assert_eq!(c.action(), EvalAction::Close { l: L, report: None });
    assert_eq!(c.advance(EvalEvent::Closed).action(), EvalAction::Nothing);
}

#[test]
fn an_evaluation_fails_with_the_reason() {
    let report = |m: &str| EvalAction::Report(t(m));
    assert_eq!(Eval::begin(TextArgument::Missing).action(), report("[nicyrtdyn] Error: code_ptr is null"));
    assert_eq!(Eval::begin(TextArgument::NotUtf8).action(), report("[nicyrtdyn] Error: invalid code encoding"));
    assert_eq!(
        Eval::begin(text("x")).advance(EvalEvent::NotCreated).action(),
        report("[nicyrtdyn] Failed to create Luau state for eval")
    );
    let loading = || Eval::begin(text("x")).advance(EvalEvent::Created(L)).advance(EvalEvent::SetUp);
    let closed = |line: &str| EvalAction::Close { l: L, report: Some(t(line)) };
    assert_eq!(
        loading().advance(EvalEvent::Loaded { status: 1, error: Some(t("e")) }).action(),
        closed("[LUAU EVAL COMPILE ERROR] e")
    );
    assert_eq!(
        loading().advance(EvalEvent::Loaded { status: 1, error: None }).action(),
        closed("[LUAU EVAL COMPILE ERROR] unknown")
    );
    let running = || loading().advance(EvalEvent::Loaded { status: 0, error: None });
    assert_eq!(
        running().advance(EvalEvent::Ran { status: 1, error: Some(t("e")) }).action(),
        closed("[LUAU EVAL RUNTIME ERROR] e")
    );
    assert_eq!(
        running().advance(EvalEvent::Ran { status: 1, error: None }).action(),
        closed("[LUAU EVAL RUNTIME ERROR] unknown")
    );
}

#[test]
fn a_script_is_compiled_to_bytecode() {
    let c = Compile::begin(text("a.luau"));
    assert_eq!(c.action(), CompileAction::Canonicalize(t("a.luau")));
    let c = c.advance(Os::Unix, CompileEvent::Canonical(t("/app/a.luau")));
    assert_eq!(c.action(), CompileAction::Read(t("/app/a.luau")));
    let c = c.advance(Os::Unix, CompileEvent::Content(t("--!native\nx\n")));
    assert_eq!(c.action(), CompileAction::Compile(t("x")));
    let c = c.advance(Os::Unix, CompileEvent::Compiled(vec![9, 0, 7]));
    assert_eq!(c.action(), CompileAction::Write { path: t("/app/a.luauc"), bytes: vec![9, 0, 7] });
    let c = c.advance(Os::Unix, CompileEvent::Written);
    assert_eq!(c.action(), CompileAction::Print(t("[NICY] Bytecode successfully compiled to /app/a.luauc")));
}

#[test]
fn a_compilation_fails_with_the_reason() {
    let report = |m: &str| CompileAction::Report(t(m));
    assert_eq!(Compile::begin(TextArgument::Missing).action(), report("[nicyrtdyn] Error: path_ptr is null"));
    assert_eq!(Compile::begin(TextArgument::NotUtf8).action(), report("[nicyrtdyn] Error: invalid path encoding"));
    let reading = || Compile::begin(text("a")).advance(Os::Unix, CompileEvent::NotCanonical);
    assert_eq!(
        reading().advance(Os::Unix, CompileEvent::Unreadable(t("no"))).action(),
        report("[nicyrtdyn] Compile Error reading file: no")
    );
    let compiling = || reading().advance(Os::Unix, CompileEvent::Content(t("x")));
    for bytes in [vec![], vec![0], vec![0, b':', b'1']] {
        assert_eq!(
            compiling().advance(Os::Unix, CompileEvent::Compiled(bytes)).action(),
            report("[LUAU COMPILE ERROR] Failed to generate bytecode (syntax error?)")
        );
    }
    assert_eq!(
        compiling().advance(Os::Unix, CompileEvent::Compiled(vec![1])).advance(Os::Unix, CompileEvent::Unwritable(t("full"))).action(),
        report("[LUAU COMPILE ERROR] Failed to save bytecode to a.luauc: full")
    );
}

fn started() -> Runtimes {
    let mut all = Runtimes::new();
    init_runtime(&mut all, L, Os::Unix, "m", PathProbe::Canonical(t("/app/main.luau"))).unwrap();
    all
}

fn at_opening() -> Loadlib<String> {
    let c = Loadlib::begin(&started(), L, text("./x.so"));
    assert_eq!(c.action(), LoadlibAction::Probe(t("/app/./x.so")));
    let c = c.advance(LoadlibEvent::Probed(PathProbe::Canonical(t("/app/x.so"))));
    assert_eq!(c.action(), LoadlibAction::LookUp(t("/app/x.so")));
    let c = c.advance(LoadlibEvent::LookedUp { tag: lua::LUA_TNIL });
    assert_eq!(c.action(), LoadlibAction::Open(t("/app/x.so")));
    c
}

#[test]
fn a_library_is_opened_and_initialised() {
    let c = at_opening().advance(LoadlibEvent::Opened);
    assert_eq!(c.action(), LoadlibAction::Find(t("nicydynamic_init")));
    let c = c.advance(LoadlibEvent::NotFound(t("first")));
    assert_eq!(c.action(), LoadlibAction::Find(t("nicydinamic_init")));
    let c = c.advance(LoadlibEvent::Found);
    assert_eq!(c.action(), LoadlibAction::Initialise);
    let c = c.advance(LoadlibEvent::Returned { count: 1 });
    assert_eq!(c.action(), LoadlibAction::Keep(t("/app/x.so")));
    let c = c.advance(LoadlibEvent::Kept);
    assert_eq!(c.action(), LoadlibAction::ReturnAndKeepOpen);
}

#[test]
fn a_library_is_loaded_once() {
    let c = Loadlib::begin(&started(), L, text("/x.so"));
    let c = c.advance(LoadlibEvent::Probed(PathProbe::Canonical(t("/x.so"))));
    let c = c.advance(LoadlibEvent::LookedUp { tag: lua::LUA_TTABLE });
    assert_eq!(c.action(), LoadlibAction::Return);
    assert_eq!(c.advance(LoadlibEvent::Opened).action(), LoadlibAction::Return);
}

#[test]
fn the_loading_of_a_library_fails_with_the_reason() {
    let fail = |m: &str| LoadlibAction::Fail(t(m));
    let begin = |a: TextArgument<String>| Loadlib::begin(&started(), L, a);
    assert_eq!(begin(TextArgument::Missing).action(), fail("invalid path"));
    assert_eq!(begin(TextArgument::NotUtf8).action(), fail("invalid path encoding"));
    assert_eq!(begin(text("@a/x")).action(), fail("loadlib supports only @self aliases"));
    assert_eq!(
        Loadlib::begin(&Runtimes::new(), L, text("x")).action(),
        fail("runtime context is not initialized")
    );
    assert_eq!(
        begin(text("x\0")).advance(LoadlibEvent::Probed(PathProbe::Missing)).action(),
        fail("path does not exist: /app/x?")
    );
    assert_eq!(
        begin(text("x")).advance(LoadlibEvent::Probed(PathProbe::Failed(t("e")))).action(),
        fail("failed to canonicalize '/app/x': e")
    );
    assert_eq!(
        at_opening().advance(LoadlibEvent::NotOpened(t("bad"))).action(),
        fail("failed to load library '/app/x.so': bad")
    );
    let finding = || at_opening().advance(LoadlibEvent::Opened);
    assert_eq!(
        finding().advance(LoadlibEvent::NotFound(t("1"))).advance(LoadlibEvent::NotFound(t("2"))).action(),
        fail("missing extension init symbol (nicydynamic_init): 2")
    );
    let initialising = || finding().advance(LoadlibEvent::Found);
    assert_eq!(
        initialising().advance(LoadlibEvent::Panicked(PanicPayload::Other)).action(),
        fail("extension panic during init: non-string panic payload")
    );
    for count in [0, 2, -1] {
        assert_eq!(
            initialising().advance(LoadlibEvent::Returned { count }).action(),
            fail("invalid extension return count (expected 1)")
        );
    }
    assert_eq!(
        loadlib_panic(PanicPayload::Static(t("a\0b"))),
        "runtime panic in runtime.loadlib: a?b"
    );
}

#[test]
fn the_table_of_libraries_is_made_if_it_is_missing() {
    assert!(cache_is_missing(lua::LUA_TNIL));
    assert!(cache_is_missing(lua::LUA_TSTRING));
    assert!(!cache_is_missing(lua::LUA_TTABLE));
}

#[test]
fn a_script_on_windows_knows_its_directory() {
    let mut all = Runtimes::new();
    let c = Start::begin(text("main.luau"));
    let c = c.advance(Os::Windows, &mut all, StartEvent::Canonical(t(r"\\?\C:\app\main.luau")));
    let c = c.advance(Os::Windows, &mut all, StartEvent::Content(t("")));
    let c = c.advance(Os::Windows, &mut all, StartEvent::Created(L));
    assert_eq!(
        c.action(Os::Windows),
        StartAction::SetUp {
            l: L,
            native: false,
            entry_file: t(r"\\?\C:\app\main.luau"),
            entry_dir: t(r"\\?\C:\app"),
        }
    );
    let c = Compile::begin(text("a")).advance(Os::Windows, CompileEvent::NotCanonical);
    let c = c.advance(Os::Windows, CompileEvent::Content(t("x")));
    let c = c.advance(Os::Windows, CompileEvent::Compiled(vec![3]));
    assert_eq!(c.action(), CompileAction::Write { path: t("a.luauc"), bytes: vec![3] });
}

#[test]
fn evaluations_are_apart() {
    let run = |first: &str| {
        let mut asked = vec![];
        for code in [first, "return 2"] {
            let mut c = Eval::begin(text(code));
            asked.clear();
            for e in [
                EvalEvent::Created(L),
                EvalEvent::Created(L + 1),
                EvalEvent::SetUp,
                EvalEvent::Loaded { status: 0, error: None },
                EvalEvent::Ran { status: 0, error: None },
                EvalEvent::Closed,
            ] {
                asked.push(c.action());
                c = c.advance(e);
            }
            asked.push(c.action());
        }
        asked
    };
    let asked = run("x = 1");
    assert_eq!(asked, run("error()"));
    assert_eq!(asked.iter().filter(|a| **a == EvalAction::Create).count(), 1);
    assert_eq!(asked[1], asked[2]);
    assert_eq!(asked[5], EvalAction::Close { l: L, report: None });
    assert_eq!(asked[6], EvalAction::Nothing);
}
