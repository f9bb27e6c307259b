use mlua_sys::luau::lua;
use nicyrtdyn::jit::JitQuery;
use nicyrtdyn::path::Os;
use nicyrtdyn::require::{Call, CallAction, CallEvent, Require, TextArgument};
use nicyrtdyn::require_resolver::{init_runtime, push_entry_module, set_entry_jit, PathProbe};
use nicyrtdyn::resolution::{FileEvent, FileQuery};
use nicyrtdyn::runtime_data::{FileFingerprint, Runtimes};
use std::collections::HashMap;

const L: usize = 16;

fn t(s: &str) -> String {
    s.to_string()
}

fn fp(n: u64) -> FileFingerprint {
    FileFingerprint { modified_ns: 1, size: n }
}

fn started() -> Runtimes {
    let mut all = Runtimes::new();
    init_runtime(&mut all, L, Os::Unix, "main.luau", PathProbe::Canonical(t("/app/main.luau"))).unwrap();
    set_entry_jit(&mut all, L, true).unwrap();
    push_entry_module(&mut all, L).unwrap();
    all
}

/// A host with modules that do nothing but require others.
struct Host {
    files: HashMap<String, (u64, String)>,
    released: Vec<i32>,
    loaded: Vec<String>,
    next_ref: i32,
    codegen: bool,
}

impl Host {
    fn new(files: &[(&str, u64, &str)]) -> Host {
        let files = files.iter().map(|(p, v, s)| (t(p), (*v, t(s)))).collect();
        Host { files, released: vec![], loaded: vec![], next_ref: 1, codegen: true }
    }

    fn file(&self, q: FileQuery<String>) -> FileEvent<String> {
        match q {
            FileQuery::Stat(_) => FileEvent::Absent,
            FileQuery::Stamp(p) => FileEvent::Stamped(fp(self.files[&p].0)),
            FileQuery::Read(p) => FileEvent::Content(self.files[&p].1.clone()),
            FileQuery::Probe(p) => {
                if self.files.contains_key(&p) {
                    FileEvent::Canonical(p)
                } else {
                    FileEvent::Absent
                }
            }
        }
    }

    /// Runs a call to its end; the code of a module is a list of names to
    /// require, one per line.
    fn require(&mut self, all: &mut Runtimes, spec: &str) -> Result<i32, String> {
        let mut c: Require = Call::begin(all, L, TextArgument::Text(t(spec)));
        let mut code = String::new();
        loop {
            let e = match c.action() {
                CallAction::File(q) => CallEvent::File(self.file(q)),
                CallAction::Release(r) => {
                    self.released.push(r);
                    CallEvent::Released
                }
                CallAction::Load { code: text, chunk, .. } => {
                    self.loaded.push(chunk);
                    code = text;
                    CallEvent::Loaded { status: 0, codegen: self.codegen, error: None }
                }
                CallAction::Run { .. } => {
                    let mut error = None;
                    for name in code.lines() {
                        if let Err(m) = self.require(all, name) {
                            error = Some(m);
                            break;
                        }
                    }
                    let status = if error.is_some() { 2 } else { 0 };
                    CallEvent::Ran { status, tag: 7, error }
                }
                CallAction::Keep { .. } => {
                    self.next_ref += 1;
                    CallEvent::Kept(self.next_ref)
                }
                CallAction::Push(r) => return Ok(r),
                CallAction::Fail(m) => return Err(m),
            };
            c = c.advance(all, L, e);
        }
    }
}

fn jit(all: &mut Runtimes, host: &Host, spec: Option<&str>) -> bool {
    let mut q = JitQuery::begin(all, L, spec.map(t));
    while let Some(query) = q.query() {
        q = q.advance(all, L, host.file(query));
    }
    q.answer().unwrap()
}

#[test]
fn a_module_is_loaded_once() {
    let mut all = started();
    let mut host = Host::new(&[("/app/a.luau", 1, "b\nb"), ("/app/b.luau", 1, "")]);
    let first = host.require(&mut all, "a");
    assert_eq!(first, Ok(3));
    assert_eq!(host.require(&mut all, "a"), Ok(3));
    assert_eq!(host.require(&mut all, "b"), Ok(2));
    assert_eq!(host.loaded, vec!["/app/a.luau\0", "/app/b.luau\0"]);
    assert_eq!(host.released, Vec::<i32>::new());
}

#[test]
fn a_changed_module_is_loaded_anew() {
    let mut all = started();
    let mut host = Host::new(&[("/app/a.luau", 1, "")]);
    assert_eq!(host.require(&mut all, "a"), Ok(2));
    host.files.insert(t("/app/a.luau"), (2, t("")));
    assert_eq!(host.require(&mut all, "a"), Ok(3));
    assert_eq!(host.released, vec![2]);
    assert_eq!(host.require(&mut all, "a"), Ok(3));
    assert_eq!(host.loaded.len(), 2);
}

#[test]
fn cycles_are_refused() {
    let mut all = started();
    let mut host = Host::new(&[("/app/a.luau", 1, "b"), ("/app/b.luau", 1, "a")]);
    let expected = "runtime error in '/app/a.luau': runtime error in '/app/b.luau': \
                    cyclic require detected for '/app/a.luau'";
    assert_eq!(host.require(&mut all, "a"), Err(t(expected)));
    assert_eq!(all.get(L).unwrap().running(), Some(t("/app/main.luau")));
    host.files.insert(t("/app/b.luau"), (2, t("")));
    assert_eq!(host.require(&mut all, "a"), Ok(3));
}

#[test]
fn names_are_seen_from_the_module_that_runs() {
    let mut all = started();
    let mut host = Host::new(&[("/app/lib/init.luau", 1, "./x\n@self/y"), ("/app/lib/x.lua", 1, ""), ("/app/lib/y.lua", 1, "")]);
    assert_eq!(host.require(&mut all, "./lib"), Err(t("module './lib' not found from '/app/main.luau'")));
    assert_eq!(host.require(&mut all, "lib"), Err(t("runtime error in '/app/lib/init.luau': module './x' not found from '/app/lib/init.luau'")));
    host.files.insert(t("/app/lib/./x.lua"), (1, t("")));
    assert_eq!(host.require(&mut all, "lib"), Ok(4));
    assert_eq!(host.loaded.last().unwrap(), "/app/lib/y.lua\0");
}

#[test]
fn native_modules_are_noted() {
    let mut all = started();
    let mut host = Host::new(&[("/app/a.luau", 1, "--!native\n"), ("/app/b.luau", 1, "")]);
    assert!(jit(&mut all, &host, None));
    assert!(!jit(&mut all, &host, Some("a")));
    host.require(&mut all, "a").unwrap();
    host.require(&mut all, "b").unwrap();
    assert!(jit(&mut all, &host, Some("a")));
    assert!(!jit(&mut all, &host, Some("b")));
    assert!(!jit(&mut all, &host, Some("c")));
    host.codegen = false;
    host.files.insert(t("/app/a.luau"), (2, t("--!native\n")));
    host.require(&mut all, "a").unwrap();
    assert!(!jit(&mut all, &host, Some("a")));
    let mut none = Runtimes::new();
    assert!(!jit(&mut none, &host, None));
    assert!(!jit(&mut none, &host, Some("a")));
}

fn fails(all: &Runtimes, argument: TextArgument<String>) -> CallAction<String> {
    Call::begin(all, L, argument).action()
}

#[test]
fn calls_need_a_text_and_a_running_module() {
    let all = started();
    let fail = |m: &str| CallAction::Fail(t(m));
    assert_eq!(fails(&all, TextArgument::Missing), fail("expected a string"));
    assert_eq!(fails(&all, TextArgument::NotUtf8), fail("invalid utf-8 string"));
    let none = Runtimes::new();
    assert_eq!(fails(&none, TextArgument::Text(t("a"))), fail("runtime context is not initialized"));
    let mut idle = Runtimes::new();
    init_runtime(&mut idle, L, Os::Unix, "m", PathProbe::Canonical(t("/m"))).unwrap();
    assert_eq!(fails(&idle, TextArgument::Text(t("a"))), fail("require has no current module context"));
}

fn at_stamping(all: &mut Runtimes) -> Require {
    let c = Call::begin(all, L, TextArgument::Text(t("a.luau")));
    assert_eq!(c.action(), CallAction::File(FileQuery::Probe(t("/app/a.luau"))));
    let c = c.advance(all, L, CallEvent::File(FileEvent::Canonical(t("/app/a.luau"))));
    assert_eq!(c.action(), CallAction::File(FileQuery::Stamp(t("/app/a.luau"))));
    c
}

fn at_loading(all: &mut Runtimes, source: &str) -> Require {
    let c = at_stamping(all).advance(all, L, CallEvent::File(FileEvent::Stamped(fp(1))));
    assert_eq!(c.action(), CallAction::File(FileQuery::Read(t("/app/a.luau"))));
    c.advance(all, L, CallEvent::File(FileEvent::Content(t(source))))
}

#[test]
fn failures_are_told_and_clean_up() {
    let mut all = started();
    let c = at_stamping(&mut all).advance(&mut all, L, CallEvent::File(FileEvent::Failed(t("no"))));
    assert_eq!(c.action(), CallAction::Fail(t("failed to stat '/app/a.luau': no")));

    let c = at_stamping(&mut all).advance(&mut all, L, CallEvent::File(FileEvent::Stamped(fp(1))));
    let c = c.advance(&mut all, L, CallEvent::File(FileEvent::Failed(t("no"))));
    assert_eq!(c.action(), CallAction::Fail(t("failed to read '/app/a.luau': no")));

    for (error, text) in [(Some(t("bad\0")), "bad?"), (None, "unknown load error")] {
        let c = at_loading(&mut all, "x").advance(&mut all, L, CallEvent::Loaded { status: 3, codegen: false, error });
        assert_eq!(c.action(), CallAction::Fail(format!("load error in '/app/a.luau': {}", text)));
    }

    for (error, text) in [(Some(t("bad")), "bad"), (None, "unknown runtime error")] {
        let c = at_loading(&mut all, "x");
        let c = c.advance(&mut all, L, CallEvent::Loaded { status: 0, codegen: false, error: None });
        assert_eq!(all.get(L).unwrap().running(), Some(t("/app/a.luau")));
        let c = c.advance(&mut all, L, CallEvent::Ran { status: 2, tag: 0, error });
        assert_eq!(c.action(), CallAction::Fail(format!("runtime error in '/app/a.luau': {}", text)));
        assert_eq!(all.get(L).unwrap().running(), Some(t("/app/main.luau")));
    }
}

#[test]
fn a_module_without_a_value_is_true() {
    let mut all = started();
    for (tag, replace_nil) in [(lua::LUA_TNIL, true), (lua::LUA_TBOOLEAN, false), (lua::LUA_TTABLE, false)] {
        let c = at_loading(&mut all, "--!native\nx");
        assert_eq!(
            c.action(),
            CallAction::Load { code: t("x"), chunk: t("/app/a.luau\0"), native: true }
        );
        let c = c.advance(&mut all, L, CallEvent::Loaded { status: 0, codegen: true, error: None });
        assert_eq!(c.action(), CallAction::Run { compile: true });
        let c = c.advance(&mut all, L, CallEvent::Ran { status: 0, tag, error: None });
        assert_eq!(c.action(), CallAction::Keep { replace_nil });
    }
}

#[test]
fn a_value_without_a_runtime_is_discarded() {
    let mut all = started();
    let c = at_loading(&mut all, "x");
    let c = c.advance(&mut all, L, CallEvent::Loaded { status: 0, codegen: true, error: None });
    let c = c.advance(&mut all, L, CallEvent::Ran { status: 0, tag: 7, error: None });
    let _ = all.take(L);
    let c = c.advance(&mut all, L, CallEvent::Kept(9));
    assert_eq!(c.action(), CallAction::Release(9));
    let c = c.advance(&mut all, L, CallEvent::Released);
    assert_eq!(c.action(), CallAction::Fail(t("runtime context is not initialized")));
}

#[test]
fn a_finished_call_ignores_answers() {
    let mut all = started();
    let c = Call::begin(&all, L, TextArgument::Missing).advance(&mut all, L, CallEvent::Kept(1));
    assert_eq!(c.action(), CallAction::Fail(t("expected a string")));
    let c = at_stamping(&mut all).advance(&mut all, L, CallEvent::Released);
    assert_eq!(c.action(), CallAction::File(FileQuery::Stamp(t("/app/a.luau"))));
}

#[test]
fn other_states_are_left_alone() {
    let mut all = started();
    init_runtime(&mut all, L + 1, Os::Unix, "m", PathProbe::Canonical(t("/other/main.luau"))).unwrap();
    set_entry_jit(&mut all, L + 1, true).unwrap();
    let mut host = Host::new(&[("/app/a.luau", 1, "")]);
    assert_eq!(host.require(&mut all, "a"), Ok(2));
    let other = all.get(L + 1).unwrap();
    assert_eq!(other.running(), None);
    assert_eq!(other.any_ref("/app/a.luau"), None);
    assert!(other.jit("/other/main.luau"));
    assert_eq!(all.get(L).unwrap().any_ref("/app/a.luau"), Some(2));
}

#[test]
fn a_module_that_fails_is_not_kept() {
    let mut all = started();
    let mut host = Host::new(&[("/app/a.luau", 1, "nope")]);
    assert!(host.require(&mut all, "a").is_err());
    assert_eq!(all.get(L).unwrap().any_ref("/app/a.luau"), None);
    assert!(host.require(&mut all, "a").is_err());
    assert_eq!(host.loaded.len(), 2);
}

#[test]
fn a_native_module_is_known_as_such_while_it_runs() {
    let mut all = started();
    let host = Host::new(&[]);
    let c = at_loading(&mut all, "--!native\nx");
    let c = c.advance(&mut all, L, CallEvent::Loaded { status: 0, codegen: true, error: None });
    assert_eq!(all.get(L).unwrap().running(), Some(t("/app/a.luau")));
    assert!(jit(&mut all, &host, None));
    let _ = c.advance(&mut all, L, CallEvent::Ran { status: 2, tag: 0, error: None });
    assert_eq!(all.get(L).unwrap().jit_noted("/app/a.luau"), None);

    let c = at_loading(&mut all, "--!native\nx");
    let c = c.advance(&mut all, L, CallEvent::Loaded { status: 0, codegen: false, error: None });
    assert!(!jit(&mut all, &host, None));
    let c = c.advance(&mut all, L, CallEvent::Ran { status: 0, tag: 7, error: None });
    assert_eq!(all.get(L).unwrap().jit_noted("/app/a.luau"), Some(false));
    let _ = c.advance(&mut all, L, CallEvent::Kept(5));
    assert_eq!(all.get(L).unwrap().jit_noted("/app/a.luau"), Some(false));
}

#[test]
fn a_failed_run_takes_back_what_it_noted() {
    let mut all = started();
    let c = Call::begin(&all, L, TextArgument::Text(t("main.luau")));
    let c = c.advance(&mut all, L, CallEvent::File(FileEvent::Canonical(t("/app/main.luau"))));
    let c = c.advance(&mut all, L, CallEvent::File(FileEvent::Stamped(fp(1))));
    let c = c.advance(&mut all, L, CallEvent::File(FileEvent::Content(t("x"))));
    let c = c.advance(&mut all, L, CallEvent::Loaded { status: 0, codegen: true, error: None });
    assert_eq!(all.get(L).unwrap().jit_noted("/app/main.luau"), Some(false));
    let _ = c.advance(&mut all, L, CallEvent::Ran { status: 2, tag: 0, error: None });
    assert_eq!(all.get(L).unwrap().jit_noted("/app/main.luau"), Some(true));
}

#[test]
fn nested_calls_leave_the_stack_as_it_was() {
    let mut all = started();
    let mut host = Host::new(&[
        ("/app/a.luau", 1, "b\nc"),
        ("/app/b.luau", 1, "c"),
        ("/app/c.luau", 1, ""),
        ("/app/d.luau", 1, "a\nnope"),
    ]);
    assert!(host.require(&mut all, "d").is_err());
    assert_eq!(all.get(L).unwrap().running(), Some(t("/app/main.luau")));
    assert_eq!(host.require(&mut all, "a"), Ok(4));
    assert_eq!(host.loaded.len(), 4);
}
