use mlua_sys::luau::lua;
use nicyrtdyn::path::Os;
use nicyrtdyn::require_resolver::{
    candidate_paths, canonicalize_existing, codegen_created, ensure_codegen_context, entry_dir_of,
    has_jit, init_runtime, is_init_module, pop_entry_module, push_entry_module, resolve_loadlib_base,
    resolve_loadlib_path, resolve_spec_base, set_entry_jit, shutdown_runtime, Codegen, PathProbe,
    SpecBase,
};
use nicyrtdyn::resolution::{choose_existing, FileEvent, FileQuery, Resolution, Search};
use nicyrtdyn::runtime_data::{FileFingerprint, ModuleCacheEntry, RuntimeData, Runtimes};
use std::collections::HashMap;

fn t(s: &str) -> String {
    s.to_string()
}

fn runtime() -> RuntimeData {
    RuntimeData::new(Os::Unix, t("/app/main.luau"), t("/app"))
}

fn path(s: &str) -> SpecBase<String> {
    SpecBase::Path(t(s))
}

#[test]
fn init_modules_stand_for_their_directory() {
    assert!(is_init_module(Os::Unix, "/a/init.lua"));
    assert!(is_init_module(Os::Unix, "init.luau"));
    assert!(!is_init_module(Os::Unix, "/a/init.luac"));
    assert!(!is_init_module(Os::Unix, "/a/init.lua/x"));
    assert!(!is_init_module(Os::Unix, "/"));
}

#[test]
fn module_names_point_to_paths() {
    let rt = runtime();
    let m = "/app/lib/mod.luau";
    let i = "/app/lib/init.luau";
    assert_eq!(resolve_spec_base(&rt, m, "./x"), path("/app/lib/./x"));
    assert_eq!(resolve_spec_base(&rt, m, "../x"), path("/app/lib/../x"));
    assert_eq!(resolve_spec_base(&rt, m, "."), path("/app/lib/mod.luau"));
    assert_eq!(resolve_spec_base(&rt, i, "."), path("/app/lib"));
    assert_eq!(resolve_spec_base(&rt, m, "@self"), path("/app/lib/mod.luau"));
    assert_eq!(resolve_spec_base(&rt, i, "@self"), path("/app/lib"));
    assert_eq!(resolve_spec_base(&rt, m, "@self/x"), path("/app/lib/x"));
    assert_eq!(resolve_spec_base(&rt, i, "@self/x"), path("/app/lib/x"));
    assert_eq!(resolve_spec_base(&rt, m, "@selfx"), path("/app/lib/x"));
    assert_eq!(resolve_spec_base(&rt, m, "x/y"), path("/app/x/y"));
    assert_eq!(resolve_spec_base(&rt, m, "/x"), path("/x"));
    assert_eq!(resolve_spec_base(&rt, "/", "./x"), path("/app/./x"));
}

#[test]
fn alias_names_are_split() {
    let rt = runtime();
    let alias = |key: &str, rest: &str| SpecBase::Alias { key: t(key), rest: t(rest), dir: t("/app/lib") };
    let m = "/app/lib/mod.luau";
    assert_eq!(resolve_spec_base(&rt, m, "@a"), alias("@a", ""));
    assert_eq!(resolve_spec_base(&rt, m, "@a/"), alias("@a", ""));
    assert_eq!(resolve_spec_base(&rt, m, "@a/b/c"), alias("@a", "b/c"));
    assert_eq!(resolve_spec_base(&rt, m, "@"), alias("@", ""));
}

#[test]
fn library_names_point_to_paths() {
    let rt = runtime();
    let m = "/app/lib/mod.luau";
    assert_eq!(resolve_loadlib_base(&rt, m, "@self"), Ok(t("/app/lib/mod.luau")));
    assert_eq!(resolve_loadlib_base(&rt, "/app/lib/init.lua", "@self"), Ok(t("/app/lib")));
    assert_eq!(resolve_loadlib_base(&rt, m, "@self/x.so"), Ok(t("/app/lib/x.so")));
    assert_eq!(resolve_loadlib_base(&rt, m, "./x.so"), Ok(t("/app/lib/./x.so")));
    assert_eq!(resolve_loadlib_base(&rt, m, "x.so"), Ok(t("/app/x.so")));
    assert_eq!(resolve_loadlib_base(&rt, m, "/x.so"), Ok(t("/x.so")));
    assert_eq!(resolve_loadlib_base(&rt, m, "."), Ok(t("/app/.")));
    assert_eq!(
        resolve_loadlib_base(&rt, m, "@lib/x.so"),
        Err(t("loadlib supports only @self aliases"))
    );
}

#[test]
fn candidates_are_tried_in_order() {
    assert_eq!(candidate_paths(Os::Unix, "/a/b"), vec!["/a/b.luau", "/a/b.lua", "/a/b/init.luau", "/a/b/init.lua"]);
    assert_eq!(candidate_paths(Os::Unix, "/a/b.lua"), vec!["/a/b.lua"]);
    assert_eq!(candidate_paths(Os::Unix, "/a/b.c"), vec!["/a/b.c"]);
    assert_eq!(candidate_paths(Os::Unix, "/"), vec!["/", "/", "/init.luau", "/init.lua"]);
}

#[test]
fn files_that_are_there_are_made_canonical() {
    assert_eq!(canonicalize_existing("a", PathProbe::Canonical(t("/x/a"))), Ok(t("/x/a")));
    assert_eq!(canonicalize_existing("a", PathProbe::Missing), Err(t("path does not exist: a")));
    assert_eq!(
        canonicalize_existing("a", PathProbe::Failed(t("why"))),
        Err(t("failed to canonicalize 'a': why"))
    );
    assert_eq!(entry_dir_of(Os::Unix, "/a/b"), "/a");
    assert_eq!(entry_dir_of(Os::Unix, "/"), ".");
    assert_eq!(entry_dir_of(Os::Unix, "eval"), "");
}

#[test]
fn one_existing_file_is_chosen() {
    let choose = |list: &[&str]| choose_existing(Os::Unix, "m", "/app/main.luau", &list.iter().map(|s| t(s)).collect());
    assert_eq!(choose(&[]), Err(t("module 'm' not found from '/app/main.luau'")));
    assert_eq!(choose(&["/app/m.luau"]), Ok(t("/app/m.luau")));
    assert_eq!(choose(&["/app/m.luau", "/app//m.luau"]), Ok(t("/app/m.luau")));
    assert_eq!(
        choose(&["/app/m/init.lua", "/app/m.luau", "/app/m/init.lua"]),
        Err(t("module 'm' is ambiguous: /app/m/init.lua, /app/m.luau"))
    );
    assert_eq!(
        choose(&["/b", "/a/c", "/a", "/c"]),
        Err(t("module 'm' is ambiguous: /a, /a/c, /b, /c"))
    );
}

#[test]
fn native_code_generation_is_set_up_once() {
    assert_eq!(ensure_codegen_context(false, true), Codegen::Unavailable);
    assert_eq!(ensure_codegen_context(false, false), Codegen::Unavailable);
    assert_eq!(ensure_codegen_context(true, true), Codegen::Ready);
    assert_eq!(ensure_codegen_context(true, false), Codegen::Create);
    assert!(codegen_created(lua::LUA_TBOOLEAN, 1));
    assert!(!codegen_created(lua::LUA_TBOOLEAN, 0));
    assert!(!codegen_created(lua::LUA_TNIL, 1));
}

#[test]
fn runtimes_begin_and_end() {
    let mut all = Runtimes::new();
    let none = Err(t("runtime context is not initialized"));
    assert_eq!(set_entry_jit(&mut all, 7, true), none);
    assert_eq!(push_entry_module(&mut all, 7), none);
    assert_eq!(resolve_loadlib_path(&all, 7, "x"), Err(t("runtime context is not initialized")));
    assert_eq!(
        init_runtime(&mut all, 7, Os::Unix, "main.luau", PathProbe::Missing),
        Err(t("path does not exist: main.luau"))
    );
    assert!(all.get(7).is_none());
    assert_eq!(init_runtime(&mut all, 7, Os::Unix, "main.luau", PathProbe::Canonical(t("/app/main.luau"))), Ok(()));
    assert_eq!(all.get(7).unwrap().entry_dir(), "/app");
    assert_eq!(all.get(7).unwrap().running(), None);
    assert_eq!(set_entry_jit(&mut all, 7, true), Ok(()));
    assert!(has_jit(&all, 7, None));
    assert!(!has_jit(&all, 8, None));
    assert!(!has_jit(&all, 7, Some(Err(t("no")))));
    assert!(!has_jit(&all, 7, Some(Ok(t("/app/x.luau")))));
    assert!(has_jit(&all, 7, Some(Ok(t("/app/main.luau")))));
    assert_eq!(push_entry_module(&mut all, 7), Ok(()));
    assert_eq!(all.get(7).unwrap().running(), Some(t("/app/main.luau")));
    pop_entry_module(&mut all, 7);
    pop_entry_module(&mut all, 7);
    assert_eq!(all.get(7).unwrap().running(), None);
    assert_eq!(resolve_loadlib_path(&all, 7, "./x.so"), Ok(t("/app/./x.so")));
    assert_eq!(shutdown_runtime(&mut all, 7), Vec::<i32>::new());
    assert!(all.get(7).is_none());
    assert_eq!(shutdown_runtime(&mut all, 7), Vec::<i32>::new());
}

#[test]
fn shutting_down_gives_all_references_back() {
    let mut all = Runtimes::new();
    let mut rt = runtime();
    let fp = FileFingerprint::from_metadata(1, None);
    assert_eq!(fp, FileFingerprint { modified_ns: 0, size: 1 });
    rt.store("/a", ModuleCacheEntry { fp, value_ref: 4 }, false);
    rt.store("/b", ModuleCacheEntry { fp, value_ref: 5 }, true);
    rt.store("/a", ModuleCacheEntry { fp, value_ref: 6 }, false);
    all.put(1, rt);
    let mut refs = shutdown_runtime(&mut all, 1);
    refs.sort();
    assert_eq!(refs, vec![5, 6]);
}

struct Disk {
    luaurc: HashMap<String, (u64, String)>,
    files: HashMap<String, String>,
    reads: usize,
}

impl Disk {
    fn answer(&mut self, q: FileQuery<String>) -> FileEvent<String> {
        match q {
            FileQuery::Stat(p) => match self.luaurc.get(&p) {
                Some((v, _)) => FileEvent::Stamped(FileFingerprint::from_metadata(*v, Some(1))),
                None => FileEvent::Absent,
            },
            FileQuery::Read(p) => {
                self.reads += 1;
                FileEvent::Content(self.luaurc[&p].1.clone())
            }
            FileQuery::Probe(p) => match self.files.get(&p) {
                Some(c) => FileEvent::Canonical(c.clone()),
                None => FileEvent::Absent,
            },
            FileQuery::Stamp(_) => unreachable!(),
        }
    }
}

fn disk() -> Disk {
    let mut luaurc = HashMap::new();
    luaurc.insert(t("/.luaurc"), (1, t("aliases {\nlib: ./top\nabs: /abs\n}")));
    luaurc.insert(t("/app/.luaurc"), (1, t("aliases {\nlib: near\n}")));
    let mut files = HashMap::new();
    for f in ["/app/near/x.luau", "/abs.lua", "/app/near/init.luau", "/app/near.lua", "/app/m.luau"] {
        files.insert(t(f), t(f));
    }
    files.insert(t("/app/twice.luau"), t("/real.luau"));
    files.insert(t("/app/twice.lua"), t("/real.luau"));
    Disk { luaurc, files, reads: 0 }
}

fn search(rt: &mut RuntimeData, disk: &mut Disk, from: &str, spec: &str) -> Result<String, String> {
    let mut s: Resolution = Search::begin(rt, from, spec);
    while let Some(q) = s.query() {
        let e = disk.answer(q);
        s = s.advance(rt, e);
    }
    s.result().unwrap()
}

#[test]
fn searches_find_the_module() {
    let mut rt = runtime();
    let mut d = disk();
    let from = "/app/main.luau";
    assert_eq!(search(&mut rt, &mut d, from, "m"), Ok(t("/app/m.luau")));
    assert_eq!(search(&mut rt, &mut d, from, "twice"), Ok(t("/real.luau")));
    assert_eq!(
        search(&mut rt, &mut d, from, "nope"),
        Err(t("module 'nope' not found from '/app/main.luau'"))
    );
    assert_eq!(d.reads, 0);
}

#[test]
fn the_nearest_luaurc_wins() {
    let mut rt = runtime();
    let mut d = disk();
    let from = "/app/main.luau";
    assert_eq!(search(&mut rt, &mut d, from, "@lib/x"), Ok(t("/app/near/x.luau")));
    assert_eq!(search(&mut rt, &mut d, from, "@abs"), Ok(t("/abs.lua")));
    assert_eq!(
        search(&mut rt, &mut d, from, "@lib"),
        Err(t("module '@lib' is ambiguous: /app/near/init.luau, /app/near.lua"))
    );
    assert_eq!(search(&mut rt, &mut d, from, "@none/x"), Err(t("unknown alias '@none'")));
}

#[test]
fn luaurc_files_are_read_once_per_version() {
    let mut rt = runtime();
    let mut d = disk();
    let from = "/app/main.luau";
    assert_eq!(search(&mut rt, &mut d, from, "@lib/x"), Ok(t("/app/near/x.luau")));
    assert_eq!(d.reads, 2);
    assert_eq!(search(&mut rt, &mut d, from, "@lib/x"), Ok(t("/app/near/x.luau")));
    assert_eq!(d.reads, 2);
    d.luaurc.insert(t("/app/.luaurc"), (2, t("aliases {\nlib: /app\n}")));
    assert_eq!(search(&mut rt, &mut d, from, "@lib/m"), Ok(t("/app/m.luau")));
    assert_eq!(d.reads, 3);
}

#[test]
fn searches_fail_with_the_reason() {
    let mut rt = runtime();
    let begin = |rt: &RuntimeData, spec: &str| Search::begin(rt, "/app/main.luau", spec);
    let s = begin(&rt, "@a").advance(&mut rt, FileEvent::Failed(t("denied")));
    assert_eq!(s.result(), Some(Err(t("failed to stat '/.luaurc': denied"))));
    let fp = FileFingerprint::from_metadata(3, Some(4));
    let s = begin(&rt, "@a").advance(&mut rt, FileEvent::Stamped(fp));
    assert_eq!(s.query(), Some(FileQuery::Read(t("/.luaurc"))));
    let s = s.advance(&mut rt, FileEvent::Failed(t("gone")));
    assert_eq!(s.result(), Some(Err(t("failed to read '/.luaurc': gone"))));
    let s = begin(&rt, "m").advance(&mut rt, FileEvent::Failed(t("loop")));
    assert_eq!(s.result(), Some(Err(t("failed to canonicalize '/app/m.luau': loop"))));
    let s = begin(&rt, "m").advance(&mut rt, FileEvent::Vanished);
    assert_eq!(s.result(), Some(Err(t("path does not exist: /app/m.luau"))));
}

#[test]
fn an_unexpected_answer_changes_nothing() {
    let mut rt = runtime();
    let s = Search::begin(&rt, "/app/main.luau", "m").advance(&mut rt, FileEvent::Content(t("x")));
    assert_eq!(s.query(), Some(FileQuery::Probe(t("/app/m.luau"))));
    assert_eq!(s.result(), None);
}

#[test]
fn windows_names_point_to_paths() {
    let rt = RuntimeData::new(Os::Windows, t(r"\\?\C:\app\main.luau"), t(r"\\?\C:\app"));
    let m = r"\\?\C:\app\lib\mod.luau";
    assert_eq!(resolve_spec_base(&rt, m, "./x"), path(r"\\?\C:\app\lib\x"));
    assert_eq!(resolve_spec_base(&rt, m, "../x/y"), path(r"\\?\C:\app\x\y"));
    assert_eq!(resolve_spec_base(&rt, m, r"..\lib\x"), path(r"\\?\C:\lib\x"));
    assert_eq!(resolve_spec_base(&rt, m, r".\x"), path(r"\\?\C:\app\x"));
    assert_eq!(resolve_spec_base(&rt, m, r"D:\x"), path(r"D:\x"));
    assert_eq!(resolve_spec_base(&rt, m, "D:x"), path("D:x"));
    assert_eq!(resolve_spec_base(&rt, m, r"\x"), path(r"\\?\C:\x"));
    assert_eq!(resolve_spec_base(&rt, m, "/x"), path(r"\\?\C:\x"));
    assert_eq!(resolve_spec_base(&rt, m, r"\\srv\share\x"), path(r"\\srv\share\x"));
    assert_eq!(resolve_spec_base(&rt, m, "@self/x"), path(r"\\?\C:\app\lib\x"));
    assert_eq!(resolve_loadlib_base(&rt, m, r"C:\x.dll"), Ok(t(r"C:\x.dll")));
    assert!(is_init_module(Os::Windows, r"C:\a\init.luau"));
    assert!(!is_init_module(Os::Unix, r"C:\a\init.luau"));
    assert_eq!(
        candidate_paths(Os::Windows, r"C:\app.d\x"),
        vec![
            r"C:\app.d\x.luau",
            r"C:\app.d\x.lua",
            r"C:\app.d\x\init.luau",
            r"C:\app.d\x\init.lua",
        ]
    );
    assert_eq!(candidate_paths(Os::Windows, r"..\lib\x").len(), 4);
    assert_eq!(candidate_paths(Os::Unix, r"..\lib\x").len(), 1);
    assert_eq!(entry_dir_of(Os::Windows, r"C:\"), ".");
}
