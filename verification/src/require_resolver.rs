//! Where modules and native libraries are looked for.
use crate::luau;
use crate::path::{
    self, file_name_of, has_extension, join_of, parent_of, with_extension_of, Os,
};
use crate::resolution::{canonicalize_failed_message, failure, missing_message};
use crate::runtime_data::{
    holds_all_refs, no_runtime_message, updated, RuntimeData, RuntimeView, Runtimes, RuntimesView,
};
use crate::text::{
    begins, find_char, find_char_from, from_chars, outcome, same, starts_with,
    strip_prefix_char, texts, to_chars, without_prefix_char,
};
use vstd::prelude::*;
use vstd::slice::slice_subrange;

verus! {

/// Whether a path names the module that stands for its directory.
pub open spec fn init_module(os: Os, p: Seq<char>) -> bool {
    file_name_of(os, p) == Some("init.lua"@) || file_name_of(os, p) == Some("init.luau"@)
}

/// The directory that relative names are looked up in: that of the module,
/// or the entry directory if the module has none.
pub open spec fn dir_of_module(os: Os, entry_dir: Seq<char>, module: Seq<char>) -> Seq<char> {
    match parent_of(os, module) {
        Some(dir) => dir,
        None => entry_dir,
    }
}

/// What `@self` and `.` stand for: the directory of an init module, and any
/// other module itself.
pub open spec fn self_of_module(os: Os, entry_dir: Seq<char>, module: Seq<char>) -> Seq<char> {
    if init_module(os, module) {
        dir_of_module(os, entry_dir, module)
    } else {
        module
    }
}

/// What a name that starts with `@self` stands for.
pub open spec fn self_path(os: Os, entry_dir: Seq<char>, module: Seq<char>, spec: Seq<char>) -> Seq<char> {
    let rest = spec.skip("@self"@.len() as int);
    if rest.len() == 0 {
        self_of_module(os, entry_dir, module)
    } else {
        join_of(os, dir_of_module(os, entry_dir, module), without_prefix_char(rest, '/'))
    }
}

/// Whether a name is relative to the directory of the module.
pub open spec fn relative_spec(spec: Seq<char>) -> bool {
    begins(spec, "./"@) || begins(spec, "../"@)
}

/// The file that the name of a native library stands for.
pub open spec fn loadlib_base(
    os: Os,
    entry_dir: Seq<char>,
    module: Seq<char>,
    spec: Seq<char>,
) -> Result<Seq<char>, Seq<char>> {
    if begins(spec, "@self"@) {
        Ok(self_path(os, entry_dir, module, spec))
    } else if relative_spec(spec) {
        Ok(join_of(os, dir_of_module(os, entry_dir, module), spec))
    } else if spec.len() > 0 && spec[0] == '@' {
        Err("loadlib supports only @self aliases"@)
    } else {
        Ok(join_of(os, entry_dir, spec))
    }
}

/// Where a module name points to: a path, or a place below an alias that the
/// `.luaurc` files above a directory declare.
#[verifier::ext_equal]
#[derive(PartialEq, Eq, Debug)]
pub enum SpecBase<T> {
    Path(T),
    Alias {
        /// The alias, with its `@`.
        key: T,
        /// What follows the alias.
        rest: T,
        /// The directory that the search for the alias starts from.
        dir: T,
    },
}

impl View for SpecBase<String> {
    type V = SpecBase<Seq<char>>;

    open spec fn view(&self) -> SpecBase<Seq<char>> {
        match *self {
            SpecBase::Path(p) => SpecBase::Path(p@),
            SpecBase::Alias { key, rest, dir } => SpecBase::Alias {
                key: key@,
                rest: rest@,
                dir: dir@,
            },
        }
    }
}

/// The position of the first slash of `s`, or its length.
pub open spec fn slash_or_end(s: Seq<char>) -> int {
    match find_char_from(s, '/', 0) {
        Some(i) => i,
        None => s.len() as int,
    }
}

/// Where the module name `spec` points to, seen from `module`.
pub open spec fn spec_base(
    os: Os,
    entry_dir: Seq<char>,
    module: Seq<char>,
    spec: Seq<char>,
) -> SpecBase<Seq<char>> {
    if relative_spec(spec) {
        SpecBase::Path(join_of(os, dir_of_module(os, entry_dir, module), spec))
    } else if spec == "."@ {
        SpecBase::Path(self_of_module(os, entry_dir, module))
    } else if begins(spec, "@self"@) {
        SpecBase::Path(self_path(os, entry_dir, module, spec))
    } else if spec.len() > 0 && spec[0] == '@' {
        let name = spec.drop_first();
        SpecBase::Alias {
            key: seq!['@'] + name.take(slash_or_end(name)),
            rest: if slash_or_end(name) < name.len() {
                name.skip(slash_or_end(name) + 1)
            } else {
                Seq::empty()
            },
            dir: dir_of_module(os, entry_dir, module),
        }
    } else {
        SpecBase::Path(join_of(os, entry_dir, spec))
    }
}

/// The files that a module path may stand for, in the order in which they are
/// tried: the path itself if its name has an extension, else the path with an
/// extension added, and the init modules of the directory.
pub open spec fn candidates(os: Os, base: Seq<char>) -> Seq<Seq<char>> {
    if has_extension(os, base) {
        seq![base]
    } else {
        seq![
            with_extension_of(os, base, "luau"@),
            with_extension_of(os, base, "lua"@),
            join_of(os, base, "init.luau"@),
            join_of(os, base, "init.lua"@),
        ]
    }
}

/// Whether a path names the module that stands for its directory.
pub fn is_init_module(os: Os, p: &str) -> (r: bool)
    ensures
        r == init_module(os, p@),
{
    match path::file_name(os, p) {
        Some(name) => same(name.as_str(), "init.lua") || same(name.as_str(), "init.luau"),
        None => false,
    }
}

/// The directory that relative names are looked up in.
fn module_dir(os: Os, entry_dir: &str, module: &str) -> (r: String)
    ensures
        r@ == dir_of_module(os, entry_dir@, module@),
{
    match path::parent(os, module) {
        Some(dir) => dir,
        None => entry_dir.to_owned(),
    }
}

/// What `@self` and `.` stand for.
fn module_self(os: Os, entry_dir: &str, module: &str) -> (r: String)
    ensures
        r@ == self_of_module(os, entry_dir@, module@),
{
    if is_init_module(os, module) {
        module_dir(os, entry_dir, module)
    } else {
        module.to_owned()
    }
}

/// What a name that starts with `@self` stands for.
fn resolve_self(os: Os, entry_dir: &str, module: &str, spec: &[char]) -> (r: String)
    requires
        begins(spec@, "@self"@),
    ensures
        r@ == self_path(os, entry_dir@, module@, spec@),
{
    proof {
        reveal_strlit("@self");
    }
    let rest = slice_subrange(spec, 5, spec.len());
    assert(rest@ =~= spec@.skip(5));
    if rest.len() == 0 {
        return module_self(os, entry_dir, module);
    }
    let tail = from_chars(strip_prefix_char(rest, '/'));
    path::join(os, module_dir(os, entry_dir, module).as_str(), tail.as_str())
}

/// The file that the name of a native library stands for, seen from
/// `current_module`. Of the aliases only `@self` is known here.
pub fn resolve_loadlib_base(rt: &RuntimeData, current_module: &str, spec: &str) -> (r: Result<
    String,
    String,
>)
    ensures
        outcome(r) == loadlib_base(rt@.os, rt@.entry_dir, current_module@, spec@),
{
    let os = rt.os();
    let entry_dir = rt.entry_dir();
    let chars = to_chars(spec);
    if starts_with(chars.as_slice(), "@self") {
        return Ok(resolve_self(os, entry_dir, current_module, chars.as_slice()));
    }
    if starts_with(chars.as_slice(), "./") || starts_with(chars.as_slice(), "../") {
        return Ok(path::join(os, module_dir(os, entry_dir, current_module).as_str(), spec));
    }
    if chars.len() > 0 && chars[0] == '@' {
        return Err("loadlib supports only @self aliases".to_owned());
    }
    Ok(path::join(os, entry_dir, spec))
}

/// Where the module name `spec` points to, seen from `current_module`.
pub fn resolve_spec_base(rt: &RuntimeData, current_module: &str, spec: &str) -> (r: SpecBase<String>)
    ensures
        r@ == spec_base(rt@.os, rt@.entry_dir, current_module@, spec@),
{
    let os = rt.os();
    let entry_dir = rt.entry_dir();
    let chars = to_chars(spec);
    if starts_with(chars.as_slice(), "./") || starts_with(chars.as_slice(), "../") {
        return SpecBase::Path(path::join(os, module_dir(os, entry_dir, current_module).as_str(), spec));
    }
    if same(spec, ".") {
        return SpecBase::Path(module_self(os, entry_dir, current_module));
    }
    if starts_with(chars.as_slice(), "@self") {
        return SpecBase::Path(resolve_self(os, entry_dir, current_module, chars.as_slice()));
    }
    if chars.len() > 0 && chars[0] == '@' {
        let name = slice_subrange(chars.as_slice(), 1, chars.len());
        assert(name@ =~= spec@.drop_first());
        let slash = match find_char(name, '/', 0) {
            Some(i) => i,
            None => name.len(),
        };
        let mut key = String::new();
        key.push('@');
        key.append(from_chars(slice_subrange(name, 0, slash)).as_str());
        assert(key@ =~= seq!['@'] + name@.take(slash as int));
        let rest = if slash < name.len() {
            let rest = slice_subrange(name, slash + 1, name.len());
            assert(rest@ =~= name@.skip(slash + 1));
            from_chars(rest)
        } else {
            String::new()
        };
        return SpecBase::Alias { key, rest, dir: module_dir(os, entry_dir, current_module) };
    }
    SpecBase::Path(path::join(os, entry_dir, spec))
}

/// The files that a module path may stand for, in the order in which they are
/// tried.
pub fn candidate_paths(os: Os, base: &str) -> (r: Vec<String>)
    ensures
        texts(r@) == candidates(os, base@),
{
    let mut r: Vec<String> = Vec::new();
    if path::extension_is_some(os, base) {
        r.push(base.to_owned());
    } else {
        r.push(path::with_extension(os, base, "luau"));
        r.push(path::with_extension(os, base, "lua"));
        r.push(path::join(os, base, "init.luau"));
        r.push(path::join(os, base, "init.lua"));
    }
    assert(texts(r@) =~= candidates(os, base@));
    r
}

/// What came of looking for a file and of asking for its canonical path.
#[verifier::ext_equal]
#[derive(PartialEq, Eq, Debug)]
pub enum PathProbe<T> {
    Missing,
    Canonical(T),
    /// It could not be made canonical, and this is why.
    Failed(T),
}

impl View for PathProbe<String> {
    type V = PathProbe<Seq<char>>;

    open spec fn view(&self) -> PathProbe<Seq<char>> {
        match *self {
            PathProbe::Missing => PathProbe::Missing,
            PathProbe::Canonical(p) => PathProbe::Canonical(p@),
            PathProbe::Failed(why) => PathProbe::Failed(why@),
        }
    }
}

/// The canonical path of the file `path`, or why there is none.
pub open spec fn canonical(path: Seq<char>, probe: PathProbe<Seq<char>>) -> Result<
    Seq<char>,
    Seq<char>,
> {
    match probe {
        PathProbe::Missing => Err(missing_message(path)),
        PathProbe::Canonical(p) => Ok(p),
        PathProbe::Failed(why) => Err(canonicalize_failed_message(path, why)),
    }
}

/// The canonical path of the file `path`, or why there is none.
pub fn canonicalize_existing(path: &str, probe: PathProbe<String>) -> (r: Result<String, String>)
    ensures
        outcome(r) == canonical(path@, probe@),
{
    match probe {
        PathProbe::Missing => {
            let mut m = "path does not exist: ".to_owned();
            m.append(path);
            Err(m)
        },
        PathProbe::Canonical(p) => Ok(p),
        PathProbe::Failed(why) => Err(failure("failed to canonicalize '", path, why.as_str())),
    }
}

/// The directory of the file `path`, or `.` if it has none.
pub open spec fn dir_or_current(os: Os, path: Seq<char>) -> Seq<char> {
    match parent_of(os, path) {
        Some(dir) => dir,
        None => "."@,
    }
}

/// The directory of the file `path`, or `.` if it has none.
pub fn entry_dir_of(os: Os, path: &str) -> (r: String)
    ensures
        r@ == dir_or_current(os, path@),
{
    match path::parent(os, path) {
        Some(dir) => dir,
        None => ".".to_owned(),
    }
}

/// The outcome of an operation that needs the runtime of `l`.
pub open spec fn needs_runtime(all: RuntimesView, l: usize, r: Result<(), String>) -> bool {
    match r {
        Ok(_) => all.contains_key(l),
        Err(e) => !all.contains_key(l) && e@ == no_runtime_message(),
    }
}

/// Gives the state `l` a runtime of its own, with the entry file
/// `entry_file`; any runtime that it had is gone.
pub fn init_runtime(
    all: &mut Runtimes,
    l: usize,
    os: Os,
    entry_file: &str,
    probe: PathProbe<String>,
) -> (r: Result<(), String>)
    ensures
        match (r, canonical(entry_file@, probe@)) {
            (Ok(_), Ok(p)) => final(all)@ == old(all)@.insert(
                l,
                RuntimeView::fresh(os, p, dir_or_current(os, p)),
            ),
            (Err(m), Err(e)) => m@ == e && final(all)@ == old(all)@,
            _ => false,
        },
{
    match canonicalize_existing(entry_file, probe) {
        Ok(p) => {
            let dir = entry_dir_of(os, p.as_str());
            all.put(l, RuntimeData::new(os, p, dir));
            Ok(())
        },
        Err(m) => Err(m),
    }
}

/// Notes whether the entry file was compiled to native code.
pub fn set_entry_jit(all: &mut Runtimes, l: usize, enabled: bool) -> (r: Result<(), String>)
    ensures
        needs_runtime(old(all)@, l, r),
        final(all)@ == updated(
            old(all)@,
            l,
            old(all)@[l].jit_set(old(all)@[l].entry_file, enabled),
        ),
{
    match all.take(l) {
        Some(mut rt) => {
            rt.set_entry_jit(enabled);
            all.put(l, rt);
            assert(all@ =~= old(all)@.insert(l, rt@));
            Ok(())
        },
        None => {
            assert(all@ =~= old(all)@);
            Err("runtime context is not initialized".to_owned())
        },
    }
}

/// Puts the entry file on top of the module stack.
pub fn push_entry_module(all: &mut Runtimes, l: usize) -> (r: Result<(), String>)
    ensures
        needs_runtime(old(all)@, l, r),
        final(all)@ == updated(old(all)@, l, old(all)@[l].entered(old(all)@[l].entry_file)),
{
    match all.take(l) {
        Some(mut rt) => {
            rt.enter_entry();
            all.put(l, rt);
            assert(all@ =~= old(all)@.insert(l, rt@));
            Ok(())
        },
        None => {
            assert(all@ =~= old(all)@);
            Err("runtime context is not initialized".to_owned())
        },
    }
}

/// Takes the top off the module stack.
pub fn pop_entry_module(all: &mut Runtimes, l: usize)
    ensures
        final(all)@ == updated(old(all)@, l, old(all)@[l].left()),
{
    if let Some(mut rt) = all.take(l) {
        rt.leave();
        all.put(l, rt);
    }
    assert(all@ =~= updated(old(all)@, l, old(all)@[l].left()));
}

/// Whether the module that is running was compiled to native code or, where
/// a module was asked for by name, whether the file that was found is.
pub fn has_jit(all: &Runtimes, l: usize, resolved: Option<Result<String, String>>) -> (r: bool)
    ensures
        r == (all@.contains_key(l) && match resolved {
            None => all@[l].jit(all@[l].current()),
            Some(Ok(path)) => all@[l].jit(path@),
            Some(Err(_)) => false,
        }),
{
    match all.get(l) {
        None => false,
        Some(rt) => match resolved {
            None => rt.jit(rt.current().as_str()),
            Some(Ok(path)) => rt.jit(path.as_str()),
            Some(Err(_)) => false,
        },
    }
}

/// The file that the name of a native library stands for, seen from the
/// module that is running.
pub fn resolve_loadlib_path(all: &Runtimes, l: usize, spec: &str) -> (r: Result<String, String>)
    ensures
        outcome(r) == (if all@.contains_key(l) {
            loadlib_base(all@[l].os, all@[l].entry_dir, all@[l].current(), spec@)
        } else {
            Err(no_runtime_message())
        }),
{
    match all.get(l) {
        None => Err("runtime context is not initialized".to_owned()),
        Some(rt) => resolve_loadlib_base(rt, rt.current().as_str(), spec),
    }
}

/// Takes the runtime of `l` away and gives the references that are to be
/// released: those of all the modules that it kept.
pub fn shutdown_runtime(all: &mut Runtimes, l: usize) -> (refs: Vec<i32>)
    ensures
        final(all)@ == old(all)@.remove(l),
        old(all)@.contains_key(l) ==> holds_all_refs(old(all)@[l], refs@),
        !old(all)@.contains_key(l) ==> refs@.len() == 0,
{
    match all.take(l) {
        Some(rt) => rt.value_refs(),
        None => Vec::new(),
    }
}

/// What has to be done for native code generation.
#[derive(Clone, Copy, PartialEq, Eq, Structural, Debug)]
pub enum Codegen {
    /// The machine does not support it.
    Unavailable,
    /// It is set up.
    Ready,
    /// It has to be set up.
    Create,
}

/// Whether the flag that native code generation is set up is there, by the
/// type tag and the truth of its value.
pub open spec fn flag_is_set(tag: i32, truth: i32) -> bool {
    tag != luau::nil_tag_value() && truth != 0
}

/// What has to be done for native code generation.
pub open spec fn codegen_of(supported: bool, created: bool) -> Codegen {
    if !supported {
        Codegen::Unavailable
    } else if created {
        Codegen::Ready
    } else {
        Codegen::Create
    }
}

/// Whether the flag that native code generation is set up is there, by the
/// type tag and the truth of its value.
pub fn codegen_created(tag: i32, truth: i32) -> (r: bool)
    ensures
        r == (tag != luau::nil_tag_value() && truth != 0),
        r == flag_is_set(tag, truth),
{
    tag != luau::nil_tag() && truth != 0
}

/// What has to be done for native code generation: nothing where it is not
/// supported, and it is set up once for a state.
pub fn ensure_codegen_context(supported: bool, created: bool) -> (r: Codegen)
    ensures
        r == (if !supported {
            Codegen::Unavailable
        } else if created {
            Codegen::Ready
        } else {
            Codegen::Create
        }),
        r == codegen_of(supported, created),
{
    if !supported {
        Codegen::Unavailable
    } else if created {
        Codegen::Ready
    } else {
        Codegen::Create
    }
}

} // verus!
