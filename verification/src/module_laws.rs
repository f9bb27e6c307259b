//! What holds of modules from their names to their values: which file a name
//! stands for, and what is asked of the host until the module is loaded.
use crate::jit::{jit_of, JitQuery};
use crate::luaurc::aliases_in;
use crate::path::{ancestors_of, join_of, law_path_order, parent_of, same_path, text_before, Os};
use crate::path_laws::{
    between, ends_in_component, law_directories_above, law_joined_path, law_order_in_directory,
    law_path_in_directory, one_name, undivided,
};
use crate::require::{
    action_of, call_effect, call_of, call_step, Call, CallAction, CallEvent, CallView, TextArgument,
};
use crate::resolution::{
    ascending_distinct, chosen, luaurc_of, placed, query_of, runtime_after, search_of, search_step,
    sound, AliasView, FileEvent, FileQuery, Search, SearchView, StageView,
};
use crate::resolution_laws::{
    aliases_of, base_of, existing_of, law_choice, law_nearest_declaration_wins, module_file, Disk,
};
use crate::resolver_laws::{
    alias_text, law_alias_is_looked_for, law_candidate_with_extension,
    law_candidates_without_extension, law_relative_name_on_unix,
};
use crate::runtime_data::{
    FileFingerprint, LuaurcRecord, ModuleCacheEntry, RuntimeView, RuntimesView,
};
use crate::source_laws::{
    directive_at, law_code_behind_directive, law_native_only_by_directive, law_other_source_is_kept,
};
use crate::text::{is_space, joined, lines, without_nul};
use crate::text_laws::{free_of, law_joined_texts, law_nul_is_replaced};
use vstd::prelude::*;

verus! {

/// A module is compiled with all of its source, whatever its first line is, as
/// long as that is not the directive `--!native`; its chunk is named after it.
pub proof fn law_module_is_loaded_whole(
    all: RuntimesView,
    l: usize,
    path: Seq<char>,
    fp: FileFingerprint,
    source: Seq<char>,
)
    requires
        forall|n: int| !directive_at(source, n),
    ensures
        ({
            let content = CallEvent::File(FileEvent::Content(source));
            let c = call_step(all, l, Call::Reading { path, fp }, content);
            &&& action_of(c) == (CallAction::Load {
                code: source,
                chunk: without_nul(path).push('\0'),
                native: false,
            })
            &&& free_of(path, '\0') ==> action_of(c) == (CallAction::Load {
                code: source,
                chunk: path.push('\0'),
                native: false,
            })
        }),
{
    law_native_only_by_directive(source);
    law_other_source_is_kept(source);
    law_nul_is_replaced(path);
}

/// A module whose first line is the directive is compiled with the lines behind
/// it, as native code: with the text that follows, but for a line feed at its
/// very end, where it knows no carriage returns.
pub proof fn law_module_is_loaded_behind_directive(
    all: RuntimesView,
    l: usize,
    path: Seq<char>,
    fp: FileFingerprint,
    space: Seq<char>,
    comment: Seq<char>,
    body: Seq<char>,
)
    requires
        forall|i: int| 0 <= i < space.len() ==> is_space(#[trigger] space[i]) && space[i] != '\n',
        free_of(comment, '\n'),
    ensures
        ({
            let first = space + "--!native"@ + comment;
            let chunk = without_nul(path).push('\0');
            let loaded = |source: Seq<char>|
                action_of(
                    call_step(
                        all,
                        l,
                        Call::Reading { path, fp },
                        CallEvent::File(FileEvent::Content(source)),
                    ),
                );
            &&& loaded(first + "\n"@ + body) == (CallAction::Load {
                code: joined(lines(body), "\n"@),
                chunk,
                native: true,
            })
            &&& free_of(body, '\r') && !(body.len() > 0 && body.last() == '\n') ==> loaded(
                first + "\n"@ + body,
            ) == (CallAction::Load { code: body, chunk, native: true })
            &&& free_of(body, '\r') ==> loaded(first + "\n"@ + body.push('\n')) == (
            CallAction::Load { code: body, chunk, native: true })
        }),
{
    law_code_behind_directive(space, comment, body);
    law_code_behind_directive(space, comment, body.push('\n'));
}

/// A module of which nothing is kept, and which is not being loaded, is asked
/// for its version, read, compiled, run as native code exactly if it asks for
/// that and it can be had, and its value is kept and returned, with `true` in
/// place of a nil.
pub proof fn law_module_goes_through(
    all: Seq<RuntimesView>,
    l: usize,
    path: Seq<char>,
    fp: FileFingerprint,
    source: Seq<char>,
    codegen: bool,
    tag: i32,
    error: Option<Seq<char>>,
    value_ref: i32,
)
    requires
        all[0].contains_key(l),
        !all[0][l].module_cache.contains_key(path),
        !all[0][l].loading.contains(path),
        all[4].contains_key(l),
    ensures
        ({
            let native = exists|n: int| directive_at(source, n);
            let c0 = Call::Stamping { path };
            let c1 = call_step(all[0], l, c0, CallEvent::File(FileEvent::Stamped(fp)));
            let c2 = call_step(all[1], l, c1, CallEvent::File(FileEvent::Content(source)));
            let c3 = call_step(all[2], l, c2, CallEvent::Loaded { status: 0, codegen, error });
            let c4 = call_step(all[3], l, c3, CallEvent::Ran { status: 0, tag, error });
            let c5 = call_step(all[4], l, c4, CallEvent::Kept(value_ref));
            &&& action_of(c0) == CallAction::File(FileQuery::Stamp(path))
            &&& action_of(c1) == CallAction::File(FileQuery::Read(path))
            &&& action_of(c2) is Load
            &&& action_of(c3) == (CallAction::<Seq<char>>::Run { compile: native && codegen })
            &&& action_of(c4) == (CallAction::<Seq<char>>::Keep { replace_nil: tag == 0 })
            &&& action_of(c5) == CallAction::<Seq<char>>::Push(value_ref)
        }),
{
    law_native_only_by_directive(source);
}

/// What a call leaves in the runtime of its state: the module is among those
/// being loaded from its reading on, it runs on top of the module stack with
/// its kind of code noted, and its value is kept with the version of its file
/// when it has run. Where it fails, all is as it was before.
pub proof fn law_module_leaves(
    all: RuntimesView,
    l: usize,
    path: Seq<char>,
    fp: FileFingerprint,
    native: bool,
    code: Seq<char>,
    codegen: bool,
    jit: bool,
    before: Option<bool>,
    tag: i32,
    status: i32,
    error: Option<Seq<char>>,
    why: Seq<char>,
    value_ref: i32,
)
    requires
        all.contains_key(l),
        status != 0,
    ensures
        ({
            let rt = all[l];
            let reading = Call::Reading { path, fp };
            let loading = Call::Loading { path, fp, native, code };
            let running = Call::Running { path, fp, jit, before };
            let keeping = Call::Keeping { path, fp, jit, nil: false };
            let stamped = CallEvent::File(FileEvent::Stamped(fp));
            let read = CallEvent::File(FileEvent::Content(code));
            let unread = CallEvent::File(FileEvent::Failed(why));
            &&& !rt.module_cache.contains_key(path) ==> call_effect(
                all,
                l,
                Call::Stamping { path },
                stamped,
            ) == all.insert(l, RuntimeView { loading: rt.loading.insert(path), ..rt })
            &&& call_effect(all, l, reading, read) == all
            &&& call_effect(all, l, reading, unread) == all.insert(
                l,
                RuntimeView { loading: rt.loading.remove(path), ..rt },
            )
            &&& call_effect(all, l, loading, CallEvent::Loaded { status: 0, codegen, error })
                == all.insert(
                l,
                RuntimeView {
                    module_stack: rt.module_stack.push(path),
                    module_jit: rt.module_jit.insert(path, native && codegen),
                    ..rt
                },
            )
            &&& call_effect(all, l, loading, CallEvent::Loaded { status, codegen, error })
                == all.insert(l, RuntimeView { loading: rt.loading.remove(path), ..rt })
            &&& rt.module_stack.len() > 0 ==> call_effect(
                all,
                l,
                running,
                CallEvent::Ran { status: 0, tag, error },
            ) == all.insert(
                l,
                RuntimeView {
                    module_stack: rt.module_stack.drop_last(),
                    loading: rt.loading.remove(path),
                    ..rt
                },
            )
            &&& rt.module_stack.len() > 0 ==> call_effect(
                all,
                l,
                running,
                CallEvent::Ran { status, tag, error },
            ) == all.insert(
                l,
                RuntimeView {
                    module_stack: rt.module_stack.drop_last(),
                    loading: rt.loading.remove(path),
                    module_jit: match before {
                        Some(noted) => rt.module_jit.insert(path, noted),
                        None => rt.module_jit.remove(path),
                    },
                    ..rt
                },
            )
            &&& call_effect(all, l, keeping, CallEvent::Kept(value_ref)) == all.insert(
                l,
                RuntimeView {
                    module_cache: rt.module_cache.insert(path, ModuleCacheEntry { fp, value_ref }),
                    module_jit: rt.module_jit.insert(path, jit),
                    ..rt
                },
            )
            &&& call_effect(
                all,
                l,
                Call::Releasing { path, fp, old: value_ref },
                CallEvent::Released,
            ) == all.insert(
                l,
                RuntimeView {
                    module_cache: rt.module_cache.remove(path),
                    module_jit: rt.module_jit.remove(path),
                    loading: rt.loading.insert(path),
                    ..rt
                },
            )
        }),
{
    let rt = all[l];
    assert(rt.loading.contains(path) ==> rt.loading.insert(path) =~= rt.loading);
    let next = call_effect(
        all,
        l,
        Call::Stamping { path },
        CallEvent::File(FileEvent::Stamped(fp)),
    );
    let same = RuntimeView { loading: rt.loading.insert(path), ..rt };
    if !rt.module_cache.contains_key(path) && rt.loading.contains(path) {
        assert(same =~= rt);
        assert(all.insert(l, same) =~= all);
        assert(next == all);
    }
    let forgotten = RuntimeView {
        module_cache: rt.module_cache.remove(path),
        module_jit: rt.module_jit.remove(path),
        ..rt
    };
    let released = RuntimeView { loading: rt.loading.insert(path), ..forgotten };
    if rt.loading.contains(path) {
        assert(released =~= forgotten);
    }
    assert(call_effect(
        all,
        l,
        Call::Releasing { path, fp, old: value_ref },
        CallEvent::Released,
    ) =~= all.insert(l, released));
}

/// Whatever goes wrong with a call of `require` is told to the script, in these
/// words, with every NUL replaced.
pub proof fn law_require_failures(
    all: RuntimesView,
    l: usize,
    spec: Seq<char>,
    path: Seq<char>,
    fp: FileFingerprint,
    native: bool,
    code: Seq<char>,
    before: Option<bool>,
    codegen: bool,
    tag: i32,
    status: i32,
    why: Seq<char>,
    value_ref: i32,
)
    requires
        status != 0,
    ensures
        ({
            let unsaid: Option<Seq<char>> = None;
            let failed = |c: CallView, m: Seq<char>| action_of(c) == CallAction::Fail(
                without_nul(m),
            );
            let stamping = Call::Stamping { path };
            let loading = Call::Loading { path, fp, native, code };
            let running = Call::Running { path, fp, jit: native, before };
            let stamped = CallEvent::File(FileEvent::Stamped(fp));
            let unread = CallEvent::File(FileEvent::Failed(why));
            let text = TextArgument::Text(spec);
            &&& failed(call_of(all, l, TextArgument::Missing), "expected a string"@)
            &&& failed(call_of(all, l, TextArgument::NotUtf8), "invalid utf-8 string"@)
            &&& !all.contains_key(l) ==> failed(
                call_of(all, l, text),
                "runtime context is not initialized"@,
            )
            &&& all.contains_key(l) && all[l].module_stack.len() == 0 ==> failed(
                call_of(all, l, text),
                "require has no current module context"@,
            )
            &&& failed(
                call_step(all, l, stamping, unread),
                "failed to stat '"@ + path + "': "@ + why,
            )
            &&& !all.contains_key(l) ==> failed(
                call_step(all, l, stamping, stamped),
                "runtime context is not initialized"@,
            )
            &&& all.contains_key(l) && !all[l].module_cache.contains_key(path)
                && all[l].loading.contains(path) ==> failed(
                call_step(all, l, stamping, stamped),
                "cyclic require detected for '"@ + path + "'"@,
            )
            &&& failed(
                call_step(all, l, Call::Reading { path, fp }, unread),
                "failed to read '"@ + path + "': "@ + why,
            )
            &&& failed(
                call_step(
                    all,
                    l,
                    loading,
                    CallEvent::Loaded { status, codegen, error: Some(why) },
                ),
                "load error in '"@ + path + "': "@ + why,
            )
            &&& failed(
                call_step(all, l, loading, CallEvent::Loaded { status, codegen, error: unsaid }),
                "load error in '"@ + path + "': "@ + "unknown load error"@,
            )
            &&& failed(
                call_step(all, l, running, CallEvent::Ran { status, tag, error: Some(why) }),
                "runtime error in '"@ + path + "': "@ + why,
            )
            &&& failed(
                call_step(all, l, running, CallEvent::Ran { status, tag, error: unsaid }),
                "runtime error in '"@ + path + "': "@ + "unknown runtime error"@,
            )
            &&& !all.contains_key(l) ==> {
                let discarding = call_step(
                    all,
                    l,
                    Call::Keeping { path, fp, jit: native, nil: false },
                    CallEvent::Kept(value_ref),
                );
                &&& action_of(discarding) == CallAction::<Seq<char>>::Release(value_ref)
                &&& failed(
                    call_step(all, l, discarding, CallEvent::Released),
                    "runtime context is not initialized"@,
                )
            }
        }),
{
}

/// A call that is not looking for its file goes on exactly when it is answered
/// what it asks for; nothing else changes it or the runtimes.
pub proof fn law_call_goes_on_when_answered(
    all: RuntimesView,
    l: usize,
    c: CallView,
    e: CallEvent<Seq<char>>,
)
    requires
        !(c is Resolving),
    ensures
        ({
            let answered = match action_of(c) {
                CallAction::File(FileQuery::Stamp(_)) => e matches CallEvent::File(f) && (
                f is Stamped || f is Failed),
                CallAction::File(FileQuery::Read(_)) => e matches CallEvent::File(f) && (
                f is Content || f is Failed),
                CallAction::Release(_) => e is Released,
                CallAction::Load { .. } => e is Loaded,
                CallAction::Run { .. } => e is Ran,
                CallAction::Keep { .. } => e is Kept,
                _ => false,
            };
            &&& answered <==> call_step(all, l, c, e) != c
            &&& !answered ==> call_effect(all, l, c, e) == all
        }),
{
}

/// A call looks for its file from the module that is running.
pub proof fn law_call_looks_from_running_module(all: RuntimesView, l: usize, spec: Seq<char>)
    requires
        all.contains_key(l),
        all[l].module_stack.len() > 0,
        !(search_of(all[l], all[l].module_stack.last(), spec).stage is Done),
    ensures
        ({
            let s = search_of(all[l], all[l].module_stack.last(), spec);
            let c = call_of(all, l, TextArgument::Text(spec));
            &&& c == CallView::Resolving(s)
            &&& action_of(c) == CallAction::File(query_of(s)->0)
            &&& s.spec == spec
            &&& s.from == all[l].module_stack.last()
            &&& s.os == all[l].os
        }),
{
}

/// Without a runtime no module is native, and without a name the module that
/// is running is meant, or the entry file before any runs.
pub proof fn law_jit_without_name(all: RuntimesView, l: usize, name: Option<Seq<char>>)
    ensures
        !all.contains_key(l) ==> jit_of(all, l, name) == JitQuery::<SearchView>::Answer(false),
        all.contains_key(l) ==> jit_of(all, l, None) == JitQuery::<SearchView>::Answer(
            {
                let module = if all[l].module_stack.len() > 0 {
                    all[l].module_stack.last()
                } else {
                    all[l].entry_file
                };
                all[l].module_jit.contains_key(module) && all[l].module_jit[module]
            },
        ),
{
}

/// The files of a list of four that are there.
proof fn lemma_existing_of_four(
    disk: Disk,
    a: Seq<char>,
    b: Seq<char>,
    c: Seq<char>,
    d: Seq<char>,
)
    ensures
        existing_of(disk, seq![a, b, c, d]) == (if disk.files.contains_key(a) {
            seq![disk.files[a]]
        } else {
            Seq::empty()
        }) + (if disk.files.contains_key(b) {
            seq![disk.files[b]]
        } else {
            Seq::empty()
        }) + (if disk.files.contains_key(c) {
            seq![disk.files[c]]
        } else {
            Seq::empty()
        }) + (if disk.files.contains_key(d) {
            seq![disk.files[d]]
        } else {
            Seq::empty()
        }),
{
    reveal_with_fuel(existing_of, 5);
    let l0 = seq![a, b, c, d];
    let l1 = l0.drop_first();
    let l2 = l1.drop_first();
    let l3 = l2.drop_first();
    assert(l0.first() == a && l1.first() == b && l2.first() == c && l3.first() == d);
    assert(l3.drop_first().len() == 0);
    assert(existing_of(disk, l3.drop_first()) =~= Seq::empty());
    assert(existing_of(disk, l3) =~= (if disk.files.contains_key(d) {
        seq![disk.files[d]]
    } else {
        Seq::empty()
    }));
    assert(existing_of(disk, l2) =~= (if disk.files.contains_key(c) {
        seq![disk.files[c]]
    } else {
        Seq::empty()
    }) + existing_of(disk, l3));
    assert(existing_of(disk, l1) =~= (if disk.files.contains_key(b) {
        seq![disk.files[b]]
    } else {
        Seq::empty()
    }) + existing_of(disk, l2));
    assert(existing_of(disk, l0) =~= (if disk.files.contains_key(a) {
        seq![disk.files[a]]
    } else {
        Seq::empty()
    }) + existing_of(disk, l1));
    assert(existing_of(disk, l0) =~= (if disk.files.contains_key(a) {
        seq![disk.files[a]]
    } else {
        Seq::empty()
    }) + (if disk.files.contains_key(b) {
        seq![disk.files[b]]
    } else {
        Seq::empty()
    }) + (if disk.files.contains_key(c) {
        seq![disk.files[c]]
    } else {
        Seq::empty()
    }) + (if disk.files.contains_key(d) {
        seq![disk.files[d]]
    } else {
        Seq::empty()
    }));
}

/// A name that stands for a path without an extension stands for the one of the
/// path with `.luau`, with `.lua`, with `/init.luau` and with `/init.lua` that
/// is there, by its canonical path; for none where none is there; for the file
/// itself where all that are there denote one; and is ambiguous where two are
/// that differ. `front` is the directory of the path with the `/` behind it.
pub proof fn law_file_of_name(
    disk: Disk,
    entry_dir: Seq<char>,
    from: Seq<char>,
    spec: Seq<char>,
    front: Seq<char>,
    name: Seq<char>,
)
    requires
        disk.os == Os::Unix,
        base_of(disk, entry_dir, from, spec) == Ok::<Seq<char>, Seq<char>>(front + name),
        front.len() > 0 ==> front.last() == '/',
        one_name(Os::Unix, name),
        free_of(name, '.'),
    ensures
        ({
            let base = front + name;
            let files = disk.files;
            let a = base + ".luau"@;
            let b = base + ".lua"@;
            let c = base + "/init.luau"@;
            let d = base + "/init.lua"@;
            let found = module_file(disk, entry_dir, from, spec);
            &&& !files.contains_key(a) && !files.contains_key(b) && !files.contains_key(c)
                && !files.contains_key(d) ==> found == Err::<Seq<char>, Seq<char>>(
                "module '"@ + spec + "' not found from '"@ + from + "'"@,
            )
            &&& files.contains_key(a) && !files.contains_key(b) && !files.contains_key(c)
                && !files.contains_key(d) ==> found == Ok::<Seq<char>, Seq<char>>(files[a])
            &&& !files.contains_key(a) && files.contains_key(b) && !files.contains_key(c)
                && !files.contains_key(d) ==> found == Ok::<Seq<char>, Seq<char>>(files[b])
            &&& !files.contains_key(a) && !files.contains_key(b) && files.contains_key(c)
                && !files.contains_key(d) ==> found == Ok::<Seq<char>, Seq<char>>(files[c])
            &&& !files.contains_key(a) && !files.contains_key(b) && !files.contains_key(c)
                && files.contains_key(d) ==> found == Ok::<Seq<char>, Seq<char>>(files[d])
            &&& files.contains_key(a) && files.contains_key(b) && !same_path(
                disk.os,
                files[a],
                files[b],
            ) ==> found is Err
            &&& files.contains_key(a) && files.contains_key(c) && !same_path(
                disk.os,
                files[a],
                files[c],
            ) ==> found is Err
            &&& files.contains_key(a) && files.contains_key(d) && !same_path(
                disk.os,
                files[a],
                files[d],
            ) ==> found is Err
            &&& files.contains_key(a) && (files.contains_key(b) ==> files[b] == files[a]) && (
            files.contains_key(c) ==> files[c] == files[a]) && (files.contains_key(d) ==> files[d]
                == files[a]) ==> found == Ok::<Seq<char>, Seq<char>>(files[a])
        }),
{
    let base = front + name;
    let files = disk.files;
    law_candidates_without_extension(front, name);
    let a = base + ".luau"@;
    let b = base + ".lua"@;
    let c = base + "/init.luau"@;
    let d = base + "/init.lua"@;
    lemma_existing_of_four(disk, a, b, c, d);
    let existing = existing_of(disk, seq![a, b, c, d]);
    law_choice(disk.os, spec, from, existing);
    if files.contains_key(a) {
        assert(existing[0] == files[a]);
        if files.contains_key(b) {
            assert(existing[1] == files[b]);
        }
        if files.contains_key(c) {
            let k = if files.contains_key(b) {
                2int
            } else {
                1int
            };
            assert(existing[k] == files[c]);
        }
        if files.contains_key(d) {
            assert(existing[existing.len() - 1] == files[d]);
        }
    }
    if existing.len() == 1 {
        assert forall|i: int| 0 <= i < existing.len() implies same_path(
            disk.os,
            #[trigger] existing[i],
            existing[0],
        ) by {}
    }
}

/// In a module `dir/module`, the name `./name` stands for a file in `dir`, and
/// the name `../name` for one in the directory above, as the system reads them:
/// where there is `name.luau` alone, for that.
pub proof fn law_file_of_relative_name(
    disk: Disk,
    entry_dir: Seq<char>,
    dir: Seq<char>,
    module: Seq<char>,
    name: Seq<char>,
)
    requires
        disk.os == Os::Unix,
        ends_in_component(Os::Unix, dir),
        one_name(Os::Unix, module),
        one_name(Os::Unix, name),
        free_of(name, '.'),
    ensures
        ({
            let from = dir + "/"@ + module;
            let only = |base: Seq<char>|
                disk.files.contains_key(base + ".luau"@) && !disk.files.contains_key(
                    base + ".lua"@,
                ) && !disk.files.contains_key(base + "/init.luau"@) && !disk.files.contains_key(
                    base + "/init.lua"@,
                );
            let here = dir + "/./"@ + name;
            let above = dir + "/../"@ + name;
            &&& only(here) ==> module_file(disk, entry_dir, from, "./"@ + name) == Ok::<
                Seq<char>,
                Seq<char>,
            >(disk.files[here + ".luau"@])
            &&& only(above) ==> module_file(disk, entry_dir, from, "../"@ + name) == Ok::<
                Seq<char>,
                Seq<char>,
            >(disk.files[above + ".luau"@])
        }),
{
    let from = dir + "/"@ + module;
    lemma_relative_base(disk, entry_dir, dir, module, name);
    law_file_of_name(disk, entry_dir, from, "./"@ + name, dir + "/./"@, name);
    law_file_of_name(disk, entry_dir, from, "../"@ + name, dir + "/../"@, name);
}

/// The path that a relative name stands for.
proof fn lemma_relative_base(
    disk: Disk,
    entry_dir: Seq<char>,
    dir: Seq<char>,
    module: Seq<char>,
    tail: Seq<char>,
)
    requires
        disk.os == Os::Unix,
        ends_in_component(Os::Unix, dir),
        one_name(Os::Unix, module),
    ensures
        base_of(disk, entry_dir, dir + "/"@ + module, "./"@ + tail) == Ok::<Seq<char>, Seq<char>>(
            dir + "/./"@ + tail,
        ),
        base_of(disk, entry_dir, dir + "/"@ + module, "../"@ + tail) == Ok::<Seq<char>, Seq<char>>(
            dir + "/../"@ + tail,
        ),
        (dir + "/./"@).last() == '/',
        (dir + "/../"@).last() == '/',
{
    reveal_strlit("./");
    reveal_strlit("../");
    reveal_strlit("/");
    reveal_strlit("/./");
    reveal_strlit("/../");
    law_relative_name_on_unix(entry_dir, dir, module, tail);
    assert(dir + "/"@ + ("./"@ + tail) =~= dir + "/./"@ + tail);
    assert(dir + "/"@ + ("../"@ + tail) =~= dir + "/../"@ + tail);
}

/// A name with an extension stands for that file alone, by its canonical path,
/// and for none where it is not there.
#[verifier::spinoff_prover]
#[verifier::rlimit(60)]
pub proof fn law_file_of_name_with_extension(
    disk: Disk,
    entry_dir: Seq<char>,
    dir: Seq<char>,
    module: Seq<char>,
    stem: Seq<char>,
    ext: Seq<char>,
)
    requires
        disk.os == Os::Unix,
        ends_in_component(Os::Unix, dir),
        one_name(Os::Unix, module),
        stem.len() > 0,
        undivided(Os::Unix, stem),
        ext.len() > 0,
        undivided(Os::Unix, ext),
        free_of(ext, '.'),
    ensures
        ({
            let from = dir + "/"@ + module;
            let spec = "./"@ + (stem + "."@ + ext);
            let file = dir + "/"@ + spec;
            module_file(disk, entry_dir, from, spec) == (if disk.files.contains_key(file) {
                Ok::<Seq<char>, Seq<char>>(disk.files[file])
            } else {
                Err("module '"@ + spec + "' not found from '"@ + from + "'"@)
            })
        }),
{
    let from = dir + "/"@ + module;
    let name = stem + "."@ + ext;
    let spec = "./"@ + name;
    let front = dir + "/"@ + "./"@;
    let file = dir + "/"@ + spec;
    assert(file =~= front + stem + "."@ + ext);
    assert(front.last() == '/') by {
        reveal_strlit("./");
    }
    law_relative_name_on_unix(entry_dir, dir, module, name);
    law_candidate_with_extension(front, stem, ext);
    lemma_existing_of_one(disk, file);
    law_choice(disk.os, spec, from, existing_of(disk, seq![file]));
}

/// The file of a list of one, if it is there.
proof fn lemma_existing_of_one(disk: Disk, file: Seq<char>)
    ensures
        existing_of(disk, seq![file]) == (if disk.files.contains_key(file) {
            seq![disk.files[file]]
        } else {
            Seq::empty()
        }),
{
    reveal_with_fuel(existing_of, 2);
    assert(seq![file].drop_first().len() == 0);
    assert(existing_of(disk, seq![file]) =~= if disk.files.contains_key(file) {
        seq![disk.files[file]]
    } else {
        Seq::empty()
    });
}

/// The `.luaurc` file of a directory lies in it.
pub proof fn law_luaurc_of_directory(dir: Seq<char>)
    requires
        ends_in_component(Os::Unix, dir),
    ensures
        luaurc_of(Os::Unix, dir) == dir + "/.luaurc"@,
        luaurc_of(Os::Unix, "/"@) == "/.luaurc"@,
{
    reveal_strlit("/.luaurc");
    reveal_strlit(".luaurc");
    reveal_strlit("/");
    law_joined_path(dir, ".luaurc"@);
    assert(dir + "/"@ + ".luaurc"@ =~= dir + "/.luaurc"@);
    law_joined_path(Seq::empty(), ".luaurc"@);
    assert(Seq::<char>::empty() + "/"@ =~= "/"@);
    assert("/"@ + ".luaurc"@ =~= "/.luaurc"@);
}

/// In a module `dir/module`, the name `@name/rest` stands for what `rest` is
/// below the path that the `.luaurc` file of `dir` declares for `@name`, taken
/// from `dir`; and `@name` alone for that path.
pub proof fn law_path_below_alias(
    disk: Disk,
    entry_dir: Seq<char>,
    dir: Seq<char>,
    module: Seq<char>,
    name: Seq<char>,
    rest: Seq<char>,
    value: Seq<char>,
)
    requires
        disk.os == Os::Unix,
        ends_in_component(Os::Unix, dir),
        one_name(Os::Unix, module),
        alias_text(name),
        disk.luaurc.contains_key(dir + "/.luaurc"@),
        aliases_in(disk.luaurc[dir + "/.luaurc"@].1).contains_key("@"@ + name),
        aliases_in(disk.luaurc[dir + "/.luaurc"@].1)["@"@ + name] == value,
        value.len() > 0,
        value.last() != '/',
        rest.len() > 0,
        rest[0] != '/',
    ensures
        value[0] != '/' ==> base_of(disk, entry_dir, dir + "/"@ + module, "@"@ + name) == Ok::<
            Seq<char>,
            Seq<char>,
        >(dir + "/"@ + value),
        value[0] != '/' ==> base_of(
            disk,
            entry_dir,
            dir + "/"@ + module,
            "@"@ + name + "/"@ + rest,
        ) == Ok::<Seq<char>, Seq<char>>(dir + "/"@ + value + "/"@ + rest),
        value[0] == '/' ==> base_of(
            disk,
            entry_dir,
            dir + "/"@ + module,
            "@"@ + name + "/"@ + rest,
        ) == Ok::<Seq<char>, Seq<char>>(value + "/"@ + rest),
{
    reveal_strlit("");
    let from = dir + "/"@ + module;
    let key = "@"@ + name;
    law_path_in_directory(dir, module);
    law_alias_is_looked_for(Os::Unix, entry_dir, from, dir, name, rest);
    law_directories_above(Os::Unix, dir);
    law_luaurc_of_directory(dir);
    let none = Map::<Seq<char>, Seq<char>>::empty();
    law_nearest_declaration_wins(disk, ancestors_of(Os::Unix, dir), none, key);
    law_joined_path(dir, value);
    let there = join_of(Os::Unix, dir, value);
    if value[0] != '/' {
        assert(there == dir + "/"@ + value);
        assert(there.last() == value.last());
    }
    law_joined_path(there, rest);
}

/// Where the `.luaurc` file of a directory does not declare an alias, or there
/// is none, the alias means what it means one directory up.
pub proof fn law_alias_from_above(
    disk: Disk,
    entry_dir: Seq<char>,
    dir: Seq<char>,
    sub: Seq<char>,
    module: Seq<char>,
    other: Seq<char>,
    name: Seq<char>,
    rest: Seq<char>,
)
    requires
        disk.os == Os::Unix,
        ends_in_component(Os::Unix, dir),
        one_name(Os::Unix, sub),
        one_name(Os::Unix, module),
        one_name(Os::Unix, other),
        alias_text(name),
        !(disk.luaurc.contains_key(dir + "/"@ + sub + "/.luaurc"@) && aliases_in(
            disk.luaurc[dir + "/"@ + sub + "/.luaurc"@].1,
        ).contains_key("@"@ + name)),
    ensures
        base_of(
            disk,
            entry_dir,
            dir + "/"@ + sub + "/"@ + module,
            "@"@ + name + "/"@ + rest,
        ) == base_of(disk, entry_dir, dir + "/"@ + other, "@"@ + name + "/"@ + rest),
{
    reveal_strlit("/");
    let lower = dir + "/"@ + sub;
    assert(!between(Os::Unix, sub[sub.len() - 1]));
    assert(lower.last() == sub[sub.len() - 1]);
    assert(ends_in_component(Os::Unix, lower)) by {
        if sub.len() == 1 {
            if sub[0] == '.' {
                assert(sub =~= seq!['.']);
            }
        } else {
            assert(lower[lower.len() - 2] == sub[sub.len() - 2]);
            assert(!between(Os::Unix, sub[sub.len() - 2]));
        }
    }
    let key = "@"@ + name;
    law_path_in_directory(dir, sub);
    law_path_in_directory(dir, other);
    law_path_in_directory(lower, module);
    law_alias_is_looked_for(Os::Unix, entry_dir, lower + "/"@ + module, lower, name, rest);
    law_alias_is_looked_for(Os::Unix, entry_dir, dir + "/"@ + other, dir, name, rest);
    law_luaurc_of_directory(lower);
    let dirs = ancestors_of(Os::Unix, lower);
    assert(dirs.drop_last() =~= ancestors_of(Os::Unix, dir));
    let none = Map::<Seq<char>, Seq<char>>::empty();
    law_nearest_declaration_wins(disk, dirs, none, key);
}

/// Where no directory has a `.luaurc` file, no alias is known.
pub proof fn law_unknown_alias(
    disk: Disk,
    entry_dir: Seq<char>,
    from: Seq<char>,
    dir: Seq<char>,
    name: Seq<char>,
    rest: Seq<char>,
)
    requires
        parent_of(disk.os, from) == Some(dir),
        alias_text(name),
        forall|i: int|
            0 <= i < ancestors_of(disk.os, dir).len() ==> !disk.luaurc.contains_key(
                luaurc_of(disk.os, #[trigger] ancestors_of(disk.os, dir)[i]),
            ),
    ensures
        module_file(disk, entry_dir, from, "@"@ + name + "/"@ + rest) == Err::<
            Seq<char>,
            Seq<char>,
        >("unknown alias '"@ + ("@"@ + name) + "'"@),
{
    law_alias_is_looked_for(disk.os, entry_dir, from, dir, name, rest);
    lemma_nothing_declared(disk, ancestors_of(disk.os, dir));
}

proof fn lemma_nothing_declared(disk: Disk, dirs: Seq<Seq<char>>)
    requires
        forall|i: int|
            0 <= i < dirs.len() ==> !disk.luaurc.contains_key(
                luaurc_of(disk.os, #[trigger] dirs[i]),
            ),
    ensures
        aliases_of(disk, dirs, Map::empty()) == Map::<Seq<char>, Seq<char>>::empty(),
    decreases dirs.len(),
{
    if dirs.len() > 0 {
        assert(!disk.luaurc.contains_key(luaurc_of(disk.os, dirs[0])));
        assert forall|i: int| 0 <= i < dirs.drop_first().len() implies !disk.luaurc.contains_key(
            luaurc_of(disk.os, #[trigger] dirs.drop_first()[i]),
        ) by {
            assert(!disk.luaurc.contains_key(luaurc_of(disk.os, dirs[i + 1])));
        }
        lemma_nothing_declared(disk, dirs.drop_first());
    }
}

/// Where two candidates are different files of one directory, the message of
/// the error names both, in the order of their names, in whichever order they
/// were found.
pub proof fn law_ambiguous_name(
    spec: Seq<char>,
    from: Seq<char>,
    dir: Seq<char>,
    a: Seq<char>,
    b: Seq<char>,
)
    requires
        ends_in_component(Os::Unix, dir),
        one_name(Os::Unix, a),
        one_name(Os::Unix, b),
        a != b,
        text_before(a, b),
    ensures
        ({
            let x = dir + "/"@ + a;
            let y = dir + "/"@ + b;
            let message = "module '"@ + spec + "' is ambiguous: "@ + (x + ", "@ + y);
            &&& chosen(Os::Unix, spec, from, seq![x, y]) == Err::<Seq<char>, Seq<char>>(message)
            &&& chosen(Os::Unix, spec, from, seq![y, x]) == Err::<Seq<char>, Seq<char>>(message)
        }),
{
    let x = dir + "/"@ + a;
    let y = dir + "/"@ + b;
    law_order_in_directory(dir, a, b);
    law_order_in_directory(dir, b, a);
    law_path_order(Os::Unix, x, y, x);
    law_path_order(Os::Unix, x, x, x);
    reveal_with_fuel(ascending_distinct, 3);
    reveal_with_fuel(placed, 3);
    let none = Seq::<Seq<char>>::empty();
    assert(seq![x, y].drop_last() =~= seq![x]);
    assert(seq![y, x].drop_last() =~= seq![y]);
    assert(seq![x].drop_last() =~= none);
    assert(seq![y].drop_last() =~= none);
    assert(placed(Os::Unix, none, x) =~= seq![x]);
    assert(placed(Os::Unix, none, y) =~= seq![y]);
    assert(seq![x].drop_first() =~= none);
    assert(placed(Os::Unix, seq![x], y) =~= seq![x, y]);
    assert(placed(Os::Unix, seq![y], x) =~= seq![x, y]);
    assert(ascending_distinct(Os::Unix, seq![x, y]) =~= seq![x, y]);
    assert(ascending_distinct(Os::Unix, seq![y, x]) =~= seq![x, y]);
    law_joined_texts(x, seq![y], ", "@);
    law_joined_texts(y, none, ", "@);
    assert(seq![x] + seq![y] =~= seq![x, y]);
}

/// A search that looks for an alias asks for the `.luaurc` files of the
/// directories above the module, one after the other, from the topmost down; it
/// reads one exactly if its version is not the one that is kept. It is over
/// with a message where a file cannot be looked at or read.
pub proof fn law_search_for_alias(
    rt: RuntimeView,
    s: SearchView,
    a: AliasView,
    fp: FileFingerprint,
    content: Seq<char>,
    why: Seq<char>,
)
    requires
        s.stage == StageView::Stat(a),
        a.dirs.len() > 1,
    ensures
        ({
            let rc = join_of(s.os, a.dirs[0], ".luaurc"@);
            let next = join_of(s.os, a.dirs[1], ".luaurc"@);
            let kept = rt.luaurc_cache.contains_key(rc) && rt.luaurc_cache[rc].fp == fp;
            let stamped = search_step(rt, s, FileEvent::Stamped(fp));
            let reading = Search { stage: StageView::Read(a, fp), ..s };
            let read = search_step(rt, reading, FileEvent::Content(content));
            let over = |t: SearchView, m: Seq<char>| t.stage == StageView::Done(Err(m));
            &&& query_of(s) == Some(FileQuery::Stat(rc))
            &&& query_of(search_step(rt, s, FileEvent::Absent)) == Some(FileQuery::Stat(next))
            &&& kept ==> query_of(stamped) == Some(FileQuery::Stat(next))
            &&& !kept ==> stamped == reading && query_of(stamped) == Some(FileQuery::Read(rc))
            &&& query_of(read) == Some(FileQuery::Stat(next))
            &&& over(
                search_step(rt, s, FileEvent::Failed(why)),
                "failed to stat '"@ + rc + "': "@ + why,
            )
            &&& over(
                search_step(rt, reading, FileEvent::Failed(why)),
                "failed to read '"@ + rc + "': "@ + why,
            )
            &&& runtime_after(rt, s, FileEvent::Stamped(fp)) == rt
            &&& runtime_after(rt, reading, FileEvent::Content(content)) == (RuntimeView {
                luaurc_cache: rt.luaurc_cache.insert(
                    rc,
                    LuaurcRecord { fp, aliases: aliases_in(content) },
                ),
                ..rt
            })
        }),
{
    assert(a.dirs.drop_first().first() == a.dirs[1]);
}

/// A search that looks for candidates asks for all of them, in order, and is
/// over with a message where one cannot be made canonical, or has vanished.
pub proof fn law_search_for_candidates(
    rt: RuntimeView,
    s: SearchView,
    list: Seq<Seq<char>>,
    existing: Seq<Seq<char>>,
    file: Seq<char>,
    why: Seq<char>,
)
    requires
        s.stage == (StageView::Probe { candidates: list, existing }),
        list.len() > 1,
    ensures
        ({
            let over = |t: SearchView, m: Seq<char>| t.stage == StageView::Done(Err(m));
            &&& query_of(s) == Some(FileQuery::Probe(list[0]))
            &&& search_step(rt, s, FileEvent::Absent).stage == (StageView::Probe {
                candidates: list.skip(1),
                existing,
            })
            &&& search_step(rt, s, FileEvent::Canonical(file)).stage == (StageView::Probe {
                candidates: list.skip(1),
                existing: existing.push(file),
            })
            &&& over(
                search_step(rt, s, FileEvent::Vanished),
                "path does not exist: "@ + list[0],
            )
            &&& over(
                search_step(rt, s, FileEvent::Failed(why)),
                "failed to canonicalize '"@ + list[0] + "': "@ + why,
            )
            &&& runtime_after(rt, s, FileEvent::Canonical(file)) == rt
        }),
{
    assert(list.drop_first() =~= list.skip(1));
}

/// A call whose search has found its file asks for the version of the file; one
/// whose search has failed fails with the message of the search; and one whose
/// search goes on asks what the search asks. Without a runtime it fails.
pub proof fn law_call_follows_search(
    all: RuntimesView,
    l: usize,
    s: SearchView,
    f: FileEvent<Seq<char>>,
)
    ensures
        ({
            let c = call_step(all, l, Call::Resolving(s), CallEvent::File(f));
            let t = search_step(all[l], s, f);
            &&& !all.contains_key(l) ==> action_of(c) == CallAction::Fail(
                without_nul("runtime context is not initialized"@),
            )
            &&& all.contains_key(l) ==> match t.stage {
                StageView::Done(Ok(path)) => action_of(c) == CallAction::File(
                    FileQuery::Stamp(path),
                ),
                StageView::Done(Err(m)) => action_of(c) == CallAction::Fail(without_nul(m)),
                _ => action_of(c) == CallAction::File(query_of(t)->0),
            }
            &&& all.contains_key(l) ==> call_effect(
                all,
                l,
                Call::Resolving(s),
                CallEvent::File(f),
            ) == all.insert(l, runtime_after(all[l], s, f))
        }),
{
}

/// A search keeps what it was begun with: the system, the name and the module.
pub proof fn law_search_keeps_its_question(
    rt: RuntimeView,
    from: Seq<char>,
    spec: Seq<char>,
    s: SearchView,
    f: FileEvent<Seq<char>>,
)
    ensures
        search_step(rt, s, f).os == s.os,
        search_step(rt, s, f).spec == s.spec,
        search_step(rt, s, f).from == s.from,
        search_of(rt, from, spec).os == rt.os,
        search_of(rt, from, spec).spec == spec,
        search_of(rt, from, spec).from == from,
{
}

/// A search goes on exactly when it is answered what it asks for, unless it is
/// over: nothing else changes it.
pub proof fn law_search_goes_on_when_answered(
    rt: RuntimeView,
    s: SearchView,
    f: FileEvent<Seq<char>>,
)
    requires
        sound(s),
    ensures
        ({
            let answered = match query_of(s) {
                Some(FileQuery::Stat(_)) => f is Absent || f is Stamped || f is Failed,
                Some(FileQuery::Read(_)) => f is Content || f is Failed,
                Some(FileQuery::Probe(_)) => f is Absent || f is Canonical || f is Vanished
                    || f is Failed,
                _ => false,
            };
            &&& !answered ==> search_step(rt, s, f) == s && runtime_after(rt, s, f) == rt
            &&& answered ==> search_step(rt, s, f).stage != s.stage
            &&& query_of(s) is None <==> s.stage is Done
        }),
{
    if let StageView::Probe { candidates, existing } = s.stage {
        assert(candidates.drop_first().len() < candidates.len());
    }
    if let StageView::Stat(a) = s.stage {
        assert(a.dirs.drop_first().len() < a.dirs.len());
    }
    if let StageView::Read(a, _) = s.stage {
        assert(a.dirs.drop_first().len() < a.dirs.len());
    }
}

} // verus!
