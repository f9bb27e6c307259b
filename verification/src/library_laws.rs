//! What holds of the loading of native libraries from beginning to end.
use crate::loadlib::{
    lacks_cache, loadlib_action, loadlib_of, loadlib_panic_message, loadlib_step, Loadlib,
    LoadlibAction, LoadlibEvent,
};
use crate::path::{join_of, parent_of};
use crate::report::PanicPayload;
use crate::require::TextArgument;
use crate::require_resolver::PathProbe;
use crate::resolver_laws::{law_plain_name, law_relative_name, plain_spec};
use crate::runtime_data::RuntimesView;
use crate::text::without_nul;
use vstd::prelude::*;

verus! {

/// A library is looked for from the module that is running, or from the entry
/// file before any runs: by a name that starts with `./` or `../` in the
/// directory of that module, by a plain name in the entry directory.
pub proof fn law_library_is_looked_for(
    all: RuntimesView,
    l: usize,
    dir: Seq<char>,
    tail: Seq<char>,
    spec: Seq<char>,
)
    requires
        all.contains_key(l),
        parent_of(
            all[l].os,
            if all[l].module_stack.len() > 0 {
                all[l].module_stack.last()
            } else {
                all[l].entry_file
            },
        ) == Some(dir),
        plain_spec(spec),
    ensures
        ({
            let rt = all[l];
            let asked = |name: Seq<char>|
                loadlib_action(loadlib_of(all, l, TextArgument::Text(name)));
            &&& asked("./"@ + tail) == LoadlibAction::Probe(join_of(rt.os, dir, "./"@ + tail))
            &&& asked("../"@ + tail) == LoadlibAction::Probe(join_of(rt.os, dir, "../"@ + tail))
            &&& asked(spec) == LoadlibAction::Probe(join_of(rt.os, rt.entry_dir, spec))
        }),
{
    let rt = all[l];
    law_relative_name(rt.os, rt.entry_dir, rt.current(), dir, tail);
    law_plain_name(rt.os, rt.entry_dir, rt.current(), spec);
}

/// A library of which nothing is kept is opened, its function is called under
/// its name, and the one value that it gives is kept and returned; the library
/// stays open.
pub proof fn law_library_goes_through(path: Seq<char>, file: Seq<char>, why: Seq<char>)
    ensures
        ({
            let c0 = Loadlib::Probing { path };
            let c1 = loadlib_step(c0, LoadlibEvent::Probed(PathProbe::Canonical(file)));
            let c2 = loadlib_step(c1, LoadlibEvent::LookedUp { tag: 0 });
            let c3 = loadlib_step(c2, LoadlibEvent::Opened);
            let c4 = loadlib_step(c3, LoadlibEvent::Found);
            let c5 = loadlib_step(c4, LoadlibEvent::Returned { count: 1 });
            let c6 = loadlib_step(c5, LoadlibEvent::Kept);
            let old = loadlib_step(c3, LoadlibEvent::NotFound(why));
            &&& loadlib_action(c0) == LoadlibAction::Probe(path)
            &&& loadlib_action(c1) == LoadlibAction::LookUp(file)
            &&& loadlib_action(c2) == LoadlibAction::Open(file)
            &&& loadlib_action(c3) == LoadlibAction::Find("nicydynamic_init"@)
            &&& loadlib_action(c4) == LoadlibAction::<Seq<char>>::Initialise
            &&& loadlib_action(c5) == LoadlibAction::Keep(file)
            &&& loadlib_action(c6) == LoadlibAction::<Seq<char>>::ReturnAndKeepOpen
            &&& loadlib_action(old) == LoadlibAction::Find("nicydinamic_init"@)
            &&& loadlib_step(old, LoadlibEvent::Found) == c4
        }),
{
}

/// A library of which something other than nil is kept gives that, and is not
/// opened again.
pub proof fn law_kept_library_is_returned(file: Seq<char>, tag: i32)
    requires
        tag != 0,
    ensures
        loadlib_action(
            loadlib_step(Loadlib::LookingUp { path: file }, LoadlibEvent::LookedUp { tag }),
        ) == LoadlibAction::<Seq<char>>::Return,
{
}

/// Whatever goes wrong with a library is told to the script, in these words,
/// with every NUL replaced.
pub proof fn law_library_failures(
    all: RuntimesView,
    l: usize,
    spec: Seq<char>,
    path: Seq<char>,
    why: Seq<char>,
    count: i32,
)
    requires
        count != 1,
    ensures
        ({
            let failed = |c: Loadlib<Seq<char>>, m: Seq<char>|
                loadlib_action(c) == LoadlibAction::Fail(without_nul(m));
            let finding = Loadlib::Finding { path, old: true };
            let initialising = Loadlib::Initialising { path };
            &&& failed(loadlib_of(all, l, TextArgument::Missing), "invalid path"@)
            &&& failed(loadlib_of(all, l, TextArgument::NotUtf8), "invalid path encoding"@)
            &&& !all.contains_key(l) ==> failed(
                loadlib_of(all, l, TextArgument::Text(spec)),
                "runtime context is not initialized"@,
            )
            &&& failed(
                loadlib_step(
                    Loadlib::Probing { path },
                    LoadlibEvent::Probed(PathProbe::Missing),
                ),
                "path does not exist: "@ + path,
            )
            &&& failed(
                loadlib_step(
                    Loadlib::Probing { path },
                    LoadlibEvent::Probed(PathProbe::Failed(why)),
                ),
                "failed to canonicalize '"@ + path + "': "@ + why,
            )
            &&& failed(
                loadlib_step(Loadlib::Opening { path }, LoadlibEvent::NotOpened(why)),
                "failed to load library '"@ + path + "': "@ + why,
            )
            &&& failed(
                loadlib_step(finding, LoadlibEvent::NotFound(why)),
                "missing extension init symbol (nicydynamic_init): "@ + why,
            )
            &&& failed(
                loadlib_step(initialising, LoadlibEvent::Returned { count }),
                "invalid extension return count (expected 1)"@,
            )
            &&& failed(
                loadlib_step(initialising, LoadlibEvent::Panicked(PanicPayload::Owned(why))),
                "extension panic during init: "@ + why,
            )
            &&& failed(
                loadlib_step(initialising, LoadlibEvent::Panicked(PanicPayload::Static(why))),
                "extension panic during init: "@ + why,
            )
            &&& failed(
                loadlib_step(initialising, LoadlibEvent::Panicked(PanicPayload::Other)),
                "extension panic during init: "@ + "non-string panic payload"@,
            )
            &&& loadlib_panic_message(PanicPayload::Owned(why)) == without_nul(
                "runtime panic in runtime.loadlib: "@ + why,
            )
            &&& loadlib_panic_message(PanicPayload::Other) == without_nul(
                "runtime panic in runtime.loadlib: "@ + "non-string panic payload"@,
            )
        }),
{
}

/// The loading of a library goes on exactly when it is answered what it asks
/// for.
pub proof fn law_library_goes_on_when_answered(c: Loadlib<Seq<char>>, e: LoadlibEvent<Seq<char>>)
    ensures
        ({
            let answered = match loadlib_action(c) {
                LoadlibAction::Probe(_) => e is Probed,
                LoadlibAction::LookUp(_) => e is LookedUp,
                LoadlibAction::Open(_) => e is Opened || e is NotOpened,
                LoadlibAction::Find(_) => e is Found || e is NotFound,
                LoadlibAction::Initialise => e is Returned || e is Panicked,
                LoadlibAction::Keep(_) => e is Kept,
                _ => false,
            };
            answered <==> loadlib_step(c, e) != c
        }),
{
}

/// The table of what is kept of libraries is made unless a table is there.
pub proof fn law_table_of_libraries(tag: i32)
    ensures
        lacks_cache(tag) <==> tag != 7,
{
}

} // verus!
