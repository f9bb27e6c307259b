//! `runtime.loadlib`: a native library is found, opened and initialised once,
//! and what it gives is kept for as long as the state uses it.
use crate::luau;
use crate::report::{marked, panic_payload_to_string, panic_text, PanicPayload};
use crate::require::TextArgument;
use crate::require_resolver::{
    canonical, canonicalize_existing, loadlib_base, resolve_loadlib_path, PathProbe,
};
use crate::resolution::failure;
use crate::runtime_data::{no_runtime_message, Runtimes, RuntimesView};
use crate::text::{replace_nul, without_nul};
use vstd::prelude::*;

verus! {

/// How far the loading of a native library has come.
#[verifier::ext_equal]
pub enum Loadlib<T> {
    /// The file of the library is being looked for.
    Probing { path: T },
    /// What is kept of the library is being looked up.
    LookingUp { path: T },
    /// The library is being opened.
    Opening { path: T },
    /// The function that initialises the library is being looked for; `old`
    /// tells whether under its old name.
    Finding { path: T, old: bool },
    /// The library is being initialised.
    Initialising { path: T },
    /// What the library gave is being kept.
    Keeping { path: T },
    /// What was kept of the library is returned.
    Reused,
    /// What the library gave is returned, and the library stays open.
    Loaded,
    /// The loading fails with this message.
    Error(T),
}

/// What the loading of a native library asks of its host.
#[verifier::ext_equal]
#[derive(PartialEq, Eq, Debug)]
pub enum LoadlibAction<T> {
    /// To look for a file and ask for its canonical path.
    Probe(T),
    /// To look up what is kept of a library, and to leave it on the stack.
    LookUp(T),
    /// To take what was looked up off the stack, and to open a library.
    Open(T),
    /// To look for a function of the library.
    Find(T),
    /// To call the function that was found.
    Initialise,
    /// To keep the value that the function left on the stack.
    Keep(T),
    /// To return what was looked up.
    Return,
    /// To return the value that is on the stack, and to leave the library
    /// open.
    ReturnAndKeepOpen,
    /// To return nil and a message.
    Fail(T),
}

/// What the host of the loading of a native library answers.
#[verifier::ext_equal]
#[derive(PartialEq, Eq, Debug)]
pub enum LoadlibEvent<T> {
    Probed(PathProbe<T>),
    /// What is kept of the library has this type tag.
    LookedUp { tag: i32 },
    Opened,
    /// The library could not be opened, and this is why.
    NotOpened(T),
    Found,
    /// The function is not there, and this is why.
    NotFound(T),
    /// The function has returned, with a number of values.
    Returned { count: i32 },
    /// The function has panicked.
    Panicked(PanicPayload<T>),
    Kept,
}

impl View for Loadlib<String> {
    type V = Loadlib<Seq<char>>;

    open spec fn view(&self) -> Loadlib<Seq<char>> {
        match *self {
            Loadlib::Probing { path } => Loadlib::Probing { path: path@ },
            Loadlib::LookingUp { path } => Loadlib::LookingUp { path: path@ },
            Loadlib::Opening { path } => Loadlib::Opening { path: path@ },
            Loadlib::Finding { path, old } => Loadlib::Finding { path: path@, old },
            Loadlib::Initialising { path } => Loadlib::Initialising { path: path@ },
            Loadlib::Keeping { path } => Loadlib::Keeping { path: path@ },
            Loadlib::Reused => Loadlib::Reused,
            Loadlib::Loaded => Loadlib::Loaded,
            Loadlib::Error(m) => Loadlib::Error(m@),
        }
    }
}

impl View for LoadlibAction<String> {
    type V = LoadlibAction<Seq<char>>;

    open spec fn view(&self) -> LoadlibAction<Seq<char>> {
        match *self {
            LoadlibAction::Probe(p) => LoadlibAction::Probe(p@),
            LoadlibAction::LookUp(k) => LoadlibAction::LookUp(k@),
            LoadlibAction::Open(p) => LoadlibAction::Open(p@),
            LoadlibAction::Find(name) => LoadlibAction::Find(name@),
            LoadlibAction::Initialise => LoadlibAction::Initialise,
            LoadlibAction::Keep(k) => LoadlibAction::Keep(k@),
            LoadlibAction::Return => LoadlibAction::Return,
            LoadlibAction::ReturnAndKeepOpen => LoadlibAction::ReturnAndKeepOpen,
            LoadlibAction::Fail(m) => LoadlibAction::Fail(m@),
        }
    }
}

impl View for LoadlibEvent<String> {
    type V = LoadlibEvent<Seq<char>>;

    open spec fn view(&self) -> LoadlibEvent<Seq<char>> {
        match *self {
            LoadlibEvent::Probed(p) => LoadlibEvent::Probed(p@),
            LoadlibEvent::LookedUp { tag } => LoadlibEvent::LookedUp { tag },
            LoadlibEvent::Opened => LoadlibEvent::Opened,
            LoadlibEvent::NotOpened(why) => LoadlibEvent::NotOpened(why@),
            LoadlibEvent::Found => LoadlibEvent::Found,
            LoadlibEvent::NotFound(why) => LoadlibEvent::NotFound(why@),
            LoadlibEvent::Returned { count } => LoadlibEvent::Returned { count },
            LoadlibEvent::Panicked(p) => LoadlibEvent::Panicked(p@),
            LoadlibEvent::Kept => LoadlibEvent::Kept,
        }
    }
}

pub open spec fn open_failed_message(path: Seq<char>, why: Seq<char>) -> Seq<char> {
    "failed to load library '"@ + path + "': "@ + why
}

pub open spec fn no_init_message(why: Seq<char>) -> Seq<char> {
    "missing extension init symbol (nicydynamic_init): "@ + why
}

pub open spec fn init_panic_message(p: PanicPayload<Seq<char>>) -> Seq<char> {
    "extension panic during init: "@ + panic_text(p)
}

/// The loading of the library named `argument` in the module that is running.
pub open spec fn loadlib_of(
    all: RuntimesView,
    l: usize,
    argument: TextArgument<Seq<char>>,
) -> Loadlib<Seq<char>> {
    match argument {
        TextArgument::Missing => Loadlib::Error("invalid path"@),
        TextArgument::NotUtf8 => Loadlib::Error("invalid path encoding"@),
        TextArgument::Text(spec) => if !all.contains_key(l) {
            Loadlib::Error(no_runtime_message())
        } else {
            match loadlib_base(all[l].os, all[l].entry_dir, all[l].current(), spec) {
                Ok(path) => Loadlib::Probing { path },
                Err(m) => Loadlib::Error(m),
            }
        },
    }
}

/// How the loading of a library goes on when its host has answered `e`. An
/// answer to something else than was asked changes nothing.
pub open spec fn loadlib_step(
    c: Loadlib<Seq<char>>,
    e: LoadlibEvent<Seq<char>>,
) -> Loadlib<Seq<char>> {
    match (c, e) {
        (Loadlib::Probing { path }, LoadlibEvent::Probed(probe)) => match canonical(path, probe) {
            Ok(path) => Loadlib::LookingUp { path },
            Err(m) => Loadlib::Error(m),
        },
        (Loadlib::LookingUp { path }, LoadlibEvent::LookedUp { tag }) => if tag
            != luau::nil_tag_value() {
            Loadlib::Reused
        } else {
            Loadlib::Opening { path }
        },
        (Loadlib::Opening { path }, LoadlibEvent::Opened) => Loadlib::Finding { path, old: false },
        (Loadlib::Opening { path }, LoadlibEvent::NotOpened(why)) => Loadlib::Error(
            open_failed_message(path, why),
        ),
        (Loadlib::Finding { path, .. }, LoadlibEvent::Found) => Loadlib::Initialising { path },
        (Loadlib::Finding { path, old }, LoadlibEvent::NotFound(why)) => if old {
            Loadlib::Error(no_init_message(why))
        } else {
            Loadlib::Finding { path, old: true }
        },
        (Loadlib::Initialising { path }, LoadlibEvent::Returned { count }) => if count != 1 {
            Loadlib::Error("invalid extension return count (expected 1)"@)
        } else {
            Loadlib::Keeping { path }
        },
        (Loadlib::Initialising { .. }, LoadlibEvent::Panicked(p)) => Loadlib::Error(
            init_panic_message(p),
        ),
        (Loadlib::Keeping { .. }, LoadlibEvent::Kept) => Loadlib::Loaded,
        _ => c,
    }
}

/// The name of the function that initialises a library.
pub open spec fn init_name(old: bool) -> Seq<char> {
    if old {
        "nicydinamic_init"@
    } else {
        "nicydynamic_init"@
    }
}

/// What the loading of a library asks of its host.
pub open spec fn loadlib_action(c: Loadlib<Seq<char>>) -> LoadlibAction<Seq<char>> {
    match c {
        Loadlib::Probing { path } => LoadlibAction::Probe(path),
        Loadlib::LookingUp { path } => LoadlibAction::LookUp(path),
        Loadlib::Opening { path } => LoadlibAction::Open(path),
        Loadlib::Finding { old, .. } => LoadlibAction::Find(init_name(old)),
        Loadlib::Initialising { .. } => LoadlibAction::Initialise,
        Loadlib::Keeping { path } => LoadlibAction::Keep(path),
        Loadlib::Reused => LoadlibAction::Return,
        Loadlib::Loaded => LoadlibAction::ReturnAndKeepOpen,
        Loadlib::Error(m) => LoadlibAction::Fail(without_nul(m)),
    }
}

/// Goes on when the library is open.
fn advance_open(c: Loadlib<String>, e: LoadlibEvent<String>) -> (r: Loadlib<String>)
    requires
        c is Finding || c is Initialising || c is Keeping,
    ensures
        r@ == loadlib_step(c@, e@),
{
    match (c, e) {
        (Loadlib::Finding { path, .. }, LoadlibEvent::Found) => Loadlib::Initialising { path },
        (Loadlib::Finding { path, old }, LoadlibEvent::NotFound(why)) => if old {
            Loadlib::Error(
                marked("missing extension init symbol (nicydynamic_init): ", why.as_str()),
            )
        } else {
            Loadlib::Finding { path, old: true }
        },
        (Loadlib::Initialising { path }, LoadlibEvent::Returned { count }) => if count != 1 {
            Loadlib::Error("invalid extension return count (expected 1)".to_owned())
        } else {
            Loadlib::Keeping { path }
        },
        (Loadlib::Initialising { .. }, LoadlibEvent::Panicked(p)) => Loadlib::Error(
            marked("extension panic during init: ", panic_payload_to_string(p).as_str()),
        ),
        (Loadlib::Keeping { .. }, LoadlibEvent::Kept) => Loadlib::Loaded,
        (c, _) => c,
    }
}

impl Loadlib<String> {
    /// Begins to load a library in the state `l`.
    pub fn begin(all: &Runtimes, l: usize, argument: TextArgument<String>) -> (r: Loadlib<String>)
        ensures
            r@ == loadlib_of(all@, l, argument@),
    {
        match argument {
            TextArgument::Missing => Loadlib::Error("invalid path".to_owned()),
            TextArgument::NotUtf8 => Loadlib::Error("invalid path encoding".to_owned()),
            TextArgument::Text(spec) => match resolve_loadlib_path(all, l, spec.as_str()) {
                Ok(path) => Loadlib::Probing { path },
                Err(m) => Loadlib::Error(m),
            },
        }
    }

    /// What the loading asks of its host.
    pub fn action(&self) -> (r: LoadlibAction<String>)
        ensures
            r@ == loadlib_action(self@),
    {
        match self {
            Loadlib::Probing { path } => LoadlibAction::Probe(path.clone()),
            Loadlib::LookingUp { path } => LoadlibAction::LookUp(path.clone()),
            Loadlib::Opening { path } => LoadlibAction::Open(path.clone()),
            Loadlib::Finding { old, .. } => if *old {
                LoadlibAction::Find("nicydinamic_init".to_owned())
            } else {
                LoadlibAction::Find("nicydynamic_init".to_owned())
            },
            Loadlib::Initialising { .. } => LoadlibAction::Initialise,
            Loadlib::Keeping { path } => LoadlibAction::Keep(path.clone()),
            Loadlib::Reused => LoadlibAction::Return,
            Loadlib::Loaded => LoadlibAction::ReturnAndKeepOpen,
            Loadlib::Error(m) => LoadlibAction::Fail(replace_nul(m.as_str())),
        }
    }

    /// Goes on with the answer `e` of the host.
    pub fn advance(self, e: LoadlibEvent<String>) -> (r: Loadlib<String>)
        ensures
            r@ == loadlib_step(self@, e@),
    {
        match (self, e) {
            (Loadlib::Probing { path }, LoadlibEvent::Probed(probe)) => match canonicalize_existing(
                path.as_str(),
                probe,
            ) {
                Ok(path) => Loadlib::LookingUp { path },
                Err(m) => Loadlib::Error(m),
            },
            (Loadlib::LookingUp { path }, LoadlibEvent::LookedUp { tag }) => if tag
                != luau::nil_tag() {
                Loadlib::Reused
            } else {
                Loadlib::Opening { path }
            },
            (Loadlib::Opening { path }, LoadlibEvent::Opened) => Loadlib::Finding {
                path,
                old: false,
            },
            (Loadlib::Opening { path }, LoadlibEvent::NotOpened(why)) => Loadlib::Error(
                failure("failed to load library '", path.as_str(), why.as_str()),
            ),
            (Loadlib::Finding { path, old }, e) => advance_open(Loadlib::Finding { path, old }, e),
            (Loadlib::Initialising { path }, e) => advance_open(Loadlib::Initialising { path }, e),
            (Loadlib::Keeping { path }, e) => advance_open(Loadlib::Keeping { path }, e),
            (c, _) => c,
        }
    }
}

/// The message of a loading that has panicked.
pub open spec fn loadlib_panic_message(p: PanicPayload<Seq<char>>) -> Seq<char> {
    without_nul("runtime panic in runtime.loadlib: "@ + panic_text(p))
}

/// The message of a loading that has panicked.
pub fn loadlib_panic(p: PanicPayload<String>) -> (r: String)
    ensures
        r@ == without_nul("runtime panic in runtime.loadlib: "@ + panic_text(p@)),
        r@ == loadlib_panic_message(p@),
{
    let m = marked("runtime panic in runtime.loadlib: ", panic_payload_to_string(p).as_str());
    replace_nul(m.as_str())
}

/// Whether the table of what is kept of libraries has to be made, by the type
/// tag of what stands in its place.
pub open spec fn lacks_cache(tag: i32) -> bool {
    tag != luau::table_tag_value()
}

/// Whether the table of what is kept of libraries has to be made, by the type
/// tag of what stands in its place.
pub fn cache_is_missing(tag: i32) -> (r: bool)
    ensures
        r == (tag != luau::table_tag_value()),
        r == lacks_cache(tag),
{
    tag != luau::table_tag()
}

/// The loading of a library with the answers of its host dealt with one after
/// the other.
pub open spec fn loadlib_after(
    c: Loadlib<Seq<char>>,
    events: Seq<LoadlibEvent<Seq<char>>>,
) -> Loadlib<Seq<char>>
    decreases events.len(),
{
    if events.len() == 0 {
        c
    } else {
        loadlib_after(loadlib_step(c, events.first()), events.drop_first())
    }
}

/// A library of which something is kept is neither opened nor initialised
/// again.
pub proof fn law_library_is_loaded_once(
    path: Seq<char>,
    file: Seq<char>,
    tag: i32,
    events: Seq<LoadlibEvent<Seq<char>>>,
)
    requires
        tag != luau::nil_tag_value(),
    ensures
        ({
            let c = loadlib_step(
                Loadlib::Probing { path },
                LoadlibEvent::Probed(PathProbe::Canonical(file)),
            );
            let d = loadlib_step(c, LoadlibEvent::LookedUp { tag });
            &&& loadlib_action(c) == LoadlibAction::LookUp(file)
            &&& loadlib_action(d) == LoadlibAction::<Seq<char>>::Return
            &&& loadlib_after(d, events) == d
        }),
{
    let d = Loadlib::<Seq<char>>::Reused;
    lemma_stays(d, events);
}

/// A loading that is over stays as it is.
proof fn lemma_stays(c: Loadlib<Seq<char>>, events: Seq<LoadlibEvent<Seq<char>>>)
    requires
        c is Reused || c is Loaded || c is Error,
    ensures
        loadlib_after(c, events) == c,
    decreases events.len(),
{
    if events.len() > 0 {
        lemma_stays(c, events.drop_first());
    }
}

/// A library stays open exactly if what it gave is kept, and that comes only
/// after it gave one value; whatever goes wrong before ends in an error.
pub proof fn law_open_library_gave_one_value(c: Loadlib<Seq<char>>, e: LoadlibEvent<Seq<char>>)
    ensures
        loadlib_step(c, e) is Loaded ==> c is Loaded || (c is Keeping && e is Kept),
        loadlib_step(c, e) is Keeping ==> c is Keeping || (c is Initialising && e
            == LoadlibEvent::<Seq<char>>::Returned { count: 1 }),
{
}

/// A message that is returned holds no NUL.
pub proof fn law_messages_hold_no_nul(c: Loadlib<Seq<char>>, i: int)
    requires
        c is Error,
        loadlib_action(c) matches LoadlibAction::Fail(m) && 0 <= i < m.len(),
    ensures
        loadlib_action(c) matches LoadlibAction::Fail(m) && m[i] != '\0',
{
}

} // verus!
