//! What the runtime keeps for each Luau state: the entry file, the stack of
//! modules being run, and the caches of modules and of `.luaurc` files.
use crate::path::Os;
use crate::text_map::TextMap;
use std::collections::HashMap;
use vstd::hash_set::StringHashSet;
use vstd::prelude::*;

verus! {

/// What tells two versions of a file apart.
#[derive(Clone, Copy, PartialEq, Eq, Structural, Debug)]
pub struct FileFingerprint {
    /// The time of the last modification, in nanoseconds since the epoch.
    pub modified_ns: u128,
    /// The size in bytes.
    pub size: u64,
}

impl View for FileFingerprint {
    type V = FileFingerprint;

    open spec fn view(&self) -> FileFingerprint {
        *self
    }
}

/// The fingerprint of a file, by its size and its modification time.
pub open spec fn fingerprint_of(size: u64, modified_ns: Option<u128>) -> FileFingerprint {
    FileFingerprint {
        modified_ns: match modified_ns {
            Some(n) => n,
            None => 0,
        },
        size,
    }
}

impl FileFingerprint {
    /// The fingerprint of a file of `size` bytes; a file whose modification
    /// time cannot be told counts as modified at the epoch.
    pub fn from_metadata(size: u64, modified_ns: Option<u128>) -> (fp: FileFingerprint)
        ensures
            fp.size == size,
            fp.modified_ns == (match modified_ns {
                Some(n) => n,
                None => 0,
            }),
            fp == fingerprint_of(size, modified_ns),
    {
        let modified_ns: u128 = match modified_ns {
            Some(n) => n,
            None => 0,
        };
        FileFingerprint { modified_ns, size }
    }
}

/// A module that has been loaded: the version of its file, and the reference
/// under which the Luau state keeps its value.
#[derive(Clone, Copy, PartialEq, Eq, Structural, Debug)]
pub struct ModuleCacheEntry {
    pub fp: FileFingerprint,
    pub value_ref: i32,
}

impl View for ModuleCacheEntry {
    type V = ModuleCacheEntry;

    open spec fn view(&self) -> ModuleCacheEntry {
        *self
    }
}

/// A `.luaurc` file that has been read: the version of the file, and the
/// aliases that it declares.
pub struct LuaurcCacheEntry {
    pub fp: FileFingerprint,
    pub aliases: TextMap<String>,
}

/// What a `LuaurcCacheEntry` stands for.
pub struct LuaurcRecord {
    pub fp: FileFingerprint,
    pub aliases: Map<Seq<char>, Seq<char>>,
}

impl View for LuaurcCacheEntry {
    type V = LuaurcRecord;

    open spec fn view(&self) -> LuaurcRecord {
        LuaurcRecord { fp: self.fp, aliases: self.aliases@ }
    }
}

/// What the runtime keeps for one Luau state.
pub struct RuntimeData {
    os: Os,
    entry_file: String,
    entry_dir: String,
    module_stack: Vec<String>,
    module_cache: TextMap<ModuleCacheEntry>,
    module_jit: TextMap<bool>,
    loading: StringHashSet,
    luaurc_cache: TextMap<LuaurcCacheEntry>,
}

/// What a `RuntimeData` stands for.
#[verifier::ext_equal]
pub struct RuntimeView {
    /// The system by whose rules paths are read.
    pub os: Os,
    /// The file that the runtime was started on.
    pub entry_file: Seq<char>,
    /// The directory of that file.
    pub entry_dir: Seq<char>,
    /// The modules that are running, the innermost last.
    pub module_stack: Seq<Seq<char>>,
    /// The modules that have been loaded.
    pub module_cache: Map<Seq<char>, ModuleCacheEntry>,
    /// Whether the code of a module was compiled to native code.
    pub module_jit: Map<Seq<char>, bool>,
    /// The modules whose loading has begun and has not ended.
    pub loading: Set<Seq<char>>,
    /// The `.luaurc` files that have been read.
    pub luaurc_cache: Map<Seq<char>, LuaurcRecord>,
}

impl RuntimeView {
    /// A runtime in which nothing has happened yet.
    pub open spec fn fresh(os: Os, entry_file: Seq<char>, entry_dir: Seq<char>) -> RuntimeView {
        RuntimeView {
            os,
            entry_file,
            entry_dir,
            module_stack: Seq::empty(),
            module_cache: Map::empty(),
            module_jit: Map::empty(),
            loading: Set::empty(),
            luaurc_cache: Map::empty(),
        }
    }

    /// The module that is running; before any runs, the entry file.
    pub open spec fn current(self) -> Seq<char> {
        if self.module_stack.len() > 0 {
            self.module_stack.last()
        } else {
            self.entry_file
        }
    }

    /// The reference of a module that was loaded from this very version of
    /// its file.
    pub open spec fn fresh_ref(self, path: Seq<char>, fp: FileFingerprint) -> Option<i32> {
        if self.module_cache.contains_key(path) && self.module_cache[path].fp == fp {
            Some(self.module_cache[path].value_ref)
        } else {
            None
        }
    }

    /// The reference of a module, whatever the version it was loaded from.
    pub open spec fn any_ref(self, path: Seq<char>) -> Option<i32> {
        if self.module_cache.contains_key(path) {
            Some(self.module_cache[path].value_ref)
        } else {
            None
        }
    }

    /// Whether the code of `path` was compiled to native code.
    pub open spec fn jit(self, path: Seq<char>) -> bool {
        self.module_jit.contains_key(path) && self.module_jit[path]
    }

    /// With `path` on top of the module stack.
    pub open spec fn entered(self, path: Seq<char>) -> RuntimeView {
        RuntimeView { module_stack: self.module_stack.push(path), ..self }
    }

    /// Without the top of the module stack.
    pub open spec fn left(self) -> RuntimeView {
        if self.module_stack.len() > 0 {
            RuntimeView { module_stack: self.module_stack.drop_last(), ..self }
        } else {
            self
        }
    }

    /// With `path` among the modules whose loading has begun.
    pub open spec fn begun(self, path: Seq<char>) -> RuntimeView {
        RuntimeView { loading: self.loading.insert(path), ..self }
    }

    /// Without `path` among the modules whose loading has begun.
    pub open spec fn ended(self, path: Seq<char>) -> RuntimeView {
        RuntimeView { loading: self.loading.remove(path), ..self }
    }

    /// With nothing kept of the module `path`.
    pub open spec fn forgotten(self, path: Seq<char>) -> RuntimeView {
        RuntimeView {
            module_cache: self.module_cache.remove(path),
            module_jit: self.module_jit.remove(path),
            ..self
        }
    }

    /// With the module `path` loaded.
    pub open spec fn stored(
        self,
        path: Seq<char>,
        entry: ModuleCacheEntry,
        jit: bool,
    ) -> RuntimeView {
        RuntimeView {
            module_cache: self.module_cache.insert(path, entry),
            module_jit: self.module_jit.insert(path, jit),
            ..self
        }
    }

    /// With `jit` noted for the module `path`.
    pub open spec fn jit_set(self, path: Seq<char>, jit: bool) -> RuntimeView {
        RuntimeView { module_jit: self.module_jit.insert(path, jit), ..self }
    }

    /// What is noted of the module `path`: whether its code is native.
    pub open spec fn jit_noted(self, path: Seq<char>) -> Option<bool> {
        if self.module_jit.contains_key(path) {
            Some(self.module_jit[path])
        } else {
            None
        }
    }

    /// With `noted`, or nothing, noted for the module `path`.
    pub open spec fn jit_restored(self, path: Seq<char>, noted: Option<bool>) -> RuntimeView {
        match noted {
            Some(jit) => self.jit_set(path, jit),
            None => RuntimeView { module_jit: self.module_jit.remove(path), ..self },
        }
    }

    /// With the `.luaurc` file `rc` read.
    pub open spec fn luaurc_read(self, rc: Seq<char>, record: LuaurcRecord) -> RuntimeView {
        RuntimeView { luaurc_cache: self.luaurc_cache.insert(rc, record), ..self }
    }
}

impl View for RuntimeData {
    type V = RuntimeView;

    closed spec fn view(&self) -> RuntimeView {
        RuntimeView {
            os: self.os,
            entry_file: self.entry_file@,
            entry_dir: self.entry_dir@,
            module_stack: crate::text::texts(self.module_stack@),
            module_cache: self.module_cache@,
            module_jit: self.module_jit@,
            loading: self.loading@,
            luaurc_cache: self.luaurc_cache@,
        }
    }
}

impl RuntimeData {
    /// A runtime in which nothing has happened yet.
    pub fn new(os: Os, entry_file: String, entry_dir: String) -> (rt: RuntimeData)
        ensures
            rt@ == RuntimeView::fresh(os, entry_file@, entry_dir@),
    {
        let rt = RuntimeData {
            os,
            entry_file,
            entry_dir,
            module_stack: Vec::new(),
            module_cache: TextMap::new(),
            module_jit: TextMap::new(),
            loading: StringHashSet::new(),
            luaurc_cache: TextMap::new(),
        };
        assert(rt@ =~= RuntimeView::fresh(os, entry_file@, entry_dir@));
        rt
    }

    /// The system by whose rules paths are read.
    pub fn os(&self) -> (r: Os)
        ensures
            r == self@.os,
    {
        self.os
    }

    /// The directory of the entry file.
    pub fn entry_dir(&self) -> (r: &str)
        ensures
            r@ == self@.entry_dir,
    {
        self.entry_dir.as_str()
    }

    /// The innermost module that is running.
    pub fn running(&self) -> (r: Option<String>)
        ensures
            match r {
                Some(p) => self@.module_stack.len() > 0 && p@ == self@.module_stack.last(),
                None => self@.module_stack.len() == 0,
            },
    {
        if self.module_stack.len() > 0 {
            Some(self.module_stack[self.module_stack.len() - 1].clone())
        } else {
            None
        }
    }

    /// The module that is running; before any runs, the entry file.
    pub fn current(&self) -> (r: String)
        ensures
            r@ == self@.current(),
    {
        match self.running() {
            Some(p) => p,
            None => self.entry_file.clone(),
        }
    }

    /// Puts `path` on top of the module stack.
    pub fn enter(&mut self, path: String)
        ensures
            final(self)@ == old(self)@.entered(path@),
    {
        self.module_stack.push(path);
        assert(self@ =~= old(self)@.entered(path@));
    }

    /// Puts the entry file on top of the module stack.
    pub fn enter_entry(&mut self)
        ensures
            final(self)@ == old(self)@.entered(old(self)@.entry_file),
    {
        let path = self.entry_file.clone();
        self.enter(path);
    }

    /// Takes the top off the module stack, if it has one.
    pub fn leave(&mut self)
        ensures
            final(self)@ == old(self)@.left(),
    {
        self.module_stack.pop();
        assert(self@ =~= old(self)@.left());
    }

    /// The reference of the module `path`, if it was loaded from the version
    /// `fp` of its file.
    pub fn fresh_ref(&self, path: &str, fp: FileFingerprint) -> (r: Option<i32>)
        ensures
            r == self@.fresh_ref(path@, fp),
    {
        match self.module_cache.get(path) {
            Some(entry) => if entry.fp == fp {
                Some(entry.value_ref)
            } else {
                None
            },
            None => None,
        }
    }

    /// The reference of the module `path`, whatever the version it was loaded
    /// from.
    pub fn any_ref(&self, path: &str) -> (r: Option<i32>)
        ensures
            r == self@.any_ref(path@),
    {
        match self.module_cache.get(path) {
            Some(entry) => Some(entry.value_ref),
            None => None,
        }
    }

    /// Drops what is kept of the module `path`.
    pub fn forget(&mut self, path: &str)
        ensures
            final(self)@ == old(self)@.forgotten(path@),
    {
        self.module_cache.remove(path);
        self.module_jit.remove(path);
        assert(self@ =~= old(self)@.forgotten(path@));
    }

    /// Notes that the loading of `path` begins, unless it has begun before
    /// and not ended; tells whether it has.
    pub fn begin(&mut self, path: &str) -> (cycle: bool)
        ensures
            cycle == old(self)@.loading.contains(path@),
            final(self)@ == (if cycle {
                old(self)@
            } else {
                old(self)@.begun(path@)
            }),
    {
        if self.loading.contains(path) {
            true
        } else {
            self.loading.insert(path.to_owned());
            assert(self@ =~= old(self)@.begun(path@));
            false
        }
    }

    /// Notes that the loading of `path` has ended.
    pub fn end(&mut self, path: &str)
        ensures
            final(self)@ == old(self)@.ended(path@),
    {
        self.loading.remove(path);
        assert(self@ =~= old(self)@.ended(path@));
    }

    /// Keeps the module `path`.
    pub fn store(&mut self, path: &str, entry: ModuleCacheEntry, jit: bool)
        ensures
            final(self)@ == old(self)@.stored(path@, entry, jit),
    {
        self.module_cache.insert(path.to_owned(), entry);
        self.module_jit.insert(path.to_owned(), jit);
        assert(self@ =~= old(self)@.stored(path@, entry, jit));
    }

    /// Notes whether the entry file was compiled to native code.
    pub fn set_entry_jit(&mut self, jit: bool)
        ensures
            final(self)@ == old(self)@.jit_set(old(self)@.entry_file, jit),
    {
        let path = self.entry_file.clone();
        self.module_jit.insert(path, jit);
        assert(self@ =~= old(self)@.jit_set(old(self)@.entry_file, jit));
    }

    /// Whether the module `path` was compiled to native code.
    pub fn jit(&self, path: &str) -> (r: bool)
        ensures
            r == self@.jit(path@),
    {
        match self.module_jit.get(path) {
            Some(jit) => *jit,
            None => false,
        }
    }

    /// What is noted of the module `path`: whether its code is native.
    pub fn jit_noted(&self, path: &str) -> (r: Option<bool>)
        ensures
            r == self@.jit_noted(path@),
    {
        match self.module_jit.get(path) {
            Some(jit) => Some(*jit),
            None => None,
        }
    }

    /// Notes `noted`, or nothing, for the module `path`.
    pub fn restore_jit(&mut self, path: &str, noted: Option<bool>)
        ensures
            final(self)@ == old(self)@.jit_restored(path@, noted),
    {
        match noted {
            Some(jit) => self.module_jit.insert(path.to_owned(), jit),
            None => self.module_jit.remove(path),
        }
        assert(self@ =~= old(self)@.jit_restored(path@, noted));
    }

    /// The aliases of the `.luaurc` file `rc`, if its version `fp` has been
    /// read.
    pub fn luaurc(&self, rc: &str, fp: FileFingerprint) -> (r: Option<&TextMap<String>>)
        ensures
            match r {
                Some(aliases) => self@.luaurc_cache.contains_key(rc@) && self@.luaurc_cache[rc@].fp
                    == fp && aliases@ == self@.luaurc_cache[rc@].aliases,
                None => !(self@.luaurc_cache.contains_key(rc@) && self@.luaurc_cache[rc@].fp == fp),
            },
    {
        match self.luaurc_cache.get(rc) {
            Some(entry) => if entry.fp == fp {
                Some(&entry.aliases)
            } else {
                None
            },
            None => None,
        }
    }

    /// Keeps what was read from the `.luaurc` file `rc`.
    pub fn store_luaurc(&mut self, rc: String, entry: LuaurcCacheEntry)
        ensures
            final(self)@ == old(self)@.luaurc_read(rc@, entry@),
    {
        self.luaurc_cache.insert(rc, entry);
        assert(self@ =~= old(self)@.luaurc_read(rc@, entry@));
    }

    /// The references of all the modules that are kept.
    pub fn value_refs(&self) -> (r: Vec<i32>)
        ensures
            holds_all_refs(self@, r@),
    {
        let n: usize = self.module_cache.len();
        let ghost keys = self.module_cache.keys();
        let mut r: Vec<i32> = Vec::new();
        let mut i: usize = 0;
        while i < n
            invariant
                i <= n == keys.len(),
                keys == self.module_cache.keys(),
                r@.len() == i,
                forall|j: int| #![trigger r@[j]] 0 <= j < i ==> r@[j]
                    == self@.module_cache[keys[j]].value_ref,
            decreases n - i,
        {
            let (_, entry) = self.module_cache.entry(i);
            r.push(entry.value_ref);
            i += 1;
        }
        assert(lists_refs(self@, r@, keys));
        r
    }
}

/// Whether `refs` are the references of the modules `keys`, in that order,
/// and `keys` are all the modules that are kept, each once.
pub open spec fn lists_refs(rt: RuntimeView, refs: Seq<i32>, keys: Seq<Seq<char>>) -> bool {
    &&& keys.no_duplicates()
    &&& keys.to_set() == rt.module_cache.dom()
    &&& refs.len() == keys.len()
    &&& forall|i: int|
        #![trigger refs[i]]
        0 <= i < refs.len() ==> refs[i] == rt.module_cache[keys[i]].value_ref
}

/// Whether `refs` holds the reference of each module that is kept, once per
/// module, and no other.
pub open spec fn holds_all_refs(rt: RuntimeView, refs: Seq<i32>) -> bool {
    exists|keys: Seq<Seq<char>>| lists_refs(rt, refs, keys)
}

/// What a collection of runtimes stands for.
pub type RuntimesView = Map<usize, RuntimeView>;

/// The message of an operation on a state that has no runtime.
pub open spec fn no_runtime_message() -> Seq<char> {
    "runtime context is not initialized"@
}

/// `all` with the runtime of `l` changed to `rt`, if `l` has a runtime.
pub open spec fn updated(all: RuntimesView, l: usize, rt: RuntimeView) -> RuntimesView {
    if all.contains_key(l) {
        all.insert(l, rt)
    } else {
        all
    }
}

/// The runtimes, each under the handle of its Luau state.
pub struct Runtimes {
    all: HashMap<usize, RuntimeData>,
}

impl View for Runtimes {
    type V = Map<usize, RuntimeView>;

    closed spec fn view(&self) -> Map<usize, RuntimeView> {
        Map::new(|l: usize| self.all@.contains_key(l), |l: usize| self.all@[l]@)
    }
}

impl Runtimes {
    /// No runtime.
    pub fn new() -> (r: Runtimes)
        ensures
            r@ == Map::<usize, RuntimeView>::empty(),
    {
        let r = Runtimes { all: HashMap::new() };
        assert(r@ =~= Map::<usize, RuntimeView>::empty());
        r
    }

    /// The runtime of the state `l`.
    pub fn get(&self, l: usize) -> (r: Option<&RuntimeData>)
        ensures
            match r {
                Some(rt) => self@.contains_key(l) && rt@ == self@[l],
                None => !self@.contains_key(l),
            },
    {
        self.all.get(&l)
    }

    /// Takes the runtime of the state `l` out.
    pub fn take(&mut self, l: usize) -> (r: Option<RuntimeData>)
        ensures
            final(self)@ == old(self)@.remove(l),
            match r {
                Some(rt) => old(self)@.contains_key(l) && rt@ == old(self)@[l],
                None => !old(self)@.contains_key(l),
            },
    {
        let r = self.all.remove(&l);
        assert(self@ =~= old(self)@.remove(l));
        r
    }

    /// Makes `rt` the runtime of the state `l`.
    pub fn put(&mut self, l: usize, rt: RuntimeData)
        ensures
            final(self)@ == old(self)@.insert(l, rt@),
    {
        self.all.insert(l, rt);
        assert(self@ =~= old(self)@.insert(l, rt@));
    }
}

} // verus!
