//! The task scheduler: cooperative threads that are spawned, delayed, made to
//! wait and cancelled.
//!
//! The scheduler knows a thread by its handle and by the reference under
//! which the Luau state keeps it. Points in time are nanoseconds of a clock
//! that does not go back. The scheduler decides which threads are resumed and
//! which references are released; its host does so.
//!
//! A thread goes on for one reason at a time: it has not started, or it
//! waits. What was set for a reason that is past (a timer of a wait that a
//! script has cut short, or of a thread that has ended) stays set and makes
//! nothing go on.
use crate::luau;
use crate::scheduler_history::{after, Step};
use crate::timers::{count_due, lemma_count_due, sorted, with_timer, ScheduledTask, TaskKey, Timers};
use std::collections::{HashMap, VecDeque};
use std::hash::Hash;
use vstd::prelude::*;
use vstd::std_specs::hash::obeys_key_model;

verus! {

/// A thread that waits: since when, and until when.
#[derive(Clone, Copy, PartialEq, Eq, Structural, Debug)]
pub struct WaitInfo {
    pub start: u128,
    pub due: u128,
}

/// A thread that has not started: the number of the arguments that its
/// function starts with, and the time at which it is to start, if it is a
/// delayed one.
#[derive(Clone, Copy, PartialEq, Eq, Structural, Debug)]
pub struct StartInfo {
    pub args: i32,
    pub due: Option<u128>,
}

/// The longest delay: ten years of 365 days, in nanoseconds.
pub const MAX_DELAY_NS: u128 = 315_360_000_000_000_000;

/// The state of the scheduler.
pub struct Scheduler {
    next_delay_id: u64,
    ready: VecDeque<i32>,
    timers: Timers,
    waits: HashMap<i32, WaitInfo>,
    starts: HashMap<i32, StartInfo>,
    handed: HashMap<i32, ()>,
    delay_threads: HashMap<u64, i32>,
    thread_refs: HashMap<usize, i32>,
    canceled_threads: HashMap<i32, ()>,
}

/// What the state of the scheduler stands for.
#[verifier::ext_equal]
pub struct SchedulerView {
    /// The number of the next delayed task.
    pub next_delay_id: u64,
    /// The threads that were spawned, in order.
    pub ready: Seq<i32>,
    /// The timers that are set.
    pub timers: Seq<ScheduledTask>,
    /// The threads that wait.
    pub waits: Map<i32, WaitInfo>,
    /// The threads that have not started.
    pub starts: Map<i32, StartInfo>,
    /// The threads that were handed out to be resumed, and are not yet.
    pub handed: Set<i32>,
    /// The thread of each delayed task that has not ended.
    pub delay_threads: Map<u64, i32>,
    /// The reference of each thread.
    pub thread_refs: Map<usize, i32>,
    /// The threads that are cancelled.
    pub canceled_threads: Set<i32>,
}

/// A map to references but for the entries with the reference `r`.
pub open spec fn without_ref<K>(refs: Map<K, i32>, r: i32) -> Map<K, i32> {
    Map::new(|k: K| refs.contains_key(k) && refs[k] != r, |k: K| refs[k])
}

/// The number that follows a number of a delayed task; the numbers start
/// over at one.
pub open spec fn following_id(id: u64) -> u64 {
    if id == u64::MAX {
        1
    } else {
        (id + 1) as u64
    }
}

/// The number of a delayed task that a script names, if it can be one.
pub open spec fn delay_number(id: i64) -> Option<u64> {
    if id > 0 {
        Some(id as u64)
    } else {
        None
    }
}

impl SchedulerView {
    /// A scheduler in which nothing has happened yet.
    pub open spec fn fresh() -> SchedulerView {
        SchedulerView {
            next_delay_id: 1,
            ready: Seq::empty(),
            timers: Seq::empty(),
            waits: Map::empty(),
            starts: Map::empty(),
            handed: Set::empty(),
            delay_threads: Map::empty(),
            thread_refs: Map::empty(),
            canceled_threads: Set::empty(),
        }
    }

    /// Whether a thread may be to be resumed, now or later.
    pub open spec fn has_work(self) -> bool {
        self.ready.len() > 0 || self.timers.len() > 0
    }

    /// With a new thread under the reference `r`, which has not started.
    /// Nothing that was known under that reference is of this thread.
    pub open spec fn made(self, thread: usize, r: i32, start: StartInfo) -> SchedulerView {
        SchedulerView {
            waits: self.waits.remove(r),
            starts: self.starts.insert(r, start),
            handed: self.handed.remove(r),
            thread_refs: self.thread_refs.insert(thread, r),
            canceled_threads: self.canceled_threads.remove(r),
            ..self
        }
    }

    /// With a new thread that is to be resumed after those that are ready, and
    /// to start with `args` arguments.
    pub open spec fn spawned(self, thread: usize, r: i32, args: i32) -> SchedulerView {
        SchedulerView {
            ready: self.ready.push(r),
            ..self.made(thread, r, StartInfo { args, due: None })
        }
    }

    /// With a new thread that is to be resumed at `due`, and to start with
    /// `args` arguments. Its number stands for it alone.
    pub open spec fn delayed(self, due: u128, thread: usize, r: i32, args: i32) -> SchedulerView {
        let id = self.next_delay_id;
        SchedulerView {
            next_delay_id: following_id(id),
            delay_threads: self.delay_threads.insert(id, r),
            timers: with_timer(self.timers, ScheduledTask { due, key: TaskKey::DelayId(id) }),
            ..self.made(thread, r, StartInfo { args, due: Some(due) })
        }
    }

    /// The reference of a thread: the one that is known, or else `fresh_ref`.
    pub open spec fn ref_of(self, thread: usize, fresh_ref: i32) -> i32 {
        if self.thread_refs.contains_key(thread) {
            self.thread_refs[thread]
        } else {
            fresh_ref
        }
    }

    /// Whether a thread is known by its handle, zero being the handle of none.
    pub open spec fn knows(self, thread: usize) -> bool {
        thread != 0 && self.thread_refs.contains_key(thread)
    }

    /// With the thread `thread` known under the reference `r`.
    pub open spec fn registered(self, thread: usize, r: i32) -> SchedulerView {
        SchedulerView { thread_refs: self.thread_refs.insert(thread, r), ..self }
    }

    /// With the thread under `r`, which runs, waiting from `start` to `due`.
    /// Whatever else was to make it go on is past.
    pub open spec fn waiting(self, r: i32, start: u128, due: u128) -> SchedulerView {
        SchedulerView {
            waits: self.waits.insert(r, WaitInfo { start, due }),
            starts: self.starts.remove(r),
            handed: self.handed.remove(r),
            timers: with_timer(self.timers, ScheduledTask { due, key: TaskKey::ThreadRef(r) }),
            ..self
        }
    }

    /// With nothing known of the thread under `r`, whose reference is given
    /// up.
    pub open spec fn forgotten(self, r: i32) -> SchedulerView {
        SchedulerView {
            waits: self.waits.remove(r),
            starts: self.starts.remove(r),
            handed: self.handed.remove(r),
            delay_threads: without_ref(self.delay_threads, r),
            thread_refs: without_ref(self.thread_refs, r),
            canceled_threads: self.canceled_threads.remove(r),
            ..self
        }
    }

    /// With the thread under `r` resumed: it no longer waits, and has started.
    pub open spec fn resumed(self, r: i32) -> SchedulerView {
        SchedulerView {
            waits: self.waits.remove(r),
            starts: self.starts.remove(r),
            handed: self.handed.remove(r),
            ..self
        }
    }

    /// With the thread `thread` under `r` at its end.
    pub open spec fn ended(self, thread: usize, r: i32) -> SchedulerView {
        SchedulerView {
            waits: self.waits.remove(r),
            starts: self.starts.remove(r),
            handed: self.handed.remove(r),
            delay_threads: without_ref(self.delay_threads, r),
            thread_refs: self.thread_refs.remove(thread),
            canceled_threads: self.canceled_threads.remove(r),
            ..self
        }
    }

    /// With the thread under `r` cancelled.
    pub open spec fn thread_canceled(self, r: i32) -> SchedulerView {
        SchedulerView { canceled_threads: self.canceled_threads.insert(r), ..self }
    }

    /// With the delayed task `id` cancelled: its thread is, whether it has
    /// started or not. A number that stands for no task cancels nothing.
    pub open spec fn delay_canceled(self, id: u64) -> SchedulerView {
        if self.delay_threads.contains_key(id) {
            self.thread_canceled(self.delay_threads[id])
        } else {
            self
        }
    }

    /// With the thread under `r` handed out to be resumed.
    pub open spec fn handing(self, r: i32) -> SchedulerView {
        SchedulerView { handed: self.handed.insert(r), ..self }
    }

    /// How long the thread under `r`, resumed at `now`, has waited.
    pub open spec fn waited(self, r: i32, now: u128) -> Option<u128> {
        if !self.waits.contains_key(r) {
            None
        } else if now < self.waits[r].start {
            Some(0)
        } else {
            Some((now - self.waits[r].start) as u128)
        }
    }

    /// The number of the arguments that the thread under `r` starts with;
    /// none if it has started.
    pub open spec fn start_args(self, r: i32) -> i32 {
        if self.starts.contains_key(r) {
            self.starts[r].args
        } else {
            0
        }
    }

    /// With these threads ready and these timers set.
    pub open spec fn with_set(self, ready: Seq<i32>, timers: Seq<ScheduledTask>) -> SchedulerView {
        SchedulerView { ready, timers, ..self }
    }

    /// With no thread ready and no timer set.
    pub open spec fn unset(self) -> SchedulerView {
        self.with_set(Seq::empty(), Seq::empty())
    }
}

impl View for Scheduler {
    type V = SchedulerView;

    closed spec fn view(&self) -> SchedulerView {
        SchedulerView {
            next_delay_id: self.next_delay_id,
            ready: self.ready@,
            timers: self.timers@,
            waits: self.waits@,
            starts: self.starts@,
            handed: self.handed@.dom(),
            delay_threads: self.delay_threads@,
            thread_refs: self.thread_refs@,
            canceled_threads: self.canceled_threads@.dom(),
        }
    }
}

/// What may make a thread go on.
#[derive(Clone, Copy, PartialEq, Eq, Structural, Debug)]
pub enum Wake {
    /// Its place among the threads that were spawned.
    Place(i32),
    /// A timer that is due.
    Timer(ScheduledTask),
}

/// Whether `w` makes the thread under `r` go on: it has not been handed out
/// yet, and `w` is of its start, or of its wait.
pub open spec fn wakes(s: SchedulerView, w: Wake, r: i32) -> bool {
    !s.handed.contains(r) && match w {
        Wake::Place(q) => q == r && s.starts.contains_key(r) && s.starts[r].due is None,
        Wake::Timer(t) => match t.key {
            TaskKey::ThreadRef(q) => q == r && s.waits.contains_key(r) && s.waits[r].due == t.due,
            TaskKey::DelayId(id) => s.delay_threads.contains_key(id) && s.delay_threads[id] == r
                && s.starts.contains_key(r) && s.starts[r].due == Some(t.due),
        },
    }
}

/// The thread that `w` speaks of, if there is one.
pub open spec fn thread_of(s: SchedulerView, w: Wake) -> Option<i32> {
    match w {
        Wake::Place(r) => Some(r),
        Wake::Timer(t) => match t.key {
            TaskKey::ThreadRef(r) => Some(r),
            TaskKey::DelayId(id) => if s.delay_threads.contains_key(id) {
                Some(s.delay_threads[id])
            } else {
                None
            },
        },
    }
}

/// What comes of a reason for a thread to go on.
#[derive(Clone, Copy, PartialEq, Eq, Structural, Debug)]
pub enum Fired {
    /// The thread under this reference is to be resumed.
    Ready(i32),
    /// The thread under this reference was cancelled: the reference is to be
    /// released.
    Released(i32),
    /// Nothing: the reason is past.
    Nothing,
}

/// What comes of `w`.
pub open spec fn fired(s: SchedulerView, w: Wake) -> Fired {
    match thread_of(s, w) {
        Some(r) => if !wakes(s, w, r) {
            Fired::Nothing
        } else if s.canceled_threads.contains(r) {
            Fired::Released(r)
        } else {
            Fired::Ready(r)
        },
        None => Fired::Nothing,
    }
}

/// The scheduler once `w` has been dealt with.
pub open spec fn after_fired(s: SchedulerView, w: Wake) -> SchedulerView {
    match fired(s, w) {
        Fired::Ready(r) => s.handing(r),
        Fired::Released(r) => s.forgotten(r),
        Fired::Nothing => s,
    }
}

/// What comes of a number of reasons for threads to go on: the scheduler
/// then, the threads to be resumed and the references to be released.
#[verifier::ext_equal]
pub struct Taken {
    pub rest: SchedulerView,
    pub ready: Seq<i32>,
    pub released: Seq<i32>,
}

/// What comes of the reasons `list`, one after the other.
pub open spec fn taken(s: SchedulerView, list: Seq<Wake>) -> Taken
    decreases list.len(),
{
    if list.len() == 0 {
        Taken { rest: s, ready: Seq::empty(), released: Seq::empty() }
    } else {
        let p = taken(s, list.drop_last());
        let rest = after_fired(p.rest, list.last());
        match fired(p.rest, list.last()) {
            Fired::Ready(r) => Taken { rest, ready: p.ready.push(r), ..p },
            Fired::Released(r) => Taken { rest, released: p.released.push(r), ..p },
            Fired::Nothing => p,
        }
    }
}

/// The threads that were spawned, as reasons to go on.
pub open spec fn places(ready: Seq<i32>) -> Seq<Wake> {
    ready.map_values(|r: i32| Wake::Place(r))
}

/// The timers that are due at `now`, as reasons to go on.
pub open spec fn due_wakes(timers: Seq<ScheduledTask>, now: u128) -> Seq<Wake> {
    timers.take(count_due(timers, now)).map_values(|t: ScheduledTask| Wake::Timer(t))
}

/// What comes of the timers that are due at `now`. The threads that were
/// spawned stay.
pub open spec fn popped(s: SchedulerView, now: u128) -> Taken {
    let p = taken(s.unset(), due_wakes(s.timers, now));
    Taken { rest: p.rest.with_set(s.ready, s.timers.skip(count_due(s.timers, now))), ..p }
}

/// What comes of the threads that were spawned, and then of the timers that
/// are due at `now`.
pub open spec fn turn(s: SchedulerView, now: u128) -> Taken {
    let p = taken(s.unset(), places(s.ready) + due_wakes(s.timers, now));
    Taken { rest: p.rest.with_set(Seq::empty(), s.timers.skip(count_due(s.timers, now))), ..p }
}

/// To deal with two lists one after the other is to deal with both.
pub proof fn lemma_taken_both(s: SchedulerView, a: Seq<Wake>, b: Seq<Wake>)
    ensures
        ({
            let p = taken(s, a);
            let q = taken(p.rest, b);
            taken(s, a + b) == (Taken {
                rest: q.rest,
                ready: p.ready + q.ready,
                released: p.released + q.released,
            })
        }),
    decreases b.len(),
{
    let p = taken(s, a);
    if b.len() == 0 {
        assert(a + b =~= a);
        assert(p.ready + Seq::<i32>::empty() =~= p.ready);
        assert(p.released + Seq::<i32>::empty() =~= p.released);
    } else {
        lemma_taken_both(s, a, b.drop_last());
        let q = taken(p.rest, b.drop_last());
        assert((a + b).drop_last() =~= a + b.drop_last());
        assert((a + b).last() == b.last());
        assert forall|r: i32| (p.ready + q.ready).push(r) == p.ready + #[trigger] q.ready.push(
            r,
        ) by {
            assert((p.ready + q.ready).push(r) =~= p.ready + q.ready.push(r));
        }
        assert forall|r: i32| (p.released + q.released).push(r) == p.released
            + #[trigger] q.released.push(r) by {
            assert((p.released + q.released).push(r) =~= p.released + q.released.push(r));
        }
    }
}

/// What is ready and which timers are set makes no difference to what comes of
/// a reason, and is left as it is.
proof fn lemma_unset(s: SchedulerView, w: Wake)
    ensures
        fired(s.unset(), w) == fired(s, w),
        after_fired(s.unset(), w) == after_fired(s, w).unset(),
        after_fired(s, w).ready == s.ready,
        after_fired(s, w).timers == s.timers,
{
    match thread_of(s, w) {
        Some(r) => {
            assert(wakes(s.unset(), w, r) == wakes(s, w, r));
        },
        None => {},
    }
}

/// What the host of the scheduler does next.
#[verifier::ext_equal]
#[derive(PartialEq, Eq, Debug)]
pub enum Turn<L> {
    /// Resumes these threads, in order.
    Resume(L),
    /// Sleeps until this time.
    Sleep(u128),
    /// Nothing more: there is nothing left to run or to wait for.
    Idle,
}

impl View for Turn<Vec<i32>> {
    type V = Turn<Seq<i32>>;

    open spec fn view(&self) -> Turn<Seq<i32>> {
        match *self {
            Turn::Resume(v) => Turn::Resume(v@),
            Turn::Sleep(t) => Turn::Sleep(t),
            Turn::Idle => Turn::Idle,
        }
    }
}

/// The threads that are resumed at `now`: those that were spawned, then those
/// whose timers are due; in both, but for those that are cancelled.
pub open spec fn resumed_at(s: SchedulerView, now: u128) -> Seq<i32> {
    turn(s, now).ready
}

/// The references that are released at `now`: those of the threads that would
/// be resumed, were they not cancelled.
pub open spec fn released_at(s: SchedulerView, now: u128) -> Seq<i32> {
    turn(s, now).released
}

/// The scheduler once the threads that are to be resumed at `now` are taken.
pub open spec fn after_turn(s: SchedulerView, now: u128) -> SchedulerView {
    turn(s, now).rest
}

/// What the host does at `now` when it runs tasks until there are none.
pub open spec fn idle_turn(s: SchedulerView, now: u128) -> Turn<Seq<i32>> {
    let rest = after_turn(s, now);
    if resumed_at(s, now).len() > 0 {
        Turn::Resume(resumed_at(s, now))
    } else if rest.timers.len() > 0 {
        Turn::Sleep(rest.timers[0].due)
    } else {
        Turn::Idle
    }
}

/// What the host does at `now` while the main thread waits until `target`:
/// nothing once that is past.
pub open spec fn wait_turn(s: SchedulerView, now: u128, target: u128) -> Turn<Seq<i32>> {
    let rest = after_turn(s, now);
    if now >= target {
        Turn::Idle
    } else if resumed_at(s, now).len() > 0 {
        Turn::Resume(resumed_at(s, now))
    } else if rest.timers.len() > 0 && rest.timers[0].due < target {
        Turn::Sleep(rest.timers[0].due)
    } else {
        Turn::Sleep(target)
    }
}

/// How the resumption of a thread begins.
#[derive(Clone, Copy, PartialEq, Eq, Structural, Debug)]
pub enum Resumption {
    /// There is no such thread: its reference is to be released.
    Gone,
    /// The thread was cancelled: its reference is to be released.
    Canceled,
    /// The thread is resumed: one that has not started with the number of
    /// arguments of its function, and one that has waited is told for how
    /// long, in nanoseconds.
    Resume { args: i32, waited: Option<u128> },
}

/// How the resumption of the thread under `r`, whose handle is `thread`,
/// begins.
pub open spec fn resumption(s: SchedulerView, r: i32, thread: usize, now: u128) -> Resumption {
    if thread == 0 {
        Resumption::Gone
    } else if s.canceled_threads.contains(r) {
        Resumption::Canceled
    } else {
        Resumption::Resume { args: s.start_args(r), waited: s.waited(r, now) }
    }
}

/// The scheduler once the resumption of a thread has begun.
pub open spec fn after_resumption(s: SchedulerView, r: i32, thread: usize) -> SchedulerView {
    if thread == 0 {
        s
    } else if s.canceled_threads.contains(r) {
        s.forgotten(r)
    } else {
        s.resumed(r)
    }
}

/// How the resumption of a thread ends.
#[derive(Clone, Copy, PartialEq, Eq, Structural, Debug)]
pub enum Outcome {
    /// The thread has come to its end: its reference is to be released.
    Finished,
    /// The thread goes on later.
    Yielded,
    /// The thread has failed: the error is to be reported and its reference
    /// released.
    Failed,
}

/// How the resumption of a thread ends, by the status that it gave.
pub open spec fn outcome_of(status: i32) -> Outcome {
    if status == 0 {
        Outcome::Finished
    } else if status == luau::yield_status_value() {
        Outcome::Yielded
    } else {
        Outcome::Failed
    }
}

/// What is to be cancelled.
#[derive(Clone, Copy, PartialEq, Eq, Structural, Debug)]
pub enum CancelTarget {
    Thread,
    Delay,
    Nothing,
}

/// A map to references but for the entries with the reference `r`.
fn without_value<K: Copy + Eq + Hash>(refs: &HashMap<K, i32>, r: i32) -> (kept: HashMap<K, i32>)
    requires
        obeys_key_model::<K>(),
    ensures
        kept@ == without_ref(refs@, r),
{
    let ghost all = refs@;
    let mut kept: HashMap<K, i32> = HashMap::new();
    for k in it: refs.keys()
        invariant
            obeys_key_model::<K>(),
            all == refs@,
            it.seq().unref().to_set() == all.dom(),
            it.seq().len() == it.seq().unref().len(),
            kept@ == without_ref(all, r).restrict(it.seq().unref().take(it.index()).to_set()),
            it.index() == it.seq().len() ==> it.seq().unref().take(it.index()) == it.seq().unref(),
    {
        let ghost keys = it.seq().unref();
        let ghost i = it.index();
        assert(keys[i] == *k);
        assert(keys.to_set().contains(*k)) by {
            assert(keys.contains(keys[i]));
        }
        proof {
            assert(keys.take(i + 1) =~= keys.take(i).push(*k));
            keys.take(i).lemma_push_to_set_commute(*k);
            assert(keys.take(keys.len() as int) =~= keys);
        }
        if let Some(q) = refs.get(k) {
            if *q != r {
                kept.insert(*k, *q);
            }
        }
        assert(kept@ =~= without_ref(all, r).restrict(keys.take(i + 1).to_set()));
    }
    assert(without_ref(all, r).restrict(all.dom()) =~= without_ref(all, r));
    kept
}

impl Scheduler {
    /// A scheduler in which nothing has happened yet.
    pub fn new() -> (s: Scheduler)
        ensures
            s@ == SchedulerView::fresh(),
    {
        let s = Scheduler {
            next_delay_id: 1,
            ready: VecDeque::new(),
            timers: Timers::new(),
            waits: HashMap::new(),
            starts: HashMap::new(),
            handed: HashMap::new(),
            delay_threads: HashMap::new(),
            thread_refs: HashMap::new(),
            canceled_threads: HashMap::new(),
        };
        assert(s@ =~= SchedulerView::fresh());
        s
    }

    /// Whether a thread is to be resumed, now or later.
    pub fn has_work(&self) -> (r: bool)
        ensures
            r == self@.has_work(),
    {
        self.ready.len() > 0 || !self.timers.is_empty()
    }

    /// The time at which the next timer is due.
    pub fn next_due(&self) -> (r: Option<u128>)
        ensures
            match r {
                Some(due) => self@.timers.len() > 0 && due == self@.timers[0].due && forall|i: int|
                    0 <= i < self@.timers.len() ==> due <= (#[trigger] self@.timers[i]).due,
                None => self@.timers.len() == 0,
            },
            sorted(self@.timers),
    {
        self.timers.next_due()
    }

    /// Notes a new thread.
    fn make(&mut self, thread: usize, thread_ref: i32, start: StartInfo)
        ensures
            final(self)@ == old(self)@.made(thread, thread_ref, start),
    {
        self.waits.remove(&thread_ref);
        self.starts.insert(thread_ref, start);
        self.handed.remove(&thread_ref);
        self.thread_refs.insert(thread, thread_ref);
        self.canceled_threads.remove(&thread_ref);
        assert(self@ =~= old(self)@.made(thread, thread_ref, start));
    }

    /// Queues a new thread, whose function starts with `args` arguments.
    pub fn spawn(&mut self, thread: usize, thread_ref: i32, args: i32)
        ensures
            final(self)@ == old(self)@.spawned(thread, thread_ref, args),
    {
        self.make(thread, thread_ref, StartInfo { args, due: None });
        self.ready.push_back(thread_ref);
        assert(self@ =~= old(self)@.spawned(thread, thread_ref, args));
    }

    /// Sets a timer for a new thread, whose function starts with `args`
    /// arguments, and gives the number of the delayed task.
    pub fn delay(
        &mut self,
        now: u128,
        duration: u128,
        thread: usize,
        thread_ref: i32,
        args: i32,
    ) -> (id: u64)
        requires
            now + duration <= u128::MAX,
        ensures
            id == old(self)@.next_delay_id,
            final(self)@ == old(self)@.delayed((now + duration) as u128, thread, thread_ref, args),
            sorted(final(self)@.timers),
    {
        let due: u128 = now + duration;
        let id: u64 = self.next_delay_id;
        self.next_delay_id = if id == u64::MAX {
            1
        } else {
            id + 1
        };
        self.make(thread, thread_ref, StartInfo { args, due: Some(due) });
        self.delay_threads.insert(id, thread_ref);
        self.timers.push(ScheduledTask { due, key: TaskKey::DelayId(id) });
        assert(self@ =~= old(self)@.delayed(due, thread, thread_ref, args));
        id
    }

    /// The reference of a thread, if it is known.
    pub fn known_ref(&self, thread: usize) -> (r: Option<i32>)
        ensures
            r == (if self@.thread_refs.contains_key(thread) {
                Some(self@.thread_refs[thread])
            } else {
                None
            }),
    {
        match self.thread_refs.get(&thread) {
            Some(r) => Some(*r),
            None => None,
        }
    }

    /// Lets a thread, which then has to yield, wait. A thread that is not
    /// known yet becomes known under `fresh_ref`. Gives the reference under
    /// which the thread waits.
    pub fn wait(&mut self, now: u128, duration: u128, thread: usize, fresh_ref: i32) -> (r: i32)
        requires
            now + duration <= u128::MAX,
        ensures
            r == old(self)@.ref_of(thread, fresh_ref),
            final(self)@ == old(self)@.registered(thread, r).waiting(
                r,
                now,
                (now + duration) as u128,
            ),
            sorted(final(self)@.timers),
    {
        let r: i32 = match self.known_ref(thread) {
            Some(r) => r,
            None => fresh_ref,
        };
        let due: u128 = now + duration;
        self.thread_refs.insert(thread, r);
        self.waits.insert(r, WaitInfo { start: now, due });
        self.starts.remove(&r);
        self.handed.remove(&r);
        self.timers.push(ScheduledTask { due, key: TaskKey::ThreadRef(r) });
        assert(self@ =~= old(self)@.registered(thread, r).waiting(r, now, due));
        r
    }

    /// Cancels a thread, zero being the handle of none; tells whether it is
    /// known.
    pub fn cancel_thread(&mut self, thread: usize) -> (r: bool)
        ensures
            r == (thread != 0 && old(self)@.thread_refs.contains_key(thread)),
            r == old(self)@.knows(thread),
            final(self)@ == (if r {
                old(self)@.thread_canceled(old(self)@.thread_refs[thread])
            } else {
                old(self)@
            }),
            final(self)@ == after(old(self)@, Step::CancelThread { thread }),
    {
        if thread == 0 {
            return false;
        }
        let thread_ref: i32 = match self.thread_refs.get(&thread) {
            Some(r) => *r,
            None => {
                return false;
            },
        };
        self.canceled_threads.insert(thread_ref, ());
        assert(self@ =~= old(self)@.thread_canceled(thread_ref));
        true
    }

    /// Cancels a delayed task, whether it has started or not; tells whether
    /// `id` can be the number of one.
    pub fn cancel_delay(&mut self, id: i64) -> (r: bool)
        ensures
            r == (id > 0),
            match delay_number(id) {
                Some(n) => r && final(self)@ == after(old(self)@, Step::CancelDelay { id: n }),
                None => !r && final(self)@ == old(self)@,
            },
            final(self)@ == (if id > 0 {
                old(self)@.delay_canceled(id as u64)
            } else {
                old(self)@
            }),
            id > 0 ==> final(self)@ == after(old(self)@, Step::CancelDelay { id: id as u64 }),
    {
        if id <= 0 {
            return false;
        }
        let number: u64 = id as u64;
        if let Some(r) = self.delay_threads.get(&number) {
            self.canceled_threads.insert(*r, ());
        }
        assert(self@ =~= old(self)@.delay_canceled(number));
        true
    }

    /// Drops what is known of the thread under `thread_ref`.
    fn forget(&mut self, thread_ref: i32)
        ensures
            final(self)@ == old(self)@.forgotten(thread_ref),
    {
        self.waits.remove(&thread_ref);
        self.starts.remove(&thread_ref);
        self.handed.remove(&thread_ref);
        self.canceled_threads.remove(&thread_ref);
        self.delay_threads = without_value(&self.delay_threads, thread_ref);
        self.thread_refs = without_value(&self.thread_refs, thread_ref);
        assert(self@ =~= old(self)@.forgotten(thread_ref));
    }

    /// The thread that `w` makes go on, if it does.
    fn woken(&self, w: Wake) -> (r: Option<i32>)
        ensures
            match r {
                Some(q) => thread_of(self@, w) == Some(q) && wakes(self@, w, q),
                None => thread_of(self@, w) matches Some(q) ==> !wakes(self@, w, q),
            },
    {
        match w {
            Wake::Place(r) => {
                if self.handed.contains_key(&r) {
                    return None;
                }
                match self.starts.get(&r) {
                    Some(start) => if start.due.is_none() {
                        Some(r)
                    } else {
                        None
                    },
                    None => None,
                }
            },
            Wake::Timer(t) => match t.key {
                TaskKey::ThreadRef(r) => {
                    if self.handed.contains_key(&r) {
                        return None;
                    }
                    match self.waits.get(&r) {
                        Some(wait) => if wait.due == t.due {
                            Some(r)
                        } else {
                            None
                        },
                        None => None,
                    }
                },
                TaskKey::DelayId(id) => {
                    let r: i32 = match self.delay_threads.get(&id) {
                        Some(r) => *r,
                        None => {
                            return None;
                        },
                    };
                    if self.handed.contains_key(&r) {
                        return None;
                    }
                    match self.starts.get(&r) {
                        Some(start) => match start.due {
                            Some(due) => if due == t.due {
                                Some(r)
                            } else {
                                None
                            },
                            None => None,
                        },
                        None => None,
                    }
                },
            },
        }
    }

    /// Deals with `w`, and adds the thread to those that are to be resumed, or
    /// to those that are to be released.
    fn fire(&mut self, w: Wake, ready: &mut Vec<i32>, released: &mut Vec<i32>)
        ensures
            final(self)@ == after_fired(old(self)@, w),
            final(ready)@ == (match fired(old(self)@, w) {
                Fired::Ready(r) => old(ready)@.push(r),
                _ => old(ready)@,
            }),
            final(released)@ == (match fired(old(self)@, w) {
                Fired::Released(r) => old(released)@.push(r),
                _ => old(released)@,
            }),
    {
        if let Some(r) = self.woken(w) {
            if self.canceled_threads.contains_key(&r) {
                self.forget(r);
                released.push(r);
            } else {
                self.handed.insert(r, ());
                assert(self@ =~= old(self)@.handing(r));
                ready.push(r);
            }
        }
    }

    /// Deals with all the timers that are due: gives the threads to be
    /// resumed and the references to be released.
    pub fn pop_due(&mut self, now: u128) -> (r: (Vec<i32>, Vec<i32>))
        ensures
            popped(old(self)@, now) == (Taken {
                rest: final(self)@,
                ready: r.0@,
                released: r.1@,
            }),
            sorted(final(self)@.timers),
    {
        let mut ready: Vec<i32> = Vec::new();
        let mut released: Vec<i32> = Vec::new();
        let ghost s = self@;
        let ghost list = due_wakes(s.timers, now);
        let ghost end = count_due(s.timers, now);
        let ghost mut n: int = 0;
        proof {
            lemma_count_due(s.timers, now);
            assert(list.take(0) =~= Seq::<Wake>::empty());
            assert(s.timers.skip(0) =~= s.timers);
        }
        loop
            invariant
                0 <= n <= end <= s.timers.len(),
                end == count_due(s.timers, now),
                list == due_wakes(s.timers, now),
                forall|i: int| 0 <= i < end ==> (#[trigger] s.timers[i]).due <= now,
                end < s.timers.len() ==> s.timers[end].due > now,
                self@.ready == s.ready,
                self@.timers == s.timers.skip(n),
                taken(s.unset(), list.take(n)) == (Taken {
                    rest: self@.unset(),
                    ready: ready@,
                    released: released@,
                }),
            ensures
                n == end,
                self@.ready == s.ready,
                self@.timers == s.timers.skip(n),
                taken(s.unset(), list.take(n)) == (Taken {
                    rest: self@.unset(),
                    ready: ready@,
                    released: released@,
                }),
                sorted(self@.timers),
            decreases end - n,
        {
            let ghost before = self@;
            let t = match self.timers.pop(now) {
                None => {
                    assert(self@ =~= before);
                    assert(n < end ==> before.timers[0] == s.timers[n]);
                    break ;
                },
                Some(t) => t,
            };
            proof {
                assert(before.timers[0] == s.timers[n]);
                assert(n < end);
                assert(before.timers.drop_first() =~= s.timers.skip(n + 1));
                assert(list[n] == Wake::Timer(t));
                assert(list.take(n + 1).drop_last() =~= list.take(n));
                assert(self@.unset() =~= before.unset());
                lemma_unset(self@, Wake::Timer(t));
            }
            self.fire(Wake::Timer(t), &mut ready, &mut released);
            proof {
                n = n + 1;
            }
        }
        proof {
            assert(list.take(end) =~= list);
            assert(self@ =~= self@.unset().with_set(s.ready, s.timers.skip(end)));
        }
        (ready, released)
    }

    /// Takes the threads that are to be resumed at `now`, and the references
    /// that are to be released.
    fn take_ready(&mut self, now: u128) -> (r: (Vec<i32>, Vec<i32>))
        ensures
            turn(old(self)@, now) == (Taken {
                rest: final(self)@,
                ready: r.0@,
                released: r.1@,
            }),
            sorted(final(self)@.timers),
    {
        let mut ready: Vec<i32> = Vec::new();
        let mut released: Vec<i32> = Vec::new();
        let ghost s = self@;
        let ghost list = places(s.ready);
        let ghost mut n: int = 0;
        proof {
            assert(list.take(0) =~= Seq::<Wake>::empty());
            assert(s.ready.skip(0) =~= s.ready);
        }
        loop
            invariant
                0 <= n <= s.ready.len(),
                list == places(s.ready),
                self@.ready == s.ready.skip(n),
                self@.timers == s.timers,
                taken(s.unset(), list.take(n)) == (Taken {
                    rest: self@.unset(),
                    ready: ready@,
                    released: released@,
                }),
            ensures
                n == s.ready.len(),
                self@.ready == Seq::<i32>::empty(),
                self@.timers == s.timers,
                taken(s.unset(), list.take(n)) == (Taken {
                    rest: self@.unset(),
                    ready: ready@,
                    released: released@,
                }),
            decreases s.ready.len() - n,
        {
            let ghost before = self@;
            let r: i32 = match self.ready.pop_front() {
                None => {
                    assert(self@ =~= before);
                    break ;
                },
                Some(r) => r,
            };
            proof {
                assert(r == s.ready[n]);
                assert(before.ready.drop_first() =~= s.ready.skip(n + 1));
                assert(list[n] == Wake::Place(r));
                assert(list.take(n + 1).drop_last() =~= list.take(n));
                assert(self@.unset() =~= before.unset());
                lemma_unset(self@, Wake::Place(r));
            }
            self.fire(Wake::Place(r), &mut ready, &mut released);
            proof {
                n = n + 1;
            }
        }
        proof {
            assert(list.take(n) =~= list);
            lemma_taken_both(s.unset(), list, due_wakes(s.timers, now));
        }
        let (mut due, mut gone) = self.pop_due(now);
        ready.append(&mut due);
        released.append(&mut gone);
        (ready, released)
    }

    /// What the host does at `now` when it runs tasks until there are none,
    /// and the references that are to be released before.
    pub fn run_until_idle(&mut self, now: u128) -> (r: (Turn<Vec<i32>>, Vec<i32>))
        ensures
            r.0@ == idle_turn(old(self)@, now),
            r.1@ == released_at(old(self)@, now),
            final(self)@ == after_turn(old(self)@, now),
            sorted(final(self)@.timers),
    {
        let (ready, released) = self.take_ready(now);
        if ready.len() > 0 {
            return (Turn::Resume(ready), released);
        }
        match self.next_due() {
            Some(next) => (Turn::Sleep(next), released),
            None => (Turn::Idle, released),
        }
    }

    /// What the host does at `now` while the main thread waits until
    /// `target`, and the references that are to be released before. Once the
    /// wait is over the scheduler is left alone.
    pub fn wait_on_main(&mut self, now: u128, target: u128) -> (r: (Turn<Vec<i32>>, Vec<i32>))
        ensures
            r.0@ == wait_turn(old(self)@, now, target),
            now < target ==> r.1@ == released_at(old(self)@, now) && final(self)@ == after_turn(
                old(self)@,
                now,
            ) && sorted(final(self)@.timers),
            now >= target ==> r.1@.len() == 0 && final(self)@ == old(self)@,
    {
        if now >= target {
            return (Turn::Idle, Vec::new());
        }
        let (ready, released) = self.take_ready(now);
        if ready.len() > 0 {
            return (Turn::Resume(ready), released);
        }
        match self.next_due() {
            Some(next) => if next < target {
                (Turn::Sleep(next), released)
            } else {
                (Turn::Sleep(target), released)
            },
            None => (Turn::Sleep(target), released),
        }
    }

    /// Begins to resume the thread under `thread_ref`, whose handle is
    /// `thread`, or zero if there is none; then nothing changes. A thread that
    /// was cancelled since it was due is not resumed.
    pub fn begin_resume(&mut self, thread_ref: i32, thread: usize, now: u128) -> (r: Resumption)
        ensures
            r == resumption(old(self)@, thread_ref, thread, now),
            final(self)@ == after_resumption(old(self)@, thread_ref, thread),
    {
        if thread == 0 {
            return Resumption::Gone;
        }
        if self.canceled_threads.contains_key(&thread_ref) {
            self.forget(thread_ref);
            return Resumption::Canceled;
        }
        let wait = self.waits.remove(&thread_ref);
        let args: i32 = match self.starts.remove(&thread_ref) {
            Some(start) => start.args,
            None => 0,
        };
        self.handed.remove(&thread_ref);
        assert(self@ =~= old(self)@.resumed(thread_ref));
        let waited = match wait {
            Some(w) => if now < w.start {
                Some(0)
            } else {
                Some(now - w.start)
            },
            None => None,
        };
        Resumption::Resume { args, waited }
    }

    /// Ends the resumption of a thread, by the status that it gave. A thread
    /// that does not go on is forgotten.
    pub fn end_resume(&mut self, thread_ref: i32, thread: usize, status: i32) -> (r: Outcome)
        ensures
            r == outcome_of(status),
            final(self)@ == (if r == Outcome::Yielded {
                old(self)@
            } else {
                old(self)@.ended(thread, thread_ref)
            }),
    {
        if status == luau::yield_status() {
            return Outcome::Yielded;
        }
        self.thread_refs.remove(&thread);
        self.waits.remove(&thread_ref);
        self.starts.remove(&thread_ref);
        self.handed.remove(&thread_ref);
        self.canceled_threads.remove(&thread_ref);
        self.delay_threads = without_value(&self.delay_threads, thread_ref);
        assert(self@ =~= old(self)@.ended(thread, thread_ref));
        if status == 0 {
            Outcome::Finished
        } else {
            Outcome::Failed
        }
    }
}

/// How many values a thread is resumed with.
pub open spec fn values_on_resume(status: i32, held: i32, args: i32, waited: bool) -> int {
    if waited {
        1
    } else if status == luau::yield_status_value() || held <= 0 {
        0
    } else if args < held {
        args as int
    } else {
        held - 1
    }
}

/// What `task.cancel` is asked to cancel.
pub open spec fn target_of(top: i32, tag: i32) -> CancelTarget {
    if top < 1 {
        CancelTarget::Nothing
    } else if tag == luau::thread_tag_value() {
        CancelTarget::Thread
    } else if tag == luau::number_tag_value() {
        CancelTarget::Delay
    } else {
        CancelTarget::Nothing
    }
}

/// The length of a delay in nanoseconds.
pub open spec fn bounded_delay(positive_ns: Option<u128>) -> u128 {
    match positive_ns {
        None => 0,
        Some(ns) => if ns < MAX_DELAY_NS {
            ns
        } else {
            MAX_DELAY_NS
        },
    }
}

/// How long to sleep at `now` until `deadline`.
pub open spec fn sleep_length(deadline: u128, now: u128) -> Option<u128> {
    if deadline <= now {
        None
    } else {
        Some((deadline - now) as u128)
    }
}

/// A sleep of `ns` nanoseconds as a waitable timer takes it.
pub open spec fn timer_units(ns: u128) -> Option<int> {
    if ns == 0 {
        None
    } else if ns < 100 {
        Some(-1int)
    } else {
        Some(-((ns / 100) as int))
    }
}

/// What is reported of a task that has failed.
pub open spec fn task_error_line(error: Option<Seq<char>>) -> Seq<char> {
    "[TASK ERROR] "@ + (match error {
        Some(m) => m,
        None => "unknown"@,
    })
}

/// How many values a thread is resumed with, by its status before and the
/// number of the values on its stack: one that has waited gets the time, one
/// that has not started gets the arguments of its function, which stand above
/// it, and one that has yielded for another reason gets none. A thread that
/// its script has run to the end has no arguments left.
pub fn resume_count(status: i32, held: i32, args: i32, waited: Option<u128>) -> (r: i32)
    ensures
        r == (if waited is Some {
            1
        } else if status == luau::yield_status_value() || held <= 0 {
            0
        } else if args < held {
            args as int
        } else {
            held - 1
        }),
        r == values_on_resume(status, held, args, waited is Some),
{
    if waited.is_some() {
        1
    } else if status == luau::yield_status() || held <= 0 {
        0
    } else if args < held {
        args
    } else {
        held - 1
    }
}

/// What `task.cancel` is asked to cancel, by the number of its arguments and
/// the type tag of the first.
pub fn cancel_target(top: i32, tag: i32) -> (r: CancelTarget)
    ensures
        r == (if top < 1 {
            CancelTarget::Nothing
        } else if tag == luau::thread_tag_value() {
            CancelTarget::Thread
        } else if tag == luau::number_tag_value() {
            CancelTarget::Delay
        } else {
            CancelTarget::Nothing
        }),
        r == target_of(top, tag),
{
    if top < 1 {
        CancelTarget::Nothing
    } else if tag == luau::thread_tag() {
        CancelTarget::Thread
    } else if tag == luau::number_tag() {
        CancelTarget::Delay
    } else {
        CancelTarget::Nothing
    }
}

/// The length of a delay in nanoseconds: none for one that is not a positive
/// number of seconds, and at most ten years.
pub fn delay_length(positive_ns: Option<u128>) -> (r: u128)
    ensures
        r == (match positive_ns {
            None => 0,
            Some(ns) => if ns < MAX_DELAY_NS {
                ns
            } else {
                MAX_DELAY_NS
            },
        }),
        r == bounded_delay(positive_ns),
{
    match positive_ns {
        None => 0,
        Some(ns) => if ns < MAX_DELAY_NS {
            ns
        } else {
            MAX_DELAY_NS
        },
    }
}

/// How long to sleep at `now` until `deadline`; not at all once it is past.
pub fn sleep_until(deadline: u128, now: u128) -> (r: Option<u128>)
    ensures
        r == (if deadline <= now {
            None
        } else {
            Some((deadline - now) as u128)
        }),
        r == sleep_length(deadline, now),
{
    if deadline <= now {
        None
    } else {
        Some(deadline - now)
    }
}

/// A sleep of `ns` nanoseconds as a waitable timer takes it: a negative
/// number of units of 100 nanoseconds, at least one; none for no sleep.
pub fn waitable_timer_due(ns: u128) -> (r: Option<i64>)
    requires
        ns / 100 <= i64::MAX,
    ensures
        r == (if ns == 0 {
            None
        } else if ns < 100 {
            Some(-1i64)
        } else {
            Some((-((ns / 100) as int)) as i64)
        }),
        match r {
            Some(units) => timer_units(ns) == Some(units as int),
            None => timer_units(ns) is None,
        },
{
    if ns == 0 {
        return None;
    }
    let units: i64 = (ns / 100) as i64;
    if units == 0 {
        Some(-1)
    } else {
        Some(-units)
    }
}

/// What is reported of a task that has failed.
pub fn task_error(error: Option<&str>) -> (r: String)
    ensures
        r@ == "[TASK ERROR] "@ + (match error {
            Some(m) => m@,
            None => "unknown"@,
        }),
        r@ == task_error_line(
            match error {
                Some(m) => Some(m@),
                None => None,
            },
        ),
{
    let mut line = "[TASK ERROR] ".to_owned();
    match error {
        Some(m) => line.append(m),
        None => line.append("unknown"),
    }
    line
}

} // verus!
