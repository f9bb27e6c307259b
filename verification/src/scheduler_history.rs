//! What holds of the task scheduler over any number of steps.
use crate::scheduler_laws::{
    at_rest, goes_on, law_due_timers_are_taken, law_resumed_when_due, law_timers_in_order,
    lemma_taken, numbered,
};
use crate::task_scheduler::{
    after_fired, after_resumption, after_turn, due_wakes, fired, following_id, outcome_of, places,
    released_at, resumed_at, resumption, taken, thread_of, wakes, Fired, Outcome,
    Resumption, SchedulerView, StartInfo, WaitInfo, Wake,
};
use crate::timers::{count_due, lemma_with_timer, sorted, with_timer, ScheduledTask, TaskKey};
use vstd::prelude::*;

verus! {

/// What can happen to the scheduler.
pub enum Step {
    Spawn { thread: usize, r: i32, args: i32 },
    Delay { due: u128, thread: usize, r: i32, args: i32 },
    Wait { thread: usize, fresh_ref: i32, start: u128, due: u128 },
    CancelThread { thread: usize },
    CancelDelay { id: u64 },
    /// The threads that are to be resumed are taken.
    Turn { now: u128 },
    Begin { r: i32, thread: usize },
    End { r: i32, thread: usize, status: i32 },
}

/// The scheduler after one step.
pub open spec fn after(s: SchedulerView, step: Step) -> SchedulerView {
    match step {
        Step::Spawn { thread, r, args } => s.spawned(thread, r, args),
        Step::Delay { due, thread, r, args } => s.delayed(due, thread, r, args),
        Step::Wait { thread, fresh_ref, start, due } => {
            let r = s.ref_of(thread, fresh_ref);
            s.registered(thread, r).waiting(r, start, due)
        },
        Step::CancelThread { thread } => if thread != 0 && s.thread_refs.contains_key(thread) {
            s.thread_canceled(s.thread_refs[thread])
        } else {
            s
        },
        Step::CancelDelay { id } => s.delay_canceled(id),
        Step::Turn { now } => after_turn(s, now),
        Step::Begin { r, thread } => after_resumption(s, r, thread),
        Step::End { r, thread, status } => if outcome_of(status) == Outcome::Yielded {
            s
        } else {
            s.ended(thread, r)
        },
    }
}

/// The threads that a step hands out to be resumed.
pub open spec fn handed_out(s: SchedulerView, step: Step) -> Seq<i32> {
    match step {
        Step::Turn { now } => resumed_at(s, now),
        _ => Seq::empty(),
    }
}

/// The thread that a step resumes, if it does.
pub open spec fn run_by(s: SchedulerView, step: Step) -> Option<i32> {
    match step {
        Step::Begin { r, thread } => if resumption(s, r, thread, 0) is Resume {
            Some(r)
        } else {
            None
        },
        _ => None,
    }
}

/// Whether a step releases the reference `r`: a turn does, or a resumption
/// that does not take place as the thread was cancelled.
pub open spec fn releases(s: SchedulerView, step: Step, r: i32) -> bool {
    match step {
        Step::Turn { now } => released_at(s, now).contains(r),
        Step::Begin { r: q, thread } => q == r && resumption(s, q, thread, 0) == Resumption::Canceled,
        _ => false,
    }
}

/// The scheduler after a number of steps.
pub open spec fn history(s: SchedulerView, steps: Seq<Step>) -> SchedulerView
    decreases steps.len(),
{
    if steps.len() == 0 {
        s
    } else {
        after(history(s, steps.drop_last()), steps.last())
    }
}

/// The threads that a number of steps hand out to be resumed, in order.
pub open spec fn resumed_over(s: SchedulerView, steps: Seq<Step>) -> Seq<i32>
    decreases steps.len(),
{
    if steps.len() == 0 {
        Seq::empty()
    } else {
        resumed_over(s, steps.drop_last()) + handed_out(
            history(s, steps.drop_last()),
            steps.last(),
        )
    }
}

/// Whether one of a number of steps resumes the thread under `r`.
pub open spec fn runs_over(s: SchedulerView, steps: Seq<Step>, r: i32) -> bool
    decreases steps.len(),
{
    steps.len() > 0 && (runs_over(s, steps.drop_last(), r) || run_by(
        history(s, steps.drop_last()),
        steps.last(),
    ) == Some(r))
}

/// Whether one of a number of steps releases the reference `r`.
pub open spec fn releases_over(s: SchedulerView, steps: Seq<Step>, r: i32) -> bool
    decreases steps.len(),
{
    steps.len() > 0 && (releases_over(s, steps.drop_last(), r) || releases(
        history(s, steps.drop_last()),
        steps.last(),
        r,
    ))
}

/// Whether a step is one of the thread under `r`: it is made, waits, is
/// resumed or ends.
pub open spec fn concerns(s: SchedulerView, step: Step, r: i32) -> bool {
    match step {
        Step::Spawn { r: q, .. } => q == r,
        Step::Delay { r: q, .. } => q == r,
        Step::Wait { thread, fresh_ref, .. } => s.ref_of(thread, fresh_ref) == r,
        Step::Begin { r: q, .. } => q == r,
        Step::End { r: q, .. } => q == r,
        _ => false,
    }
}

/// Whether none of the steps is one of the thread under `r`.
pub open spec fn leave_alone(s: SchedulerView, steps: Seq<Step>, r: i32) -> bool
    decreases steps.len(),
{
    steps.len() == 0 || leave_alone(s, steps.drop_last(), r) && !concerns(
        history(s, steps.drop_last()),
        steps.last(),
        r,
    )
}

/// Whether all the turns among the steps are before `due`.
pub open spec fn turns_before(steps: Seq<Step>, due: u128) -> bool {
    forall|i: int|
        0 <= i < steps.len() ==> ((#[trigger] steps[i]) matches Step::Turn { now } ==> now < due)
}

/// How many delayed tasks are made.
pub open spec fn delays_in(steps: Seq<Step>) -> nat
    decreases steps.len(),
{
    if steps.len() == 0 {
        0
    } else {
        delays_in(steps.drop_last()) + if steps.last() is Delay {
            1nat
        } else {
            0nat
        }
    }
}

/// The number `n` places behind `id`.
pub open spec fn id_behind(id: u64, n: nat) -> int {
    if id + n <= u64::MAX {
        id + n
    } else {
        id + n - u64::MAX
    }
}

/// The timers are sorted after every history.
pub proof fn law_timers_stay_sorted(s: SchedulerView, steps: Seq<Step>)
    requires
        sorted(s.timers),
    ensures
        sorted(SchedulerView::fresh().timers),
        sorted(history(s, steps).timers),
    decreases steps.len(),
{
    if steps.len() > 0 {
        let h = history(s, steps.drop_last());
        law_timers_stay_sorted(s, steps.drop_last());
        match steps.last() {
            Step::Delay { due, .. } => {
                lemma_with_timer(
                    h.timers,
                    ScheduledTask { due, key: TaskKey::DelayId(h.next_delay_id) },
                );
            },
            Step::Wait { thread, fresh_ref, due, .. } => {
                let r = h.ref_of(thread, fresh_ref);
                lemma_with_timer(h.timers, ScheduledTask { due, key: TaskKey::ThreadRef(r) });
            },
            Step::Turn { now } => {
                law_due_timers_are_taken(h, now);
            },
            _ => {},
        }
    }
}

/// Only a delayed task takes a number, and it takes the next one.
proof fn lemma_next_id(s: SchedulerView, steps: Seq<Step>)
    requires
        s.next_delay_id >= 1,
        delays_in(steps) < u64::MAX,
    ensures
        history(s, steps).next_delay_id == id_behind(s.next_delay_id, delays_in(steps)),
    decreases steps.len(),
{
    if steps.len() > 0 {
        let t = history(s, steps.drop_last());
        lemma_next_id(s, steps.drop_last());
        match steps.last() {
            Step::Turn { now } => {
                lemma_taken(t.unset(), places(t.ready) + due_wakes(t.timers, now), 0);
            },
            _ => {},
        }
    }
}

/// More steps make no fewer delayed tasks.
proof fn lemma_delays_in(steps: Seq<Step>, i: int, j: int)
    requires
        0 <= i <= j <= steps.len(),
    ensures
        delays_in(steps.take(i)) <= delays_in(steps.take(j)),
    decreases j - i,
{
    if i < j {
        lemma_delays_in(steps, i, j - 1);
        assert(steps.take(j).drop_last() =~= steps.take(j - 1));
    }
}

/// The number of a delayed task is positive and differs from the number of
/// every delayed task before it, as long as fewer than the greatest number
/// were made.
pub proof fn law_delay_numbers_differ(s: SchedulerView, steps: Seq<Step>, i: int, j: int)
    requires
        s.next_delay_id >= 1,
        0 <= i < j < steps.len(),
        steps[i] is Delay,
        steps[j] is Delay,
        delays_in(steps) <= u64::MAX,
    ensures
        SchedulerView::fresh().next_delay_id >= 1,
        history(s, steps.take(i)).next_delay_id >= 1,
        history(s, steps.take(j)).next_delay_id >= 1,
        history(s, steps.take(i)).next_delay_id != history(s, steps.take(j)).next_delay_id,
{
    assert(steps.take(i + 1).drop_last() =~= steps.take(i));
    assert(steps.take(j + 1).drop_last() =~= steps.take(j));
    assert(steps.take(steps.len() as int) =~= steps);
    lemma_delays_in(steps, i + 1, j);
    lemma_delays_in(steps, j + 1, steps.len() as int);
    lemma_next_id(s, steps.take(i));
    lemma_next_id(s, steps.take(j));
}

/// A step of a delayed task takes the number that is next, and sets one timer.
pub proof fn law_delay_takes_next_number(s: SchedulerView, due: u128, thread: usize, r: i32, args: i32)
    ensures
        ({
            let t = after(s, Step::Delay { due, thread, r, args });
            let id = s.next_delay_id;
            &&& t.delay_threads == s.delay_threads.insert(id, r)
            &&& t.timers == with_timer(
                s.timers,
                ScheduledTask { due, key: TaskKey::DelayId(id) },
            )
            &&& t.ready == s.ready
            &&& t.next_delay_id == following_id(id)
        }),
{
}

/// The timer that is set is among the timers, and so are those that were.
proof fn lemma_timer_set(timers: Seq<ScheduledTask>, t: ScheduledTask, u: ScheduledTask)
    requires
        sorted(timers),
    ensures
        with_timer(timers, t).contains(t),
        timers.contains(u) ==> with_timer(timers, t).contains(u),
{
    let all = with_timer(timers, t);
    let n = count_due(timers, t.due);
    law_timers_in_order(timers, t);
    assert(all[n] == t);
    if timers.contains(u) {
        let k = choose|k: int| 0 <= k < timers.len() && timers[k] == u;
        assert(all[if k < n {
            k
        } else {
            k + 1
        }] == u);
    }
}

/// A step of others leaves a timer that is not due, and what is known of a
/// thread that it does not make go on.
proof fn lemma_left_alone(s: SchedulerView, step: Step, r: i32, t: ScheduledTask)
    requires
        sorted(s.timers),
        !concerns(s, step, r),
        s.timers.contains(t),
        step matches Step::Turn { now } ==> now < t.due && !goes_on(s, now, r),
    ensures
        ({
            let a = after(s, step);
            &&& sorted(a.timers)
            &&& a.timers.contains(t)
            &&& a.handed.contains(r) == s.handed.contains(r)
            &&& a.waits.contains_key(r) == s.waits.contains_key(r)
            &&& s.waits.contains_key(r) ==> a.waits[r] == s.waits[r]
            &&& a.starts.contains_key(r) == s.starts.contains_key(r)
            &&& s.starts.contains_key(r) ==> a.starts[r] == s.starts[r]
            &&& !handed_out(s, step).contains(r)
            &&& !releases(s, step, r)
        }),
{
    let a = after(s, step);
    law_timers_stay_sorted(s, seq![step]);
    assert(seq![step].drop_last() =~= Seq::<Step>::empty());
    assert(history(s, seq![step].drop_last()) == s);
    match step {
        Step::Turn { now } => {
            law_resumed_when_due(s, now, r);
            law_due_timers_are_taken(s, now);
            let n = count_due(s.timers, now);
            let k = choose|k: int| 0 <= k < s.timers.len() && s.timers[k] == t;
            assert(s.timers[k].due > now);
            assert(a.timers[k - n] == t);
        },
        Step::Delay { due, .. } => {
            let new = ScheduledTask { due, key: TaskKey::DelayId(s.next_delay_id) };
            lemma_timer_set(s.timers, new, t);
        },
        Step::Wait { thread, fresh_ref, due, .. } => {
            let q = s.ref_of(thread, fresh_ref);
            lemma_timer_set(s.timers, ScheduledTask { due, key: TaskKey::ThreadRef(q) }, t);
        },
        _ => {},
    }
}

/// Whether the thread under `r` waits, from `start` to `due`.
pub open spec fn waits_for(s: SchedulerView, r: i32, start: u128, due: u128) -> bool {
    &&& sorted(s.timers)
    &&& s.timers.contains(ScheduledTask { due, key: TaskKey::ThreadRef(r) })
    &&& s.waits.contains_key(r)
    &&& s.waits[r] == (WaitInfo { start, due })
    &&& !s.starts.contains_key(r)
    &&& !s.handed.contains(r)
}

/// A wait goes on through the steps of others, until it is over.
proof fn lemma_waits_on(s: SchedulerView, steps: Seq<Step>, r: i32, start: u128, due: u128)
    requires
        waits_for(s, r, start, due),
        leave_alone(s, steps, r),
        turns_before(steps, due),
    ensures
        waits_for(history(s, steps), r, start, due),
        !resumed_over(s, steps).contains(r),
    decreases steps.len(),
{
    if steps.len() > 0 {
        let front = steps.drop_last();
        let h = history(s, front);
        let step = steps.last();
        assert forall|i: int| 0 <= i < front.len() implies ((#[trigger] front[i]) matches Step::Turn {
            now,
        } ==> now < due) by {
            assert(steps[i] == front[i]);
        }
        lemma_waits_on(s, front, r, start, due);
        assert(steps[steps.len() - 1] == step);
        lemma_left_alone(h, step, r, ScheduledTask { due, key: TaskKey::ThreadRef(r) });
        lemma_both(resumed_over(s, front), handed_out(h, step), r);
    }
}

/// What two lists hold together.
proof fn lemma_both(a: Seq<i32>, b: Seq<i32>, r: i32)
    ensures
        (a + b).contains(r) <==> a.contains(r) || b.contains(r),
{
    let c = a + b;
    if a.contains(r) {
        let k = choose|k: int| 0 <= k < a.len() && a[k] == r;
        assert(c[k] == r);
    }
    if b.contains(r) {
        let k = choose|k: int| 0 <= k < b.len() && b[k] == r;
        assert(c[a.len() + k] == r);
    }
    if c.contains(r) {
        let k = choose|k: int| 0 <= k < c.len() && c[k] == r;
        if k < a.len() {
            assert(a[k] == r);
        } else {
            assert(b[k - a.len()] == r);
        }
    }
}

/// A wait lasts exactly as long as was asked for. Whatever happened before,
/// and whatever else happens meanwhile, no turn hands out a thread that waits
/// before its time has come; the first turn then does, unless the thread was
/// cancelled, and the thread is told how long it has waited. If it was
/// cancelled its reference is released instead.
pub proof fn law_wait_lasts(
    s: SchedulerView,
    thread: usize,
    fresh_ref: i32,
    start: u128,
    due: u128,
    meanwhile: Seq<Step>,
    now: u128,
)
    requires
        sorted(s.timers),
        turns_before(meanwhile, due),
        leave_alone(
            after(s, Step::Wait { thread, fresh_ref, start, due }),
            meanwhile,
            s.ref_of(thread, fresh_ref),
        ),
    ensures
        ({
            let r = s.ref_of(thread, fresh_ref);
            let w = after(s, Step::Wait { thread, fresh_ref, start, due });
            let h = history(w, meanwhile);
            let marked = h.canceled_threads.contains(r);
            &&& !resumed_over(w, meanwhile).contains(r)
            &&& resumed_at(h, now).contains(r) <==> now >= due && !marked
            &&& released_at(h, now).contains(r) <==> now >= due && marked
            &&& now >= due && now >= start && !marked && thread != 0 ==> resumption(
                after_turn(h, now),
                r,
                thread,
                now,
            ) == (Resumption::Resume { args: 0, waited: Some((now - start) as u128) })
        }),
{
    let r = s.ref_of(thread, fresh_ref);
    let w = after(s, Step::Wait { thread, fresh_ref, start, due });
    let h = history(w, meanwhile);
    let t = ScheduledTask { due, key: TaskKey::ThreadRef(r) };
    lemma_with_timer(s.timers, t);
    lemma_timer_set(s.timers, t, t);
    lemma_waits_on(w, meanwhile, r, start, due);
    law_resumed_when_due(h, now, r);
    let k = choose|k: int| 0 <= k < h.timers.len() && h.timers[k] == t;
    assert(wakes(h, Wake::Timer(h.timers[k]), r));
    assert(goes_on(h, now, r) <==> now >= due) by {
        if now >= due {
            assert(h.timers[k].due <= now);
        }
    }
}

/// Whether the delayed task `id` of the thread under `r` is to start at `due`.
pub open spec fn starts_at(s: SchedulerView, r: i32, id: u64, due: u128, args: i32) -> bool {
    &&& sorted(s.timers)
    &&& s.timers.contains(ScheduledTask { due, key: TaskKey::DelayId(id) })
    &&& numbered(s, id, r)
    &&& s.starts.contains_key(r)
    &&& s.starts[r] == (StartInfo { args, due: Some(due) })
    &&& !s.waits.contains_key(r)
    &&& !s.handed.contains(r)
}

/// A delay goes on through the steps of others, until it is over.
proof fn lemma_delay_goes_on(
    s: SchedulerView,
    steps: Seq<Step>,
    r: i32,
    id: u64,
    due: u128,
    args: i32,
)
    requires
        starts_at(s, r, id, due, args),
        1 <= id,
        s.next_delay_id == following_id(id),
        delays_in(steps) < u64::MAX,
        leave_alone(s, steps, r),
        turns_before(steps, due),
    ensures
        starts_at(history(s, steps), r, id, due, args),
        !resumed_over(s, steps).contains(r),
    decreases steps.len(),
{
    if steps.len() > 0 {
        let front = steps.drop_last();
        let h = history(s, front);
        let step = steps.last();
        assert forall|i: int| 0 <= i < front.len() implies ((#[trigger] front[i]) matches Step::Turn {
            now,
        } ==> now < due) by {
            assert(steps[i] == front[i]);
        }
        lemma_delay_goes_on(s, front, r, id, due, args);
        assert(steps[steps.len() - 1] == step);
        let t = ScheduledTask { due, key: TaskKey::DelayId(id) };
        lemma_left_alone(h, step, r, t);
        lemma_next_id(s, front);
        lemma_number_stays(h, step, r, id);
        lemma_both(resumed_over(s, front), handed_out(h, step), r);
    }
}

/// A step keeps the number of a delayed task, unless it gives the number anew,
/// releases the thread or is its end.
proof fn lemma_number_stays(s: SchedulerView, step: Step, r: i32, id: u64)
    requires
        sorted(s.timers),
        numbered(s, id, r),
        step is Delay ==> s.next_delay_id != id,
        step matches Step::End { r: q, .. } ==> q != r,
        !releases(s, step, r),
    ensures
        numbered(after(s, step), id, r),
{
    match step {
        Step::Turn { now } => {
            law_resumed_when_due(s, now, r);
            assert(numbered(after_turn(s, now), id, r) == numbered(s, id, r));
        },
        _ => {},
    }
}

/// A delayed task starts exactly when its delay is over. Whatever happened
/// before, and whatever else happens meanwhile, no turn hands it out before;
/// the first turn then does, unless it was cancelled, and its function starts
/// with its arguments. If it was cancelled its reference is released instead.
pub proof fn law_delay_lasts(
    s: SchedulerView,
    due: u128,
    thread: usize,
    r: i32,
    args: i32,
    meanwhile: Seq<Step>,
    now: u128,
)
    requires
        sorted(s.timers),
        s.next_delay_id >= 1,
        delays_in(meanwhile) < u64::MAX,
        turns_before(meanwhile, due),
        leave_alone(after(s, Step::Delay { due, thread, r, args }), meanwhile, r),
    ensures
        ({
            let d = after(s, Step::Delay { due, thread, r, args });
            let h = history(d, meanwhile);
            let marked = h.canceled_threads.contains(r);
            &&& !resumed_over(d, meanwhile).contains(r)
            &&& resumed_at(h, now).contains(r) <==> now >= due && !marked
            &&& released_at(h, now).contains(r) <==> now >= due && marked
            &&& now >= due && !marked && thread != 0 ==> resumption(
                after_turn(h, now),
                r,
                thread,
                now,
            ) == (Resumption::Resume { args, waited: None })
        }),
{
    let id = s.next_delay_id;
    let d = after(s, Step::Delay { due, thread, r, args });
    let h = history(d, meanwhile);
    let t = ScheduledTask { due, key: TaskKey::DelayId(id) };
    lemma_with_timer(s.timers, t);
    lemma_timer_set(s.timers, t, t);
    lemma_delay_goes_on(d, meanwhile, r, id, due, args);
    law_resumed_when_due(h, now, r);
    let k = choose|k: int| 0 <= k < h.timers.len() && h.timers[k] == t;
    assert(wakes(h, Wake::Timer(h.timers[k]), r));
    assert(goes_on(h, now, r) <==> now >= due) by {
        if now >= due {
            assert(h.timers[k].due <= now);
        }
    }
}

/// A spawned thread is handed out by the next turn, whatever happened before
/// and whatever else happens meanwhile, unless it was cancelled; its function
/// then starts with its arguments, once. If it was cancelled its reference is
/// released instead.
pub proof fn law_spawned_thread_starts(
    s: SchedulerView,
    thread: usize,
    r: i32,
    args: i32,
    meanwhile: Seq<Step>,
    now: u128,
)
    requires
        sorted(s.timers),
        turns_before(meanwhile, 0),
        leave_alone(after(s, Step::Spawn { thread, r, args }), meanwhile, r),
    ensures
        ({
            let t = after(s, Step::Spawn { thread, r, args });
            let h = history(t, meanwhile);
            let marked = h.canceled_threads.contains(r);
            &&& resumed_at(h, now).contains(r) <==> !marked
            &&& released_at(h, now).contains(r) <==> marked
            &&& !marked && thread != 0 ==> resumption(after_turn(h, now), r, thread, now) == (
            Resumption::Resume { args, waited: None }) && resumption(
                after_resumption(after_turn(h, now), r, thread),
                r,
                thread,
                now,
            ) == (Resumption::Resume { args: 0, waited: None })
        }),
{
    let t = after(s, Step::Spawn { thread, r, args });
    let h = history(t, meanwhile);
    assert(t.ready[s.ready.len() as int] == r);
    lemma_place_stays(t, meanwhile, r, args);
    law_timers_stay_sorted(t, meanwhile);
    law_resumed_when_due(h, now, r);
    assert(wakes(h, Wake::Place(r), r));
}

/// A place among the threads that were spawned stays until the next turn.
proof fn lemma_place_stays(s: SchedulerView, steps: Seq<Step>, r: i32, args: i32)
    requires
        s.ready.contains(r),
        s.starts.contains_key(r),
        s.starts[r] == (StartInfo { args, due: None }),
        !s.waits.contains_key(r),
        !s.handed.contains(r),
        leave_alone(s, steps, r),
        turns_before(steps, 0),
    ensures
        ({
            let h = history(s, steps);
            &&& h.ready.contains(r)
            &&& h.starts.contains_key(r)
            &&& h.starts[r] == (StartInfo { args, due: None })
            &&& !h.waits.contains_key(r)
            &&& !h.handed.contains(r)
        }),
    decreases steps.len(),
{
    if steps.len() > 0 {
        let front = steps.drop_last();
        let h = history(s, front);
        assert forall|i: int| 0 <= i < front.len() implies ((#[trigger] front[i]) matches Step::Turn {
            now,
        } ==> now < 0) by {
            assert(steps[i] == front[i]);
        }
        lemma_place_stays(s, front, r, args);
        assert(steps[steps.len() - 1] == steps.last());
        if let Step::Spawn { r: q, .. } = steps.last() {
            let k = choose|k: int| 0 <= k < h.ready.len() && h.ready[k] == r;
            assert(h.ready.push(q)[k] == r);
        }
    }
}

/// Cancelling cancels: by a handle the thread that is known under it, by a
/// number the thread of the delayed task, whether it has started or not.
pub proof fn law_cancel_marks(s: SchedulerView, thread: usize, id: u64, r: i32)
    ensures
        thread != 0 && s.thread_refs.contains_key(thread) ==> after(
            s,
            Step::CancelThread { thread },
        ).canceled_threads.contains(s.thread_refs[thread]),
        numbered(s, id, r) ==> after(s, Step::CancelDelay { id }).canceled_threads.contains(r),
{
}

/// The number of a delayed task stands for its thread until the thread ends or
/// its reference is released, as long as the numbers have not started over.
pub proof fn law_number_stands_for_its_task(
    s: SchedulerView,
    due: u128,
    thread: usize,
    r: i32,
    args: i32,
    steps: Seq<Step>,
)
    requires
        sorted(s.timers),
        s.next_delay_id >= 1,
        delays_in(steps) < u64::MAX,
        forall|i: int|
            0 <= i < steps.len() ==> ((#[trigger] steps[i]) matches Step::End { r: q, .. } ==> q
                != r),
    ensures
        ({
            let d = after(s, Step::Delay { due, thread, r, args });
            releases_over(d, steps, r) || numbered(history(d, steps), s.next_delay_id, r)
        }),
    decreases steps.len(),
{
    let d = after(s, Step::Delay { due, thread, r, args });
    if steps.len() > 0 {
        let front = steps.drop_last();
        let h = history(d, front);
        assert forall|i: int| 0 <= i < front.len() implies ((#[trigger] front[i]) matches Step::End {
            r: q,
            ..
        } ==> q != r) by {
            assert(steps[i] == front[i]);
        }
        law_number_stands_for_its_task(s, due, thread, r, args, front);
        assert(steps[steps.len() - 1] == steps.last());
        if !releases_over(d, steps, r) {
            lemma_with_timer(
                s.timers,
                ScheduledTask { due, key: TaskKey::DelayId(s.next_delay_id) },
            );
            law_timers_stay_sorted(d, front);
            lemma_next_id(d, front);
            lemma_number_stays(h, steps.last(), r, s.next_delay_id);
        }
    }
}

/// Whether a step makes a thread go on under `r` that is not cancelled: one
/// that is made under this reference, or waits, or is resumed without having
/// been handed out.
pub open spec fn renews(s: SchedulerView, step: Step, r: i32) -> bool {
    match step {
        Step::Spawn { r: q, .. } => q == r,
        Step::Delay { r: q, .. } => q == r,
        Step::Wait { thread, fresh_ref, .. } => s.ref_of(thread, fresh_ref) == r
            && !s.canceled_threads.contains(r),
        Step::Begin { r: q, .. } => q == r && !s.handed.contains(r) && !s.canceled_threads.contains(
            r,
        ),
        _ => false,
    }
}

/// Whether none of the steps makes a thread go on under `r` that is not
/// cancelled.
pub open spec fn renew_nothing(s: SchedulerView, steps: Seq<Step>, r: i32) -> bool
    decreases steps.len(),
{
    steps.len() == 0 || renew_nothing(s, steps.drop_last(), r) && !renews(
        history(s, steps.drop_last()),
        steps.last(),
        r,
    )
}

/// A task that was cancelled never runs: whatever happened before and whatever
/// happens later, no turn hands its thread out, and if one had done so before
/// the thread is not resumed. This holds until the reference is given to
/// another thread, or a script that resumes the thread itself lets it wait
/// once more after its cancellation is used up.
pub proof fn law_cancelled_task_never_runs(s: SchedulerView, steps: Seq<Step>, r: i32)
    requires
        sorted(s.timers),
        s.canceled_threads.contains(r),
        renew_nothing(s, steps, r),
    ensures
        !resumed_over(s, steps).contains(r),
        !runs_over(s, steps, r),
        history(s, steps).canceled_threads.contains(r) || at_rest(history(s, steps), r),
    decreases steps.len(),
{
    if steps.len() > 0 {
        let front = steps.drop_last();
        let h = history(s, front);
        let step = steps.last();
        law_cancelled_task_never_runs(s, front, r);
        law_timers_stay_sorted(s, front);
        lemma_both(resumed_over(s, front), handed_out(h, step), r);
        match step {
            Step::Turn { now } => {
                law_resumed_when_due(h, now, r);
            },
            _ => {},
        }
    }
}

/// Once the time of a task has passed, a turn leaves no timer of it, cancelled
/// or not: it does not keep the host from coming to an end.
pub proof fn law_task_does_not_linger(s: SchedulerView, now: u128, t: ScheduledTask)
    requires
        sorted(s.timers),
        t.due <= now,
    ensures
        after_turn(s, now).ready.len() == 0,
        !after_turn(s, now).timers.contains(t),
{
    law_due_timers_are_taken(s, now);
}

/// The threads but for the one under `r`.
pub open spec fn other_than(r: i32) -> spec_fn(i32) -> bool {
    |q: i32| q != r
}

/// A list without the thread under `r`.
pub open spec fn others(list: Seq<i32>, r: i32) -> Seq<i32> {
    list.filter(other_than(r))
}

/// Reasons deal with the other threads as if nothing were known of the thread
/// under `r`.
proof fn lemma_taken_without(s: SchedulerView, list: Seq<Wake>, r: i32)
    ensures
        taken(s.forgotten(r), list).rest == taken(s, list).rest.forgotten(r),
        taken(s.forgotten(r), list).ready == others(taken(s, list).ready, r),
    decreases list.len(),
{
    reveal(Seq::filter);
    if list.len() > 0 {
        let front = list.drop_last();
        let w = list.last();
        let p = taken(s, front);
        let q = taken(s.forgotten(r), front);
        lemma_taken_without(s, front, r);
        assert forall|x: i32| #[trigger] p.ready.push(x).drop_last() == p.ready by {
            assert(p.ready.push(x).drop_last() =~= p.ready);
        }
        lemma_fired_without(p.rest, w, r);
    }
}

/// A reason deals with another thread as if nothing were known of the thread
/// under `r`.
proof fn lemma_fired_without(s: SchedulerView, w: Wake, r: i32)
    ensures
        after_fired(s.forgotten(r), w) == after_fired(s, w).forgotten(r),
        fired(s.forgotten(r), w) == (match fired(s, w) {
            Fired::Ready(q) => if q == r {
                Fired::Nothing
            } else {
                Fired::Ready(q)
            },
            Fired::Released(q) => if q == r {
                Fired::Nothing
            } else {
                Fired::Released(q)
            },
            Fired::Nothing => Fired::Nothing,
        }),
{
    let f = s.forgotten(r);
    match thread_of(s, w) {
        Some(q) => {
            if q == r {
                assert(s.handing(r).forgotten(r) =~= f);
                assert(f.forgotten(r) =~= f);
            } else {
                assert(thread_of(f, w) == Some(q));
                assert(wakes(f, w, q) == wakes(s, w, q));
                assert(s.handing(q).forgotten(r) =~= f.handing(q));
                assert(s.forgotten(q).forgotten(r) =~= f.forgotten(q));
            }
        },
        None => {},
    }
}

/// A step of others goes as if nothing were known of the thread under `r`.
proof fn lemma_step_without(s: SchedulerView, step: Step, r: i32)
    requires
        !concerns(s, step, r),
    ensures
        after(s.forgotten(r), step) == after(s, step).forgotten(r),
        handed_out(s.forgotten(r), step) == others(handed_out(s, step), r),
{
    let f = s.forgotten(r);
    let a = after(s, step).forgotten(r);
    reveal(Seq::filter);
    match step {
        Step::Spawn { .. } => {
            assert(after(f, step) =~= a);
        },
        Step::Delay { .. } => {
            assert(after(f, step) =~= a);
        },
        Step::Wait { thread, fresh_ref, .. } => {
            assert(f.ref_of(thread, fresh_ref) == s.ref_of(thread, fresh_ref));
            assert(after(f, step) =~= a);
        },
        Step::CancelThread { .. } => {
            assert(after(f, step) =~= a);
        },
        Step::CancelDelay { .. } => {
            assert(after(f, step) =~= a);
        },
        Step::Turn { now } => {
            let list = places(s.ready) + due_wakes(s.timers, now);
            assert(f.unset() =~= s.unset().forgotten(r));
            lemma_taken_without(s.unset(), list, r);
            assert(after(f, step) =~= a);
        },
        Step::Begin { .. } => {
            assert(after(f, step) =~= a);
        },
        Step::End { .. } => {
            assert(after(f, step) =~= a);
        },
    }
}

/// The other tasks run as if there were no thread under `r`: the same are
/// handed out, in the same order, whatever happens.
pub proof fn law_others_run_as_without(s: SchedulerView, steps: Seq<Step>, r: i32)
    requires
        leave_alone(s, steps, r),
    ensures
        others(resumed_over(s, steps), r) == resumed_over(s.forgotten(r), steps),
        history(s.forgotten(r), steps) == history(s, steps).forgotten(r),
    decreases steps.len(),
{
    reveal(Seq::filter);
    if steps.len() > 0 {
        let front = steps.drop_last();
        let h = history(s, front);
        law_others_run_as_without(s, front, r);
        lemma_step_without(h, steps.last(), r);
        Seq::filter_distributes_over_add(
            resumed_over(s, front),
            handed_out(h, steps.last()),
            other_than(r),
        );
    }
}

/// To cancel a spawned or waiting thread by its handle is final, whatever
/// happened before: if it is known it never runs, and the other tasks run as
/// if it had never been.
pub proof fn law_cancelled_thread_never_runs(s: SchedulerView, thread: usize, later: Seq<Step>)
    requires
        sorted(s.timers),
        thread != 0,
        s.thread_refs.contains_key(thread),
        renew_nothing(after(s, Step::CancelThread { thread }), later, s.thread_refs[thread]),
    ensures
        ({
            let r = s.thread_refs[thread];
            let c = after(s, Step::CancelThread { thread });
            &&& !resumed_over(c, later).contains(r)
            &&& !runs_over(c, later, r)
            &&& leave_alone(c, later, r) ==> others(resumed_over(c, later), r) == resumed_over(
                s.forgotten(r),
                later,
            )
        }),
{
    let r = s.thread_refs[thread];
    let c = after(s, Step::CancelThread { thread });
    law_cancelled_task_never_runs(c, later, r);
    if leave_alone(c, later, r) {
        law_others_run_as_without(c, later, r);
    }
    assert(c.forgotten(r) =~= s.forgotten(r));
}

/// To cancel a delayed task by its number before its delay is over is final,
/// whatever happened before and whatever else happened meanwhile: it never
/// runs, and the other tasks run as if it had never been.
pub proof fn law_cancelled_delay_never_runs(
    s: SchedulerView,
    due: u128,
    thread: usize,
    r: i32,
    args: i32,
    meanwhile: Seq<Step>,
    later: Seq<Step>,
)
    requires
        sorted(s.timers),
        s.next_delay_id >= 1,
        delays_in(meanwhile) < u64::MAX,
        turns_before(meanwhile, due),
        leave_alone(after(s, Step::Delay { due, thread, r, args }), meanwhile, r),
        ({
            let h = history(after(s, Step::Delay { due, thread, r, args }), meanwhile);
            renew_nothing(after(h, Step::CancelDelay { id: s.next_delay_id }), later, r)
        }),
    ensures
        ({
            let d = after(s, Step::Delay { due, thread, r, args });
            let h = history(d, meanwhile);
            let c = after(h, Step::CancelDelay { id: s.next_delay_id });
            &&& !resumed_over(d, meanwhile).contains(r)
            &&& !resumed_over(c, later).contains(r)
            &&& !runs_over(c, later, r)
            &&& leave_alone(c, later, r) ==> others(resumed_over(c, later), r) == resumed_over(
                h.forgotten(r),
                later,
            )
        }),
{
    let id = s.next_delay_id;
    let d = after(s, Step::Delay { due, thread, r, args });
    let h = history(d, meanwhile);
    let c = after(h, Step::CancelDelay { id });
    let t = ScheduledTask { due, key: TaskKey::DelayId(id) };
    lemma_with_timer(s.timers, t);
    lemma_timer_set(s.timers, t, t);
    lemma_delay_goes_on(d, meanwhile, r, id, due, args);
    law_cancelled_task_never_runs(c, later, r);
    if leave_alone(c, later, r) {
        law_others_run_as_without(c, later, r);
    }
    assert(c.forgotten(r) =~= h.forgotten(r));
}

} // verus!
