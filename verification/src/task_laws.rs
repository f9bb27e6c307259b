//! What holds of single tasks: the numbers and times that they are given, what
//! they are resumed with, and that one leaves the others alone.
use crate::scheduler_history::{after, Step};
use crate::scheduler_laws::{law_due_timers_are_taken, numbered, same_thread};
use crate::task_scheduler::{
    after_resumption, after_turn, bounded_delay, delay_number, due_wakes, fired, following_id,
    idle_turn, outcome_of, places, popped, released_at, resumed_at, resumption, sleep_length, taken,
    target_of, task_error_line, timer_units, values_on_resume, wait_turn, CancelTarget, Fired,
    Outcome, Resumption, SchedulerView, Turn, Wake,
};
use crate::timers::{count_due, sorted, with_timer, ScheduledTask, TaskKey};
use vstd::prelude::*;

verus! {

/// The threads that a step is about, by their references.
pub open spec fn about(s: SchedulerView, step: Step, r: i32) -> bool {
    match step {
        Step::Spawn { r: q, .. } => q == r,
        Step::Delay { r: q, .. } => q == r,
        Step::Wait { thread, fresh_ref, .. } => s.ref_of(thread, fresh_ref) == r,
        Step::CancelThread { thread } => s.thread_refs.contains_key(thread) && s.thread_refs[thread]
            == r,
        Step::CancelDelay { id } => numbered(s, id, r),
        Step::Turn { .. } => true,
        Step::Begin { r: q, .. } => q == r,
        Step::End { r: q, .. } => q == r,
    }
}

/// What happens to one thread leaves all others alone: whether and how they
/// wait, are to start, are handed out or cancelled, and which numbers stand for
/// them, as long as the numbers have not started over.
pub proof fn law_other_threads_are_left_alone(s: SchedulerView, step: Step, r: i32)
    requires
        !about(s, step, r),
        step is Delay ==> !numbered(s, s.next_delay_id, r),
    ensures
        same_thread(after(s, step), s, r),
        after(s, step).handed.contains(r) == s.handed.contains(r),
{
    let t = after(s, step);
    assert forall|id: u64| #[trigger] numbered(t, id, r) == numbered(s, id, r) by {}
}

/// Only a spawned thread takes a place among those that are ready, behind all
/// others; only a delay and a wait set a timer, for the time that was asked
/// for; and only a turn takes any of them away.
pub proof fn law_places_and_timers(s: SchedulerView, step: Step)
    requires
        !(step is Turn),
    ensures
        after(s, step).ready == (match step {
            Step::Spawn { r, .. } => s.ready.push(r),
            _ => s.ready,
        }),
        after(s, step).timers == (match step {
            Step::Delay { due, .. } => with_timer(
                s.timers,
                ScheduledTask { due, key: TaskKey::DelayId(s.next_delay_id) },
            ),
            Step::Wait { thread, fresh_ref, due, .. } => with_timer(
                s.timers,
                ScheduledTask {
                    due,
                    key: TaskKey::ThreadRef(
                        if s.thread_refs.contains_key(thread) {
                            s.thread_refs[thread]
                        } else {
                            fresh_ref
                        },
                    ),
                },
            ),
            _ => s.timers,
        }),
        after(s, step).next_delay_id == (match step {
            Step::Delay { .. } => if s.next_delay_id < u64::MAX {
                (s.next_delay_id + 1) as u64
            } else {
                1
            },
            _ => s.next_delay_id,
        }),
{
}

/// Delayed tasks are numbered from one on, one after the other; behind the
/// greatest number comes one again.
pub proof fn law_numbers_of_delays(id: u64)
    ensures
        SchedulerView::fresh().next_delay_id == 1,
        id < u64::MAX ==> following_id(id) == id + 1,
        following_id(u64::MAX) == 1,
{
}

/// Nothing is known in a new scheduler, and it has nothing to do.
pub proof fn law_new_scheduler(thread: usize, r: i32, id: u64, now: u128)
    ensures
        ({
            let s = SchedulerView::fresh();
            &&& s.ready.len() == 0
            &&& s.timers.len() == 0
            &&& !s.has_work()
            &&& !s.waits.contains_key(r)
            &&& !s.starts.contains_key(r)
            &&& !s.handed.contains(r)
            &&& !s.canceled_threads.contains(r)
            &&& !s.delay_threads.contains_key(id)
            &&& !s.thread_refs.contains_key(thread)
        }),
{
}

/// A scheduler has work exactly as long as a spawned thread has its place or a
/// timer is set.
pub proof fn law_work(s: SchedulerView)
    ensures
        s.has_work() <==> s.ready.len() > 0 || s.timers.len() > 0,
{
}

/// A thread is known by its handle from when it is spawned, delayed or made to
/// wait until it ends; a known one that waits keeps its reference.
pub proof fn law_handles(s: SchedulerView, thread: usize, r: i32, args: i32, start: u128, due: u128)
    ensures
        s.spawned(thread, r, args).thread_refs == s.thread_refs.insert(thread, r),
        s.delayed(due, thread, r, args).thread_refs == s.thread_refs.insert(thread, r),
        ({
            let t = after(s, Step::Wait { thread, fresh_ref: r, start, due });
            if s.thread_refs.contains_key(thread) {
                t.thread_refs[thread] == s.thread_refs[thread]
            } else {
                t.thread_refs[thread] == r
            }
        }),
        s.ended(thread, r).thread_refs == s.thread_refs.remove(thread),
        after_resumption(s, r, thread).thread_refs == s.thread_refs || s.canceled_threads.contains(
            r,
        ),
{
}

/// A thread of the handle zero is none; one that is cancelled is not resumed;
/// one that has not started gets its arguments, once; and one that has waited
/// is told for how long, which is no time at all if the clock stands before the
/// beginning of its wait.
pub proof fn law_resumption(s: SchedulerView, r: i32, thread: usize, now: u128)
    ensures
        thread == 0 ==> resumption(s, r, thread, now) == Resumption::Gone,
        thread != 0 && s.canceled_threads.contains(r) ==> resumption(s, r, thread, now)
            == Resumption::Canceled,
        thread != 0 && !s.canceled_threads.contains(r) ==> resumption(s, r, thread, now) == (
        Resumption::Resume {
            args: if s.starts.contains_key(r) {
                s.starts[r].args
            } else {
                0
            },
            waited: if !s.waits.contains_key(r) {
                None
            } else if s.waits[r].start <= now {
                Some((now - s.waits[r].start) as u128)
            } else {
                Some(0)
            },
        }),
        thread != 0 && !s.canceled_threads.contains(r) ==> ({
            let t = after_resumption(s, r, thread);
            &&& t.waits == s.waits.remove(r)
            &&& t.starts == s.starts.remove(r)
            &&& t.handed == s.handed.remove(r)
            &&& t.canceled_threads == s.canceled_threads
            &&& t.delay_threads == s.delay_threads
            &&& t.thread_refs == s.thread_refs
        }),
{
}

/// A thread that gives the status zero has come to its end, one that gives one
/// goes on later, and any other has failed.
pub proof fn law_outcome(status: i32)
    ensures
        outcome_of(0) == Outcome::Finished,
        outcome_of(1) == Outcome::Yielded,
        status != 0 && status != 1 ==> outcome_of(status) == Outcome::Failed,
{
}

/// When nothing is to be resumed the host sleeps until the next timer, the
/// earliest that is left; while the main thread waits, until that timer or the
/// end of the wait, whichever comes first; and without a timer until the end
/// of the wait, or not at all.
pub proof fn law_sleep(s: SchedulerView, now: u128, target: u128, i: int)
    requires
        sorted(s.timers),
        resumed_at(s, now).len() == 0,
    ensures
        ({
            let left = after_turn(s, now).timers;
            &&& left.len() == 0 ==> idle_turn(s, now) == Turn::<Seq<i32>>::Idle
            &&& left.len() > 0 ==> idle_turn(s, now) is Sleep
            &&& 0 <= i < left.len() ==> idle_turn(s, now)->Sleep_0 <= left[i].due
            &&& left.len() > 0 ==> idle_turn(s, now) == Turn::<Seq<i32>>::Sleep(left[0].due)
            &&& now < target && left.len() == 0 ==> wait_turn(s, now, target) == Turn::<
                Seq<i32>,
            >::Sleep(target)
            &&& now < target && left.len() > 0 ==> wait_turn(s, now, target) == Turn::<
                Seq<i32>,
            >::Sleep(
                if left[0].due <= target {
                    left[0].due
                } else {
                    target
                },
            )
            &&& now >= target ==> wait_turn(s, now, target) == Turn::<Seq<i32>>::Idle
        }),
{
    law_due_timers_are_taken(s, now);
    let left = after_turn(s, now).timers;
    if 0 <= i < left.len() {
        assert(left[0].due <= left[i].due);
    }
}

/// What is to be resumed is resumed at once, by a host that runs tasks until
/// there are none and by one whose main thread waits.
pub proof fn law_no_sleep_with_work(s: SchedulerView, now: u128, target: u128)
    requires
        resumed_at(s, now).len() > 0,
    ensures
        idle_turn(s, now) == Turn::Resume(resumed_at(s, now)),
        now < target ==> wait_turn(s, now, target) == Turn::Resume(resumed_at(s, now)),
{
}

/// A delay is as long as was asked for, up to ten years of 365 days; one that
/// is not positive is none. A longer one is never made shorter than a shorter
/// one.
pub proof fn law_length_of_delay(ns: u128, more: u128)
    ensures
        bounded_delay(None) == 0,
        ns <= 10 * 365 * 24 * 60 * 60 * 1_000_000_000 ==> bounded_delay(Some(ns)) == ns,
        ns > 10 * 365 * 24 * 60 * 60 * 1_000_000_000 ==> bounded_delay(Some(ns)) == 10 * 365 * 24
            * 60 * 60 * 1_000_000_000,
        ns <= more ==> bounded_delay(Some(ns)) <= bounded_delay(Some(more)),
{
}

/// A sleep ends at its deadline, not before and not after, and there is none
/// once the deadline is past.
pub proof fn law_length_of_sleep(deadline: u128, now: u128)
    ensures
        match sleep_length(deadline, now) {
            Some(ns) => ns > 0 && now + ns == deadline,
            None => deadline <= now,
        },
{
}

/// A waitable timer takes a negative number of units of 100 nanoseconds, as
/// many as are whole, and one for a shorter sleep; none for no sleep.
pub proof fn law_units_of_timer(ns: u128)
    ensures
        timer_units(0) is None,
        0 < ns < 200 ==> timer_units(ns) == Some(-1int),
        ns >= 100 ==> (timer_units(ns) matches Some(units) && -100 * units <= ns < -100 * units
            + 100),
{
}

/// A thread that has waited is resumed with one value; one that has yielded
/// otherwise, or has nothing on its stack, with none; and one that has not
/// started with its arguments, as far as they are there above its function.
pub proof fn law_values_on_resume(status: i32, held: i32, args: i32)
    ensures
        values_on_resume(status, held, args, true) == 1,
        values_on_resume(1, held, args, false) == 0,
        held <= 0 ==> values_on_resume(status, held, args, false) == 0,
        status != 1 && 0 < held && args < held ==> values_on_resume(status, held, args, false)
            == args,
        status != 1 && 0 < held && args >= held ==> values_on_resume(status, held, args, false)
            == held - 1,
{
}

/// `task.cancel` takes a thread or the number of a delayed task, and nothing
/// else.
pub proof fn law_what_is_cancelled(top: i32, tag: i32)
    ensures
        target_of(top, tag) == CancelTarget::Thread <==> top >= 1 && tag == 10,
        target_of(top, tag) == CancelTarget::Delay <==> top >= 1 && tag == 3,
        target_of(top, tag) == CancelTarget::Nothing <==> top < 1 || tag != 10 && tag != 3,
{
}

/// To cancel by a handle that is not known, by zero, or by a number that stands
/// for no task, changes nothing; any other cancellation marks the one thread
/// that it is about, and changes nothing else.
pub proof fn law_cancellation(s: SchedulerView, thread: usize, id: u64)
    ensures
        ({
            let t = after(s, Step::CancelThread { thread });
            if thread != 0 && s.thread_refs.contains_key(thread) {
                t == (SchedulerView {
                    canceled_threads: s.canceled_threads.insert(s.thread_refs[thread]),
                    ..s
                })
            } else {
                t == s
            }
        }),
        ({
            let t = after(s, Step::CancelDelay { id });
            if s.delay_threads.contains_key(id) {
                t == (SchedulerView {
                    canceled_threads: s.canceled_threads.insert(s.delay_threads[id]),
                    ..s
                })
            } else {
                t == s
            }
        }),
{
}

/// The failure of a task is reported with its mark and its message, or the word
/// `unknown`.
pub proof fn law_failure_of_task(message: Seq<char>)
    ensures
        task_error_line(Some(message)) == "[TASK ERROR] "@ + message,
        task_error_line(None) == "[TASK ERROR] "@ + "unknown"@,
{
}

/// Where no thread was spawned, the timers that are due are all that a turn
/// deals with.
pub proof fn law_turn_without_spawned(s: SchedulerView, now: u128)
    requires
        s.ready.len() == 0,
    ensures
        popped(s, now).ready == resumed_at(s, now),
        popped(s, now).released == released_at(s, now),
        popped(s, now).rest == after_turn(s, now),
{
    assert(places(s.ready) + due_wakes(s.timers, now) =~= due_wakes(s.timers, now));
    assert(s.ready =~= Seq::empty());
}

/// Of threads whose timers are due one after the other, the one that is due
/// first is handed out first, and of two that are due at the same time the one
/// that was made to wait first.
pub proof fn law_waits_end_in_order(
    s: SchedulerView,
    first: usize,
    r: i32,
    second: usize,
    q: i32,
    start: u128,
    due: u128,
    later: u128,
    now: u128,
)
    requires
        s.ready.len() == 0,
        s.timers.len() == 0,
        !s.thread_refs.contains_key(first),
        !s.thread_refs.contains_key(second),
        first != second,
        r != q,
        !s.canceled_threads.contains(r),
        !s.canceled_threads.contains(q),
        due <= later <= now,
    ensures
        ({
            let one = after(s, Step::Wait { thread: first, fresh_ref: r, start, due });
            let two = after(one, Step::Wait { thread: second, fresh_ref: q, start, due: later });
            resumed_at(two, now) == seq![r, q]
        }),
        due < later ==> ({
            let one = after(s, Step::Wait { thread: second, fresh_ref: q, start, due: later });
            let two = after(one, Step::Wait { thread: first, fresh_ref: r, start, due });
            resumed_at(two, now) == seq![r, q]
        }),
{
    let t = ScheduledTask { due, key: TaskKey::ThreadRef(r) };
    let u = ScheduledTask { due: later, key: TaskKey::ThreadRef(q) };
    let none = Seq::<ScheduledTask>::empty();
    assert(s.timers =~= none);
    reveal_with_fuel(count_due, 3);
    assert(with_timer(none, t) =~= seq![t]);
    assert(with_timer(none, u) =~= seq![u]);
    assert(seq![t].drop_first() =~= none);
    assert(seq![u].drop_first() =~= none);
    assert(with_timer(seq![t], u) =~= seq![t, u]);
    if due < later {
        assert(with_timer(seq![u], t) =~= seq![t, u]);
    }
    assert(seq![t, u].drop_first() =~= seq![u]);
    assert(count_due(seq![t, u], now) == 2);
    let a = after(s, Step::Wait { thread: first, fresh_ref: r, start, due });
    let b = after(a, Step::Wait { thread: second, fresh_ref: q, start, due: later });
    lemma_two_due(b, t, u, r, q, now);
    if due < later {
        let c = after(s, Step::Wait { thread: second, fresh_ref: q, start, due: later });
        let d = after(c, Step::Wait { thread: first, fresh_ref: r, start, due });
        lemma_two_due(d, t, u, r, q, now);
    }
}

/// Two timers that are due, of two threads that wait.
proof fn lemma_two_due(
    s: SchedulerView,
    t: ScheduledTask,
    u: ScheduledTask,
    r: i32,
    q: i32,
    now: u128,
)
    requires
        s.ready.len() == 0,
        s.timers == seq![t, u],
        count_due(s.timers, now) == 2,
        t.key == TaskKey::ThreadRef(r),
        u.key == TaskKey::ThreadRef(q),
        r != q,
        s.waits.contains_key(r),
        s.waits[r].due == t.due,
        s.waits.contains_key(q),
        s.waits[q].due == u.due,
        !s.handed.contains(r),
        !s.handed.contains(q),
        !s.canceled_threads.contains(r),
        !s.canceled_threads.contains(q),
    ensures
        resumed_at(s, now) == seq![r, q],
{
    let list = places(s.ready) + due_wakes(s.timers, now);
    let x = Wake::Timer(t);
    let y = Wake::Timer(u);
    assert(s.timers.take(2) =~= s.timers);
    assert(list =~= seq![x, y]);
    assert(list.drop_last() =~= seq![x]);
    assert(seq![x].drop_last() =~= Seq::empty());
    reveal_with_fuel(taken, 3);
    assert(taken(s.unset(), Seq::empty()).rest == s.unset());
    assert(taken(s.unset(), seq![x]).ready =~= seq![r]);
    assert(taken(s.unset(), list).ready =~= seq![r, q]);
}

/// What is forgotten of a thread is all that is known of it, and nothing of any
/// other.
pub proof fn law_forgotten_thread(s: SchedulerView, r: i32, thread: usize, id: u64, q: i32)
    ensures
        ({
            let t = s.forgotten(r);
            &&& t.thread_refs.contains_key(thread) <==> s.thread_refs.contains_key(thread)
                && s.thread_refs[thread] != r
            &&& t.thread_refs.contains_key(thread) ==> t.thread_refs[thread]
                == s.thread_refs[thread]
            &&& t.delay_threads.contains_key(id) <==> s.delay_threads.contains_key(id)
                && s.delay_threads[id] != r
            &&& t.delay_threads.contains_key(id) ==> t.delay_threads[id] == s.delay_threads[id]
            &&& t.ready == s.ready
            &&& t.timers == s.timers
            &&& t.next_delay_id == s.next_delay_id
            &&& q != r ==> same_thread(t, s, q) && t.handed.contains(q) == s.handed.contains(q)
            &&& !t.waits.contains_key(r) && !t.starts.contains_key(r) && !t.handed.contains(r)
                && !t.canceled_threads.contains(r)
        }),
{
    let t = s.forgotten(r);
    if q != r {
        assert forall|i: u64| #[trigger] numbered(t, i, q) == numbered(s, i, q) by {}
    }
}

/// The handles that are known after a turn: all but those of the threads whose
/// references it releases, each with the reference that it had.
pub proof fn law_handles_after_turn(s: SchedulerView, now: u128, thread: usize)
    ensures
        after_turn(s, now).thread_refs.contains_key(thread) <==> s.thread_refs.contains_key(thread)
            && !released_at(s, now).contains(s.thread_refs[thread]),
        after_turn(s, now).thread_refs.contains_key(thread) ==> after_turn(
            s,
            now,
        ).thread_refs[thread] == s.thread_refs[thread],
{
    lemma_taken_handles(
        s.unset(),
        places(s.ready) + due_wakes(s.timers, now),
        thread,
    );
}

proof fn lemma_taken_handles(s: SchedulerView, list: Seq<Wake>, thread: usize)
    ensures
        ({
            let p = taken(s, list);
            &&& p.rest.thread_refs.contains_key(thread) <==> s.thread_refs.contains_key(thread)
                && !p.released.contains(s.thread_refs[thread])
            &&& p.rest.thread_refs.contains_key(thread) ==> p.rest.thread_refs[thread]
                == s.thread_refs[thread]
        }),
    decreases list.len(),
{
    if list.len() > 0 {
        let q = taken(s, list.drop_last());
        let p = taken(s, list);
        lemma_taken_handles(s, list.drop_last(), thread);
        if let Fired::Released(r) = fired(q.rest, list.last()) {
            let x = s.thread_refs[thread];
            assert(p.released == q.released.push(r));
            assert(p.released.contains(x) <==> q.released.contains(x) || x == r) by {
                if q.released.contains(x) {
                    let k = choose|k: int| 0 <= k < q.released.len() && q.released[k] == x;
                    assert(p.released[k] == x);
                }
                if x == r {
                    assert(p.released[q.released.len() as int] == x);
                }
            }
        }
    }
}

/// A thread that is spawned or delayed is a new one, whatever was known under
/// its reference before: it is not cancelled, does not wait and is not handed
/// out, and it starts with its arguments.
pub proof fn law_new_thread(s: SchedulerView, due: u128, thread: usize, r: i32, args: i32)
    ensures
        ({
            let spawned = after(s, Step::Spawn { thread, r, args });
            let delayed = after(s, Step::Delay { due, thread, r, args });
            &&& !spawned.canceled_threads.contains(r) && !delayed.canceled_threads.contains(r)
            &&& !spawned.waits.contains_key(r) && !delayed.waits.contains_key(r)
            &&& !spawned.handed.contains(r) && !delayed.handed.contains(r)
            &&& spawned.starts.contains_key(r) && delayed.starts.contains_key(r)
            &&& spawned.starts[r].args == args && delayed.starts[r].args == args
            &&& spawned.starts[r].due is None && delayed.starts[r].due == Some(due)
            &&& numbered(delayed, s.next_delay_id, r)
        }),
{
}

/// A thread that waits does so from the time and to the time that was asked
/// for, and for no other reason; a cancellation stays in force.
pub proof fn law_waiting_thread(
    s: SchedulerView,
    thread: usize,
    fresh_ref: i32,
    start: u128,
    due: u128,
)
    ensures
        ({
            let r = if s.thread_refs.contains_key(thread) {
                s.thread_refs[thread]
            } else {
                fresh_ref
            };
            let t = after(s, Step::Wait { thread, fresh_ref, start, due });
            &&& t.waits.contains_key(r)
            &&& t.waits[r].start == start
            &&& t.waits[r].due == due
            &&& !t.starts.contains_key(r)
            &&& !t.handed.contains(r)
            &&& t.canceled_threads == s.canceled_threads
            &&& t.delay_threads == s.delay_threads
        }),
{
}

/// A thread can be cancelled by any handle that is known but zero, and a
/// delayed task by any positive number.
pub proof fn law_what_can_be_cancelled(s: SchedulerView, thread: usize, id: i64)
    ensures
        s.knows(thread) <==> thread > 0 && s.thread_refs.contains_key(thread),
        delay_number(id) is Some <==> id >= 1,
        delay_number(id) matches Some(n) ==> n == id,
{
}

} // verus!
