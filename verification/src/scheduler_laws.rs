//! What holds of one turn of the task scheduler.
use crate::luau;
use crate::task_scheduler::{
    after_resumption, after_turn, due_wakes, fired, idle_turn, lemma_taken_both, outcome_of, places,
    popped, released_at, resumed_at, resumption, taken, wait_turn, wakes, Fired, Outcome,
    Resumption, SchedulerView, Turn, Wake,
};
use crate::timers::{
    count_due, lemma_count_due, lemma_count_is, sorted, with_timer, ScheduledTask, TaskKey,
};
use vstd::prelude::*;

verus! {

/// Whether the same is known of the thread under `r`, but for its handles.
pub open spec fn same_thread(a: SchedulerView, b: SchedulerView, r: i32) -> bool {
    &&& a.waits.contains_key(r) == b.waits.contains_key(r)
    &&& a.waits.contains_key(r) ==> a.waits[r] == b.waits[r]
    &&& a.starts.contains_key(r) == b.starts.contains_key(r)
    &&& a.starts.contains_key(r) ==> a.starts[r] == b.starts[r]
    &&& a.canceled_threads.contains(r) == b.canceled_threads.contains(r)
    &&& forall|id: u64| #[trigger] numbered(a, id, r) == numbered(b, id, r)
}

/// Whether `id` is the number of the delayed task of the thread under `r`.
pub open spec fn numbered(s: SchedulerView, id: u64, r: i32) -> bool {
    s.delay_threads.contains_key(id) && s.delay_threads[id] == r
}

/// Whether nothing can make the thread under `r` go on: it neither waits nor
/// is to start.
pub open spec fn at_rest(s: SchedulerView, r: i32) -> bool {
    &&& !s.waits.contains_key(r)
    &&& !s.starts.contains_key(r)
    &&& !s.handed.contains(r)
}

/// Whether one of the reasons makes the thread under `r` go on.
pub open spec fn woken(s: SchedulerView, list: Seq<Wake>, r: i32) -> bool {
    exists|i: int| 0 <= i < list.len() && wakes(s, #[trigger] list[i], r)
}

/// What comes of a number of reasons: which threads are resumed and which are
/// released, and what is known of them then.
pub proof fn lemma_taken(s: SchedulerView, list: Seq<Wake>, r: i32)
    ensures
        ({
            let p = taken(s, list);
            let marked = s.canceled_threads.contains(r);
            &&& p.ready.contains(r) <==> woken(s, list, r) && !marked
            &&& p.released.contains(r) <==> woken(s, list, r) && marked
            &&& !p.released.contains(r) ==> same_thread(p.rest, s, r)
            &&& !p.released.contains(r) ==> p.rest.handed.contains(r) == (s.handed.contains(r)
                || p.ready.contains(r))
            &&& p.released.contains(r) ==> at_rest(p.rest, r) && !p.rest.canceled_threads.contains(r)
            &&& p.rest.next_delay_id == s.next_delay_id
            &&& p.rest.ready == s.ready
            &&& p.rest.timers == s.timers
        }),
    decreases list.len(),
{
    if list.len() > 0 {
        let front = list.drop_last();
        let w = list.last();
        let q = taken(s, front);
        let p = taken(s, list);
        lemma_taken(s, front, r);
        if woken(s, front, r) {
            let i = choose|i: int| 0 <= i < front.len() && wakes(s, #[trigger] front[i], r);
            assert(wakes(s, list[i], r));
            assert(!wakes(q.rest, w, r));
        } else {
            assert(!q.released.contains(r) && !q.ready.contains(r));
            if let Wake::Timer(t) = w {
                if let TaskKey::DelayId(id) = t.key {
                    assert(numbered(q.rest, id, r) == numbered(s, id, r));
                }
            }
            assert(wakes(q.rest, w, r) == wakes(s, w, r));
            if woken(s, list, r) {
                let i = choose|i: int| 0 <= i < list.len() && wakes(s, #[trigger] list[i], r);
                if i < front.len() {
                    assert(wakes(s, front[i], r));
                }
            }
            if wakes(s, w, r) {
                assert(wakes(s, list[list.len() - 1], r));
            }
        }
        lemma_pushed(q.ready, r);
        lemma_pushed(q.released, r);
        match fired(q.rest, w) {
            Fired::Released(x) => {
                if x != r {
                    assert forall|id: u64| #[trigger] numbered(p.rest, id, r) == numbered(
                        q.rest,
                        id,
                        r,
                    ) by {}
                    if !p.released.contains(r) {
                        assert forall|id: u64| #[trigger] numbered(p.rest, id, r) == numbered(
                            s,
                            id,
                            r,
                        ) by {
                            assert(numbered(q.rest, id, r) == numbered(s, id, r));
                        }
                    }
                }
            },
            Fired::Ready(x) => {
                if !p.released.contains(r) {
                    assert forall|id: u64| #[trigger] numbered(p.rest, id, r) == numbered(
                        s,
                        id,
                        r,
                    ) by {
                        assert(numbered(q.rest, id, r) == numbered(s, id, r));
                    }
                }
            },
            Fired::Nothing => {},
        }
    }
}

/// What a list holds with one more at its end.
proof fn lemma_pushed(list: Seq<i32>, r: i32)
    ensures
        forall|x: i32| #[trigger] list.push(x).contains(r) <==> list.contains(r) || x == r,
{
    assert forall|x: i32| #[trigger] list.push(x).contains(r) <==> list.contains(r) || x == r by {
        let all = list.push(x);
        if list.contains(r) {
            let k = choose|k: int| 0 <= k < list.len() && list[k] == r;
            assert(all[k] == r);
        }
        if x == r {
            assert(all[list.len() as int] == r);
        }
        if all.contains(r) {
            let k = choose|k: int| 0 <= k < all.len() && all[k] == r;
            if k < list.len() {
                assert(list[k] == r);
            }
        }
    }
}

/// Whether something makes the thread under `r` go on at `now`: its place
/// among the threads that were spawned, or a timer that is due.
pub open spec fn goes_on(s: SchedulerView, now: u128, r: i32) -> bool {
    ||| s.ready.contains(r) && wakes(s, Wake::Place(r), r)
    ||| exists|i: int|
        0 <= i < s.timers.len() && (#[trigger] s.timers[i]).due <= now && wakes(
            s,
            Wake::Timer(s.timers[i]),
            r,
        )
}

/// The timers that are due are those in front.
proof fn lemma_due_in_front(timers: Seq<ScheduledTask>, now: u128)
    requires
        sorted(timers),
    ensures
        0 <= count_due(timers, now) <= timers.len(),
        forall|i: int|
            0 <= i < timers.len() ==> ((#[trigger] timers[i]).due <= now <==> i < count_due(
                timers,
                now,
            )),
        sorted(timers.skip(count_due(timers, now))),
{
    lemma_count_due(timers, now);
    let n = count_due(timers, now);
    assert forall|i: int| n <= i < timers.len() implies (#[trigger] timers[i]).due > now by {
        assert(timers[n].due <= timers[i].due);
    }
    let rest = timers.skip(n);
    assert forall|i: int, j: int| 0 <= i <= j < rest.len() implies (#[trigger] rest[i]).due <= (
    #[trigger] rest[j]).due by {
        assert(timers[i + n].due <= timers[j + n].due);
    }
}

/// The reasons of a turn.
proof fn lemma_turn_list(s: SchedulerView, now: u128, r: i32)
    requires
        sorted(s.timers),
    ensures
        woken(s.unset(), places(s.ready) + due_wakes(s.timers, now), r) <==> goes_on(s, now, r),
{
    let u = s.unset();
    let a = places(s.ready);
    let list = a + due_wakes(s.timers, now);
    let n = count_due(s.timers, now);
    lemma_due_in_front(s.timers, now);
    assert forall|w: Wake| wakes(u, w, r) == #[trigger] wakes(s, w, r) by {}
    if goes_on(s, now, r) {
        if s.ready.contains(r) && wakes(s, Wake::Place(r), r) {
            let k = choose|k: int| 0 <= k < s.ready.len() && s.ready[k] == r;
            assert(list[k] == Wake::Place(r));
            assert(wakes(u, list[k], r));
        } else {
            let i = choose|i: int|
                0 <= i < s.timers.len() && (#[trigger] s.timers[i]).due <= now && wakes(
                    s,
                    Wake::Timer(s.timers[i]),
                    r,
                );
            assert(list[a.len() + i] == Wake::Timer(s.timers[i]));
            assert(wakes(u, list[a.len() + i], r));
        }
    }
    if woken(u, list, r) {
        let k = choose|k: int| 0 <= k < list.len() && wakes(u, #[trigger] list[k], r);
        assert(wakes(s, list[k], r));
        if k < a.len() {
            assert(list[k] == Wake::Place(s.ready[k]));
            assert(s.ready[k] == r);
        } else {
            let i = k - a.len();
            assert(list[k] == Wake::Timer(s.timers[i]));
            assert(s.timers[i].due <= now);
        }
    }
}

/// A turn resumes exactly the threads that something makes go on and that are
/// not cancelled: none early, none late. Of those that are cancelled it
/// releases the references, and nothing is known of them any more.
pub proof fn law_resumed_when_due(s: SchedulerView, now: u128, r: i32)
    requires
        sorted(s.timers),
    ensures
        resumed_at(s, now).contains(r) <==> goes_on(s, now, r) && !s.canceled_threads.contains(r),
        released_at(s, now).contains(r) <==> goes_on(s, now, r) && s.canceled_threads.contains(r),
        !released_at(s, now).contains(r) ==> same_thread(after_turn(s, now), s, r),
        !released_at(s, now).contains(r) ==> after_turn(s, now).handed.contains(r) == (
        s.handed.contains(r) || resumed_at(s, now).contains(r)),
        released_at(s, now).contains(r) ==> at_rest(after_turn(s, now), r) && !after_turn(
            s,
            now,
        ).canceled_threads.contains(r),
{
    let list = places(s.ready) + due_wakes(s.timers, now);
    let p = taken(s.unset(), list);
    let rest = after_turn(s, now);
    lemma_turn_list(s, now, r);
    lemma_taken(s.unset(), list, r);
    assert forall|id: u64| #[trigger] numbered(rest, id, r) == numbered(p.rest, id, r) by {}
    assert forall|id: u64| #[trigger] numbered(s.unset(), id, r) == numbered(s, id, r) by {}
    if !p.released.contains(r) {
        assert forall|id: u64| #[trigger] numbered(rest, id, r) == numbered(s, id, r) by {
            assert(numbered(rest, id, r) == numbered(p.rest, id, r));
            assert(numbered(p.rest, id, r) == numbered(s.unset(), id, r));
        }
    }
}

/// A turn hands out no thread twice.
pub proof fn law_resumed_once(s: SchedulerView, now: u128)
    ensures
        resumed_at(s, now).no_duplicates(),
{
    lemma_taken_once(s.unset(), places(s.ready) + due_wakes(s.timers, now));
}

proof fn lemma_taken_once(s: SchedulerView, list: Seq<Wake>)
    ensures
        taken(s, list).ready.no_duplicates(),
    decreases list.len(),
{
    if list.len() > 0 {
        let q = taken(s, list.drop_last());
        lemma_taken_once(s, list.drop_last());
        if let Fired::Ready(r) = fired(q.rest, list.last()) {
            lemma_taken(s, list.drop_last(), r);
            assert(!q.ready.contains(r));
            assert(q.ready.push(r).no_duplicates());
        }
    }
}

/// A turn takes exactly the timers that are due, and all the threads that were
/// spawned: none that is due is left, and none that is not due is touched. So
/// no task, cancelled or not, keeps the host from its end once its time has
/// passed.
pub proof fn law_due_timers_are_taken(s: SchedulerView, now: u128)
    requires
        sorted(s.timers),
    ensures
        after_turn(s, now).ready.len() == 0,
        after_turn(s, now).timers == s.timers.skip(count_due(s.timers, now)),
        popped(s, now).rest.timers == s.timers.skip(count_due(s.timers, now)),
        popped(s, now).rest.ready == s.ready,
        forall|i: int|
            0 <= i < s.timers.len() ==> ((#[trigger] s.timers[i]).due <= now <==> i < count_due(
                s.timers,
                now,
            )),
        forall|i: int|
            0 <= i < after_turn(s, now).timers.len() ==> (#[trigger] after_turn(
                s,
                now,
            ).timers[i]).due > now,
        sorted(after_turn(s, now).timers),
{
    lemma_due_in_front(s.timers, now);
}

/// What is due earlier is resumed earlier: to deal with the timers that are
/// due at one time, then with those that are due at a later time, is to deal
/// with the latter at once, in the same order.
pub proof fn law_earlier_due_first(s: SchedulerView, now: u128, later: u128)
    requires
        now <= later,
    ensures
        ({
            let first = popped(s, now);
            let then = popped(first.rest, later);
            &&& popped(s, later).rest == then.rest
            &&& popped(s, later).ready == first.ready + then.ready
            &&& popped(s, later).released == first.released + then.released
        }),
{
    let n = count_due(s.timers, now);
    let rest = s.timers.skip(n);
    let m = count_due(rest, later);
    lemma_count_due(s.timers, now);
    lemma_count_due(rest, later);
    assert forall|i: int| 0 <= i < n + m implies (#[trigger] s.timers[i]).due <= later by {
        if i >= n {
            assert(rest[i - n] == s.timers[i]);
        }
    }
    if n + m < s.timers.len() {
        assert(rest[m] == s.timers[n + m]);
    }
    lemma_count_is(s.timers, later, n + m);
    assert(due_wakes(s.timers, later) =~= due_wakes(s.timers, now) + due_wakes(rest, later));
    lemma_taken_both(s.unset(), due_wakes(s.timers, now), due_wakes(rest, later));
    let p = taken(s.unset(), due_wakes(s.timers, now));
    lemma_taken(s.unset(), due_wakes(s.timers, now), 0);
    assert(popped(s, now).rest.unset() =~= p.rest);
    assert(rest.skip(m) =~= s.timers.skip(n + m));
}

/// Of two timers, the one that is due first is dealt with first; of two that
/// are due at the same time, the one that was set first.
pub proof fn law_timers_in_order(timers: Seq<ScheduledTask>, t: ScheduledTask)
    requires
        sorted(timers),
    ensures
        ({
            let r = with_timer(timers, t);
            let n = count_due(timers, t.due);
            &&& 0 <= n < r.len()
            &&& r[n] == t
            &&& r.remove(n) == timers
            &&& forall|i: int| 0 <= i < n ==> (#[trigger] r[i]).due <= t.due
            &&& forall|i: int| n < i < r.len() ==> (#[trigger] r[i]).due > t.due
        }),
{
    let r = with_timer(timers, t);
    let n = count_due(timers, t.due);
    lemma_count_due(timers, t.due);
    assert(r.remove(n) =~= timers);
    assert forall|i: int| n < i < r.len() implies (#[trigger] r[i]).due > t.due by {
        assert(timers[n].due <= timers[i - 1].due);
    }
}

/// The threads that were spawned are resumed at the next turn, in the order in
/// which they were spawned, before those whose timers are due; only those that
/// are cancelled are passed over, and those that a script has started itself.
pub proof fn law_spawned_threads_run_in_order(s: SchedulerView, now: u128)
    requires
        s.ready.no_duplicates(),
    ensures
        ({
            let first = s.ready.filter(
                |r: i32| wakes(s, Wake::Place(r), r) && !s.canceled_threads.contains(r),
            );
            &&& first.len() <= resumed_at(s, now).len()
            &&& resumed_at(s, now).take(first.len() as int) == first
        }),
{
    let keep = |r: i32| wakes(s, Wake::Place(r), r) && !s.canceled_threads.contains(r);
    let first = s.ready.filter(keep);
    lemma_taken_both(s.unset(), places(s.ready), due_wakes(s.timers, now));
    lemma_places(s.unset(), s.ready);
    let other = |r: i32| wakes(s.unset(), Wake::Place(r), r) && !s.unset().canceled_threads.contains(
        r,
    );
    assert(keep =~= other);
    assert(resumed_at(s, now).take(first.len() as int) =~= first);
}

proof fn lemma_places(s: SchedulerView, ready: Seq<i32>)
    requires
        ready.no_duplicates(),
    ensures
        taken(s, places(ready)).ready == ready.filter(
            |r: i32| wakes(s, Wake::Place(r), r) && !s.canceled_threads.contains(r),
        ),
    decreases ready.len(),
{
    reveal(Seq::filter);
    if ready.len() > 0 {
        let front = ready.drop_last();
        let list = places(front);
        let q = taken(s, list);
        let r = ready.last();
        assert(places(ready).drop_last() =~= list);
        assert(front.no_duplicates());
        lemma_places(s, front);
        lemma_taken(s, list, r);
        if woken(s, list, r) {
            let i = choose|i: int| 0 <= i < list.len() && wakes(s, #[trigger] list[i], r);
            assert(list[i] == Wake::Place(front[i]));
            assert(ready[i] == r);
        }
        assert(wakes(q.rest, Wake::Place(r), r) == wakes(s, Wake::Place(r), r));
    } else {
        assert(places(ready) =~= Seq::<Wake>::empty());
    }
}

/// A thread that was cancelled after it had been handed out is not resumed
/// either, and the cancellation is used up: it does not hit a later thread
/// under the same reference.
pub proof fn law_cancelled_thread_is_not_resumed(
    s: SchedulerView,
    r: i32,
    thread: usize,
    now: u128,
)
    requires
        thread != 0,
    ensures
        resumption(s.thread_canceled(r), r, thread, now) == Resumption::Canceled,
        !after_resumption(s.thread_canceled(r), r, thread).canceled_threads.contains(r),
        at_rest(after_resumption(s.thread_canceled(r), r, thread), r),
{
}

/// A reference that names no thread is released, and nothing else happens.
pub proof fn law_lost_thread_changes_nothing(s: SchedulerView, r: i32, now: u128)
    ensures
        resumption(s, r, 0, now) == Resumption::Gone,
        after_resumption(s, r, 0) == s,
{
}

/// The host stops exactly if no thread is left to be resumed, now or later;
/// it sleeps only while nothing is to be resumed, until the first timer that
/// is set, and that is not due yet.
pub proof fn law_idle_without_work(s: SchedulerView, now: u128)
    requires
        sorted(s.timers),
    ensures
        ({
            let rest = after_turn(s, now);
            match idle_turn(s, now) {
                Turn::Resume(list) => list.len() > 0 && list == resumed_at(s, now),
                Turn::Sleep(until) => resumed_at(s, now).len() == 0 && until > now && rest.has_work()
                    && until == rest.timers[0].due && forall|i: int|
                    0 <= i < rest.timers.len() ==> until <= (#[trigger] rest.timers[i]).due,
                Turn::Idle => resumed_at(s, now).len() == 0 && !rest.has_work(),
            }
        }),
{
    law_due_timers_are_taken(s, now);
}

/// While the main thread waits, the host sleeps neither past the end of the
/// wait nor past a timer, and the wait is over exactly once its end is
/// reached.
pub proof fn law_main_wait_is_bounded(s: SchedulerView, now: u128, target: u128)
    requires
        sorted(s.timers),
    ensures
        wait_turn(s, now, target) is Idle <==> now >= target,
        wait_turn(s, now, target) matches Turn::Sleep(until) ==> {
            let rest = after_turn(s, now);
            &&& resumed_at(s, now).len() == 0
            &&& now < until <= target
            &&& forall|i: int|
                0 <= i < rest.timers.len() ==> until <= (#[trigger] rest.timers[i]).due
        },
{
    law_due_timers_are_taken(s, now);
}

/// A thread has yielded exactly if it gives the status of a yield. A thread
/// that has come to its end is known no more, neither by its handle nor by the
/// number of its task, nor as one that waits or is cancelled.
pub proof fn law_ended_thread_is_forgotten(s: SchedulerView, thread: usize, r: i32, status: i32)
    ensures
        outcome_of(status) == Outcome::Yielded <==> status == luau::yield_status_value(),
        !s.ended(thread, r).thread_refs.contains_key(thread),
        at_rest(s.ended(thread, r), r),
        !s.ended(thread, r).canceled_threads.contains(r),
        forall|id: u64| !#[trigger] numbered(s.ended(thread, r), id, r),
{
}

} // verus!
