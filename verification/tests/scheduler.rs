use mlua_sys::luau::lua;
use nicyrtdyn::task_scheduler::{
    cancel_target, delay_length, resume_count, sleep_until, task_error, waitable_timer_due,
    CancelTarget, Outcome, Resumption, Scheduler, Turn, MAX_DELAY_NS,
};
use nicyrtdyn::timers::{ScheduledTask, TaskKey, Timers};

#[test]
fn timers_come_off_earliest_first() {
    let mut timers = Timers::new();
    assert!(timers.is_empty());
    for (due, id) in [(30, 1), (10, 2), (20, 3), (10, 4), (30, 5)] {
        timers.push(ScheduledTask { due, key: TaskKey::DelayId(id) });
    }
    assert_eq!(timers.next_due(), Some(10));
    let mut order = vec![];
    while let Some(t) = timers.pop(20) {
        order.push(t.key);
    }
    assert_eq!(order, vec![TaskKey::DelayId(2), TaskKey::DelayId(4), TaskKey::DelayId(3)]);
    assert_eq!(timers.next_due(), Some(30));
    assert!(timers.pop(29).is_none());
    assert_eq!(timers.pop(30).unwrap().key, TaskKey::DelayId(1));
    assert_eq!(timers.pop(30).unwrap().key, TaskKey::DelayId(5));
    assert_eq!(timers.next_due(), None);
}

#[test]
fn spawned_threads_run_in_order() {
    let mut s = Scheduler::new();
    assert!(!s.has_work());
    s.spawn(100, 1, 0);
    s.spawn(200, 2, 0);
    s.spawn(300, 3, 0);
    assert!(s.has_work());
    assert_eq!(s.run_until_idle(0), (Turn::Resume(vec![1, 2, 3]), vec![]));
    assert!(!s.has_work());
    assert_eq!(s.run_until_idle(0), (Turn::Idle, vec![]));
}

#[test]
fn delayed_tasks_start_when_their_delay_is_over() {
    let mut s = Scheduler::new();
    assert_eq!(s.delay(100, 50, 1000, 7, 0), 1);
    assert_eq!(s.delay(100, 20, 2000, 8, 0), 2);
    assert_eq!(s.next_due(), Some(120));
    assert_eq!(s.run_until_idle(119), (Turn::Sleep(120), vec![]));
    assert_eq!(s.run_until_idle(120), (Turn::Resume(vec![8]), vec![]));
    assert_eq!(s.run_until_idle(149), (Turn::Sleep(150), vec![]));
    assert_eq!(s.pop_due(1000), (vec![7], vec![]));
    assert_eq!(s.next_due(), None);
}

#[test]
fn spawned_threads_come_before_timers() {
    let mut s = Scheduler::new();
    s.delay(0, 5, 1000, 7, 0);
    s.spawn(2000, 8, 0);
    assert_eq!(s.run_until_idle(5), (Turn::Resume(vec![8, 7]), vec![]));
}

#[test]
fn what_is_due_earlier_is_resumed_earlier() {
    let mut s = Scheduler::new();
    s.delay(0, 30, 1, 3, 0);
    s.delay(0, 10, 2, 1, 0);
    s.delay(0, 20, 3, 2, 0);
    assert_eq!(s.pop_due(100), (vec![1, 2, 3], vec![]));
}

#[test]
fn a_wait_lasts_and_is_told() {
    let mut s = Scheduler::new();
    s.spawn(1000, 7, 0);
    s.run_until_idle(0);
    assert_eq!(s.wait(100, 50, 1000, 99), 7);
    assert_eq!(s.pop_due(149), (vec![], vec![]));
    assert_eq!(s.pop_due(160), (vec![7], vec![]));
    assert_eq!(s.begin_resume(7, 1000, 165), Resumption::Resume { args: 0, waited: Some(65) });
    assert_eq!(s.begin_resume(7, 1000, 170), Resumption::Resume { args: 0, waited: None });
    assert_eq!(s.wait(200, 10, 1000, 99), 7);
    assert_eq!(s.begin_resume(7, 1000, 190), Resumption::Resume { args: 0, waited: Some(0) });
}

#[test]
fn an_unknown_thread_waits_too() {
    let mut s = Scheduler::new();
    assert_eq!(s.known_ref(1000), None);
    assert_eq!(s.wait(0, 5, 1000, 42), 42);
    assert_eq!(s.known_ref(1000), Some(42));
    assert_eq!(s.run_until_idle(4), (Turn::Sleep(5), vec![]));
    assert_eq!(s.run_until_idle(5), (Turn::Resume(vec![42]), vec![]));
    assert_eq!(s.begin_resume(42, 1000, 6), Resumption::Resume { args: 0, waited: Some(6) });
}

#[test]
fn a_thread_starts_with_its_arguments() {
    let mut s = Scheduler::new();
    s.spawn(1000, 7, 2);
    s.delay(0, 10, 2000, 8, 3);
    assert_eq!(s.run_until_idle(10), (Turn::Resume(vec![7, 8]), vec![]));
    assert_eq!(s.begin_resume(7, 1000, 10), Resumption::Resume { args: 2, waited: None });
    assert_eq!(s.begin_resume(8, 2000, 10), Resumption::Resume { args: 3, waited: None });
    assert_eq!(s.begin_resume(7, 1000, 10), Resumption::Resume { args: 0, waited: None });
    assert_eq!(resume_count(lua::LUA_OK, 3, 2, None), 2);
    assert_eq!(resume_count(lua::LUA_YIELD, 3, 2, None), 0);
    assert_eq!(resume_count(lua::LUA_YIELD, 0, 0, Some(5)), 1);
    assert_eq!(resume_count(lua::LUA_OK, 2, 2, None), 1);
    assert_eq!(resume_count(lua::LUA_OK, 0, 2, None), 0);
}

#[test]
fn a_cancelled_wait_is_released() {
    let mut s = Scheduler::new();
    s.spawn(1000, 7, 0);
    assert_eq!(s.run_until_idle(0), (Turn::Resume(vec![7]), vec![]));
    assert_eq!(s.wait(0, 10, 1000, 99), 7);
    assert!(s.cancel_thread(1000));
    assert_eq!(s.run_until_idle(5), (Turn::Sleep(10), vec![]));
    assert_eq!(s.run_until_idle(10), (Turn::Idle, vec![7]));
    assert!(!s.cancel_thread(1000));
    assert_eq!(s.known_ref(1000), None);
}

#[test]
fn a_cancelled_delay_is_released() {
    let mut s = Scheduler::new();
    let id = s.delay(0, 10, 1000, 7, 0);
    let other = s.delay(0, 10, 2000, 8, 0);
    assert_ne!(id, other);
    assert!(s.cancel_delay(id as i64));
    assert_eq!(s.pop_due(10), (vec![8], vec![7]));
    assert!(!s.cancel_thread(1000));
    assert!(s.cancel_thread(2000));
}

#[test]
fn a_delay_that_has_no_thread_is_passed_over() {
    let mut s = Scheduler::new();
    assert!(s.cancel_delay(5));
    assert!(!s.cancel_delay(0));
    assert!(!s.cancel_delay(-1));
    assert!(!s.cancel_thread(0));
    assert!(!s.cancel_thread(9));
    assert_eq!(s.pop_due(u128::MAX), (vec![], vec![]));
}

#[test]
fn a_cancelled_thread_that_is_ready_is_released() {
    let mut s = Scheduler::new();
    s.spawn(1000, 7, 0);
    s.spawn(2000, 8, 0);
    assert!(s.cancel_thread(1000));
    assert_eq!(s.run_until_idle(0), (Turn::Resume(vec![8]), vec![7]));
    assert_eq!(s.known_ref(1000), None);
    s.spawn(3000, 7, 0);
    assert_eq!(s.run_until_idle(0), (Turn::Resume(vec![7]), vec![]));
    s.spawn(4000, 9, 0);
    assert!(s.cancel_thread(4000));
    assert_eq!(s.run_until_idle(0), (Turn::Idle, vec![9]));
}

#[test]
fn a_thread_that_is_cancelled_in_its_turn_is_not_resumed() {
    let mut s = Scheduler::new();
    s.spawn(1000, 7, 0);
    s.spawn(2000, 8, 0);
    assert_eq!(s.run_until_idle(0), (Turn::Resume(vec![7, 8]), vec![]));
    assert_eq!(s.begin_resume(7, 1000, 0), Resumption::Resume { args: 0, waited: None });
    assert!(s.cancel_thread(2000));
    assert_eq!(s.begin_resume(8, 2000, 0), Resumption::Canceled);
    assert_eq!(s.known_ref(2000), None);
}

#[test]
fn a_delayed_task_is_cancelled_after_it_has_started() {
    let mut s = Scheduler::new();
    let id = s.delay(0, 10, 1000, 7, 0);
    assert_eq!(s.run_until_idle(10), (Turn::Resume(vec![7]), vec![]));
    assert_eq!(s.begin_resume(7, 1000, 10), Resumption::Resume { args: 0, waited: None });
    assert_eq!(s.wait(10, 10, 1000, 99), 7);
    assert!(s.cancel_delay(id as i64));
    assert_eq!(s.run_until_idle(20), (Turn::Idle, vec![7]));
}

#[test]
fn a_number_that_was_not_given_cancels_nothing() {
    let mut s = Scheduler::new();
    assert!(s.cancel_delay(1));
    assert_eq!(s.delay(0, 10, 1000, 7, 0), 1);
    assert_eq!(s.pop_due(10), (vec![7], vec![]));
}

#[test]
fn the_cancellation_of_an_ended_thread_is_gone() {
    let mut s = Scheduler::new();
    s.spawn(1000, 7, 0);
    s.run_until_idle(0);
    s.begin_resume(7, 1000, 0);
    assert!(s.cancel_thread(1000));
    assert_eq!(s.end_resume(7, 1000, lua::LUA_OK), Outcome::Finished);
    s.spawn(2000, 7, 0);
    assert_eq!(s.run_until_idle(0), (Turn::Resume(vec![7]), vec![]));
    assert_eq!(s.begin_resume(7, 2000, 0), Resumption::Resume { args: 0, waited: None });
    assert_eq!(s.wait(0, 1, 2000, 99), 7);
    assert_eq!(s.run_until_idle(1), (Turn::Resume(vec![7]), vec![]));
}

#[test]
fn other_tasks_run_as_without_the_cancelled_one() {
    let plan = |cancel: bool| {
        let mut s = Scheduler::new();
        let id = s.delay(0, 20, 1000, 1, 0);
        s.delay(0, 10, 2000, 2, 0);
        s.delay(0, 30, 3000, 3, 0);
        s.spawn(4000, 4, 0);
        if cancel {
            assert!(s.cancel_delay(id as i64));
        }
        let mut run = vec![];
        let mut now: u128 = 0;
        loop {
            match s.run_until_idle(now).0 {
                Turn::Resume(list) => run.extend(list),
                Turn::Sleep(until) => now = until,
                Turn::Idle => return run,
            }
        }
    };
    assert_eq!(plan(false), vec![4, 2, 1, 3]);
    assert_eq!(plan(true), vec![4, 2, 3]);
}

#[test]
fn delay_numbers_differ() {
    let mut s = Scheduler::new();
    let ids: Vec<u64> = (0..5).map(|i| s.delay(0, 1, 1000 + i, i as i32, 0)).collect();
    assert_eq!(ids, vec![1, 2, 3, 4, 5]);
}

#[test]
fn an_ended_thread_is_forgotten() {
    let mut s = Scheduler::new();
    s.spawn(1000, 7, 0);
    assert_eq!(s.end_resume(7, 1000, lua::LUA_YIELD), Outcome::Yielded);
    assert!(s.cancel_thread(1000));
    assert_eq!(s.end_resume(7, 1000, lua::LUA_OK), Outcome::Finished);
    assert!(!s.cancel_thread(1000));
    s.spawn(2000, 8, 0);
    assert_eq!(s.end_resume(8, 2000, lua::LUA_ERRRUN), Outcome::Failed);
    assert!(!s.cancel_thread(2000));
}

#[test]
fn a_reference_without_a_thread_changes_nothing() {
    let mut s = Scheduler::new();
    s.spawn(1000, 7, 2);
    assert_eq!(s.run_until_idle(0), (Turn::Resume(vec![7]), vec![]));
    assert_eq!(s.begin_resume(7, 0, 0), Resumption::Gone);
    assert_eq!(s.known_ref(1000), Some(7));
    assert_eq!(s.begin_resume(7, 1000, 0), Resumption::Resume { args: 2, waited: None });
}

#[test]
fn the_main_thread_waits_until_its_target() {
    let mut s = Scheduler::new();
    assert_eq!(s.wait_on_main(0, 100), (Turn::Sleep(100), vec![]));
    s.delay(0, 40, 1000, 7, 0);
    s.delay(0, 200, 2000, 8, 0);
    assert_eq!(s.wait_on_main(10, 100), (Turn::Sleep(40), vec![]));
    assert_eq!(s.wait_on_main(40, 100), (Turn::Resume(vec![7]), vec![]));
    assert_eq!(s.wait_on_main(41, 100), (Turn::Sleep(100), vec![]));
    s.spawn(3000, 9, 0);
    assert_eq!(s.wait_on_main(100, 100), (Turn::Idle, vec![]));
    assert_eq!(s.wait_on_main(99, 100), (Turn::Resume(vec![9]), vec![]));
}

#[test]
fn what_is_cancelled_goes_by_its_type() {
    assert_eq!(cancel_target(1, lua::LUA_TTHREAD), CancelTarget::Thread);
    assert_eq!(cancel_target(2, lua::LUA_TNUMBER), CancelTarget::Delay);
    assert_eq!(cancel_target(0, lua::LUA_TTHREAD), CancelTarget::Nothing);
    assert_eq!(cancel_target(1, lua::LUA_TSTRING), CancelTarget::Nothing);
    assert_eq!(cancel_target(1, lua::LUA_TNIL), CancelTarget::Nothing);
}

#[test]
fn delays_are_bounded() {
    assert_eq!(MAX_DELAY_NS, 10 * 365 * 24 * 60 * 60 * 1_000_000_000);
    assert_eq!(delay_length(None), 0);
    assert_eq!(delay_length(Some(5)), 5);
    assert_eq!(delay_length(Some(MAX_DELAY_NS)), MAX_DELAY_NS);
    assert_eq!(delay_length(Some(u128::MAX)), MAX_DELAY_NS);
}

#[test]
fn sleeps_end_at_their_deadline() {
    assert_eq!(sleep_until(10, 4), Some(6));
    assert_eq!(sleep_until(10, 10), None);
    assert_eq!(sleep_until(10, 11), None);
    assert_eq!(waitable_timer_due(0), None);
    assert_eq!(waitable_timer_due(1), Some(-1));
    assert_eq!(waitable_timer_due(99), Some(-1));
    assert_eq!(waitable_timer_due(100), Some(-1));
    assert_eq!(waitable_timer_due(1_000_000), Some(-10_000));
}

#[test]
fn task_errors_are_told() {
    assert_eq!(task_error(Some("boom")), "[TASK ERROR] boom");
    assert_eq!(task_error(None), "[TASK ERROR] unknown");
}

#[test]
fn a_thread_is_handed_out_once() {
    let mut s = Scheduler::new();
    s.spawn(1000, 7, 0);
    assert_eq!(s.run_until_idle(0), (Turn::Resume(vec![7]), vec![]));
    assert_eq!(s.run_until_idle(0), (Turn::Idle, vec![]));
    assert_eq!(s.wait(0, 10, 1000, 99), 7);
    s.spawn(2000, 8, 0);
    assert_eq!(s.run_until_idle(5), (Turn::Resume(vec![8]), vec![]));
    assert_eq!(s.run_until_idle(10), (Turn::Resume(vec![7]), vec![]));
    assert_eq!(s.run_until_idle(20), (Turn::Idle, vec![]));
}

#[test]
fn a_cancelled_task_stays_silent_over_many_turns() {
    let mut s = Scheduler::new();
    s.spawn(1000, 7, 0);
    s.run_until_idle(0);
    s.begin_resume(7, 1000, 0);
    s.wait(0, 50, 1000, 99);
    assert!(s.cancel_thread(1000));
    for now in (0..200u128).step_by(10) {
        s.spawn(2000, 8, 0);
        let released = if now == 50 { vec![7] } else { vec![] };
        assert_eq!(s.run_until_idle(now), (Turn::Resume(vec![8]), released));
    }
    assert_eq!(s.run_until_idle(200), (Turn::Idle, vec![]));
}

#[test]
fn a_timer_of_an_ended_thread_wakes_no_other() {
    let mut s = Scheduler::new();
    s.spawn(1000, 7, 0);
    s.run_until_idle(0);
    s.begin_resume(7, 1000, 0);
    s.wait(0, 10, 1000, 99);
    assert_eq!(s.end_resume(7, 1000, lua::LUA_OK), Outcome::Finished);
    s.delay(0, 100, 2000, 7, 1);
    assert_eq!(s.pop_due(10), (vec![], vec![]));
    assert_eq!(s.pop_due(99), (vec![], vec![]));
    assert_eq!(s.pop_due(100), (vec![7], vec![]));
    assert_eq!(s.begin_resume(7, 2000, 100), Resumption::Resume { args: 1, waited: None });
}

#[test]
fn a_thread_that_waits_anew_waits_for_the_later_wait() {
    let mut s = Scheduler::new();
    assert_eq!(s.wait(0, 10, 1000, 7), 7);
    assert_eq!(s.wait(5, 100, 1000, 99), 7);
    assert_eq!(s.run_until_idle(10), (Turn::Sleep(105), vec![]));
    assert_eq!(s.run_until_idle(105), (Turn::Resume(vec![7]), vec![]));
    assert_eq!(s.begin_resume(7, 1000, 105), Resumption::Resume { args: 0, waited: Some(100) });
}

#[test]
fn a_thread_that_its_script_has_started_waits_in_peace() {
    let mut s = Scheduler::new();
    s.spawn(1000, 7, 0);
    assert_eq!(s.wait(0, 10, 1000, 99), 7);
    assert_eq!(s.run_until_idle(0), (Turn::Sleep(10), vec![]));
    assert_eq!(s.run_until_idle(10), (Turn::Resume(vec![7]), vec![]));
}

#[test]
fn a_cancelled_thread_with_two_timers_never_runs() {
    let mut s = Scheduler::new();
    s.wait(0, 10, 1000, 7);
    s.wait(0, 20, 1000, 99);
    assert!(s.cancel_thread(1000));
    assert_eq!(s.run_until_idle(10), (Turn::Sleep(20), vec![]));
    assert_eq!(s.run_until_idle(20), (Turn::Idle, vec![7]));
}
