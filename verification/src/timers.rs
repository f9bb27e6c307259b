//! Tasks that wait for a point in time, the earliest first.
use vstd::prelude::*;

verus! {

/// What a timer stands for.
#[derive(Clone, Copy, PartialEq, Eq, Structural, Debug)]
pub enum TaskKey {
    /// The wait of the thread under this reference.
    ThreadRef(i32),
    /// The delayed task of this number.
    DelayId(u64),
}

/// A timer: a point in time, in nanoseconds, and what it stands for.
#[derive(Clone, Copy, PartialEq, Eq, Structural, Debug)]
pub struct ScheduledTask {
    pub due: u128,
    pub key: TaskKey,
}

/// Whether no timer is due before one that stands in front of it.
pub open spec fn sorted(timers: Seq<ScheduledTask>) -> bool {
    forall|i: int, j: int|
        0 <= i <= j < timers.len() ==> (#[trigger] timers[i]).due <= (#[trigger] timers[j]).due
}

/// How many timers at the front are due at `now`.
pub open spec fn count_due(timers: Seq<ScheduledTask>, now: u128) -> int
    decreases timers.len(),
{
    if timers.len() == 0 || timers.first().due > now {
        0
    } else {
        1 + count_due(timers.drop_first(), now)
    }
}

/// The timers with one more, behind all that are not due later.
pub open spec fn with_timer(timers: Seq<ScheduledTask>, t: ScheduledTask) -> Seq<ScheduledTask> {
    let n = count_due(timers, t.due);
    timers.take(n) + seq![t] + timers.skip(n)
}

/// At least the timers up to a timer that is due are counted, and no timer
/// that is not due.
pub proof fn lemma_count_due(timers: Seq<ScheduledTask>, now: u128)
    ensures
        0 <= count_due(timers, now) <= timers.len(),
        forall|i: int| 0 <= i < count_due(timers, now) ==> (#[trigger] timers[i]).due <= now,
        count_due(timers, now) < timers.len() ==> timers[count_due(timers, now)].due > now,
    decreases timers.len(),
{
    if timers.len() > 0 && timers.first().due <= now {
        let rest = timers.drop_first();
        lemma_count_due(rest, now);
        assert forall|i: int| 0 <= i < count_due(timers, now) implies (#[trigger] timers[i]).due
            <= now by {
            if i > 0 {
                assert(rest[i - 1] == timers[i]);
            }
        }
    }
}

/// The count of the timers that are due is fixed by where they end.
pub proof fn lemma_count_is(timers: Seq<ScheduledTask>, now: u128, n: int)
    requires
        0 <= n <= timers.len(),
        forall|i: int| 0 <= i < n ==> (#[trigger] timers[i]).due <= now,
        n < timers.len() ==> timers[n].due > now,
    ensures
        count_due(timers, now) == n,
{
    lemma_count_due(timers, now);
    let k = count_due(timers, now);
    if k < n {
        assert(timers[k].due <= now);
    } else if n < k {
        assert(timers[n].due <= now);
    }
}

/// A timer more keeps the timers sorted.
pub proof fn lemma_with_timer(timers: Seq<ScheduledTask>, t: ScheduledTask)
    requires
        sorted(timers),
    ensures
        sorted(with_timer(timers, t)),
{
    lemma_count_due(timers, t.due);
    let n = count_due(timers, t.due);
    let r = with_timer(timers, t);
    assert forall|i: int, j: int| 0 <= i <= j < r.len() implies (#[trigger] r[i]).due <= (
    #[trigger] r[j]).due by {
        if i < n && j == n {
            assert(timers[i].due <= t.due);
        } else if i == n && j > n {
            assert(timers[n].due <= timers[j - 1].due);
        } else if i < n && j < n {
            assert(timers[i].due <= timers[j].due);
        } else if i < n && j > n {
            assert(timers[i].due <= timers[j - 1].due);
        } else if i > n {
            assert(timers[i - 1].due <= timers[j - 1].due);
        }
    }
}

/// The timers that are set, the earliest first; of those that are due at the
/// same time, the one that was set first.
pub struct Timers {
    // The earliest stands last.
    list: Vec<ScheduledTask>,
}

impl View for Timers {
    type V = Seq<ScheduledTask>;

    closed spec fn view(&self) -> Seq<ScheduledTask> {
        self.list@.reverse()
    }
}

impl Timers {
    #[verifier::type_invariant]
    spec fn in_order(self) -> bool {
        sorted(self.list@.reverse())
    }

    /// No timer.
    pub fn new() -> (r: Timers)
        ensures
            r@ == Seq::<ScheduledTask>::empty(),
    {
        let list: Vec<ScheduledTask> = Vec::new();
        assert(list@.reverse() =~= Seq::<ScheduledTask>::empty());
        Timers { list }
    }

    /// Whether no timer is set.
    pub fn is_empty(&self) -> (r: bool)
        ensures
            r == (self@.len() == 0),
    {
        self.list.len() == 0
    }

    /// The time at which the first timer is due; no other is due before it.
    pub fn next_due(&self) -> (r: Option<u128>)
        ensures
            match r {
                Some(due) => self@.len() > 0 && due == self@[0].due && forall|i: int|
                    0 <= i < self@.len() ==> due <= (#[trigger] self@[i]).due,
                None => self@.len() == 0,
            },
            sorted(self@),
    {
        proof {
            use_type_invariant(self);
        }
        if self.list.len() == 0 {
            None
        } else {
            Some(self.list[self.list.len() - 1].due)
        }
    }

    /// Sets a timer.
    pub fn push(&mut self, t: ScheduledTask)
        ensures
            final(self)@ == with_timer(old(self)@, t),
            sorted(final(self)@),
    {
        proof {
            use_type_invariant(&*self);
        }
        let mut list: Vec<ScheduledTask> = Vec::new();
        std::mem::swap(&mut list, &mut self.list);
        let ghost before = list@.reverse();
        let mut i: usize = 0;
        while i < list.len() && list[i].due > t.due
            invariant
                i <= list@.len(),
                forall|j: int| 0 <= j < i ==> (#[trigger] list@[j]).due > t.due,
            decreases list@.len() - i,
        {
            i += 1;
        }
        let ghost n = list@.len() - i;
        proof {
            assert forall|j: int| 0 <= j < n implies (#[trigger] before[j]).due <= t.due by {
                assert(before[n - 1] == list@[i as int]);
                assert(before[j].due <= before[n - 1].due);
            }
            if n < before.len() {
                assert(before[n] == list@[i - 1]);
            }
            lemma_count_is(before, t.due, n);
            lemma_with_timer(before, t);
        }
        list.insert(i, t);
        assert(list@.reverse() =~= with_timer(before, t));
        self.list = list;
    }

    /// Takes the first timer off, if it is due at `now`.
    pub fn pop(&mut self, now: u128) -> (r: Option<ScheduledTask>)
        ensures
            match r {
                Some(t) => old(self)@.len() > 0 && old(self)@[0].due <= now && t == old(self)@[0]
                    && final(self)@ == old(self)@.drop_first(),
                None => (old(self)@.len() == 0 || old(self)@[0].due > now) && final(self)@ == old(
                    self,
                )@,
            },
            sorted(final(self)@),
    {
        proof {
            use_type_invariant(&*self);
        }
        if self.list.len() == 0 || self.list[self.list.len() - 1].due > now {
            return None;
        }
        let mut list: Vec<ScheduledTask> = Vec::new();
        std::mem::swap(&mut list, &mut self.list);
        let ghost before = list@.reverse();
        let t = list.pop();
        let ghost after = before.drop_first();
        assert(list@.reverse() =~= after);
        assert forall|i: int, j: int| 0 <= i <= j < after.len() implies (#[trigger] after[i]).due
            <= (#[trigger] after[j]).due by {
            assert(before[i + 1].due <= before[j + 1].due);
        }
        self.list = list;
        t
    }
}

} // verus!
