//! Pending gate evaluations, ordered by time and then by the order of scheduling.
use crate::state::StateType;
use vstd::prelude::*;

verus! {

/// A request to evaluate a gate at a given simulated time.
#[derive(Debug, Clone, PartialEq, Eq)]
pub struct SimulationEvent {
    pub time: u64,
    /// Position in the order of scheduling; breaks ties between equal times.
    pub creation_time: u64,
    pub gate_id: String,
    /// `-1` asks for an evaluation of the whole gate.
    pub port_index: i32,
    pub new_state: StateType,
}

impl Default for EventQueue {
    fn default() -> (r: EventQueue)
        ensures
            r.wf(),
            r.view() == Seq::<SimulationEvent>::empty(),
            r.counter() == 0,
    {
        EventQueue::new()
    }
}

/// `a` leaves the queue before `b`.
pub open spec fn precedes(a: SimulationEvent, b: SimulationEvent) -> bool {
    a.time < b.time || (a.time == b.time && a.creation_time < b.creation_time)
}

/// Strictly ordered by `precedes`, so the head is the earliest event.
pub open spec fn is_ordered(s: Seq<SimulationEvent>) -> bool {
    forall|i: int, j: int| 0 <= i < j < s.len() ==> precedes(#[trigger] s[i], #[trigger] s[j])
}

/// `after` is `before` with `e` inserted at some position.
pub open spec fn pushed(
    before: Seq<SimulationEvent>,
    after: Seq<SimulationEvent>,
    e: SimulationEvent,
) -> bool {
    exists|k: int| 0 <= k <= before.len() && after == before.insert(k, e)
}

/// The event queue: a sequence kept ordered by `(time, creation_time)`.
pub struct EventQueue {
    events: Vec<SimulationEvent>,
    creation_counter: u64,
}

impl EventQueue {
    /// The pending events, earliest first.
    pub closed spec fn view(&self) -> Seq<SimulationEvent> {
        self.events@
    }

    /// The sequence number that the next pushed event receives.
    pub closed spec fn counter(&self) -> u64 {
        self.creation_counter
    }

    pub closed spec fn wf(&self) -> bool {
        &&& is_ordered(self.events@)
        &&& forall|i: int|
            0 <= i < self.events@.len() ==> #[trigger] self.events@[i].creation_time
                < self.creation_counter
    }

    pub fn new() -> (r: EventQueue)
        ensures
            r.wf(),
            r.view() == Seq::<SimulationEvent>::empty(),
            r.counter() == 0,
    {
        EventQueue { events: Vec::new(), creation_counter: 0 }
    }

    /// Schedules an event; among events of equal time it leaves after all earlier ones.
    pub fn push(&mut self, time: u64, gate_id: String, port_index: i32, new_state: StateType)
        requires
            old(self).wf(),
            old(self).counter() < u64::MAX,
        ensures
            final(self).wf(),
            final(self).counter() == old(self).counter() + 1,
            pushed(
                old(self).view(),
                final(self).view(),
                (SimulationEvent {
                    time,
                    creation_time: old(self).counter(),
                    gate_id,
                    port_index,
                    new_state,
                }),
            ),
    {
        let event = SimulationEvent {
            time,
            creation_time: self.creation_counter,
            gate_id,
            port_index,
            new_state,
        };
        let mut k: usize = 0;
        while k < self.events.len() && self.events[k].time <= time
            invariant
                0 <= k <= self.events@.len(),
                forall|j: int| 0 <= j < k ==> #[trigger] self.events@[j].time <= time,
            decreases self.events@.len() - k,
        {
            k = k + 1;
        }
        proof {
            let s = self.events@;
            assert forall|j: int| k <= j < s.len() implies #[trigger] s[j].time > time by {
                if j > k {
                    assert(precedes(s[k as int], s[j]));
                }
            }
        }
        let ghost before = self.events@;
        self.events.insert(k, event);
        self.creation_counter = self.creation_counter + 1;
        proof {
            let s = self.events@;
            assert(s == before.insert(k as int, event));
            assert(self.view() == old(self).view().insert(k as int, event));
            assert forall|a: int, b: int| 0 <= a < b < s.len() implies precedes(
                #[trigger] s[a],
                #[trigger] s[b],
            ) by {
                if a < k && b > k {
                    assert(precedes(before[a], before[b - 1]));
                } else if a > k {
                    assert(precedes(before[a - 1], before[b - 1]));
                } else if b < k {
                    assert(precedes(before[a], before[b]));
                } else if a == k {
                    assert(before[b - 1].time > time);
                } else {
                    assert(before[a].time <= time);
                    assert(before[a].creation_time < old(self).creation_counter);
                }
            }
            assert forall|i: int| 0 <= i < s.len() implies #[trigger] s[i].creation_time
                < self.creation_counter by {
                if i < k {
                    assert(s[i] == before[i]);
                } else if i > k {
                    assert(s[i] == before[i - 1]);
                }
            }
        }
    }

    /// Removes and returns the earliest event.
    pub fn pop(&mut self) -> (r: Option<SimulationEvent>)
        requires
            old(self).wf(),
        ensures
            final(self).wf(),
            final(self).counter() == old(self).counter(),
            old(self).view().len() == 0 ==> r.is_none() && final(self).view() == old(self).view(),
            old(self).view().len() > 0 ==> r == Some(old(self).view()[0]) && final(self).view()
                == old(self).view().drop_first(),
    {
        if self.events.len() == 0 {
            None
        } else {
            let e = self.events.remove(0);
            proof {
                let s = self.events@;
                assert forall|a: int, b: int| 0 <= a < b < s.len() implies precedes(
                    #[trigger] s[a],
                    #[trigger] s[b],
                ) by {
                    assert(precedes(old(self).events@[a + 1], old(self).events@[b + 1]));
                }
                assert forall|i: int| 0 <= i < s.len() implies #[trigger] s[i].creation_time
                    < self.creation_counter by {
                    assert(s[i] == old(self).events@[i + 1]);
                }
                assert(s == old(self).events@.drop_first());
            }
            Some(e)
        }
    }

    /// The earliest event, left in place.
    pub fn peek(&self) -> (r: Option<&SimulationEvent>)
        ensures
            r.is_none() == (self.view().len() == 0),
            r.is_some() ==> *r.unwrap() == self.view()[0],
    {
        if self.events.len() == 0 {
            None
        } else {
            Some(&self.events[0])
        }
    }

    /// The sequence number that the next push assigns.
    pub fn next_sequence(&self) -> (r: u64)
        ensures
            r == self.counter(),
    {
        self.creation_counter
    }

    pub fn is_empty(&self) -> (r: bool)
        ensures
            r == (self.view().len() == 0),
    {
        self.events.len() == 0
    }

    pub fn len(&self) -> (r: usize)
        ensures
            r == self.view().len(),
    {
        self.events.len()
    }

    /// Drops every event and restarts the sequence numbers at zero.
    pub fn clear(&mut self)
        ensures
            final(self).wf(),
            final(self).view() == Seq::<SimulationEvent>::empty(),
            final(self).counter() == 0,
    {
        self.events.clear();
        self.creation_counter = 0;
    }

    /// Drops every event for `gate_id`; the others keep their order.
    pub fn remove_events_for_gate(&mut self, gate_id: &str)
        requires
            old(self).wf(),
        ensures
            final(self).wf(),
            final(self).counter() == old(self).counter(),
            final(self).view() == without_gate(old(self).view(), gate_id@),
    {
        let target = gate_id.to_owned();
        let ghost orig = self.events@;
        let mut i: usize = 0;
        let mut j: usize = 0;
        let n = self.events.len();
        while j < n
            invariant
                n == orig.len(),
                self.wf(),
                self.creation_counter == old(self).creation_counter,
                orig == old(self).events@,
                target@ == gate_id@,
                0 <= i <= j <= orig.len(),
                self.events@.len() == i + (orig.len() - j),
                self.events@.take(i as int) == without_gate(orig.take(j as int), gate_id@),
                self.events@.skip(i as int) == orig.skip(j as int),
            decreases orig.len() - j,
        {
            proof {
                assert(orig.take(j + 1).drop_last() == orig.take(j as int));
                assert(self.events@[i as int] == self.events@.skip(i as int)[0]);
            }
            let ghost before = self.events@;
            if self.events[i].gate_id == target {
                self.events.remove(i);
                proof {
                    let s = self.events@;
                    assert forall|a: int, b: int| 0 <= a < b < s.len() implies precedes(
                        #[trigger] s[a],
                        #[trigger] s[b],
                    ) by {
                        let a2 = if a < i { a } else { a + 1 };
                        let b2 = if b < i { b } else { b + 1 };
                        assert(precedes(before[a2], before[b2]));
                    }
                    assert forall|x: int| 0 <= x < s.len() implies #[trigger] s[x].creation_time
                        < self.creation_counter by {
                        let x2 = if x < i { x } else { x + 1 };
                        assert(s[x] == before[x2]);
                    }
                    assert(s.take(i as int) == before.take(i as int));
                    assert forall|x: int| 0 <= x < s.len() - i implies #[trigger] s.skip(
                        i as int,
                    )[x] == orig.skip(j + 1)[x] by {
                        assert(before.skip(i as int)[x + 1] == orig.skip(j as int)[x + 1]);
                    }
                    assert(s.skip(i as int) == orig.skip(j + 1));
                }
            } else {
                i = i + 1;
                proof {
                    assert(self.events@.take(i as int) == before.take(i - 1).push(orig[j as int]));
                    let s = self.events@;
                    assert forall|x: int| 0 <= x < s.len() - i implies #[trigger] s.skip(
                        i as int,
                    )[x] == orig.skip(j + 1)[x] by {
                        assert(before.skip(i - 1)[x + 1] == orig.skip(j as int)[x + 1]);
                    }
                    assert(s.skip(i as int) == orig.skip(j + 1));
                }
            }
            j = j + 1;
        }
        proof {
            assert(orig.take(orig.len() as int) == orig);
            assert(self.events@ == self.events@.take(i as int));
        }
    }
}

/// `events` without those for `gate_id`, in their order.
pub open spec fn without_gate(events: Seq<SimulationEvent>, gate_id: Seq<char>) -> Seq<
    SimulationEvent,
>
    decreases events.len(),
{
    if events.len() == 0 {
        events
    } else {
        let rest = without_gate(events.drop_last(), gate_id);
        if events.last().gate_id@ == gate_id {
            rest
        } else {
            rest.push(events.last())
        }
    }
}

/// What the invariant of a queue says of its contents.
pub proof fn lemma_wf_contents(q: EventQueue)
    requires
        q.wf(),
    ensures
        is_ordered(q.view()),
        forall|i: int| 0 <= i < q.view().len() ==> #[trigger] q.view()[i].creation_time < q.counter(),
{
}

/// An event that is no earlier than any other and was pushed last goes to the end.
pub proof fn lemma_latest_push_goes_last(
    before: Seq<SimulationEvent>,
    after: Seq<SimulationEvent>,
    e: SimulationEvent,
)
    requires
        is_ordered(after),
        pushed(before, after, e),
        forall|i: int|
            0 <= i < before.len() ==> #[trigger] before[i].time <= e.time && before[i].creation_time
                < e.creation_time,
    ensures
        after == before.push(e),
{
    let k = choose|k: int| 0 <= k <= before.len() && after == before.insert(k, e);
    if k < before.len() {
        assert(after[k] == e);
        assert(after[k + 1] == before[k]);
        assert(precedes(after[k], after[k + 1]));
    }
    assert(after =~= before.push(e));
}

/// Two events pushed one after the other at equal times stand in the queue, and so
/// leave it, in the order they were pushed, whatever else the queue holds.
pub proof fn lemma_consecutive_pushes_keep_order(
    q0: EventQueue,
    q1: EventQueue,
    q2: EventQueue,
    a: SimulationEvent,
    b: SimulationEvent,
)
    requires
        q0.wf(),
        q1.wf(),
        q2.wf(),
        a.creation_time == q0.counter(),
        q1.counter() == q0.counter() + 1,
        pushed(q0.view(), q1.view(), a),
        b.creation_time == q1.counter(),
        pushed(q1.view(), q2.view(), b),
        a.time == b.time,
    ensures
        exists|i: int, j: int|
            0 <= i < j < q2.view().len() && #[trigger] q2.view()[i] == a && #[trigger] q2.view()[j]
                == b,
{
    let k1 = choose|k: int| 0 <= k <= q0.view().len() && q1.view() == q0.view().insert(k, a);
    let k2 = choose|k: int| 0 <= k <= q1.view().len() && q2.view() == q1.view().insert(k, b);
    assert(q1.view()[k1] == a);
    let i = if k2 <= k1 {
        k1 + 1
    } else {
        k1
    };
    assert(q2.view()[i] == a);
    assert(q2.view()[k2] == b);
    lemma_equal_times_leave_in_push_order(q2, i, k2);
}

/// Among events of equal time, the one scheduled first leaves the queue first.
pub proof fn lemma_equal_times_leave_in_push_order(q: EventQueue, i: int, j: int)
    requires
        q.wf(),
        0 <= i < q.view().len(),
        0 <= j < q.view().len(),
        q.view()[i].time == q.view()[j].time,
        q.view()[i].creation_time < q.view()[j].creation_time,
    ensures
        i < j,
{
    if j < i {
        assert(precedes(q.view()[j], q.view()[i]));
    } else if i == j {
    }
}

} // verus!
