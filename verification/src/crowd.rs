//! Calls that share one bulkhead: how their steps take and give back its permits.

use vstd::prelude::*;

use crate::bulkhead::{permits_in_all, Bulkhead, Occupancy, OccupancyEvent};
use crate::call::{
    attempt_started, law_steps_stay_well_formed, CallView, Reply, StepView, Work,
};

verus! {

/// What a reply to a step means for the bulkhead: its own reply is one to an ask
/// for a permit, and the end of an operation that held a permit gives it back.
pub open spec fn occupancy_event<T, E>(step: StepView<T, E>, reply: Reply<T, E>) -> Option<
    OccupancyEvent,
> {
    match (step, reply.work) {
        (StepView::EnterBulkhead { .. }, Work::Bulkhead { acquired }) => Some(
            OccupancyEvent::Acquire { reply: acquired },
        ),
        (StepView::Run { call, .. }, Work::Operation { .. }) => if call.bulkhead {
            Some(OccupancyEvent::Release)
        } else {
            None
        },
        _ => None,
    }
}

/// A call gets its permit where the bulkhead grants one, holds it while its
/// operation runs, and gives it back when the operation has ended, whatever the
/// result: with a value, with an error, or cut off by the timeout.
pub proof fn law_permit_is_held_while_the_operation_runs<T, E>(
    step: StepView<T, E>,
    reply: Reply<T, E>,
)
    requires
        step.well_formed(),
        step.takes(reply),
    ensures
        step.next(reply).holds_permit() <==> (occupancy_event(step, reply) matches Some(
            OccupancyEvent::Acquire { reply: granted },
        ) && granted is Ok),
        step.holds_permit() <==> occupancy_event(step, reply) == Some(OccupancyEvent::Release),
        step.holds_permit() ==> !step.next(reply).holds_permit(),
{
}

/// Calls on their way, and the permits of the bulkhead that they share.
pub struct Crowd<T, E> {
    /// The steps of the calls.
    pub steps: Seq<StepView<T, E>>,
    /// The permits.
    pub occupancy: Occupancy,
}

/// One event in a crowd.
pub enum CrowdEvent<T, E> {
    /// A call starts.
    Start { call: CallView },
    /// A call goes on with a reply.
    GoOn { index: int, reply: Reply<T, E> },
    /// A call is given up, and what it holds is dropped.
    Abandon { index: int },
}

/// The number of steps in which a call holds a permit.
pub open spec fn holders<T, E>(steps: Seq<StepView<T, E>>) -> nat
    decreases steps.len(),
{
    if steps.len() == 0 {
        0
    } else {
        holders(steps.drop_last()) + if steps.last().holds_permit() {
            1nat
        } else {
            0nat
        }
    }
}

impl<T, E> Crowd<T, E> {
    /// No call yet, at a bulkhead.
    pub open spec fn at(bulkhead: Bulkhead) -> Crowd<T, E> {
        Crowd { steps: Seq::empty(), occupancy: Occupancy::of(bulkhead) }
    }

    /// Whether an event can come. Of the bulkhead it is taken for granted how it
    /// replies to an ask; that a permit which goes back was held is not.
    pub open spec fn allows(self, event: CrowdEvent<T, E>) -> bool {
        match event {
            CrowdEvent::Start { call } => call.well_formed(),
            CrowdEvent::GoOn { index, reply } => {
                &&& 0 <= index < self.steps.len()
                &&& self.steps[index].takes(reply)
                &&& occupancy_event(self.steps[index], reply) matches Some(event) ==> {
                    event is Acquire ==> self.occupancy.allows(event)
                }
            },
            CrowdEvent::Abandon { index } => 0 <= index < self.steps.len(),
        }
    }

    /// The crowd after an event.
    pub open spec fn after(self, event: CrowdEvent<T, E>) -> Crowd<T, E> {
        match event {
            CrowdEvent::Start { call } => Crowd {
                steps: self.steps.push(attempt_started(call)),
                ..self
            },
            CrowdEvent::GoOn { index, reply } => Crowd {
                steps: self.steps.update(index, self.steps[index].next(reply)),
                occupancy: match occupancy_event(self.steps[index], reply) {
                    Some(event) => self.occupancy.after(event),
                    None => self.occupancy,
                },
            },
            CrowdEvent::Abandon { index } => Crowd {
                steps: self.steps.remove(index),
                occupancy: if self.steps[index].holds_permit() {
                    self.occupancy.after(OccupancyEvent::Release)
                } else {
                    self.occupancy
                },
            },
        }
    }

    /// The crowd after a sequence of events.
    pub open spec fn after_all(self, events: Seq<CrowdEvent<T, E>>) -> Crowd<T, E>
        decreases events.len(),
    {
        if events.len() == 0 {
            self
        } else {
            self.after_all(events.drop_last()).after(events.last())
        }
    }

    /// Whether a sequence of events can come.
    pub open spec fn allows_all(self, events: Seq<CrowdEvent<T, E>>) -> bool
        decreases events.len(),
    {
        events.len() > 0 ==> {
            &&& self.allows_all(events.drop_last())
            &&& self.after_all(events.drop_last()).allows(events.last())
        }
    }

    /// What holds of every crowd: its steps are well formed, and the permits that
    /// are held are those of the calls that run their operation, within the limit.
    pub open spec fn well_formed(self) -> bool {
        &&& forall|i: int| 0 <= i < self.steps.len() ==> #[trigger] self.steps[i].well_formed()
        &&& self.occupancy.held == holders(self.steps)
        &&& self.occupancy.held <= self.occupancy.limit
    }
}

/// Whatever calls come, go on and are given up, the permits of their bulkhead that
/// are held are those of the calls that run their operation. There are at most as
/// many as the bulkhead was made with, so no more calls run at the same time. What
/// goes back was held, and goes back whatever the result of the operation.
pub proof fn law_no_more_running_calls_than_permits<T, E>(
    bulkhead: Bulkhead,
    events: Seq<CrowdEvent<T, E>>,
)
    requires
        Crowd::<T, E>::at(bulkhead).allows_all(events),
    ensures
        ({
            let crowd = Crowd::<T, E>::at(bulkhead).after_all(events);
            &&& crowd.well_formed()
            &&& crowd.occupancy.limit == permits_in_all(bulkhead.semaphore())
            &&& holders(crowd.steps) <= permits_in_all(bulkhead.semaphore())
            &&& forall|index: int, reply: Reply<T, E>|
                0 <= index < crowd.steps.len() && crowd.steps[index].holds_permit()
                    && #[trigger] crowd.steps[index].takes(reply) ==> {
                    let next = crowd.after(CrowdEvent::GoOn { index, reply });
                    &&& crowd.occupancy.allows(OccupancyEvent::Release)
                    &&& !next.steps[index].holds_permit()
                    &&& next.occupancy.held == crowd.occupancy.held - 1
                }
        }),
    decreases events.len(),
{
    let start = Crowd::<T, E>::at(bulkhead);
    if events.len() > 0 {
        let before = start.after_all(events.drop_last());
        law_no_more_running_calls_than_permits(bulkhead, events.drop_last());
        lemma_event_keeps_crowd(before, events.last());
    }
    let crowd = start.after_all(events);
    assert forall|index: int, reply: Reply<T, E>|
        0 <= index < crowd.steps.len() && crowd.steps[index].holds_permit()
            && #[trigger] crowd.steps[index].takes(reply) implies {
        let next = crowd.after(CrowdEvent::GoOn { index, reply });
        &&& crowd.occupancy.allows(OccupancyEvent::Release)
        &&& !next.steps[index].holds_permit()
        &&& next.occupancy.held == crowd.occupancy.held - 1
    } by {
        lemma_holder_is_counted(crowd.steps, index);
        law_permit_is_held_while_the_operation_runs(crowd.steps[index], reply);
    }
}

/// No event breaks what holds of every crowd.
proof fn lemma_event_keeps_crowd<T, E>(crowd: Crowd<T, E>, event: CrowdEvent<T, E>)
    requires
        crowd.well_formed(),
        crowd.allows(event),
    ensures
        crowd.after(event).well_formed(),
        crowd.after(event).occupancy.limit == crowd.occupancy.limit,
{
    let next = crowd.after(event);
    match event {
        CrowdEvent::Start { call } => {
            let step = attempt_started::<T, E>(call);
            assert(step.well_formed() && !step.holds_permit());
            assert(next.steps.drop_last() =~= crowd.steps);
            assert(next.steps.last() == step);
        },
        CrowdEvent::GoOn { index, reply } => {
            let step = crowd.steps[index];
            law_permit_is_held_while_the_operation_runs(step, reply);
            lemma_holders_update(crowd.steps, index, step.next(reply));
            if step.holds_permit() {
                lemma_holder_is_counted(crowd.steps, index);
            }
            law_steps_stay_well_formed(step.ongoing()->0, step, reply);
            assert forall|i: int| 0 <= i < next.steps.len() implies #[trigger]
                next.steps[i].well_formed() by {
                assert(crowd.steps[i].well_formed());
            }
        },
        CrowdEvent::Abandon { index } => {
            lemma_holders_remove(crowd.steps, index);
            assert forall|i: int| 0 <= i < next.steps.len() implies #[trigger]
                next.steps[i].well_formed() by {
                assert(crowd.steps[i].well_formed());
                assert(crowd.steps[i + 1].well_formed());
            }
        },
    }
}

/// A step that holds a permit is among those that are counted.
proof fn lemma_holder_is_counted<T, E>(steps: Seq<StepView<T, E>>, index: int)
    requires
        0 <= index < steps.len(),
        steps[index].holds_permit(),
    ensures
        holders(steps) >= 1,
    decreases steps.len(),
{
    if index < steps.len() - 1 {
        lemma_holder_is_counted(steps.drop_last(), index);
    }
}

/// Another step in the place of one changes the count by what the two hold.
proof fn lemma_holders_update<T, E>(
    steps: Seq<StepView<T, E>>,
    index: int,
    step: StepView<T, E>,
)
    requires
        0 <= index < steps.len(),
    ensures
        holders(steps.update(index, step)) + (if steps[index].holds_permit() {
            1int
        } else {
            0
        }) == holders(steps) + (if step.holds_permit() {
            1int
        } else {
            0
        }),
    decreases steps.len(),
{
    if index < steps.len() - 1 {
        lemma_holders_update(steps.drop_last(), index, step);
        assert(steps.update(index, step).drop_last() =~= steps.drop_last().update(index, step));
    } else {
        assert(steps.update(index, step).drop_last() =~= steps.drop_last());
    }
}

/// A step that is taken out lowers the count by what it holds.
proof fn lemma_holders_remove<T, E>(steps: Seq<StepView<T, E>>, index: int)
    requires
        0 <= index < steps.len(),
    ensures
        holders(steps.remove(index)) + (if steps[index].holds_permit() {
            1int
        } else {
            0
        }) == holders(steps),
    decreases steps.len(),
{
    if index < steps.len() - 1 {
        lemma_holders_remove(steps.drop_last(), index);
        assert(steps.remove(index).drop_last() =~= steps.drop_last().remove(index));
    } else {
        assert(steps.remove(index) =~= steps.drop_last());
    }
}

} // verus!
