//! The bulkhead: it limits the number of operations that run at the same time.

use std::sync::Arc;

use tokio::sync::{OwnedSemaphorePermit, Semaphore, TryAcquireError};
use vstd::prelude::*;

use crate::error::Error;

verus! {

/// Tokio's semaphore: a store of permits that threads share.
#[verifier::external_type_specification]
#[verifier::external_body]
pub struct ExSemaphore(Semaphore);

/// A permit out of a semaphore, which goes back there when it is dropped.
#[verifier::external_type_specification]
#[verifier::external_body]
pub struct ExOwnedSemaphorePermit(OwnedSemaphorePermit);

/// Why a semaphore handed out no permit.
#[verifier::external_type_specification]
#[verifier::external_body]
pub struct ExTryAcquireError(TryAcquireError);

/// The number of permits that a semaphore was made with.
pub uninterp spec fn permits_in_all(semaphore: Semaphore) -> nat;

/// The semaphore that a permit came out of.
pub uninterp spec fn home_of(permit: OwnedSemaphorePermit) -> Semaphore;

/// `Semaphore::new` makes a semaphore with the given number of permits. It
/// panics above `Semaphore::MAX_PERMITS`, an eighth of the range of `usize`.
pub assume_specification[ Semaphore::new ](permits: usize) -> (semaphore: Semaphore)
    requires
        permits <= usize::MAX / 8,
    ensures
        permits_in_all(semaphore) == permits,
;

/// `Semaphore::try_acquire_owned` takes one permit out of the semaphore, if one
/// is in it at that moment. The permit came out of that semaphore. Whether one
/// is there rests on what other threads hold, and nothing is said of it.
pub assume_specification[ Semaphore::try_acquire_owned ](semaphore: Arc<Semaphore>) -> (acquired:
    Result<OwnedSemaphorePermit, TryAcquireError>)
    ensures
        acquired matches Ok(permit) ==> home_of(permit) == *semaphore,
;

/// Semaphore-style bulkhead that limits concurrent operations.
///
/// It protects the rest of an application from one busy dependency by rejecting
/// calls once the configured in-flight limit is reached. Clones share the limit.
#[derive(Debug)]
pub struct Bulkhead {
    semaphore: Arc<Semaphore>,
}

impl Bulkhead {
    /// The handle of the semaphore that holds the permits of this bulkhead.
    pub closed spec fn handle(&self) -> Arc<Semaphore> {
        self.semaphore
    }

    /// The semaphore that holds the permits of this bulkhead.
    pub open spec fn semaphore(&self) -> Semaphore {
        *self.handle()
    }

    /// Creates a bulkhead allowing at most `max_concurrent` in-flight calls.
    ///
    /// A value of zero is treated as one.
    pub fn new(max_concurrent: usize) -> (bulkhead: Self)
        requires
            max_concurrent <= usize::MAX / 8,
        ensures
            permits_in_all(bulkhead.semaphore()) == if max_concurrent == 0 {
                1
            } else {
                max_concurrent as nat
            },
    {
        let permits: usize = if max_concurrent == 0 {
            1
        } else {
            max_concurrent
        };
        Bulkhead { semaphore: Arc::new(Semaphore::new(permits)) }
    }

    /// Takes one permit of this bulkhead for a call, if one is free: the semaphore
    /// is asked, and its answer decides. The permit is free again once it is
    /// dropped.
    pub fn try_acquire(&self) -> (acquired: Result<OwnedSemaphorePermit, Error<()>>)
        ensures
            exists|answer: Result<OwnedSemaphorePermit, TryAcquireError>| #[trigger]
                call_ensures(Semaphore::try_acquire_owned, (self.handle(),), answer) && acquired
                    == admitted(answer),
            match acquired {
                Ok(permit) => home_of(permit) == self.semaphore(),
                Err(error) => error == Error::<()>::BulkheadRejected,
            },
    {
        let answer = self.semaphore.clone().try_acquire_owned();
        assert(call_ensures(Semaphore::try_acquire_owned, (self.handle(),), answer));
        admission(answer)
    }
}

/// What a bulkhead tells a call that its semaphore gave an answer: the permit, or
/// that the call is rejected.
pub open spec fn admitted(answer: Result<OwnedSemaphorePermit, TryAcquireError>) -> Result<
    OwnedSemaphorePermit,
    Error<()>,
> {
    match answer {
        Ok(permit) => Ok(permit),
        Err(_) => Err(Error::BulkheadRejected),
    }
}

/// What a bulkhead tells a call: the permit, or that the call is rejected.
pub fn admission(acquired: Result<OwnedSemaphorePermit, TryAcquireError>) -> (admission: Result<
    OwnedSemaphorePermit,
    Error<()>,
>)
    ensures
        admission == admitted(acquired),
{
    match acquired {
        Ok(permit) => Ok(permit),
        Err(_) => Err(Error::BulkheadRejected),
    }
}

/// The permits of a bulkhead that calls hold.
pub struct Occupancy {
    /// The number of permits that the bulkhead was made with.
    pub limit: nat,
    /// The number of permits that are held.
    pub held: nat,
}

/// One event at a bulkhead.
pub enum OccupancyEvent {
    /// A call asks for a permit, and gets this reply.
    Acquire { reply: Result<(), Error<()>> },
    /// A call drops the permit that it holds.
    Release,
}

impl Occupancy {
    /// The permits of a new bulkhead: none is held.
    pub open spec fn of(bulkhead: Bulkhead) -> Occupancy {
        Occupancy { limit: permits_in_all(bulkhead.semaphore()), held: 0 }
    }

    /// Whether a permit is free.
    pub open spec fn has_room(self) -> bool {
        self.held < self.limit
    }

    /// Whether an event can come at a semaphore that hands out a permit exactly
    /// while one is in it: an ask is granted where there is room, and is rejected
    /// where there is none; what is dropped was held.
    pub open spec fn allows(self, event: OccupancyEvent) -> bool {
        match event {
            OccupancyEvent::Acquire { reply } => match reply {
                Ok(()) => self.has_room(),
                Err(error) => !self.has_room() && error == Error::<()>::BulkheadRejected,
            },
            OccupancyEvent::Release => self.held >= 1,
        }
    }

    /// The permits that are held after an event.
    pub open spec fn after(self, event: OccupancyEvent) -> Occupancy {
        match event {
            OccupancyEvent::Acquire { reply } => match reply {
                Ok(()) => Occupancy { held: self.held + 1, ..self },
                Err(_) => self,
            },
            OccupancyEvent::Release => Occupancy { held: (self.held - 1) as nat, ..self },
        }
    }

    /// The permits that are held after a sequence of events.
    pub open spec fn after_all(self, events: Seq<OccupancyEvent>) -> Occupancy
        decreases events.len(),
    {
        if events.len() == 0 {
            self
        } else {
            self.after_all(events.drop_last()).after(events.last())
        }
    }

    /// Whether a sequence of events can come.
    pub open spec fn allows_all(self, events: Seq<OccupancyEvent>) -> bool
        decreases events.len(),
    {
        events.len() > 0 ==> {
            &&& self.allows_all(events.drop_last())
            &&& self.after_all(events.drop_last()).allows(events.last())
        }
    }
}

/// Whatever calls come and go, no more permits of a bulkhead are held than it was
/// made with. The next ask is granted exactly where fewer are held, and one that
/// is rejected changes nothing. That the semaphore hands out a permit exactly while
/// one is in it is what [`Occupancy::allows`] takes for granted of it.
pub proof fn law_no_more_calls_than_permits(
    bulkhead: Bulkhead,
    events: Seq<OccupancyEvent>,
    reply: Result<(), Error<()>>,
)
    requires
        Occupancy::of(bulkhead).allows_all(events),
        Occupancy::of(bulkhead).after_all(events).allows(OccupancyEvent::Acquire { reply }),
    ensures
        ({
            let now = Occupancy::of(bulkhead).after_all(events);
            let next = now.after(OccupancyEvent::Acquire { reply });
            &&& now.limit == permits_in_all(bulkhead.semaphore())
            &&& now.held <= now.limit
            &&& reply is Ok <==> now.held < now.limit
            &&& reply is Ok ==> next.held == now.held + 1
            &&& reply matches Err(error) ==> error == Error::<()>::BulkheadRejected && next == now
        }),
{
    lemma_held_within_limit(Occupancy::of(bulkhead), events);
}

/// Events keep the limit, and the permits held within it.
proof fn lemma_held_within_limit(start: Occupancy, events: Seq<OccupancyEvent>)
    requires
        start.held <= start.limit,
        start.allows_all(events),
    ensures
        start.after_all(events).limit == start.limit,
        start.after_all(events).held <= start.limit,
    decreases events.len(),
{
    if events.len() > 0 {
        lemma_held_within_limit(start, events.drop_last());
    }
}

impl Clone for Bulkhead {
    /// The same bulkhead once more: both draw on the same permits.
    fn clone(&self) -> (bulkhead: Self)
        ensures
            bulkhead == *self,
    {
        Bulkhead { semaphore: Arc::clone(&self.semaphore) }
    }
}

} // verus!
