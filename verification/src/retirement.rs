//! A bound on the DMA-BUF textures whose copies the GPU has not completed.

use std::sync::atomic::AtomicUsize;
use std::sync::atomic::Ordering;
use std::sync::Arc;
use vstd::prelude::*;

verus! {

/// How many DMA-BUF textures may await the completion of their copies.
pub const MAX_PENDING_DMABUF_RETIREMENTS: usize = 16;

/// The count after one more texture, unless there are as many as there may be.
pub open spec fn admitted(pending: usize, max_pending: usize) -> Option<usize> {
    if pending < max_pending {
        Some((pending + 1) as usize)
    } else {
        None
    }
}

/// Counts one more texture, unless there are as many as there may be.
pub fn count_one_more(pending: usize, max_pending: usize) -> (next: Option<usize>)
    ensures
        next == admitted(pending, max_pending),
{
    if pending < max_pending {
        Some(pending + 1)
    } else {
        None
    }
}

/// Counts the textures that await the completion of their copies.
pub struct DmabufRetirement {
    pending: AtomicUsize,
    max_pending: usize,
}

/// Stands for one texture that awaits the completion of its copy. It is counted until the
/// permit is dropped.
pub struct DmabufRetirementPermit {
    retirement: Arc<DmabufRetirement>,
    /// How many textures were counted when this one came.
    count_found: Ghost<usize>,
}

/// Calls [`AtomicUsize::fetch_update`] with relaxed ordering and [`count_one_more`]: the count
/// that was found, in `Ok` when one more texture was counted and in `Err` when none could be.
/// Which count is found depends on the other holders of the counter.
#[verifier::external_body]
fn fetch_count_one_more(pending: &AtomicUsize, max_pending: usize) -> (previous: Result<
    usize,
    usize,
>)
    ensures
        match previous {
            Ok(previous) => admitted(previous, max_pending) is Some,
            Err(previous) => admitted(previous, max_pending) is None,
        },
{
    pending.fetch_update(
        Ordering::Relaxed,
        Ordering::Relaxed,
        |pending| count_one_more(pending, max_pending),
    )
}

/// Calls [`AtomicUsize::fetch_sub`] with relaxed ordering: takes one off the count, and returns
/// the count before. It does not panic. Which count is found depends on the other holders of
/// the counter.
#[verifier::external_body]
fn fetch_release(pending: &AtomicUsize) -> (previous: usize)
    opens_invariants none
    no_unwind
{
    pending.fetch_sub(1, Ordering::Relaxed)
}

impl DmabufRetirement {
    /// How many textures may be counted at once.
    pub closed spec fn capacity(&self) -> usize {
        self.max_pending
    }

    /// A counter for as many textures as may usually await their copies.
    pub fn new() -> (retirement: Self)
        ensures
            retirement.capacity() == MAX_PENDING_DMABUF_RETIREMENTS,
    {
        DmabufRetirement {
            pending: AtomicUsize::new(0),
            max_pending: MAX_PENDING_DMABUF_RETIREMENTS,
        }
    }

    /// A counter for a given number of textures.
    pub fn with_capacity(max_pending: usize) -> (retirement: Self)
        ensures
            retirement.capacity() == max_pending,
    {
        DmabufRetirement { pending: AtomicUsize::new(0), max_pending }
    }

    /// Returns how many textures may be counted at once.
    pub fn max_pending(&self) -> (max_pending: usize)
        ensures
            max_pending == self.capacity(),
    {
        self.max_pending
    }

    /// Counts one more texture, unless there are as many as there may be. How many there are
    /// is known only to the counter; a permit is given only where they were fewer than the
    /// capacity.
    pub fn try_acquire(self: &Arc<Self>) -> (permit: Option<DmabufRetirementPermit>)
        ensures
            permit matches Some(permit) ==> permit.issuer() == *self && permit.found()
                < self.capacity(),
    {
        self.ask().0
    }

    /// Counts one more texture, unless there are as many as there may be: there is a permit
    /// exactly when the count that was found is below the capacity.
    fn ask(self: &Arc<Self>) -> (asked: (Option<DmabufRetirementPermit>, Ghost<usize>))
        ensures
            asked.0 is Some <==> asked.1@ < self.capacity(),
            asked.0 matches Some(permit) ==> permit.issuer() == *self && permit.found()
                == asked.1@,
    {
        let previous = fetch_count_one_more(&self.pending, self.max_pending);
        let ghost found = match previous {
            Ok(count) => count,
            Err(count) => count,
        };
        (Self::permit_for(self, previous), Ghost(found))
    }

    /// The permit for an update of the counter: one when the count was raised, none when it was
    /// not.
    fn permit_for(retirement: &Arc<Self>, previous: Result<usize, usize>) -> (permit: Option<
        DmabufRetirementPermit,
    >)
        ensures
            match previous {
                Ok(count) => permit matches Some(permit) && permit.issuer() == *retirement
                    && permit.found() == count,
                Err(_) => permit is None,
            },
    {
        match previous {
            Ok(count) => Some(
                DmabufRetirementPermit {
                    retirement: retirement.clone(),
                    count_found: Ghost(count),
                },
            ),
            Err(_) => None,
        }
    }
}

impl DmabufRetirementPermit {
    /// The counter that counts the texture of this permit.
    pub closed spec fn issuer(&self) -> Arc<DmabufRetirement> {
        self.retirement
    }

    /// How many textures the counter counted when it gave this permit out.
    pub closed spec fn found(&self) -> usize {
        self.count_found@
    }
}

impl Drop for DmabufRetirementPermit {
    fn drop(&mut self)
        opens_invariants none
        no_unwind
    {
        fetch_release(&self.retirement.pending);
    }
}

/// A use of a counter.
pub enum RetirementEvent {
    /// A permit is asked for.
    Acquire,
    /// A permit is dropped.
    Release,
}

/// A counter and the permits that it has given out.
#[verifier::ext_equal]
pub struct RetirementModel {
    pub pending: usize,
    pub permits: nat,
}

impl RetirementModel {
    /// A counter of which no permit is given out.
    pub open spec fn unused() -> Self {
        RetirementModel { pending: 0, permits: 0 }
    }

    /// Whether the event can happen: only a permit that was given out can be dropped.
    pub open spec fn allows(self, event: RetirementEvent) -> bool {
        event is Release ==> self.permits > 0
    }

    /// The counter after an event.
    pub open spec fn after(self, max_pending: usize, event: RetirementEvent) -> Self {
        match event {
            RetirementEvent::Acquire => match admitted(self.pending, max_pending) {
                Some(pending) => RetirementModel { pending, permits: self.permits + 1 },
                None => self,
            },
            RetirementEvent::Release => RetirementModel {
                pending: (self.pending - 1) as usize,
                permits: (self.permits - 1) as nat,
            },
        }
    }

    /// The counter after some events.
    pub open spec fn after_all(max_pending: usize, events: Seq<RetirementEvent>) -> Self
        decreases events.len(),
    {
        if events.len() == 0 {
            Self::unused()
        } else {
            Self::after_all(max_pending, events.drop_last()).after(max_pending, events.last())
        }
    }
}

/// Whether every permit that is dropped was given out before.
pub open spec fn is_history(max_pending: usize, events: Seq<RetirementEvent>) -> bool
    decreases events.len(),
{
    events.len() == 0 || {
        &&& is_history(max_pending, events.drop_last())
        &&& RetirementModel::after_all(max_pending, events.drop_last()).allows(events.last())
    }
}

/// Whatever happens, a counter holds the number of permits that are given out and not dropped,
/// and that number stays within the capacity.
pub proof fn retirement_is_bounded(max_pending: usize, events: Seq<RetirementEvent>)
    requires
        is_history(max_pending, events),
    ensures
        RetirementModel::after_all(max_pending, events).pending == RetirementModel::after_all(
            max_pending,
            events,
        ).permits,
        RetirementModel::after_all(max_pending, events).permits <= max_pending,
    decreases events.len(),
{
    if events.len() > 0 {
        retirement_is_bounded(max_pending, events.drop_last());
    }
}

/// A permit is refused only when as many are given out as there may be, and once one of them
/// is dropped the next is given out.
pub proof fn dropping_a_permit_releases_capacity(max_pending: usize, events: Seq<RetirementEvent>)
    requires
        is_history(max_pending, events),
    ensures
        ({
            let full = RetirementModel::after_all(max_pending, events);
            let released = full.after(max_pending, RetirementEvent::Release);
            &&& admitted(full.pending, max_pending) is None <==> full.permits == max_pending
            &&& full.permits > 0 ==> admitted(released.pending, max_pending) is Some
        }),
{
    retirement_is_bounded(max_pending, events);
}

/// A permit that a counter gives out is the step that the counter takes from the count that it
/// found.
pub proof fn a_permit_counts_one_more(permit: DmabufRetirementPermit, counter: RetirementModel)
    requires
        permit.found() == counter.pending,
        permit.found() < permit.issuer().capacity(),
    ensures
        counter.after(permit.issuer().capacity(), RetirementEvent::Acquire) == (RetirementModel {
            pending: (permit.found() + 1) as usize,
            permits: counter.permits + 1,
        }),
{
}

/// Dropping a permit undoes what giving it out did.
pub proof fn a_release_undoes_an_acquisition(max_pending: usize, counter: RetirementModel)
    requires
        admitted(counter.pending, max_pending) is Some,
    ensures
        counter.after(max_pending, RetirementEvent::Acquire).after(
            max_pending,
            RetirementEvent::Release,
        ) == counter,
{
}

} // verus!
