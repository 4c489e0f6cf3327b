use vstd::prelude::*;

use core::sync::atomic::{AtomicU8, Ordering};
use core::task::Waker;

verus! {

/// An `atomicbox::AtomicOptionBox`: an `Option<Box<T>>` shared between
/// threads. Its contents are opaque to the contracts.
#[verifier::external_type_specification]
#[verifier::external_body]
#[verifier::reject_recursive_types(T)]
pub struct ExAtomicOptionBox<T>(atomicbox::AtomicOptionBox<T>);

/// A `core::task::Waker`, the handle that wakes a waiting task.
#[verifier::external_type_specification]
#[verifier::external_body]
pub struct ExWaker(core::task::Waker);

/// `atomicbox::AtomicOptionBox::new` makes a box holding `value`; what it
/// holds is opaque to the contracts, so nothing is claimed of the result.
pub assume_specification<T>[ atomicbox::AtomicOptionBox::<T>::new ](
    value: Option<Box<T>>,
) -> atomicbox::AtomicOptionBox<T>;

/// `atomicbox::AtomicOptionBox::take` swaps `None` in and returns what was
/// held; it panics unless `order` is `AcqRel` or `SeqCst`. What comes back
/// depends on the other threads, so nothing is claimed of it.
pub assume_specification<T>[ atomicbox::AtomicOptionBox::<T>::take ](
    this: &atomicbox::AtomicOptionBox<T>,
    order: Ordering,
) -> Option<Box<T>>
    requires
        order == Ordering::AcqRel || order == Ordering::SeqCst,
;

/// `atomicbox::AtomicOptionBox::store` replaces what is held by `other`,
/// dropping the old value; it panics unless `order` is `AcqRel` or `SeqCst`.
pub assume_specification<T>[ atomicbox::AtomicOptionBox::<T>::store ](
    this: &atomicbox::AtomicOptionBox<T>,
    other: Option<Box<T>>,
    order: Ordering,
)
    requires
        order == Ordering::AcqRel || order == Ordering::SeqCst,
;

/// The subscription waits to be added to the queue of its alarm.
pub const PENDING_ADD: u8 = 0;
/// The subscription is being added, or has been, to the queue.
pub const ADDED: u8 = 1;
/// The waker of the waiting task is stored and can be invoked.
pub const WAKEABLE: u8 = 2;
/// The sleep of the subscription is over.
pub const COMPLETED: u8 = 3;
/// The guard of the subscription was dropped; nobody waits any longer.
pub const DROPPED: u8 = 4;

/// The state shared by a sleep's guard and the alarm that expires it.
/// It is basically an enum where `waker` is only defined if the state is `WAKEABLE`.
pub struct SubscriptionState {
    /// The subscription state (PENDING_ADD, ADDED, WAKEABLE, COMPLETED, DROPPED).
    value: AtomicU8,
    /// The waker to be invoked when the future should complete.
    waker: atomicbox::AtomicOptionBox<Waker>,
}

impl SubscriptionState {
    /// A subscription waiting to be added, with no waker.
    pub fn new() -> (r: Self) {
        SubscriptionState { value: AtomicU8::new(PENDING_ADD), waker: atomicbox::AtomicOptionBox::new(None) }
    }

    /// Whether the guard of the subscription was dropped.
    pub fn is_dropped(&self) -> (r: bool) {
        self.value.load(Ordering::Relaxed) == DROPPED
    }

    /// Record that the guard of the subscription was dropped.
    pub fn mark_dropped(&self) {
        self.value.store(DROPPED, Ordering::Release);
    }

    /// Move from `PENDING_ADD` to `ADDED`; whether this call made that move.
    pub fn try_begin_add(&self) -> (r: bool) {
        self.value.compare_exchange(PENDING_ADD, ADDED, Ordering::AcqRel, Ordering::Relaxed).is_ok()
    }

    /// Go back to `PENDING_ADD` when adding could not finish yet.
    pub fn revert_to_pending_add(&self) {
        self.value.store(PENDING_ADD, Ordering::Release);
    }

    /// Store the waker of the polling task and become `WAKEABLE`. Returns
    /// whether the sleep was already over, in which case the state is set
    /// back to `COMPLETED` and the waker removed again. A dropped
    /// subscription (which a live guard never sees) stays dropped.
    pub fn arm(&self, waker: Waker) -> (completed: bool) {
        // Copy the waker to the subscription so that we can wake it when it is time.
        self.waker.store(Some(Box::new(waker)), Ordering::AcqRel);

        // We can now update the state to WAKEABLE now when the waker is reliably stored for the subscription.
        let old = self.value.swap(WAKEABLE, Ordering::AcqRel);
        let (completed, restore) = arm_outcome(old);
        if let Some(value) = restore {
            self.value.store(value, Ordering::Release);
        }
        if completed {
            // Timeout has already occured.
            // Remove the waker that we just assigned - it turns out that it was not needed.
            self.waker.take(Ordering::AcqRel);
        }
        completed
    }

    /// The sleep is over: become `COMPLETED`, and hand out the waker to
    /// invoke if the task was waiting. A dropped subscription stays dropped.
    pub fn complete(&self) -> (waker: Option<Box<Waker>>) {
        let old = self.value.swap(COMPLETED, Ordering::AcqRel);
        let (wake, restore) = complete_outcome(old);
        if let Some(value) = restore {
            self.value.store(value, Ordering::Release);
        }
        if wake {
            self.waker.take(Ordering::AcqRel)
        } else {
            None
        }
    }
}

/// What arming decides from the state that `WAKEABLE` replaced: whether the
/// sleep was already over, and the state to put back, if any (a completed
/// sleep stays completed, a dropped subscription stays dropped).
pub fn arm_outcome(old: u8) -> (r: (bool, Option<u8>))
    ensures
        r.0 == (old == COMPLETED),
        r.1 == (if old == COMPLETED {
            Some(COMPLETED)
        } else if old == DROPPED {
            Some(DROPPED)
        } else {
            None::<u8>
        }),
{
    if old == COMPLETED {
        (true, Some(COMPLETED))
    } else if old == DROPPED {
        (false, Some(DROPPED))
    } else {
        (false, None)
    }
}

/// What completing decides from the state that `COMPLETED` replaced: whether
/// a waiting task is to be woken, and the state to put back, if any (a
/// dropped subscription stays dropped).
pub fn complete_outcome(old: u8) -> (r: (bool, Option<u8>))
    ensures
        r.0 == (old == WAKEABLE),
        r.1 == (if old == DROPPED {
            Some(DROPPED)
        } else {
            None::<u8>
        }),
{
    if old == WAKEABLE {
        (true, None)
    } else if old == DROPPED {
        (false, Some(DROPPED))
    } else {
        (false, None)
    }
}

} // verus!
