//! A ticker: the role of a caller while it looks for a task to run.
//!
//! A ticker is either woken, and looking for work, or sleeping in the
//! registry of parked tickers under an id of its own. Whether a sleeping
//! ticker has been notified shows in the registry alone.

use crate::sleepers::{Sleepers, SleepersView};
use std::task::Waker;
use vstd::prelude::*;

verus! {

/// The registry after the ticker `id` went to sleep with `waker`: a woken
/// ticker (`id` 0) is parked anew, a sleeping one has its waker recorded.
pub open spec fn slept(id: usize, sleepers: SleepersView, waker: Waker) -> SleepersView {
    if id == 0 {
        sleepers.insert(waker)
    } else {
        sleepers.update(id, waker)
    }
}

/// The id under which the ticker `id` sleeps once it went to sleep.
pub open spec fn slept_id(id: usize, sleepers: SleepersView) -> usize {
    if id == 0 {
        sleepers.next_id()
    } else {
        id
    }
}

/// The registry after the ticker `id` woke: a sleeping ticker is taken
/// off, a woken one (`id` 0) changes nothing.
pub open spec fn woken(id: usize, sleepers: SleepersView) -> SleepersView {
    if id == 0 {
        sleepers
    } else {
        sleepers.remove(id)
    }
}

/// Runs tasks one by one.
pub struct Ticker {
    /// A non-zero sleeper id when in sleeping state, 0 when woken.
    sleeping: usize,
}

impl Ticker {
    /// The id under which the ticker sleeps, or 0 if it is woken.
    pub closed spec fn id(&self) -> usize {
        self.sleeping
    }

    /// The ticker and the registry agree: if the ticker sleeps, the
    /// registry holds its id.
    pub open spec fn placed(&self, sleepers: SleepersView) -> bool {
        self.id() != 0 ==> sleepers.parked.contains(self.id())
    }

    /// A woken ticker.
    pub fn new() -> (t: Ticker)
        ensures
            t.id() == 0,
    {
        Ticker { sleeping: 0 }
    }

    /// Whether the ticker is in sleeping state.
    pub fn is_sleeping(&self) -> (b: bool)
        ensures
            b == (self.id() != 0),
    {
        self.sleeping != 0
    }

    /// Moves the ticker into sleeping and unnotified state, with `waker` as
    /// the waker to notify it by.
    ///
    /// Returns `false` if the ticker was already sleeping and unnotified:
    /// then only its waker was replaced.
    pub fn sleep(&mut self, sleepers: &mut Sleepers, waker: Waker) -> (moved: bool)
        requires
            old(sleepers)@.wf(),
            old(self).placed(old(sleepers)@),
            old(self).id() == 0 ==> old(sleepers)@.count < usize::MAX,
        ensures
            final(sleepers)@.wf(),
            final(self).placed(final(sleepers)@),
            final(sleepers)@ == slept(old(self).id(), old(sleepers)@, waker),
            final(self).id() == slept_id(old(self).id(), old(sleepers)@),
            final(self).id() != 0,
            !final(sleepers)@.has_notified(final(self).id()),
            moved == (old(self).id() == 0 || old(sleepers)@.has_notified(old(self).id())),
    {
        proof {
            if self.id() == 0 {
                sleepers@.lemma_insert(waker);
            } else {
                sleepers@.lemma_update(self.id(), waker);
            }
        }
        if self.sleeping == 0 {
            self.sleeping = sleepers.insert(waker);
            true
        } else {
            sleepers.update(self.sleeping, waker)
        }
    }

    /// Moves the ticker into woken state.
    ///
    /// Returns `None` if the ticker was not sleeping; else whether it had
    /// been notified, in which case the notification it got is owed to
    /// another ticker.
    pub fn wake(&mut self, sleepers: &mut Sleepers) -> (owed: Option<bool>)
        requires
            old(sleepers)@.wf(),
            old(self).placed(old(sleepers)@),
        ensures
            final(sleepers)@.wf(),
            final(self).id() == 0,
            final(sleepers)@ == woken(old(self).id(), old(sleepers)@),
            owed == if old(self).id() == 0 {
                None
            } else {
                Some(old(sleepers)@.has_notified(old(self).id()))
            },
    {
        if self.sleeping != 0 {
            let notified = sleepers.remove(self.sleeping);
            self.sleeping = 0;
            Some(notified)
        } else {
            None
        }
    }
}

} // verus!
