//! The state of an executor: the run queue, the registry of active tasks
//! and the registry of parked tickers, with the flag that says whether a
//! wakeup is owed.
//!
//! Every operation here is one step of the scheduler, taken with the state
//! in hand. It never runs a task nor invokes a waker: it hands them back,
//! and the caller runs the task and wakes the waker once the step is done.

use crate::active::{listed_by_key, no_entries, ActiveTasks};
use crate::queue::{is_pop, RunQueue};
use crate::runnable::{task_waker, PriorityRunnable};
use crate::sleepers::Sleepers;
use crate::ticker::{slept, slept_id, woken, Ticker};
use async_task::Runnable;
use std::task::Waker;
use vstd::multiset::Multiset;
use vstd::prelude::*;

verus! {

/// How many tasks a runner polls in a row before it yields to its caller.
pub const TICKS_PER_YIELD: usize = 200;

/// How many tasks of a batch are spawned on an executor that threads share
/// before the lock on its state is given up for a moment.
pub const SPAWNS_PER_LOCK: usize = 500;

/// Whether a batch that is spawned on an executor that threads share gives
/// up the lock on the state once it has spawned its task `index`, counted
/// from 0: it does so after the second task and then after every
/// `SPAWNS_PER_LOCK` tasks, so that other threads get their turn.
pub fn yields_lock_after(index: usize) -> (b: bool)
    ensures
        b == (index >= 1 && (index - 1) % (SPAWNS_PER_LOCK as int) == 0),
{
    index >= 1 && (index - 1) % SPAWNS_PER_LOCK == 0
}

/// What a step found to do: the task to run, and the ticker to wake before
/// running it, so that another ticker picks up the next task meanwhile.
pub struct Tick {
    /// The task to poll once.
    pub task: PriorityRunnable,
    /// The waker of the ticker to notify, if one is owed a wakeup.
    pub wake: Option<Waker>,
}

/// The outcome of a ticker's search for a task.
pub enum Search {
    /// A task was found; the ticker is woken.
    Found(Tick),
    /// No task was found and the ticker has just moved to sleeping and
    /// unnotified state: it looks once more before it suspends.
    Retry,
    /// No task was found and the ticker was sleeping and unnotified
    /// already: it suspends until its waker is invoked.
    Parked,
}

/// The numbers that describe an executor at a glance.
#[derive(Clone, Copy, Debug, PartialEq, Eq)]
pub struct Snapshot {
    /// Tasks spawned and not completed.
    pub active: usize,
    /// Tasks that are ready to be polled.
    pub tasks: usize,
    /// Tickers that are sleeping.
    pub sleepers: usize,
}

/// The state of an executor.
pub struct State {
    /// The task queue.
    pub queue: RunQueue,
    /// `true` when a sleeping ticker is notified or no tickers are
    /// sleeping.
    pub notified: bool,
    /// The sleeping tickers.
    pub sleepers: Sleepers,
    /// Currently active tasks.
    pub active: ActiveTasks,
}

impl State {
    /// The parts are well-formed, and the flag is set exactly if no ticker
    /// is sleeping or more tickers are sleeping than are recorded as
    /// unnotified.
    pub open spec fn coherent(&self) -> bool {
        &&& self.queue.wf()
        &&& self.sleepers@.wf()
        &&& self.active.wf()
        &&& self.notified == self.sleepers@.notified()
    }

    /// What holds of every state between two steps: it is coherent, and
    /// while a task is queued the flag is set, so that the tickers do not
    /// all sleep on unnotified while there is work.
    pub open spec fn wf(&self) -> bool {
        &&& self.coherent()
        &&& self.queue@.len() > 0 ==> self.notified
    }

    /// Creates state for a new executor: nothing queued, nothing active,
    /// no ticker sleeping.
    pub fn new() -> (s: State)
        ensures
            s.wf(),
            s.notified,
            s.queue@ == Multiset::<PriorityRunnable>::empty(),
            s.active@ == no_entries(),
            s.active.next_slot() == 0,
            s.sleepers@ == crate::sleepers::SleepersView::empty(),
    {
        State {
            queue: RunQueue::new(),
            notified: true,
            sleepers: Sleepers::new(),
            active: ActiveTasks::new(),
        }
    }

    /// Returns `true` if there are no unfinished tasks.
    pub fn is_empty(&self) -> (b: bool)
        requires
            self.wf(),
        ensures
            b == (self.active@ == no_entries()),
    {
        self.active.is_empty()
    }

    /// Notifies a sleeping ticker: hands out the waker of one, unless a
    /// ticker is notified already or none is sleeping. Afterwards no
    /// wakeup is owed.
    pub fn notify(&mut self) -> (wake: Option<Waker>)
        requires
            old(self).coherent(),
        ensures
            final(self).wf(),
            final(self).notified,
            wake == old(self).sleepers@.notice(),
            final(self).sleepers@ == old(self).sleepers@.notify(),
            final(self).queue == old(self).queue,
            final(self).active == old(self).active,
    {
        proof {
            self.sleepers@.lemma_notify();
        }
        if !self.notified {
            self.notified = true;
            self.sleepers.notify()
        } else {
            None
        }
    }

    /// Queues a task that is ready to be polled and notifies a sleeping
    /// ticker.
    pub fn schedule(&mut self, task: PriorityRunnable) -> (wake: Option<Waker>)
        requires
            old(self).wf(),
        ensures
            final(self).wf(),
            final(self).notified,
            final(self).queue@ == old(self).queue@.insert(task),
            wake == old(self).sleepers@.notice(),
            final(self).sleepers@ == old(self).sleepers@.notify(),
            final(self).active == old(self).active,
    {
        self.queue.push(task);
        self.notify()
    }

    /// Takes in a task whose waker is `waker`: registers it as active, in
    /// the next free slot, and schedules it once, so that it is polled at
    /// least once. Returns the slot and the waker of the ticker to notify.
    pub fn enlist(&mut self, priority: isize, runnable: Runnable, waker: Waker) -> (r: (
        usize,
        Option<Waker>,
    ))
        requires
            old(self).wf(),
        ensures
            final(self).wf(),
            final(self).notified,
            r.0 == old(self).active.next_slot(),
            !old(self).active@.contains_key(r.0),
            final(self).active@ == old(self).active@.insert(r.0, waker),
            final(self).queue@ == old(self).queue@.insert(
                (PriorityRunnable { priority, runnable }),
            ),
            r.1 == old(self).sleepers@.notice(),
            final(self).sleepers@ == old(self).sleepers@.notify(),
    {
        let slot = self.active.register(waker);
        let wake = self.schedule(PriorityRunnable::new(priority, runnable));
        (slot, wake)
    }

    /// Takes in a task: registers its waker as active, in the next free
    /// slot, and schedules it once, so that it is polled at least once.
    /// Returns the slot and the waker of the ticker to notify.
    pub fn spawn(&mut self, priority: isize, runnable: Runnable) -> (r: (usize, Option<Waker>))
        requires
            old(self).wf(),
        ensures
            final(self).wf(),
            final(self).notified,
            r.0 == old(self).active.next_slot(),
            !old(self).active@.contains_key(r.0),
            final(self).active@.contains_key(r.0),
            final(self).active@.remove(r.0) == old(self).active@,
            final(self).queue@ == old(self).queue@.insert(
                (PriorityRunnable { priority, runnable }),
            ),
            r.1 == old(self).sleepers@.notice(),
            final(self).sleepers@ == old(self).sleepers@.notify(),
    {
        let waker = task_waker(&runnable);
        self.enlist(priority, runnable, waker)
    }

    /// Takes in a batch of tasks, first to last, each as `spawn` does.
    /// Returns their slots, in the order of the tasks, and the waker of the
    /// ticker to notify: a batch notifies one ticker at most.
    pub fn spawn_many(&mut self, tasks: Vec<PriorityRunnable>) -> (r: (Vec<usize>, Option<Waker>))
        requires
            old(self).wf(),
        ensures
            final(self).wf(),
            r.0@.len() == tasks@.len(),
            final(self).queue@ == old(self).queue@.add(tasks@.to_multiset()),
            tasks@.len() > 0 ==> {
                &&& r.1 == old(self).sleepers@.notice()
                &&& final(self).sleepers@ == old(self).sleepers@.notify()
                &&& final(self).notified
            },
            tasks@.len() == 0 ==> {
                &&& r.1.is_none()
                &&& final(self).sleepers@ == old(self).sleepers@
                &&& final(self).notified == old(self).notified
            },
            forall|k: usize| #[trigger]
                final(self).active@.contains_key(k) <==> old(self).active@.contains_key(k)
                    || r.0@.contains(k),
            forall|k: usize| #[trigger]
                old(self).active@.contains_key(k) ==> final(self).active@[k] == old(self).active@[k],
            forall|i: int|
                0 <= i < r.0@.len() ==> !old(self).active@.contains_key(#[trigger] r.0@[i]),
            forall|i: int, j: int| 0 <= i < j < r.0@.len() ==> r.0@[i] != r.0@[j],
    {
        let mut slots: Vec<usize> = Vec::new();
        let mut wake: Option<Waker> = None;
        proof {
            crate::queue::lemma_no_entries(tasks@.subrange(0, 0));
            old(self).sleepers@.lemma_notify();
        }
        for task in it: tasks
            invariant
                it.seq() == tasks@,
                self.wf(),
                old(self).sleepers@.notify().notified(),
                slots@.len() == it.index(),
                self.queue@ == old(self).queue@.add(tasks@.subrange(0, it.index()).to_multiset()),
                it.index() > 0 ==> {
                    &&& wake == old(self).sleepers@.notice()
                    &&& self.sleepers@ == old(self).sleepers@.notify()
                    &&& self.notified
                },
                it.index() == 0 ==> {
                    &&& wake.is_none()
                    &&& self.sleepers@ == old(self).sleepers@
                    &&& self.notified == old(self).notified
                },
                forall|k: usize| #[trigger]
                    self.active@.contains_key(k) <==> old(self).active@.contains_key(k)
                        || slots@.contains(k),
                forall|k: usize| #[trigger]
                    old(self).active@.contains_key(k) ==> self.active@[k] == old(self).active@[k],
                forall|i: int|
                    0 <= i < slots@.len() ==> !old(self).active@.contains_key(#[trigger] slots@[i]),
                forall|i: int, j: int| 0 <= i < j < slots@.len() ==> slots@[i] != slots@[j],
        {
            let ghost done = slots@;
            let ghost n = it.index();
            let (slot, w) = self.spawn(task.priority, task.runnable);
            match w {
                Some(waker) => {
                    wake = Some(waker);
                },
                None => {},
            }
            slots.push(slot);
            proof {
                assert(tasks@.subrange(0, n + 1) =~= tasks@.subrange(0, n).push(task));
                vstd::seq_lib::to_multiset_build(tasks@.subrange(0, n), task);
                assert(self.queue@ =~= old(self).queue@.add(
                    tasks@.subrange(0, n + 1).to_multiset(),
                ));
                assert forall|k: usize| #[trigger]
                    self.active@.contains_key(k) <==> old(self).active@.contains_key(k)
                        || slots@.contains(k) by {
                    if k == slot {
                        assert(slots@[n] == slot);
                    } else {
                        assert(self.active@.remove(slot).contains_key(k) == self.active@.contains_key(
                            k,
                        ));
                        if done.contains(k) {
                            let i = choose|i: int| 0 <= i < done.len() && done[i] == k;
                            assert(slots@[i] == k);
                        }
                    }
                }
            }
        }
        proof {
            assert(tasks@.subrange(0, tasks@.len() as int) =~= tasks@);
        }
        (slots, wake)
    }

    /// Takes the task at `slot` off the active tasks, as the task does when
    /// it completes or is dropped. Returns its waker. A second call for the
    /// same slot changes nothing.
    pub fn complete(&mut self, slot: usize) -> (waker: Option<Waker>)
        requires
            old(self).wf(),
        ensures
            final(self).wf(),
            final(self).active@ == old(self).active@.remove(slot),
            waker == if old(self).active@.contains_key(slot) {
                Some(old(self).active@[slot])
            } else {
                None
            },
            final(self).queue == old(self).queue,
            final(self).sleepers == old(self).sleepers,
            final(self).notified == old(self).notified,
    {
        self.active.deregister(slot)
    }

    /// One step without suspending: takes out a task of the highest
    /// priority, if one is queued, and notifies another ticker to pick up
    /// where this one leaves off. With nothing queued, nothing changes.
    pub fn try_tick(&mut self) -> (tick: Option<Tick>)
        requires
            old(self).wf(),
        ensures
            final(self).wf(),
            final(self).active == old(self).active,
            old(self).queue@.len() == 0 ==> {
                &&& tick.is_none()
                &&& final(self).queue@ == old(self).queue@
                &&& final(self).sleepers == old(self).sleepers
                &&& final(self).notified == old(self).notified
            },
            old(self).queue@.len() > 0 ==> {
                &&& tick.is_some()
                &&& is_pop(old(self).queue@, tick.unwrap().task, final(self).queue@)
                &&& tick.unwrap().wake == old(self).sleepers@.notice()
                &&& final(self).sleepers@ == old(self).sleepers@.notify()
                &&& final(self).notified
            },
    {
        match self.queue.pop() {
            None => None,
            Some(task) => {
                let wake = self.notify();
                Some(Tick { task, wake })
            },
        }
    }

    /// One round of a ticker's search for a task.
    ///
    /// With a task queued, the ticker wakes, takes out a task of the
    /// highest priority and notifies another ticker. With nothing queued,
    /// the ticker goes to sleep with `waker`; it is `Parked` if it was
    /// sleeping and unnotified already, and is to `Retry` otherwise.
    pub fn search(&mut self, ticker: &mut Ticker, waker: Waker) -> (found: Search)
        requires
            old(self).wf(),
            old(ticker).placed(old(self).sleepers@),
            old(ticker).id() == 0 ==> old(self).sleepers@.count < usize::MAX,
        ensures
            final(self).wf(),
            final(ticker).placed(final(self).sleepers@),
            final(self).active == old(self).active,
            old(self).queue@.len() > 0 ==> {
                &&& found matches Search::Found(tick)
                &&& is_pop(old(self).queue@, tick.task, final(self).queue@)
                &&& tick.wake == woken(old(ticker).id(), old(self).sleepers@).notice()
                &&& final(self).sleepers@ == woken(old(ticker).id(), old(self).sleepers@).notify()
                &&& final(self).notified
                &&& final(ticker).id() == 0
            },
            old(self).queue@.len() == 0 ==> {
                &&& found == if old(ticker).id() != 0 && !old(self).sleepers@.has_notified(
                    old(ticker).id(),
                ) {
                    Search::Parked
                } else {
                    Search::Retry
                }
                &&& final(self).queue@ == old(self).queue@
                &&& final(self).sleepers@ == slept(old(ticker).id(), old(self).sleepers@, waker)
                &&& final(ticker).id() == slept_id(old(ticker).id(), old(self).sleepers@)
                &&& final(ticker).id() != 0
                &&& !final(self).sleepers@.has_notified(final(ticker).id())
            },
    {
        match self.queue.pop() {
            None => {
                if !ticker.sleep(&mut self.sleepers, waker) {
                    assert(self.sleepers@.unnotified.len() == old(self).sleepers@.unnotified.len());
                    Search::Parked
                } else {
                    self.notified = self.sleepers.is_notified();
                    Search::Retry
                }
            },
            Some(task) => {
                match ticker.wake(&mut self.sleepers) {
                    Some(_) => {
                        self.notified = self.sleepers.is_notified();
                    },
                    None => {},
                }
                let wake = self.notify();
                Search::Found(Tick { task, wake })
            },
        }
    }

    /// Takes a ticker that stops looking for work out of the registry, as
    /// when it is dropped in the middle of a wait. If it was sleeping and
    /// had been notified, the notification is passed on: the waker of
    /// another sleeping ticker is handed out.
    pub fn release(&mut self, ticker: &mut Ticker) -> (wake: Option<Waker>)
        requires
            old(self).wf(),
            old(ticker).placed(old(self).sleepers@),
        ensures
            final(self).wf(),
            final(ticker).id() == 0,
            final(self).queue == old(self).queue,
            final(self).active == old(self).active,
            old(ticker).id() == 0 ==> {
                &&& wake.is_none()
                &&& final(self).sleepers@ == old(self).sleepers@
                &&& final(self).notified == old(self).notified
            },
            old(ticker).id() != 0 && old(self).sleepers@.has_notified(old(ticker).id()) ==> {
                &&& wake == old(self).sleepers@.remove(old(ticker).id()).notice()
                &&& final(self).sleepers@ == old(self).sleepers@.remove(old(ticker).id()).notify()
                &&& final(self).notified
            },
            old(ticker).id() != 0 && !old(self).sleepers@.has_notified(old(ticker).id()) ==> {
                &&& wake.is_none()
                &&& final(self).sleepers@ == old(self).sleepers@.remove(old(ticker).id())
            },
    {
        match ticker.wake(&mut self.sleepers) {
            None => None,
            Some(owed) => {
                self.notified = self.sleepers.is_notified();
                if owed {
                    self.notify()
                } else {
                    None
                }
            },
        }
    }

    /// The first step of tearing the executor down: takes every active
    /// task off the registry and hands out its waker, each once, by
    /// increasing slot. The caller invokes each of them.
    pub fn retire(&mut self) -> (wakers: Vec<Waker>)
        requires
            old(self).wf(),
        ensures
            final(self).wf(),
            final(self).active@ == no_entries(),
            final(self).active.next_slot() == 0,
            wakers@.len() == old(self).active@.dom().len(),
            listed_by_key(wakers@, old(self).active@),
            final(self).queue == old(self).queue,
            final(self).sleepers == old(self).sleepers,
            final(self).notified == old(self).notified,
    {
        self.active.drain()
    }

    /// The last step of tearing the executor down: takes out everything
    /// that is queued, without running it, and hands it over to be
    /// dropped. Nothing is queued afterwards.
    pub fn discard(&mut self) -> (tasks: Vec<PriorityRunnable>)
        requires
            old(self).wf(),
        ensures
            final(self).wf(),
            final(self).queue@ == Multiset::<PriorityRunnable>::empty(),
            tasks@.to_multiset() == old(self).queue@,
            final(self).active == old(self).active,
            final(self).sleepers == old(self).sleepers,
            final(self).notified == old(self).notified,
    {
        self.queue.drain()
    }

    /// The number of active tasks, of queued tasks and of sleeping tickers.
    pub fn snapshot(&self) -> (s: Snapshot)
        requires
            self.wf(),
        ensures
            s.active == self.active@.dom().len(),
            s.tasks == self.queue@.len(),
            s.sleepers == self.sleepers@.count,
    {
        Snapshot { active: self.active.len(), tasks: self.queue.len(), sleepers: self.sleepers.len() }
    }
}

} // verus!
