//! The registry of active tasks: every task that was spawned and has not
//! completed, by its slot, with the waker that reaches it.
//!
//! Slots are small integers. A slot that a completed task gave up is used
//! again for the next task.

use slab::Slab;
use std::task::Waker;
use vstd::prelude::*;

verus! {

/// `slab::Slab`: a table that gives each stored value a small integer key
/// and hands the keys of removed values out again.
#[verifier::external_type_specification]
#[verifier::external_body]
#[verifier::reject_recursive_types(T)]
pub struct ExSlab<T>(Slab<T>);

/// What a slab of wakers holds: each occupied key with its waker.
pub uninterp spec fn slab_entries(slab: Slab<Waker>) -> Map<usize, Waker>;

/// The key that a slab of wakers gives to the next waker stored in it.
pub uninterp spec fn slab_vacant_key(slab: Slab<Waker>) -> usize;

/// `vals` are the wakers of `entries`, each once, by increasing key, and
/// `keys` are their keys.
pub open spec fn lists_by_key(entries: Map<usize, Waker>, keys: Seq<usize>, vals: Seq<Waker>) -> bool {
    &&& keys.len() == vals.len()
    &&& forall|i: int, j: int| 0 <= i < j < keys.len() ==> keys[i] < keys[j]
    &&& forall|k: usize| entries.contains_key(k) <==> keys.contains(k)
    &&& forall|i: int| 0 <= i < keys.len() ==> vals[i] == entries[#[trigger] keys[i]]
}

/// `vals` are the wakers of `entries`, each once, by increasing key.
pub open spec fn listed_by_key(vals: Seq<Waker>, entries: Map<usize, Waker>) -> bool {
    exists|keys: Seq<usize>| lists_by_key(entries, keys, vals)
}

/// The registry that holds no task.
pub open spec fn no_entries() -> Map<usize, Waker> {
    Map::empty()
}

/// A listing by key holds the waker of every registered task.
pub proof fn lemma_listing_covers(vals: Seq<Waker>, entries: Map<usize, Waker>, slot: usize)
    requires
        listed_by_key(vals, entries),
        entries.contains_key(slot),
    ensures
        vals.contains(entries[slot]),
{
    let keys = choose|keys: Seq<usize>| lists_by_key(entries, keys, vals);
    assert(keys.contains(slot));
    let i = choose|i: int| 0 <= i < keys.len() && keys[i] == slot;
}

/// `Slab::new`: a slab that holds nothing and whose first key is 0.
#[verifier::external_body]
fn slab_new() -> (slab: Slab<Waker>)
    ensures
        slab_entries(slab) == no_entries(),
        slab_vacant_key(slab) == 0,
{
    Slab::new()
}

/// `Slab::len`: the number of occupied keys.
#[verifier::external_body]
fn slab_len(slab: &Slab<Waker>) -> (n: usize)
    ensures
        n == slab_entries(*slab).dom().len(),
{
    slab.len()
}

/// `Slab::vacant_key`: the key of the next insertion, which is not
/// occupied.
#[verifier::external_body]
fn slab_next_key(slab: &Slab<Waker>) -> (key: usize)
    ensures
        key == slab_vacant_key(*slab),
        !slab_entries(*slab).contains_key(key),
{
    slab.vacant_key()
}

/// `Slab::insert`: stores the value under the vacant key, which was not
/// occupied, and returns that key. A slab whose storage cannot grow any
/// further is left out of account, as it is for `Vec::push`.
#[verifier::external_body]
fn slab_insert(slab: &mut Slab<Waker>, waker: Waker) -> (key: usize)
    ensures
        key == slab_vacant_key(*old(slab)),
        !slab_entries(*old(slab)).contains_key(key),
        slab_entries(*final(slab)) == slab_entries(*old(slab)).insert(key, waker),
{
    slab.insert(waker)
}

/// `Slab::try_remove`: takes out the value under `key` if there is one,
/// and that key is then the next to be handed out; with no value under
/// `key` nothing changes.
#[verifier::external_body]
fn slab_try_remove(slab: &mut Slab<Waker>, key: usize) -> (waker: Option<Waker>)
    ensures
        slab_entries(*old(slab)).contains_key(key) ==> {
            &&& waker == Some(slab_entries(*old(slab))[key])
            &&& slab_vacant_key(*final(slab)) == key
        },
        !slab_entries(*old(slab)).contains_key(key) ==> {
            &&& waker.is_none()
            &&& slab_vacant_key(*final(slab)) == slab_vacant_key(*old(slab))
        },
        slab_entries(*final(slab)) == slab_entries(*old(slab)).remove(key),
{
    slab.try_remove(key)
}

/// `Slab::drain`, collected: empties the slab and yields its values by
/// increasing key. The first key is 0 again.
#[verifier::external_body]
fn slab_drain(slab: &mut Slab<Waker>) -> (wakers: Vec<Waker>)
    ensures
        slab_entries(*final(slab)) == no_entries(),
        slab_vacant_key(*final(slab)) == 0,
        wakers@.len() == slab_entries(*old(slab)).dom().len(),
        listed_by_key(wakers@, slab_entries(*old(slab))),
{
    slab.drain().collect()
}

/// The active tasks' wakers, by slot.
pub struct ActiveTasks {
    slab: Slab<Waker>,
}

impl View for ActiveTasks {
    type V = Map<usize, Waker>;

    /// The occupied slots, each with the waker of its task.
    closed spec fn view(&self) -> Map<usize, Waker> {
        slab_entries(self.slab)
    }
}

impl ActiveTasks {
    /// The slot that the next task registered will get.
    pub closed spec fn next_slot(&self) -> usize {
        slab_vacant_key(self.slab)
    }

    /// What holds of every registry: it holds finitely many tasks.
    pub open spec fn wf(&self) -> bool {
        self@.dom().finite()
    }

    /// A registry with no task. Its first slot is 0.
    pub fn new() -> (a: ActiveTasks)
        ensures
            a.wf(),
            a@ == no_entries(),
            a.next_slot() == 0,
    {
        ActiveTasks { slab: slab_new() }
    }

    /// The number of active tasks.
    pub fn len(&self) -> (n: usize)
        requires
            self.wf(),
        ensures
            n == self@.dom().len(),
    {
        slab_len(&self.slab)
    }

    /// Whether there is no active task.
    pub fn is_empty(&self) -> (b: bool)
        requires
            self.wf(),
        ensures
            b == (self@ == no_entries()),
    {
        let n = slab_len(&self.slab);
        proof {
            if n == 0 {
                assert(self@ =~= no_entries());
            }
        }
        n == 0
    }

    /// The slot that the next task registered will get. It is free.
    pub fn vacant_key(&self) -> (slot: usize)
        ensures
            slot == self.next_slot(),
            !self@.contains_key(slot),
    {
        slab_next_key(&self.slab)
    }

    /// Registers a task by its waker and returns its slot, which was free.
    pub fn register(&mut self, waker: Waker) -> (slot: usize)
        requires
            old(self).wf(),
        ensures
            final(self).wf(),
            slot == old(self).next_slot(),
            !old(self)@.contains_key(slot),
            final(self)@ == old(self)@.insert(slot, waker),
    {
        slab_insert(&mut self.slab, waker)
    }

    /// Takes the task at `slot` off the registry and returns its waker. The
    /// slot is then the next to be given out. Where no task is registered
    /// at `slot`, nothing changes.
    pub fn deregister(&mut self, slot: usize) -> (waker: Option<Waker>)
        requires
            old(self).wf(),
        ensures
            final(self).wf(),
            final(self)@ == old(self)@.remove(slot),
            waker == if old(self)@.contains_key(slot) {
                Some(old(self)@[slot])
            } else {
                None
            },
            final(self).next_slot() == if old(self)@.contains_key(slot) {
                slot
            } else {
                old(self).next_slot()
            },
    {
        slab_try_remove(&mut self.slab, slot)
    }

    /// Empties the registry and returns the wakers of all tasks that were
    /// registered, each once, by increasing slot.
    pub fn drain(&mut self) -> (wakers: Vec<Waker>)
        requires
            old(self).wf(),
        ensures
            final(self).wf(),
            final(self)@ == no_entries(),
            final(self).next_slot() == 0,
            wakers@.len() == old(self)@.dom().len(),
            listed_by_key(wakers@, old(self)@),
    {
        slab_drain(&mut self.slab)
    }
}

} // verus!
