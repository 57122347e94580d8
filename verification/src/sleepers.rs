//! The registry of parked tickers.
//!
//! A ticker that finds no work parks itself here under a small integer id.
//! The registry keeps the number of parked tickers and, for those that have
//! not been notified yet, the waker to notify them with. A parked ticker
//! whose waker is gone from the list has been notified.

use std::task::Waker;
use vstd::prelude::*;

verus! {

/// The ids of a list of recorded wakers, in the list's order.
pub open spec fn ids_of(wakers: Seq<(usize, Waker)>) -> Seq<usize> {
    Seq::new(wakers.len(), |i: int| wakers[i].0)
}

/// Whether `wakers` records `id` at position `i`.
pub open spec fn recorded_at(wakers: Seq<(usize, Waker)>, id: usize, i: int) -> bool {
    0 <= i < wakers.len() && wakers[i].0 == id
}

/// The position of `id` in a list of recorded wakers, if it is there.
pub open spec fn position_of(wakers: Seq<(usize, Waker)>, id: usize) -> Option<int> {
    if exists|i: int| recorded_at(wakers, id, i) {
        Some(choose|i: int| recorded_at(wakers, id, i))
    } else {
        None
    }
}

/// Where no id is recorded twice, an id is found at one position only.
pub proof fn lemma_position_unique(wakers: Seq<(usize, Waker)>, id: usize, i: int)
    requires
        ids_of(wakers).no_duplicates(),
        recorded_at(wakers, id, i),
    ensures
        position_of(wakers, id) == Some(i),
{
    let j = position_of(wakers, id).unwrap();
    assert(ids_of(wakers)[i] == id && ids_of(wakers)[j] == id);
}

/// What a registry of parked tickers holds.
pub struct SleepersView {
    /// Number of sleeping tickers, notified or not.
    pub count: nat,
    /// The sleeping tickers that have not been notified, each with its
    /// waker. The last one is the next to be notified.
    pub unnotified: Seq<(usize, Waker)>,
    /// The ids given back by tickers that woke. The last one is the next to
    /// be handed out.
    pub free_ids: Seq<usize>,
    /// The ids of all sleeping tickers.
    pub parked: Set<usize>,
}

impl SleepersView {
    /// The registry with no sleeping ticker and no id handed out yet.
    pub open spec fn empty() -> SleepersView {
        SleepersView { count: 0, unnotified: Seq::empty(), free_ids: Seq::empty(), parked: Set::empty() }
    }

    /// What holds of every registry: the count is the number of parked ids,
    /// an unnotified ticker is parked and recorded once, no id is both
    /// parked and free, and the ids parked or free are `1..=n` for some `n`.
    pub open spec fn wf(self) -> bool {
        &&& self.parked.finite()
        &&& self.parked.len() == self.count
        &&& self.free_ids.no_duplicates()
        &&& ids_of(self.unnotified).no_duplicates()
        &&& forall|i: int|
            0 <= i < self.unnotified.len() ==> self.parked.contains(#[trigger] self.unnotified[i].0)
        &&& forall|i: int|
            0 <= i < self.free_ids.len() ==> !self.parked.contains(#[trigger] self.free_ids[i])
        &&& forall|id: usize|
            (1 <= id <= self.count + self.free_ids.len()) <==> (#[trigger] self.parked.contains(id)
                || self.free_ids.contains(id))
    }

    /// Whether a sleeping ticker is notified or no tickers are sleeping:
    /// then no wakeup is owed.
    pub open spec fn notified(self) -> bool {
        self.count == 0 || self.count > self.unnotified.len()
    }

    /// Whether the sleeping ticker `id` has been notified: its waker is gone
    /// from the list.
    pub open spec fn has_notified(self, id: usize) -> bool {
        position_of(self.unnotified, id).is_none()
    }

    /// The id that the next ticker to park will get: the one given back
    /// last, or, if none is free, one more than the number of sleeping
    /// tickers.
    pub open spec fn next_id(self) -> usize {
        if self.free_ids.len() > 0 {
            self.free_ids.last()
        } else {
            (self.count + 1) as usize
        }
    }

    /// The registry with one more ticker, parked under the next id with
    /// `waker` and unnotified.
    pub open spec fn insert(self, waker: Waker) -> SleepersView {
        SleepersView {
            count: self.count + 1,
            unnotified: self.unnotified.push((self.next_id(), waker)),
            free_ids: if self.free_ids.len() > 0 {
                self.free_ids.drop_last()
            } else {
                self.free_ids
            },
            parked: self.parked.insert(self.next_id()),
        }
    }

    /// The registry with `waker` recorded for the ticker `id`: in place if
    /// the ticker was unnotified, else as the next to be notified.
    pub open spec fn update(self, id: usize, waker: Waker) -> SleepersView {
        SleepersView {
            unnotified: match position_of(self.unnotified, id) {
                Some(i) => self.unnotified.update(i, (id, waker)),
                None => self.unnotified.push((id, waker)),
            },
            ..self
        }
    }

    /// The registry without the ticker `id`, whose id is free again.
    pub open spec fn remove(self, id: usize) -> SleepersView {
        SleepersView {
            count: (self.count - 1) as nat,
            unnotified: match position_of(self.unnotified, id) {
                Some(i) => self.unnotified.remove(i),
                None => self.unnotified,
            },
            free_ids: self.free_ids.push(id),
            parked: self.parked.remove(id),
        }
    }

    /// The waker handed out when a notification is asked for: that of the
    /// last unnotified ticker, unless a ticker is notified already or none
    /// is sleeping.
    pub open spec fn notice(self) -> Option<Waker> {
        if self.notified() {
            None
        } else {
            Some(self.unnotified.last().1)
        }
    }

    /// The registry once a notification was asked for: the ticker whose
    /// waker was handed out is off the list of the unnotified.
    pub open spec fn notify(self) -> SleepersView {
        if self.notified() {
            self
        } else {
            SleepersView { unnotified: self.unnotified.drop_last(), ..self }
        }
    }

    /// In a well-formed registry the unnotified tickers are among the parked
    /// ones, so there are no more of them, and no ticker has the id 0.
    pub proof fn lemma_unnotified_bounded(self)
        requires
            self.wf(),
        ensures
            self.unnotified.len() <= self.count,
            !self.parked.contains(0),
    {
        let ids = ids_of(self.unnotified);
        ids.unique_seq_to_set();
        assert forall|id: usize| ids.to_set().contains(id) implies self.parked.contains(id) by {}
        vstd::set_lib::lemma_len_subset(ids.to_set(), self.parked);
    }

    /// Parking a ticker keeps the registry well-formed, and the id it gets
    /// is not 0 and not that of a sleeping ticker.
    pub proof fn lemma_insert(self, waker: Waker)
        requires
            self.wf(),
            self.count < usize::MAX,
        ensures
            self.insert(waker).wf(),
            self.next_id() != 0,
            !self.parked.contains(self.next_id()),
            !self.insert(waker).has_notified(self.next_id()),
    {
        let id = self.next_id();
        let after = self.insert(waker);
        let ids = ids_of(after.unnotified);
        assert forall|i: int, j: int| 0 <= i < ids.len() && 0 <= j < ids.len() && i != j
            implies ids[i] != ids[j] by {
            if i < ids.len() - 1 && j < ids.len() - 1 {
                assert(ids_of(self.unnotified)[i] != ids_of(self.unnotified)[j]);
            }
        }
        assert forall|i: int| 0 <= i < after.unnotified.len() implies after.parked.contains(
            #[trigger] after.unnotified[i].0,
        ) by {}
        assert forall|i: int| 0 <= i < after.free_ids.len() implies !after.parked.contains(
            #[trigger] after.free_ids[i],
        ) by {}
        assert forall|x: usize|
            (1 <= x <= after.count + after.free_ids.len()) <==> (#[trigger] after.parked.contains(x)
                || after.free_ids.contains(x)) by {
            if self.free_ids.len() > 0 {
                if self.free_ids.contains(x) && x != id {
                    let k = choose|k: int| 0 <= k < self.free_ids.len() && self.free_ids[k] == x;
                    assert(after.free_ids[k] == x);
                }
            }
            assert(self.parked.contains(x) || self.free_ids.contains(x) <==> 1 <= x <= self.count
                + self.free_ids.len());
        }
        assert(recorded_at(after.unnotified, id, after.unnotified.len() - 1));
    }

    /// Recording a new waker for a sleeping ticker keeps the registry
    /// well-formed, and the ticker is unnotified afterwards.
    pub proof fn lemma_update(self, id: usize, waker: Waker)
        requires
            self.wf(),
            self.parked.contains(id),
        ensures
            self.update(id, waker).wf(),
            !self.update(id, waker).has_notified(id),
    {
        let after = self.update(id, waker);
        match position_of(self.unnotified, id) {
            Some(i) => {
                assert(ids_of(after.unnotified) =~= ids_of(self.unnotified));
                assert forall|k: int| 0 <= k < after.unnotified.len() implies after.parked.contains(
                    #[trigger] after.unnotified[k].0,
                ) by {}
                assert(recorded_at(after.unnotified, id, i));
            },
            None => {
                let ids = ids_of(after.unnotified);
                assert forall|a: int, b: int| 0 <= a < ids.len() && 0 <= b < ids.len() && a != b
                    implies ids[a] != ids[b] by {
                    if a < ids.len() - 1 && b < ids.len() - 1 {
                        assert(ids_of(self.unnotified)[a] != ids_of(self.unnotified)[b]);
                    } else if a < ids.len() - 1 {
                        assert(!recorded_at(self.unnotified, id, a));
                    } else {
                        assert(!recorded_at(self.unnotified, id, b));
                    }
                }
                assert forall|k: int| 0 <= k < after.unnotified.len() implies after.parked.contains(
                    #[trigger] after.unnotified[k].0,
                ) by {}
                assert(recorded_at(after.unnotified, id, after.unnotified.len() - 1));
            },
        }
    }

    /// Taking a sleeping ticker off keeps the registry well-formed.
    pub proof fn lemma_remove(self, id: usize)
        requires
            self.wf(),
            self.parked.contains(id),
        ensures
            self.remove(id).wf(),
            self.count > 0,
    {
        let after = self.remove(id);
        assert forall|a: int, b: int|
            0 <= a < after.free_ids.len() && 0 <= b < after.free_ids.len() && a != b
            implies after.free_ids[a] != after.free_ids[b] by {}
        assert forall|k: int| 0 <= k < after.free_ids.len() implies !after.parked.contains(
            #[trigger] after.free_ids[k],
        ) by {}
        assert forall|x: usize|
            (1 <= x <= after.count + after.free_ids.len()) <==> (#[trigger] after.parked.contains(x)
                || after.free_ids.contains(x)) by {
            assert(self.parked.contains(x) || self.free_ids.contains(x) <==> 1 <= x <= self.count
                + self.free_ids.len());
            if self.free_ids.contains(x) {
                let k = choose|k: int| 0 <= k < self.free_ids.len() && self.free_ids[k] == x;
                assert(after.free_ids[k] == x);
            }
            assert(after.free_ids[after.free_ids.len() - 1] == id);
        }
        match position_of(self.unnotified, id) {
            Some(i) => {
                let ids = ids_of(after.unnotified);
                assert forall|a: int, b: int| 0 <= a < ids.len() && 0 <= b < ids.len() && a != b
                    implies ids[a] != ids[b] by {
                    let a0 = if a < i { a } else { a + 1 };
                    let b0 = if b < i { b } else { b + 1 };
                    assert(ids_of(self.unnotified)[a0] != ids_of(self.unnotified)[b0]);
                }
                assert forall|k: int| 0 <= k < after.unnotified.len() implies after.parked.contains(
                    #[trigger] after.unnotified[k].0,
                ) by {
                    let k0 = if k < i { k } else { k + 1 };
                    assert(ids_of(self.unnotified)[k0] != ids_of(self.unnotified)[i]);
                }
            },
            None => {
                assert forall|k: int| 0 <= k < after.unnotified.len() implies after.parked.contains(
                    #[trigger] after.unnotified[k].0,
                ) by {
                    assert(!recorded_at(self.unnotified, id, k));
                }
            },
        }
    }

    /// Asking for a notification keeps the registry well-formed, and
    /// afterwards no wakeup is owed.
    pub proof fn lemma_notify(self)
        requires
            self.wf(),
        ensures
            self.notify().wf(),
            self.notify().notified(),
            self.notice().is_some() <==> !self.notified(),
    {
        self.lemma_unnotified_bounded();
        let after = self.notify();
        if !self.notified() {
            assert(ids_of(after.unnotified) =~= ids_of(self.unnotified).drop_last());
            assert forall|i: int| 0 <= i < after.unnotified.len() implies after.parked.contains(
                #[trigger] after.unnotified[i].0,
            ) by {}
        }
    }
}

/// With every sleeping ticker unnotified, one notification hands out the
/// waker of exactly one of them, the one recorded last, and leaves the
/// others unnotified; a second notification right after it hands out
/// nothing and changes nothing.
pub proof fn lemma_one_notice_wakes_one(s: SleepersView)
    requires
        s.wf(),
        s.count > 0,
        s.unnotified.len() == s.count,
    ensures
        s.notice() == Some(s.unnotified.last().1),
        s.notify().count == s.count,
        s.notify().unnotified == s.unnotified.drop_last(),
        s.notify().notice().is_none(),
        s.notify().notify() == s.notify(),
{
}

/// No wakeup is lost: whenever tickers sleep and none of them has been
/// notified, a notification hands out a waker; and after a notification,
/// whatever the registry held, a ticker is notified or none sleeps.
pub proof fn lemma_no_lost_wakeup(s: SleepersView)
    requires
        s.wf(),
    ensures
        !s.notified() ==> s.notice().is_some(),
        s.notify().count == 0 || s.notify().count > s.notify().unnotified.len(),
        s.notify().wf(),
{
    s.lemma_notify();
}

/// When a sleeping ticker that had been notified leaves the registry and
/// the notification is passed on, the others are not left without one: a
/// ticker is notified or none sleeps.
pub proof fn lemma_passed_on_notice(s: SleepersView, id: usize)
    requires
        s.wf(),
        s.parked.contains(id),
        s.has_notified(id),
    ensures
        s.remove(id).wf(),
        s.remove(id).notify().wf(),
        s.remove(id).notify().notified(),
        s.remove(id).unnotified == s.unnotified,
        !s.remove(id).notified() ==> s.remove(id).notice().is_some(),
{
    s.lemma_remove(id);
    s.remove(id).lemma_notify();
}

/// A ticker that went to sleep is unnotified, so if it looks for work once
/// more and goes to sleep again it is found sleeping and unnotified.
pub proof fn lemma_sleep_twice_parks(s: SleepersView, id: usize, first: Waker, second: Waker)
    requires
        s.wf(),
        s.parked.contains(id),
    ensures
        !s.update(id, first).has_notified(id),
        s.update(id, first).update(id, second).unnotified.len() == s.update(
            id,
            first,
        ).unnotified.len(),
{
    s.lemma_update(id, first);
    let mid = s.update(id, first);
    let i = position_of(mid.unnotified, id).unwrap();
}

/// A list of sleeping tickers.
pub struct Sleepers {
    /// Number of sleeping tickers (both notified and unnotified).
    count: usize,
    /// Ids and wakers of sleeping unnotified tickers.
    wakers: Vec<(usize, Waker)>,
    /// Reclaimed ids.
    free_ids: Vec<usize>,
    /// The ids of all sleeping tickers, notified or not.
    parked: Ghost<Set<usize>>,
}

impl View for Sleepers {
    type V = SleepersView;

    closed spec fn view(&self) -> SleepersView {
        SleepersView {
            count: self.count as nat,
            unnotified: self.wakers@,
            free_ids: self.free_ids@,
            parked: self.parked@,
        }
    }
}

impl Sleepers {
    /// A registry with no sleeping ticker.
    pub fn new() -> (s: Sleepers)
        ensures
            s@ == SleepersView::empty(),
            s@.wf(),
    {
        Sleepers { count: 0, wakers: Vec::new(), free_ids: Vec::new(), parked: Ghost(Set::empty()) }
    }

    /// Number of sleeping tickers, notified or not.
    pub fn len(&self) -> (n: usize)
        ensures
            n == self@.count,
    {
        self.count
    }

    /// Inserts a new sleeping ticker and returns its id, which is not 0 and
    /// not the id of another sleeping ticker.
    pub fn insert(&mut self, waker: Waker) -> (id: usize)
        requires
            old(self)@.wf(),
            old(self)@.count < usize::MAX,
        ensures
            final(self)@.wf(),
            final(self)@ == old(self)@.insert(waker),
            id == old(self)@.next_id(),
            id != 0,
            !old(self)@.parked.contains(id),
    {
        proof {
            self@.lemma_insert(waker);
        }
        let id: usize = match self.free_ids.pop() {
            Some(id) => id,
            None => self.count + 1,
        };
        self.count += 1;
        self.wakers.push((id, waker));
        proof {
            self.parked@ = old(self).parked@.insert(id);
        }
        id
    }

    /// Records a new waker for the sleeping ticker `id`.
    ///
    /// If the ticker is still unnotified, its waker is replaced and the
    /// answer is `false`. If it was notified, it goes back on the list of
    /// unnotified tickers, as the next to be notified, and the answer is
    /// `true`.
    pub fn update(&mut self, id: usize, waker: Waker) -> (notified: bool)
        requires
            old(self)@.wf(),
            old(self)@.parked.contains(id),
        ensures
            final(self)@.wf(),
            final(self)@ == old(self)@.update(id, waker),
            notified == old(self)@.has_notified(id),
    {
        proof {
            self@.lemma_update(id, waker);
        }
        let mut i: usize = 0;
        while i < self.wakers.len()
            invariant
                *self == *old(self),
                self@.wf(),
                old(self)@.update(id, waker).wf(),
                i <= self.wakers@.len(),
                forall|k: int| 0 <= k < i ==> self.wakers@[k].0 != id,
            decreases self.wakers@.len() - i,
        {
            if self.wakers[i].0 == id {
                self.wakers[i] = (id, waker);
                proof {
                    lemma_position_unique(old(self).wakers@, id, i as int);
                }
                return false;
            }
            i += 1;
        }
        self.wakers.push((id, waker));
        true
    }

    /// Removes the sleeping ticker `id` and takes its id back.
    ///
    /// Returns `true` if the ticker was notified.
    pub fn remove(&mut self, id: usize) -> (notified: bool)
        requires
            old(self)@.wf(),
            old(self)@.parked.contains(id),
        ensures
            final(self)@.wf(),
            final(self)@ == old(self)@.remove(id),
            notified == old(self)@.has_notified(id),
    {
        proof {
            self@.lemma_remove(id);
        }
        self.count -= 1;
        self.free_ids.push(id);
        proof {
            self.parked@ = old(self).parked@.remove(id);
        }
        let ghost middle = *self;
        let mut i: usize = self.wakers.len();
        while i > 0
            invariant
                *self == middle,
                old(self)@.wf(),
                old(self)@.remove(id).wf(),
                middle.wakers@ == old(self).wakers@,
                middle.parked@ == old(self).parked@.remove(id),
                middle.count == old(self).count - 1,
                middle.free_ids@ == old(self).free_ids@.push(id),
                i <= self.wakers@.len(),
                forall|k: int| i <= k < self.wakers@.len() ==> self.wakers@[k].0 != id,
            decreases i,
        {
            i -= 1;
            if self.wakers[i].0 == id {
                self.wakers.remove(i);
                proof {
                    lemma_position_unique(old(self).wakers@, id, i as int);
                }
                return false;
            }
        }
        true
    }

    /// Whether a sleeping ticker is notified or no tickers are sleeping.
    pub fn is_notified(&self) -> (r: bool)
        ensures
            r == self@.notified(),
    {
        self.count == 0 || self.count > self.wakers.len()
    }

    /// Hands out the waker of the ticker to notify, taking it off the list
    /// of unnotified tickers.
    ///
    /// If a ticker was notified already or there are no tickers, nothing is
    /// handed out and nothing changes.
    pub fn notify(&mut self) -> (waker: Option<Waker>)
        requires
            old(self)@.wf(),
        ensures
            final(self)@.wf(),
            final(self)@ == old(self)@.notify(),
            waker == old(self)@.notice(),
    {
        proof {
            self@.lemma_notify();
        }
        if self.wakers.len() == self.count {
            match self.wakers.pop() {
                Some(item) => Some(item.1),
                None => None,
            }
        } else {
            None
        }
    }
}

} // verus!
