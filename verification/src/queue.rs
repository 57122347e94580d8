//! The run queue: the tasks that are ready to be polled, highest priority
//! first.
//!
//! The queue is a binary max-heap on the priorities. Tasks of equal priority
//! come out in no particular order.

use crate::runnable::PriorityRunnable;
use vstd::multiset::Multiset;
use vstd::prelude::*;

verus! {

/// The position above `k` in the heap.
spec fn parent(k: int) -> int {
    (k - 1) / 2
}

/// Every entry but the one at `skip` is no more urgent than the entry above
/// it.
spec fn ordered_but(s: Seq<PriorityRunnable>, skip: int) -> bool {
    forall|k: int|
        0 < k < s.len() && k != skip ==> s[parent(k)].priority >= (#[trigger] s[k]).priority
}

/// Every entry is no more urgent than the entry above it.
spec fn ordered(s: Seq<PriorityRunnable>) -> bool {
    forall|k: int| 0 < k < s.len() ==> s[parent(k)].priority >= (#[trigger] s[k]).priority
}

/// Every entry whose parent is not `skip` is no more urgent than its parent.
spec fn ordered_below_but(s: Seq<PriorityRunnable>, skip: int) -> bool {
    forall|k: int|
        0 < k < s.len() && parent(k) != skip ==> s[parent(k)].priority >= (#[trigger] s[k]).priority
}

/// The entries below `i` are no more urgent than the entry above `i`.
spec fn bridged(s: Seq<PriorityRunnable>, i: int) -> bool {
    i > 0 ==> forall|k: int|
        0 < k < s.len() && parent(k) == i ==> s[parent(i)].priority >= (#[trigger] s[k]).priority
}

/// `s` with the entries at `i` and `j` exchanged.
spec fn swapped(s: Seq<PriorityRunnable>, i: int, j: int) -> Seq<PriorityRunnable> {
    s.update(i, s[j]).update(j, s[i])
}

/// `item` is an entry of `before` that none exceeds in priority, and `after`
/// is `before` without it.
pub open spec fn is_pop(
    before: Multiset<PriorityRunnable>,
    item: PriorityRunnable,
    after: Multiset<PriorityRunnable>,
) -> bool {
    &&& before.contains(item)
    &&& after == before.remove(item)
    &&& forall|other: PriorityRunnable| #[trigger]
        before.contains(other) ==> other.priority <= item.priority
}

/// Exchanging two entries leaves the same entries.
proof fn lemma_swapped_same_entries(s: Seq<PriorityRunnable>, i: int, j: int)
    requires
        0 <= i < s.len(),
        0 <= j < s.len(),
    ensures
        swapped(s, i, j).to_multiset() == s.to_multiset(),
        swapped(s, i, j).len() == s.len(),
{
    let mid = s.update(i, s[j]);
    vstd::seq_lib::to_multiset_update(s, i, s[j]);
    vstd::seq_lib::to_multiset_update(mid, j, s[i]);
    vstd::seq_lib::to_multiset_contains(s, s[i]);
}

/// No entries make the empty multiset.
pub(crate) proof fn lemma_no_entries(s: Seq<PriorityRunnable>)
    requires
        s.len() == 0,
    ensures
        s.to_multiset() == Multiset::<PriorityRunnable>::empty(),
{
    assert forall|a: PriorityRunnable| s.to_multiset().count(a) == 0 by {
        vstd::seq_lib::to_multiset_contains(s, a);
    }
}

/// In an ordered heap no entry exceeds the first.
proof fn lemma_first_is_greatest(s: Seq<PriorityRunnable>, k: int)
    requires
        ordered(s),
        0 <= k < s.len(),
    ensures
        s[0].priority >= s[k].priority,
    decreases k,
{
    if k > 0 {
        lemma_first_is_greatest(s, parent(k));
    }
}

/// Exchanges the entries at `i` and `j`.
fn swap_entries(v: &mut Vec<PriorityRunnable>, i: usize, j: usize)
    requires
        i < j < old(v)@.len(),
    ensures
        final(v)@ == swapped(old(v)@, i as int, j as int),
{
    let (lo, hi) = v.as_mut_slice().split_at_mut(j);
    core::mem::swap(&mut lo[i], &mut hi[0]);
}

/// The tasks that are ready to be polled.
pub struct RunQueue {
    heap: Vec<PriorityRunnable>,
}

impl View for RunQueue {
    type V = Multiset<PriorityRunnable>;

    /// The queued tasks, in no order.
    closed spec fn view(&self) -> Multiset<PriorityRunnable> {
        self.heap@.to_multiset()
    }
}

impl RunQueue {
    /// What holds of every queue: no entry is more urgent than the one
    /// above it in the heap.
    pub closed spec fn wf(&self) -> bool {
        ordered(self.heap@)
    }

    /// An empty queue.
    pub fn new() -> (q: RunQueue)
        ensures
            q.wf(),
            q@ == Multiset::<PriorityRunnable>::empty(),
    {
        let q = RunQueue { heap: Vec::new() };
        proof {
            lemma_no_entries(q.heap@);
        }
        q
    }

    /// The number of queued tasks.
    pub fn len(&self) -> (n: usize)
        ensures
            n == self@.len(),
    {
        proof {
            vstd::seq_lib::to_multiset_len(self.heap@);
        }
        self.heap.len()
    }

    /// Whether no task is queued.
    pub fn is_empty(&self) -> (b: bool)
        ensures
            b == (self@.len() == 0),
    {
        proof {
            vstd::seq_lib::to_multiset_len(self.heap@);
        }
        self.heap.len() == 0
    }

    /// Takes every queued task out, without running any, and hands them
    /// over in no particular order.
    pub fn drain(&mut self) -> (tasks: Vec<PriorityRunnable>)
        ensures
            final(self).wf(),
            final(self)@ == Multiset::<PriorityRunnable>::empty(),
            tasks@.to_multiset() == old(self)@,
    {
        let mut tasks: Vec<PriorityRunnable> = Vec::new();
        core::mem::swap(&mut self.heap, &mut tasks);
        proof {
            lemma_no_entries(self.heap@);
        }
        tasks
    }

    /// Queues a task. This always succeeds.
    pub fn push(&mut self, item: PriorityRunnable)
        requires
            old(self).wf(),
        ensures
            final(self).wf(),
            final(self)@ == old(self)@.insert(item),
    {
        self.heap.push(item);
        proof {
            vstd::seq_lib::to_multiset_build(old(self).heap@, item);
        }
        let ghost pushed = self.heap@;
        let mut i: usize = self.heap.len() - 1;
        while i > 0
            invariant
                i < self.heap@.len(),
                self.heap@.len() == pushed.len(),
                self.heap@.to_multiset() == pushed.to_multiset(),
                ordered_but(self.heap@, i as int),
                bridged(self.heap@, i as int),
            ensures
                ordered(self.heap@),
                self.heap@.to_multiset() == pushed.to_multiset(),
            decreases i,
        {
            let p: usize = (i - 1) / 2;
            if self.heap[p].priority >= self.heap[i].priority {
                break ;
            }
            let ghost before = self.heap@;
            swap_entries(&mut self.heap, p, i);
            proof {
                lemma_swapped_same_entries(before, p as int, i as int);
                let after = self.heap@;
                assert forall|k: int| 0 < k < after.len() && k != p implies after[parent(
                    k,
                )].priority >= (#[trigger] after[k]).priority by {}
                if p > 0 {
                    assert forall|k: int| 0 < k < after.len() && parent(k) == p implies after[parent(
                        p as int,
                    )].priority >= (#[trigger] after[k]).priority by {
                        if k != i {
                            assert(before[parent(k)].priority >= before[k].priority);
                        }
                    }
                }
            }
            i = p;
        }
    }

    /// Takes out a task of the highest priority among those queued, or
    /// answers `None` if the queue is empty.
    pub fn pop(&mut self) -> (item: Option<PriorityRunnable>)
        requires
            old(self).wf(),
        ensures
            final(self).wf(),
            old(self)@.len() == 0 ==> item.is_none() && final(self)@ == old(self)@,
            old(self)@.len() > 0 ==> item.is_some() && is_pop(old(self)@, item.unwrap(), final(self)@),
    {
        proof {
            vstd::seq_lib::to_multiset_len(self.heap@);
        }
        if self.heap.len() == 0 {
            return None;
        }
        let ghost full = self.heap@;
        let top = self.heap.swap_remove(0);
        let ghost cut = self.heap@;
        proof {
            let last = full.len() - 1;
            lemma_swapped_same_entries(full, 0, last);
            vstd::seq_lib::to_multiset_remove(swapped(full, 0, last), last);
            assert(cut =~= swapped(full, 0, last).remove(last));
            vstd::seq_lib::to_multiset_contains(full, top);
            assert forall|other: PriorityRunnable| #[trigger]
                full.to_multiset().contains(other) implies other.priority <= top.priority by {
                vstd::seq_lib::to_multiset_contains(full, other);
                let k = choose|k: int| 0 <= k < full.len() && full[k] == other;
                lemma_first_is_greatest(full, k);
            }
            assert forall|k: int| 0 < k < cut.len() && parent(k) != 0 implies cut[parent(
                k,
            )].priority >= (#[trigger] cut[k]).priority by {}
        }
        let n: usize = self.heap.len();
        let mut i: usize = 0;
        while i < n / 2
            invariant
                n == self.heap@.len(),
                self.heap@.to_multiset() == cut.to_multiset(),
                ordered_below_but(self.heap@, i as int),
                bridged(self.heap@, i as int),
            ensures
                ordered(self.heap@),
                self.heap@.to_multiset() == cut.to_multiset(),
            decreases n - i,
        {
            let left: usize = 2 * i + 1;
            let right: usize = left + 1;
            let child: usize = if right < n && self.heap[right].priority > self.heap[left].priority {
                right
            } else {
                left
            };
            if self.heap[i].priority >= self.heap[child].priority {
                proof {
                    let s = self.heap@;
                    assert forall|k: int| 0 < k < s.len() implies s[parent(k)].priority >= (
                    #[trigger] s[k]).priority by {}
                }
                break ;
            }
            let ghost before = self.heap@;
            swap_entries(&mut self.heap, i, child);
            proof {
                lemma_swapped_same_entries(before, i as int, child as int);
                let after = self.heap@;
                assert forall|k: int| 0 < k < after.len() && parent(k) != child implies after[parent(
                    k,
                )].priority >= (#[trigger] after[k]).priority by {}
                assert forall|k: int| 0 < k < after.len() && parent(k) == child implies after[parent(
                    child as int,
                )].priority >= (#[trigger] after[k]).priority by {}
            }
            i = child;
        }
        proof {
            let s = self.heap@;
            assert(ordered(s)) by {
                if i >= n / 2 {
                    assert forall|k: int| 0 < k < s.len() implies s[parent(k)].priority >= (
                    #[trigger] s[k]).priority by {}
                }
            }
        }
        Some(top)
    }
}

/// Starting from the tasks `before`, taking out one task after the other
/// hands out `items`, in that order, and leaves `after`.
pub open spec fn pops(
    before: Multiset<PriorityRunnable>,
    items: Seq<PriorityRunnable>,
    after: Multiset<PriorityRunnable>,
) -> bool
    decreases items.len(),
{
    if items.len() == 0 {
        after == before
    } else {
        &&& is_pop(before, items[0], before.remove(items[0]))
        &&& pops(before.remove(items[0]), items.drop_first(), after)
    }
}

/// Of two tasks taken out one after the other, the first has at least the
/// priority of the second.
pub proof fn lemma_pops_descend(
    first: Multiset<PriorityRunnable>,
    a: PriorityRunnable,
    second: Multiset<PriorityRunnable>,
    b: PriorityRunnable,
    third: Multiset<PriorityRunnable>,
)
    requires
        is_pop(first, a, second),
        is_pop(second, b, third),
    ensures
        a.priority >= b.priority,
{
    assert(first.contains(b));
}

/// A queued task of higher priority is never passed over: whatever is taken
/// out has at least the priority of everything that stays behind.
pub proof fn lemma_pop_leaves_no_higher(
    before: Multiset<PriorityRunnable>,
    item: PriorityRunnable,
    after: Multiset<PriorityRunnable>,
    other: PriorityRunnable,
)
    requires
        is_pop(before, item, after),
        after.contains(other),
    ensures
        other.priority <= item.priority,
{
    assert(before.contains(other));
}

/// What is taken out was queued, and together with what is left it makes
/// up what was queued: no task is lost and none is handed out twice.
pub proof fn lemma_pops_hand_out_each_once(
    before: Multiset<PriorityRunnable>,
    items: Seq<PriorityRunnable>,
    after: Multiset<PriorityRunnable>,
)
    requires
        pops(before, items, after),
    ensures
        before == after.add(items.to_multiset()),
        before.len() == after.len() + items.len(),
        forall|k: int| 0 <= k < items.len() ==> before.contains(#[trigger] items[k]),
    decreases items.len(),
{
    if items.len() == 0 {
        lemma_no_entries(items);
    } else {
        let mid = before.remove(items[0]);
        let rest = items.drop_first();
        lemma_pops_hand_out_each_once(mid, rest, after);
        assert(items =~= seq![items[0]] + rest);
        vstd::seq_lib::lemma_multiset_commutative(seq![items[0]], rest);
        vstd::seq_lib::to_multiset_build(Seq::<PriorityRunnable>::empty(), items[0]);
        lemma_no_entries(Seq::<PriorityRunnable>::empty());
        assert(mid.insert(items[0]) =~= before);
        assert(after.add(rest.to_multiset().insert(items[0])) =~= after.add(
            rest.to_multiset(),
        ).insert(items[0]));
        assert forall|k: int| 0 <= k < items.len() implies before.contains(#[trigger] items[k]) by {}
    }
}

/// Tasks leave the queue from the highest priority down: of any two tasks
/// taken out, the earlier has at least the priority of the later.
pub proof fn lemma_pops_by_priority(
    before: Multiset<PriorityRunnable>,
    items: Seq<PriorityRunnable>,
    after: Multiset<PriorityRunnable>,
)
    requires
        pops(before, items, after),
    ensures
        forall|i: int, j: int|
            0 <= i < j < items.len() ==> (#[trigger] items[i]).priority >= (
            #[trigger] items[j]).priority,
    decreases items.len(),
{
    if items.len() > 0 {
        let mid = before.remove(items[0]);
        let rest = items.drop_first();
        lemma_pops_by_priority(mid, rest, after);
        lemma_pops_hand_out_each_once(before, items, after);
        assert forall|i: int, j: int| 0 <= i < j < items.len() implies (#[trigger] items[i]).priority
            >= (#[trigger] items[j]).priority by {
            if i > 0 {
                assert(rest[i - 1] == items[i] && rest[j - 1] == items[j]);
            }
        }
    }
}

} // verus!
