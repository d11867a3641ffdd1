//! The membership registry: the known peers, the ordered index behind
//! the index-based selectors, and the probe sequence counter, held as
//! one unit so a reader can never observe the index out of step with
//! the entries. Entries are kept in insertion order; the position of an
//! entry is its index for both selectors. The registry holds remote
//! peers only — the local node is never inserted, so it can never be
//! returned as a probe or gossip target.

use crate::packet::NodeStats;
use crate::selector::RandomIndexSelector;
use crate::selector::RoundRobinIndexSelector;
use crate::selector::rr_step;
use std::collections::HashSet;
use vstd::prelude::*;

verus! {

broadcast use vstd::std_specs::hash::group_hash_axioms, vstd::set::group_set_axioms;

/// The position of the entry stored under `id`, or -1 where no entry is.
pub open spec fn index_of_id(s: Seq<NodeStats>, id: Seq<char>) -> int
    decreases s.len(),
{
    if s.len() == 0 {
        -1
    } else if s[0].node_id@ == id {
        0
    } else {
        let r = index_of_id(s.drop_first(), id);
        if r < 0 {
            -1
        } else {
            r + 1
        }
    }
}

/// `index_of_id` finds the first entry under `id`, and -1 means none.
pub proof fn lemma_index_of_id(s: Seq<NodeStats>, id: Seq<char>)
    ensures
        index_of_id(s, id) < 0 ==> forall|j: int|
            0 <= j < s.len() ==> (#[trigger] s[j]).node_id@ != id,
        index_of_id(s, id) >= 0 ==> {
            let idx = index_of_id(s, id);
            &&& 0 <= idx < s.len()
            &&& s[idx].node_id@ == id
            &&& forall|j: int| 0 <= j < idx ==> (#[trigger] s[j]).node_id@ != id
        },
    decreases s.len(),
{
    if s.len() > 0 && s[0].node_id@ != id {
        lemma_index_of_id(s.drop_first(), id);
        assert(forall|j: int|
            1 <= j < s.len() ==> #[trigger] s[j] == s.drop_first()[j - 1]);
    }
}

/// The concurrent node registry with its selectors and its sequence
/// counter.
pub struct State {
    sequence: u64,
    entries: Vec<NodeStats>,
    round_robin_selector: RoundRobinIndexSelector,
    random_selector: RandomIndexSelector,
}

impl State {
    /// Well-formedness: the selectors are sized to the population and
    /// node ids are unique. Established by `new` and kept by every
    /// method.
    pub closed spec fn wf(&self) -> bool {
        &&& self.entries@.len() <= u32::MAX
        &&& self.round_robin_selector.size() as int == self.entries@.len()
        &&& self.random_selector.size() as int == self.entries@.len()
        &&& forall|i: int, j: int|
            0 <= i < self.entries@.len() && 0 <= j < self.entries@.len() && i != j ==> (
            #[trigger] self.entries@[i]).node_id@ != (#[trigger] self.entries@[j]).node_id@
    }

    /// The known peers, in insertion order.
    pub closed spec fn nodes(&self) -> Seq<NodeStats> {
        self.entries@
    }

    /// The next value the sequence counter will hand out.
    pub closed spec fn seq_counter(&self) -> u64 {
        self.sequence
    }

    /// The round-robin selector's cursor.
    pub closed spec fn rr_cursor(&self) -> u32 {
        self.round_robin_selector.cursor()
    }

    pub fn new() -> (r: Self)
        ensures
            r.wf(),
            r.nodes() == Seq::<NodeStats>::empty(),
            r.seq_counter() == 0,
            r.rr_cursor() == 0,
    {
        let entries: Vec<NodeStats> = Vec::new();
        proof {
            assert(entries@ =~= Seq::<NodeStats>::empty());
        }
        State {
            sequence: 0,
            entries,
            round_robin_selector: RoundRobinIndexSelector::new(0),
            random_selector: RandomIndexSelector::new(0),
        }
    }

    /// How many peers are known. A well-formed registry's population
    /// fits the selectors' index type.
    pub fn node_count(&self) -> (r: usize)
        ensures
            r == self.nodes().len(),
            self.wf() ==> r <= u32::MAX,
    {
        self.entries.len()
    }

    /// Hands out the next probe correlation sequence: returns the
    /// current counter and advances it by exactly one. Called once per
    /// outbound ping; the counter never goes backward.
    pub fn next_seq(&mut self) -> (r: u64)
        requires
            old(self).wf(),
            old(self).seq_counter() < u64::MAX,
        ensures
            final(self).wf(),
            r == old(self).seq_counter(),
            final(self).seq_counter() == old(self).seq_counter() + 1,
            final(self).nodes() == old(self).nodes(),
            final(self).rr_cursor() == old(self).rr_cursor(),
    {
        let r = self.sequence;
        self.sequence = r + 1;
        r
    }

    /// Inserts a peer, or replaces the entry already stored under the
    /// same `node_id` in place — the entry is replaced wholesale, never
    /// mutated field by field, and its index position is kept.
    pub fn upsert_node(&mut self, node: NodeStats)
        requires
            old(self).wf(),
            old(self).nodes().len() < u32::MAX,
        ensures
            final(self).wf(),
            ({
                let idx = index_of_id(old(self).nodes(), node.node_id@);
                final(self).nodes() == if idx >= 0 {
                    old(self).nodes().update(idx, node)
                } else {
                    old(self).nodes().push(node)
                }
            }),
            final(self).seq_counter() == old(self).seq_counter(),
            final(self).rr_cursor() == old(self).rr_cursor(),
    {
        proof {
            lemma_index_of_id(self.entries@, node.node_id@);
        }
        let ghost entries0 = self.entries@;
        let ghost id = node.node_id@;
        let n = self.entries.len();
        let mut i: usize = 0;
        while i < n
            invariant
                i <= n,
                n == self.entries@.len(),
                self.entries@ == entries0,
                self.sequence == old(self).sequence,
                self.round_robin_selector == old(self).round_robin_selector,
                self.random_selector == old(self).random_selector,
                id == node.node_id@,
                forall|j: int| 0 <= j < i ==> (#[trigger] entries0[j]).node_id@ != id,
            decreases n - i,
        {
            if self.entries[i].node_id == node.node_id {
                proof {
                    lemma_index_of_id(entries0, id);
                    assert(index_of_id(entries0, id) == i);
                }
                self.entries[i] = node;
                return;
            }
            i = i + 1;
        }
        proof {
            lemma_index_of_id(entries0, id);
        }
        self.entries.push(node);
        let size = self.entries.len() as u32;
        self.round_robin_selector.set_size(size);
        self.random_selector.set_size(size);
    }

    /// Removes the peer stored under `node_id`, if any, and re-sizes the
    /// selectors to the remaining population.
    pub fn remove_node(&mut self, node_id: &String)
        requires
            old(self).wf(),
        ensures
            final(self).wf(),
            ({
                let idx = index_of_id(old(self).nodes(), node_id@);
                final(self).nodes() == if idx >= 0 {
                    old(self).nodes().remove(idx)
                } else {
                    old(self).nodes()
                }
            }),
            final(self).seq_counter() == old(self).seq_counter(),
    {
        let ghost entries0 = self.entries@;
        let ghost id = node_id@;
        let n = self.entries.len();
        let mut i: usize = 0;
        while i < n
            invariant
                i <= n,
                n == self.entries@.len(),
                self.entries@ == entries0,
                self.sequence == old(self).sequence,
                self.round_robin_selector == old(self).round_robin_selector,
                self.random_selector == old(self).random_selector,
                id == node_id@,
                forall|j: int| 0 <= j < i ==> (#[trigger] entries0[j]).node_id@ != id,
            decreases n - i,
        {
            if self.entries[i].node_id == *node_id {
                proof {
                    lemma_index_of_id(entries0, id);
                    assert(index_of_id(entries0, id) == i);
                }
                self.entries.remove(i);
                let size = self.entries.len() as u32;
                self.round_robin_selector.set_size(size);
                self.random_selector.set_size(size);
                return;
            }
            i = i + 1;
        }
        proof {
            lemma_index_of_id(entries0, id);
        }
    }

    /// The next peer per the round-robin policy: the cursor's index is
    /// resolved to an entry and the cursor advances cyclically. Returns
    /// nothing where the index is out of range — the registry is empty,
    /// or the cursor had outrun a population that shrank — so a caller
    /// treats that as "no eligible peer this tick" rather than an error.
    pub fn round_robin_next(&mut self) -> (r: Option<NodeStats>)
        requires
            old(self).wf(),
        ensures
            final(self).wf(),
            ({
                let step = rr_step(old(self).nodes().len() as int, old(self).rr_cursor() as int);
                &&& final(self).rr_cursor() as int == step.1
                &&& r == if step.0 < old(self).nodes().len() {
                    Some(old(self).nodes()[step.0])
                } else {
                    None::<NodeStats>
                }
            }),
            final(self).nodes() == old(self).nodes(),
            final(self).seq_counter() == old(self).seq_counter(),
            old(self).nodes().len() > 0 ==> r is Some,
    {
        let idx = self.round_robin_selector.next();
        if (idx as usize) < self.entries.len() {
            Some(self.entries[idx as usize].clone())
        } else {
            None
        }
    }

    /// Up to `num` distinct peers chosen uniformly at random — exactly
    /// `num`, since every index the sampler yields is in range here.
    /// Asking for more peers than are known is a caller bug, ruled out
    /// by the precondition rather than clamped.
    pub fn random_nodes(&mut self, num: u32) -> (r: Vec<NodeStats>)
        requires
            old(self).wf(),
            num as nat <= old(self).nodes().len(),
        ensures
            final(self).wf(),
            r@.len() == num as nat,
            forall|p: int| 0 <= p < r@.len() ==> old(self).nodes().contains(#[trigger] r@[p]),
            forall|p: int, q: int|
                0 <= p < r@.len() && 0 <= q < r@.len() && p != q ==> (
                #[trigger] r@[p]).node_id@ != (#[trigger] r@[q]).node_id@,
            final(self).nodes() == old(self).nodes(),
            final(self).seq_counter() == old(self).seq_counter(),
            final(self).rr_cursor() == old(self).rr_cursor(),
    {
        let ghost entries0 = self.entries@;
        let picked: HashSet<u32> = self.random_selector.next(num);
        let n = self.entries.len();
        let mut chosen: Vec<NodeStats> = Vec::new();
        let ghost mut seen = Set::<u32>::empty();
        let ghost mut idxs = Seq::<int>::empty();
        let mut i: usize = 0;
        while i < n
            invariant
                i <= n,
                n == self.entries@.len(),
                self.entries@ == entries0,
                n <= u32::MAX,
                seen.finite(),
                chosen@.len() == seen.len(),
                forall|x: u32| seen.contains(x) <==> (picked@.contains(x) && (x as int) < i as int),
                idxs.len() == chosen@.len(),
                forall|p: int| 0 <= p < idxs.len() ==> 0 <= #[trigger] idxs[p] < i as int,
                forall|p: int| 0 <= p < idxs.len() ==> chosen@[p] == entries0[#[trigger] idxs[p]],
                forall|p: int, q: int|
                    0 <= p < idxs.len() && 0 <= q < idxs.len() && p != q ==> #[trigger] idxs[p]
                        != #[trigger] idxs[q],
                forall|i1: int, j1: int|
                    0 <= i1 < entries0.len() && 0 <= j1 < entries0.len() && i1 != j1 ==> (
                    #[trigger] entries0[i1]).node_id@ != (#[trigger] entries0[j1]).node_id@,
            decreases n - i,
        {
            let key = i as u32;
            if picked.contains(&key) {
                proof {
                    assert(!seen.contains(key));
                    seen = seen.insert(key);
                    idxs = idxs.push(i as int);
                }
                chosen.push(self.entries[i].clone());
            }
            i = i + 1;
        }
        proof {
            assert forall|x: u32| seen.contains(x) <==> picked@.contains(x) by {
                if picked@.contains(x) {
                    assert((x as int) < n as int);
                }
            }
            assert(seen =~= picked@);
            assert(chosen@.len() == num as nat);
            assert forall|p: int| 0 <= p < chosen@.len() implies entries0.contains(
                #[trigger] chosen@[p],
            ) by {
                assert(chosen@[p] == entries0[idxs[p]]);
            }
            assert forall|p: int, q: int|
                0 <= p < chosen@.len() && 0 <= q < chosen@.len() && p != q implies (
            #[trigger] chosen@[p]).node_id@ != (#[trigger] chosen@[q]).node_id@ by {
                assert(chosen@[p] == entries0[idxs[p]]);
                assert(chosen@[q] == entries0[idxs[q]]);
                assert(idxs[p] != idxs[q]);
            }
        }
        chosen
    }
}

} // verus!
