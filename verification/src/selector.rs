//! Iteration policies over an index range `[0, size)`: a cyclic
//! round-robin cursor and random sampling without replacement.

use crate::rng::rng_from_entropy;
use crate::rng::rng_gen_below;
use std::collections::HashSet;
use vstd::prelude::*;

verus! {

broadcast use vstd::std_specs::hash::group_hash_axioms, vstd::set::group_set_axioms;

/// One step of the round-robin policy over `[0, size)`: from cursor `cur`
/// the selector returns `cur` (or wraps to 0 when the range is exhausted)
/// and advances the cursor past the returned index.
pub open spec fn rr_step(size: int, cur: int) -> (int, int) {
    let out = if cur >= size {
        0int
    } else {
        cur
    };
    (out, out + 1)
}

/// The cursor of a fresh selector after `k` calls of `next`.
pub open spec fn rr_cursor(size: int, k: nat) -> int
    decreases k,
{
    if k == 0 {
        0int
    } else {
        rr_step(size, rr_cursor(size, (k - 1) as nat)).1
    }
}

/// The index returned by the `k`-th call (0-based) of `next` on a fresh
/// selector.
pub open spec fn rr_output(size: int, k: nat) -> int {
    rr_step(size, rr_cursor(size, k)).0
}

/// Round-robin fairness: over a non-empty range of `size` indices, the
/// first `size` calls return `0, 1, ..., size - 1` in order — each index
/// exactly once — and the following call wraps back to index 0.
pub proof fn lemma_round_robin_fairness(size: int, k: nat)
    requires
        0 < size,
    ensures
        k < size ==> rr_output(size, k) == k,
        k == size ==> rr_output(size, k) == 0,
    decreases k,
{
    if k > 0 {
        lemma_round_robin_fairness(size, (k - 1) as nat);
    }
}

/// A cyclic cursor over the index range `[0, size)`, used to walk a
/// collection without stable ordering by position. `next` returns the
/// current index and advances, wrapping to 0 at the end of the range.
pub struct RoundRobinIndexSelector {
    index_size: u32,
    current_index: u32,
}

impl RoundRobinIndexSelector {
    pub closed spec fn size(&self) -> u32 {
        self.index_size
    }

    pub closed spec fn cursor(&self) -> u32 {
        self.current_index
    }

    pub fn new(init_size: u32) -> (r: Self)
        ensures
            r.size() == init_size,
            r.cursor() == 0,
    {
        Self { index_size: init_size, current_index: 0 }
    }

    /// Returns the current index and advances the cursor cyclically.
    /// A returned index is in range exactly when the range is non-empty
    /// and the cursor had not outrun a shrunken range.
    pub fn next(&mut self) -> (r: u32)
        ensures
            (r as int, final(self).cursor() as int) == rr_step(
                old(self).size() as int,
                old(self).cursor() as int,
            ),
            final(self).size() == old(self).size(),
            0 < old(self).size() ==> r < old(self).size(),
    {
        if self.current_index >= self.index_size {
            self.current_index = 0;
        }
        let index = self.current_index;
        self.current_index = index + 1;
        index
    }

    /// Re-sizes the range after the backing collection grew or shrank.
    /// The cursor is kept, so a sweep in progress resumes where it was;
    /// a cursor past the new end simply wraps on the next call.
    pub fn set_size(&mut self, size: u32)
        ensures
            final(self).size() == size,
            final(self).cursor() == old(self).cursor(),
    {
        self.index_size = size;
    }
}

/// A pure skip rule over candidates: `skip` answers exactly what the
/// spec-level rule `spec_skip` says of the candidate, and mutates no
/// captured state.
pub trait SkipPredicate<T> {
    spec fn spec_skip(&self, t: &T) -> bool;

    fn skip(&self, t: &T) -> (r: bool)
        ensures
            r == self.spec_skip(t),
    ;
}

/// The position `step` places beyond `start` in a cyclic walk of
/// `[0, len)`.
pub open spec fn cyclic_position(start: int, step: int, len: int) -> int {
    if start + step < len {
        start + step
    } else {
        start + step - len
    }
}

/// Position `i` is the first eligible position of `s` in the cyclic
/// walk from `start`: some number of steps `d` reaches `i`, and every
/// position walked before it is skipped by the rule.
pub open spec fn first_eligible_at<T, P: SkipPredicate<T>>(
    s: Seq<T>,
    pred: &P,
    start: int,
    i: int,
) -> bool {
    exists|d: int|
        0 <= d < s.len() && i == #[trigger] cyclic_position(start, d, s.len() as int) && (forall|
            e: int,
        |
            0 <= e < d ==> pred.spec_skip(&s[#[trigger] cyclic_position(start, e, s.len() as int)]))
}

/// Round-robin over a collection with a skip rule: `next` returns the
/// position of the next element whose skip rule is false, advancing the
/// cursor cyclically past it and wrapping at the end back to position 0.
/// One full sweep — exactly the collection length, counted in skip
/// decisions, wherever the sweep wraps — finding nothing eligible
/// returns `None` rather than looping on.
pub struct RoundRobinSelector<T> {
    elems: Vec<T>,
    cursor: usize,
}

impl<T> RoundRobinSelector<T> {
    /// The elements walked, in insertion order.
    pub closed spec fn elements(&self) -> Seq<T> {
        self.elems@
    }

    pub closed spec fn cursor_spec(&self) -> usize {
        self.cursor
    }

    pub fn new(elems: Vec<T>) -> (r: Self)
        ensures
            r.elements() == elems@,
            r.cursor_spec() == 0,
    {
        Self { elems, cursor: 0 }
    }

    /// The next element not skipped, by position: starting at the
    /// cursor (wrapped into range), the first position in cyclic order
    /// whose element the rule keeps; every position probed before it was
    /// skipped. `None` exactly when every element is skipped, reached
    /// after at most one skip decision per element.
    pub fn next<P: SkipPredicate<T>>(&mut self, pred: &P) -> (r: Option<usize>)
        ensures
            final(self).elements() == old(self).elements(),
            ({
                let s = old(self).elements();
                let len = s.len() as int;
                let start: int = if old(self).cursor_spec() >= s.len() {
                    0
                } else {
                    old(self).cursor_spec() as int
                };
                match r {
                    Some(i) => {
                        &&& i < s.len()
                        &&& !pred.spec_skip(&s[i as int])
                        &&& final(self).cursor_spec() == i + 1
                        &&& first_eligible_at(s, pred, start, i as int)
                    },
                    None => {
                        &&& forall|j: int| 0 <= j < len ==> pred.spec_skip(&s[j])
                        &&& final(self).cursor_spec() == old(self).cursor_spec()
                    },
                }
            }),
    {
        let n = self.elems.len();
        if n == 0 {
            return None;
        }
        let start = if self.cursor >= n {
            0
        } else {
            self.cursor
        };
        let mut steps: usize = 0;
        let mut idx = start;
        while steps < n
            invariant
                n == self.elems@.len(),
                0 < n,
                start < n,
                idx < n,
                steps <= n,
                idx as int == cyclic_position(start as int, steps as int, n as int),
                self.elems@ == old(self).elems@,
                self.cursor == old(self).cursor,
                forall|e: int|
                    0 <= e < steps ==> pred.spec_skip(
                        &self.elems@[#[trigger] cyclic_position(start as int, e, n as int)],
                    ),
            decreases n - steps,
        {
            if !pred.skip(&self.elems[idx]) {
                self.cursor = idx + 1;
                proof {
                    assert(idx as int == cyclic_position(start as int, steps as int, n as int));
                    assert(first_eligible_at(self.elems@, pred, start as int, idx as int));
                }
                return Some(idx);
            }
            idx = idx + 1;
            if idx == n {
                idx = 0;
            }
            steps = steps + 1;
        }
        proof {
            assert forall|j: int| 0 <= j < n implies pred.spec_skip(&self.elems@[j]) by {
                let d: int = if j >= start {
                    j - start
                } else {
                    j + n - start
                };
                assert(0 <= d < n);
                assert(cyclic_position(start as int, d, n as int) == j);
            }
        }
        None
    }
}

/// Draws distinct indices from `[0, size)` uniformly at random, without
/// replacement: a partial shuffle of the index pool, so a draw of `num`
/// indices takes exactly `num` random picks and always terminates —
/// unlike resampling until enough distinct values have shown up, which
/// admits no bound on the number of picks.
pub struct RandomIndexSelector {
    rng: rand::rngs::StdRng,
    index_size: u32,
}

impl RandomIndexSelector {
    pub closed spec fn size(&self) -> u32 {
        self.index_size
    }

    pub fn new(init_size: u32) -> (r: Self)
        ensures
            r.size() == init_size,
    {
        Self { index_size: init_size, rng: rng_from_entropy() }
    }

    pub fn set_size(&mut self, size: u32)
        ensures
            final(self).size() == size,
    {
        self.index_size = size;
    }

    /// Samples `num` distinct indices from `[0, size)`. Asking for more
    /// indices than the range holds is a caller bug, ruled out by the
    /// precondition rather than clamped.
    pub fn next(&mut self, num: u32) -> (r: HashSet<u32>)
        requires
            num <= old(self).size(),
        ensures
            r@.len() == num as nat,
            forall|x: u32| r@.contains(x) ==> x < old(self).size(),
            final(self).size() == old(self).size(),
    {
        let n = self.index_size;
        let mut pool: Vec<u32> = Vec::new();
        let mut i: u32 = 0;
        while i < n
            invariant
                i <= n,
                pool@.len() == i as nat,
                forall|p: int| 0 <= p < i ==> pool@[p] == p,
            decreases n - i,
        {
            pool.push(i);
            i = i + 1;
        }
        let mut picked: HashSet<u32> = HashSet::new();
        let mut k: u32 = 0;
        while k < num
            invariant
                num <= n,
                k <= num,
                self.index_size == n,
                pool@.len() == n as nat,
                forall|p: int| 0 <= p < n ==> pool@[p] < n,
                forall|p: int, q: int| 0 <= p < n && 0 <= q < n && p != q ==> pool@[p] != pool@[q],
                picked@.finite(),
                picked@.len() == k as nat,
                forall|x: u32| picked@.contains(x) ==> exists|p: int| 0 <= p < k && pool@[p] == x,
            decreases num - k,
        {
            let ghost pool0 = pool@;
            let ghost picked0 = picked@;
            let offset = rng_gen_below(&mut self.rng, n - k);
            let j = k + offset;
            let a = pool[k as usize];
            let b = pool[j as usize];
            pool[k as usize] = b;
            pool[j as usize] = a;
            let chosen = pool[k as usize];
            proof {
                assert(chosen == pool0[j as int]);
                assert(!picked0.contains(chosen)) by {
                    if picked0.contains(chosen) {
                        let p = choose|p: int| 0 <= p < k && pool0[p] == chosen;
                        assert(pool0[p] == pool0[j as int]);
                    }
                }
            }
            picked.insert(chosen);
            k = k + 1;
            proof {
                assert forall|x: u32| picked@.contains(x) implies exists|p: int|
                    0 <= p < k && pool@[p] == x by {
                    if x == chosen {
                        assert(pool@[k - 1] == x);
                    } else {
                        let p = choose|p: int| 0 <= p < k - 1 && pool0[p] == x;
                        assert(pool@[p] == x);
                    }
                }
            }
        }
        picked
    }
}

} // verus!
