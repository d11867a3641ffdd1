//! The gossip dissemination queue: a deduplicating, priority-ordered
//! store of outbound entries, drained by size budget once per protocol
//! round and governed by the retransmit-count policy.
//!
//! Entries are kept in insertion order. Every entry enters with a zero
//! transmit count and is removed outright when yielded, so insertion
//! order coincides with the fewest-transmissions-first priority. A
//! superseded entry is tombstoned in place and lazily dropped at drain
//! time rather than removed eagerly.

use crate::policy::BroadCastPolicy;
use vstd::prelude::*;

verus! {

broadcast use vstd::seq_lib::group_seq_lib_default;

/// An outbound gossip entry: `key` is its dedup identity, `packet` the
/// encoded payload, `transmit_count` how often it has been sent, and
/// `invalid` the tombstone flag of a superseded entry.
#[derive(Debug)]
pub struct BroadCastMessage {
    pub key: String,
    pub packet: Vec<u8>,
    pub transmit_count: u32,
    pub invalid: bool,
}

impl BroadCastMessage {
    /// Tombstones the entry: a tombstoned entry is skipped at drain time
    /// and never delivered.
    pub fn invalid(&mut self)
        ensures
            final(self).key == old(self).key,
            final(self).packet == old(self).packet,
            final(self).transmit_count == old(self).transmit_count,
            final(self).invalid,
    {
        self.invalid = true;
    }
}

/// The size an entry charges against a drain's budget: its encoded
/// payload length in bytes.
pub open spec fn entry_size(m: BroadCastMessage) -> nat {
    m.packet@.len()
}

/// The live (not tombstoned) entries of a stored sequence, in order.
pub open spec fn pending_of(s: Seq<BroadCastMessage>) -> Seq<BroadCastMessage> {
    s.filter(|m: BroadCastMessage| !m.invalid)
}

/// The entries of `s` whose key differs from `key`, in order.
pub open spec fn remove_key(s: Seq<BroadCastMessage>, key: Seq<char>) -> Seq<BroadCastMessage> {
    s.filter(|m: BroadCastMessage| m.key@ != key)
}

/// The entries of `s` stored under `key`, in order.
pub open spec fn entries_with_key(s: Seq<BroadCastMessage>, key: Seq<char>) -> Seq<
    BroadCastMessage,
> {
    s.filter(|m: BroadCastMessage| m.key@ == key)
}

/// What `offer` does to the pending entries: any entry already stored
/// under the same key is dropped (last writer wins), and the new entry
/// joins at the back of the queue.
pub open spec fn spec_offer(s: Seq<BroadCastMessage>, m: BroadCastMessage) -> Seq<
    BroadCastMessage,
> {
    remove_key(s, m.key@).push(m)
}

/// What one drain does to the pending entries, walked front to back with
/// `used` bytes of `budget` already spent: an entry whose next
/// transmission would reach the retransmit `limit` is held back for a
/// later round; the walk stops at the first entry that does not fit the
/// remaining budget; every other entry is yielded. The result is the
/// pair (yielded entries, entries left pending), both in order.
pub open spec fn spec_drain(
    s: Seq<BroadCastMessage>,
    used: int,
    budget: int,
    limit: int,
) -> (Seq<BroadCastMessage>, Seq<BroadCastMessage>)
    decreases s.len(),
{
    if s.len() == 0 {
        (Seq::<BroadCastMessage>::empty(), Seq::<BroadCastMessage>::empty())
    } else {
        let m = s[0];
        let rest = s.drop_first();
        if m.transmit_count + 1 >= limit {
            let tk = spec_drain(rest, used, budget, limit);
            (tk.0, seq![m] + tk.1)
        } else if used >= budget || used + entry_size(m) > budget {
            (Seq::<BroadCastMessage>::empty(), s)
        } else {
            let tk = spec_drain(rest, used + entry_size(m), budget, limit);
            (seq![m] + tk.0, tk.1)
        }
    }
}

/// The bytes all entries of `s` together charge against a budget.
pub open spec fn total_size(s: Seq<BroadCastMessage>) -> nat
    decreases s.len(),
{
    if s.len() == 0 {
        0
    } else {
        entry_size(s[0]) + total_size(s.drop_first())
    }
}

proof fn lemma_pending_push(s: Seq<BroadCastMessage>, e: BroadCastMessage)
    ensures
        pending_of(s.push(e)) == if !e.invalid {
            pending_of(s).push(e)
        } else {
            pending_of(s)
        },
{
    reveal(Seq::filter);
    assert(s.push(e).drop_last() =~= s);
}

proof fn lemma_remove_key_push(s: Seq<BroadCastMessage>, e: BroadCastMessage, key: Seq<char>)
    ensures
        remove_key(s.push(e), key) == if e.key@ != key {
            remove_key(s, key).push(e)
        } else {
            remove_key(s, key)
        },
{
    reveal(Seq::filter);
    assert(s.push(e).drop_last() =~= s);
}

proof fn lemma_with_key_push(s: Seq<BroadCastMessage>, e: BroadCastMessage, key: Seq<char>)
    ensures
        entries_with_key(s.push(e), key) == if e.key@ == key {
            entries_with_key(s, key).push(e)
        } else {
            entries_with_key(s, key)
        },
{
    reveal(Seq::filter);
    assert(s.push(e).drop_last() =~= s);
}

proof fn lemma_pending_empty()
    ensures
        pending_of(Seq::<BroadCastMessage>::empty()) == Seq::<BroadCastMessage>::empty(),
{
    reveal(Seq::filter);
}

/// A live suffix element splits off the front of the pending view.
proof fn lemma_pending_skip(s: Seq<BroadCastMessage>, i: int)
    requires
        0 <= i < s.len(),
    ensures
        pending_of(s.skip(i)) == if !s[i].invalid {
            seq![s[i]] + pending_of(s.skip(i + 1))
        } else {
            pending_of(s.skip(i + 1))
        },
{
    assert(s.skip(i) =~= seq![s[i]] + s.skip(i + 1));
    assert(pending_of(seq![s[i]] + s.skip(i + 1)) == pending_of(seq![s[i]]) + pending_of(
        s.skip(i + 1),
    ));
    reveal_with_fuel(Seq::filter, 3);
    assert(seq![s[i]].drop_last() =~= Seq::<BroadCastMessage>::empty());
    if !s[i].invalid {
        assert(pending_of(seq![s[i]]) =~= seq![s[i]]);
    } else {
        assert(pending_of(seq![s[i]]) =~= Seq::<BroadCastMessage>::empty());
    }
}

/// A sequence of live entries is its own pending view.
proof fn lemma_pending_all_valid(s: Seq<BroadCastMessage>)
    requires
        forall|j: int| 0 <= j < s.len() ==> !(#[trigger] s[j]).invalid,
    ensures
        pending_of(s) == s,
    decreases s.len(),
{
    reveal(Seq::filter);
    if s.len() > 0 {
        lemma_pending_all_valid(s.drop_last());
        assert(pending_of(s) =~= s);
    }
}

proof fn lemma_with_key_none(s: Seq<BroadCastMessage>, key: Seq<char>)
    requires
        forall|j: int| 0 <= j < s.len() ==> (#[trigger] s[j]).key@ != key,
    ensures
        entries_with_key(s, key) == Seq::<BroadCastMessage>::empty(),
    decreases s.len(),
{
    reveal(Seq::filter);
    if s.len() > 0 {
        lemma_with_key_none(s.drop_last(), key);
    }
}

/// Dedup by key, last writer wins: offering a second payload under a key
/// leaves exactly one pending entry under that key — the one offered
/// last — whatever was pending before and however often the key was
/// taken.
pub proof fn lemma_broadcast_dedup_by_key(
    s: Seq<BroadCastMessage>,
    m1: BroadCastMessage,
    m2: BroadCastMessage,
)
    requires
        m1.key@ == m2.key@,
    ensures
        entries_with_key(spec_offer(spec_offer(s, m1), m2), m2.key@) == seq![m2],
{
    let k = m2.key@;
    let once = spec_offer(s, m1);
    let twice = spec_offer(once, m2);
    let cleaned = remove_key(once, k);
    lemma_with_key_none(cleaned, k);
    lemma_with_key_push(cleaned, m2, k);
    assert(entries_with_key(twice, k) =~= seq![m2]);
}

/// With every pending entry below its retransmit ceiling and a budget
/// larger than all pending payload bytes together, one drain yields the
/// whole queue in order and leaves nothing pending.
pub proof fn lemma_drain_all(s: Seq<BroadCastMessage>, used: int, budget: int, limit: int)
    requires
        forall|j: int| 0 <= j < s.len() ==> (#[trigger] s[j]).transmit_count + 1 < limit,
        used + total_size(s) < budget,
        0 <= used,
    ensures
        spec_drain(s, used, budget, limit) == (s, Seq::<BroadCastMessage>::empty()),
    decreases s.len(),
{
    if s.len() > 0 {
        let m = s[0];
        assert(forall|j: int|
            0 <= j < s.drop_first().len() ==> (#[trigger] s.drop_first()[j]).transmit_count + 1
                < limit);
        lemma_drain_all(s.drop_first(), used + entry_size(m), budget, limit);
        assert(seq![m] + s.drop_first() =~= s);
        assert(spec_drain(s, used, budget, limit) == (s, Seq::<BroadCastMessage>::empty()));
    }
}

/// Offering two payloads under one key into an empty queue and draining
/// with enough budget for one entry yields exactly one entry — the
/// second payload, never both — and leaves nothing pending.
pub proof fn lemma_dedup_offer_then_drain(
    m1: BroadCastMessage,
    m2: BroadCastMessage,
    budget: int,
    limit: int,
)
    requires
        m1.key@ == m2.key@,
        m2.transmit_count + 1 < limit,
        entry_size(m2) < budget,
    ensures
        spec_offer(spec_offer(Seq::<BroadCastMessage>::empty(), m1), m2) == seq![m2],
        spec_drain(seq![m2], 0, budget, limit) == (seq![m2], Seq::<BroadCastMessage>::empty()),
{
    let k = m2.key@;
    reveal(Seq::filter);
    let once = spec_offer(Seq::<BroadCastMessage>::empty(), m1);
    assert(remove_key(Seq::<BroadCastMessage>::empty(), m1.key@) =~= Seq::<
        BroadCastMessage,
    >::empty());
    assert(once =~= seq![m1]);
    assert(Seq::<BroadCastMessage>::empty().push(m1) =~= seq![m1]);
    lemma_remove_key_push(Seq::<BroadCastMessage>::empty(), m1, k);
    assert(remove_key(once, k) =~= Seq::<BroadCastMessage>::empty());
    assert(spec_offer(once, m2) =~= seq![m2]);
    assert(total_size(seq![m2].drop_first()) == 0);
    lemma_drain_all(seq![m2], 0, budget, limit);
}

/// One drain under a tight size budget: of two pending entries that each
/// fit the budget alone but not together, the drain yields exactly the
/// first and leaves exactly the second; a following drain with the same
/// budget yields the second.
pub proof fn lemma_drain_splits_on_budget(
    e1: BroadCastMessage,
    e2: BroadCastMessage,
    budget: int,
    limit: int,
)
    requires
        e1.transmit_count + 1 < limit,
        e2.transmit_count + 1 < limit,
        entry_size(e1) <= budget,
        entry_size(e2) <= budget,
        entry_size(e1) + entry_size(e2) > budget,
        0 < budget,
    ensures
        spec_drain(seq![e1, e2], 0, budget, limit) == (seq![e1], seq![e2]),
        spec_drain(seq![e2], 0, budget, limit) == (seq![e2], Seq::<BroadCastMessage>::empty()),
{
    let pair = seq![e1, e2];
    assert(pair.drop_first() =~= seq![e2]);
    assert(seq![e2].drop_first() =~= Seq::<BroadCastMessage>::empty());
    let after = spec_drain(seq![e2], entry_size(e1) as int, budget, limit);
    assert(after == (Seq::<BroadCastMessage>::empty(), seq![e2]));
    assert(spec_drain(pair, 0, budget, limit) == (seq![e1] + Seq::<BroadCastMessage>::empty(), seq![e2]));
    assert(seq![e1] + Seq::<BroadCastMessage>::empty() =~= seq![e1]);
    let second = spec_drain(Seq::<BroadCastMessage>::empty(), entry_size(e2) as int, budget, limit);
    assert(second == (Seq::<BroadCastMessage>::empty(), Seq::<BroadCastMessage>::empty()));
    assert(spec_drain(seq![e2], 0, budget, limit) == (seq![e2] + Seq::<BroadCastMessage>::empty(), Seq::<BroadCastMessage>::empty()));
    assert(seq![e2] + Seq::<BroadCastMessage>::empty() =~= seq![e2]);
}

/// The deduplicating, size-budget-drained outbound gossip queue.
pub struct BroadCastManager {
    entries: Vec<BroadCastMessage>,
    policy: BroadCastPolicy,
}

impl BroadCastManager {
    /// The live entries, front of the queue first.
    pub closed spec fn pending(&self) -> Seq<BroadCastMessage> {
        pending_of(self.entries@)
    }

    pub closed spec fn policy_spec(&self) -> BroadCastPolicy {
        self.policy
    }

    /// How often one entry may be sent in total, under this manager's
    /// policy.
    pub open spec fn retransmit_limit_spec(&self) -> nat {
        self.policy_spec().spec_retransmit_limit()
    }

    pub fn new(policy: BroadCastPolicy) -> (r: Self)
        ensures
            r.pending() == Seq::<BroadCastMessage>::empty(),
            r.policy_spec() == policy,
    {
        proof {
            lemma_pending_empty();
        }
        let entries: Vec<BroadCastMessage> = Vec::new();
        proof {
            assert(entries@ =~= Seq::<BroadCastMessage>::empty());
        }
        Self { entries, policy }
    }

    /// How many entries are pending delivery.
    pub fn len(&self) -> (r: usize)
        ensures
            r == self.pending().len(),
    {
        let n = self.entries.len();
        let mut count: usize = 0;
        let mut i: usize = 0;
        proof {
            lemma_pending_empty();
            assert(self.entries@.take(0) =~= Seq::<BroadCastMessage>::empty());
        }
        while i < n
            invariant
                i <= n,
                n == self.entries@.len(),
                count == pending_of(self.entries@.take(i as int)).len(),
                count <= i,
            decreases n - i,
        {
            let ghost prefix = self.entries@.take(i as int);
            proof {
                assert(self.entries@.take(i as int + 1) =~= prefix.push(self.entries@[i as int]));
                lemma_pending_push(prefix, self.entries@[i as int]);
            }
            if !self.entries[i].invalid {
                count = count + 1;
            }
            i = i + 1;
        }
        proof {
            assert(self.entries@.take(n as int) =~= self.entries@);
        }
        count
    }

    /// Queues `packet` for dissemination under `key`. An entry already
    /// pending under the same key is superseded: tombstoned, never
    /// delivered again, with the new entry taking its place at the back
    /// of the queue — last writer wins per key.
    pub fn offer(&mut self, key: String, packet: Vec<u8>)
        ensures
            final(self).pending() == spec_offer(
                old(self).pending(),
                (BroadCastMessage { key: key, packet: packet, transmit_count: 0, invalid: false }),
            ),
            final(self).policy_spec() == old(self).policy_spec(),
    {
        let ghost entries0 = self.entries@;
        let ghost policy0 = self.policy;
        let ghost k = key@;
        let n = self.entries.len();
        let mut source: Vec<BroadCastMessage> = Vec::new();
        std::mem::swap(&mut self.entries, &mut source);
        let mut i: usize = 0;
        proof {
            lemma_pending_empty();
            assert(entries0.take(0) =~= Seq::<BroadCastMessage>::empty());
            assert(remove_key(pending_of(entries0.take(0)), k) =~= Seq::<
                BroadCastMessage,
            >::empty());
            assert(source@ =~= entries0.skip(0));
        }
        while i < n
            invariant
                i <= n,
                n == entries0.len(),
                self.policy == policy0,
                k == key@,
                source@ == entries0.skip(i as int),
                pending_of(self.entries@) == remove_key(pending_of(entries0.take(i as int)), k),
            decreases n - i,
        {
            let ghost prefix = entries0.take(i as int);
            let ghost e0 = entries0[i as int];
            proof {
                assert(entries0.skip(i as int)[0] == entries0[i as int]);
                assert(entries0.take(i as int + 1) =~= prefix.push(e0));
                lemma_pending_push(prefix, e0);
                if !e0.invalid {
                    lemma_remove_key_push(pending_of(prefix), e0, k);
                }
            }
            let mut entry = source.remove(0);
            proof {
                assert(source@ =~= entries0.skip(i as int + 1));
            }
            let ghost dest0 = self.entries@;
            if !entry.invalid && entry.key == key {
                entry.invalid();
                self.entries.push(entry);
                proof {
                    lemma_pending_push(dest0, self.entries@.last());
                }
            } else {
                self.entries.push(entry);
                proof {
                    lemma_pending_push(dest0, e0);
                    if !e0.invalid {
                        lemma_remove_key_push(pending_of(dest0), e0, k);
                    }
                }
            }
            i = i + 1;
        }
        proof {
            assert(entries0.take(n as int) =~= entries0);
        }
        let message = BroadCastMessage { key, packet, transmit_count: 0, invalid: false };
        let ghost dest1 = self.entries@;
        let ghost m = message;
        self.entries.push(message);
        proof {
            lemma_pending_push(dest1, m);
        }
    }

    /// Drains entries for one protocol round: walks the pending queue
    /// front to back, dropping tombstones, holding back entries at their
    /// retransmit ceiling for a later round, and yielding entries until
    /// the next one would push the total payload bytes past `limit_size`.
    /// Yielded entries are removed from the queue and not counted by
    /// `len` afterwards.
    pub fn get_broadcast_messages(&mut self, limit_size: usize) -> (r: Vec<BroadCastMessage>)
        ensures
            ({
                let parts = spec_drain(
                    old(self).pending(),
                    0,
                    limit_size as int,
                    old(self).retransmit_limit_spec() as int,
                );
                r@ == parts.0 && final(self).pending() == parts.1
            }),
            final(self).policy_spec() == old(self).policy_spec(),
    {
        let retransmit_limit = self.policy.get_retransmit_limit();
        let ghost entries0 = self.entries@;
        let ghost policy0 = self.policy;
        let ghost pend0 = pending_of(entries0);
        let ghost budget = limit_size as int;
        let ghost limit = retransmit_limit as int;
        let ghost whole = spec_drain(pend0, 0, budget, limit);
        let n = self.entries.len();
        let mut source: Vec<BroadCastMessage> = Vec::new();
        std::mem::swap(&mut self.entries, &mut source);
        let mut taken: Vec<BroadCastMessage> = Vec::new();
        let mut current_size: usize = 0;
        let mut stopped = false;
        let mut i: usize = 0;
        proof {
            assert(entries0.skip(0) =~= entries0);
            assert(source@ =~= entries0.skip(0));
            assert(taken@ =~= Seq::<BroadCastMessage>::empty());
            assert(self.entries@ =~= Seq::<BroadCastMessage>::empty());
        }
        while i < n
            invariant
                i <= n,
                n == entries0.len(),
                self.policy == policy0,
                budget == limit_size as int,
                limit == retransmit_limit as int,
                whole == spec_drain(pend0, 0, budget, limit),
                pend0 == pending_of(entries0),
                source@ == entries0.skip(i as int),
                current_size <= limit_size,
                forall|j: int| 0 <= j < self.entries@.len() ==> !(#[trigger] self.entries@[j]).invalid,
                ({
                    let rest = pending_of(entries0.skip(i as int));
                    if stopped {
                        whole.0 == taken@ && whole.1 == self.entries@ + rest
                    } else {
                        let sub = spec_drain(rest, current_size as int, budget, limit);
                        whole.0 == taken@ + sub.0 && whole.1 == self.entries@ + sub.1
                    }
                }),
            decreases n - i,
        {
            let ghost rest = pending_of(entries0.skip(i as int));
            let ghost rest1 = pending_of(entries0.skip(i as int + 1));
            let ghost e0 = entries0[i as int];
            proof {
                assert(entries0.skip(i as int)[0] == entries0[i as int]);
                lemma_pending_skip(entries0, i as int);
                if !e0.invalid {
                    assert(rest == seq![e0] + rest1);
                    assert(rest[0] == e0);
                    assert(rest.drop_first() =~= rest1);
                }
            }
            let entry = source.remove(0);
            proof {
                assert(source@ =~= entries0.skip(i as int + 1));
            }
            if entry.invalid {
                // a tombstone: superseded, dropped for good
            } else if stopped {
                let ghost kept0 = self.entries@;
                self.entries.push(entry);
                proof {
                    assert(kept0 + rest =~= self.entries@ + rest1);
                }
            } else if retransmit_limit == 0 || entry.transmit_count >= retransmit_limit - 1 {
                // at the retransmit ceiling: held back for a later round
                let ghost kept0 = self.entries@;
                self.entries.push(entry);
                proof {
                    let sub1 = spec_drain(rest1, current_size as int, budget, limit);
                    assert(spec_drain(rest, current_size as int, budget, limit) == (
                        sub1.0,
                        seq![e0] + sub1.1,
                    ));
                    assert(kept0 + (seq![e0] + sub1.1) =~= self.entries@ + sub1.1);
                }
            } else {
                let size = entry.packet.len();
                if current_size >= limit_size || size > limit_size - current_size {
                    let ghost kept0 = self.entries@;
                    self.entries.push(entry);
                    stopped = true;
                    proof {
                        assert(spec_drain(rest, current_size as int, budget, limit) == (
                            Seq::<BroadCastMessage>::empty(),
                            rest,
                        ));
                        assert(taken@ + Seq::<BroadCastMessage>::empty() =~= taken@);
                        assert(kept0 + rest =~= self.entries@ + rest1);
                    }
                } else {
                    let ghost taken0 = taken@;
                    taken.push(entry);
                    current_size = current_size + size;
                    proof {
                        let sub1 = spec_drain(rest1, current_size as int, budget, limit);
                        assert(spec_drain(rest, current_size as int - size as int, budget, limit)
                            == (seq![e0] + sub1.0, sub1.1));
                        assert(taken0 + (seq![e0] + sub1.0) =~= taken@ + sub1.0);
                    }
                }
            }
            i = i + 1;
        }
        proof {
            assert(entries0.skip(n as int) =~= Seq::<BroadCastMessage>::empty());
            lemma_pending_empty();
            if !stopped {
                assert(spec_drain(
                    Seq::<BroadCastMessage>::empty(),
                    current_size as int,
                    budget,
                    limit,
                ) == (Seq::<BroadCastMessage>::empty(), Seq::<BroadCastMessage>::empty()));
            }
            assert(whole.0 =~= taken@);
            assert(whole.1 =~= self.entries@);
            lemma_pending_all_valid(self.entries@);
        }
        taken
    }
}

} // verus!
