//! The retransmit-count policy of the broadcast queue: gossip entries
//! are resent a number of times that grows with the logarithm of the
//! group size, so larger groups retry more without unbounded growth.

use vstd::prelude::*;

verus! {

/// Ten to the `d`-th power.
pub open spec fn pow10(d: nat) -> nat
    decreases d,
{
    if d == 0 {
        1
    } else {
        10 * pow10((d - 1) as nat)
    }
}

/// The ceiling of the base-10 logarithm of `x`: the smallest `d` with
/// `pow10(d) >= x`. For `x <= 1` it is 0.
pub open spec fn ceil_log10(x: nat) -> nat
    decreases x,
{
    if x <= 1 {
        0
    } else {
        1 + ceil_log10(((x + 9) / 10) as nat)
    }
}

pub proof fn lemma_pow10_monotone(a: nat, b: nat)
    requires
        a <= b,
    ensures
        pow10(a) <= pow10(b),
    decreases b,
{
    if a < b {
        lemma_pow10_monotone(a, (b - 1) as nat);
    }
}

/// `ceil_log10(x)` is exactly the smallest exponent whose power of ten
/// reaches `x`.
pub proof fn lemma_pow10_exceeds(d: nat)
    ensures
        pow10(d) > d,
    decreases d,
{
    if d > 0 {
        lemma_pow10_exceeds((d - 1) as nat);
    }
}

pub proof fn lemma_ceil_log10_bounds(x: nat)
    requires
        1 <= x,
    ensures
        pow10(ceil_log10(x)) >= x,
        ceil_log10(x) >= 1 ==> pow10((ceil_log10(x) - 1) as nat) < x,
    decreases x,
{
    if x > 1 {
        let y = ((x + 9) / 10) as nat;
        assert(1 <= y < x && 10 * y >= x && 10 * y <= x + 9) by (nonlinear_arith)
            requires
                x >= 2,
                y == (x + 9) / 10,
        ;
        lemma_ceil_log10_bounds(y);
        let c = ceil_log10(y);
        assert(pow10(ceil_log10(x)) == 10 * pow10(c));
        assert(10 * pow10(c) >= 10 * y) by (nonlinear_arith)
            requires
                pow10(c) >= y,
        ;
        if c >= 1 {
            assert(pow10(c) == 10 * pow10((c - 1) as nat));
            assert(10 * pow10((c - 1) as nat) <= 10 * (y - 1)) by (nonlinear_arith)
                requires
                    pow10((c - 1) as nat) <= y - 1,
            ;
        }
    }
}

/// For any group size that fits the node counter, the logarithmic scale
/// factor is at most 10.
pub proof fn lemma_ceil_log10_at_most_ten(x: nat)
    requires
        x <= 0x1_0000_0000,
    ensures
        ceil_log10(x) <= 10,
{
    if x >= 1 {
        lemma_ceil_log10_bounds(x);
        let c = ceil_log10(x);
        if c > 10 {
            lemma_pow10_monotone(10, (c - 1) as nat);
            assert(pow10(10) == 10_000_000_000) by {
                reveal_with_fuel(pow10, 11);
            }
        }
    }
}

/// Governs how often one gossip entry may be retransmitted, as a
/// function of the group size and the per-entry quota.
pub struct BroadCastPolicy {
    node_num: u32,
    retransmit_quota: u32,
}

impl BroadCastPolicy {
    #[verifier::type_invariant]
    spec fn inv(self) -> bool {
        self.retransmit_quota as nat * ceil_log10((self.node_num + 1) as nat) <= u32::MAX as nat
    }

    pub closed spec fn node_num(&self) -> u32 {
        self.node_num
    }

    pub closed spec fn retransmit_quota(&self) -> u32 {
        self.retransmit_quota
    }

    /// The retransmit limit this policy grants.
    pub open spec fn spec_retransmit_limit(&self) -> nat {
        self.retransmit_quota() as nat * ceil_log10((self.node_num() + 1) as nat)
    }

    pub fn new(node_num: u32, retransmit_quota: u32) -> (r: Self)
        requires
            retransmit_quota <= u32::MAX / 10 || retransmit_quota as nat * ceil_log10(
                (node_num + 1) as nat,
            ) <= u32::MAX as nat,
        ensures
            r.node_num() == node_num,
            r.retransmit_quota() == retransmit_quota,
    {
        proof {
            if retransmit_quota <= u32::MAX / 10 {
                lemma_ceil_log10_at_most_ten((node_num + 1) as nat);
                assert(retransmit_quota as nat * ceil_log10((node_num + 1) as nat)
                    <= retransmit_quota as nat * 10) by (nonlinear_arith)
                    requires
                        ceil_log10((node_num + 1) as nat) <= 10,
                ;
            }
        }
        Self { node_num, retransmit_quota }
    }

    /// The number of times one entry may be sent before it is dropped:
    /// `retransmit_quota` times the ceiling of `log10(node_num + 1)`.
    pub fn get_retransmit_limit(&self) -> (r: u32)
        ensures
            r as nat == self.spec_retransmit_limit(),
    {
        proof {
            use_type_invariant(self);
        }
        let x: u64 = self.node_num as u64 + 1;
        let mut d: u32 = 0;
        let mut p: u64 = 1;
        while p < x
            invariant
                1 <= x <= 0x1_0000_0000u64,
                1 <= p,
                p as nat == pow10(d as nat),
                p <= 0x1_0000_0000u64 * 10,
                d >= 1 ==> pow10((d - 1) as nat) < x,
            decreases 10 * (x as int) - p,
        {
            proof {
                assert(10 * p >= p + 1) by (nonlinear_arith)
                    requires
                        p >= 1,
                ;
                lemma_pow10_exceeds(d as nat);
            }
            p = p * 10;
            d = d + 1;
        }
        proof {
            lemma_ceil_log10_bounds(x as nat);
            let c = ceil_log10(x as nat);
            if (d as nat) < c {
                lemma_pow10_monotone(d as nat, (c - 1) as nat);
            }
            if (d as nat) > c {
                lemma_pow10_monotone(c, (d - 1) as nat);
            }
        }
        self.retransmit_quota * d
    }
}

} // verus!
