//! Vote thresholds derived from how many moderators were online when a
//! report was filed.

use vstd::prelude::*;

verus! {

/// `k` is `sqrt(n)` rounded to the nearest integer. A square root of an
/// integer never lies exactly halfway between two integers, so the rounding
/// is unambiguous: `k - 1/2 <= sqrt(n) < k + 1/2`.
pub open spec fn is_rounded_sqrt(n: nat, k: nat) -> bool {
    &&& (k == 0 || (2 * k - 1) * (2 * k - 1) <= 4 * n)
    &&& 4 * n < (2 * k + 1) * (2 * k + 1)
}

/// The rounded square root of `n`.
pub open spec fn rounded_sqrt(n: nat) -> nat {
    choose|k: nat| is_rounded_sqrt(n, k)
}

pub open spec fn clamp(x: nat, lo: nat, hi: nat) -> nat {
    if x < lo {
        lo
    } else if x > hi {
        hi
    } else {
        x
    }
}

/// Votes needed to delete the reported message or to block the reporter.
pub open spec fn capped_required(moderators_online: nat) -> nat {
    clamp(rounded_sqrt(moderators_online), 1, 3)
}

/// Votes needed to silence the suspect (no upper bound).
pub open spec fn silence_required(moderators_online: nat) -> nat {
    rounded_sqrt(moderators_online)
}

proof fn lemma_square_monotone(a: nat, b: nat)
    requires
        a <= b,
    ensures
        a * a <= b * b,
{
    assert(a * a <= b * b) by (nonlinear_arith)
        requires
            a <= b,
    ;
}

/// The rounded square root exists and is unique.
pub proof fn lemma_rounded_sqrt_unique(n: nat, k: nat)
    requires
        is_rounded_sqrt(n, k),
    ensures
        rounded_sqrt(n) == k,
{
    let c = rounded_sqrt(n);
    assert(is_rounded_sqrt(n, c));
    if c < k {
        lemma_square_monotone(2 * c + 1, (2 * k - 1) as nat);
    } else if k < c {
        lemma_square_monotone(2 * k + 1, (2 * c - 1) as nat);
    }
}

/// Computes `sqrt(n)` rounded to the nearest integer.
pub fn rounded_sqrt_of(n: u32) -> (k: u32)
    ensures
        is_rounded_sqrt(n as nat, k as nat),
        k as nat == rounded_sqrt(n as nat),
{
    let four_n: u64 = 4 * (n as u64);
    let mut k: u64 = 0;
    loop
        invariant
            four_n == 4 * (n as nat),
            k <= 65536,
            k == 0 || (2 * k - 1) * (2 * k - 1) <= four_n,
        ensures
            k == 0 || (2 * k - 1) * (2 * k - 1) <= four_n,
            four_n < (2 * k + 1) * (2 * k + 1),
        decreases 65536 - k,
    {
        assert((2 * k + 1) * (2 * k + 1) <= 131073 * 131073) by (nonlinear_arith)
            requires
                k <= 65536,
        ;
        let next: u64 = (2 * k + 1) * (2 * k + 1);
        if next > four_n {
            break;
        }
        assert(k < 65536) by {
            if k >= 65536 {
                lemma_square_monotone(131073, (2 * k + 1) as nat);
            }
        }
        k = k + 1;
    }
    proof {
        lemma_rounded_sqrt_unique(n as nat, k as nat);
    }
    k as u32
}

/// Votes needed to delete the reported message or to block the reporter:
/// the rounded square root of the online moderator count, kept within 1..=3.
pub fn capped_votes_required(moderators_online: u32) -> (r: u32)
    ensures
        r as nat == capped_required(moderators_online as nat),
        1 <= r <= 3,
{
    let k = rounded_sqrt_of(moderators_online);
    if k < 1 {
        1
    } else if k > 3 {
        3
    } else {
        k
    }
}

/// Votes needed to silence the suspect: the rounded square root of the
/// online moderator count, with no upper bound.
pub fn silence_votes_required(moderators_online: u32) -> (r: u32)
    ensures
        r as nat == silence_required(moderators_online as nat),
{
    rounded_sqrt_of(moderators_online)
}

/// Delete and block-reporter thresholds always lie in `1..=3`; the silence
/// threshold is the rounded square root itself, and no moderators online
/// gives a silence threshold of zero.
pub proof fn lemma_threshold_ranges(moderators_online: nat)
    ensures
        1 <= capped_required(moderators_online) <= 3,
        silence_required(moderators_online) == rounded_sqrt(moderators_online),
        is_rounded_sqrt(moderators_online, silence_required(moderators_online)),
        silence_required(0) == 0,
{
    assert(is_rounded_sqrt(0, 0)) by (nonlinear_arith);
    lemma_rounded_sqrt_unique(0, 0);
    lemma_rounded_sqrt_exists(moderators_online);
}

/// Every natural number has a rounded square root.
pub proof fn lemma_rounded_sqrt_exists(n: nat)
    ensures
        is_rounded_sqrt(n, rounded_sqrt(n)),
    decreases n,
{
    if n == 0 {
        assert(is_rounded_sqrt(0, 0)) by (nonlinear_arith);
    } else {
        lemma_rounded_sqrt_exists((n - 1) as nat);
        let k = rounded_sqrt((n - 1) as nat);
        if 4 * n < (2 * k + 1) * (2 * k + 1) {
            assert(is_rounded_sqrt(n, k));
        } else {
            assert(is_rounded_sqrt(n, k + 1)) by {
                assert(4 * n < (2 * k + 3) * (2 * k + 3)) by (nonlinear_arith)
                    requires
                        4 * (n - 1) < (2 * k + 1) * (2 * k + 1),
                ;
            }
        }
    }
}

} // verus!
