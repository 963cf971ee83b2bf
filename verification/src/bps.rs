//! Shares in basis points, hundredths of a percent.

use vstd::prelude::*;

verus! {

/// The whole, in basis points.
pub const WHOLE_BPS: u32 = 10_000;

/// The sum of a list of shares.
pub open spec fn sum(shares: Seq<u32>) -> nat
    decreases shares.len(),
{
    if shares.len() == 0 {
        0
    } else {
        sum(shares.drop_last()) + shares.last() as nat
    }
}

/// The sum of a list of shares, or the largest number if it goes past that.
pub fn total(shares: &Vec<u32>) -> (r: u32)
    ensures
        r == if sum(shares@) <= u32::MAX {
            sum(shares@)
        } else {
            u32::MAX as nat
        },
{
    let mut r: u32 = 0;
    let mut i: usize = 0;
    while i < shares.len()
        invariant
            i <= shares.len(),
            r == if sum(shares@.take(i as int)) <= u32::MAX {
                sum(shares@.take(i as int))
            } else {
                u32::MAX as nat
            },
        decreases shares.len() - i,
    {
        assert(shares@.take(i + 1).drop_last() =~= shares@.take(i as int));
        r = r.saturating_add(shares[i]);
        i = i + 1;
    }
    assert(shares@.take(i as int) =~= shares@);
    r
}

/// The first shares of a list add up to no more than all of them.
pub proof fn lemma_sum_take(shares: Seq<u32>, n: int)
    requires
        0 <= n <= shares.len(),
    ensures
        sum(shares.take(n)) <= sum(shares),
    decreases shares.len(),
{
    if n < shares.len() {
        lemma_sum_take(shares.drop_last(), n);
        assert(shares.drop_last().take(n) =~= shares.take(n));
    } else {
        assert(shares.take(n) =~= shares);
    }
}

/// No shares add up to nothing, and one more share adds itself. The whole is
/// ten thousand.
pub proof fn law_sum_adds(shares: Seq<u32>, share: u32)
    ensures
        sum(Seq::<u32>::empty()) == 0,
        sum(shares.push(share)) == sum(shares) + share,
        WHOLE_BPS == 10_000,
{
    assert(shares.push(share).drop_last() =~= shares);
}

} // verus!
