//! Delivery batch selection: from the undelivered messages, take the longest
//! prefix that stays under the configured count, weight and size ceilings.

use vstd::prelude::*;

verus! {

/// What the source chain reports about one generated message.
#[derive(Clone, Copy, Debug)]
pub struct MessageDetails {
    pub nonce: u64,
    /// Weight the message's dispatch will consume on the target chain.
    pub dispatch_weight: u64,
    /// Encoded payload size in bytes.
    pub size: u32,
    /// Fee the sender locked for delivering this message.
    pub fee: u128,
}

/// Ceilings a single delivery transaction must stay under.
#[derive(Clone, Copy, Debug)]
pub struct BatchLimits {
    pub max_messages_in_single_batch: u64,
    pub max_messages_weight_in_single_batch: u64,
    pub max_messages_size_in_single_batch: u64,
}

/// Total dispatch weight of the first `n` messages.
pub open spec fn prefix_weight(d: Seq<MessageDetails>, n: int) -> int
    decreases n,
{
    if n <= 0 {
        0
    } else {
        prefix_weight(d, n - 1) + d[n - 1].dispatch_weight
    }
}

/// Total encoded size of the first `n` messages.
pub open spec fn prefix_size(d: Seq<MessageDetails>, n: int) -> int
    decreases n,
{
    if n <= 0 {
        0
    } else {
        prefix_size(d, n - 1) + d[n - 1].size
    }
}

/// Total locked fee of the first `n` messages.
pub open spec fn prefix_fee(d: Seq<MessageDetails>, n: int) -> int
    decreases n,
{
    if n <= 0 {
        0
    } else {
        prefix_fee(d, n - 1) + d[n - 1].fee
    }
}

/// Whether a batch of the first `n` messages respects every ceiling.
pub open spec fn prefix_ok(d: Seq<MessageDetails>, limits: BatchLimits, n: int) -> bool {
    &&& n <= limits.max_messages_in_single_batch
    &&& prefix_weight(d, n) <= limits.max_messages_weight_in_single_batch
    &&& prefix_size(d, n) <= limits.max_messages_size_in_single_batch
}

/// Prefix sums never shrink as the prefix grows.
pub proof fn lemma_prefix_sums_monotone(d: Seq<MessageDetails>, a: int, b: int)
    requires
        0 <= a <= b,
    ensures
        prefix_weight(d, a) <= prefix_weight(d, b),
        prefix_size(d, a) <= prefix_size(d, b),
        prefix_fee(d, a) <= prefix_fee(d, b),
    decreases b - a,
{
    if a < b {
        lemma_prefix_sums_monotone(d, a, b - 1);
    }
}

/// A batch that respects the ceilings still respects them when shortened.
pub proof fn lemma_prefix_ok_downward(d: Seq<MessageDetails>, limits: BatchLimits, a: int, b: int)
    requires
        0 <= a <= b,
        prefix_ok(d, limits, b),
    ensures
        prefix_ok(d, limits, a),
{
    lemma_prefix_sums_monotone(d, a, b);
}

/// Picks the batch: the number of messages to deliver, greedily from the
/// lowest nonce upward. The result is the unique longest prefix of `details`
/// that respects every ceiling; in particular zero only when the first
/// message alone already exceeds one.
pub fn select_batch(details: &Vec<MessageDetails>, limits: BatchLimits) -> (n: usize)
    ensures
        n <= details@.len(),
        prefix_ok(details@, limits, n as int),
        forall|m: int| n < m <= details@.len() ==> !prefix_ok(details@, limits, m),
{
    let len = details.len();
    let mut n: usize = 0;
    let mut total_weight: u64 = 0;
    let mut total_size: u64 = 0;
    loop
        invariant
            n <= len,
            len == details@.len(),
            prefix_ok(details@, limits, n as int),
            total_weight == prefix_weight(details@, n as int),
            total_size == prefix_size(details@, n as int),
        ensures
            n <= details@.len(),
            prefix_ok(details@, limits, n as int),
            n < details@.len() ==> !prefix_ok(details@, limits, n + 1),
        decreases len - n,
    {
        if n >= len {
            break ;
        }
        let next = details[n];
        if n as u64 >= limits.max_messages_in_single_batch {
            proof {
                assert(!prefix_ok(details@, limits, n + 1));
            }
            break ;
        }
        if next.dispatch_weight > limits.max_messages_weight_in_single_batch - total_weight {
            proof {
                assert(prefix_weight(details@, n + 1) == total_weight + next.dispatch_weight);
            }
            break ;
        }
        if next.size as u64 > limits.max_messages_size_in_single_batch - total_size {
            proof {
                assert(prefix_size(details@, n + 1) == total_size + next.size);
            }
            break ;
        }
        total_weight = total_weight + next.dispatch_weight;
        total_size = total_size + next.size as u64;
        n = n + 1;
    }
    proof {
        if n < details@.len() {
            assert forall|m: int| n < m <= details@.len() implies !prefix_ok(
                details@,
                limits,
                m,
            ) by {
                if prefix_ok(details@, limits, m) {
                    lemma_prefix_ok_downward(details@, limits, n + 1, m);
                }
            }
        }
    }
    n
}

/// Total locked fee of the first `n` messages, saturating at the balance
/// ceiling: the value side of the economic gate.
pub fn batch_fee(details: &Vec<MessageDetails>, n: usize) -> (r: u128)
    requires
        n <= details@.len(),
    ensures
        r as int == crate::chains::sat_u128(prefix_fee(details@, n as int)),
{
    let mut total: u128 = 0;
    let mut i: usize = 0;
    while i < n
        invariant
            i <= n <= details@.len(),
            total as int == crate::chains::sat_u128(prefix_fee(details@, i as int)),
        decreases n - i,
    {
        proof {
            lemma_prefix_sums_monotone(details@, 0, i as int);
        }
        total = total.saturating_add(details[i].fee);
        i = i + 1;
    }
    total
}

/// Law: batch selection is idempotent. Re-running it against an unchanged
/// lane state yields an identical batch, because only one count is both
/// within the ceilings and maximal.
pub proof fn lemma_batch_selection_idempotent(
    d: Seq<MessageDetails>,
    limits: BatchLimits,
    n1: int,
    n2: int,
)
    requires
        0 <= n1 <= d.len(),
        0 <= n2 <= d.len(),
        prefix_ok(d, limits, n1),
        prefix_ok(d, limits, n2),
        forall|m: int| n1 < m <= d.len() ==> !prefix_ok(d, limits, m),
        forall|m: int| n2 < m <= d.len() ==> !prefix_ok(d, limits, m),
    ensures
        n1 == n2,
{
    if n1 < n2 {
        assert(!prefix_ok(d, limits, n2));
    }
    if n2 < n1 {
        assert(!prefix_ok(d, limits, n1));
    }
}

} // verus!
