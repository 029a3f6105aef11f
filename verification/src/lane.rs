//! Message-lane state: nonces, outbound and inbound lane data, and the
//! watermark invariant that orders them.

use vstd::prelude::*;

verus! {

/// Nonce of a message within a lane and direction: strictly increasing,
/// contiguous, unique per lane per direction.
pub type MessageNonce = u64;

/// Identifier of an independent message stream between a pair of chains.
#[derive(Clone, Copy, Debug)]
pub struct LaneId(pub [u8; 4]);

/// Account identifier: 32 raw bytes.
#[derive(Clone, Copy, Debug)]
pub struct AccountId(pub [u8; 32]);

/// Outbound lane state, as the source chain keeps it.
#[derive(Clone, Copy, Debug)]
pub struct OutboundLaneState {
    /// Nonce of the newest message this chain has generated on the lane.
    pub latest_generated_nonce: MessageNonce,
    /// Nonce of the newest message the bridged chain has confirmed receiving.
    pub latest_received_nonce: MessageNonce,
}

/// One pending reward entry: `relayer` delivered nonces `begin..=end` and has
/// not been paid yet.
#[derive(Clone, Copy, Debug)]
pub struct UnrewardedRelayer {
    pub relayer: AccountId,
    pub begin: MessageNonce,
    pub end: MessageNonce,
}

/// Inbound lane state, as the target chain keeps it.
///
/// The unrewarded-relayer entries cover exactly the nonces in
/// `(latest_confirmed_nonce, latest_received_nonce]`, in ascending order
/// without gaps or overlaps.
#[derive(Clone, Debug)]
pub struct InboundLaneState {
    /// Newest nonce whose delivery has been confirmed back to the source chain.
    pub latest_confirmed_nonce: MessageNonce,
    /// Pending reward entries, ordered by nonce range ascending.
    pub relayers: Vec<UnrewardedRelayer>,
}

impl OutboundLaneState {
    /// An outbound lane never acknowledges receipt of a message it has not
    /// generated.
    pub open spec fn wf(self) -> bool {
        self.latest_received_nonce <= self.latest_generated_nonce
    }

    /// The source chain generated one more message on the lane.
    pub fn generate_message(&mut self)
        requires
            old(self).wf(),
            old(self).latest_generated_nonce < MessageNonce::MAX,
        ensures
            final(self).wf(),
            final(self).latest_generated_nonce == old(self).latest_generated_nonce + 1,
            final(self).latest_received_nonce == old(self).latest_received_nonce,
    {
        self.latest_generated_nonce = self.latest_generated_nonce + 1;
    }

    /// A delivery confirmation advanced the received watermark to
    /// `new_received`. Confirmations arrive in non-decreasing nonce order and
    /// never exceed what was generated.
    pub fn confirm_messages(&mut self, new_received: MessageNonce)
        requires
            old(self).wf(),
            old(self).latest_received_nonce <= new_received <= old(self).latest_generated_nonce,
        ensures
            final(self).wf(),
            final(self).latest_received_nonce == new_received,
            final(self).latest_generated_nonce == old(self).latest_generated_nonce,
    {
        self.latest_received_nonce = new_received;
    }
}

impl InboundLaneState {
    /// Nonce of the newest message the lane has received: the end of the last
    /// pending reward entry, or the confirmed watermark when nothing is
    /// pending.
    pub open spec fn spec_latest_received(self) -> MessageNonce {
        if self.relayers@.len() == 0 {
            self.latest_confirmed_nonce
        } else {
            self.relayers@.last().end
        }
    }

    /// The unrewarded-relayer entries tile `(latest_confirmed_nonce,
    /// spec_latest_received()]` exactly: each range is non-empty, the first
    /// starts right after the confirmed watermark, and each next range starts
    /// right after the previous one ends.
    pub open spec fn wf(self) -> bool {
        &&& forall|i: int|
            0 <= i < self.relayers@.len() ==> (#[trigger] self.relayers@[i]).begin
                <= self.relayers@[i].end
        &&& self.relayers@.len() > 0 ==> self.relayers@[0].begin
            == self.latest_confirmed_nonce + 1
        &&& forall|i: int|
            1 <= i < self.relayers@.len() ==> (#[trigger] self.relayers@[i]).begin
                == self.relayers@[i - 1].end + 1
    }

    pub fn latest_received_nonce(&self) -> (r: MessageNonce)
        ensures
            r == self.spec_latest_received(),
    {
        if self.relayers.len() == 0 {
            self.latest_confirmed_nonce
        } else {
            self.relayers[self.relayers.len() - 1].end
        }
    }

    pub fn latest_confirmed_nonce(&self) -> (r: MessageNonce)
        ensures
            r == self.latest_confirmed_nonce,
    {
        self.latest_confirmed_nonce
    }

    /// A delivery transaction landed: `relayer` delivered the contiguous
    /// batch `begin..=end`, which must start right after the received
    /// watermark — a nonce cannot be delivered before its predecessor.
    pub fn receive_messages(&mut self, relayer: AccountId, begin: MessageNonce, end: MessageNonce)
        requires
            old(self).wf(),
            begin == old(self).spec_latest_received() + 1,
            begin <= end,
        ensures
            final(self).wf(),
            final(self).latest_confirmed_nonce == old(self).latest_confirmed_nonce,
            final(self).spec_latest_received() == end,
            final(self).relayers@.len() == old(self).relayers@.len() + 1,
            final(self).relayers@.last().begin == begin,
            final(self).relayers@.last().end == end,
            forall|i: int|
                0 <= i < old(self).relayers@.len() ==> final(self).relayers@[i]
                    == old(self).relayers@[i],
    {
        self.relayers.push(UnrewardedRelayer { relayer, begin, end });
    }

    /// A delivery confirmation was accepted: the confirmed watermark advances
    /// to `new_confirmed` and every reward entry whose range is now fully
    /// confirmed is pruned; a partially confirmed entry keeps only its
    /// unconfirmed tail.
    pub fn confirm_delivery(&mut self, new_confirmed: MessageNonce)
        requires
            old(self).wf(),
            old(self).latest_confirmed_nonce <= new_confirmed <= old(self).spec_latest_received(),
        ensures
            final(self).wf(),
            final(self).latest_confirmed_nonce == new_confirmed,
            final(self).spec_latest_received() == old(self).spec_latest_received(),
            // every surviving entry still has something unconfirmed in it
            forall|i: int|
                0 <= i < final(self).relayers@.len() ==> new_confirmed < (
                #[trigger] final(self).relayers@[i]).end,
            // entries are pruned from the front only: survivors keep their
            // relayer and end, in order, and only the first may have its
            // begin trimmed
            forall|i: int|
                1 <= i < final(self).relayers@.len() ==> #[trigger] final(self).relayers@[i]
                    == old(self).relayers@[i + old(self).relayers@.len() - final(self).relayers@.len()],
            final(self).relayers@.len() > 0 ==> {
                let d = old(self).relayers@.len() - final(self).relayers@.len();
                &&& final(self).relayers@[0].end == old(self).relayers@[d].end
                &&& final(self).relayers@[0].relayer == old(self).relayers@[d].relayer
                &&& final(self).relayers@[0].begin == new_confirmed + 1
            },
            // everything pruned was fully confirmed
            forall|j: int|
                0 <= j < old(self).relayers@.len() - final(self).relayers@.len() ==> (
                #[trigger] old(self).relayers@[j]).end <= new_confirmed,
    {
        let ghost orig = self.relayers@;
        let ghost orig_state = *old(self);
        let n = self.relayers.len();
        let mut k: usize = 0;
        while k < n && self.relayers[k].end <= new_confirmed
            invariant
                self.relayers@ == orig,
                n == orig.len(),
                k <= n,
                forall|j: int| 0 <= j < k ==> (#[trigger] orig[j]).end <= new_confirmed,
            decreases n - k,
        {
            k = k + 1;
        }
        let mut survivors: Vec<UnrewardedRelayer> = Vec::new();
        let mut i: usize = k;
        while i < n
            invariant
                self.relayers@ == orig,
                n == orig.len(),
                k <= i <= n,
                k < n ==> new_confirmed < orig[k as int].end,
                survivors@.len() == i - k,
                forall|m: int| 1 <= m < survivors@.len() ==> #[trigger] survivors@[m] == orig[k + m],
                survivors@.len() > 0 ==> {
                    &&& survivors@[0].relayer == orig[k as int].relayer
                    &&& survivors@[0].end == orig[k as int].end
                    &&& survivors@[0].begin == new_confirmed + 1
                },
            decreases n - i,
        {
            // the first surviving entry keeps only its unconfirmed tail
            let mut entry = self.relayers[i];
            if i == k {
                entry.begin = new_confirmed + 1;
            }
            survivors.push(entry);
            i = i + 1;
        }
        self.relayers = survivors;
        self.latest_confirmed_nonce = new_confirmed;
        proof {
            lemma_confirm_delivery_shape(orig_state, *self, k as int, new_confirmed);
        }
    }
}

/// Pruning the fully confirmed prefix of the reward entries and trimming the
/// boundary entry preserves well-formedness and the received watermark.
proof fn lemma_confirm_delivery_shape(
    pre: InboundLaneState,
    post: InboundLaneState,
    k: int,
    new_confirmed: MessageNonce,
)
    requires
        pre.wf(),
        pre.latest_confirmed_nonce <= new_confirmed <= pre.spec_latest_received(),
        0 <= k <= pre.relayers@.len(),
        forall|j: int| 0 <= j < k ==> (#[trigger] pre.relayers@[j]).end <= new_confirmed,
        k < pre.relayers@.len() ==> new_confirmed < pre.relayers@[k].end,
        post.latest_confirmed_nonce == new_confirmed,
        post.relayers@.len() == pre.relayers@.len() - k,
        forall|m: int|
            1 <= m < post.relayers@.len() ==> #[trigger] post.relayers@[m] == pre.relayers@[k + m],
        post.relayers@.len() > 0 ==> {
            &&& post.relayers@[0].relayer == pre.relayers@[k].relayer
            &&& post.relayers@[0].end == pre.relayers@[k].end
            &&& post.relayers@[0].begin == new_confirmed + 1
        },
    ensures
        post.wf(),
        post.spec_latest_received() == pre.spec_latest_received(),
        forall|i: int|
            0 <= i < post.relayers@.len() ==> new_confirmed < (#[trigger] post.relayers@[i]).end,
{
    let n = pre.relayers@.len() as int;
    if k == n {
        // everything was pruned: the old received watermark was fully
        // confirmed, so it equals new_confirmed
        if n > 0 {
            assert(pre.relayers@[n - 1].end <= new_confirmed);
        }
        assert(post.relayers@.len() == 0);
        assert(post.spec_latest_received() == new_confirmed);
    } else {
        assert forall|i: int| 0 <= i < post.relayers@.len() implies new_confirmed < (
        #[trigger] post.relayers@[i]).end by {
            lemma_inbound_ends_ascend(pre, k, k + i);
            assert(post.relayers@[i].end == pre.relayers@[k + i].end);
        }
        assert(post.relayers@.last().end == pre.relayers@[n - 1].end);
        assert(post.wf()) by {
            assert forall|i: int|
                1 <= i < post.relayers@.len() implies (#[trigger] post.relayers@[i]).begin
                == post.relayers@[i - 1].end + 1 by {
                assert(post.relayers@[i] == pre.relayers@[k + i]);
                assert(pre.relayers@[k + i].begin == pre.relayers@[k + i - 1].end + 1);
            }
        }
    }
}

proof fn lemma_inbound_ends_ascend(s: InboundLaneState, i: int, j: int)
    requires
        s.wf(),
        0 <= i <= j < s.relayers@.len(),
    ensures
        s.relayers@[i].end <= s.relayers@[j].end,
    decreases j - i,
{
    if i < j {
        lemma_inbound_ends_ascend(s, i, j - 1);
        assert(s.relayers@[j].begin == s.relayers@[j - 1].end + 1);
    }
}

/// The two ends of one lane, as observed together: both are well-formed, the
/// target has received nothing the source has not generated, and the source
/// has acknowledged nothing the target has not received.
pub open spec fn lane_consistent(outbound: OutboundLaneState, inbound: InboundLaneState) -> bool {
    &&& outbound.wf()
    &&& inbound.wf()
    &&& inbound.spec_latest_received() <= outbound.latest_generated_nonce
    &&& outbound.latest_received_nonce <= inbound.spec_latest_received()
}

/// Law: at every observed state of a lane, the confirmed nonce never passes
/// the received nonce, and the received nonce never passes the generated
/// nonce.
pub proof fn lemma_lane_watermarks_ordered(outbound: OutboundLaneState, inbound: InboundLaneState)
    requires
        lane_consistent(outbound, inbound),
    ensures
        inbound.latest_confirmed_nonce <= inbound.spec_latest_received()
            <= outbound.latest_generated_nonce,
{
    lemma_inbound_entries_above_confirmed(inbound);
}

/// In a well-formed inbound lane every pending entry lies strictly above the
/// confirmed watermark, entries ascend, and the received watermark bounds
/// them all.
pub proof fn lemma_inbound_entries_above_confirmed(s: InboundLaneState)
    requires
        s.wf(),
    ensures
        forall|i: int|
            0 <= i < s.relayers@.len() ==> s.latest_confirmed_nonce < (
            #[trigger] s.relayers@[i]).begin,
        forall|i: int|
            0 <= i < s.relayers@.len() ==> (#[trigger] s.relayers@[i]).end
                <= s.spec_latest_received(),
        s.latest_confirmed_nonce <= s.spec_latest_received(),
{
    let n = s.relayers@.len() as int;
    assert forall|i: int| 0 <= i < n implies s.latest_confirmed_nonce < (
    #[trigger] s.relayers@[i]).begin by {
        lemma_inbound_begin_above_confirmed(s, i);
    }
    assert forall|i: int| 0 <= i < n implies (#[trigger] s.relayers@[i]).end
        <= s.spec_latest_received() by {
        lemma_inbound_end_below_last(s, i);
    }
    if n > 0 {
        lemma_inbound_begin_above_confirmed(s, n - 1);
    }
}

proof fn lemma_inbound_begin_above_confirmed(s: InboundLaneState, i: int)
    requires
        s.wf(),
        0 <= i < s.relayers@.len(),
    ensures
        s.latest_confirmed_nonce < s.relayers@[i].begin,
    decreases i,
{
    if i > 0 {
        lemma_inbound_begin_above_confirmed(s, i - 1);
    }
}

proof fn lemma_inbound_end_below_last(s: InboundLaneState, i: int)
    requires
        s.wf(),
        0 <= i < s.relayers@.len(),
    ensures
        s.relayers@[i].end <= s.relayers@.last().end,
    decreases s.relayers@.len() - i,
{
    if i < s.relayers@.len() - 1 {
        lemma_inbound_end_below_last(s, i + 1);
    }
}

} // verus!
