//! Building and verifying storage-inclusion proofs for messages and for
//! delivery confirmations. A proof is only meaningful relative to a header
//! the verifying chain already knows is finalized, so both directions check
//! the anchor before anything else.

use vstd::prelude::*;
use crate::calls::{FromBridgedChainMessagesProof, FromBridgedChainMessagesDeliveryProof};
use crate::lane::{AccountId, InboundLaneState, LaneId, UnrewardedRelayer};
use crate::chains::MAX_UNREWARDED_RELAYER_ENTRIES_AT_INBOUND_LANE;
use crate::scale::{
    compact_bytes, le_bytes, encode_compact_u64, encode_raw, encode_u64, decode_compact,
    decode_u64_le, lemma_compact_shape, lemma_compact_unique, lemma_le_bytes_len,
    lemma_le_bytes_value, lemma_pow256_values,
};

verus! {

/// Number and hash of one block.
#[derive(Clone, Copy, Debug)]
pub struct HeaderId {
    pub number: u64,
    pub hash: [u8; 32],
}

/// The headers of the bridged chain that this chain knows are finalized.
#[derive(Clone, Debug)]
pub struct ChainFinalityView {
    pub known_finalized: Vec<HeaderId>,
}

impl ChainFinalityView {
    /// Whether a header hash is known-finalized here.
    pub open spec fn spec_header_known(self, hash: Seq<u8>) -> bool {
        exists|i: int|
            0 <= i < self.known_finalized@.len() && (
            #[trigger] self.known_finalized@[i]).hash@ == hash
    }

    pub fn header_known(&self, hash: &[u8; 32]) -> (r: bool)
        ensures
            r == self.spec_header_known(hash@),
    {
        let mut i: usize = 0;
        while i < self.known_finalized.len()
            invariant
                i <= self.known_finalized@.len(),
                forall|j: int|
                    0 <= j < i ==> (#[trigger] self.known_finalized@[j]).hash@ != hash@,
            decreases self.known_finalized@.len() - i,
        {
            if array32_eq(&self.known_finalized[i].hash, hash) {
                return true;
            }
            i = i + 1;
        }
        false
    }
}

/// Byte-for-byte comparison of two 32-byte arrays.
fn array32_eq(a: &[u8; 32], b: &[u8; 32]) -> (r: bool)
    ensures
        r == (a@ == b@),
{
    let mut i: usize = 0;
    while i < 32
        invariant
            i <= 32,
            forall|j: int| 0 <= j < i ==> a@[j] == b@[j],
        decreases 32 - i,
    {
        if a[i] != b[i] {
            return false;
        }
        i = i + 1;
    }
    proof {
        assert(a@ =~= b@);
    }
    true
}

/// Why a proof could not be built.
#[derive(Clone, Copy, Debug, PartialEq, Eq, Structural)]
pub enum ProofBuildError {
    /// The anchor header is not yet known-finalized at the verifying chain.
    AnchorNotFinalized,
    /// The chain has pruned state for part of the requested nonce range.
    NonceRangeUnavailable,
}

/// Why a proof was rejected.
#[derive(Clone, Copy, Debug, PartialEq, Eq, Structural)]
pub enum ProofVerifyError {
    /// Structural mismatch between the witness and the claimed nonce range.
    InvalidProof,
    /// The verifier has not learned the anchor header.
    AnchorUnknown,
    /// The decoded message count disagrees with the caller's expectation.
    CountMismatch,
}

/// One message as recovered from a verified proof.
#[derive(Clone, Debug)]
pub struct ProvedMessage {
    pub nonce: u64,
    pub payload: Vec<u8>,
}

/// Builds a messages proof for `nonces_start..=nonces_end` anchored to
/// `anchor`. It never builds a proof the verifying chain cannot check:
/// the anchor must already be known-finalized there. The storage witness --
/// one value per message, read from the producing chain under the anchor --
/// is carried through unchanged.
pub fn build_messages_proof(
    lane: LaneId,
    nonces_start: u64,
    nonces_end: u64,
    anchor: HeaderId,
    verifier_finality: &ChainFinalityView,
    oldest_unpruned_nonce: u64,
    latest_generated_nonce: u64,
    storage_witness: Vec<Vec<u8>>,
) -> (r: Result<FromBridgedChainMessagesProof, ProofBuildError>)
    requires
        nonces_start <= nonces_end,
        nonces_end - nonces_start + 1 == storage_witness@.len(),
    ensures
        match r {
            Ok(p) => {
                &&& verifier_finality.spec_header_known(anchor.hash@)
                &&& oldest_unpruned_nonce <= nonces_start
                &&& nonces_end <= latest_generated_nonce
                &&& p.bridged_header_hash@ == anchor.hash@
                &&& p.lane.0@ == lane.0@
                &&& p.nonces_start == nonces_start
                &&& p.nonces_end == nonces_end
                &&& p.storage_proof@ == storage_witness@
            },
            Err(e) => {
                &&& e == ProofBuildError::AnchorNotFinalized
                    <==> !verifier_finality.spec_header_known(anchor.hash@)
                &&& e == ProofBuildError::NonceRangeUnavailable
                    <==> verifier_finality.spec_header_known(anchor.hash@) && !(
                oldest_unpruned_nonce <= nonces_start && nonces_end <= latest_generated_nonce)
            },
        },
{
    if !verifier_finality.header_known(&anchor.hash) {
        return Err(ProofBuildError::AnchorNotFinalized);
    }
    if nonces_start < oldest_unpruned_nonce || nonces_end > latest_generated_nonce {
        return Err(ProofBuildError::NonceRangeUnavailable);
    }
    Ok(
        FromBridgedChainMessagesProof {
            bridged_header_hash: anchor.hash,
            storage_proof: storage_witness,
            lane,
            nonces_start,
            nonces_end,
        },
    )
}

impl crate::chains::Template {

/// Verifies a messages proof against this chain's knowledge of the bridged
/// chain: the anchor must be known-finalized here, the claimed count must
/// match the caller's expectation, and the witness must carry exactly one
/// value per claimed nonce. Returns the messages in nonce order.
pub fn verify_messages_proof(
    proof: &FromBridgedChainMessagesProof,
    messages_count: u32,
    verifier_finality: &ChainFinalityView,
) -> (r: Result<Vec<ProvedMessage>, ProofVerifyError>)
    ensures
        match r {
            Ok(msgs) => {
                &&& verifier_finality.spec_header_known(proof.bridged_header_hash@)
                &&& proof.nonces_start <= proof.nonces_end
                &&& proof.nonces_end - proof.nonces_start + 1 == messages_count
                &&& msgs@.len() == messages_count
                &&& proof.storage_proof@.len() == messages_count
                &&& forall|i: int|
                    0 <= i < msgs@.len() ==> (#[trigger] msgs@[i]).nonce == proof.nonces_start + i
                        && msgs@[i].payload@ == proof.storage_proof@[i]@
            },
            Err(e) => {
                &&& e == ProofVerifyError::AnchorUnknown
                    <==> !verifier_finality.spec_header_known(proof.bridged_header_hash@)
                &&& e == ProofVerifyError::CountMismatch
                    <==> verifier_finality.spec_header_known(proof.bridged_header_hash@) && !(
                proof.nonces_start <= proof.nonces_end && proof.nonces_end - proof.nonces_start + 1
                    == messages_count)
                &&& e == ProofVerifyError::InvalidProof
                    <==> verifier_finality.spec_header_known(proof.bridged_header_hash@)
                    && proof.nonces_start <= proof.nonces_end && proof.nonces_end
                    - proof.nonces_start + 1 == messages_count && proof.storage_proof@.len()
                    != messages_count
            },
        },
{
    if !verifier_finality.header_known(&proof.bridged_header_hash) {
        return Err(ProofVerifyError::AnchorUnknown);
    }
    if proof.nonces_start > proof.nonces_end {
        return Err(ProofVerifyError::CountMismatch);
    }
    let count64 = proof.nonces_end - proof.nonces_start;
    if count64 > u32::MAX as u64 - 1 || count64 + 1 != messages_count as u64 {
        return Err(ProofVerifyError::CountMismatch);
    }
    if proof.storage_proof.len() as u64 != count64 + 1 {
        return Err(ProofVerifyError::InvalidProof);
    }
    let mut msgs: Vec<ProvedMessage> = Vec::new();
    let mut i: usize = 0;
    let n = proof.storage_proof.len();
    while i < n
        invariant
            i <= n,
            n == proof.storage_proof@.len(),
            n == proof.nonces_end - proof.nonces_start + 1,
            msgs@.len() == i,
            forall|j: int|
                0 <= j < i ==> (#[trigger] msgs@[j]).nonce == proof.nonces_start + j
                    && msgs@[j].payload@ == proof.storage_proof@[j]@,
        decreases n - i,
    {
        msgs.push(
            ProvedMessage {
                nonce: proof.nonces_start + i as u64,
                payload: proof.storage_proof[i].clone(),
            },
        );
        i = i + 1;
    }
    Ok(msgs)
}

/// Verifies a delivery proof against this chain's knowledge of the bridged
/// chain: the anchor must be known-finalized here, and the single witness
/// value must decode to inbound lane state the bridged chain could hold. On
/// success the recovered state encodes back to the witness byte for byte;
/// the proof is rejected as invalid exactly when its witness has the wrong
/// shape or no such state encodes to it.
pub fn verify_messages_delivery_proof(
    proof: &FromBridgedChainMessagesDeliveryProof,
    verifier_finality: &ChainFinalityView,
) -> (r: Result<(LaneId, InboundLaneState), ProofVerifyError>)
    ensures
        match r {
            Ok(lane_state) => {
                &&& verifier_finality.spec_header_known(proof.bridged_header_hash@)
                &&& proof.storage_proof@.len() == 1
                &&& lane_state.0.0@ == proof.lane.0@
                &&& valid_inbound_lane_data(lane_state.1)
                &&& inbound_lane_data_bytes(lane_state.1) == proof.storage_proof@[0]@
            },
            Err(e) => {
                &&& e == ProofVerifyError::AnchorUnknown
                    <==> !verifier_finality.spec_header_known(proof.bridged_header_hash@)
                &&& e == ProofVerifyError::InvalidProof
                    <==> verifier_finality.spec_header_known(proof.bridged_header_hash@) && (
                proof.storage_proof@.len() != 1 || (forall|s: InboundLaneState|
                    #[trigger] valid_inbound_lane_data(s) ==> inbound_lane_data_bytes(s)
                        != proof.storage_proof@[0]@))
                &&& e != ProofVerifyError::CountMismatch
            },
        },
{
    if !verifier_finality.header_known(&proof.bridged_header_hash) {
        return Err(ProofVerifyError::AnchorUnknown);
    }
    if proof.storage_proof.len() != 1 {
        return Err(ProofVerifyError::InvalidProof);
    }
    match decode_inbound_lane_data(&proof.storage_proof[0]) {
        Some(state) => Ok((proof.lane, state)),
        None => Err(ProofVerifyError::InvalidProof),
    }
}

}

/// Inbound lane state a chain could actually hold: well-formed, and within
/// the configured reward-entry capacity.
pub open spec fn valid_inbound_lane_data(s: InboundLaneState) -> bool {
    &&& s.wf()
    &&& s.relayers@.len() <= MAX_UNREWARDED_RELAYER_ENTRIES_AT_INBOUND_LANE
}

/// One reward entry always encodes to 48 bytes.
proof fn lemma_relayer_entry_len(r: UnrewardedRelayer)
    ensures
        relayer_entry_bytes(r).len() == 48,
{
    lemma_le_bytes_len(r.begin as int, 8);
    lemma_le_bytes_len(r.end as int, 8);
}

/// The first `i` entries encode to exactly `48 * i` bytes.
proof fn lemma_entries_prefix_len(rs: Seq<UnrewardedRelayer>, i: int)
    requires
        0 <= i <= rs.len(),
    ensures
        relayer_entries_prefix(rs, i).len() == 48 * i,
    decreases i,
{
    if i > 0 {
        lemma_entries_prefix_len(rs, i - 1);
        lemma_relayer_entry_len(rs[i - 1]);
    }
}

/// Each entry occupies its own 48-byte block of the prefix encoding.
proof fn lemma_entries_prefix_slice(rs: Seq<UnrewardedRelayer>, i: int, j: int)
    requires
        0 <= j < i <= rs.len(),
    ensures
        relayer_entries_prefix(rs, i).subrange(48 * j, 48 * j + 48) =~= relayer_entry_bytes(rs[j]),
    decreases i,
{
    lemma_entries_prefix_len(rs, i);
    lemma_entries_prefix_len(rs, i - 1);
    lemma_relayer_entry_len(rs[i - 1]);
    if j < i - 1 {
        lemma_entries_prefix_slice(rs, i - 1, j);
    }
}

/// Two eight-byte strings denote equal values only when they are equal.
proof fn lemma_u64_le_eq(a: u64, b: u64)
    requires
        le_bytes(a as int, 8) == le_bytes(b as int, 8),
    ensures
        a == b,
{
    lemma_pow256_values();
    lemma_le_bytes_value(a as int, 8);
    lemma_le_bytes_value(b as int, 8);
}

/// Where each piece of a valid state sits in its encoding.
proof fn lemma_inbound_encoding_shape(s: InboundLaneState)
    requires
        valid_inbound_lane_data(s),
    ensures
        ({
            let b = inbound_lane_data_bytes(s);
            let k = s.relayers@.len() as int;
            let cl = compact_bytes(k).len() as int;
            &&& 1 <= cl
            &&& b.len() == cl + 48 * k + 8
            &&& b.subrange(0, cl) =~= compact_bytes(k)
            &&& forall|j: int|
                0 <= j < k ==> b.subrange(cl + 48 * j, cl + 48 * j + 48) =~= relayer_entry_bytes(
                    #[trigger] s.relayers@[j],
                )
            &&& b.subrange(cl + 48 * k, b.len() as int) =~= le_bytes(
                s.latest_confirmed_nonce as int,
                8,
            )
        }),
{
    let b = inbound_lane_data_bytes(s);
    let k = s.relayers@.len() as int;
    lemma_compact_shape(k);
    let cl = compact_bytes(k).len() as int;
    lemma_relayer_entries_prefix_full(s.relayers@);
    lemma_entries_prefix_len(s.relayers@, k);
    lemma_le_bytes_len(s.latest_confirmed_nonce as int, 8);
    assert(b.subrange(0, cl) =~= compact_bytes(k));
    assert forall|j: int| 0 <= j < k implies b.subrange(cl + 48 * j, cl + 48 * j + 48)
        =~= relayer_entry_bytes(#[trigger] s.relayers@[j]) by {
        lemma_entries_prefix_slice(s.relayers@, k, j);
    }
    assert(b.subrange(cl + 48 * k, b.len() as int) =~= le_bytes(s.latest_confirmed_nonce as int, 8));
}

/// A compact count at the start of a valid state's encoding pins the count
/// and where the entries begin.
proof fn lemma_inbound_count_pins(bytes: Seq<u8>, s: InboundLaneState, count: int, p: int)
    requires
        valid_inbound_lane_data(s),
        inbound_lane_data_bytes(s) == bytes,
        0 <= count <= u128::MAX,
        0 < p <= bytes.len(),
        bytes.subrange(0, p) == compact_bytes(count),
    ensures
        count == s.relayers@.len(),
        p == compact_bytes(s.relayers@.len() as int).len(),
        bytes.len() == p + 48 * count + 8,
{
    lemma_inbound_encoding_shape(s);
    let k = s.relayers@.len() as int;
    let cl = compact_bytes(k).len() as int;
    lemma_compact_unique(count, k, bytes, 0, p, cl);
}

/// Eight-byte reads inside an entry block of a valid state's encoding pin
/// that entry's nonce range.
proof fn lemma_entry_block_pins(
    bytes: Seq<u8>,
    s: InboundLaneState,
    count: int,
    p: int,
    i: int,
    begin: u64,
    end: u64,
)
    requires
        valid_inbound_lane_data(s),
        inbound_lane_data_bytes(s) == bytes,
        0 <= count <= u128::MAX,
        0 < p <= bytes.len(),
        bytes.subrange(0, p) == compact_bytes(count),
        0 <= i < count,
        le_bytes(begin as int, 8) == bytes.subrange(p + 48 * i, p + 48 * i + 8),
        le_bytes(end as int, 8) == bytes.subrange(p + 48 * i + 8, p + 48 * i + 16),
    ensures
        count == s.relayers@.len(),
        begin == s.relayers@[i].begin,
        end == s.relayers@[i].end,
{
    lemma_inbound_count_pins(bytes, s, count, p);
    lemma_inbound_encoding_shape(s);
    let r = s.relayers@[i];
    lemma_relayer_entry_len(r);
    lemma_le_bytes_len(r.begin as int, 8);
    lemma_le_bytes_len(r.end as int, 8);
    let eb = relayer_entry_bytes(r);
    assert(bytes.subrange(p + 48 * i, p + 48 * i + 48) =~= eb);
    assert(eb.subrange(0, 8) =~= le_bytes(r.begin as int, 8));
    assert(eb.subrange(8, 16) =~= le_bytes(r.end as int, 8));
    assert(bytes.subrange(p + 48 * i, p + 48 * i + 8) =~= eb.subrange(0, 8));
    assert(bytes.subrange(p + 48 * i + 8, p + 48 * i + 16) =~= eb.subrange(8, 16));
    lemma_u64_le_eq(begin, r.begin);
    lemma_u64_le_eq(end, r.end);
}

/// The eight bytes after the entries of a valid state's encoding pin its
/// confirmed watermark.
proof fn lemma_tail_pins(bytes: Seq<u8>, s: InboundLaneState, count: int, p: int, latest: u64)
    requires
        valid_inbound_lane_data(s),
        inbound_lane_data_bytes(s) == bytes,
        0 <= count <= u128::MAX,
        0 < p <= bytes.len(),
        bytes.subrange(0, p) == compact_bytes(count),
        le_bytes(latest as int, 8) == bytes.subrange(p + 48 * count, p + 48 * count + 8),
    ensures
        latest == s.latest_confirmed_nonce,
{
    lemma_inbound_count_pins(bytes, s, count, p);
    lemma_inbound_encoding_shape(s);
    lemma_le_bytes_len(s.latest_confirmed_nonce as int, 8);
    assert(le_bytes(s.latest_confirmed_nonce as int, 8) =~= bytes.subrange(
        p + 48 * count,
        p + 48 * count + 8,
    ));
    lemma_u64_le_eq(latest, s.latest_confirmed_nonce);
}

/// When no compact integer starts the bytes, no valid state encodes to them.
proof fn lemma_none_when_no_count(bytes: Seq<u8>)
    requires
        forall|v: int, e: int|
            #![trigger compact_bytes(v), bytes.subrange(0, e)]
            0 <= v <= u128::MAX && 0 < e <= bytes.len() ==> bytes.subrange(0, e) != compact_bytes(
                v,
            ),
    ensures
        forall|s: InboundLaneState|
            #[trigger] valid_inbound_lane_data(s) ==> inbound_lane_data_bytes(s) != bytes,
{
    assert forall|s2: InboundLaneState|
        valid_inbound_lane_data(s2) && inbound_lane_data_bytes(s2) == bytes implies false by {
        lemma_inbound_encoding_shape(s2);
        let k = s2.relayers@.len() as int;
        let cl = compact_bytes(k).len() as int;
        assert(bytes.subrange(0, cl) == compact_bytes(k));
    }
}

/// When the leading count is over the entry capacity or the remaining bytes
/// do not tile into entries plus a watermark, no valid state encodes to the
/// bytes.
proof fn lemma_none_when_count_bad(bytes: Seq<u8>, count: int, p: int)
    requires
        0 <= count <= u128::MAX,
        0 < p <= bytes.len(),
        bytes.subrange(0, p) == compact_bytes(count),
        count > MAX_UNREWARDED_RELAYER_ENTRIES_AT_INBOUND_LANE || bytes.len() != p + 48 * count + 8,
    ensures
        forall|s: InboundLaneState|
            #[trigger] valid_inbound_lane_data(s) ==> inbound_lane_data_bytes(s) != bytes,
{
    assert forall|s2: InboundLaneState|
        valid_inbound_lane_data(s2) && inbound_lane_data_bytes(s2) == bytes implies false by {
        lemma_inbound_count_pins(bytes, s2, count, p);
    }
}

/// When the first entry does not start right after the decoded watermark, no
/// valid state encodes to the bytes.
proof fn lemma_none_when_watermark_bad(
    bytes: Seq<u8>,
    count: int,
    p: int,
    first_begin: u64,
    first_end: u64,
    latest: u64,
)
    requires
        0 <= count <= u128::MAX,
        0 < p <= bytes.len(),
        bytes.subrange(0, p) == compact_bytes(count),
        count >= 1,
        le_bytes(first_begin as int, 8) == bytes.subrange(p, p + 8),
        le_bytes(first_end as int, 8) == bytes.subrange(p + 8, p + 16),
        le_bytes(latest as int, 8) == bytes.subrange(p + 48 * count, p + 48 * count + 8),
        latest == u64::MAX || first_begin != latest + 1,
    ensures
        forall|s: InboundLaneState|
            #[trigger] valid_inbound_lane_data(s) ==> inbound_lane_data_bytes(s) != bytes,
{
    assert forall|s2: InboundLaneState|
        valid_inbound_lane_data(s2) && inbound_lane_data_bytes(s2) == bytes implies false by {
        lemma_entry_block_pins(bytes, s2, count, p, 0, first_begin, first_end);
        lemma_tail_pins(bytes, s2, count, p, latest);
        assert(s2.relayers@[0].begin == s2.latest_confirmed_nonce + 1);
    }
}

/// Decodes inbound lane data from its storage encoding, rejecting anything
/// that does not decode canonically to state a chain could hold: each entry
/// must be a non-empty range, the entries must tile the span above the
/// confirmed watermark without gaps and stay within the entry capacity, and
/// the whole input must be consumed. On failure, no such state encodes to
/// the input.
#[verifier::rlimit(100)]
#[verifier::spinoff_prover]
pub fn decode_inbound_lane_data(bytes: &Vec<u8>) -> (r: Option<InboundLaneState>)
    ensures
        match r {
            Some(s) => valid_inbound_lane_data(s) && inbound_lane_data_bytes(s) =~= bytes@,
            None => forall|s: InboundLaneState|
                #[trigger] valid_inbound_lane_data(s) ==> inbound_lane_data_bytes(s) != bytes@,
        },
{
    let blen = bytes.len();
    let (count, p) = match decode_compact(bytes, 0) {
        Some(c_p) => c_p,
        None => {
            proof {
                lemma_none_when_no_count(bytes@);
            }
            return None;
        },
    };
    if count > MAX_UNREWARDED_RELAYER_ENTRIES_AT_INBOUND_LANE as u128 {
        proof {
            lemma_none_when_count_bad(bytes@, count as int, p as int);
        }
        return None;
    }
    let count = count as u64;
    // each entry takes 48 bytes; the confirmed watermark takes 8 more
    if blen < p || ((blen - p) as u64) < 8 || ((blen - p) as u64) - 8 != count * 48 {
        proof {
            lemma_none_when_count_bad(bytes@, count as int, p as int);
        }
        return None;
    }
    let count: usize = count as usize;
    let mut relayers: Vec<UnrewardedRelayer> = Vec::new();
    let mut i: usize = 0;
    proof {
        assert(relayer_entries_prefix(relayers@, 0) =~= Seq::<u8>::empty());
        assert(bytes@.subrange(p as int, p as int) =~= Seq::<u8>::empty());
    }
    while i < count
        invariant
            i <= count,
            count <= 128,
            blen == bytes@.len(),
            0 < p <= blen,
            p + count * 48 + 8 == blen,
            bytes@.subrange(0, p as int) =~= compact_bytes(count as int),
            relayers@.len() == i,
            bytes@.subrange(p as int, p + 48 * i as int) =~= relayer_entries_prefix(
                relayers@,
                i as int,
            ),
            forall|j: int|
                0 <= j < i ==> le_bytes((#[trigger] relayers@[j]).begin as int, 8)
                    =~= bytes@.subrange(p + 48 * j as int, p + 48 * j + 8 as int),
            forall|j: int|
                0 <= j < i ==> le_bytes((#[trigger] relayers@[j]).end as int, 8)
                    =~= bytes@.subrange(p + 48 * j + 8 as int, p + 48 * j + 16 as int),
            forall|j: int|
                0 <= j < i ==> (#[trigger] relayers@[j]).begin <= relayers@[j].end,
            forall|j: int|
                1 <= j < i ==> (#[trigger] relayers@[j]).begin == relayers@[j - 1].end + 1,
        decreases count - i,
    {
        let base = p + 48 * i;
        let begin = decode_u64_le(bytes, base);
        let end = decode_u64_le(bytes, base + 8);
        if begin > end {
            proof {
                assert forall|s2: InboundLaneState|
                    valid_inbound_lane_data(s2) && inbound_lane_data_bytes(s2)
                        == bytes@ implies false by {
                    lemma_entry_block_pins(bytes@, s2, count as int, p as int, i as int, begin, end);
                }
            }
            return None;
        }
        if i > 0 {
            let prev_end = relayers[i - 1].end;
            if prev_end == u64::MAX || begin != prev_end + 1 {
                proof {
                    assert forall|s2: InboundLaneState|
                        valid_inbound_lane_data(s2) && inbound_lane_data_bytes(s2)
                            == bytes@ implies false by {
                        lemma_entry_block_pins(
                            bytes@,
                            s2,
                            count as int,
                            p as int,
                            i as int,
                            begin,
                            end,
                        );
                        lemma_entry_block_pins(
                            bytes@,
                            s2,
                            count as int,
                            p as int,
                            i - 1 as int,
                            relayers@[i - 1].begin,
                            prev_end,
                        );
                        assert(s2.relayers@[i as int].begin == s2.relayers@[i - 1].end + 1);
                    }
                }
                return None;
            }
        }
        let mut acct: [u8; 32] = [0u8; 32];
        let mut k: usize = 0;
        while k < 32
            invariant
                k <= 32,
                blen == bytes@.len(),
                base + 48 <= blen,
                forall|j: int| 0 <= j < k ==> acct@[j] == bytes@[base + 16 + j],
            decreases 32 - k,
        {
            acct[k] = bytes[base + 16 + k];
            k = k + 1;
        }
        let ghost pre = relayers@;
        relayers.push(UnrewardedRelayer { relayer: AccountId(acct), begin, end });
        proof {
            assert(acct@ =~= bytes@.subrange(base + 16 as int, base + 48 as int));
            assert(relayer_entry_bytes(relayers@[i as int]) =~= bytes@.subrange(
                base as int,
                base + 48 as int,
            ));
            lemma_relayer_entries_prefix_congruent(pre, relayers@, i as int);
            assert(relayer_entries_prefix(relayers@, i + 1 as int) =~= relayer_entries_prefix(
                relayers@,
                i as int,
            ) + relayer_entry_bytes(relayers@[i as int]));
            assert(bytes@.subrange(p as int, p + 48 * (i + 1) as int) =~= bytes@.subrange(
                p as int,
                p + 48 * i as int,
            ) + bytes@.subrange(base as int, base + 48 as int));
        }
        i = i + 1;
    }
    let tail = p + 48 * count;
    let latest_confirmed_nonce = decode_u64_le(bytes, tail);
    if relayers.len() > 0 {
        let first_begin = relayers[0].begin;
        if latest_confirmed_nonce == u64::MAX || first_begin != latest_confirmed_nonce + 1 {
            proof {
                lemma_none_when_watermark_bad(
                    bytes@,
                    count as int,
                    p as int,
                    first_begin,
                    relayers@[0].end,
                    latest_confirmed_nonce,
                );
            }
            return None;
        }
    }
    let state = InboundLaneState { latest_confirmed_nonce, relayers };
    proof {
        assert(bytes@ =~= bytes@.subrange(0, p as int) + bytes@.subrange(p as int, tail as int)
            + bytes@.subrange(tail as int, blen as int));
        lemma_relayer_entries_prefix_full(state.relayers@);
    }
    Some(state)
}

/// Prefixes shorter than both sequences' shared length agree when the
/// sequences agree there.
proof fn lemma_relayer_entries_prefix_congruent(
    a: Seq<UnrewardedRelayer>,
    b: Seq<UnrewardedRelayer>,
    n: int,
)
    requires
        n <= a.len(),
        n <= b.len(),
        forall|j: int| 0 <= j < n ==> a[j] == b[j],
    ensures
        forall|j: int| 0 <= j <= n ==> relayer_entries_prefix(a, j) =~= relayer_entries_prefix(b, j),
    decreases n,
{
    if n > 0 {
        lemma_relayer_entries_prefix_congruent(a, b, n - 1);
        assert(relayer_entries_prefix(a, n) =~= relayer_entries_prefix(a, n - 1)
            + relayer_entry_bytes(a[n - 1]));
    }
}

/// Wire encoding of the inbound lane data as the chain stores it: the
/// pending reward entries (begin, end, relayer each), then the confirmed
/// watermark.
pub open spec fn inbound_lane_data_bytes(s: InboundLaneState) -> Seq<u8> {
    compact_bytes(s.relayers@.len() as int) + relayer_entries_bytes(s.relayers@) + le_bytes(
        s.latest_confirmed_nonce as int,
        8,
    )
}

pub open spec fn relayer_entries_bytes(rs: Seq<UnrewardedRelayer>) -> Seq<u8>
    decreases rs.len(),
{
    if rs.len() == 0 {
        Seq::empty()
    } else {
        relayer_entry_bytes(rs[0]) + relayer_entries_bytes(rs.drop_first())
    }
}

pub open spec fn relayer_entry_bytes(r: UnrewardedRelayer) -> Seq<u8> {
    le_bytes(r.begin as int, 8) + le_bytes(r.end as int, 8) + r.relayer.0@
}

/// Encodes the inbound lane data exactly as the chain stores it.
pub fn encode_inbound_lane_data(s: &InboundLaneState, out: &mut Vec<u8>)
    ensures
        final(out)@ == old(out)@ + inbound_lane_data_bytes(*s),
{
    encode_compact_u64(s.relayers.len() as u64, out);
    let mut i: usize = 0;
    let ghost rs = s.relayers@;
    proof {
        assert(relayer_entries_prefix(rs, 0) =~= Seq::empty());
    }
    while i < s.relayers.len()
        invariant
            i <= rs.len(),
            rs == s.relayers@,
            out@ == old(out)@ + compact_bytes(rs.len() as int) + relayer_entries_prefix(
                rs,
                i as int,
            ),
        decreases rs.len() - i,
    {
        let entry = s.relayers[i];
        encode_u64(entry.begin, out);
        encode_u64(entry.end, out);
        encode_raw(entry.relayer.0.as_slice(), out);
        proof {
            assert(relayer_entries_prefix(rs, i + 1 as int) =~= relayer_entries_prefix(rs, i as int)
                + relayer_entry_bytes(rs[i as int]));
        }
        i = i + 1;
    }
    encode_u64(s.latest_confirmed_nonce, out);
    proof {
        lemma_relayer_entries_prefix_full(rs);
        assert(final(out)@ =~= old(out)@ + inbound_lane_data_bytes(*s));
    }
}

/// The encoding of the first `i` reward entries.
pub open spec fn relayer_entries_prefix(rs: Seq<UnrewardedRelayer>, i: int) -> Seq<u8>
    decreases i,
{
    if i <= 0 {
        Seq::empty()
    } else {
        relayer_entries_prefix(rs, i - 1) + relayer_entry_bytes(rs[i - 1])
    }
}

proof fn lemma_relayer_entries_prefix_full(rs: Seq<UnrewardedRelayer>)
    ensures
        relayer_entries_prefix(rs, rs.len() as int) =~= relayer_entries_bytes(rs),
    decreases rs.len(),
{
    if rs.len() > 0 {
        lemma_relayer_entries_prefix_full(rs.drop_first());
        lemma_relayer_entries_shift(rs, rs.len() as int);
    }
}

proof fn lemma_relayer_entries_shift(rs: Seq<UnrewardedRelayer>, i: int)
    requires
        1 <= i <= rs.len(),
    ensures
        relayer_entries_prefix(rs, i) =~= relayer_entry_bytes(rs[0]) + relayer_entries_prefix(
            rs.drop_first(),
            i - 1,
        ),
    decreases i,
{
    if i == 1 {
        assert(relayer_entries_prefix(rs, 0) =~= Seq::empty());
        assert(relayer_entries_prefix(rs.drop_first(), 0) =~= Seq::empty());
    } else {
        lemma_relayer_entries_shift(rs, i - 1);
        assert(rs.drop_first()[i - 2] == rs[i - 1]);
    }
}

/// Builds a delivery proof for the inbound lane state, anchored to `anchor`.
/// The single storage witness value is the lane data's own encoding, so the
/// verifying chain recovers the state exactly.
pub fn build_messages_delivery_proof(
    lane: LaneId,
    inbound_state: &InboundLaneState,
    anchor: HeaderId,
    verifier_finality: &ChainFinalityView,
) -> (r: Result<FromBridgedChainMessagesDeliveryProof, ProofBuildError>)
    ensures
        match r {
            Ok(p) => {
                &&& verifier_finality.spec_header_known(anchor.hash@)
                &&& p.bridged_header_hash@ == anchor.hash@
                &&& p.lane.0@ == lane.0@
                &&& p.storage_proof@.len() == 1
                &&& p.storage_proof@[0]@ == inbound_lane_data_bytes(*inbound_state)
            },
            Err(e) => {
                &&& e == ProofBuildError::AnchorNotFinalized
                &&& !verifier_finality.spec_header_known(anchor.hash@)
            },
        },
{
    if !verifier_finality.header_known(&anchor.hash) {
        return Err(ProofBuildError::AnchorNotFinalized);
    }
    let mut value: Vec<u8> = Vec::new();
    encode_inbound_lane_data(inbound_state, &mut value);
    let mut witness: Vec<Vec<u8>> = Vec::new();
    witness.push(value);
    Ok(
        FromBridgedChainMessagesDeliveryProof {
            bridged_header_hash: anchor.hash,
            storage_proof: witness,
            lane,
        },
    )
}

} // verus!
