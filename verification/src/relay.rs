//! The decision core of the relay loops. Each function here is one
//! poll-decide step: it looks at fresh snapshots of both chains' lane or
//! finality state and says what to submit next, without performing any I/O
//! itself. The driver around it reads the chains, calls a step, performs the
//! returned action, and re-polls; state is always re-read from the chains,
//! never cached.

use vstd::prelude::*;
use crate::batch::{BatchLimits, MessageDetails, prefix_ok, prefix_weight, select_batch};
use crate::chains::{sat_u128, MessageTransaction, Template, BASE_EXTRINSIC_WEIGHT};
use crate::conversion::{rate_mul_saturating, FixedU128};
use crate::lane::{MessageNonce, OutboundLaneState};
use crate::proofs::{ChainFinalityView, HeaderId};

verus! {

/// Ceilings and caps that govern one lane's delivery direction.
#[derive(Clone, Copy, Debug)]
pub struct MessageDeliveryParams {
    /// Most reward entries the target's inbound lane may hold at once.
    pub max_unrewarded_relayer_entries_at_target: u64,
    /// Most delivered-but-unconfirmed nonces the target tolerates.
    pub max_unconfirmed_nonces_at_target: u64,
    pub max_messages_in_single_batch: u64,
    pub max_messages_weight_in_single_batch: u64,
    pub max_messages_size_in_single_batch: u64,
}

/// Timing of one relay loop instance.
#[derive(Clone, Copy, Debug)]
pub struct RelayLoopConfig {
    /// Poll tick for the source chain, from its average block interval.
    pub source_tick_ms: u64,
    /// Poll tick for the target chain, from its average block interval.
    pub target_tick_ms: u64,
    /// Delay before reconnecting after a transport failure.
    pub reconnect_delay_ms: u64,
    /// No watermark movement for this long is a stall.
    pub stall_timeout_ms: u64,
}

/// What the delivery half of the lane loop decided to do next.
#[derive(Clone, Copy, Debug)]
pub enum DeliveryDecision {
    /// Every generated message has been delivered; idle until the next poll.
    NothingToDeliver,
    /// There is work, but the anchor header is not yet known-finalized at
    /// the target: wait for the finality pipeline and re-poll. Not an error.
    AwaitingAnchorHeader,
    /// The target's inbound lane is at capacity -- too many unconfirmed
    /// nonces or pending reward entries. Confirmations must land first;
    /// re-poll. Not an error.
    AwaitingConfirmations,
    /// The first undelivered message alone exceeds a ceiling: a fatal
    /// configuration error for this lane, reported, never silently dropped.
    BatchLimitsTooTight,
    /// Deliver `nonces_start..=nonces_end`, declaring this dispatch weight.
    Deliver { nonces_start: MessageNonce, nonces_end: MessageNonce, dispatch_weight: u64 },
}

/// The batch ceilings that remain once the target's unconfirmed-nonce
/// capacity is taken into account: the count ceiling shrinks to what the
/// inbound lane can still admit.
pub open spec fn capped_limits(
    params: MessageDeliveryParams,
    unconfirmed_at_target: int,
) -> BatchLimits {
    BatchLimits {
        max_messages_in_single_batch: if params.max_unconfirmed_nonces_at_target
            - unconfirmed_at_target < params.max_messages_in_single_batch {
            (params.max_unconfirmed_nonces_at_target - unconfirmed_at_target) as u64
        } else {
            params.max_messages_in_single_batch
        },
        max_messages_weight_in_single_batch: params.max_messages_weight_in_single_batch,
        max_messages_size_in_single_batch: params.max_messages_size_in_single_batch,
    }
}

/// One poll-decide step of the delivery direction. `details` describes the
/// undelivered messages, lowest nonce first, as read from the source chain
/// under the header `anchor`; the three watermark and capacity readings come
/// from the target's inbound lane.
pub fn plan_delivery(
    source_outbound: OutboundLaneState,
    target_latest_received: MessageNonce,
    target_latest_confirmed: MessageNonce,
    unrewarded_relayer_entries_at_target: u64,
    details: &Vec<MessageDetails>,
    params: MessageDeliveryParams,
    anchor: HeaderId,
    target_finality: &ChainFinalityView,
) -> (d: DeliveryDecision)
    requires
        source_outbound.wf(),
        target_latest_confirmed <= target_latest_received
            <= source_outbound.latest_generated_nonce,
        details@.len() == source_outbound.latest_generated_nonce - target_latest_received,
        forall|i: int|
            0 <= i < details@.len() ==> (#[trigger] details@[i]).nonce == target_latest_received
                + 1 + i,
    ensures
        ({
            let undelivered = source_outbound.latest_generated_nonce - target_latest_received;
            let unconfirmed = target_latest_received - target_latest_confirmed;
            let capacity_open = unconfirmed < params.max_unconfirmed_nonces_at_target
                && unrewarded_relayer_entries_at_target
                < params.max_unrewarded_relayer_entries_at_target;
            let limits = capped_limits(params, unconfirmed);
            match d {
                DeliveryDecision::NothingToDeliver => undelivered == 0,
                DeliveryDecision::AwaitingAnchorHeader => undelivered > 0
                    && !target_finality.spec_header_known(anchor.hash@),
                DeliveryDecision::AwaitingConfirmations => undelivered > 0
                    && target_finality.spec_header_known(anchor.hash@) && !capacity_open,
                DeliveryDecision::BatchLimitsTooTight => undelivered > 0
                    && target_finality.spec_header_known(anchor.hash@) && capacity_open
                    && !prefix_ok(details@, limits, 1),
                DeliveryDecision::Deliver { nonces_start, nonces_end, dispatch_weight } => {
                    let n = nonces_end - nonces_start + 1;
                    &&& undelivered > 0
                    &&& target_finality.spec_header_known(anchor.hash@)
                    &&& capacity_open
                    &&& nonces_start == target_latest_received + 1
                    &&& nonces_start <= nonces_end <= source_outbound.latest_generated_nonce
                    &&& prefix_ok(details@, limits, n)
                    &&& forall|m: int| n < m <= details@.len() ==> !prefix_ok(details@, limits, m)
                    &&& dispatch_weight == prefix_weight(details@, n)
                },
            }
        }),
{
    if details.len() == 0 {
        return DeliveryDecision::NothingToDeliver;
    }
    if !target_finality.header_known(&anchor.hash) {
        return DeliveryDecision::AwaitingAnchorHeader;
    }
    let unconfirmed = target_latest_received - target_latest_confirmed;
    if unconfirmed >= params.max_unconfirmed_nonces_at_target
        || unrewarded_relayer_entries_at_target >= params.max_unrewarded_relayer_entries_at_target {
        return DeliveryDecision::AwaitingConfirmations;
    }
    let remaining_capacity = params.max_unconfirmed_nonces_at_target - unconfirmed;
    let limits = BatchLimits {
        max_messages_in_single_batch: if remaining_capacity
            < params.max_messages_in_single_batch {
            remaining_capacity
        } else {
            params.max_messages_in_single_batch
        },
        max_messages_weight_in_single_batch: params.max_messages_weight_in_single_batch,
        max_messages_size_in_single_batch: params.max_messages_size_in_single_batch,
    };
    let n = select_batch(details, limits);
    if n == 0 {
        proof {
            assert(!prefix_ok(details@, limits, 1));
        }
        return DeliveryDecision::BatchLimitsTooTight;
    }
    let mut total_weight: u64 = 0;
    let mut i: usize = 0;
    proof {
        crate::batch::lemma_prefix_sums_monotone(details@, 0, n as int);
    }
    while i < n
        invariant
            i <= n <= details@.len(),
            prefix_ok(details@, limits, n as int),
            total_weight == prefix_weight(details@, i as int),
            prefix_weight(details@, i as int) <= prefix_weight(details@, n as int),
        decreases n - i,
    {
        proof {
            crate::batch::lemma_prefix_sums_monotone(details@, i + 1 as int, n as int);
        }
        total_weight = total_weight + details[i].dispatch_weight;
        i = i + 1;
    }
    DeliveryDecision::Deliver {
        nonces_start: target_latest_received + 1,
        nonces_end: target_latest_received + n as u64,
        dispatch_weight: total_weight,
    }
}

/// What the confirmation half of the lane loop decided to do next.
#[derive(Clone, Copy, Debug)]
pub enum ConfirmationDecision {
    /// The source chain already knows everything the target received.
    NothingToConfirm,
    /// The target is ahead, but its header is not yet known-finalized at
    /// the source: wait for the finality pipeline and re-poll.
    AwaitingAnchorHeader,
    /// Tell the source chain that the target has received up to this nonce.
    Confirm { latest_received_at_target: MessageNonce },
}

/// One poll-decide step of the confirmation direction: when the target's
/// received watermark has moved past what the source has recorded, and the
/// target header carrying that state is known-finalized at the source, a
/// delivery confirmation is due.
pub fn plan_confirmation(
    source_latest_received: MessageNonce,
    target_latest_received: MessageNonce,
    anchor: HeaderId,
    source_finality: &ChainFinalityView,
) -> (d: ConfirmationDecision)
    requires
        source_latest_received <= target_latest_received,
    ensures
        match d {
            ConfirmationDecision::NothingToConfirm => target_latest_received
                == source_latest_received,
            ConfirmationDecision::AwaitingAnchorHeader => target_latest_received
                > source_latest_received && !source_finality.spec_header_known(anchor.hash@),
            ConfirmationDecision::Confirm { latest_received_at_target } => target_latest_received
                > source_latest_received && source_finality.spec_header_known(anchor.hash@)
                && latest_received_at_target == target_latest_received,
        },
{
    if target_latest_received == source_latest_received {
        return ConfirmationDecision::NothingToConfirm;
    }
    if !source_finality.header_known(&anchor.hash) {
        return ConfirmationDecision::AwaitingAnchorHeader;
    }
    ConfirmationDecision::Confirm { latest_received_at_target: target_latest_received }
}

/// What the finality pipeline decided to do next: submit the source chain's
/// best finalized header, or nothing. It never submits a header the target
/// already knows, and skips intermediate headers by always proposing the
/// best one.
pub fn plan_finality_submission(source_best: HeaderId, target_best_number: u64) -> (r: Option<
    HeaderId,
>)
    ensures
        match r {
            Some(h) => source_best.number > target_best_number && h.number == source_best.number
                && h.hash@ == source_best.hash@,
            None => source_best.number <= target_best_number,
        },
{
    if source_best.number > target_best_number {
        Some(source_best)
    } else {
        None
    }
}

/// Whether a lane instance has stalled: no watermark progress for at least
/// the stall timeout. The supervisor then tears down and reconnects both
/// clients; it never drops messages.
pub fn is_stalled(last_progress_at_ms: u64, now_ms: u64, stall_timeout_ms: u64) -> (r: bool)
    requires
        last_progress_at_ms <= now_ms,
    ensures
        r == (now_ms - last_progress_at_ms >= stall_timeout_ms),
{
    now_ms - last_progress_at_ms >= stall_timeout_ms
}

/// Where one lane direction stands in its cycle. Any network error returns
/// to `Idle` after the reconnect delay; waiting for the anchor loops until
/// the finality pipeline catches up.
#[derive(Clone, Copy, Debug, PartialEq, Eq, Structural)]
pub enum LaneLoopState {
    Idle,
    ComputingBatch,
    AwaitingAnchorHeader,
    BuildingProof,
    Submitting,
}

/// What moved the lane loop since its last step.
#[derive(Clone, Copy, Debug, PartialEq, Eq, Structural)]
pub enum LaneLoopEvent {
    /// The poll tick fired and fresh lane state was read.
    StateRead,
    /// The batch was computed and the anchor is known at the target.
    BatchReadyAnchorKnown,
    /// The batch was computed but the anchor is not yet known there.
    BatchReadyAnchorUnknown,
    /// The proof for the batch was built.
    ProofBuilt,
    /// The submitted transaction completed, in success or rejection; lane
    /// state is re-read before the next decision either way.
    SubmissionFinished,
    /// The transport failed; reconnect and start over.
    NetworkError,
}

/// The next state of the lane loop after an event.
pub open spec fn spec_lane_loop_next(state: LaneLoopState, event: LaneLoopEvent) -> LaneLoopState {
    match event {
        LaneLoopEvent::NetworkError => LaneLoopState::Idle,
        LaneLoopEvent::StateRead => LaneLoopState::ComputingBatch,
        LaneLoopEvent::BatchReadyAnchorKnown => if state == LaneLoopState::ComputingBatch
            || state == LaneLoopState::AwaitingAnchorHeader {
            LaneLoopState::BuildingProof
        } else {
            state
        },
        LaneLoopEvent::BatchReadyAnchorUnknown => if state == LaneLoopState::ComputingBatch
            || state == LaneLoopState::AwaitingAnchorHeader {
            LaneLoopState::AwaitingAnchorHeader
        } else {
            state
        },
        LaneLoopEvent::ProofBuilt => if state == LaneLoopState::BuildingProof {
            LaneLoopState::Submitting
        } else {
            state
        },
        LaneLoopEvent::SubmissionFinished => if state == LaneLoopState::Submitting {
            LaneLoopState::Idle
        } else {
            state
        },
    }
}

/// Advances the lane loop's state machine by one event. Waiting for the
/// anchor can loop back to itself indefinitely while the finality pipeline
/// catches up; a finished submission always returns to `Idle`, so the next
/// batch is computed from re-read state and a rejected transaction is never
/// blindly resubmitted.
pub fn lane_loop_step(state: LaneLoopState, event: LaneLoopEvent) -> (next: LaneLoopState)
    ensures
        next == spec_lane_loop_next(state, event),
{
    match event {
        LaneLoopEvent::NetworkError => LaneLoopState::Idle,
        LaneLoopEvent::StateRead => LaneLoopState::ComputingBatch,
        LaneLoopEvent::BatchReadyAnchorKnown => match state {
            LaneLoopState::ComputingBatch | LaneLoopState::AwaitingAnchorHeader => LaneLoopState::BuildingProof,
            _ => state,
        },
        LaneLoopEvent::BatchReadyAnchorUnknown => match state {
            LaneLoopState::ComputingBatch | LaneLoopState::AwaitingAnchorHeader => LaneLoopState::AwaitingAnchorHeader,
            _ => state,
        },
        LaneLoopEvent::ProofBuilt => match state {
            LaneLoopState::BuildingProof => LaneLoopState::Submitting,
            _ => state,
        },
        LaneLoopEvent::SubmissionFinished => match state {
            LaneLoopState::Submitting => LaneLoopState::Idle,
            _ => state,
        },
    }
}

/// The economic gate: prices the delivery transaction on the target chain,
/// converts that cost into source-chain terms at the given rate, and admits
/// the batch only when the fees its senders locked cover the cost. Skipping
/// a low-value batch is a policy choice, not an error.
pub fn is_batch_profitable(
    batch_fees: u128,
    delivery_tx: MessageTransaction,
    target_to_source_rate: FixedU128,
) -> (r: bool)
    ensures
        r == (batch_fees as int >= rate_mul_saturating(
            target_to_source_rate.inner as int,
            sat_u128(BASE_EXTRINSIC_WEIGHT + delivery_tx.size as int),
        )),
{
    let cost_at_target = Template::transaction_payment(delivery_tx);
    let cost_at_source = target_to_source_rate.saturating_mul_int(cost_at_target);
    batch_fees >= cost_at_source
}

/// Base weight a delivery transaction spends before any message is
/// dispatched.
pub const RECEIVE_MESSAGES_PROOF_OVERHEAD: u64 = 300_000_000;

/// Extra weight when the proof also carries the outbound lane state.
pub const RECEIVE_MESSAGES_PROOF_LANE_STATE_OVERHEAD: u64 = 100_000_000;

/// Weight each additional message adds to the delivery transaction, beyond
/// its own dispatch weight.
pub const RECEIVE_MESSAGES_PROOF_PER_MESSAGE_OVERHEAD: u64 = 500_000_000;

/// Splits a target chain's extrinsic weight budget between delivery
/// transaction overhead and message dispatch: a third is reserved for the
/// transaction itself, the rest is for dispatching messages. Returns the
/// batch count cap and the dispatch weight budget, or `None` when the
/// budget cannot fit even one message -- a configuration error.
pub fn select_delivery_transaction_limits(
    max_extrinsic_weight: u64,
    max_unconfirmed_messages_at_inbound_lane: u64,
) -> (r: Option<(u64, u64)>)
    ensures
        ({
            let for_tx = max_extrinsic_weight / 3;
            let for_dispatch = max_extrinsic_weight - max_extrinsic_weight / 3;
            let base = RECEIVE_MESSAGES_PROOF_OVERHEAD + RECEIVE_MESSAGES_PROOF_LANE_STATE_OVERHEAD;
            match r {
                Some(limits) => {
                    let by_weight = (for_tx - base) as int
                        / RECEIVE_MESSAGES_PROOF_PER_MESSAGE_OVERHEAD as int;
                    &&& for_tx >= base
                    &&& limits.0 == if by_weight
                        <= max_unconfirmed_messages_at_inbound_lane as int {
                        by_weight
                    } else {
                        max_unconfirmed_messages_at_inbound_lane as int
                    }
                    &&& limits.0 >= 1
                    &&& limits.1 == for_dispatch
                },
                None => for_tx < base || (for_tx - base) as int
                    / RECEIVE_MESSAGES_PROOF_PER_MESSAGE_OVERHEAD as int == 0
                    || max_unconfirmed_messages_at_inbound_lane == 0,
            }
        }),
{
    let weight_for_delivery_tx = max_extrinsic_weight / 3;
    let weight_for_messages_dispatch = max_extrinsic_weight - weight_for_delivery_tx;
    let base = RECEIVE_MESSAGES_PROOF_OVERHEAD + RECEIVE_MESSAGES_PROOF_LANE_STATE_OVERHEAD;
    if weight_for_delivery_tx < base {
        return None;
    }
    let by_weight = (weight_for_delivery_tx - base) / RECEIVE_MESSAGES_PROOF_PER_MESSAGE_OVERHEAD;
    let max_messages = if by_weight <= max_unconfirmed_messages_at_inbound_lane {
        by_weight
    } else {
        max_unconfirmed_messages_at_inbound_lane
    };
    if max_messages == 0 {
        return None;
    }
    Some((max_messages, weight_for_messages_dispatch))
}

} // verus!
