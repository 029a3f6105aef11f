//! Batch selection under the delivery ceilings, and the loop decisions
//! built on it.

use bridge_relay::batch::{select_batch, BatchLimits, MessageDetails};
use bridge_relay::lane::OutboundLaneState;
use bridge_relay::proofs::{ChainFinalityView, HeaderId};
use bridge_relay::chains::MessageTransaction;
use bridge_relay::conversion::{FixedU128, FIXED_POINT_DIV};
use bridge_relay::relay::{
    is_batch_profitable, is_stalled, lane_loop_step, plan_confirmation, plan_delivery,
    plan_finality_submission, select_delivery_transaction_limits, ConfirmationDecision,
    DeliveryDecision, LaneLoopEvent, LaneLoopState, MessageDeliveryParams,
};

fn details_for(nonces: core::ops::RangeInclusive<u64>, weight: u64, size: u32) -> Vec<MessageDetails> {
    nonces.map(|nonce| MessageDetails { nonce, dispatch_weight: weight, size, fee: 100 }).collect()
}

fn wide_limits(max_count: u64) -> MessageDeliveryParams {
    MessageDeliveryParams {
        max_unrewarded_relayer_entries_at_target: 128,
        max_unconfirmed_nonces_at_target: 128,
        max_messages_in_single_batch: max_count,
        max_messages_weight_in_single_batch: u64::MAX,
        max_messages_size_in_single_batch: u64::MAX,
    }
}

fn anchor() -> HeaderId {
    HeaderId { number: 7, hash: [0xaa; 32] }
}

fn finality_knowing_anchor() -> ChainFinalityView {
    ChainFinalityView { known_finalized: vec![anchor()] }
}

fn finality_knowing_nothing() -> ChainFinalityView {
    ChainFinalityView { known_finalized: Vec::new() }
}

#[test]
fn batch_of_two_starts_at_nonce_eight() {
    // lane with latest_generated_nonce = 10 and target latest_received = 7,
    // at most two messages in a batch: the next batch is exactly {8, 9}
    let outbound = OutboundLaneState { latest_generated_nonce: 10, latest_received_nonce: 7 };
    let details = details_for(8..=10, 10, 10);
    let decision = plan_delivery(
        outbound,
        7,
        7,
        0,
        &details,
        wide_limits(2),
        anchor(),
        &finality_knowing_anchor(),
    );
    match decision {
        DeliveryDecision::Deliver { nonces_start, nonces_end, dispatch_weight } => {
            assert_eq!(nonces_start, 8);
            assert_eq!(nonces_end, 9);
            assert_eq!(dispatch_weight, 20);
        },
        other => panic!("expected a delivery, got {:?}", other),
    }
}

#[test]
fn selected_batch_respects_every_ceiling() {
    let details = details_for(1..=10, 7, 5);
    let limits = BatchLimits {
        max_messages_in_single_batch: 8,
        max_messages_weight_in_single_batch: 30,
        max_messages_size_in_single_batch: 100,
    };
    // the weight ceiling binds first: four messages of weight 7 fit in 30
    let n = select_batch(&details, limits);
    assert_eq!(n, 4);
    let total_weight: u64 = details[..n].iter().map(|d| d.dispatch_weight).sum();
    let total_size: u64 = details[..n].iter().map(|d| d.size as u64).sum();
    assert!(n as u64 <= limits.max_messages_in_single_batch);
    assert!(total_weight <= limits.max_messages_weight_in_single_batch);
    assert!(total_size <= limits.max_messages_size_in_single_batch);
}

#[test]
fn batch_selection_is_idempotent_on_unchanged_state() {
    let details = details_for(1..=20, 3, 9);
    let limits = BatchLimits {
        max_messages_in_single_batch: 100,
        max_messages_weight_in_single_batch: 25,
        max_messages_size_in_single_batch: 1000,
    };
    let first = select_batch(&details, limits);
    let second = select_batch(&details, limits);
    assert_eq!(first, second);
    assert_eq!(first, 8);
}

#[test]
fn first_message_exceeding_a_ceiling_is_a_fatal_configuration_error() {
    let outbound = OutboundLaneState { latest_generated_nonce: 3, latest_received_nonce: 0 };
    let details = details_for(1..=3, 1000, 10);
    let params = MessageDeliveryParams {
        max_unrewarded_relayer_entries_at_target: 128,
        max_unconfirmed_nonces_at_target: 128,
        max_messages_in_single_batch: 5,
        max_messages_weight_in_single_batch: 999,
        max_messages_size_in_single_batch: 1000,
    };
    let decision =
        plan_delivery(outbound, 0, 0, 0, &details, params, anchor(), &finality_knowing_anchor());
    assert!(matches!(decision, DeliveryDecision::BatchLimitsTooTight));
}

#[test]
fn unknown_anchor_means_no_submission_and_a_re_poll() {
    // the anchor header for nonces {8, 9} is not yet known-finalized at the
    // target: the loop performs zero submissions and re-polls -- not an error
    let outbound = OutboundLaneState { latest_generated_nonce: 9, latest_received_nonce: 7 };
    let details = details_for(8..=9, 10, 10);
    let decision = plan_delivery(
        outbound,
        7,
        7,
        0,
        &details,
        wide_limits(10),
        anchor(),
        &finality_knowing_nothing(),
    );
    assert!(matches!(decision, DeliveryDecision::AwaitingAnchorHeader));
}

#[test]
fn nothing_to_deliver_when_watermarks_agree() {
    let outbound = OutboundLaneState { latest_generated_nonce: 7, latest_received_nonce: 7 };
    let decision = plan_delivery(
        outbound,
        7,
        5,
        1,
        &Vec::new(),
        wide_limits(10),
        anchor(),
        &finality_knowing_anchor(),
    );
    assert!(matches!(decision, DeliveryDecision::NothingToDeliver));
}

#[test]
fn confirmation_follows_the_target_watermark() {
    assert!(matches!(
        plan_confirmation(7, 7, anchor(), &finality_knowing_anchor()),
        ConfirmationDecision::NothingToConfirm
    ));
    assert!(matches!(
        plan_confirmation(7, 9, anchor(), &finality_knowing_nothing()),
        ConfirmationDecision::AwaitingAnchorHeader
    ));
    match plan_confirmation(7, 9, anchor(), &finality_knowing_anchor()) {
        ConfirmationDecision::Confirm { latest_received_at_target } => {
            assert_eq!(latest_received_at_target, 9)
        },
        other => panic!("expected a confirmation, got {:?}", other),
    }
}

#[test]
fn finality_pipeline_submits_only_newer_headers() {
    let best = HeaderId { number: 20, hash: [1; 32] };
    assert!(plan_finality_submission(best, 20).is_none());
    assert!(plan_finality_submission(best, 25).is_none());
    let submitted = plan_finality_submission(best, 15).unwrap();
    assert_eq!(submitted.number, 20);
}

#[test]
fn stall_detection_uses_the_configured_timeout() {
    assert!(!is_stalled(1000, 1500, 1000));
    assert!(is_stalled(1000, 2000, 1000));
    assert!(is_stalled(1000, 2500, 1000));
}

#[test]
fn transaction_limits_split_the_weight_budget() {
    // a third of the budget pays for the transaction, the rest for dispatch
    let (max_messages, dispatch_budget) =
        select_delivery_transaction_limits(3_000_000_000_000, 128).unwrap();
    // (1_000_000_000_000 - 400_000_000) / 500_000_000 = 1999, capped at 128
    assert_eq!(max_messages, 128);
    assert_eq!(dispatch_budget, 2_000_000_000_000);

    let (uncapped, _) = select_delivery_transaction_limits(3_000_000_000_000, 100_000).unwrap();
    assert_eq!(uncapped, 1999);

    // a budget that cannot fit one message is a configuration error
    assert!(select_delivery_transaction_limits(900_000_000, 128).is_none());
    assert!(select_delivery_transaction_limits(3_000_000_000_000, 0).is_none());
}

#[test]
fn the_lane_loop_walks_its_states_in_order() {
    let mut state = LaneLoopState::Idle;
    for (event, expected) in [
        (LaneLoopEvent::StateRead, LaneLoopState::ComputingBatch),
        (LaneLoopEvent::BatchReadyAnchorUnknown, LaneLoopState::AwaitingAnchorHeader),
        (LaneLoopEvent::BatchReadyAnchorUnknown, LaneLoopState::AwaitingAnchorHeader),
        (LaneLoopEvent::BatchReadyAnchorKnown, LaneLoopState::BuildingProof),
        (LaneLoopEvent::ProofBuilt, LaneLoopState::Submitting),
        (LaneLoopEvent::SubmissionFinished, LaneLoopState::Idle),
    ] {
        state = lane_loop_step(state, event);
        assert_eq!(state, expected);
    }
    // a network error resets any state, and stray events change nothing
    assert_eq!(
        lane_loop_step(LaneLoopState::Submitting, LaneLoopEvent::NetworkError),
        LaneLoopState::Idle
    );
    assert_eq!(
        lane_loop_step(LaneLoopState::Idle, LaneLoopEvent::ProofBuilt),
        LaneLoopState::Idle
    );
    assert_eq!(
        lane_loop_step(LaneLoopState::BuildingProof, LaneLoopEvent::SubmissionFinished),
        LaneLoopState::BuildingProof
    );
}

#[test]
fn the_economic_gate_compares_fees_with_converted_cost() {
    let tx = MessageTransaction { dispatch_weight: 0, size: 1000 };
    // cost on the target chain: base weight + size = 125_001_000, doubled by
    // the conversion rate
    let rate = FixedU128::from_inner(2 * FIXED_POINT_DIV);
    assert!(is_batch_profitable(250_002_000, tx, rate));
    assert!(!is_batch_profitable(250_001_999, tx, rate));
}

#[test]
fn a_full_inbound_lane_waits_for_confirmations() {
    let outbound = OutboundLaneState { latest_generated_nonce: 20, latest_received_nonce: 10 };
    let details = details_for(11..=20, 10, 10);
    let mut params = wide_limits(10);
    params.max_unconfirmed_nonces_at_target = 6;
    // six nonces already unconfirmed: the lane is full
    let decision = plan_delivery(
        outbound,
        10,
        4,
        1,
        &details,
        params,
        anchor(),
        &finality_knowing_anchor(),
    );
    assert!(matches!(decision, DeliveryDecision::AwaitingConfirmations));

    // with four unconfirmed, only two more fit, whatever the batch ceiling
    let decision = plan_delivery(
        outbound,
        10,
        6,
        1,
        &details,
        params,
        anchor(),
        &finality_knowing_anchor(),
    );
    match decision {
        DeliveryDecision::Deliver { nonces_start, nonces_end, .. } => {
            assert_eq!(nonces_start, 11);
            assert_eq!(nonces_end, 12);
        },
        other => panic!("expected a delivery, got {:?}", other),
    }

    // a full reward-entry table also blocks deliveries
    let mut params = wide_limits(10);
    params.max_unrewarded_relayer_entries_at_target = 1;
    let decision = plan_delivery(
        outbound,
        10,
        10,
        1,
        &details,
        params,
        anchor(),
        &finality_knowing_anchor(),
    );
    assert!(matches!(decision, DeliveryDecision::AwaitingConfirmations));
}
