//! Lane watermarks and the unrewarded-relayer bookkeeping.

use bridge_relay::chains::Millau;
use bridge_relay::lane::{AccountId, InboundLaneState, LaneId, OutboundLaneState, UnrewardedRelayer};

fn relayer(tag: u8) -> AccountId {
    AccountId([tag; 32])
}

#[test]
fn only_the_configured_lanes_are_enabled() {
    assert!(Millau::is_outbound_lane_enabled(&LaneId([0, 0, 0, 0])));
    assert!(Millau::is_outbound_lane_enabled(&LaneId([0, 0, 0, 1])));
    assert!(!Millau::is_outbound_lane_enabled(&LaneId([0, 0, 0, 2])));
    assert!(!Millau::is_outbound_lane_enabled(&LaneId([1, 0, 0, 0])));
    assert_eq!(Millau::maximal_pending_messages_at_outbound_lane(), u64::MAX);
}

#[test]
fn receiving_messages_extends_the_pending_entries() {
    let mut inbound = InboundLaneState { latest_confirmed_nonce: 7, relayers: Vec::new() };
    assert_eq!(inbound.latest_received_nonce(), 7);
    inbound.receive_messages(relayer(1), 8, 9);
    assert_eq!(inbound.latest_received_nonce(), 9);
    inbound.receive_messages(relayer(2), 10, 12);
    assert_eq!(inbound.latest_received_nonce(), 12);
    assert_eq!(inbound.relayers.len(), 2);
    assert_eq!(inbound.latest_confirmed_nonce(), 7);
}

#[test]
fn confirming_nonce_nine_prunes_the_entries_covering_eight_and_nine() {
    // the source previously recorded confirmed = 7; the target has received
    // up to 9, delivered by one relayer
    let mut source_outbound =
        OutboundLaneState { latest_generated_nonce: 10, latest_received_nonce: 7 };
    let mut target_inbound = InboundLaneState {
        latest_confirmed_nonce: 7,
        relayers: vec![UnrewardedRelayer { relayer: relayer(1), begin: 8, end: 9 }],
    };
    assert_eq!(target_inbound.latest_received_nonce(), 9);

    // the confirmation submission advances the source's recorded nonce to 9
    source_outbound.confirm_messages(9);
    assert_eq!(source_outbound.latest_received_nonce, 9);

    // and pruning removes the entry covering nonces 8 and 9
    target_inbound.confirm_delivery(9);
    assert_eq!(target_inbound.latest_confirmed_nonce(), 9);
    assert_eq!(target_inbound.relayers.len(), 0);
    assert_eq!(target_inbound.latest_received_nonce(), 9);
}

#[test]
fn partial_confirmation_trims_the_boundary_entry() {
    let mut inbound = InboundLaneState {
        latest_confirmed_nonce: 0,
        relayers: vec![
            UnrewardedRelayer { relayer: relayer(1), begin: 1, end: 4 },
            UnrewardedRelayer { relayer: relayer(2), begin: 5, end: 8 },
        ],
    };
    inbound.confirm_delivery(6);
    assert_eq!(inbound.latest_confirmed_nonce(), 6);
    assert_eq!(inbound.relayers.len(), 1);
    assert_eq!(inbound.relayers[0].begin, 7);
    assert_eq!(inbound.relayers[0].end, 8);
    assert_eq!(inbound.latest_received_nonce(), 8);
}

#[test]
fn generating_messages_moves_only_the_generated_watermark() {
    let mut outbound = OutboundLaneState { latest_generated_nonce: 3, latest_received_nonce: 2 };
    outbound.generate_message();
    assert_eq!(outbound.latest_generated_nonce, 4);
    assert_eq!(outbound.latest_received_nonce, 2);
}

#[test]
fn watermarks_stay_ordered_through_a_delivery_cycle() {
    let mut outbound = OutboundLaneState { latest_generated_nonce: 0, latest_received_nonce: 0 };
    let mut inbound = InboundLaneState { latest_confirmed_nonce: 0, relayers: Vec::new() };
    for _ in 0..5 {
        outbound.generate_message();
    }
    inbound.receive_messages(relayer(9), 1, 3);
    outbound.confirm_messages(3);
    inbound.confirm_delivery(3);
    assert!(inbound.latest_confirmed_nonce() <= inbound.latest_received_nonce());
    assert!(inbound.latest_received_nonce() <= outbound.latest_generated_nonce);
}
