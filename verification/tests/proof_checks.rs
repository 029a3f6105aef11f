//! Building and verifying proofs around the finality anchor.

use bridge_relay::calls::FromBridgedChainMessagesDeliveryProof;
use bridge_relay::chains::Template;
use bridge_relay::lane::{AccountId, InboundLaneState, LaneId, UnrewardedRelayer};
use bridge_relay::proofs::{
    build_messages_delivery_proof, build_messages_proof, decode_inbound_lane_data,
    encode_inbound_lane_data, ChainFinalityView, HeaderId, ProofBuildError, ProofVerifyError,
};

fn anchor() -> HeaderId {
    HeaderId { number: 11, hash: [0x42; 32] }
}

fn knowing() -> ChainFinalityView {
    ChainFinalityView { known_finalized: vec![HeaderId { number: 3, hash: [9; 32] }, anchor()] }
}

fn ignorant() -> ChainFinalityView {
    ChainFinalityView { known_finalized: vec![HeaderId { number: 3, hash: [9; 32] }] }
}

fn lane() -> LaneId {
    LaneId([0, 0, 0, 1])
}

#[test]
fn a_proof_is_never_built_on_an_unknown_anchor() {
    let witness = vec![vec![1u8], vec![2u8]];
    let r = build_messages_proof(lane(), 8, 9, anchor(), &ignorant(), 1, 10, witness);
    assert_eq!(r.unwrap_err(), ProofBuildError::AnchorNotFinalized);
}

#[test]
fn a_pruned_nonce_range_is_reported_as_unavailable() {
    let witness = vec![vec![1u8], vec![2u8]];
    let r = build_messages_proof(lane(), 8, 9, anchor(), &knowing(), 9, 10, witness);
    assert_eq!(r.unwrap_err(), ProofBuildError::NonceRangeUnavailable);
}

#[test]
fn built_proofs_verify_and_return_the_messages_in_order() {
    let witness = vec![vec![0xaa], vec![0xbb]];
    let proof = build_messages_proof(lane(), 8, 9, anchor(), &knowing(), 1, 10, witness).unwrap();
    let msgs = Template::verify_messages_proof(&proof, 2, &knowing()).unwrap();
    assert_eq!(msgs.len(), 2);
    assert_eq!(msgs[0].nonce, 8);
    assert_eq!(msgs[0].payload, vec![0xaa]);
    assert_eq!(msgs[1].nonce, 9);
    assert_eq!(msgs[1].payload, vec![0xbb]);
}

#[test]
fn verification_rejects_an_unknown_anchor() {
    let witness = vec![vec![0xaa], vec![0xbb]];
    let proof = build_messages_proof(lane(), 8, 9, anchor(), &knowing(), 1, 10, witness).unwrap();
    let r = Template::verify_messages_proof(&proof, 2, &ignorant());
    assert_eq!(r.unwrap_err(), ProofVerifyError::AnchorUnknown);
}

#[test]
fn verification_rejects_a_count_mismatch() {
    let witness = vec![vec![0xaa], vec![0xbb]];
    let proof = build_messages_proof(lane(), 8, 9, anchor(), &knowing(), 1, 10, witness).unwrap();
    let r = Template::verify_messages_proof(&proof, 3, &knowing());
    assert_eq!(r.unwrap_err(), ProofVerifyError::CountMismatch);
}

#[test]
fn verification_rejects_a_witness_of_the_wrong_shape() {
    let mut proof =
        build_messages_proof(lane(), 8, 9, anchor(), &knowing(), 1, 10, vec![vec![1], vec![2]])
            .unwrap();
    proof.storage_proof.pop();
    let r = Template::verify_messages_proof(&proof, 2, &knowing());
    assert_eq!(r.unwrap_err(), ProofVerifyError::InvalidProof);
}

fn sample_inbound_state() -> InboundLaneState {
    InboundLaneState {
        latest_confirmed_nonce: 7,
        relayers: vec![
            UnrewardedRelayer { relayer: AccountId([1; 32]), begin: 8, end: 9 },
            UnrewardedRelayer { relayer: AccountId([2; 32]), begin: 10, end: 10 },
        ],
    }
}

#[test]
fn inbound_lane_data_encoding_round_trips() {
    let state = sample_inbound_state();
    let mut enc = Vec::new();
    encode_inbound_lane_data(&state, &mut enc);
    let decoded = decode_inbound_lane_data(&enc).unwrap();
    assert_eq!(decoded.latest_confirmed_nonce, 7);
    assert_eq!(decoded.relayers.len(), 2);
    assert_eq!(decoded.relayers[0].begin, 8);
    assert_eq!(decoded.relayers[0].end, 9);
    assert_eq!(decoded.relayers[0].relayer.0, [1; 32]);
    assert_eq!(decoded.relayers[1].begin, 10);
    assert_eq!(decoded.relayers[1].end, 10);
}

#[test]
fn decoding_rejects_gapped_or_malformed_lane_data() {
    let mut gapped = sample_inbound_state();
    gapped.relayers[1].begin = 11;
    let mut enc = Vec::new();
    encode_inbound_lane_data(&gapped, &mut enc);
    assert!(decode_inbound_lane_data(&enc).is_none());

    // the first entry must start right after the confirmed watermark
    let mut off = sample_inbound_state();
    off.latest_confirmed_nonce = 6;
    let mut enc2 = Vec::new();
    encode_inbound_lane_data(&off, &mut enc2);
    assert!(decode_inbound_lane_data(&enc2).is_none());

    assert!(decode_inbound_lane_data(&vec![]).is_none());
    assert!(decode_inbound_lane_data(&vec![4, 1, 2, 3]).is_none());
}

#[test]
fn delivery_proofs_with_undecodable_witness_are_invalid() {
    let proof = FromBridgedChainMessagesDeliveryProof {
        bridged_header_hash: anchor().hash,
        storage_proof: vec![vec![0xde, 0xad, 0xbe, 0xef]],
        lane: lane(),
    };
    let r = Template::verify_messages_delivery_proof(&proof, &knowing());
    assert_eq!(r.unwrap_err(), ProofVerifyError::InvalidProof);

    let two_values = FromBridgedChainMessagesDeliveryProof {
        bridged_header_hash: anchor().hash,
        storage_proof: vec![vec![0u8], vec![0u8]],
        lane: lane(),
    };
    let r = Template::verify_messages_delivery_proof(&two_values, &knowing());
    assert_eq!(r.unwrap_err(), ProofVerifyError::InvalidProof);
}

#[test]
fn decoding_rejects_lane_data_over_the_entry_capacity() {
    let mut oversized = InboundLaneState { latest_confirmed_nonce: 0, relayers: Vec::new() };
    for i in 0..129u64 {
        oversized.relayers.push(UnrewardedRelayer {
            relayer: AccountId([0; 32]),
            begin: i + 1,
            end: i + 1,
        });
    }
    let mut enc = Vec::new();
    encode_inbound_lane_data(&oversized, &mut enc);
    assert!(decode_inbound_lane_data(&enc).is_none());

    // one entry fewer is within the capacity and decodes
    let mut full = oversized;
    full.relayers.pop();
    let mut enc2 = Vec::new();
    encode_inbound_lane_data(&full, &mut enc2);
    assert_eq!(decode_inbound_lane_data(&enc2).unwrap().relayers.len(), 128);
}

#[test]
fn delivery_proofs_round_trip_through_verification() {
    let state = sample_inbound_state();
    let proof = build_messages_delivery_proof(lane(), &state, anchor(), &knowing()).unwrap();
    let (proved_lane, proved_state) =
        Template::verify_messages_delivery_proof(&proof, &knowing()).unwrap();
    assert_eq!(proved_lane.0, lane().0);
    assert_eq!(proved_state.latest_confirmed_nonce, 7);
    assert_eq!(proved_state.relayers.len(), 2);
    assert_eq!(proved_state.relayers[1].relayer.0, [2; 32]);
}

#[test]
fn delivery_proofs_need_a_known_anchor_on_both_sides() {
    let state = sample_inbound_state();
    let r = build_messages_delivery_proof(lane(), &state, anchor(), &ignorant());
    assert_eq!(r.unwrap_err(), ProofBuildError::AnchorNotFinalized);

    let proof = build_messages_delivery_proof(lane(), &state, anchor(), &knowing()).unwrap();
    let r = Template::verify_messages_delivery_proof(&proof, &ignorant());
    assert_eq!(r.unwrap_err(), ProofVerifyError::AnchorUnknown);
}
