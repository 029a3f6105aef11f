//! Call encodings against known byte layouts, the call decoder, and the
//! transaction builders.

use bridge_relay::calls::{
    decode_call, encode_call, polkadot_to_kusama_account_ownership_digest, AccountAddress,
    BalancesCall, BridgeKusamaGrandpaCall, BridgeKusamaMessagesCall, Call,
    FromBridgedChainMessagesDeliveryProof, FromBridgedChainMessagesProof, SystemCall,
    UnrewardedRelayersState,
};
use bridge_relay::cli::{CallRequest, EncodeCallError, RialtoParachain, TEMPLATE_TO_MILLAU_INDEX};
use bridge_relay::chains::Template;
use bridge_relay::extrinsic::{
    encode_signed_transaction, make_update_conversion_rate_call, signing_payload,
    MillauFinalityToTemplate, PolkadotMessagesToKusama,
};
use bridge_relay::conversion::FixedU128;
use bridge_relay::lane::{AccountId, LaneId};
use parity_scale_codec::{Compact, Encode};

fn enc(c: &Call) -> Vec<u8> {
    let mut out = Vec::new();
    encode_call(c, &mut out);
    out
}

#[test]
fn remark_call_encodes_with_its_pallet_and_call_tags() {
    let c = Call::System(SystemCall::remark(vec![0xab, 0xcd]));
    assert_eq!(enc(&c), vec![0x00, 0x01, 0x08, 0xab, 0xcd]);
}

#[test]
fn transfer_call_encodes_address_tag_account_and_compact_amount() {
    let c = Call::Balances(BalancesCall::transfer(AccountAddress(AccountId([7; 32])), 1_000_000));
    let mut expected = vec![0x05, 0x00, 0x00];
    expected.extend_from_slice(&[7; 32]);
    expected.extend(Compact(1_000_000u128).encode());
    assert_eq!(enc(&c), expected);
}

#[test]
fn finality_proof_call_forwards_the_encoded_header_and_justification() {
    let c = MillauFinalityToTemplate::make_submit_finality_proof_transaction(
        vec![1, 2, 3],
        vec![9, 9],
    );
    assert_eq!(enc(&c), vec![110, 0, 1, 2, 3, 9, 9]);
}

#[test]
fn conversion_rate_update_call_carries_the_fixed_point_inner() {
    let c = make_update_conversion_rate_call(FixedU128::from_inner(2));
    let mut expected = vec![111, 2, 0];
    expected.extend(2u128.encode());
    assert_eq!(enc(&c), expected);
}

#[test]
fn delivery_call_counts_the_nonce_range_and_encodes_the_proof() {
    let lane = PolkadotMessagesToKusama { relayer_id_at_source: AccountId([3; 32]) };
    let proof = FromBridgedChainMessagesProof {
        bridged_header_hash: [0x11; 32],
        storage_proof: vec![vec![0xaa], vec![0xbb, 0xcc]],
        lane: LaneId([0, 0, 0, 1]),
        nonces_start: 8,
        nonces_end: 9,
    };
    let c = lane.make_messages_delivery_transaction(5000, proof);
    let mut expected = vec![111, 5];
    expected.extend_from_slice(&[3; 32]);
    expected.extend_from_slice(&[0x11; 32]);
    expected.extend(Compact(2u64).encode());
    expected.extend(vec![0xaau8].encode());
    expected.extend(vec![0xbbu8, 0xcc].encode());
    expected.extend_from_slice(&[0, 0, 0, 1]);
    expected.extend(8u64.encode());
    expected.extend(9u64.encode());
    expected.extend(2u32.encode());
    expected.extend(5000u64.encode());
    assert_eq!(enc(&c), expected);
}

#[test]
fn confirmation_call_encodes_the_proof_and_relayers_snapshot() {
    let lane = PolkadotMessagesToKusama { relayer_id_at_source: AccountId([3; 32]) };
    let proof = FromBridgedChainMessagesDeliveryProof {
        bridged_header_hash: [0x22; 32],
        storage_proof: vec![vec![0xee]],
        lane: LaneId([0, 0, 0, 0]),
    };
    let state = UnrewardedRelayersState {
        unrewarded_relayer_entries: 1,
        messages_in_oldest_entry: 2,
        total_messages: 2,
    };
    let c = lane.make_messages_receiving_proof_transaction(state, proof);
    let mut expected = vec![111, 6];
    expected.extend_from_slice(&[0x22; 32]);
    expected.extend(Compact(1u64).encode());
    expected.extend(vec![0xeeu8].encode());
    expected.extend_from_slice(&[0, 0, 0, 0]);
    expected.extend(1u64.encode());
    expected.extend(2u64.encode());
    expected.extend(2u64.encode());
    assert_eq!(enc(&c), expected);
}

#[test]
fn decoding_re_encodes_to_the_same_bytes() {
    let remark = Call::System(SystemCall::remark(vec![1, 2, 3]));
    let decoded = decode_call(&enc(&remark)).unwrap();
    assert_eq!(enc(&decoded), enc(&remark));

    let transfer =
        Call::Balances(BalancesCall::transfer(AccountAddress(AccountId([9; 32])), u128::MAX));
    let decoded = decode_call(&enc(&transfer)).unwrap();
    assert_eq!(enc(&decoded), enc(&transfer));
}

#[test]
fn decoding_rejects_trailing_bytes_and_unknown_tags() {
    let remark = Call::System(SystemCall::remark(vec![1]));
    let mut bytes = enc(&remark);
    bytes.push(0);
    assert!(decode_call(&bytes).is_none());
    assert!(decode_call(&vec![42, 0, 0]).is_none());
    assert!(decode_call(&vec![]).is_none());
    // the bridge variants are not self-delimiting
    let grandpa = Call::BridgeKusamaGrandpa(BridgeKusamaGrandpaCall::initialize(vec![1, 2]));
    assert!(decode_call(&enc(&grandpa)).is_none());
}

#[test]
fn ownership_digest_is_the_concatenation_of_its_parts() {
    let call = Call::System(SystemCall::remark(vec![0xff]));
    let digest = polkadot_to_kusama_account_ownership_digest(&call, AccountId([4; 32]), 9100);
    let mut expected = enc(&call);
    expected.extend_from_slice(&[4; 32]);
    expected.extend(9100u32.encode());
    expected.extend_from_slice(b"pdot");
    expected.extend_from_slice(b"ksma");
    assert_eq!(digest, expected);
}

#[test]
fn signing_payload_carries_extensions_and_chain_context() {
    let call = Call::System(SystemCall::remark(vec![5]));
    let genesis = [0x77; 32];
    let payload = signing_payload(&call, 100, 1, &genesis, 12, 0);
    let mut expected = enc(&call);
    expected.push(0); // immortal era
    expected.extend(Compact(12u64).encode());
    expected.extend(Compact(0u128).encode());
    expected.extend(100u32.encode());
    expected.extend(1u32.encode());
    expected.extend_from_slice(&genesis);
    expected.extend_from_slice(&genesis);
    assert_eq!(payload, expected);
}

#[test]
fn signed_transactions_are_length_prefixed_and_tagged() {
    let call = Call::System(SystemCall::remark(vec![5]));
    let signer = AccountId([1; 32]);
    let signature = [0x55u8; 64];
    let tx = encode_signed_transaction(&call, &signer, &signature, 7, 0);
    let mut body = vec![0x84, 0x00];
    body.extend_from_slice(&[1; 32]);
    body.push(0x01);
    body.extend_from_slice(&[0x55; 64]);
    body.push(0x00);
    body.extend(Compact(7u64).encode());
    body.extend(Compact(0u128).encode());
    body.extend(enc(&call));
    let mut expected = Compact(body.len() as u64).encode();
    expected.extend(body);
    assert_eq!(tx, expected);
}

#[test]
fn raw_requests_round_trip_through_the_cli_encoder() {
    let call = Call::Balances(BalancesCall::transfer(AccountAddress(AccountId([8; 32])), 77));
    let encoded = enc(&call);
    let rebuilt = Template::encode_call(&CallRequest::Raw { data: encoded.clone() }).unwrap();
    assert_eq!(enc(&rebuilt), encoded);
    let err = Template::encode_call(&CallRequest::Raw { data: vec![0xde, 0xad] }).unwrap_err();
    assert_eq!(err, EncodeCallError::InvalidRawCall);

    let remark = Call::System(SystemCall::remark(vec![7, 7]));
    let rebuilt = Template::encode_call(&CallRequest::Raw { data: enc(&remark) }).unwrap();
    assert_eq!(enc(&rebuilt), enc(&remark));
}

#[test]
fn remark_and_transfer_requests_build_the_expected_calls() {
    let c = Template::encode_call(&CallRequest::Remark { remark_payload: None }).unwrap();
    assert_eq!(enc(&c), vec![0x00, 0x01, 0x00]);
    let c = Template::encode_call(&CallRequest::Transfer {
        recipient: AccountId([2; 32]),
        amount: 5,
    })
    .unwrap();
    assert!(matches!(c, Call::Balances(BalancesCall::transfer(_, 5))));
}

#[test]
fn bridge_messages_go_to_the_registered_instance_only() {
    let request = CallRequest::BridgeSendMessage {
        lane: LaneId([0, 0, 0, 0]),
        payload: vec![1, 2],
        fee: 9,
        bridge_instance_index: TEMPLATE_TO_MILLAU_INDEX,
    };
    let c = Template::encode_call(&request).unwrap();
    assert!(matches!(c, Call::BridgeKusamaMessages(BridgeKusamaMessagesCall::send_message(_, _, 9))));

    let bad = CallRequest::BridgeSendMessage {
        lane: LaneId([0, 0, 0, 0]),
        payload: vec![1, 2],
        fee: 9,
        bridge_instance_index: 200,
    };
    assert_eq!(Template::encode_call(&bad).unwrap_err(), EncodeCallError::UnsupportedBridgeInstance);
    assert_eq!(
        RialtoParachain::encode_call(&bad).unwrap_err(),
        EncodeCallError::BridgeSendMessageNotSupported
    );
}

#[test]
fn chain_parameters_match_their_configuration() {
    assert_eq!(Template::ss58_format(), 22);
    assert_eq!(RialtoParachain::ss58_format(), 48);
    assert_eq!(Template::cli_max_extrinsic_weight(), 0);
    assert_eq!(RialtoParachain::max_extrinsic_size(), 3_932_160);
    assert!(Template::encode_message(&vec![1]).is_err());
    assert!(RialtoParachain::encode_message(&vec![1]).is_err());
}
