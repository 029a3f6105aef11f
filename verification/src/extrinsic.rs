//! Assembling transactions: the payload a signer must sign, the encoding of
//! the signed extrinsic, and the calls each relay direction submits. Keys
//! and signing itself stay outside the library; everything here is plain
//! bytes in, plain bytes out.

use vstd::prelude::*;
use crate::calls::{
    call_bytes, encode_call, BridgeKusamaGrandpaCall, BridgeKusamaMessagesCall,
    BridgeKusamaMessagesParameter, Call, FromBridgedChainMessagesDeliveryProof,
    FromBridgedChainMessagesProof, UnrewardedRelayersState,
};
use crate::conversion::FixedU128;
use crate::lane::AccountId;
use crate::scale::{
    bytes_with_len, compact_bytes, le_bytes, encode_bytes, encode_compact_u64,
    encode_compact_u128, encode_raw, encode_u32,
};

verus! {

/// Version byte of a signed extrinsic: format version four with the signed
/// bit set.
pub const SIGNED_EXTRINSIC_VERSION: u8 = 0x84;

/// What the signer signs for an immortal transaction: the call, the signed
/// extensions (era, nonce, tip), and the additional data the chain mixes in
/// -- its spec and transaction versions and the genesis hash twice, once as
/// the era checkpoint.
pub open spec fn signing_payload_bytes(
    c: Call,
    spec_version: u32,
    transaction_version: u32,
    genesis_hash: Seq<u8>,
    nonce: u64,
    tip: u128,
) -> Seq<u8> {
    call_bytes(c) + seq![0u8] + compact_bytes(nonce as int) + compact_bytes(tip as int) + le_bytes(
        spec_version as int,
        4,
    ) + le_bytes(transaction_version as int, 4) + genesis_hash + genesis_hash
}

/// Builds the bytes to sign. When they exceed 256 bytes the chain expects a
/// signature over their hash instead; that hashing is the signer's side.
pub fn signing_payload(
    c: &Call,
    spec_version: u32,
    transaction_version: u32,
    genesis_hash: &[u8; 32],
    nonce: u64,
    tip: u128,
) -> (r: Vec<u8>)
    ensures
        r@ == signing_payload_bytes(
            *c,
            spec_version,
            transaction_version,
            genesis_hash@,
            nonce,
            tip,
        ),
{
    let mut out: Vec<u8> = Vec::new();
    encode_call(c, &mut out);
    out.push(0);
    proof {
        assert(out@ =~= call_bytes(*c) + seq![0u8]);
    }
    encode_compact_u64(nonce, &mut out);
    encode_compact_u128(tip, &mut out);
    encode_u32(spec_version, &mut out);
    encode_u32(transaction_version, &mut out);
    encode_raw(genesis_hash.as_slice(), &mut out);
    encode_raw(genesis_hash.as_slice(), &mut out);
    out
}

/// Body of a signed immortal extrinsic, before its length prefix: the
/// version byte, the signer as an identity multi-address, an sr25519
/// signature, the extensions, and the call.
pub open spec fn signed_transaction_body(
    c: Call,
    signer: AccountId,
    signature: Seq<u8>,
    nonce: u64,
    tip: u128,
) -> Seq<u8> {
    seq![SIGNED_EXTRINSIC_VERSION, 0u8] + signer.0@ + seq![1u8] + signature + seq![0u8]
        + compact_bytes(nonce as int) + compact_bytes(tip as int) + call_bytes(c)
}

/// Encodes a signed immortal extrinsic: its body behind a compact length
/// prefix, byte for byte as the chain expects it.
pub fn encode_signed_transaction(
    c: &Call,
    signer: &AccountId,
    signature: &[u8; 64],
    nonce: u64,
    tip: u128,
) -> (r: Vec<u8>)
    ensures
        r@ == bytes_with_len(signed_transaction_body(*c, *signer, signature@, nonce, tip)),
{
    let mut body: Vec<u8> = Vec::new();
    body.push(SIGNED_EXTRINSIC_VERSION);
    body.push(0);
    proof {
        assert(body@ =~= seq![SIGNED_EXTRINSIC_VERSION, 0u8]);
    }
    encode_raw(signer.0.as_slice(), &mut body);
    body.push(1);
    proof {
        assert(body@ =~= seq![SIGNED_EXTRINSIC_VERSION, 0u8] + signer.0@ + seq![1u8]);
    }
    encode_raw(signature.as_slice(), &mut body);
    body.push(0);
    proof {
        assert(body@ =~= seq![SIGNED_EXTRINSIC_VERSION, 0u8] + signer.0@ + seq![1u8] + signature@
            + seq![0u8]);
    }
    encode_compact_u64(nonce, &mut body);
    encode_compact_u128(tip, &mut body);
    encode_call(c, &mut body);
    let mut out: Vec<u8> = Vec::new();
    encode_bytes(&body, &mut out);
    out
}

/// The message lane between the two chains, delivery direction: what the
/// library itself holds of it. Clients and signing keys live with the
/// driver.
#[derive(Clone, Copy, Debug)]
pub struct PolkadotMessagesToKusama {
    /// The relayer's account on the source chain, credited for deliveries.
    pub relayer_id_at_source: AccountId,
}

impl PolkadotMessagesToKusama {
    /// The delivery-confirmation call to submit on the source chain: the
    /// inbound lane state proof and the relayers snapshot it must prune.
    pub fn make_messages_receiving_proof_transaction(
        &self,
        relayers_state: UnrewardedRelayersState,
        proof: FromBridgedChainMessagesDeliveryProof,
    ) -> (c: Call)
        ensures
            c == Call::BridgeKusamaMessages(
                BridgeKusamaMessagesCall::receive_messages_delivery_proof(proof, relayers_state),
            ),
    {
        Call::BridgeKusamaMessages(
            BridgeKusamaMessagesCall::receive_messages_delivery_proof(proof, relayers_state),
        )
    }

    /// The delivery call to submit on the target chain: the messages proof,
    /// the exact count its nonce range claims, and the dispatch weight the
    /// relayer pays for.
    pub fn make_messages_delivery_transaction(
        &self,
        dispatch_weight: u64,
        proof: FromBridgedChainMessagesProof,
    ) -> (c: Call)
        requires
            proof.nonces_start <= proof.nonces_end,
            proof.nonces_end - proof.nonces_start + 1 <= u32::MAX,
        ensures
            c matches Call::BridgeKusamaMessages(
                BridgeKusamaMessagesCall::receive_messages_proof(relayer, p, count, weight),
            ) && relayer == self.relayer_id_at_source && p == proof && count == proof.nonces_end
                - proof.nonces_start + 1 && weight == dispatch_weight,
    {
        let messages_count = (proof.nonces_end - proof.nonces_start + 1) as u32;
        Call::BridgeKusamaMessages(
            BridgeKusamaMessagesCall::receive_messages_proof(
                self.relayer_id_at_source,
                proof,
                messages_count,
                dispatch_weight,
            ),
        )
    }
}

/// The call that updates the stored conversion rate. The rate arrives as a
/// fixed-point inner value; reading it from an operator's decimal input is
/// the driver's side.
pub fn make_update_conversion_rate_call(updated_rate: FixedU128) -> (c: Call)
    ensures
        c == Call::BridgeKusamaMessages(
            BridgeKusamaMessagesCall::update_pallet_parameter(
                BridgeKusamaMessagesParameter::KusamaToPolkadotConversionRate(updated_rate),
            ),
        ),
{
    Call::BridgeKusamaMessages(
        BridgeKusamaMessagesCall::update_pallet_parameter(
            BridgeKusamaMessagesParameter::KusamaToPolkadotConversionRate(updated_rate),
        ),
    )
}

/// The finality pipeline between the two chains: its transaction builder.
pub struct MillauFinalityToTemplate;

impl MillauFinalityToTemplate {
    /// The finality-proof call to submit on the target chain: the header and
    /// its justification, both already encoded, forwarded untouched.
    pub fn make_submit_finality_proof_transaction(header: Vec<u8>, justification: Vec<u8>) -> (c:
        Call)
        ensures
            c matches Call::BridgeKusamaGrandpa(
                BridgeKusamaGrandpaCall::submit_finality_proof(h, j),
            ) && h@ == header@ && j@ == justification@,
    {
        Call::BridgeKusamaGrandpa(
            BridgeKusamaGrandpaCall::submit_finality_proof(header, justification),
        )
    }
}

} // verus!
