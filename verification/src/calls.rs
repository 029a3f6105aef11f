//! The subset of the bridged runtime's `Call` enum that this relay submits,
//! with its exact wire encoding. Every variant carries the stable
//! small-integer tag the receiving runtime expects; a mismatch is a hard
//! submission failure, so each encoder's contract gives the bytes in full.

use vstd::prelude::*;
use crate::lane::{AccountId, LaneId};
use crate::conversion::FixedU128;
use crate::scale::{
    bytes_with_len, compact_bytes, le_bytes, encode_bytes, encode_compact_u64, encode_compact_u128,
    encode_raw, encode_u32, encode_u64, encode_u128, decode_compact, lemma_compact_shape,
    lemma_compact_unique,
};

verus! {

/// Chain identifier of the source chain, as used in cross-chain digests.
pub const POLKADOT_CHAIN_ID: [u8; 4] = [0x70, 0x64, 0x6f, 0x74];

/// Chain identifier of the target chain, as used in cross-chain digests.
pub const KUSAMA_CHAIN_ID: [u8; 4] = [0x6b, 0x73, 0x6d, 0x61];

/// A recipient address: the identity variant of the chain's multi-address,
/// which encodes as a zero tag before the raw account bytes.
#[derive(Clone, Copy, Debug)]
pub struct AccountAddress(pub AccountId);

/// Proof that a range of messages sits in the bridged chain's outbound lane
/// storage under the given (finalized) header.
#[derive(Clone, Debug)]
pub struct FromBridgedChainMessagesProof {
    /// Hash of the bridged header this proof is anchored to.
    pub bridged_header_hash: [u8; 32],
    /// The storage trie nodes that witness the messages.
    pub storage_proof: Vec<Vec<u8>>,
    pub lane: LaneId,
    pub nonces_start: u64,
    pub nonces_end: u64,
}

/// Proof of the bridged chain's inbound lane state, carried back to the
/// source chain to confirm deliveries and release relayer rewards.
#[derive(Clone, Debug)]
pub struct FromBridgedChainMessagesDeliveryProof {
    /// Hash of the bridged header this proof is anchored to.
    pub bridged_header_hash: [u8; 32],
    /// The storage trie nodes that witness the inbound lane state.
    pub storage_proof: Vec<Vec<u8>>,
    pub lane: LaneId,
}

/// Snapshot of the target chain's unrewarded-relayers bookkeeping, submitted
/// beside a delivery proof so the source chain can check it prunes the right
/// entries.
#[derive(Clone, Copy, Debug)]
pub struct UnrewardedRelayersState {
    pub unrewarded_relayer_entries: u64,
    pub messages_in_oldest_entry: u64,
    pub total_messages: u64,
}

/// A parameter update for the messages pallet.
#[derive(Clone, Copy, Debug)]
pub enum BridgeKusamaMessagesParameter {
    KusamaToPolkadotConversionRate(FixedU128),
}

#[derive(Clone, Debug)]
#[allow(non_camel_case_types)]
pub enum SystemCall {
    remark(Vec<u8>),
}

#[derive(Clone, Debug)]
#[allow(non_camel_case_types)]
pub enum BalancesCall {
    /// Transfer `1` (a compact-encoded balance) to `0` (a multi-address).
    transfer(AccountAddress, u128),
}

/// Calls of the bridged chain's header-chain pallet. The header and the
/// justification travel pre-encoded: the relay forwards them, it does not
/// inspect them.
#[derive(Clone, Debug)]
#[allow(non_camel_case_types)]
pub enum BridgeKusamaGrandpaCall {
    submit_finality_proof(Vec<u8>, Vec<u8>),
    initialize(Vec<u8>),
}

/// Calls of the bridged chain's messages pallet. The message payload of
/// `send_message` travels pre-encoded.
#[derive(Clone, Debug)]
#[allow(non_camel_case_types)]
pub enum BridgeKusamaMessagesCall {
    update_pallet_parameter(BridgeKusamaMessagesParameter),
    send_message(LaneId, Vec<u8>, u128),
    receive_messages_proof(AccountId, FromBridgedChainMessagesProof, u32, u64),
    receive_messages_delivery_proof(FromBridgedChainMessagesDeliveryProof, UnrewardedRelayersState),
}

/// The subset of the runtime's `Call` enum this relay constructs. The tags
/// must stay in sync with the runtime's pallet indices.
#[derive(Clone, Debug)]
pub enum Call {
    System(SystemCall),
    Balances(BalancesCall),
    BridgeKusamaGrandpa(BridgeKusamaGrandpaCall),
    BridgeKusamaMessages(BridgeKusamaMessagesCall),
}

/// Encoding of a list of byte strings: each item length-prefixed, after a
/// compact count.
pub open spec fn nested_bytes(items: Seq<Seq<u8>>) -> Seq<u8>
    decreases items.len(),
{
    if items.len() == 0 {
        Seq::empty()
    } else {
        bytes_with_len(items[0]) + nested_bytes(items.drop_first())
    }
}

pub open spec fn byte_lists_bytes(items: Seq<Seq<u8>>) -> Seq<u8> {
    compact_bytes(items.len() as int) + nested_bytes(items)
}

/// The view of a storage proof as a sequence of byte strings.
pub open spec fn storage_proof_view(sp: Seq<Vec<u8>>) -> Seq<Seq<u8>> {
    sp.map_values(|v: Vec<u8>| v@)
}

/// Wire encoding of a messages proof.
pub open spec fn messages_proof_bytes(p: FromBridgedChainMessagesProof) -> Seq<u8> {
    p.bridged_header_hash@ + byte_lists_bytes(storage_proof_view(p.storage_proof@)) + p.lane.0@
        + le_bytes(p.nonces_start as int, 8) + le_bytes(p.nonces_end as int, 8)
}

/// Wire encoding of a delivery proof.
pub open spec fn delivery_proof_bytes(p: FromBridgedChainMessagesDeliveryProof) -> Seq<u8> {
    p.bridged_header_hash@ + byte_lists_bytes(storage_proof_view(p.storage_proof@)) + p.lane.0@
}

/// Wire encoding of the unrewarded-relayers snapshot.
pub open spec fn relayers_state_bytes(s: UnrewardedRelayersState) -> Seq<u8> {
    le_bytes(s.unrewarded_relayer_entries as int, 8) + le_bytes(
        s.messages_in_oldest_entry as int,
        8,
    ) + le_bytes(s.total_messages as int, 8)
}

/// Wire encoding of a call: the pallet tag, the call tag, then the fields.
pub open spec fn call_bytes(c: Call) -> Seq<u8> {
    match c {
        Call::System(SystemCall::remark(data)) => seq![0u8, 1u8] + bytes_with_len(data@),
        Call::Balances(BalancesCall::transfer(addr, amount)) => seq![5u8, 0u8, 0u8] + addr.0.0@
            + compact_bytes(amount as int),
        Call::BridgeKusamaGrandpa(BridgeKusamaGrandpaCall::submit_finality_proof(header, just)) =>
            seq![110u8, 0u8] + header@ + just@,
        Call::BridgeKusamaGrandpa(BridgeKusamaGrandpaCall::initialize(data)) => seq![110u8, 1u8]
            + data@,
        Call::BridgeKusamaMessages(BridgeKusamaMessagesCall::update_pallet_parameter(p)) => {
            match p {
                BridgeKusamaMessagesParameter::KusamaToPolkadotConversionRate(rate) => seq![
                    111u8,
                    2u8,
                    0u8,
                ] + le_bytes(rate.inner as int, 16),
            }
        },
        Call::BridgeKusamaMessages(BridgeKusamaMessagesCall::send_message(lane, payload, fee)) =>
            seq![111u8, 3u8] + lane.0@ + payload@ + le_bytes(fee as int, 16),
        Call::BridgeKusamaMessages(
            BridgeKusamaMessagesCall::receive_messages_proof(relayer, p, count, weight),
        ) => seq![111u8, 5u8] + relayer.0@ + messages_proof_bytes(p) + le_bytes(count as int, 4)
            + le_bytes(weight as int, 8),
        Call::BridgeKusamaMessages(
            BridgeKusamaMessagesCall::receive_messages_delivery_proof(p, rs),
        ) => seq![111u8, 6u8] + delivery_proof_bytes(p) + relayers_state_bytes(rs),
    }
}

/// Appends the encoding of a list of byte strings.
fn encode_byte_lists(items: &Vec<Vec<u8>>, out: &mut Vec<u8>)
    ensures
        final(out)@ == old(out)@ + byte_lists_bytes(storage_proof_view(items@)),
{
    encode_compact_u64(items.len() as u64, out);
    let ghost all = storage_proof_view(items@);
    let mut i: usize = 0;
    proof {
        assert(nested_bytes_prefix(all, 0) =~= Seq::empty());
    }
    while i < items.len()
        invariant
            i <= items@.len(),
            all == storage_proof_view(items@),
            all.len() == items@.len(),
            forall|j: int| 0 <= j < items@.len() ==> all[j] == items@[j]@,
            out@ == old(out)@ + compact_bytes(items@.len() as int) + nested_bytes_prefix(
                all,
                i as int,
            ),
        decreases items@.len() - i,
    {
        encode_bytes(&items[i], out);
        proof {
            lemma_nested_bytes_prefix_step(all, i as int);
        }
        i = i + 1;
    }
    proof {
        lemma_nested_bytes_prefix_full(all);
    }
}

/// The encoding of the first `i` byte strings.
pub open spec fn nested_bytes_prefix(items: Seq<Seq<u8>>, i: int) -> Seq<u8>
    decreases i,
{
    if i <= 0 {
        Seq::empty()
    } else {
        nested_bytes_prefix(items, i - 1) + bytes_with_len(items[i - 1])
    }
}

proof fn lemma_nested_bytes_prefix_step(items: Seq<Seq<u8>>, i: int)
    requires
        0 <= i,
    ensures
        nested_bytes_prefix(items, i + 1) =~= nested_bytes_prefix(items, i) + bytes_with_len(
            items[i],
        ),
{
}

proof fn lemma_nested_bytes_prefix_full(items: Seq<Seq<u8>>)
    ensures
        nested_bytes_prefix(items, items.len() as int) =~= nested_bytes(items),
    decreases items.len(),
{
    if items.len() > 0 {
        lemma_nested_bytes_prefix_full(items.drop_first());
        lemma_nested_bytes_shift(items, items.len() as int);
    }
}

/// A prefix of the tail is the same bytes as the prefix one longer of the
/// whole, minus the head.
proof fn lemma_nested_bytes_shift(items: Seq<Seq<u8>>, i: int)
    requires
        1 <= i <= items.len(),
    ensures
        nested_bytes_prefix(items, i) =~= bytes_with_len(items[0]) + nested_bytes_prefix(
            items.drop_first(),
            i - 1,
        ),
    decreases i,
{
    if i == 1 {
        assert(nested_bytes_prefix(items, 0) =~= Seq::empty());
        assert(nested_bytes_prefix(items.drop_first(), 0) =~= Seq::empty());
    } else {
        lemma_nested_bytes_shift(items, i - 1);
        assert(items.drop_first()[i - 2] == items[i - 1]);
    }
}

/// Appends the wire encoding of a messages proof.
pub fn encode_messages_proof(p: &FromBridgedChainMessagesProof, out: &mut Vec<u8>)
    ensures
        final(out)@ == old(out)@ + messages_proof_bytes(*p),
{
    encode_raw(p.bridged_header_hash.as_slice(), out);
    encode_byte_lists(&p.storage_proof, out);
    encode_raw(p.lane.0.as_slice(), out);
    encode_u64(p.nonces_start, out);
    encode_u64(p.nonces_end, out);
}

/// Appends the wire encoding of a delivery proof.
pub fn encode_delivery_proof(p: &FromBridgedChainMessagesDeliveryProof, out: &mut Vec<u8>)
    ensures
        final(out)@ == old(out)@ + delivery_proof_bytes(*p),
{
    encode_raw(p.bridged_header_hash.as_slice(), out);
    encode_byte_lists(&p.storage_proof, out);
    encode_raw(p.lane.0.as_slice(), out);
}

/// Appends the wire encoding of a call.
pub fn encode_call(c: &Call, out: &mut Vec<u8>)
    ensures
        final(out)@ == old(out)@ + call_bytes(*c),
{
    match c {
        Call::System(SystemCall::remark(data)) => {
            out.push(0);
            out.push(1);
            proof {
                assert(out@ =~= old(out)@ + seq![0u8, 1u8]);
            }
            encode_bytes(data, out);
        },
        Call::Balances(BalancesCall::transfer(addr, amount)) => {
            out.push(5);
            out.push(0);
            out.push(0);
            proof {
                assert(out@ =~= old(out)@ + seq![5u8, 0u8, 0u8]);
            }
            encode_raw(addr.0.0.as_slice(), out);
            encode_compact_u128(*amount, out);
        },
        Call::BridgeKusamaGrandpa(BridgeKusamaGrandpaCall::submit_finality_proof(header, just)) => {
            out.push(110);
            out.push(0);
            proof {
                assert(out@ =~= old(out)@ + seq![110u8, 0u8]);
            }
            encode_raw(header.as_slice(), out);
            encode_raw(just.as_slice(), out);
        },
        Call::BridgeKusamaGrandpa(BridgeKusamaGrandpaCall::initialize(data)) => {
            out.push(110);
            out.push(1);
            proof {
                assert(out@ =~= old(out)@ + seq![110u8, 1u8]);
            }
            encode_raw(data.as_slice(), out);
        },
        Call::BridgeKusamaMessages(BridgeKusamaMessagesCall::update_pallet_parameter(p)) => {
            out.push(111);
            out.push(2);
            out.push(0);
            proof {
                assert(out@ =~= old(out)@ + seq![111u8, 2u8, 0u8]);
            }
            match p {
                BridgeKusamaMessagesParameter::KusamaToPolkadotConversionRate(rate) => {
                    encode_u128(rate.inner, out);
                },
            }
        },
        Call::BridgeKusamaMessages(BridgeKusamaMessagesCall::send_message(lane, payload, fee)) => {
            out.push(111);
            out.push(3);
            proof {
                assert(out@ =~= old(out)@ + seq![111u8, 3u8]);
            }
            encode_raw(lane.0.as_slice(), out);
            encode_raw(payload.as_slice(), out);
            encode_u128(*fee, out);
        },
        Call::BridgeKusamaMessages(
            BridgeKusamaMessagesCall::receive_messages_proof(relayer, p, count, weight),
        ) => {
            out.push(111);
            out.push(5);
            proof {
                assert(out@ =~= old(out)@ + seq![111u8, 5u8]);
            }
            encode_raw(relayer.0.as_slice(), out);
            encode_messages_proof(p, out);
            encode_u32(*count, out);
            encode_u64(*weight, out);
        },
        Call::BridgeKusamaMessages(
            BridgeKusamaMessagesCall::receive_messages_delivery_proof(p, rs),
        ) => {
            out.push(111);
            out.push(6);
            proof {
                assert(out@ =~= old(out)@ + seq![111u8, 6u8]);
            }
            encode_delivery_proof(p, out);
            encode_u64(rs.unrewarded_relayer_entries, out);
            encode_u64(rs.messages_in_oldest_entry, out);
            encode_u64(rs.total_messages, out);
        },
    }
}

/// The variants whose encodings are self-delimiting, so that decoding them
/// is possible at all: a system remark and a balance transfer. The bridge
/// variants carry pre-encoded fields whose length their bytes do not
/// delimit.
pub open spec fn call_decodable(c: Call) -> bool {
    ||| c matches Call::System(SystemCall::remark(_))
    ||| c matches Call::Balances(BalancesCall::transfer(_, _))
}

/// Shape of a decodable call's encoding: the tags, where the embedded
/// compact integer sits, and the total length.
proof fn lemma_decodable_call_shape(c: Call)
    requires
        call_decodable(c),
    ensures
        ({
            let s = call_bytes(c);
            &&& s.len() >= 3
            &&& (c matches Call::System(SystemCall::remark(data)) ==> {
                let cl = compact_bytes(data@.len() as int).len();
                &&& data@.len() <= u128::MAX
                &&& s[0] == 0 && s[1] == 1
                &&& s.len() == 2 + cl + data@.len()
                &&& s.subrange(2, 2 + cl as int) == compact_bytes(data@.len() as int)
            })
            &&& (c matches Call::Balances(BalancesCall::transfer(addr, amount)) ==> {
                let cl = compact_bytes(amount as int).len();
                &&& s[0] == 5 && s[1] == 0 && s[2] == 0
                &&& s.len() == 35 + cl
                &&& s.subrange(35, 35 + cl as int) == compact_bytes(amount as int)
            })
        }),
{
    let s = call_bytes(c);
    match c {
        Call::System(SystemCall::remark(data)) => {
            assert(data@.len() == vstd::std_specs::vec::spec_vec_len(&data));
            lemma_compact_shape(data@.len() as int);
            let cl = compact_bytes(data@.len() as int).len();
            assert(s =~= seq![0u8, 1u8] + compact_bytes(data@.len() as int) + data@);
            assert(s.subrange(2, 2 + cl as int) =~= compact_bytes(data@.len() as int));
        },
        Call::Balances(BalancesCall::transfer(addr, amount)) => {
            lemma_compact_shape(amount as int);
            let cl = compact_bytes(amount as int).len();
            assert(s =~= seq![5u8, 0u8, 0u8] + addr.0.0@ + compact_bytes(amount as int));
            assert(s.subrange(35, 35 + cl as int) =~= compact_bytes(amount as int));
        },
        _ => {},
    }
}

/// Decodes a call from its wire bytes. Only the two self-delimiting
/// variants -- a system remark and a balance transfer -- can be recovered;
/// the bridge variants carry pre-encoded fields whose length the bytes do
/// not delimit, so they are rejected. On success the whole input was
/// consumed, and re-encoding the call gives the input back byte for byte;
/// on failure no decodable call encodes to the input.
pub fn decode_call(bytes: &Vec<u8>) -> (r: Option<Call>)
    ensures
        match r {
            Some(c) => call_bytes(c) =~= bytes@,
            None => forall|c: Call| #[trigger] call_decodable(c) ==> call_bytes(c) != bytes@,
        },
{
    let len = bytes.len();
    if len < 2 {
        proof {
            assert forall|c: Call| call_decodable(c) && call_bytes(c) == bytes@ implies false by {
                lemma_decodable_call_shape(c);
            }
        }
        return None;
    }
    let pallet = bytes[0];
    if pallet == 0 {
        if bytes[1] != 1 {
            proof {
                assert forall|c: Call|
                    call_decodable(c) && call_bytes(c) == bytes@ implies false by {
                    lemma_decodable_call_shape(c);
                }
            }
            return None;
        }
        match decode_compact(bytes, 2) {
            None => {
                proof {
                    assert forall|c: Call|
                        call_decodable(c) && call_bytes(c) == bytes@ implies false by {
                        lemma_decodable_call_shape(c);
                        if let Call::System(SystemCall::remark(data)) = c {
                            let dl = data@.len() as int;
                            let cl = compact_bytes(dl).len() as int;
                            assert(bytes@.subrange(2, 2 + cl) == compact_bytes(dl));
                        }
                    }
                }
                None
            },
            Some((l, p)) => {
                if l != (len - p) as u128 {
                    proof {
                        assert forall|c: Call|
                            call_decodable(c) && call_bytes(c) == bytes@ implies false by {
                            lemma_decodable_call_shape(c);
                            if let Call::System(SystemCall::remark(data)) = c {
                                let dl = data@.len() as int;
                                let cl = compact_bytes(dl).len() as int;
                                assert(bytes@.subrange(2, 2 + cl) == compact_bytes(dl));
                                lemma_compact_unique(
                                    l as int,
                                    dl,
                                    bytes@,
                                    2,
                                    p as int,
                                    2 + cl,
                                );
                            }
                        }
                    }
                    return None;
                }
                let mut data: Vec<u8> = Vec::new();
                let mut i: usize = p;
                while i < len
                    invariant
                        p <= i <= len,
                        len == bytes@.len(),
                        data@ =~= bytes@.subrange(p as int, i as int),
                    decreases len - i,
                {
                    data.push(bytes[i]);
                    proof {
                        assert(data@ =~= bytes@.subrange(p as int, i + 1 as int));
                    }
                    i = i + 1;
                }
                proof {
                    assert(bytes@ =~= seq![bytes@[0], bytes@[1]] + bytes@.subrange(2, p as int)
                        + bytes@.subrange(p as int, len as int));
                }
                Some(Call::System(SystemCall::remark(data)))
            },
        }
    } else if pallet == 5 {
        if bytes[1] != 0 {
            proof {
                assert forall|c: Call|
                    call_decodable(c) && call_bytes(c) == bytes@ implies false by {
                    lemma_decodable_call_shape(c);
                }
            }
            return None;
        }
        if len < 35 {
            proof {
                assert forall|c: Call|
                    call_decodable(c) && call_bytes(c) == bytes@ implies false by {
                    lemma_decodable_call_shape(c);
                    if let Call::Balances(BalancesCall::transfer(addr, amount)) = c {
                        lemma_compact_shape(amount as int);
                    }
                }
            }
            return None;
        }
        if bytes[2] != 0 {
            proof {
                assert forall|c: Call|
                    call_decodable(c) && call_bytes(c) == bytes@ implies false by {
                    lemma_decodable_call_shape(c);
                }
            }
            return None;
        }
        let mut acct: [u8; 32] = [0u8; 32];
        let mut i: usize = 0;
        while i < 32
            invariant
                i <= 32,
                len == bytes@.len(),
                35 <= len,
                forall|j: int| 0 <= j < i ==> acct@[j] == bytes@[3 + j],
            decreases 32 - i,
        {
            acct[i] = bytes[3 + i];
            i = i + 1;
        }
        match decode_compact(bytes, 35) {
            None => {
                proof {
                    assert forall|c: Call|
                        call_decodable(c) && call_bytes(c) == bytes@ implies false by {
                        lemma_decodable_call_shape(c);
                        if let Call::Balances(BalancesCall::transfer(addr, amount)) = c {
                            let cl = compact_bytes(amount as int).len() as int;
                            assert(bytes@.subrange(35, 35 + cl) == compact_bytes(amount as int));
                        }
                    }
                }
                None
            },
            Some((amount, p)) => {
                if p != len {
                    proof {
                        assert forall|c: Call|
                            call_decodable(c) && call_bytes(c) == bytes@ implies false by {
                            lemma_decodable_call_shape(c);
                            if let Call::Balances(BalancesCall::transfer(addr, amount2)) = c {
                                let cl = compact_bytes(amount2 as int).len() as int;
                                assert(bytes@.subrange(35, 35 + cl) == compact_bytes(
                                    amount2 as int,
                                ));
                                lemma_compact_unique(
                                    amount as int,
                                    amount2 as int,
                                    bytes@,
                                    35,
                                    p as int,
                                    35 + cl,
                                );
                            }
                        }
                    }
                    return None;
                }
                proof {
                    assert(acct@ =~= bytes@.subrange(3, 35));
                    assert(bytes@ =~= seq![bytes@[0], bytes@[1], bytes@[2]] + bytes@.subrange(3, 35)
                        + bytes@.subrange(35, len as int));
                }
                Some(
                    Call::Balances(
                        BalancesCall::transfer(AccountAddress(AccountId(acct)), amount),
                    ),
                )
            },
        }
    } else {
        proof {
            assert forall|c: Call| call_decodable(c) && call_bytes(c) == bytes@ implies false by {
                lemma_decodable_call_shape(c);
            }
        }
        None
    }
}

/// A byte vector that should be signed by the target-chain account: the call,
/// the claimed account, the target chain's spec version, and the two chain
/// identifiers, all concatenated in their wire encodings. Whoever signs it
/// proves they control the target-chain account named in it.
pub fn polkadot_to_kusama_account_ownership_digest(
    kusama_call: &Call,
    kusam_account_id: AccountId,
    kusama_spec_version: u32,
) -> (r: Vec<u8>)
    ensures
        r@ == call_bytes(*kusama_call) + kusam_account_id.0@ + le_bytes(
            kusama_spec_version as int,
            4,
        ) + POLKADOT_CHAIN_ID@ + KUSAMA_CHAIN_ID@,
{
    let mut out: Vec<u8> = Vec::new();
    encode_call(kusama_call, &mut out);
    encode_raw(kusam_account_id.0.as_slice(), &mut out);
    encode_u32(kusama_spec_version, &mut out);
    let source_id = POLKADOT_CHAIN_ID;
    let target_id = KUSAMA_CHAIN_ID;
    encode_raw(source_id.as_slice(), &mut out);
    encode_raw(target_id.as_slice(), &mut out);
    out
}

} // verus!
