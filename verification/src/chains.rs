//! The two chains of the bridge as the message lane sees them: their size
//! and weight ceilings, fee arithmetic, and message sanity checks. The raw
//! numbers are chain configuration, fixed at deployment; every computation
//! on them saturates rather than wraps, since overestimating a cost is safe.

use vstd::prelude::*;
use crate::conversion::{rate_mul_saturating, FixedU128};
use crate::lane::LaneId;

verus! {

/// One second of compute, in weight units.
pub const WEIGHT_PER_SECOND: u64 = 1_000_000_000_000;

/// Maximal weight of a single block: two seconds of compute at a six-second
/// block time.
pub const MAXIMUM_BLOCK_WEIGHT: u64 = 2 * WEIGHT_PER_SECOND;

/// Weight every extrinsic pays before its own logic runs.
pub const BASE_EXTRINSIC_WEIGHT: u64 = 125_000_000;

/// Maximal encoded length of a block, in bytes.
pub const MAXIMAL_BLOCK_LENGTH: u32 = 5_242_880;

/// Extra bytes a storage proof carries beyond the values themselves.
pub const EXTRA_STORAGE_PROOF_SIZE: u32 = 1024;

/// Bytes of a signed transaction beyond the encoded call itself.
pub const TX_EXTRA_BYTES: u32 = 103;

/// Maximal encoded size of an account identifier.
pub const MAXIMAL_ENCODED_ACCOUNT_ID_SIZE: u32 = 32;

/// Most reward entries an inbound lane admits before the oldest must be
/// confirmed away.
pub const MAX_UNREWARDED_RELAYER_ENTRIES_AT_INBOUND_LANE: u64 = 128;

/// Most delivered-but-unconfirmed messages an inbound lane tolerates.
pub const MAX_UNCONFIRMED_MESSAGES_AT_INBOUND_LANE: u64 = 128;

/// Weight of delivering one message of the expected default length with zero
/// dispatch weight.
pub const DEFAULT_MESSAGE_DELIVERY_TX_WEIGHT: u64 = 1_000_000_000;

/// Delivery weight added by every payload byte beyond the expected length.
pub const ADDITIONAL_MESSAGE_BYTE_DELIVERY_WEIGHT: u64 = 25_000;

/// Maximal weight of confirming a single message delivery.
pub const MAX_SINGLE_MESSAGE_DELIVERY_CONFIRMATION_TX_WEIGHT: u64 = 2_000_000_000;

/// Payload length the delivery weight constants were measured at; only bytes
/// beyond it are charged extra.
pub const EXPECTED_DEFAULT_MESSAGE_LENGTH: u32 = 128;

/// Portion of the message fee kept by the relayer, in percent.
pub const RELAYER_FEE_PERCENT: u32 = 10;

/// A value saturated to the largest 32-bit number.
pub open spec fn sat_u32(x: int) -> int {
    if x > u32::MAX as int {
        u32::MAX as int
    } else {
        x
    }
}

/// A value saturated to the largest 64-bit number.
pub open spec fn sat_u64(x: int) -> int {
    if x > u64::MAX as int {
        u64::MAX as int
    } else {
        x
    }
}

/// A value saturated to the largest 128-bit number.
pub open spec fn sat_u128(x: int) -> int {
    if x > u128::MAX as int {
        u128::MAX as int
    } else {
        x
    }
}

/// Estimated on-chain footprint of one transaction: the weight it consumes
/// and its encoded size.
#[derive(Clone, Copy, Debug)]
pub struct MessageTransaction {
    pub dispatch_weight: u64,
    pub size: u32,
}

/// Encoded size of inbound lane data holding `relayers_entries` reward
/// entries with account identifiers of at most `maximal_relayer_id_size`
/// bytes, or `None` on overflow: each entry carries two nonces beside the
/// identifier, and the confirmed watermark follows.
pub fn inbound_lane_data_encoded_size_hint(
    maximal_relayer_id_size: u32,
    relayers_entries: u32,
) -> (r: Option<u32>)
    ensures
        ({
            let exact = relayers_entries as int * (maximal_relayer_id_size as int + 16) + 8;
            match r {
                Some(size) => size == exact && exact <= u32::MAX,
                None => maximal_relayer_id_size + 16 > u32::MAX || exact > u32::MAX,
            }
        }),
{
    let message_nonce_size: u32 = 8;
    let relayer_entry_size = match maximal_relayer_id_size.checked_add(2 * message_nonce_size) {
        Some(s) => s,
        None => {
            return None;
        },
    };
    let relayers_size = match relayers_entries.checked_mul(relayer_entry_size) {
        Some(s) => s,
        None => {
            return None;
        },
    };
    match relayers_size.checked_add(message_nonce_size) {
        Some(s) => Some(s),
        None => None,
    }
}

/// Fee for a transaction of the given weight and size: a base fee for the
/// weight every extrinsic pays, a fixed per-byte fee, and the dispatch
/// weight priced through the chain's (adjustable) fee multiplier. Every step
/// saturates.
pub fn transaction_payment(
    base_extrinsic_weight: u64,
    per_byte_fee: u128,
    multiplier: FixedU128,
    transaction: MessageTransaction,
) -> (fee: u128)
    ensures
        fee as int == sat_u128(
            base_extrinsic_weight + sat_u128(per_byte_fee as int * transaction.size as int)
                + rate_mul_saturating(
                multiplier.inner as int,
                transaction.dispatch_weight as int,
            ),
        ),
{
    let base_fee = base_extrinsic_weight as u128;
    let len_fee = match per_byte_fee.checked_mul(transaction.size as u128) {
        Some(f) => f,
        None => u128::MAX,
    };
    let adjusted_weight_fee = multiplier.saturating_mul_int(transaction.dispatch_weight as u128);
    base_fee.saturating_add(len_fee).saturating_add(adjusted_weight_fee)
}

/// The bridge between the two chains, from the first chain's point of view.
pub struct WithTemplateMessageBridge;

impl WithTemplateMessageBridge {
    /// Prices a bridged-chain balance in this chain's tokens at the given
    /// conversion rate, saturating both the multiplication and the narrowing
    /// to this chain's balance width.
    pub fn bridged_balance_to_this_balance(rate: FixedU128, bridged_balance: u128) -> (r: u64)
        ensures
            r as int == sat_u64(rate_mul_saturating(rate.inner as int, bridged_balance as int)),
    {
        let converted = rate.saturating_mul_int(bridged_balance);
        if converted > u64::MAX as u128 {
            u64::MAX
        } else {
            converted as u64
        }
    }
}

/// This chain, from the message lane's point of view.
pub struct Millau;

impl Millau {
    /// Only the two configured lanes may carry outbound messages.
    pub fn is_outbound_lane_enabled(lane: &LaneId) -> (r: bool)
        ensures
            r == (lane.0@ =~= seq![0u8, 0u8, 0u8, 0u8] || lane.0@ =~= seq![0u8, 0u8, 0u8, 1u8]),
    {
        let b = &lane.0;
        let zero = b[0] == 0 && b[1] == 0 && b[2] == 0 && b[3] == 0;
        let one = b[0] == 0 && b[1] == 0 && b[2] == 0 && b[3] == 1;
        proof {
            if zero {
                assert(lane.0@ =~= seq![0u8, 0u8, 0u8, 0u8]);
            }
            if one {
                assert(lane.0@ =~= seq![0u8, 0u8, 0u8, 1u8]);
            }
        }
        zero || one
    }

    /// This chain does not cap its outbound queue.
    pub fn maximal_pending_messages_at_outbound_lane() -> (r: u64)
        ensures
            r == u64::MAX,
    {
        u64::MAX
    }

    /// Footprint of one delivery-confirmation transaction: the configured
    /// worst-case weight, and the size of one-relayer inbound lane data plus
    /// proof and transaction overhead.
    pub fn estimate_delivery_confirmation_transaction() -> (t: MessageTransaction)
        ensures
            t.dispatch_weight == MAX_SINGLE_MESSAGE_DELIVERY_CONFIRMATION_TX_WEIGHT,
            t.size as int == sat_u32(
                (MAXIMAL_ENCODED_ACCOUNT_ID_SIZE + 16 + 8) + EXTRA_STORAGE_PROOF_SIZE
                    + TX_EXTRA_BYTES,
            ),
    {
        let inbound_data_size = match inbound_lane_data_encoded_size_hint(
            MAXIMAL_ENCODED_ACCOUNT_ID_SIZE,
            1,
        ) {
            Some(s) => s,
            None => u32::MAX,
        };
        MessageTransaction {
            dispatch_weight: MAX_SINGLE_MESSAGE_DELIVERY_CONFIRMATION_TX_WEIGHT,
            size: inbound_data_size.saturating_add(EXTRA_STORAGE_PROOF_SIZE).saturating_add(
                TX_EXTRA_BYTES,
            ),
        }
    }

    /// Fee for a transaction on this chain: per-byte fee and weight-to-fee
    /// are one-to-one here, and the fee multiplier is zero.
    pub fn transaction_payment(transaction: MessageTransaction) -> (fee: u64)
        ensures
            fee as int == sat_u64(BASE_EXTRINSIC_WEIGHT + transaction.size as int),
    {
        let fee = transaction_payment(
            BASE_EXTRINSIC_WEIGHT,
            1,
            FixedU128::from_inner(0),
            transaction,
        );
        proof {
            crate::conversion::lemma_zero_rate(transaction.dispatch_weight as int);
        }
        if fee > u64::MAX as u128 {
            u64::MAX
        } else {
            fee as u64
        }
    }
}

/// The bridged chain, from the message lane's point of view.
pub struct Template;

impl Template {
    /// Largest extrinsic the chain accepts: the normal-dispatch portion
    /// (three quarters) of the block length.
    pub fn maximal_extrinsic_size() -> (r: u32)
        ensures
            r == MAXIMAL_BLOCK_LENGTH / 4 * 3,
    {
        MAXIMAL_BLOCK_LENGTH / 4 * 3
    }

    pub fn max_extrinsic_size() -> (r: u32)
        ensures
            r == MAXIMAL_BLOCK_LENGTH / 4 * 3,
    {
        Template::maximal_extrinsic_size()
    }

    /// Largest weight a single extrinsic may consume: the normal-dispatch
    /// portion of the block weight, less the per-extrinsic base weight.
    pub fn max_extrinsic_weight() -> (r: u64)
        ensures
            r == MAXIMUM_BLOCK_WEIGHT / 4 * 3 - BASE_EXTRINSIC_WEIGHT,
    {
        MAXIMUM_BLOCK_WEIGHT / 4 * 3 - BASE_EXTRINSIC_WEIGHT
    }

    /// Dispatch weights this chain accepts for an incoming message: up to
    /// half the extrinsic weight ceiling, with room kept for future
    /// upgrades. No lower bound: the bridge carries all kinds of messages.
    pub fn message_weight_limits(_message_payload: &Vec<u8>) -> (r: (u64, u64))
        ensures
            r.0 == 0,
            r.1 == (MAXIMUM_BLOCK_WEIGHT / 4 * 3 - BASE_EXTRINSIC_WEIGHT) / 2,
    {
        let upper = Template::max_extrinsic_weight() / 2;
        (0, upper)
    }

    /// Footprint of delivering one message with the given payload and
    /// declared dispatch weight: bytes beyond the expected default length
    /// are charged extra weight, and the proof and transaction overhead is
    /// added to the size.
    pub fn estimate_delivery_transaction(
        message_payload: &Vec<u8>,
        message_dispatch_weight: u64,
    ) -> (t: MessageTransaction)
        ensures
            ({
                let payload_len = sat_u32(message_payload@.len() as int);
                let extra = if payload_len > EXPECTED_DEFAULT_MESSAGE_LENGTH {
                    payload_len - EXPECTED_DEFAULT_MESSAGE_LENGTH
                } else {
                    0
                };
                &&& t.dispatch_weight as int == sat_u64(
                    sat_u64(extra * ADDITIONAL_MESSAGE_BYTE_DELIVERY_WEIGHT)
                        + DEFAULT_MESSAGE_DELIVERY_TX_WEIGHT + message_dispatch_weight,
                )
                &&& t.size as int == sat_u32(
                    payload_len + EXTRA_STORAGE_PROOF_SIZE + TX_EXTRA_BYTES,
                )
            }),
    {
        let message_payload_len: u32 = if message_payload.len() > u32::MAX as usize {
            u32::MAX
        } else {
            message_payload.len() as u32
        };
        let extra_bytes_in_payload = message_payload_len.saturating_sub(
            EXPECTED_DEFAULT_MESSAGE_LENGTH,
        );
        let extra_weight = match (extra_bytes_in_payload as u64).checked_mul(
            ADDITIONAL_MESSAGE_BYTE_DELIVERY_WEIGHT,
        ) {
            Some(w) => w,
            None => u64::MAX,
        };
        MessageTransaction {
            dispatch_weight: extra_weight.saturating_add(
                DEFAULT_MESSAGE_DELIVERY_TX_WEIGHT,
            ).saturating_add(message_dispatch_weight),
            size: message_payload_len.saturating_add(EXTRA_STORAGE_PROOF_SIZE).saturating_add(
                TX_EXTRA_BYTES,
            ),
        }
    }

    /// Fee for a transaction on the bridged chain: same one-to-one testnet
    /// pricing as on this chain, in the bridged chain's wider balance type.
    pub fn transaction_payment(transaction: MessageTransaction) -> (fee: u128)
        ensures
            fee as int == sat_u128(BASE_EXTRINSIC_WEIGHT + transaction.size as int),
    {
        let fee = transaction_payment(
            BASE_EXTRINSIC_WEIGHT,
            1,
            FixedU128::from_inner(0),
            transaction,
        );
        proof {
            crate::conversion::lemma_zero_rate(transaction.dispatch_weight as int);
        }
        fee
    }

    /// Checks an outbound message before it is accepted to the lane: its
    /// declared weight must lie within what the bridged chain accepts, and
    /// its payload must leave room in the delivery transaction.
    pub fn verify_message(declared_weight: u64, payload_len: u32) -> (r: Result<
        (),
        MessageVerificationError,
    >)
        ensures
            ({
                let weight_ok = declared_weight <= (MAXIMUM_BLOCK_WEIGHT / 4 * 3
                    - BASE_EXTRINSIC_WEIGHT) / 2;
                let size_ok = payload_len <= MAXIMAL_BLOCK_LENGTH / 4 * 3 / 3 * 2;
                match r {
                    Ok(()) => weight_ok && size_ok,
                    Err(e) => {
                        &&& (e == MessageVerificationError::WeightOutOfLimits <==> !weight_ok)
                        &&& (e == MessageVerificationError::MessageTooLarge <==> weight_ok
                            && !size_ok)
                    },
                }
            }),
    {
        let limits = Template::message_weight_limits(&Vec::new());
        if declared_weight > limits.1 {
            return Err(MessageVerificationError::WeightOutOfLimits);
        }
        let maximal_message_size = Template::maximal_extrinsic_size() / 3 * 2;
        if payload_len > maximal_message_size {
            return Err(MessageVerificationError::MessageTooLarge);
        }
        Ok(())
    }
}

/// Why an outbound message was rejected before it entered the lane.
#[derive(Clone, Copy, Debug, PartialEq, Eq, Structural)]
pub enum MessageVerificationError {
    /// The declared dispatch weight is outside the accepted limits.
    WeightOutOfLimits,
    /// The payload would not fit in a delivery transaction.
    MessageTooLarge,
}

} // verus!
