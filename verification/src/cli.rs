//! Turning operator-level call descriptions into runtime calls: raw bytes
//! are decoded and validated, the other forms are assembled directly.

use vstd::prelude::*;
use crate::calls::{
    call_bytes, call_decodable, decode_call, AccountAddress, BalancesCall, BridgeKusamaMessagesCall,
    Call, SystemCall,
};
use crate::chains::{Template, BASE_EXTRINSIC_WEIGHT, MAXIMUM_BLOCK_WEIGHT, MAXIMAL_BLOCK_LENGTH};
use crate::lane::{AccountId, LaneId};

verus! {

/// Index under which the lane from the bridged chain to this chain is
/// registered with the operator tooling.
pub const TEMPLATE_TO_MILLAU_INDEX: u8 = 0;

/// An operator-level description of a call to submit.
#[derive(Clone, Debug)]
pub enum CallRequest {
    /// Pre-encoded call bytes, to be decoded and validated.
    Raw { data: Vec<u8> },
    /// A remark with the given payload, or an empty one.
    Remark { remark_payload: Option<Vec<u8>> },
    /// A balance transfer.
    Transfer { recipient: AccountId, amount: u128 },
    /// A message to send over a bridge lane, with its pre-encoded payload
    /// and declared fee.
    BridgeSendMessage { lane: LaneId, payload: Vec<u8>, fee: u128, bridge_instance_index: u8 },
}

/// Why an operator-level call could not be encoded.
#[derive(Clone, Copy, Debug, PartialEq, Eq, Structural)]
pub enum EncodeCallError {
    /// The raw bytes are not a decodable call.
    InvalidRawCall,
    /// No bridge pallet is registered under the given instance index.
    UnsupportedBridgeInstance,
    /// This chain has no bridge pallet to send messages through.
    BridgeSendMessageNotSupported,
    /// This chain cannot originate messages.
    SendingMessagesNotSupported,
}

/// What a successfully encoded call must look like for each request form.
pub open spec fn encoded_call_matches(request: CallRequest, c: Call) -> bool {
    match request {
        CallRequest::Raw { data } => call_bytes(c) == data@,
        CallRequest::Remark { remark_payload } => {
            &&& c matches Call::System(SystemCall::remark(body))
            &&& body@ == match remark_payload {
                Some(p) => p@,
                None => Seq::<u8>::empty(),
            }
        },
        CallRequest::Transfer { recipient, amount } => c matches Call::Balances(
            BalancesCall::transfer(addr, a),
        ) && addr.0.0@ == recipient.0@ && a == amount,
        CallRequest::BridgeSendMessage { lane, payload, fee, .. } => c matches Call::BridgeKusamaMessages(
            BridgeKusamaMessagesCall::send_message(l, p, f),
        ) && l.0@ == lane.0@ && p@ == payload@ && f == fee,
    }
}

impl Template {
    /// SS58 address format of this chain.
    pub fn ss58_format() -> (r: u16)
        ensures
            r == 22,
    {
        22
    }

    /// This chain cannot originate bridge messages yet, so no weight is
    /// available for them.
    pub fn cli_max_extrinsic_weight() -> (r: u64)
        ensures
            r == 0,
    {
        0
    }

    /// Sending messages from this chain is not supported yet.
    pub fn encode_message(_message: &Vec<u8>) -> (r: Result<Vec<u8>, EncodeCallError>)
        ensures
            r matches Err(e) && e == EncodeCallError::SendingMessagesNotSupported,
    {
        Err(EncodeCallError::SendingMessagesNotSupported)
    }

    /// Turns an operator-level request into a runtime call. Raw bytes are
    /// accepted exactly when some decodable call encodes to them; a bridged
    /// message must name the one registered bridge instance, and its payload
    /// travels pre-encoded for the receiving chain's dispatcher to decode.
    pub fn encode_call(request: &CallRequest) -> (r: Result<Call, EncodeCallError>)
        ensures
            match *request {
                CallRequest::Raw { data } => match r {
                    Ok(c) => encoded_call_matches(*request, c),
                    Err(e) => e == EncodeCallError::InvalidRawCall && (forall|c: Call|
                        #[trigger] call_decodable(c) ==> call_bytes(c) != data@),
                },
                CallRequest::BridgeSendMessage { bridge_instance_index, .. } => {
                    if bridge_instance_index == TEMPLATE_TO_MILLAU_INDEX {
                        r matches Ok(c) && encoded_call_matches(*request, c)
                    } else {
                        r matches Err(e) && e == EncodeCallError::UnsupportedBridgeInstance
                    }
                },
                _ => r matches Ok(c) && encoded_call_matches(*request, c),
            },
    {
        match request {
            CallRequest::Raw { data } => {
                match decode_call(data) {
                    Some(c) => Ok(c),
                    None => Err(EncodeCallError::InvalidRawCall),
                }
            },
            CallRequest::Remark { remark_payload } => {
                let body: Vec<u8> = match remark_payload {
                    Some(p) => p.clone(),
                    None => Vec::new(),
                };
                Ok(Call::System(SystemCall::remark(body)))
            },
            CallRequest::Transfer { recipient, amount } => {
                Ok(Call::Balances(BalancesCall::transfer(AccountAddress(*recipient), *amount)))
            },
            CallRequest::BridgeSendMessage { lane, payload, fee, bridge_instance_index } => {
                if *bridge_instance_index == TEMPLATE_TO_MILLAU_INDEX {
                    let body = payload.clone();
                    Ok(
                        Call::BridgeKusamaMessages(
                            BridgeKusamaMessagesCall::send_message(*lane, body, *fee),
                        ),
                    )
                } else {
                    Err(EncodeCallError::UnsupportedBridgeInstance)
                }
            },
        }
    }
}

/// The neighbouring parachain, as the operator tooling sees it.
pub struct RialtoParachain;

impl RialtoParachain {
    /// SS58 address format of the parachain.
    pub fn ss58_format() -> (r: u16)
        ensures
            r == 48,
    {
        48
    }

    /// Largest extrinsic the parachain accepts.
    pub fn max_extrinsic_size() -> (r: u32)
        ensures
            r == MAXIMAL_BLOCK_LENGTH / 4 * 3,
    {
        MAXIMAL_BLOCK_LENGTH / 4 * 3
    }

    /// Largest weight a single extrinsic may consume on the parachain.
    pub fn max_extrinsic_weight() -> (r: u64)
        ensures
            r == MAXIMUM_BLOCK_WEIGHT / 4 * 3 - BASE_EXTRINSIC_WEIGHT,
    {
        MAXIMUM_BLOCK_WEIGHT / 4 * 3 - BASE_EXTRINSIC_WEIGHT
    }

    /// Sending messages from the parachain is not supported yet.
    pub fn encode_message(_message: &Vec<u8>) -> (r: Result<Vec<u8>, EncodeCallError>)
        ensures
            r matches Err(e) && e == EncodeCallError::SendingMessagesNotSupported,
    {
        Err(EncodeCallError::SendingMessagesNotSupported)
    }

    /// Turns an operator-level request into a runtime call. Raw bytes are
    /// accepted exactly when some decodable call encodes to them; every
    /// bridged-message request is rejected, since the parachain has no
    /// bridge pallet yet.
    pub fn encode_call(request: &CallRequest) -> (r: Result<Call, EncodeCallError>)
        ensures
            match *request {
                CallRequest::Raw { data } => match r {
                    Ok(c) => encoded_call_matches(*request, c),
                    Err(e) => e == EncodeCallError::InvalidRawCall && (forall|c: Call|
                        #[trigger] call_decodable(c) ==> call_bytes(c) != data@),
                },
                CallRequest::BridgeSendMessage { .. } => r matches Err(e) && e
                    == EncodeCallError::BridgeSendMessageNotSupported,
                _ => r matches Ok(c) && encoded_call_matches(*request, c),
            },
    {
        match request {
            CallRequest::Raw { data } => {
                match decode_call(data) {
                    Some(c) => Ok(c),
                    None => Err(EncodeCallError::InvalidRawCall),
                }
            },
            CallRequest::Remark { remark_payload } => {
                let body: Vec<u8> = match remark_payload {
                    Some(p) => p.clone(),
                    None => Vec::new(),
                };
                Ok(Call::System(SystemCall::remark(body)))
            },
            CallRequest::Transfer { recipient, amount } => {
                Ok(Call::Balances(BalancesCall::transfer(AccountAddress(*recipient), *amount)))
            },
            CallRequest::BridgeSendMessage { .. } => {
                Err(EncodeCallError::BridgeSendMessageNotSupported)
            },
        }
    }
}

} // verus!
