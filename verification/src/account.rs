//! Deriving the target-chain account that acts for a source-chain account,
//! and computing the storage keys the relay reads. The hash functions come
//! from the chain's own hashing crate; everything around them -- the exact
//! preimages and key layouts -- is built and checked here.

use vstd::prelude::*;
use crate::lane::AccountId;
use crate::scale::{bytes_with_len, compact_bytes, encode_compact_u64, encode_raw};

verus! {

/// Identifier of the bridge instance with this chain's neighbour.
pub const MILLAU_BRIDGE_INSTANCE: [u8; 4] = [0x6d, 0x6c, 0x61, 0x75];

/// Tag mixed into the derivation of a bridged account.
pub const ACCOUNT_DERIVATION_PREFIX: [u8; 40] = [
    0x70, 0x61, 0x6c, 0x6c, 0x65, 0x74, 0x2d, 0x62, 0x72, 0x69, 0x64, 0x67, 0x65, 0x2f, 0x61, 0x63,
    0x63, 0x6f, 0x75, 0x6e, 0x74, 0x2d, 0x64, 0x65, 0x72, 0x69, 0x76, 0x61, 0x74, 0x69, 0x6f, 0x6e,
    0x2f, 0x61, 0x63, 0x63, 0x6f, 0x75, 0x6e, 0x74,
];

/// Tag mixed into the derivation of the bridged chain's root origin.
pub const ROOT_ACCOUNT_DERIVATION_PREFIX: [u8; 37] = [
    0x70, 0x61, 0x6c, 0x6c, 0x65, 0x74, 0x2d, 0x62, 0x72, 0x69, 0x64, 0x67, 0x65, 0x2f, 0x61, 0x63,
    0x63, 0x6f, 0x75, 0x6e, 0x74, 0x2d, 0x64, 0x65, 0x72, 0x69, 0x76, 0x61, 0x74, 0x69, 0x6f, 0x6e,
    0x2f, 0x72, 0x6f, 0x6f, 0x74,
];

/// The digest blake2b with a 256-bit output computes for the given bytes.
pub uninterp spec fn blake2_256_of(data: Seq<u8>) -> Seq<u8>;

/// The digest blake2b with a 128-bit output computes for the given bytes.
pub uninterp spec fn blake2_128_of(data: Seq<u8>) -> Seq<u8>;

/// The digest xxHash64 twice over computes for the given bytes.
pub uninterp spec fn twox_128_of(data: Seq<u8>) -> Seq<u8>;

/// Relies on sp_crypto_hashing::blake2_256: a 32-byte digest that depends on
/// the input bytes alone.
#[verifier::external_body]
fn blake2_256(data: &Vec<u8>) -> (r: [u8; 32])
    ensures
        r@ == blake2_256_of(data@),
{
    sp_crypto_hashing::blake2_256(data.as_slice())
}

/// Relies on sp_crypto_hashing::blake2_128: a 16-byte digest that depends on
/// the input bytes alone.
#[verifier::external_body]
fn blake2_128(data: &Vec<u8>) -> (r: [u8; 16])
    ensures
        r@ == blake2_128_of(data@),
{
    sp_crypto_hashing::blake2_128(data.as_slice())
}

/// Relies on sp_crypto_hashing::twox_128: a 16-byte digest that depends on
/// the input bytes alone.
#[verifier::external_body]
fn twox_128(data: &Vec<u8>) -> (r: [u8; 16])
    ensures
        r@ == twox_128_of(data@),
{
    sp_crypto_hashing::twox_128(data.as_slice())
}

/// The account on the other side of the bridge that an operation originates
/// from: its root origin or one of its accounts.
#[derive(Clone, Copy, Debug)]
pub enum SourceAccount {
    Root,
    Account(AccountId),
}

/// Preimage hashed to derive the local account standing for a bridged
/// origin: the derivation tag (length-prefixed, as a byte slice encodes),
/// the bridge instance, and the account if there is one.
pub open spec fn derivation_preimage(bridge_id: [u8; 4], id: SourceAccount) -> Seq<u8> {
    match id {
        SourceAccount::Root => bytes_with_len(ROOT_ACCOUNT_DERIVATION_PREFIX@) + bridge_id@,
        SourceAccount::Account(account) => bytes_with_len(ACCOUNT_DERIVATION_PREFIX@) + bridge_id@
            + account.0@,
    }
}

/// Derives the local account that stands for a bridged origin: the hash of
/// the derivation preimage, as raw account bytes.
pub fn derive_account_id(bridge_id: [u8; 4], id: SourceAccount) -> (r: AccountId)
    ensures
        r.0@ == blake2_256_of(derivation_preimage(bridge_id, id)),
{
    let mut preimage: Vec<u8> = Vec::new();
    match id {
        SourceAccount::Root => {
            let prefix = ROOT_ACCOUNT_DERIVATION_PREFIX;
            encode_compact_u64(37, &mut preimage);
            encode_raw(prefix.as_slice(), &mut preimage);
            encode_raw(bridge_id.as_slice(), &mut preimage);
        },
        SourceAccount::Account(account) => {
            let prefix = ACCOUNT_DERIVATION_PREFIX;
            encode_compact_u64(40, &mut preimage);
            encode_raw(prefix.as_slice(), &mut preimage);
            encode_raw(bridge_id.as_slice(), &mut preimage);
            encode_raw(account.0.as_slice(), &mut preimage);
        },
    }
    proof {
        assert(preimage@ =~= derivation_preimage(bridge_id, id));
    }
    AccountId(blake2_256(&preimage))
}

/// The local account that acts for an account of the neighbouring chain.
pub fn derive_account_from_millau_id(id: SourceAccount) -> (r: AccountId)
    ensures
        r.0@ == blake2_256_of(derivation_preimage(MILLAU_BRIDGE_INSTANCE, id)),
{
    derive_account_id(MILLAU_BRIDGE_INSTANCE, id)
}

/// Storage key of a chain-resident parameter: the hash of its name between
/// colon markers.
pub open spec fn storage_parameter_key_preimage(parameter_name: Seq<u8>) -> Seq<u8> {
    seq![0x3au8] + parameter_name + seq![0x3au8]
}

/// Computes the storage key under which a named pallet parameter lives.
pub fn storage_parameter_key(parameter_name: &Vec<u8>) -> (r: Vec<u8>)
    ensures
        r@ == twox_128_of(storage_parameter_key_preimage(parameter_name@)),
{
    let mut buffer: Vec<u8> = Vec::new();
    buffer.push(0x3a);
    proof {
        assert(buffer@ =~= seq![0x3au8]);
    }
    encode_raw(parameter_name.as_slice(), &mut buffer);
    buffer.push(0x3a);
    proof {
        assert(buffer@ =~= storage_parameter_key_preimage(parameter_name@));
    }
    let hash = twox_128(&buffer);
    let mut out: Vec<u8> = Vec::new();
    encode_raw(hash.as_slice(), &mut out);
    out
}

/// Storage key of an account's balance record: the system pallet's account
/// map, keyed by a hash-protected account identifier.
pub open spec fn account_info_storage_key_bytes(account: AccountId) -> Seq<u8> {
    twox_128_of(system_pallet_name()) + twox_128_of(account_map_name()) + blake2_128_of(account.0@)
        + account.0@
}

/// The name of the system pallet, as hashed into its storage prefix.
pub open spec fn system_pallet_name() -> Seq<u8> {
    seq![0x53u8, 0x79u8, 0x73u8, 0x74u8, 0x65u8, 0x6du8]
}

/// The name of the account storage map, as hashed into its storage prefix.
pub open spec fn account_map_name() -> Seq<u8> {
    seq![0x41u8, 0x63u8, 0x63u8, 0x6fu8, 0x75u8, 0x6eu8, 0x74u8]
}

/// Computes the storage key of an account's balance record.
pub fn account_info_storage_key(account_id: &AccountId) -> (r: Vec<u8>)
    ensures
        r@ == account_info_storage_key_bytes(*account_id),
{
    let mut pallet: Vec<u8> = Vec::new();
    pallet.push(0x53);
    pallet.push(0x79);
    pallet.push(0x73);
    pallet.push(0x74);
    pallet.push(0x65);
    pallet.push(0x6d);
    proof {
        assert(pallet@ =~= system_pallet_name());
    }
    let mut map_name: Vec<u8> = Vec::new();
    map_name.push(0x41);
    map_name.push(0x63);
    map_name.push(0x63);
    map_name.push(0x6f);
    map_name.push(0x75);
    map_name.push(0x6e);
    map_name.push(0x74);
    proof {
        assert(map_name@ =~= account_map_name());
    }
    let mut account_bytes: Vec<u8> = Vec::new();
    encode_raw(account_id.0.as_slice(), &mut account_bytes);
    let pallet_hash = twox_128(&pallet);
    let map_hash = twox_128(&map_name);
    let account_hash = blake2_128(&account_bytes);
    let mut out: Vec<u8> = Vec::new();
    encode_raw(pallet_hash.as_slice(), &mut out);
    encode_raw(map_hash.as_slice(), &mut out);
    encode_raw(account_hash.as_slice(), &mut out);
    encode_raw(account_id.0.as_slice(), &mut out);
    proof {
        assert(account_bytes@ =~= account_id.0@);
    }
    out
}

} // verus!
