//! Account derivation and storage keys against the hashing crate itself.

use bridge_relay::account::{
    account_info_storage_key, derive_account_from_millau_id, derive_account_id,
    storage_parameter_key, SourceAccount, ACCOUNT_DERIVATION_PREFIX, MILLAU_BRIDGE_INSTANCE,
    ROOT_ACCOUNT_DERIVATION_PREFIX,
};
use bridge_relay::chains::{Millau, Template, MessageTransaction, MessageVerificationError};
use bridge_relay::lane::AccountId;
use parity_scale_codec::{Compact, Encode};

#[test]
fn derived_accounts_hash_the_documented_preimage() {
    let who = AccountId([5; 32]);
    let derived = derive_account_from_millau_id(SourceAccount::Account(who));
    let mut preimage = Compact(40u64).encode();
    preimage.extend_from_slice(&ACCOUNT_DERIVATION_PREFIX);
    preimage.extend_from_slice(&MILLAU_BRIDGE_INSTANCE);
    preimage.extend_from_slice(&[5; 32]);
    assert_eq!(derived.0, sp_crypto_hashing::blake2_256(&preimage));
}

#[test]
fn the_root_origin_derives_from_its_own_tag() {
    let derived = derive_account_id(*b"mlau", SourceAccount::Root);
    let mut preimage = Compact(37u64).encode();
    preimage.extend_from_slice(&ROOT_ACCOUNT_DERIVATION_PREFIX);
    preimage.extend_from_slice(b"mlau");
    assert_eq!(derived.0, sp_crypto_hashing::blake2_256(&preimage));
    // a different preimage gives a different account
    let other = derive_account_id(*b"mlau", SourceAccount::Account(AccountId([0; 32])));
    assert_ne!(derived.0, other.0);
}

#[test]
fn parameter_keys_hash_the_colon_wrapped_name() {
    let name: Vec<u8> = b"KusamaToPolkadotConversionRate".to_vec();
    let key = storage_parameter_key(&name);
    let mut preimage = vec![b':'];
    preimage.extend_from_slice(&name);
    preimage.push(b':');
    assert_eq!(key, sp_crypto_hashing::twox_128(&preimage).to_vec());
}

#[test]
fn account_storage_keys_follow_the_system_pallet_layout() {
    let who = AccountId([9; 32]);
    let key = account_info_storage_key(&who);
    let mut expected = sp_crypto_hashing::twox_128(b"System").to_vec();
    expected.extend_from_slice(&sp_crypto_hashing::twox_128(b"Account"));
    expected.extend_from_slice(&sp_crypto_hashing::blake2_128(&[9; 32]));
    expected.extend_from_slice(&[9; 32]);
    assert_eq!(key, expected);
}

#[test]
fn delivery_transaction_estimates_charge_for_extra_bytes_only() {
    // a payload at the expected default length pays the base weight
    let small = vec![0u8; 128];
    let t = Template::estimate_delivery_transaction(&small, 7);
    assert_eq!(t.dispatch_weight, 1_000_000_000 + 7);
    assert_eq!(t.size, 128 + 1024 + 103);

    // every byte beyond it is charged extra
    let big = vec![0u8; 130];
    let t = Template::estimate_delivery_transaction(&big, 0);
    assert_eq!(t.dispatch_weight, 2 * 25_000 + 1_000_000_000);
    assert_eq!(t.size, 130 + 1024 + 103);
}

#[test]
fn confirmation_transaction_estimate_is_fixed() {
    let t = Millau::estimate_delivery_confirmation_transaction();
    assert_eq!(t.dispatch_weight, 2_000_000_000);
    assert_eq!(t.size, (32 + 16 + 8) + 1024 + 103);
}

#[test]
fn testnet_fees_are_base_weight_plus_size() {
    let t = MessageTransaction { dispatch_weight: 123, size: 1000 };
    assert_eq!(Millau::transaction_payment(t), 125_000_000 + 1000);
    assert_eq!(Template::transaction_payment(t), 125_000_000 + 1000);
}

#[test]
fn message_verification_checks_weight_then_size() {
    let (low, high) = Template::message_weight_limits(&Vec::new());
    assert_eq!(low, 0);
    assert_eq!(high, Template::max_extrinsic_weight() / 2);
    assert!(Template::verify_message(high, 100).is_ok());
    assert_eq!(
        Template::verify_message(high + 1, 100).unwrap_err(),
        MessageVerificationError::WeightOutOfLimits
    );
    let size_cap = Template::maximal_extrinsic_size() / 3 * 2;
    assert_eq!(
        Template::verify_message(0, size_cap + 1).unwrap_err(),
        MessageVerificationError::MessageTooLarge
    );
}
