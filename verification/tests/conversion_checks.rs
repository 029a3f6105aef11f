//! Balance conversion against the chain's own fixed-point arithmetic.

use bridge_relay::chains::WithTemplateMessageBridge;
use bridge_relay::conversion::{
    FixedU128, MillauBridgeParameters, MillauToTemplateMessagesParameter, FIXED_POINT_DIV,
};
use sp_arithmetic::traits::Saturating;
use sp_arithmetic::FixedPointNumber;

#[test]
fn conversion_rate_two_doubles_the_balance() {
    let rate = FixedU128::from_inner(2 * FIXED_POINT_DIV);
    assert_eq!(rate.saturating_mul_int(100u128), 200u128);
}

#[test]
fn conversion_saturates_on_overflow_instead_of_wrapping() {
    let rate = FixedU128::from_inner(2 * FIXED_POINT_DIV);
    assert_eq!(rate.saturating_mul_int(u128::MAX), u128::MAX);
    assert_eq!(rate.saturating_mul_int(u128::MAX / 2 + 1), u128::MAX);
    assert_eq!(rate.saturating_mul_int(u128::MAX / 2), u128::MAX - 1);
}

#[test]
fn conversion_matches_reference_fixed_point_arithmetic() {
    let cases: [(u128, u128); 8] = [
        (FIXED_POINT_DIV, 12345),
        (2 * FIXED_POINT_DIV, 100),
        (FIXED_POINT_DIV / 2, 101),
        (FIXED_POINT_DIV / 3, 1_000_000_007),
        (1, u128::MAX),
        (123_456_789_123_456_789, 987_654_321),
        (3 * FIXED_POINT_DIV, u128::MAX / 2),
        (0, 55),
    ];
    for (inner, balance) in cases {
        let ours = FixedU128::from_inner(inner).saturating_mul_int(balance);
        let reference = sp_arithmetic::FixedU128::from_inner(inner).saturating_mul_int(balance);
        assert_eq!(ours, reference, "inner {} balance {}", inner, balance);
    }
}

#[test]
fn reciprocal_matches_reference_and_round_trips() {
    let rate = FixedU128::from_inner(2 * FIXED_POINT_DIV);
    let inv = rate.reciprocal().unwrap();
    let reference_inv = sp_arithmetic::FixedU128::from_inner(2 * FIXED_POINT_DIV)
        .reciprocal()
        .unwrap();
    assert_eq!(inv.into_inner(), reference_inv.into_inner());
    let converted = rate.saturating_mul_int(100u128);
    assert_eq!(inv.saturating_mul_int(converted), 100u128);
    assert!(FixedU128::from_inner(0).reciprocal().is_none());
}

#[test]
fn bridged_balance_saturates_to_this_chain_width() {
    let one = FixedU128::from_inner(FIXED_POINT_DIV);
    assert_eq!(WithTemplateMessageBridge::bridged_balance_to_this_balance(one, 100), 100);
    assert_eq!(
        WithTemplateMessageBridge::bridged_balance_to_this_balance(one, u128::MAX),
        u64::MAX
    );
    let double = FixedU128::from_inner(2 * FIXED_POINT_DIV);
    assert_eq!(WithTemplateMessageBridge::bridged_balance_to_this_balance(double, 21), 42);
}

#[test]
fn saving_the_parameter_updates_the_stored_rate() {
    let mut params =
        MillauBridgeParameters { template_to_millau_conversion_rate: FixedU128::one() };
    let update = MillauToTemplateMessagesParameter::TemplateToMillauConversionRate(
        FixedU128::from_inner(3 * FIXED_POINT_DIV),
    );
    update.save(&mut params);
    assert_eq!(params.template_to_millau_conversion_rate.into_inner(), 3 * FIXED_POINT_DIV);
}
