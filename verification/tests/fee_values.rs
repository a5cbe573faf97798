use xtfee_graph::fee::{NumberOrHex, U256};

#[test]
fn native_number_widens_to_itself() {
    assert_eq!(NumberOrHex::Number(0).as_u128(), 0);
    assert_eq!(NumberOrHex::Number(318_175_599_614_067).as_u128(), 318_175_599_614_067);
    assert_eq!(NumberOrHex::Number(u64::MAX).as_u128(), u64::MAX as u128);
}

#[test]
fn fitting_hex_value_widens_to_its_numeric_value() {
    let fits = U256 {
        low: 123_456_789_012_345_678_901_234_567_890u128,
        high: 0,
    };
    assert_eq!(NumberOrHex::Hex(fits).as_u128(), 123_456_789_012_345_678_901_234_567_890);
    assert_eq!(NumberOrHex::Hex(U256 { low: u128::MAX, high: 0 }).as_u128(), u128::MAX);
}

#[test]
fn oversized_hex_value_truncates_to_its_low_half() {
    let oversized = U256 {
        low: 77,
        high: 5,
    };
    assert_eq!(NumberOrHex::Hex(oversized).as_u128(), 77);
}

#[test]
fn default_fee_is_the_native_zero() {
    assert_eq!(NumberOrHex::default(), NumberOrHex::Number(0));
}

#[test]
fn halves_agree_with_a_reference_256_bit_integer() {
    // The same value held by the reference implementation of a
    // 256-bit integer, built from its four 64-bit limbs.
    let reference = primitive_types::U256([0x1111_2222_3333_4444, 0x5555_6666_7777_8888, 0, 0]);
    let ours = U256 {
        low: (0x5555_6666_7777_8888u128 << 64) | 0x1111_2222_3333_4444u128,
        high: 0,
    };
    assert_eq!(NumberOrHex::Hex(ours).as_u128(), reference.as_u128());
    assert_eq!(NumberOrHex::Hex(ours).as_u128(), reference.low_u128());

    let wide_reference =
        primitive_types::U256([0x1111_2222_3333_4444, 0x5555_6666_7777_8888, 9, 0]);
    let wide_ours = U256 {
        low: (0x5555_6666_7777_8888u128 << 64) | 0x1111_2222_3333_4444u128,
        high: 9,
    };
    assert_eq!(NumberOrHex::Hex(wide_ours).as_u128(), wide_reference.low_u128());
}
