use oracle_swapper::artifacts::{get_swapper_wasm_path, wasm_path};
use oracle_swapper::decimal::Decimal;

#[test]
fn ratio_rounds_down_to_eighteen_places() {
    assert_eq!(Decimal::checked_from_ratio(1u128, 3u128).unwrap().atomics(), 333_333_333_333_333_333);
    assert!(Decimal::checked_from_ratio(1u128, 0u128).is_none());
    assert!(Decimal::checked_from_ratio(u128::MAX, 1u128).is_none());
}

#[test]
fn product_rounds_down_and_detects_overflow() {
    let third = Decimal::checked_from_ratio(1u128, 3u128).unwrap();
    let three = Decimal::checked_from_ratio(3u128, 1u128).unwrap();
    assert_eq!(third.checked_mul(three).unwrap().atomics(), 999_999_999_999_999_999);
    assert!(Decimal::raw(u128::MAX).checked_mul(three).is_none());
}

#[test]
fn decimal_text_trims_trailing_zeros() {
    assert_eq!(Decimal::checked_from_ratio(3u128, 2u128).unwrap().to_display_string(), "1.5");
    assert_eq!(Decimal::checked_from_ratio(2u128, 1u128).unwrap().to_display_string(), "2");
    assert_eq!(Decimal::raw(1).to_display_string(), "0.000000000000000001");
    assert_eq!(Decimal::zero().to_display_string(), "0");
}

#[test]
fn wasm_paths_use_underscores() {
    assert_eq!(
        get_swapper_wasm_path("mars-swapper-astroport", "x86_64"),
        "artifacts//mars_swapper_astroport-x86_64.wasm"
    );
    assert_eq!(wasm_path("dir", "mars-oracle-wasm", false, "aarch64"), "dir/mars_oracle_wasm.wasm");
}
