use injective_bank::{get_interest, ContractError};

#[test]
fn interest_for_one_day_at_ninety_percent() {
    assert_eq!(get_interest(90, 86400, 10000000000000000000), Ok(17600508718498930));
}

#[test]
fn interest_for_a_full_year_is_the_annual_yield() {
    assert_eq!(get_interest(10, 31_536_000, 1_000_000), Ok(100_000));
    assert_eq!(get_interest(90, 31_536_000, 10_000_000_000_000_000_000), Ok(9_000_000_000_000_000_000));
    assert_eq!(get_interest(1, 31_536_000, 12_345), Ok(123));
}

#[test]
fn interest_is_positive_and_below_the_yield_for_part_of_a_year() {
    let half = get_interest(10, 15_768_000, 1_000_000_000).unwrap();
    assert!(half > 0);
    assert!(half < 50_000_000);
    assert!(half > 48_000_000);
}

#[test]
fn interest_is_cut_off_not_rounded() {
    assert_eq!(get_interest(90, 86400, 10_000), Ok(17));
    assert_eq!(get_interest(10, 31_536_000, 19), Ok(1));
    assert_eq!(get_interest(10, 31_536_000, 9), Ok(0));
}

#[test]
fn no_yield_no_interest() {
    assert_eq!(get_interest(0, 86400, 1_000_000), Ok(0));
}

#[test]
fn zero_duration_is_refused() {
    assert_eq!(get_interest(90, 0, 1_000), Err(ContractError::InvalidDuration {}));
}

#[test]
fn operands_beyond_96_bits_are_refused() {
    assert_eq!(get_interest(90, 86400, 1 << 96), Err(ContractError::Overflow {}));
    assert_eq!(get_interest(1 << 96, 86400, 1), Err(ContractError::Overflow {}));
    assert_eq!(get_interest(1, 1 << 96, 1), Err(ContractError::Overflow {}));
}
