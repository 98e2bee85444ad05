use cw_abc::arith::{div_ceil, isqrt, isqrt_ceil, ten_pow_u128};
use cw_abc::curve::{reserve_for_supply, spot_price, CurveType};
use cw_abc::trade::{burn_proceeds, mint_for_payment};
use cw_abc::error::ContractError;
use cw_abc::ratio::{apply_ratio, Ratio};

#[test]
fn it_works() {
    assert_eq!(ten_pow_u128(0), 1);
}

#[test]
fn constant_curve_amounts() {
    let c = CurveType::Constant { value: 1, scale: 1 };
    assert_eq!(mint_for_payment(&c, 0, 900), Ok(9000));
    assert_eq!(reserve_for_supply(&c, 8900), Ok(890));
    assert_eq!(reserve_for_supply(&c, 8901), Ok(891));
    assert_eq!(mint_for_payment(&c, 0, 0), Ok(0));
    assert_eq!(spot_price(&c, 12345), Ok(100_000_000_000_000_000));
}

#[test]
fn linear_curve_amounts() {
    let c = CurveType::Linear { slope: 1, scale: 0 };
    assert_eq!(mint_for_payment(&c, 0, 50), Ok(10));
    assert_eq!(mint_for_payment(&c, 0, 49), Ok(9));
    assert_eq!(reserve_for_supply(&c, 3), Ok(5));
    assert_eq!(reserve_for_supply(&c, 10), Ok(50));
    assert_eq!(spot_price(&c, 0), Ok(0));
    assert_eq!(spot_price(&c, 4), Ok(4_000_000_000_000_000_000));
}

#[test]
fn square_root_curve_amounts() {
    let c = CurveType::SquareRoot { slope: 1, scale: 0 };
    assert_eq!(mint_for_payment(&c, 0, 18), Ok(9));
    assert_eq!(mint_for_payment(&c, 0, 17), Ok(8));
    assert_eq!(reserve_for_supply(&c, 9), Ok(18));
    assert_eq!(reserve_for_supply(&c, 2), Ok(2));
    assert_eq!(spot_price(&c, 9), Ok(3_000_000_000_000_000_000));
    assert_eq!(spot_price(&c, 2), Ok(1_414_213_562_000_000_000));
    assert_eq!(spot_price(&c, 1_000), Ok(31_622_776_601_000_000_000));
    assert_eq!(spot_price(&c, 0), Ok(0));
}

#[test]
fn curve_overflow_reported() {
    let c = CurveType::SquareRoot { slope: 1, scale: 0 };
    assert_eq!(spot_price(&c, u128::MAX), Err(ContractError::ArithmeticOverflow));
    let steep = CurveType::SquareRoot { slope: u128::MAX, scale: 0 };
    assert_eq!(spot_price(&steep, 0), Ok(0));
    assert_eq!(spot_price(&steep, 1), Err(ContractError::ArithmeticOverflow));
    assert_eq!(reserve_for_supply(&c, u128::MAX), Err(ContractError::ArithmeticOverflow));
    let c = CurveType::Constant { value: 1, scale: 1 };
    assert_eq!(mint_for_payment(&c, 0, u128::MAX), Err(ContractError::ArithmeticOverflow));
}

#[test]
fn spot_price_never_falls() {
    for c in [
        CurveType::Constant { value: 3, scale: 2 },
        CurveType::Linear { slope: 7, scale: 3 },
        CurveType::SquareRoot { slope: 5, scale: 18 },
    ] {
        let mut last = 0u128;
        for s in [0u128, 1, 2, 3, 10, 99, 100, 101, 5000] {
            let p = spot_price(&c, s).unwrap();
            assert!(p >= last);
            last = p;
        }
    }
}

#[test]
fn ratio_portions() {
    assert_eq!(apply_ratio(1000, Ratio::percent(10)), 100);
    assert_eq!(apply_ratio(19, Ratio::percent(10)), 1);
    assert_eq!(apply_ratio(u128::MAX, Ratio::one()), u128::MAX);
    assert_eq!(apply_ratio(u128::MAX, Ratio::zero()), 0);
    assert_eq!(apply_ratio(u128::MAX, Ratio::percent(50)), u128::MAX / 2);
}

#[test]
fn integer_roots() {
    assert_eq!(isqrt(0), 0);
    assert_eq!(isqrt(99), 9);
    assert_eq!(isqrt(100), 10);
    assert_eq!(isqrt(u128::MAX), u64::MAX as u128);
    assert_eq!(isqrt_ceil(32), 6);
    assert_eq!(isqrt_ceil(36), 6);
    assert_eq!(div_ceil(7, 2), 4);
    assert_eq!(div_ceil(8, 2), 4);
    assert_eq!(ten_pow_u128(18), 1_000_000_000_000_000_000);
}

#[test]
fn mint_rounds_cost_up_from_current_supply() {
    let c = CurveType::Linear { slope: 1, scale: 0 };
    // At supply 3 the next unit costs 3.5.
    assert_eq!(mint_for_payment(&c, 3, 3), Ok(0));
    assert_eq!(mint_for_payment(&c, 3, 4), Ok(1));
    // Units 4 and 5 cost 3.5 + 4.5 = 8.
    assert_eq!(mint_for_payment(&c, 3, 8), Ok(2));
    let c = CurveType::Constant { value: 3, scale: 0 };
    assert_eq!(mint_for_payment(&c, 7, 10), Ok(3));
    let c = CurveType::SquareRoot { slope: 1, scale: 0 };
    // R(9) - R(4) = 2/3 * (27 - 8) = 12.67.
    assert_eq!(mint_for_payment(&c, 4, 12), Ok(4));
    assert_eq!(mint_for_payment(&c, 4, 13), Ok(5));
}

#[test]
fn burn_rounds_proceeds_down() {
    let c = CurveType::Linear { slope: 1, scale: 0 };
    assert_eq!(burn_proceeds(&c, 4, 1), Ok(3));
    assert_eq!(burn_proceeds(&c, 4, 0), Ok(0));
    assert_eq!(burn_proceeds(&c, 10, 7), Ok(45));
    let c = CurveType::Constant { value: 1, scale: 1 };
    assert_eq!(burn_proceeds(&c, 9000, 105), Ok(10));
    let c = CurveType::SquareRoot { slope: 1, scale: 0 };
    assert_eq!(burn_proceeds(&c, 9, 5), Ok(12));
    assert_eq!(burn_proceeds(&c, 9, 9), Ok(18));
    let c = CurveType::Linear { slope: u128::MAX, scale: 0 };
    assert_eq!(burn_proceeds(&c, 10, 1), Err(ContractError::ArithmeticOverflow));
}
