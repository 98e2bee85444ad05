use cw_abc::commons::{
    BuyOutcome, Commons, CommonsRecord, ExecuteMsg, IssuanceMsg, LedgerState, ReserveToken, SellOutcome, SupplyToken,
};
use cw_abc::curve::CurveType;
use cw_abc::error::ContractError;
use cw_abc::phase::{ClosedConfig, CommonsPhase, CommonsPhaseConfig, HatchConfig, MinMax, OpenConfig};
use cw_abc::ratio::Ratio;

const RESERVE: &str = "ureserve";
const DENOM: &str = "subdenom";

fn s(x: &str) -> String {
    x.to_string()
}

fn config(hatch_tax: u64, open_tax: u64) -> CommonsPhaseConfig {
    CommonsPhaseConfig {
        hatch: HatchConfig {
            contribution_limits: MinMax { min: 10, max: 1_000_000 },
            initial_raise: MinMax { min: 10, max: 1_000_000 },
            initial_allocation_ratio: Ratio::percent(10),
            exit_tax: Ratio::percent(hatch_tax),
        },
        open: OpenConfig {
            allocation_percentage: Ratio::percent(10),
            exit_tax: Ratio::percent(open_tax),
        },
        closed: ClosedConfig {},
    }
}

fn commons_with(config: CommonsPhaseConfig, curve: CurveType, allowlist: Option<Vec<String>>) -> Commons {
    Commons::new(
        s("owner"),
        SupplyToken { subdenom: s(DENOM), decimals: 6, max_supply: Some(1_000_000_000) },
        ReserveToken { denom: s(RESERVE), decimals: 6 },
        config,
        allowlist,
        curve,
    )
    .unwrap()
}

fn default_commons() -> Commons {
    commons_with(config(10, 10), CurveType::Constant { value: 1, scale: 1 }, None)
}

#[test]
fn test_happy_path() {
    let mut c = default_commons();
    let out = c.buy(&s("buyer"), 1000).unwrap();
    assert_eq!(out.minted, 9000);
    let info = c.curve_info().unwrap();
    assert_eq!(
        (info.reserve, info.supply, info.funding, info.spot_price, info.reserve_denom),
        (900, 9000, 100, Ratio::percent(10).atomics, s(RESERVE))
    );
    let phase = c.phase_config();
    assert_eq!(phase.phase, CommonsPhase::Hatch);
    assert_eq!(phase.phase_config, config(10, 10));
    let out = c.sell(100).unwrap();
    assert_eq!(out.paid_out, 9);
    let info = c.curve_info().unwrap();
    assert_eq!(
        (info.reserve, info.supply, info.funding, info.spot_price),
        (890, 8900, 101, Ratio::percent(10).atomics)
    );
    c.buy(&s("buyer"), 1_000_000).unwrap();
    assert_eq!(c.phase_config().phase, CommonsPhase::Open);
}

#[test]
fn hatch_buy_with_skim() {
    let mut c = default_commons();
    let out = c.buy(&s("buyer"), 1000).unwrap();
    assert_eq!(out, BuyOutcome { minted: 9000, reserve_added: 900, funded: 100 });
    assert_eq!(c.ledger(), LedgerState { reserve: 900, supply: 9000, funding: 100 });
    let info = c.curve_info().unwrap();
    assert_eq!(info.reserve, 900);
    assert_eq!(info.supply, 9000);
    assert_eq!(info.funding, 100);
    assert_eq!(info.spot_price, Ratio::percent(10).atomics);
    assert_eq!(info.reserve_denom, s(RESERVE));
    let phase = c.phase_config();
    assert_eq!(phase.phase, CommonsPhase::Hatch);
    assert_eq!(phase.phase_config, config(10, 10));
    assert_eq!(c.hatch_raised(), 1000);
}

#[test]
fn hatch_sell_with_tax() {
    let mut c = default_commons();
    c.buy(&s("buyer"), 1000).unwrap();
    let out = c.sell(100).unwrap();
    assert_eq!(out, SellOutcome { burned: 100, released: 10, taxed: 1, paid_out: 9 });
    assert_eq!(c.ledger(), LedgerState { reserve: 890, supply: 8900, funding: 101 });
    assert_eq!(c.curve_info().unwrap().spot_price, Ratio::percent(10).atomics);
}

#[test]
fn hatch_ends_when_raise_reached() {
    let mut c = default_commons();
    c.buy(&s("buyer"), 1000).unwrap();
    c.sell(100).unwrap();
    assert_eq!(c.phase(), CommonsPhase::Hatch);
    c.buy(&s("buyer"), 1_000_000).unwrap();
    assert_eq!(c.phase(), CommonsPhase::Open);
    assert_eq!(c.phase_config().phase, CommonsPhase::Open);
    assert_eq!(c.hatch_raised(), 1_001_000);
    assert_eq!(c.ledger(), LedgerState { reserve: 900_890, supply: 9_008_900, funding: 100_101 });
}

#[test]
fn hatch_stays_below_raise() {
    let mut c = default_commons();
    c.buy(&s("buyer"), 999_999).unwrap();
    assert_eq!(c.phase(), CommonsPhase::Hatch);
    c.buy(&s("buyer"), 1).unwrap_err();
    c.buy(&s("buyer"), 10).unwrap();
    assert_eq!(c.phase(), CommonsPhase::Open);
}

#[test]
fn test_contribution_limits_enforced() {
    let mut c = default_commons();
    let err = c.buy(&s("buyer"), 1_000_000_000).unwrap_err();
    assert_eq!(err, ContractError::ContributionLimit { min: 10, max: 1_000_000 });
    let err = c.buy(&s("buyer"), 1).unwrap_err();
    assert_eq!(err, ContractError::ContributionLimit { min: 10, max: 1_000_000 });
    assert_eq!(c.ledger(), LedgerState { reserve: 0, supply: 0, funding: 0 });
}

#[test]
fn open_phase_has_no_contribution_limits() {
    let mut c = default_commons();
    c.buy(&s("buyer"), 1_000_000).unwrap();
    assert_eq!(c.phase(), CommonsPhase::Open);
    c.buy(&s("buyer"), 1).unwrap();
    c.buy(&s("buyer"), 5_000_000).unwrap();
}

#[test]
fn test_max_supply() {
    let mut c = default_commons();
    c.buy(&s("buyer"), 1_000_000).unwrap();
    let before = c.ledger();
    let err = c.buy(&s("buyer"), 10_000_000_000_000).unwrap_err();
    assert_eq!(err, ContractError::CannotExceedMaxSupply { max: 1_000_000_000 });
    assert_eq!(c.ledger(), before);
    let err = c.update_max_supply(&s("someone"), None).unwrap_err();
    assert_eq!(err, ContractError::NotOwner);
    assert_eq!(c.max_supply(), Some(1_000_000_000));
    c.update_max_supply(&s("owner"), None).unwrap();
    assert_eq!(c.max_supply(), None);
    c.buy(&s("buyer"), 10_000_000_000_000).unwrap();
    assert_eq!(c.ledger().supply, 90_000_009_000_000);
}

#[test]
fn max_supply_below_supply_refused() {
    let mut c = default_commons();
    c.buy(&s("buyer"), 1000).unwrap();
    let err = c.update_max_supply(&s("owner"), Some(8999)).unwrap_err();
    assert_eq!(err, ContractError::InvalidInput);
    c.update_max_supply(&s("owner"), Some(9000)).unwrap();
    assert_eq!(c.max_supply(), Some(9000));
    let err = c.buy(&s("buyer"), 10).unwrap_err();
    assert_eq!(err, ContractError::CannotExceedMaxSupply { max: 9000 });
}

#[test]
fn test_allowlist() {
    let mut c = default_commons();
    let err = c
        .update_hatch_allowlist(&s("a1"), vec![s("a0"), s("a1")], vec![])
        .unwrap_err();
    assert_eq!(err, ContractError::NotOwner);
    c.update_hatch_allowlist(&s("owner"), vec![s("a0"), s("a1")], vec![]).unwrap();
    let err = c.buy(&s("a3"), 1000).unwrap_err();
    assert_eq!(err, ContractError::SenderNotAllowlisted { sender: s("a3") });
    c.buy(&s("a1"), 1000).unwrap();
    assert!(c.is_hatch_allowlisted(&s("a0")));
    assert!(!c.is_hatch_allowlisted(&s("a3")));
}

#[test]
fn allowlist_from_instantiation_and_removal() {
    let mut c = commons_with(
        config(10, 10),
        CurveType::Constant { value: 1, scale: 1 },
        Some(vec![s("a0"), s("a1"), s("a0")]),
    );
    assert_eq!(c.hatch_allowlist().len(), 2);
    c.update_hatch_allowlist(&s("owner"), vec![s("a2")], vec![s("a0"), s("a9")]).unwrap();
    assert!(!c.is_hatch_allowlisted(&s("a0")));
    assert!(c.is_hatch_allowlisted(&s("a1")));
    assert!(c.is_hatch_allowlisted(&s("a2")));
    assert_eq!(
        c.buy(&s("a0"), 1000).unwrap_err(),
        ContractError::SenderNotAllowlisted { sender: s("a0") }
    );
    c.update_hatch_allowlist(&s("owner"), vec![], vec![s("a1"), s("a2")]).unwrap();
    c.buy(&s("a0"), 1000).unwrap();
}

#[test]
fn allowlist_inert_after_hatch() {
    let mut c = default_commons();
    c.buy(&s("buyer"), 1_000_000).unwrap();
    c.update_hatch_allowlist(&s("owner"), vec![s("a0")], vec![]).unwrap();
    c.buy(&s("a3"), 1000).unwrap();
}

#[test]
fn test_close_curve() {
    let mut c = default_commons();
    c.buy(&s("buyer"), 1_000_000).unwrap();
    assert_eq!(c.phase(), CommonsPhase::Open);
    let err = c.close(&s("other")).unwrap_err();
    assert_eq!(err, ContractError::NotOwner);
    assert_eq!(c.phase(), CommonsPhase::Open);
    c.close(&s("owner")).unwrap();
    assert_eq!(c.phase(), CommonsPhase::Closed);
    assert_eq!(c.buy(&s("owner"), 1000).unwrap_err(), ContractError::CommonsClosed);
    let out = c.sell(100).unwrap();
    assert_eq!(out, SellOutcome { burned: 100, released: 10, taxed: 1, paid_out: 9 });
}

#[test]
fn close_from_open_keeps_open_tax() {
    let mut c = commons_with(config(20, 10), CurveType::Constant { value: 1, scale: 1 }, None);
    c.buy(&s("buyer"), 1_000_000).unwrap();
    c.close(&s("owner")).unwrap();
    let before = c.ledger();
    let out = c.sell(1000).unwrap();
    assert_eq!(out, SellOutcome { burned: 1000, released: 100, taxed: 10, paid_out: 90 });
    assert_eq!(c.ledger().funding, before.funding + 10);
}

#[test]
fn close_from_hatch_keeps_hatch_tax() {
    let mut c = commons_with(config(20, 10), CurveType::Constant { value: 1, scale: 1 }, None);
    c.buy(&s("buyer"), 1000).unwrap();
    c.close(&s("owner")).unwrap();
    let out = c.sell(100).unwrap();
    assert_eq!(out, SellOutcome { burned: 100, released: 10, taxed: 2, paid_out: 8 });
    assert_eq!(c.buy(&s("buyer"), 1000).unwrap_err(), ContractError::CommonsClosed);
}

#[test]
fn sell_errors() {
    let mut c = default_commons();
    c.buy(&s("buyer"), 1000).unwrap();
    assert_eq!(c.sell(0).unwrap_err(), ContractError::InvalidInput);
    assert_eq!(c.sell(9001).unwrap_err(), ContractError::ArithmeticUnderflow);
    assert_eq!(c.ledger(), LedgerState { reserve: 900, supply: 9000, funding: 100 });
    let out = c.sell(9000).unwrap();
    assert_eq!(out.released, 900);
    assert_eq!(c.ledger(), LedgerState { reserve: 0, supply: 0, funding: 190 });
}

#[test]
fn zero_buy_refused() {
    let mut c = default_commons();
    assert_eq!(c.buy(&s("buyer"), 0).unwrap_err(), ContractError::InvalidInput);
}

#[test]
fn owner_gate_comes_first() {
    let mut c = default_commons();
    let bad_curve = CurveType::Constant { value: 0, scale: 40 };
    assert_eq!(c.update_curve(&s("x"), bad_curve).unwrap_err(), ContractError::NotOwner);
    assert_eq!(c.update_max_supply(&s("x"), Some(0)).unwrap_err(), ContractError::NotOwner);
    assert_eq!(c.close(&s("x")).unwrap_err(), ContractError::NotOwner);
    assert_eq!(
        c.update_hatch_allowlist(&s("x"), vec![], vec![]).unwrap_err(),
        ContractError::NotOwner
    );
    assert!(c.assert_owner(&s("owner")).is_ok());
}

#[test]
fn test_update_curve() {
    let mut c = default_commons();
    c.buy(&s("buyer"), 1000).unwrap();
    assert_eq!(
        c.update_curve(&s("owner"), CurveType::Constant { value: 0, scale: 1 }).unwrap_err(),
        ContractError::InvalidCurveParameters
    );
    assert_eq!(
        c.update_curve(&s("owner"), CurveType::Constant { value: 2, scale: 1 }).unwrap_err(),
        ContractError::InvalidCurveParameters
    );
    c.update_curve(&s("owner"), CurveType::Constant { value: 1, scale: 2 }).unwrap();
    assert_eq!(c.curve(), CurveType::Constant { value: 1, scale: 2 });
    assert_eq!(c.curve_info().unwrap().spot_price, Ratio::percent(1).atomics);
    let out = c.sell(100).unwrap();
    assert_eq!(out.released, 1);
}

#[test]
fn invalid_parameters_refused() {
    let make = |cfg: CommonsPhaseConfig, curve: CurveType| {
        Commons::new(
            s("owner"),
            SupplyToken { subdenom: s(DENOM), decimals: 6, max_supply: None },
            ReserveToken { denom: s(RESERVE), decimals: 6 },
            cfg,
            None,
            curve,
        )
    };
    let good = CurveType::Linear { slope: 1, scale: 0 };
    assert_eq!(
        make(config(10, 10), CurveType::Linear { slope: 0, scale: 0 }).err(),
        Some(ContractError::InvalidCurveParameters)
    );
    assert_eq!(
        make(config(10, 10), CurveType::SquareRoot { slope: 1, scale: 19 }).err(),
        Some(ContractError::InvalidCurveParameters)
    );
    let mut cfg = config(10, 10);
    cfg.open.exit_tax = Ratio::from_atomics(Ratio::one().atomics + 1);
    assert_eq!(make(cfg, good).err(), Some(ContractError::InvalidInput));
    let mut cfg = config(10, 10);
    cfg.hatch.contribution_limits = MinMax { min: 5, max: 4 };
    assert_eq!(make(cfg, good).err(), Some(ContractError::InvalidInput));
    assert!(make(config(10, 10), good).is_ok());
}

#[test]
fn linear_curve_buy_and_sell() {
    let mut cfg = config(0, 0);
    cfg.hatch.initial_allocation_ratio = Ratio::zero();
    let mut c = commons_with(cfg, CurveType::Linear { slope: 1, scale: 0 }, None);
    let out = c.buy(&s("buyer"), 50).unwrap();
    assert_eq!(out.minted, 10);
    assert_eq!(c.curve_info().unwrap().spot_price, 10 * Ratio::one().atomics);
    let out = c.sell(7).unwrap();
    assert_eq!(out.released, 45);
    assert_eq!(c.ledger(), LedgerState { reserve: 5, supply: 3, funding: 0 });
}

#[test]
fn square_root_curve_buy_and_sell() {
    let mut cfg = config(0, 0);
    cfg.hatch.initial_allocation_ratio = Ratio::zero();
    let mut c = commons_with(cfg, CurveType::SquareRoot { slope: 1, scale: 0 }, None);
    let out = c.buy(&s("buyer"), 18).unwrap();
    assert_eq!(out.minted, 9);
    assert_eq!(c.curve_info().unwrap().spot_price, 3 * Ratio::one().atomics);
    let out = c.sell(7).unwrap();
    assert_eq!(out.released, 16);
    assert_eq!(c.ledger(), LedgerState { reserve: 2, supply: 2, funding: 0 });
}

#[test]
fn execute_hands_out_issuance_instructions() {
    let mut c = default_commons();
    let msgs = c.execute(&s("buyer"), 1000, ExecuteMsg::Buy {}).unwrap();
    assert_eq!(msgs, vec![IssuanceMsg::Mint { amount: 9000, recipient: s("buyer") }]);
    let msgs = c.execute(&s("buyer"), 100, ExecuteMsg::Sell {}).unwrap();
    assert_eq!(
        msgs,
        vec![
            IssuanceMsg::Burn { amount: 100 },
            IssuanceMsg::Transfer { denom: s(RESERVE), amount: 9, recipient: s("buyer") },
        ]
    );
    assert_eq!(c.ledger(), LedgerState { reserve: 890, supply: 8900, funding: 101 });
    assert_eq!(
        c.execute(&s("buyer"), 0, ExecuteMsg::Close {}).unwrap_err(),
        ContractError::NotOwner
    );
    assert_eq!(
        c.execute(&s("buyer"), 0, ExecuteMsg::UpdateMaxSupply { max_supply: None }).unwrap_err(),
        ContractError::NotOwner
    );
    assert_eq!(
        c.execute(&s("owner"), 0, ExecuteMsg::UpdateHatchAllowlist { to_add: vec![s("a")], to_remove: vec![] }),
        Ok(vec![])
    );
    assert_eq!(
        c.execute(&s("owner"), 0, ExecuteMsg::UpdateCurve { curve_type: CurveType::Constant { value: 1, scale: 1 } }),
        Ok(vec![])
    );
    assert_eq!(c.execute(&s("owner"), 0, ExecuteMsg::Close {}), Ok(vec![]));
    assert_eq!(
        c.execute(&s("a"), 1000, ExecuteMsg::Buy {}).unwrap_err(),
        ContractError::CommonsClosed
    );
}

#[test]
fn record_round_trip() {
    let mut c = default_commons();
    c.update_hatch_allowlist(&s("owner"), vec![s("a1")], vec![]).unwrap();
    c.buy(&s("a1"), 1000).unwrap();
    let rec = c.to_record();
    assert_eq!(rec.ledger, LedgerState { reserve: 900, supply: 9000, funding: 100 });
    assert_eq!(rec.hatch_allowlist, vec![s("a1")]);
    assert_eq!(rec.phase, CommonsPhase::Hatch);
    assert!(!rec.opened);
    let mut back = Commons::from_record(rec.clone()).unwrap();
    assert_eq!(back.to_record(), rec);
    assert_eq!(back.sell(100).unwrap().paid_out, 9);
}

#[test]
fn record_breaking_invariant_refused() {
    let c = default_commons();
    let good: CommonsRecord = c.to_record();
    let mut rec = good.clone();
    rec.ledger = LedgerState { reserve: 899, supply: 9000, funding: 0 };
    assert_eq!(Commons::from_record(rec).err(), Some(ContractError::InvalidInput));
    let mut rec = good.clone();
    rec.ledger = LedgerState { reserve: 900, supply: 9000, funding: 0 };
    assert!(Commons::from_record(rec).is_ok());
    let mut rec = good.clone();
    rec.phase = CommonsPhase::Open;
    assert_eq!(Commons::from_record(rec).err(), Some(ContractError::InvalidInput));
    let mut rec = good.clone();
    rec.ledger = LedgerState { reserve: 200_000_000, supply: 2_000_000_000, funding: 0 };
    assert_eq!(Commons::from_record(rec).err(), Some(ContractError::InvalidInput));
    let mut rec = good.clone();
    rec.curve = CurveType::Constant { value: 0, scale: 1 };
    assert_eq!(Commons::from_record(rec).err(), Some(ContractError::InvalidCurveParameters));
}

#[test]
fn supply_stays_under_ceiling_over_many_operations() {
    let mut c = default_commons();
    for i in 0..20u128 {
        let _ = c.buy(&s("buyer"), 1_000 + i * 50_000);
        let _ = c.buy(&s("buyer"), i * 10_000_000);
        let _ = c.sell(i * 7);
        let supply = c.ledger().supply;
        assert!(supply <= c.max_supply().unwrap());
    }
    assert_eq!(c.phase(), CommonsPhase::Open);
}

#[test]
fn round_trip_extracts_no_value() {
    let mut cfg = config(0, 0);
    cfg.hatch.initial_allocation_ratio = Ratio::zero();
    cfg.hatch.contribution_limits = MinMax { min: 1, max: 1_000_000 };
    let mut c = commons_with(cfg, CurveType::Linear { slope: 1, scale: 0 }, None);
    assert_eq!(c.buy(&s("first"), 6).unwrap().minted, 3);
    assert_eq!(c.ledger(), LedgerState { reserve: 6, supply: 3, funding: 0 });
    // The 4th unit costs 3.5: a payment of 3 mints nothing.
    assert_eq!(c.buy(&s("second"), 3).unwrap().minted, 0);
    assert_eq!(c.ledger(), LedgerState { reserve: 9, supply: 3, funding: 0 });
    assert_eq!(c.buy(&s("third"), 4).unwrap().minted, 1);
    let out = c.sell(1).unwrap();
    assert_eq!(out.released, 3);
    assert!(out.paid_out <= 4);
    assert_eq!(c.ledger(), LedgerState { reserve: 10, supply: 3, funding: 0 });
}
