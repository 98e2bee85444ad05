use cw_abc::marketing::{EmbeddedLogo, Logo, LogoInfo};
use cw_abc::transfer_rules::{
    execute_check_transfer, execute_update_allowlist, query_allowlist, query_is_allowed,
    voting_power_allows,
    Cw20HookMsg, InstantiateMsg, MigrateMsg, TransferCheck, TransferRules, TransferRulesError,
};

fn addr(x: &str) -> String {
    x.to_string()
}

fn rules() -> TransferRules {
    TransferRules::instantiate(
        InstantiateMsg { dao: addr("dao"), allowlist: Some(vec![addr("allowed")]) },
        addr("voting"),
    )
}

#[test]
fn allowlisted_recipient_passes() {
    let r = rules();
    assert_eq!(r.dao(), addr("dao"));
    assert_eq!(r.voting_module(), addr("voting"));
    let msg = Cw20HookMsg::Transfer { recipient: addr("allowed"), amount: 100 };
    assert_eq!(execute_check_transfer(&r, &msg), TransferCheck::Allowed);
    let msg = Cw20HookMsg::Send { contract: addr("allowed"), amount: 100 };
    assert_eq!(execute_check_transfer(&r, &msg), TransferCheck::Allowed);
}

#[test]
fn other_recipient_needs_voting_power() {
    let r = rules();
    let msg = Cw20HookMsg::Transfer { recipient: addr("random"), amount: 100 };
    assert_eq!(
        execute_check_transfer(&r, &msg),
        TransferCheck::AskVotingPower { address: addr("random") }
    );
    assert_eq!(voting_power_allows(0), Err(TransferRulesError::Unauthorized));
    assert_eq!(voting_power_allows(5000), Ok(()));
    assert_eq!(
        query_is_allowed(&r, &addr("member")),
        TransferCheck::AskVotingPower { address: addr("member") }
    );
}

#[test]
fn only_dao_updates_allowlist() {
    let mut r = rules();
    assert_eq!(
        execute_update_allowlist(&mut r, &addr("owner"), vec![addr("x")], vec![]),
        Err(TransferRulesError::NotOwner)
    );
    assert_eq!(query_is_allowed(&r, &addr("x")), TransferCheck::AskVotingPower { address: addr("x") });
    execute_update_allowlist(&mut r, &addr("dao"), vec![addr("x")], vec![addr("allowed")]).unwrap();
    assert_eq!(query_is_allowed(&r, &addr("x")), TransferCheck::Allowed);
    assert_eq!(
        query_is_allowed(&r, &addr("allowed")),
        TransferCheck::AskVotingPower { address: addr("allowed") }
    );
    let _ = MigrateMsg {};
}

#[test]
fn logo_info_of_logo() {
    assert_eq!(Logo::URL(addr("https://x")).info(), LogoInfo::URL(addr("https://x")));
    assert_eq!(Logo::Embedded(EmbeddedLogo::PNG(vec![1, 2])).info(), LogoInfo::Embedded);
    assert_eq!(Logo::Embedded(EmbeddedLogo::SVG(vec![])).info(), LogoInfo::Embedded);
}

#[test]
fn allowlist_pages_in_byte_order() {
    let mut r = rules();
    execute_update_allowlist(&mut r, &addr("dao"), vec![addr("c"), addr("a"), addr("d"), addr("b")], vec![addr("allowed")])
        .unwrap();
    assert_eq!(query_allowlist(&r, None, None), vec![addr("a"), addr("b"), addr("c"), addr("d")]);
    assert_eq!(query_allowlist(&r, Some(addr("a")), Some(2)), vec![addr("b"), addr("c")]);
    assert_eq!(query_allowlist(&r, Some(addr("bb")), None), vec![addr("c"), addr("d")]);
    assert_eq!(query_allowlist(&r, Some(addr("d")), None), Vec::<String>::new());
    assert_eq!(query_allowlist(&r, None, Some(0)), Vec::<String>::new());
    execute_update_allowlist(&mut r, &addr("dao"), vec![addr("B"), addr("aa")], vec![]).unwrap();
    assert_eq!(query_allowlist(&r, None, Some(3)), vec![addr("B"), addr("a"), addr("aa")]);
}

#[test]
fn allowlist_page_capped_at_thirty() {
    let mut r = rules();
    let many: Vec<String> = (0..40).map(|i| format!("addr{:02}", i)).collect();
    execute_update_allowlist(&mut r, &addr("dao"), many.clone(), vec![addr("allowed")]).unwrap();
    let page = query_allowlist(&r, None, Some(100));
    assert_eq!(page, many[..30].to_vec());
    let page = query_allowlist(&r, Some(addr("addr29")), None);
    assert_eq!(page, many[30..].to_vec());
}

const ADDR1: &str = "addr1";
const ADDR2: &str = "addr2";
const ALLOWED: &str = "allowed_addr";
const RANDOM: &str = "random";
const STAKING: &str = "staking";

/// Voting power in the DAO: its two members have some.
fn power_of(address: &str) -> u128 {
    match address {
        ADDR1 | ADDR2 => 100,
        _ => 0,
    }
}

fn hook_outcome(rules: &TransferRules, msg: Cw20HookMsg) -> Result<(), TransferRulesError> {
    match execute_check_transfer(rules, &msg) {
        TransferCheck::Allowed => Ok(()),
        TransferCheck::AskVotingPower { address } => voting_power_allows(power_of(&address)),
    }
}

fn dao_rules() -> TransferRules {
    TransferRules::instantiate(InstantiateMsg { dao: addr("dao"), allowlist: None }, addr("voting"))
}

#[test]
fn test_transfer_rules() {
    let mut r = dao_rules();
    let to = |recipient: &str| Cw20HookMsg::Transfer { recipient: addr(recipient), amount: 100 };
    assert_eq!(hook_outcome(&r, to(RANDOM)), Err(TransferRulesError::Unauthorized));
    assert_eq!(hook_outcome(&r, to(ADDR2)), Ok(()));
    assert_eq!(
        execute_update_allowlist(&mut r, &addr(ADDR1), vec![addr(ALLOWED)], vec![]),
        Err(TransferRulesError::NotOwner)
    );
    execute_update_allowlist(&mut r, &addr("dao"), vec![addr(ALLOWED)], vec![]).unwrap();
    assert_eq!(hook_outcome(&r, to(ALLOWED)), Ok(()));
    assert_eq!(hook_outcome(&r, to(RANDOM)), Err(TransferRulesError::Unauthorized));
}

#[test]
fn test_send_rules() {
    let mut r = dao_rules();
    let send = |contract: &str, amount: u128| Cw20HookMsg::Send { contract: addr(contract), amount };
    assert_eq!(hook_outcome(&r, send(STAKING, 50_000)), Err(TransferRulesError::Unauthorized));
    execute_update_allowlist(&mut r, &addr("dao"), vec![addr(STAKING)], vec![]).unwrap();
    assert_eq!(hook_outcome(&r, send(STAKING, 50_000)), Ok(()));
    assert_eq!(hook_outcome(&r, send(ADDR2, 5000)), Ok(()));
}
