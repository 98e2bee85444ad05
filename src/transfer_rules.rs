//! Transfer rules for a DAO's token: a transfer may go to an address on
//! the allowlist, or to one that has voting power in the DAO. The voting
//! power is asked of the DAO's voting module by the caller, only when the
//! allowlist does not decide.

use vstd::prelude::*;
use crate::addr_set::{holds, is_page, AddrSet};

verus! {

/// Sets up the rules: the DAO, which owns them, and an optional allowlist.
#[derive(Clone, Debug, PartialEq, Eq)]
pub struct InstantiateMsg {
    pub dao: String,
    pub allowlist: Option<Vec<String>>,
}

/// The token's notice that a transfer is about to happen.
#[derive(Clone, Debug, PartialEq, Eq)]
pub enum Cw20HookMsg {
    Transfer { recipient: String, amount: u128 },
    Send { contract: String, amount: u128 },
}

/// The operations on the rules.
#[derive(Clone, Debug, PartialEq, Eq)]
pub enum ExecuteMsg {
    Cw20Hook(Cw20HookMsg),
    UpdateAllowlist { add: Vec<String>, remove: Vec<String> },
}

/// The queries on the rules.
#[derive(Clone, Debug, PartialEq, Eq)]
pub enum QueryMsg {
    /// The allowlist, a page at a time.
    Allowlist { start_after: Option<String>, limit: Option<u32> },
    /// The DAO's address.
    Dao {},
    /// The DAO's voting module's address.
    DaoVotingPowerModule {},
    /// Whether an address may receive tokens.
    IsAllowed { address: String },
}

#[derive(Clone, Copy, Debug, PartialEq, Eq, Structural)]
pub struct MigrateMsg {}

/// Why a transfer or an update was refused.
#[derive(Clone, Copy, Debug, PartialEq, Eq, Structural)]
pub enum TransferRulesError {
    /// The recipient is neither on the allowlist nor a voter.
    Unauthorized,
    /// Only the DAO may change the allowlist.
    NotOwner,
}

/// What the rules say of a recipient before any voting power is known.
#[derive(Clone, Debug, PartialEq, Eq)]
pub enum TransferCheck {
    /// The recipient is on the allowlist.
    Allowed,
    /// The recipient's voting power decides: see `voting_power_allows`.
    AskVotingPower { address: String },
}

/// The state of the rules.
pub struct TransferRules {
    dao: String,
    voting_module: String,
    allowlist: AddrSet,
}

impl TransferRules {
    pub closed spec fn dao_spec(&self) -> Seq<char> {
        self.dao@
    }

    pub closed spec fn voting_module_spec(&self) -> Seq<char> {
        self.voting_module@
    }

    pub closed spec fn allowlist_spec(&self) -> Set<Seq<char>> {
        self.allowlist@
    }

    /// The rules of `msg`, with the DAO's voting module at `voting_module`.
    pub fn instantiate(msg: InstantiateMsg, voting_module: String) -> (r: TransferRules)
        ensures
            r.dao_spec() == msg.dao@,
            r.voting_module_spec() == voting_module@,
            r.allowlist_spec() == match msg.allowlist {
                Some(v) => Set::new(|a: Seq<char>| holds(v@, a)),
                None => Set::<Seq<char>>::empty(),
            },
    {
        let allowlist = match msg.allowlist {
            Some(v) => AddrSet::from_vec(&v),
            None => AddrSet::new(),
        };
        TransferRules { dao: msg.dao, voting_module, allowlist }
    }

    pub fn dao(&self) -> (a: String)
        ensures
            a@ == self.dao_spec(),
    {
        self.dao.clone()
    }

    /// Every address on the allowlist.
    pub fn allowlist(&self) -> (v: Vec<String>)
        ensures
            Set::new(|a: Seq<char>| holds(v@, a)) == self.allowlist_spec(),
    {
        self.allowlist.to_vec()
    }

    pub fn voting_module(&self) -> (a: String)
        ensures
            a@ == self.voting_module_spec(),
    {
        self.voting_module.clone()
    }
}

/// The address that receives the tokens of `msg`.
pub open spec fn hook_recipient(msg: Cw20HookMsg) -> Seq<char> {
    match msg {
        Cw20HookMsg::Transfer { recipient, .. } => recipient@,
        Cw20HookMsg::Send { contract, .. } => contract@,
    }
}

/// Whether `address` may receive tokens, as far as the allowlist says.
pub fn query_is_allowed(rules: &TransferRules, address: &String) -> (r: TransferCheck)
    ensures
        rules.allowlist_spec().contains(address@) ==> r is Allowed,
        !rules.allowlist_spec().contains(address@) ==> (r matches TransferCheck::AskVotingPower { address: a }
            && a@ == address@),
{
    if rules.allowlist.contains(address) {
        TransferCheck::Allowed
    } else {
        TransferCheck::AskVotingPower { address: address.clone() }
    }
}

/// What the rules say of the transfer of `msg`, as far as the allowlist says.
pub fn execute_check_transfer(rules: &TransferRules, msg: &Cw20HookMsg) -> (r: TransferCheck)
    ensures
        rules.allowlist_spec().contains(hook_recipient(*msg)) ==> r is Allowed,
        !rules.allowlist_spec().contains(hook_recipient(*msg)) ==> (r matches TransferCheck::AskVotingPower {
            address: a,
        } && a@ == hook_recipient(*msg)),
{
    let recipient = match msg {
        Cw20HookMsg::Transfer { recipient, .. } => recipient,
        Cw20HookMsg::Send { contract, .. } => contract,
    };
    query_is_allowed(rules, recipient)
}

/// A recipient off the allowlist may receive tokens when its voting power
/// is not zero.
pub fn voting_power_allows(power: u128) -> (r: Result<(), TransferRulesError>)
    ensures
        r is Ok <==> power > 0,
        r matches Err(e) ==> e == TransferRulesError::Unauthorized,
{
    if power == 0 {
        Err(TransferRulesError::Unauthorized)
    } else {
        Ok(())
    }
}

/// The most addresses that a page of the allowlist holds.
pub const MAX_PAGE_LIMIT: u32 = 30;

/// The size of a page asked for with `limit`.
pub open spec fn page_limit(limit: Option<u32>) -> nat {
    match limit {
        Some(l) => if l < MAX_PAGE_LIMIT {
            l as nat
        } else {
            MAX_PAGE_LIMIT as nat
        },
        None => MAX_PAGE_LIMIT as nat,
    }
}

/// A page of the allowlist: the addresses after `start_after`, in
/// ascending byte order, at most `limit` and never more than thirty.
pub fn query_allowlist(rules: &TransferRules, start_after: Option<String>, limit: Option<u32>) -> (r: Vec<
    String,
>)
    ensures
        is_page(
            rules.allowlist_spec(),
            match start_after {
                Some(s) => Some(s@),
                None => None,
            },
            page_limit(limit),
            r@,
        ),
{
    let lim: u32 = match limit {
        Some(l) => if l < MAX_PAGE_LIMIT {
            l
        } else {
            MAX_PAGE_LIMIT
        },
        None => MAX_PAGE_LIMIT,
    };
    rules.allowlist.page_after(start_after.as_ref(), lim as usize)
}

/// Adds `add` to the allowlist, then takes `remove` out of it; only the
/// DAO may.
pub fn execute_update_allowlist(
    rules: &mut TransferRules,
    sender: &String,
    add: Vec<String>,
    remove: Vec<String>,
) -> (r: Result<(), TransferRulesError>)
    ensures
        r is Ok <==> sender@ == old(rules).dao_spec(),
        r matches Err(e) ==> e == TransferRulesError::NotOwner,
        final(rules).dao_spec() == old(rules).dao_spec(),
        final(rules).voting_module_spec() == old(rules).voting_module_spec(),
        r is Err ==> final(rules).allowlist_spec() == old(rules).allowlist_spec(),
        r is Ok ==> final(rules).allowlist_spec() == old(rules).allowlist_spec().union(
            Set::new(|a: Seq<char>| holds(add@, a)),
        ).difference(Set::new(|a: Seq<char>| holds(remove@, a))),
{
    if !(*sender == rules.dao) {
        return Err(TransferRulesError::NotOwner);
    }
    rules.allowlist.insert_all(&add);
    rules.allowlist.remove_all(&remove);
    Ok(())
}

} // verus!
