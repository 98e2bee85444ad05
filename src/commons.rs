//! The commons engine: the ledger, the phase and the operations on them.
//! Every operation checks all it needs before it changes anything, so a
//! refused operation leaves the commons as it was.

use vstd::prelude::*;
use crate::addr_set::{holds, AddrSet};
use crate::curve::{
    backs, is_spot_price, lemma_backs_more_reserve, lemma_backs_zero_supply,
    lemma_reserve_fits_less, lemma_reserve_fits_zero, reserve_fits, reserve_for_supply, spot_price,
    spot_price_fits, CurveType,
};
use crate::trade::{
    burn_at, burn_fits, burn_proceeds, is_burn_proceeds, is_mint_for, lemma_burn_keeps_backing,
    lemma_burn_unique, lemma_mint_keeps_backing, lemma_mint_unique, mint_at, mint_fits,
    mint_for_payment,
};
use crate::error::ContractError;
use crate::phase::{phase_advances, CommonsPhase, CommonsPhaseConfig};
use crate::ratio::{apply_ratio, portion, Ratio};

verus! {

/// The token that the commons mints and burns.
#[derive(Clone, Debug, PartialEq, Eq)]
pub struct SupplyToken {
    pub subdenom: String,
    pub decimals: u8,
    /// The ceiling on the supply; `None` for none.
    pub max_supply: Option<u128>,
}

/// The token that buyers pay in and sellers are paid in.
#[derive(Clone, Debug, PartialEq, Eq)]
pub struct ReserveToken {
    pub denom: String,
    pub decimals: u8,
}

/// The three running balances.
#[derive(Clone, Copy, Debug, PartialEq, Eq, Structural)]
pub struct LedgerState {
    /// The reserve that backs the supply.
    pub reserve: u128,
    /// The supply outstanding.
    pub supply: u128,
    /// What the skims and taxes have set aside; it backs no redemption.
    pub funding: u128,
}

/// What a purchase did: `minted` supply goes to the buyer.
#[derive(Clone, Copy, Debug, PartialEq, Eq, Structural)]
pub struct BuyOutcome {
    pub minted: u128,
    pub reserve_added: u128,
    pub funded: u128,
}

/// What a sale did: `burned` supply is burned and `paid_out` reserve goes
/// to the seller.
#[derive(Clone, Copy, Debug, PartialEq, Eq, Structural)]
pub struct SellOutcome {
    pub burned: u128,
    pub released: u128,
    pub taxed: u128,
    pub paid_out: u128,
}

/// The balances and the spot price, in units of `10^-18` reserve per supply.
#[derive(Clone, Debug, PartialEq, Eq)]
pub struct CurveInfoResponse {
    pub reserve: u128,
    pub supply: u128,
    pub funding: u128,
    pub spot_price: u128,
    pub reserve_denom: String,
}

/// The phase and the parameters of every phase.
#[derive(Clone, Copy, Debug, PartialEq, Eq, Structural)]
pub struct CommonsPhaseConfigResponse {
    pub phase_config: CommonsPhaseConfig,
    pub phase: CommonsPhase,
}

/// The operations on a commons. A purchase pays in reserve, and a sale in
/// supply, along with the message; the others take no payment.
#[derive(Clone, Debug, PartialEq, Eq)]
pub enum ExecuteMsg {
    Buy {},
    Sell {},
    Close {},
    UpdateMaxSupply { max_supply: Option<u128> },
    UpdateHatchAllowlist { to_add: Vec<String>, to_remove: Vec<String> },
    UpdateCurve { curve_type: CurveType },
}

/// An instruction to the issuance backend. The commons hands these out only
/// after its own state is committed.
#[derive(Clone, Debug, PartialEq, Eq)]
pub enum IssuanceMsg {
    /// Mint `amount` supply to `recipient`.
    Mint { amount: u128, recipient: String },
    /// Burn `amount` supply held by the commons.
    Burn { amount: u128 },
    /// Send `amount` of `denom` from the commons to `recipient`.
    Transfer { denom: String, amount: u128, recipient: String },
}

/// Every part of a commons as plain values, to keep it between operations.
#[derive(Clone, Debug, PartialEq, Eq)]
pub struct CommonsRecord {
    pub owner: String,
    pub curve: CurveType,
    pub supply_token: SupplyToken,
    pub reserve_token: ReserveToken,
    pub phase: CommonsPhase,
    pub phase_config: CommonsPhaseConfig,
    pub ledger: LedgerState,
    pub hatch_raised: u128,
    pub opened: bool,
    pub hatch_allowlist: Vec<String>,
}

/// `rec` describes a state that keeps the invariant of a commons.
pub open spec fn record_wf(rec: CommonsRecord) -> bool {
    &&& rec.curve.wf()
    &&& rec.phase_config.wf()
    &&& backs(rec.curve, rec.ledger.supply as int, rec.ledger.reserve as int)
    &&& reserve_fits(rec.curve, rec.ledger.supply as int)
    &&& (rec.supply_token.max_supply matches Some(m) ==> rec.ledger.supply <= m)
    &&& (rec.phase == CommonsPhase::Hatch ==> !rec.opened)
    &&& (rec.phase == CommonsPhase::Open ==> rec.opened)
}

/// A part of the setup that an owner may change.
#[derive(Clone, Copy, Debug, PartialEq, Eq, Structural)]
pub enum SetupField {
    MaxSupply,
    Allowlist,
    Curve,
}

/// The whole state of a commons. It is changed only by its operations.
pub struct Commons {
    owner: String,
    curve: CurveType,
    supply_token: SupplyToken,
    reserve_token: ReserveToken,
    phase: CommonsPhase,
    phase_config: CommonsPhaseConfig,
    ledger: LedgerState,
    hatch_raised: u128,
    opened: bool,
    hatch_allowlist: AddrSet,
}

impl Commons {
    pub closed spec fn owner_spec(&self) -> Seq<char> {
        self.owner@
    }

    pub closed spec fn curve_spec(&self) -> CurveType {
        self.curve
    }

    pub closed spec fn max_supply_spec(&self) -> Option<u128> {
        self.supply_token.max_supply
    }

    pub closed spec fn reserve_denom_spec(&self) -> Seq<char> {
        self.reserve_token.denom@
    }

    pub closed spec fn supply_subdenom_spec(&self) -> Seq<char> {
        self.supply_token.subdenom@
    }

    pub closed spec fn phase_spec(&self) -> CommonsPhase {
        self.phase
    }

    pub closed spec fn config_spec(&self) -> CommonsPhaseConfig {
        self.phase_config
    }

    pub closed spec fn ledger_spec(&self) -> LedgerState {
        self.ledger
    }

    /// The reserve contributed during the Hatch so far.
    pub closed spec fn hatch_raised_spec(&self) -> u128 {
        self.hatch_raised
    }

    /// Whether the Hatch has ended in the Open phase.
    pub closed spec fn opened_spec(&self) -> bool {
        self.opened
    }

    pub closed spec fn allowlist_spec(&self) -> Set<Seq<char>> {
        self.hatch_allowlist@
    }

    /// The invariant of every reachable state: the parameters are usable,
    /// the reserve backs the supply on the curve (and the reserve for the
    /// supply can be computed), the supply keeps under its ceiling, and the
    /// phase agrees with how the Hatch ended.
    pub open spec fn wf(&self) -> bool {
        &&& self.curve_spec().wf()
        &&& self.config_spec().wf()
        &&& backs(self.curve_spec(), self.ledger_spec().supply as int, self.ledger_spec().reserve as int)
        &&& reserve_fits(self.curve_spec(), self.ledger_spec().supply as int)
        &&& (self.max_supply_spec() matches Some(m) ==> self.ledger_spec().supply <= m)
        &&& (self.phase_spec() == CommonsPhase::Hatch ==> !self.opened_spec())
        &&& (self.phase_spec() == CommonsPhase::Open ==> self.opened_spec())
    }

    /// The two states have the same owner, tokens, curve, parameters and
    /// allowlist.
    pub open spec fn same_setup(&self, other: &Commons) -> bool {
        &&& self.owner_spec() == other.owner_spec()
        &&& self.curve_spec() == other.curve_spec()
        &&& self.max_supply_spec() == other.max_supply_spec()
        &&& self.reserve_denom_spec() == other.reserve_denom_spec()
        &&& self.supply_subdenom_spec() == other.supply_subdenom_spec()
        &&& self.config_spec() == other.config_spec()
        &&& self.allowlist_spec() == other.allowlist_spec()
    }

    /// The two states have the same balances, phase and Hatch record.
    pub open spec fn same_progress(&self, other: &Commons) -> bool {
        &&& self.ledger_spec() == other.ledger_spec()
        &&& self.phase_spec() == other.phase_spec()
        &&& self.hatch_raised_spec() == other.hatch_raised_spec()
        &&& self.opened_spec() == other.opened_spec()
    }

    /// The share of a purchase that goes to the funding pool in the
    /// current phase.
    pub open spec fn buy_skim(&self) -> Ratio {
        if self.phase_spec() == CommonsPhase::Hatch {
            self.config_spec().hatch.initial_allocation_ratio
        } else {
            self.config_spec().open.allocation_percentage
        }
    }

    /// The share of a sale's proceeds that goes to the funding pool: the
    /// current phase's, or once closed, that of the phase it was closed from.
    pub open spec fn exit_tax(&self) -> Ratio {
        match self.phase_spec() {
            CommonsPhase::Hatch => self.config_spec().hatch.exit_tax,
            CommonsPhase::Open => self.config_spec().open.exit_tax,
            CommonsPhase::Closed => if self.opened_spec() {
                self.config_spec().open.exit_tax
            } else {
                self.config_spec().hatch.exit_tax
            },
        }
    }

    /// In the Hatch the allowlist is in force and does not hold `sender`.
    pub open spec fn buy_denied_sender(&self, sender: Seq<char>) -> bool {
        &&& self.phase_spec() == CommonsPhase::Hatch
        &&& self.allowlist_spec() != Set::<Seq<char>>::empty()
        &&& !self.allowlist_spec().contains(sender)
    }

    /// In the Hatch `payment` lies outside the contribution limits.
    pub open spec fn buy_outside_limits(&self, payment: int) -> bool {
        let limits = self.config_spec().hatch.contribution_limits;
        self.phase_spec() == CommonsPhase::Hatch && !(limits.min <= payment <= limits.max)
    }

    /// A purchase passes the phase and the guards.
    pub open spec fn buy_passes_guards(&self, sender: Seq<char>, payment: int) -> bool {
        &&& self.phase_spec() != CommonsPhase::Closed
        &&& payment > 0
        &&& !self.buy_denied_sender(sender)
        &&& !self.buy_outside_limits(payment)
    }

    /// The part of `payment` that goes to the funding pool.
    pub open spec fn buy_funding_part(&self, payment: int) -> int {
        portion(payment, self.buy_skim())
    }

    /// The part of `payment` that goes to the reserve.
    pub open spec fn buy_pool_part(&self, payment: int) -> int {
        payment - self.buy_funding_part(payment)
    }

    /// The reserve after a purchase of `payment`.
    pub open spec fn buy_new_reserve(&self, payment: int) -> int {
        self.ledger_spec().reserve + self.buy_pool_part(payment)
    }

    /// What a purchase of `payment` mints: what its pool part buys at the
    /// current supply, the mint cost rounded up.
    pub open spec fn buy_minted(&self, payment: int) -> int {
        mint_at(self.curve_spec(), self.ledger_spec().supply as int, self.buy_pool_part(payment))
    }

    /// The supply after a purchase of `payment`.
    pub open spec fn buy_new_supply(&self, payment: int) -> int {
        self.ledger_spec().supply + self.buy_minted(payment)
    }

    /// The new balances of a purchase can be computed: the new reserve
    /// fits, the mint can be computed (on the constant and linear curves;
    /// on the square-root curve its search may still fail on a product
    /// that does not fit), and so can the reserve for the new supply.
    pub open spec fn buy_fits(&self, payment: int) -> bool {
        &&& self.buy_new_reserve(payment) <= u128::MAX
        &&& (!(self.curve_spec() is SquareRoot) ==> mint_fits(
            self.curve_spec(),
            self.ledger_spec().supply as int,
            self.buy_pool_part(payment),
        ))
        &&& self.buy_new_supply(payment) <= u128::MAX
        &&& reserve_fits(self.curve_spec(), self.buy_new_supply(payment))
    }

    /// The supply after the purchase would pass the ceiling.
    pub open spec fn buy_exceeds_max(&self, payment: int) -> bool {
        self.max_supply_spec() matches Some(m) && self.buy_new_supply(payment) > m
    }

    /// The funding pool and the Hatch raise stay within range.
    pub open spec fn buy_counters_fit(&self, payment: int) -> bool {
        &&& self.ledger_spec().funding + self.buy_funding_part(payment) <= u128::MAX
        &&& (self.phase_spec() == CommonsPhase::Hatch ==> self.hatch_raised_spec() + payment <= u128::MAX)
    }

    /// A purchase of `payment` that succeeds.
    pub open spec fn buy_ok(&self, sender: Seq<char>, payment: int) -> bool {
        &&& self.buy_passes_guards(sender, payment)
        &&& self.buy_fits(payment)
        &&& !self.buy_exceeds_max(payment)
        &&& self.buy_counters_fit(payment)
    }

    /// `e` is the error of a refused purchase of `payment` by `sender`: the
    /// first guard that fails, in the order closed, zero payment,
    /// allowlist, contribution limits, arithmetic, ceiling.
    pub open spec fn buy_refusal(&self, sender: Seq<char>, payment: int, e: ContractError) -> bool {
        if self.phase_spec() == CommonsPhase::Closed {
            e == ContractError::CommonsClosed
        } else if payment == 0 {
            e == ContractError::InvalidInput
        } else if self.buy_denied_sender(sender) {
            e matches ContractError::SenderNotAllowlisted { sender: s } && s@ == sender
        } else if self.buy_outside_limits(payment) {
            e == ContractError::ContributionLimit {
                min: self.config_spec().hatch.contribution_limits.min,
                max: self.config_spec().hatch.contribution_limits.max,
            }
        } else if !self.buy_fits(payment) {
            e == ContractError::ArithmeticOverflow
        } else if self.buy_exceeds_max(payment) {
            e == ContractError::CannotExceedMaxSupply { max: self.max_supply_spec()->0 } || (
            self.curve_spec() is SquareRoot && e == ContractError::ArithmeticOverflow)
        } else {
            e == ContractError::ArithmeticOverflow
        }
    }

    /// `n` and `out` are the state and the outcome after a purchase of
    /// `payment` from `self`.
    pub open spec fn buy_effect(&self, n: &Commons, payment: int, out: BuyOutcome) -> bool {
        let raised = if self.phase_spec() == CommonsPhase::Hatch {
            self.hatch_raised_spec() + payment
        } else {
            self.hatch_raised_spec() as int
        };
        &&& n.same_setup(self)
        &&& out.funded == self.buy_funding_part(payment)
        &&& out.reserve_added == self.buy_pool_part(payment)
        &&& n.ledger_spec().reserve == self.buy_new_reserve(payment)
        &&& n.ledger_spec().funding == self.ledger_spec().funding + out.funded
        &&& is_mint_for(
            self.curve_spec(),
            self.ledger_spec().supply as int,
            self.buy_pool_part(payment),
            out.minted as int,
        )
        &&& out.minted == self.buy_minted(payment)
        &&& n.ledger_spec().supply == self.ledger_spec().supply + out.minted
        &&& n.hatch_raised_spec() == raised
        &&& n.phase_spec() == if self.phase_spec() == CommonsPhase::Hatch && raised
            >= self.config_spec().hatch.initial_raise.max {
            CommonsPhase::Open
        } else {
            self.phase_spec()
        }
        &&& n.opened_spec() == (self.opened_spec() || n.phase_spec() == CommonsPhase::Open)
    }

    /// The reserve that a sale of `amount` supply releases: the integral
    /// over the burnt range, rounded down.
    pub open spec fn sell_released(&self, amount: int) -> int {
        burn_at(self.curve_spec(), self.ledger_spec().supply as int, amount)
    }

    /// The tax on a sale of `amount` supply.
    pub open spec fn sell_tax(&self, amount: int) -> int {
        portion(self.sell_released(amount), self.exit_tax())
    }

    /// A sale of `amount` that succeeds (on the square-root curve, where
    /// the search for the proceeds also finds its products fit).
    pub open spec fn sell_ok(&self, amount: int) -> bool {
        &&& 0 < amount <= self.ledger_spec().supply
        &&& (!(self.curve_spec() is SquareRoot) ==> burn_fits(
            self.curve_spec(),
            self.ledger_spec().supply as int,
            amount,
        ))
        &&& self.ledger_spec().funding + self.sell_tax(amount) <= u128::MAX
    }

    /// `e` is the error of a refused sale of `amount`.
    pub open spec fn sell_refusal(&self, amount: int, e: ContractError) -> bool {
        if amount == 0 {
            e == ContractError::InvalidInput
        } else if amount > self.ledger_spec().supply {
            e == ContractError::ArithmeticUnderflow
        } else {
            e == ContractError::ArithmeticOverflow
        }
    }

    /// `n` and `out` are the state and the outcome after a sale of `amount`
    /// from `self`.
    pub open spec fn sell_effect(&self, n: &Commons, amount: int, out: SellOutcome) -> bool {
        &&& n.same_setup(self)
        &&& n.phase_spec() == self.phase_spec()
        &&& n.hatch_raised_spec() == self.hatch_raised_spec()
        &&& n.opened_spec() == self.opened_spec()
        &&& out.burned == amount
        &&& is_burn_proceeds(
            self.curve_spec(),
            self.ledger_spec().supply as int,
            amount,
            out.released as int,
        )
        &&& out.released == self.sell_released(amount)
        &&& n.ledger_spec().supply == self.ledger_spec().supply - amount
        &&& n.ledger_spec().reserve == self.ledger_spec().reserve - out.released
        &&& out.taxed == self.sell_tax(amount)
        &&& out.paid_out == out.released - out.taxed
        &&& n.ledger_spec().funding == self.ledger_spec().funding + out.taxed
    }

    /// `e` is the error of a refused update of the ceiling to `max_supply`.
    pub open spec fn max_supply_refusal(&self, sender: Seq<char>, max_supply: Option<u128>, e: ContractError) -> bool {
        if sender != self.owner_spec() {
            e == ContractError::NotOwner
        } else {
            e == ContractError::InvalidInput
        }
    }

    /// An update of the ceiling to `max_supply` that succeeds.
    pub open spec fn max_supply_ok(&self, sender: Seq<char>, max_supply: Option<u128>) -> bool {
        sender == self.owner_spec() && !(max_supply matches Some(m) && m < self.ledger_spec().supply)
    }

    /// An update of the curve to `curve_type` that succeeds.
    pub open spec fn curve_update_ok(&self, sender: Seq<char>, curve_type: CurveType) -> bool {
        &&& sender == self.owner_spec()
        &&& curve_type.wf()
        &&& reserve_fits(curve_type, self.ledger_spec().supply as int)
        &&& backs(curve_type, self.ledger_spec().supply as int, self.ledger_spec().reserve as int)
    }

    /// `e` is the error of a refused update of the curve to `curve_type`.
    pub open spec fn curve_update_refusal(&self, sender: Seq<char>, curve_type: CurveType, e: ContractError) -> bool {
        if sender != self.owner_spec() {
            e == ContractError::NotOwner
        } else if !curve_type.wf() {
            e == ContractError::InvalidCurveParameters
        } else if !reserve_fits(curve_type, self.ledger_spec().supply as int) {
            e == ContractError::ArithmeticOverflow
        } else {
            e == ContractError::InvalidCurveParameters
        }
    }

    /// `other` differs from `self` at most in its phase.
    pub open spec fn same_but_phase(&self, other: &Commons) -> bool {
        &&& self.same_setup(other)
        &&& self.ledger_spec() == other.ledger_spec()
        &&& self.hatch_raised_spec() == other.hatch_raised_spec()
        &&& self.opened_spec() == other.opened_spec()
    }

    /// `other` differs from `self` at most in the field that `which` names:
    /// the ceiling, the allowlist or the curve.
    pub open spec fn same_but(&self, other: &Commons, which: SetupField) -> bool {
        &&& self.same_progress(other)
        &&& self.owner_spec() == other.owner_spec()
        &&& self.reserve_denom_spec() == other.reserve_denom_spec()
        &&& self.supply_subdenom_spec() == other.supply_subdenom_spec()
        &&& self.config_spec() == other.config_spec()
        &&& (which != SetupField::MaxSupply ==> self.max_supply_spec() == other.max_supply_spec())
        &&& (which != SetupField::Allowlist ==> self.allowlist_spec() == other.allowlist_spec())
        &&& (which != SetupField::Curve ==> self.curve_spec() == other.curve_spec())
    }

    /// A new commons in the Hatch phase with empty balances. Fails with
    /// `InvalidCurveParameters` on a curve that is not usable, and with
    /// `InvalidInput` on a ratio over one or a range whose bounds are out
    /// of order.
    pub fn new(
        owner: String,
        supply: SupplyToken,
        reserve: ReserveToken,
        phase_config: CommonsPhaseConfig,
        hatcher_allowlist: Option<Vec<String>>,
        curve_type: CurveType,
    ) -> (r: Result<Commons, ContractError>)
        ensures
            !curve_type.wf() ==> r == Err::<Commons, ContractError>(ContractError::InvalidCurveParameters),
            curve_type.wf() && !phase_config.wf() ==> r == Err::<Commons, ContractError>(ContractError::InvalidInput),
            r is Ok <==> curve_type.wf() && phase_config.wf(),
            r matches Ok(c) ==> {
                &&& c.wf()
                &&& c.owner_spec() == owner@
                &&& c.curve_spec() == curve_type
                &&& c.max_supply_spec() == supply.max_supply
                &&& c.reserve_denom_spec() == reserve.denom@
                &&& c.supply_subdenom_spec() == supply.subdenom@
                &&& c.config_spec() == phase_config
                &&& c.phase_spec() == CommonsPhase::Hatch
                &&& c.ledger_spec() == (LedgerState { reserve: 0, supply: 0, funding: 0 })
                &&& c.hatch_raised_spec() == 0
                &&& c.allowlist_spec() == match hatcher_allowlist {
                    Some(v) => Set::new(|a: Seq<char>| holds(v@, a)),
                    None => Set::<Seq<char>>::empty(),
                }
            },
    {
        if !curve_type.validate() {
            return Err(ContractError::InvalidCurveParameters);
        }
        if !phase_config.validate() {
            return Err(ContractError::InvalidInput);
        }
        let hatch_allowlist = match hatcher_allowlist {
            Some(v) => AddrSet::from_vec(&v),
            None => AddrSet::new(),
        };
        proof {
            lemma_backs_zero_supply(curve_type, 0);
            lemma_reserve_fits_zero(curve_type);
        }
        Ok(Commons {
            owner,
            curve: curve_type,
            supply_token: supply,
            reserve_token: reserve,
            phase: CommonsPhase::Hatch,
            phase_config,
            ledger: LedgerState { reserve: 0, supply: 0, funding: 0 },
            hatch_raised: 0,
            opened: false,
            hatch_allowlist,
        })
    }

    /// Buys supply with `payment` reserve on behalf of `sender`.
    ///
    /// Checks in this order: the commons is not closed; the payment is not
    /// zero; in the Hatch, the allowlist (when not empty) holds the sender,
    /// and the payment lies within the contribution limits; the new
    /// balances can be computed; the supply keeps under its ceiling. Then
    /// the phase's skim goes to the funding pool and the rest to the
    /// reserve, and the buyer gets what the rest buys at the current supply,
    /// the mint cost rounded up. In the Hatch, the payment counts toward the
    /// raise, and the phase turns Open once the raise reaches
    /// `initial_raise.max`.
    pub fn buy(&mut self, sender: &String, payment: u128) -> (r: Result<BuyOutcome, ContractError>)
        requires
            old(self).wf(),
        ensures
            final(self).wf(),
            phase_advances(old(self).phase_spec(), final(self).phase_spec()),
            r matches Err(e) ==> old(self).buy_refusal(sender@, payment as int, e),
            r is Ok ==> old(self).buy_ok(sender@, payment as int),
            old(self).buy_ok(sender@, payment as int) && !(old(self).curve_spec() is SquareRoot) ==> r is Ok,
            r is Err ==> *final(self) == *old(self),
            r matches Ok(out) ==> old(self).buy_effect(&*final(self), payment as int, out),
    {
        let in_hatch = match self.phase {
            CommonsPhase::Closed => return Err(ContractError::CommonsClosed),
            CommonsPhase::Hatch => true,
            CommonsPhase::Open => false,
        };
        if payment == 0 {
            return Err(ContractError::InvalidInput);
        }
        if in_hatch {
            if !self.hatch_allowlist.is_empty() && !self.hatch_allowlist.contains(sender) {
                return Err(ContractError::SenderNotAllowlisted { sender: sender.clone() });
            }
            let limits = self.phase_config.hatch.contribution_limits;
            if !limits.contains(payment) {
                return Err(ContractError::ContributionLimit { min: limits.min, max: limits.max });
            }
        }
        let skim = if in_hatch {
            self.phase_config.hatch.initial_allocation_ratio
        } else {
            self.phase_config.open.allocation_percentage
        };
        let funded = apply_ratio(payment, skim);
        let pool = payment - funded;
        let new_reserve = match self.ledger.reserve.checked_add(pool) {
            Some(v) => v,
            None => return Err(ContractError::ArithmeticOverflow),
        };
        let minted = match mint_for_payment(&self.curve, self.ledger.supply, pool) {
            Ok(v) => v,
            Err(e) => return Err(e),
        };
        proof {
            lemma_mint_unique(self.curve, self.ledger.supply as int, pool as int, minted as int);
        }
        let new_supply = match self.ledger.supply.checked_add(minted) {
            Some(v) => v,
            None => return Err(ContractError::ArithmeticOverflow),
        };
        match reserve_for_supply(&self.curve, new_supply) {
            Ok(_) => {},
            Err(e) => return Err(e),
        }
        proof {
            lemma_mint_keeps_backing(
                self.curve,
                self.ledger.supply as int,
                self.ledger.reserve as int,
                minted as int,
                pool as int,
            );
        }
        if let Some(max) = self.supply_token.max_supply {
            if new_supply > max {
                return Err(ContractError::CannotExceedMaxSupply { max });
            }
        }
        let new_funding = match self.ledger.funding.checked_add(funded) {
            Some(v) => v,
            None => return Err(ContractError::ArithmeticOverflow),
        };
        let raised = if in_hatch {
            match self.hatch_raised.checked_add(payment) {
                Some(v) => v,
                None => return Err(ContractError::ArithmeticOverflow),
            }
        } else {
            self.hatch_raised
        };
        self.ledger = LedgerState { reserve: new_reserve, supply: new_supply, funding: new_funding };
        self.hatch_raised = raised;
        if in_hatch && raised >= self.phase_config.hatch.initial_raise.max {
            self.phase = CommonsPhase::Open;
            self.opened = true;
        }
        Ok(BuyOutcome { minted, reserve_added: pool, funded })
    }

    /// Sells `amount` supply, in any phase.
    ///
    /// Fails with `InvalidInput` on zero, and with `ArithmeticUnderflow` on
    /// more than the supply. The sale releases the integral of the price
    /// over the burnt range, rounded down, out of the reserve; of that, the
    /// exit tax goes to the funding pool and the rest to the seller.
    pub fn sell(&mut self, amount: u128) -> (r: Result<SellOutcome, ContractError>)
        requires
            old(self).wf(),
        ensures
            final(self).wf(),
            phase_advances(old(self).phase_spec(), final(self).phase_spec()),
            r matches Err(e) ==> old(self).sell_refusal(amount as int, e),
            r is Ok ==> old(self).sell_ok(amount as int),
            old(self).sell_ok(amount as int) && !(old(self).curve_spec() is SquareRoot) ==> r is Ok,
            r is Err ==> *final(self) == *old(self),
            r matches Ok(out) ==> old(self).sell_effect(&*final(self), amount as int, out),
    {
        if amount == 0 {
            return Err(ContractError::InvalidInput);
        }
        if amount > self.ledger.supply {
            return Err(ContractError::ArithmeticUnderflow);
        }
        let released = match burn_proceeds(&self.curve, self.ledger.supply, amount) {
            Ok(v) => v,
            Err(e) => return Err(e),
        };
        let new_supply = self.ledger.supply - amount;
        proof {
            lemma_burn_unique(self.curve, self.ledger.supply as int, amount as int, released as int);
            lemma_burn_keeps_backing(
                self.curve,
                self.ledger.supply as int,
                self.ledger.reserve as int,
                amount as int,
                released as int,
            );
            lemma_reserve_fits_less(self.curve, new_supply as int, self.ledger.supply as int);
        }
        let new_reserve = self.ledger.reserve - released;
        let tax_rate = match self.phase {
            CommonsPhase::Hatch => self.phase_config.hatch.exit_tax,
            CommonsPhase::Open => self.phase_config.open.exit_tax,
            CommonsPhase::Closed => if self.opened {
                self.phase_config.open.exit_tax
            } else {
                self.phase_config.hatch.exit_tax
            },
        };
        let taxed = apply_ratio(released, tax_rate);
        let new_funding = match self.ledger.funding.checked_add(taxed) {
            Some(v) => v,
            None => return Err(ContractError::ArithmeticOverflow),
        };
        self.ledger = LedgerState { reserve: new_reserve, supply: new_supply, funding: new_funding };
        Ok(SellOutcome { burned: amount, released, taxed, paid_out: released - taxed })
    }

    /// Closes the commons for good; only the owner may.
    pub fn close(&mut self, sender: &String) -> (r: Result<(), ContractError>)
        requires
            old(self).wf(),
        ensures
            final(self).wf(),
            phase_advances(old(self).phase_spec(), final(self).phase_spec()),
            sender@ != old(self).owner_spec() ==> r == Err::<(), ContractError>(ContractError::NotOwner),
            r is Ok <==> sender@ == old(self).owner_spec(),
            r is Err ==> *final(self) == *old(self),
            r is Ok ==> final(self).phase_spec() == CommonsPhase::Closed && final(self).same_but_phase(
                &*old(self),
            ),
    {
        match self.assert_owner(sender) {
            Ok(()) => {},
            Err(e) => return Err(e),
        }
        self.phase = CommonsPhase::Closed;
        Ok(())
    }

    /// Replaces the supply ceiling (`None` lifts it); only the owner may.
    /// A ceiling under the current supply is refused with `InvalidInput`,
    /// so that the supply never stands over its ceiling.
    pub fn update_max_supply(&mut self, sender: &String, max_supply: Option<u128>) -> (r: Result<(), ContractError>)
        requires
            old(self).wf(),
        ensures
            final(self).wf(),
            phase_advances(old(self).phase_spec(), final(self).phase_spec()),
            sender@ != old(self).owner_spec() ==> r == Err::<(), ContractError>(ContractError::NotOwner),
            sender@ == old(self).owner_spec() && (max_supply matches Some(m) && m < old(self).ledger_spec().supply)
                ==> r == Err::<(), ContractError>(ContractError::InvalidInput),
            r is Ok <==> old(self).max_supply_ok(sender@, max_supply),
            r matches Err(e) ==> old(self).max_supply_refusal(sender@, max_supply, e),
            r is Err ==> *final(self) == *old(self),
            r is Ok ==> final(self).max_supply_spec() == max_supply && final(self).same_but(
                &*old(self),
                SetupField::MaxSupply,
            ),
    {
        match self.assert_owner(sender) {
            Ok(()) => {},
            Err(e) => return Err(e),
        }
        if let Some(m) = max_supply {
            if m < self.ledger.supply {
                return Err(ContractError::InvalidInput);
            }
        }
        self.supply_token.max_supply = max_supply;
        Ok(())
    }

    /// Adds `to_add` to the Hatch allowlist, then takes `to_remove` out of
    /// it; only the owner may. The allowlist counts only during the Hatch.
    pub fn update_hatch_allowlist(
        &mut self,
        sender: &String,
        to_add: Vec<String>,
        to_remove: Vec<String>,
    ) -> (r: Result<(), ContractError>)
        requires
            old(self).wf(),
        ensures
            final(self).wf(),
            phase_advances(old(self).phase_spec(), final(self).phase_spec()),
            sender@ != old(self).owner_spec() ==> r == Err::<(), ContractError>(ContractError::NotOwner),
            r is Ok <==> sender@ == old(self).owner_spec(),
            r is Err ==> *final(self) == *old(self),
            r is Ok ==> final(self).allowlist_spec() == old(self).allowlist_spec().union(
                Set::new(|a: Seq<char>| holds(to_add@, a)),
            ).difference(Set::new(|a: Seq<char>| holds(to_remove@, a))) && final(self).same_but(
                &*old(self),
                SetupField::Allowlist,
            ),
    {
        match self.assert_owner(sender) {
            Ok(()) => {},
            Err(e) => return Err(e),
        }
        self.hatch_allowlist.insert_all(&to_add);
        self.hatch_allowlist.remove_all(&to_remove);
        Ok(())
    }

    /// Replaces the curve; only the owner may. Past balances are not
    /// recomputed, so the new curve must be usable (else
    /// `InvalidCurveParameters`) and the current reserve must back the
    /// current supply on it (else `InvalidCurveParameters`, or
    /// `ArithmeticOverflow` where that cannot be computed).
    pub fn update_curve(&mut self, sender: &String, curve_type: CurveType) -> (r: Result<(), ContractError>)
        requires
            old(self).wf(),
        ensures
            final(self).wf(),
            phase_advances(old(self).phase_spec(), final(self).phase_spec()),
            sender@ != old(self).owner_spec() ==> r == Err::<(), ContractError>(ContractError::NotOwner),
            sender@ == old(self).owner_spec() && !curve_type.wf() ==> r == Err::<(), ContractError>(
                ContractError::InvalidCurveParameters,
            ),
            sender@ == old(self).owner_spec() && curve_type.wf() && !reserve_fits(
                curve_type,
                old(self).ledger_spec().supply as int,
            ) ==> r == Err::<(), ContractError>(ContractError::ArithmeticOverflow),
            sender@ == old(self).owner_spec() && curve_type.wf() && reserve_fits(
                curve_type,
                old(self).ledger_spec().supply as int,
            ) && !backs(curve_type, old(self).ledger_spec().supply as int, old(self).ledger_spec().reserve as int)
                ==> r == Err::<(), ContractError>(ContractError::InvalidCurveParameters),
            r is Ok <==> old(self).curve_update_ok(sender@, curve_type),
            r matches Err(e) ==> old(self).curve_update_refusal(sender@, curve_type, e),
            r is Err ==> *final(self) == *old(self),
            r is Ok ==> final(self).curve_spec() == curve_type && final(self).same_but(
                &*old(self),
                SetupField::Curve,
            ),
    {
        match self.assert_owner(sender) {
            Ok(()) => {},
            Err(e) => return Err(e),
        }
        if !curve_type.validate() {
            return Err(ContractError::InvalidCurveParameters);
        }
        let needed = match reserve_for_supply(&curve_type, self.ledger.supply) {
            Ok(v) => v,
            Err(e) => return Err(e),
        };
        if needed > self.ledger.reserve {
            proof {
                if backs(curve_type, self.ledger.supply as int, self.ledger.reserve as int) {
                    lemma_backs_more_reserve(
                        curve_type,
                        self.ledger.supply as int,
                        self.ledger.reserve as int,
                        needed - 1,
                    );
                }
            }
            return Err(ContractError::InvalidCurveParameters);
        }
        proof {
            lemma_backs_more_reserve(
                curve_type,
                self.ledger.supply as int,
                needed as int,
                self.ledger.reserve as int,
            );
        }
        self.curve = curve_type;
        Ok(())
    }

    /// Carries out `msg` for `sender`, who attached `payment` (reserve for a
    /// purchase, supply for a sale), and returns what the issuance backend
    /// is to do. The state is committed before the instructions are handed
    /// out; a refused operation changes nothing and hands out nothing.
    pub fn execute(&mut self, sender: &String, payment: u128, msg: ExecuteMsg) -> (r: Result<
        Vec<IssuanceMsg>,
        ContractError,
    >)
        requires
            old(self).wf(),
        ensures
            final(self).wf(),
            phase_advances(old(self).phase_spec(), final(self).phase_spec()),
            r is Err ==> *final(self) == *old(self),
            msg is Buy ==> {
                &&& (r matches Err(e) ==> old(self).buy_refusal(sender@, payment as int, e))
                &&& (r is Ok ==> old(self).buy_ok(sender@, payment as int))
                &&& (old(self).buy_ok(sender@, payment as int) && !(old(self).curve_spec() is SquareRoot)
                    ==> r is Ok)
            },
            msg is Buy && r is Ok ==> {
                let v = r->Ok_0@;
                &&& v.len() == 1
                &&& v[0] matches IssuanceMsg::Mint { amount, recipient }
                &&& recipient@ == sender@
                &&& exists|out: BuyOutcome|
                    old(self).buy_effect(&*final(self), payment as int, out) && out.minted == v[0]->Mint_amount
            },
            msg is Sell ==> {
                &&& (r matches Err(e) ==> old(self).sell_refusal(payment as int, e))
                &&& (r is Ok ==> old(self).sell_ok(payment as int))
                &&& (old(self).sell_ok(payment as int) && !(old(self).curve_spec() is SquareRoot) ==> r is Ok)
            },
            msg is Sell && r is Ok ==> {
                let v = r->Ok_0@;
                &&& v.len() == 2
                &&& v[0] == IssuanceMsg::Burn { amount: payment }
                &&& v[1] matches IssuanceMsg::Transfer { denom, amount, recipient }
                &&& denom@ == old(self).reserve_denom_spec()
                &&& recipient@ == sender@
                &&& exists|out: SellOutcome|
                    old(self).sell_effect(&*final(self), payment as int, out) && out.paid_out == v[1]->Transfer_amount
            },
            !(msg is Buy) && !(msg is Sell) && sender@ != old(self).owner_spec() ==> r == Err::<
                Vec<IssuanceMsg>,
                ContractError,
            >(ContractError::NotOwner),
            !(msg is Buy) && !(msg is Sell) && r is Ok ==> r->Ok_0@.len() == 0,
            msg is Close ==> (r is Ok <==> sender@ == old(self).owner_spec()),
            msg is Close && r is Ok ==> final(self).phase_spec() == CommonsPhase::Closed
                && final(self).same_but_phase(&*old(self)),
            msg matches ExecuteMsg::UpdateMaxSupply { max_supply } ==> {
                &&& r is Ok <==> old(self).max_supply_ok(sender@, max_supply)
                &&& (r matches Err(e) ==> old(self).max_supply_refusal(sender@, max_supply, e))
                &&& r is Ok ==> final(self).max_supply_spec() == max_supply && final(self).same_but(
                    &*old(self),
                    SetupField::MaxSupply,
                )
            },
            msg matches ExecuteMsg::UpdateHatchAllowlist { to_add, to_remove } ==> {
                &&& r is Ok <==> sender@ == old(self).owner_spec()
                &&& r is Ok ==> final(self).allowlist_spec() == old(self).allowlist_spec().union(
                    Set::new(|a: Seq<char>| holds(to_add@, a)),
                ).difference(Set::new(|a: Seq<char>| holds(to_remove@, a))) && final(self).same_but(
                    &*old(self),
                    SetupField::Allowlist,
                )
            },
            msg matches ExecuteMsg::UpdateCurve { curve_type } ==> {
                &&& r is Ok <==> old(self).curve_update_ok(sender@, curve_type)
                &&& (r matches Err(e) ==> old(self).curve_update_refusal(sender@, curve_type, e))
                &&& r is Ok ==> final(self).curve_spec() == curve_type && final(self).same_but(
                    &*old(self),
                    SetupField::Curve,
                )
            },
    {
        match msg {
            ExecuteMsg::Buy {} => {
                let out = match self.buy(sender, payment) {
                    Ok(out) => out,
                    Err(e) => return Err(e),
                };
                let mut v: Vec<IssuanceMsg> = Vec::new();
                v.push(IssuanceMsg::Mint { amount: out.minted, recipient: sender.clone() });
                Ok(v)
            },
            ExecuteMsg::Sell {} => {
                let out = match self.sell(payment) {
                    Ok(out) => out,
                    Err(e) => return Err(e),
                };
                let mut v: Vec<IssuanceMsg> = Vec::new();
                v.push(IssuanceMsg::Burn { amount: payment });
                v.push(
                    IssuanceMsg::Transfer {
                        denom: self.reserve_token.denom.clone(),
                        amount: out.paid_out,
                        recipient: sender.clone(),
                    },
                );
                Ok(v)
            },
            ExecuteMsg::Close {} => match self.close(sender) {
                Ok(()) => Ok(Vec::new()),
                Err(e) => Err(e),
            },
            ExecuteMsg::UpdateMaxSupply { max_supply } => match self.update_max_supply(sender, max_supply) {
                Ok(()) => Ok(Vec::new()),
                Err(e) => Err(e),
            },
            ExecuteMsg::UpdateHatchAllowlist { to_add, to_remove } => match self.update_hatch_allowlist(
                sender,
                to_add,
                to_remove,
            ) {
                Ok(()) => Ok(Vec::new()),
                Err(e) => Err(e),
            },
            ExecuteMsg::UpdateCurve { curve_type } => match self.update_curve(sender, curve_type) {
                Ok(()) => Ok(Vec::new()),
                Err(e) => Err(e),
            },
        }
    }

    /// `rec` describes `self`.
    pub open spec fn described_by(&self, rec: CommonsRecord) -> bool {
        &&& self.owner_spec() == rec.owner@
        &&& self.curve_spec() == rec.curve
        &&& self.max_supply_spec() == rec.supply_token.max_supply
        &&& self.supply_subdenom_spec() == rec.supply_token.subdenom@
        &&& self.reserve_denom_spec() == rec.reserve_token.denom@
        &&& self.phase_spec() == rec.phase
        &&& self.config_spec() == rec.phase_config
        &&& self.ledger_spec() == rec.ledger
        &&& self.hatch_raised_spec() == rec.hatch_raised
        &&& self.opened_spec() == rec.opened
        &&& self.allowlist_spec() == Set::new(|a: Seq<char>| holds(rec.hatch_allowlist@, a))
    }

    /// The record of this commons.
    pub fn to_record(&self) -> (rec: CommonsRecord)
        requires
            self.wf(),
        ensures
            self.described_by(rec),
            record_wf(rec),
    {
        CommonsRecord {
            owner: self.owner.clone(),
            curve: self.curve,
            supply_token: SupplyToken {
                subdenom: self.supply_token.subdenom.clone(),
                decimals: self.supply_token.decimals,
                max_supply: self.supply_token.max_supply,
            },
            reserve_token: ReserveToken {
                denom: self.reserve_token.denom.clone(),
                decimals: self.reserve_token.decimals,
            },
            phase: self.phase,
            phase_config: self.phase_config,
            ledger: self.ledger,
            hatch_raised: self.hatch_raised,
            opened: self.opened,
            hatch_allowlist: self.hatch_allowlist.to_vec(),
        }
    }

    /// The commons that `rec` describes. Fails with
    /// `InvalidCurveParameters` on a curve that is not usable, and with
    /// `InvalidInput` on any other record that breaks the invariant.
    pub fn from_record(rec: CommonsRecord) -> (r: Result<Commons, ContractError>)
        ensures
            r is Ok <==> record_wf(rec),
            !rec.curve.wf() ==> r == Err::<Commons, ContractError>(ContractError::InvalidCurveParameters),
            rec.curve.wf() && !record_wf(rec) ==> r == Err::<Commons, ContractError>(ContractError::InvalidInput),
            r matches Ok(c) ==> c.wf() && c.described_by(rec),
    {
        if !rec.curve.validate() {
            return Err(ContractError::InvalidCurveParameters);
        }
        if !rec.phase_config.validate() {
            return Err(ContractError::InvalidInput);
        }
        let needed = match reserve_for_supply(&rec.curve, rec.ledger.supply) {
            Ok(v) => v,
            Err(_) => return Err(ContractError::InvalidInput),
        };
        if needed > rec.ledger.reserve {
            proof {
                if backs(rec.curve, rec.ledger.supply as int, rec.ledger.reserve as int) {
                    lemma_backs_more_reserve(
                        rec.curve,
                        rec.ledger.supply as int,
                        rec.ledger.reserve as int,
                        needed - 1,
                    );
                }
            }
            return Err(ContractError::InvalidInput);
        }
        proof {
            lemma_backs_more_reserve(
                rec.curve,
                rec.ledger.supply as int,
                needed as int,
                rec.ledger.reserve as int,
            );
        }
        if let Some(m) = rec.supply_token.max_supply {
            if rec.ledger.supply > m {
                return Err(ContractError::InvalidInput);
            }
        }
        let phase_agrees = match rec.phase {
            CommonsPhase::Hatch => !rec.opened,
            CommonsPhase::Open => rec.opened,
            CommonsPhase::Closed => true,
        };
        if !phase_agrees {
            return Err(ContractError::InvalidInput);
        }
        let hatch_allowlist = AddrSet::from_vec(&rec.hatch_allowlist);
        Ok(Commons {
            owner: rec.owner,
            curve: rec.curve,
            supply_token: rec.supply_token,
            reserve_token: rec.reserve_token,
            phase: rec.phase,
            phase_config: rec.phase_config,
            ledger: rec.ledger,
            hatch_raised: rec.hatch_raised,
            opened: rec.opened,
            hatch_allowlist,
        })
    }

    /// Fails with `NotOwner` unless `sender` owns the commons.
    pub fn assert_owner(&self, sender: &String) -> (r: Result<(), ContractError>)
        ensures
            r is Ok <==> sender@ == self.owner_spec(),
            r matches Err(e) ==> e == ContractError::NotOwner,
    {
        if *sender == self.owner {
            Ok(())
        } else {
            Err(ContractError::NotOwner)
        }
    }

    pub fn ledger(&self) -> (l: LedgerState)
        ensures
            l == self.ledger_spec(),
    {
        self.ledger
    }

    pub fn phase(&self) -> (p: CommonsPhase)
        ensures
            p == self.phase_spec(),
    {
        self.phase
    }

    pub fn curve(&self) -> (c: CurveType)
        ensures
            c == self.curve_spec(),
    {
        self.curve
    }

    pub fn max_supply(&self) -> (m: Option<u128>)
        ensures
            m == self.max_supply_spec(),
    {
        self.supply_token.max_supply
    }

    pub fn hatch_raised(&self) -> (v: u128)
        ensures
            v == self.hatch_raised_spec(),
    {
        self.hatch_raised
    }

    /// Whether `address` is on the Hatch allowlist.
    pub fn is_hatch_allowlisted(&self, address: &String) -> (b: bool)
        ensures
            b == self.allowlist_spec().contains(address@),
    {
        self.hatch_allowlist.contains(address)
    }

    /// The Hatch allowlist.
    pub fn hatch_allowlist(&self) -> (v: Vec<String>)
        ensures
            Set::new(|a: Seq<char>| holds(v@, a)) == self.allowlist_spec(),
    {
        self.hatch_allowlist.to_vec()
    }

    /// The phase and the parameters of every phase.
    pub fn phase_config(&self) -> (r: CommonsPhaseConfigResponse)
        ensures
            r.phase == self.phase_spec(),
            r.phase_config == self.config_spec(),
    {
        CommonsPhaseConfigResponse { phase_config: self.phase_config, phase: self.phase }
    }

    /// The balances, the spot price at the current supply and the reserve
    /// denomination. Fails with `ArithmeticOverflow` exactly where the spot
    /// price does not fit in a `u128`.
    pub fn curve_info(&self) -> (r: Result<CurveInfoResponse, ContractError>)
        requires
            self.wf(),
        ensures
            r is Ok <==> spot_price_fits(self.curve_spec(), self.ledger_spec().supply as int),
            r matches Err(e) ==> e == ContractError::ArithmeticOverflow,
            r matches Ok(info) ==> {
                &&& info.reserve == self.ledger_spec().reserve
                &&& info.supply == self.ledger_spec().supply
                &&& info.funding == self.ledger_spec().funding
                &&& is_spot_price(self.curve_spec(), self.ledger_spec().supply as int, info.spot_price as int)
                &&& info.reserve_denom@ == self.reserve_denom_spec()
            },
    {
        let price = match spot_price(&self.curve, self.ledger.supply) {
            Ok(p) => p,
            Err(e) => return Err(e),
        };
        Ok(CurveInfoResponse {
            reserve: self.ledger.reserve,
            supply: self.ledger.supply,
            funding: self.ledger.funding,
            spot_price: price,
            reserve_denom: self.reserve_token.denom.clone(),
        })
    }
}

/// Every reachable state (one that `Commons::new` made and operations then
/// changed, each keeping `wf`) has non-negative balances, a supply within
/// its ceiling where one is set, and a reserve that backs its supply on the
/// curve.
pub proof fn lemma_ledger_invariant(c: &Commons)
    requires
        c.wf(),
    ensures
        c.ledger_spec().reserve >= 0,
        c.ledger_spec().supply >= 0,
        c.ledger_spec().funding >= 0,
        c.max_supply_spec() matches Some(m) ==> c.ledger_spec().supply <= m,
        backs(c.curve_spec(), c.ledger_spec().supply as int, c.ledger_spec().reserve as int),
{
}

} // verus!
