use vstd::prelude::*;

use crate::fees::{build_fee_receipt, lemma_fee_bounds, spec_add_collection, spec_empty_ledger, spec_fee_receipt, spec_totals_for, spec_with_totals, FeeLedger};
use crate::interfaces::{spec_rate_for, Address, Bytes32, FeeConfig, FeeType};
use crate::risk::{
    check_deposit_limits, check_withdrawal_limit, deposit_reaches_cap_test, spec_check_deposit,
    spec_check_withdrawal, RiskError, RiskParameters,
};
use crate::table::{AddressPair, Table, TableEntry};
use crate::vault::sums::{asset_sum, balance_sum, lemma_balance_sum_push, lemma_balance_sum_update, lemma_balance_within_sum, lock_sum};
use crate::vault::math::{
    checked_accrued_rewards, effective_params, fee_error_to_vault_error,
    spec_accrued_rewards, spec_fee_error_to_vault_error, validate_positive_amount,
    VaultError,
};

verus! {

/// Smallest reward amount that may be distributed at once.
pub const MIN_REWARD_DISTRIBUTION: i128 = 100_000;

/// Most locks that one unlock call releases.
pub const MAX_UNLOCK_LIMIT: u32 = 50;

/// Rights given with `authorize_delegate`, one bit each.
pub const DELEGATE_PERM_DEPOSIT: u32 = 1;
pub const DELEGATE_PERM_WITHDRAW: u32 = 2;
pub const DELEGATE_PERM_CLAIM: u32 = 4;

/// Rights given with `delegate`, one bit each.
pub const PERMISSION_DEPOSIT: u32 = 1;
pub const PERMISSION_WITHDRAW: u32 = 2;
pub const PERMISSION_LOCK: u32 = 4;
pub const PERMISSION_UNLOCK: u32 = 8;
pub const PERMISSION_CLAIM: u32 = 16;

/// How many operators a delegator may name until the admin sets another limit.
pub const DEFAULT_MAX_DELEGATIONS: u32 = 10;

/// Rates are given in basis points of this denominator.
pub const BPS_DENOMINATOR: i128 = 10_000;

/// A user's position in the vault's deposit token.
#[derive(Clone, Copy, Debug, PartialEq, Eq, Structural)]
pub struct Position {
    /// Deposited tokens, locked ones included.
    pub balance: i128,
    /// The part of the balance held in locks.
    pub locked: i128,
    /// The reward index up to which rewards have been credited.
    pub reward_index: i128,
    /// Rewards credited and not yet claimed.
    pub pending_rewards: i128,
}

/// Tokens locked until a ledger time.
#[derive(Clone, Copy, Debug, PartialEq, Eq, Structural)]
pub struct LockEntry {
    pub amount: i128,
    pub unlock_at: u64,
}

/// A token movement the host carries out for an operation, in order.
#[derive(Clone, Copy, Debug, PartialEq, Eq, Structural)]
pub struct Transfer {
    pub token: Address,
    pub from: Address,
    pub to: Address,
    pub amount: i128,
}

/// The pool of a supported side asset.
#[derive(Clone, Copy, Debug, PartialEq, Eq, Structural)]
pub struct AssetPool {
    pub total_deposits: i128,
    pub reward_index: i128,
}

/// Rights an operator holds over a delegator's positions, until `expires_at`
/// (0: without end).
#[derive(Clone, Copy, Debug, PartialEq, Eq, Structural)]
pub struct Delegation {
    pub delegator: Address,
    pub operator: Address,
    pub permissions: u32,
    pub expires_at: u64,
}

/// What an operation yields: an amount and the transfers it needs.
#[derive(Debug)]
pub struct Settlement {
    pub amount: i128,
    pub transfers: Vec<Transfer>,
}

/// The outcome of charging the protocol fee on an amount.
#[derive(Clone, Copy, Debug, PartialEq, Eq, Structural)]
pub struct FeeOutcome {
    /// What remains for the vault after the fee.
    pub net_amount: i128,
    /// What goes to the treasury.
    pub treasury_amount: i128,
    /// The fee totals after the collection.
    pub ledger: FeeLedger,
}

pub open spec fn no_fee(gross: i128, ledger: FeeLedger) -> FeeOutcome {
    FeeOutcome { net_amount: gross, treasury_amount: 0, ledger }
}

/// The protocol fee charged on `gross`: none without a configuration or at a
/// zero rate; otherwise the receipt's net amount, with the collection added
/// to the totals.
pub open spec fn spec_collect_fee(
    config: Option<FeeConfig>,
    ledger: FeeLedger,
    fee_type: FeeType,
    actor: Address,
    asset: Address,
    gross: i128,
    now: u64,
) -> Result<FeeOutcome, VaultError> {
    match config {
        None => Ok(no_fee(gross, ledger)),
        Some(c) => if spec_rate_for(c, fee_type) == 0 {
            Ok(no_fee(gross, ledger))
        } else {
            match spec_fee_receipt(fee_type, actor, c.treasury, Some(asset), gross, spec_rate_for(c, fee_type), now) {
                Err(e) => Err(spec_fee_error_to_vault_error(e)),
                Ok(rc) => if rc.fee_amount <= 0 {
                    Ok(no_fee(gross, ledger))
                } else {
                    match spec_add_collection(spec_totals_for(ledger, fee_type), rc.fee_amount, rc.treasury_amount) {
                        None => Err(VaultError::MathOverflow),
                        Some(t) => Ok(
                            FeeOutcome {
                                net_amount: rc.net_amount,
                                treasury_amount: rc.treasury_amount,
                                ledger: spec_with_totals(ledger, fee_type, t),
                            },
                        ),
                    }
                },
            }
        },
    }
}

/// The transfer of a collected fee to the treasury, if there is one.
pub open spec fn fee_transfers(config: Option<FeeConfig>, asset: Address, contract: Address, fee: FeeOutcome) -> Seq<Transfer> {
    match config {
        Some(c) => if fee.treasury_amount > 0 {
            seq![Transfer { token: asset, from: contract, to: c.treasury, amount: fee.treasury_amount }]
        } else {
            Seq::empty()
        },
        None => Seq::empty(),
    }
}

/// Credit the rewards a position earned since its last update.
pub open spec fn spec_accrue(p: Position, index: i128) -> Result<Position, VaultError> {
    match spec_accrued_rewards(p.balance, (index - p.reward_index) as i128) {
        Err(e) => Err(e),
        Ok(a) => if p.pending_rewards + a > i128::MAX || p.pending_rewards + a < i128::MIN {
            Err(VaultError::MathOverflow)
        } else {
            Ok(Position { reward_index: index, pending_rewards: (p.pending_rewards + a) as i128, ..p })
        },
    }
}

pub open spec fn fits(x: int) -> bool {
    i128::MIN <= x <= i128::MAX
}

/// A collected fee never exceeds the gross amount: what the vault keeps and
/// what the treasury gets are both non-negative and add up to the gross.
pub proof fn lemma_fee_outcome_bounds(
    config: Option<FeeConfig>,
    ledger: FeeLedger,
    fee_type: FeeType,
    actor: Address,
    asset: Address,
    gross: i128,
    now: u64,
)
    requires
        gross > 0,
    ensures
        spec_collect_fee(config, ledger, fee_type, actor, asset, gross, now) matches Ok(fee) ==> 0 <= fee.net_amount
            <= gross && fee.treasury_amount >= 0 && fee.net_amount + fee.treasury_amount == gross,
{
    if let Some(c) = config {
        lemma_fee_bounds(gross, spec_rate_for(c, fee_type));
    }
}

/// A position is consistent with the vault's reward index and the user's locks.
pub open spec fn position_ok(p: Position, index: i128, locks: Seq<LockEntry>) -> bool {
    &&& 0 <= p.locked <= p.balance
    &&& p.pending_rewards >= 0
    &&& 0 <= p.reward_index <= index
    &&& p.locked == lock_sum(locks)
    &&& forall|i: int| 0 <= i < locks.len() ==> #[trigger] locks[i].amount > 0
}

/// A single-token reward vault with locks, early-exit penalties, protocol
/// fees, supported side assets and delegated operators. Authorization of the
/// acting account and the token transfers are carried out by the host: each
/// operation states the transfers it needs, and a refused operation changes
/// nothing.
pub struct VaultContract {
    /// This contract's own address, the counterparty of its transfers.
    pub contract: Address,
    pub admin: Option<Address>,
    pub pending_admin: Option<Address>,
    pub paused: bool,
    pub deposit_token: Address,
    pub reward_token: Address,
    pub vesting_period: u64,
    pub total_deposits: i128,
    pub reward_index: i128,
    pub positions: Table<Address, Position>,
    pub locks: Table<Address, Vec<LockEntry>>,
    pub penalty_rate_bps: u32,
    pub total_penalties: i128,
    pub penalties_paid: Table<Address, i128>,
    pub risk_params: Option<RiskParameters>,
    /// The running total that the deposit cap is checked against.
    pub risk_total: i128,
    pub fee_config: Option<FeeConfig>,
    pub fee_ledger: FeeLedger,
    /// Supported side assets and their pools.
    pub assets: Table<Address, AssetPool>,
    /// Positions in side assets, keyed by user and asset.
    pub asset_positions: Table<AddressPair, Position>,
    /// Rights granted with `authorize_delegate`, keyed by owner and delegate.
    pub delegate_permissions: Table<AddressPair, u32>,
    /// Delegations granted with `delegate`, keyed by delegator and operator.
    pub delegations: Table<AddressPair, Delegation>,
    pub max_delegations: u32,
}

impl VaultContract {
    pub open spec fn initialized(&self) -> bool {
        self.admin is Some
    }

    /// A user's position; a user without one holds nothing and is up to date.
    pub open spec fn position(&self, user: Address) -> Position {
        if self.positions.map().contains_key(user) {
            self.positions.map()[user]
        } else {
            Position { balance: 0, locked: 0, reward_index: self.reward_index, pending_rewards: 0 }
        }
    }

    /// A user's locks, oldest first.
    pub open spec fn user_locks(&self, user: Address) -> Seq<LockEntry> {
        if self.locks.map().contains_key(user) {
            self.locks.map()[user]@
        } else {
            Seq::empty()
        }
    }

    /// The vault's invariant: the total is the sum of the balances, and each
    /// position is consistent with the reward index and its locks.
    pub open spec fn wf(&self) -> bool {
        &&& self.reward_index >= 0
        &&& self.total_deposits == balance_sum(self.positions.entries_view())
        &&& self.penalty_rate_bps <= 10_000
        &&& self.total_penalties >= 0
        &&& forall|u: Address| #[trigger]
            self.positions.map().contains_key(u) ==> position_ok(self.positions.map()[u], self.reward_index, self.user_locks(u))
        &&& forall|u: Address| #[trigger]
            self.locks.map().contains_key(u) ==> self.positions.map().contains_key(u)
        &&& forall|a: Address| #[trigger]
            self.assets.map().contains_key(a) ==> self.assets.map()[a].reward_index >= 0
                && self.assets.map()[a].total_deposits == asset_sum(self.asset_positions.entries_view(), a)
        &&& forall|k: AddressPair| #[trigger]
            self.asset_positions.map().contains_key(k) ==> self.assets.map().contains_key(k.second)
                && position_ok(self.asset_positions.map()[k], self.assets.map()[k.second].reward_index, Seq::empty())
    }

    /// The vault's configuration is untouched.
    pub open spec fn same_config(&self, other: &Self) -> bool {
        &&& self.contract == other.contract
        &&& self.admin == other.admin
        &&& self.pending_admin == other.pending_admin
        &&& self.paused == other.paused
        &&& self.deposit_token == other.deposit_token
        &&& self.reward_token == other.reward_token
        &&& self.vesting_period == other.vesting_period
        &&& self.penalty_rate_bps == other.penalty_rate_bps
        &&& self.risk_params == other.risk_params
        &&& self.fee_config == other.fee_config
        &&& self.max_delegations == other.max_delegations
    }

    /// Everything but the book of positions, locks and penalties is untouched.
    pub open spec fn same_settings(&self, other: &Self) -> bool {
        &&& self.same_config(other)
        &&& self.assets == other.assets
        &&& self.asset_positions == other.asset_positions
        &&& self.delegate_permissions == other.delegate_permissions
        &&& self.delegations == other.delegations
    }

    /// The book of the deposit token is untouched.
    pub open spec fn same_main_book(&self, other: &Self) -> bool {
        &&& self.total_deposits == other.total_deposits
        &&& self.reward_index == other.reward_index
        &&& self.positions == other.positions
        &&& self.locks == other.locks
        &&& self.total_penalties == other.total_penalties
        &&& self.penalties_paid == other.penalties_paid
        &&& self.risk_total == other.risk_total
    }

    /// A user's position in a side asset; a user without one holds nothing
    /// and is up to date.
    pub open spec fn asset_position(&self, user: Address, asset: Address) -> Position {
        if self.asset_positions.map().contains_key(AddressPair { first: user, second: asset }) {
            self.asset_positions.map()[AddressPair { first: user, second: asset }]
        } else {
            Position { balance: 0, locked: 0, reward_index: self.assets.map()[asset].reward_index, pending_rewards: 0 }
        }
    }

    pub open spec fn same_locks_and_penalties(&self, other: &Self) -> bool {
        &&& self.locks == other.locks
        &&& self.total_penalties == other.total_penalties
        &&& self.penalties_paid == other.penalties_paid
    }

    pub fn version() -> (v: u32)
        ensures
            v == 1,
    {
        1
    }

    /// A vault at `contract` that has not been initialized yet.
    pub fn new(contract: Address) -> (v: Self)
        ensures
            v.wf(),
            !v.initialized(),
            !v.paused,
            v.contract == contract,
            v.pending_admin is None,
            v.total_deposits == 0,
            v.reward_index == 0,
            v.positions.map() == Map::<Address, Position>::empty(),
            v.locks.map() == Map::<Address, Vec<LockEntry>>::empty(),
            v.penalty_rate_bps == 0,
            v.total_penalties == 0,
            v.penalties_paid.map() == Map::<Address, i128>::empty(),
            v.risk_params is None,
            v.risk_total == 0,
            v.fee_config is None,
            v.fee_ledger == spec_empty_ledger(),
            v.assets.map() == Map::<Address, AssetPool>::empty(),
            v.asset_positions.map() == Map::<AddressPair, Position>::empty(),
            v.delegate_permissions.map() == Map::<AddressPair, u32>::empty(),
            v.delegations.map() == Map::<AddressPair, Delegation>::empty(),
            v.max_delegations == DEFAULT_MAX_DELEGATIONS,
    {
        let v = VaultContract {
            contract,
            admin: None,
            pending_admin: None,
            paused: false,
            deposit_token: contract,
            reward_token: contract,
            vesting_period: 0,
            total_deposits: 0,
            reward_index: 0,
            positions: Table::new(),
            locks: Table::new(),
            penalty_rate_bps: 0,
            total_penalties: 0,
            penalties_paid: Table::new(),
            risk_params: None,
            risk_total: 0,
            fee_config: None,
            fee_ledger: FeeLedger::new(),
            assets: Table::new(),
            asset_positions: Table::new(),
            delegate_permissions: Table::new(),
            delegations: Table::new(),
            max_delegations: DEFAULT_MAX_DELEGATIONS,
        };
        assert(v.positions.entries_view().len() == 0);
        assert(v.asset_positions.entries_view().len() == 0);
        v
    }
}

impl VaultContract {
    pub(crate) fn get_position(&self, user: &Address) -> (p: Position)
        ensures
            p == self.position(*user),
    {
        match self.positions.get(user) {
            Some(p) => *p,
            None => Position { balance: 0, locked: 0, reward_index: self.reward_index, pending_rewards: 0 },
        }
    }

    pub(crate) fn accrue(p: Position, index: i128) -> (r: Result<Position, VaultError>)
        requires
            0 <= p.reward_index <= index,
        ensures
            r == spec_accrue(p, index),
    {
        let earned = match checked_accrued_rewards(p.balance, index - p.reward_index) {
            Ok(a) => a,
            Err(e) => {
                return Err(e);
            },
        };
        match p.pending_rewards.checked_add(earned) {
            Some(v) => Ok(Position { reward_index: index, pending_rewards: v, ..p }),
            None => Err(VaultError::MathOverflow),
        }
    }

    pub(crate) fn collect_fee(&self, fee_type: FeeType, actor: Address, asset: Address, gross: i128, now: u64) -> (r: Result<
        FeeOutcome,
        VaultError,
    >)
        ensures
            r == spec_collect_fee(self.fee_config, self.fee_ledger, fee_type, actor, asset, gross, now),
    {
        let config = match &self.fee_config {
            None => {
                return Ok(FeeOutcome { net_amount: gross, treasury_amount: 0, ledger: self.fee_ledger });
            },
            Some(c) => c,
        };
        let fee_bps = config.rate_for(fee_type);
        if fee_bps == 0 {
            return Ok(FeeOutcome { net_amount: gross, treasury_amount: 0, ledger: self.fee_ledger });
        }
        let receipt = match build_fee_receipt(fee_type, actor, config.treasury, Some(asset), gross, fee_bps, now) {
            Ok(rc) => rc,
            Err(e) => {
                return Err(fee_error_to_vault_error(e));
            },
        };
        if receipt.fee_amount <= 0 {
            return Ok(FeeOutcome { net_amount: gross, treasury_amount: 0, ledger: self.fee_ledger });
        }
        let mut ledger = self.fee_ledger;
        match ledger.record_fee_collection(&receipt) {
            Ok(_) => {},
            Err(e) => {
                return Err(fee_error_to_vault_error(e));
            },
        }
        Ok(FeeOutcome { net_amount: receipt.net_amount, treasury_amount: receipt.treasury_amount, ledger })
    }

    pub(crate) fn push_fee_transfer(&self, transfers: &mut Vec<Transfer>, asset: Address, fee: FeeOutcome)
        ensures
            final(transfers)@ == old(transfers)@ + fee_transfers(self.fee_config, asset, self.contract, fee),
    {
        match &self.fee_config {
            Some(c) => {
                if fee.treasury_amount > 0 {
                    transfers.push(Transfer { token: asset, from: self.contract, to: c.treasury, amount: fee.treasury_amount });
                }
            },
            None => {},
        }
        assert(final(transfers)@ =~= old(transfers)@ + fee_transfers(self.fee_config, asset, self.contract, fee));
    }

    /// Store a user's position, the total moving by the change of its balance.
    pub(crate) fn store_position(&mut self, user: Address, p: Position, total: i128)
        requires
            old(self).wf(),
            position_ok(p, old(self).reward_index, old(self).user_locks(user)),
            total == old(self).total_deposits - old(self).position(user).balance + p.balance,
        ensures
            final(self).wf(),
            final(self).positions.map() == old(self).positions.map().insert(user, p),
            final(self).total_deposits == total,
            final(self).reward_index == old(self).reward_index,
            final(self).same_settings(old(self)),
            final(self).same_locks_and_penalties(old(self)),
            final(self).risk_total == old(self).risk_total,
            final(self).fee_ledger == old(self).fee_ledger,
    {
        let _ = self.positions.len();
        let ghost before = self.positions.entries_view();
        let ghost had = self.positions.map().contains_key(user);
        let ghost idx = self.positions.index_of(user);
        self.positions.insert(user, p);
        self.total_deposits = total;
        proof {
            let e = TableEntry { key: user, value: p };
            if had {
                assert(before[idx].value == old(self).positions.map()[user]);
                lemma_balance_sum_update(before, idx, e);
            } else {
                lemma_balance_sum_push(before, e);
            }
        }
    }

    // -----------------------------------------------------------------------
    // Governance
    // -----------------------------------------------------------------------

    /// Set up the vault: the admin, the token deposited and the token paid as
    /// rewards (they must differ), and the vesting period.
    pub fn initialize(&mut self, admin: Address, deposit_token: Address, reward_token: Address, vesting_period: u64) -> (r:
        Result<(), VaultError>)
        requires
            old(self).wf(),
        ensures
            final(self).wf(),
            old(self).paused ==> r == Err::<(), VaultError>(VaultError::Paused) && *final(self) == *old(self),
            !old(self).paused && old(self).initialized() ==> r == Err::<(), VaultError>(VaultError::AlreadyInitialized)
                && *final(self) == *old(self),
            !old(self).paused && !old(self).initialized() && deposit_token == reward_token ==> r == Err::<(), VaultError>(
                VaultError::InvalidTokenConfiguration,
            ) && *final(self) == *old(self),
            !old(self).paused && !old(self).initialized() && deposit_token != reward_token ==> r is Ok && *final(self)
                == (VaultContract { admin: Some(admin), deposit_token, reward_token, vesting_period, ..*old(self) }),
    {
        if self.paused {
            return Err(VaultError::Paused);
        }
        if self.admin.is_some() {
            return Err(VaultError::AlreadyInitialized);
        }
        if deposit_token == reward_token {
            return Err(VaultError::InvalidTokenConfiguration);
        }
        self.admin = Some(admin);
        self.deposit_token = deposit_token;
        self.reward_token = reward_token;
        self.vesting_period = vesting_period;
        Ok(())
    }

    /// Name the account that may take over as admin.
    pub fn propose_new_admin(&mut self, new_admin: Address) -> (r: Result<(), VaultError>)
        requires
            old(self).wf(),
        ensures
            final(self).wf(),
            !old(self).initialized() ==> r == Err::<(), VaultError>(VaultError::NotInitialized) && *final(self) == *old(self),
            old(self).initialized() ==> r is Ok && *final(self) == (VaultContract { pending_admin: Some(new_admin), ..*old(self) }),
    {
        if self.admin.is_none() {
            return Err(VaultError::NotInitialized);
        }
        self.pending_admin = Some(new_admin);
        Ok(())
    }

    /// The proposed account takes over as admin.
    pub fn accept_admin(&mut self, new_admin: Address) -> (r: Result<(), VaultError>)
        requires
            old(self).wf(),
        ensures
            final(self).wf(),
            !old(self).initialized() ==> r == Err::<(), VaultError>(VaultError::NotInitialized) && *final(self) == *old(self),
            old(self).initialized() && old(self).pending_admin is None ==> r == Err::<(), VaultError>(
                VaultError::NoPendingAdmin,
            ) && *final(self) == *old(self),
            old(self).initialized() && old(self).pending_admin is Some && old(self).pending_admin != Some(new_admin)
                ==> r == Err::<(), VaultError>(VaultError::Unauthorized) && *final(self) == *old(self),
            old(self).initialized() && old(self).pending_admin == Some(new_admin) ==> r is Ok && *final(self) == (
            VaultContract { admin: Some(new_admin), pending_admin: None, ..*old(self) }),
    {
        if self.admin.is_none() {
            return Err(VaultError::NotInitialized);
        }
        let pending = match self.pending_admin {
            Some(p) => p,
            None => {
                return Err(VaultError::NoPendingAdmin);
            },
        };
        if pending != new_admin {
            return Err(VaultError::Unauthorized);
        }
        self.admin = Some(new_admin);
        self.pending_admin = None;
        Ok(())
    }

    /// Stop deposits, withdrawals, locks and claims.
    pub fn pause_contract(&mut self) -> (r: Result<(), VaultError>)
        requires
            old(self).wf(),
        ensures
            final(self).wf(),
            !old(self).initialized() ==> r == Err::<(), VaultError>(VaultError::NotInitialized) && *final(self) == *old(self),
            old(self).initialized() ==> r is Ok && *final(self) == (VaultContract { paused: true, ..*old(self) }),
    {
        if self.admin.is_none() {
            return Err(VaultError::NotInitialized);
        }
        self.paused = true;
        Ok(())
    }

    /// Resume normal operation.
    pub fn unpause_contract(&mut self) -> (r: Result<(), VaultError>)
        requires
            old(self).wf(),
        ensures
            final(self).wf(),
            !old(self).initialized() ==> r == Err::<(), VaultError>(VaultError::NotInitialized) && *final(self) == *old(self),
            old(self).initialized() ==> r is Ok && *final(self) == (VaultContract { paused: false, ..*old(self) }),
    {
        if self.admin.is_none() {
            return Err(VaultError::NotInitialized);
        }
        self.paused = false;
        Ok(())
    }

    /// Set the penalty charged on early withdrawals from locks, at most 100%.
    pub fn set_penalty_rate(&mut self, admin: Address, rate_bps: u32) -> (r: Result<(), VaultError>)
        requires
            old(self).wf(),
        ensures
            final(self).wf(),
            !old(self).initialized() ==> r == Err::<(), VaultError>(VaultError::NotInitialized) && *final(self) == *old(self),
            old(self).initialized() && old(self).admin != Some(admin) ==> r == Err::<(), VaultError>(VaultError::Unauthorized)
                && *final(self) == *old(self),
            old(self).admin == Some(admin) && rate_bps > 10_000 ==> r == Err::<(), VaultError>(
                VaultError::InvalidPenaltyRate,
            ) && *final(self) == *old(self),
            old(self).admin == Some(admin) && rate_bps <= 10_000 ==> r is Ok && *final(self) == (VaultContract {
                penalty_rate_bps: rate_bps,
                ..*old(self)
            }),
    {
        let stored = match self.admin {
            Some(a) => a,
            None => {
                return Err(VaultError::NotInitialized);
            },
        };
        if admin != stored {
            return Err(VaultError::Unauthorized);
        }
        if rate_bps > 10_000 {
            return Err(VaultError::InvalidPenaltyRate);
        }
        self.penalty_rate_bps = rate_bps;
        Ok(())
    }

    /// Replace the contract code: allowed once the vault is initialized; the
    /// host installs the returned code hash.
    pub fn upgrade(&self, new_wasm_hash: Bytes32) -> (r: Result<Bytes32, VaultError>)
        ensures
            r == if self.initialized() {
                Ok::<Bytes32, VaultError>(new_wasm_hash)
            } else {
                Err(VaultError::NotInitialized)
            },
    {
        if self.admin.is_none() {
            return Err(VaultError::NotInitialized);
        }
        Ok(new_wasm_hash)
    }

    // -----------------------------------------------------------------------
    // Risk limits
    // -----------------------------------------------------------------------

    /// Store the first risk limits and restart the tracked total (the admin's
    /// authorization is checked by the host).
    pub fn initialize_risk(&mut self, admin: Address, params: RiskParameters)
        requires
            old(self).wf(),
            old(self).admin == Some(admin),
        ensures
            final(self).wf(),
            *final(self) == (VaultContract { risk_params: Some(params), risk_total: 0, ..*old(self) }),
    {
        self.risk_params = Some(params);
        self.risk_total = 0;
    }

    /// Replace the risk limits.
    pub fn set_risk_params(&mut self, admin: Address, params: RiskParameters)
        requires
            old(self).wf(),
            old(self).admin == Some(admin),
        ensures
            final(self).wf(),
            *final(self) == (VaultContract { risk_params: Some(params), ..*old(self) }),
    {
        self.risk_params = Some(params);
    }

    /// The stored risk limits.
    pub fn get_risk_params(&self) -> (p: RiskParameters)
        requires
            self.risk_params is Some,
        ensures
            Some(p) == self.risk_params,
    {
        match self.risk_params {
            Some(p) => p,
            None => RiskParameters { max_deposit_amount: 0, min_deposit_amount: 0, max_withdrawal_amount: 0, global_cap: 0 },
        }
    }

    /// Check a deposit against the stored limits (all off when none are
    /// stored) and the tracked total.
    pub fn check_deposit(&self, amount: i128) -> (r: Result<(), RiskError>)
        requires
            deposit_reaches_cap_test(effective_params(self.risk_params), amount) ==> fits(self.risk_total + amount),
        ensures
            r == spec_check_deposit(effective_params(self.risk_params), self.risk_total, amount),
    {
        let p = match self.risk_params {
            Some(p) => p,
            None => RiskParameters { max_deposit_amount: 0, min_deposit_amount: 0, max_withdrawal_amount: 0, global_cap: 0 },
        };
        check_deposit_limits(&p, self.risk_total, amount)
    }

    /// Check a withdrawal against the stored limit.
    pub fn check_withdrawal(&self, amount: i128) -> (r: Result<(), RiskError>)
        ensures
            r == spec_check_withdrawal(effective_params(self.risk_params), amount),
    {
        let p = match self.risk_params {
            Some(p) => p,
            None => RiskParameters { max_deposit_amount: 0, min_deposit_amount: 0, max_withdrawal_amount: 0, global_cap: 0 },
        };
        check_withdrawal_limit(&p, amount)
    }

    /// Move the tracked total by `delta`.
    pub fn update_total_deposits(&mut self, delta: i128)
        requires
            old(self).wf(),
            fits(old(self).risk_total + delta),
        ensures
            final(self).wf(),
            *final(self) == (VaultContract { risk_total: (old(self).risk_total + delta) as i128, ..*old(self) }),
    {
        self.risk_total = self.risk_total + delta;
    }

    // -----------------------------------------------------------------------
    // Deposits and withdrawals
    // -----------------------------------------------------------------------

    /// Why a deposit of `amount` is refused before anything moves, if it is:
    /// `authorized` tells whether the acting account may deposit for the
    /// owner, `limited` whether the risk limits apply.
    pub open spec fn deposit_refusal(&self, amount: i128, authorized: bool, limited: bool) -> Option<VaultError> {
        if self.paused {
            Some(VaultError::Paused)
        } else if !self.initialized() {
            Some(VaultError::NotInitialized)
        } else if amount < 0 {
            Some(VaultError::NegativeAmount)
        } else if amount == 0 {
            Some(VaultError::InvalidAmount)
        } else if !authorized {
            Some(VaultError::Unauthorized)
        } else if limited && spec_check_deposit(effective_params(self.risk_params), self.risk_total, amount) is Err {
            Some(VaultError::OperationLimitExceeded)
        } else {
            None
        }
    }

    /// Whether a deposit of `amount` gets past the earlier refusals to the cap
    /// check, the point where `risk_total + amount` is formed; a deposit that
    /// succeeds has passed it.
    pub open spec fn deposit_reaches_cap(&self, amount: i128, authorized: bool) -> bool {
        &&& !self.paused
        &&& self.initialized()
        &&& amount > 0
        &&& authorized
        &&& deposit_reaches_cap_test(effective_params(self.risk_params), amount)
    }

    /// The position after crediting `net` deposited tokens, and the new total.
    pub open spec fn spec_credit(&self, user: Address, net: i128) -> Result<(Position, i128), VaultError> {
        match spec_accrue(self.position(user), self.reward_index) {
            Err(e) => Err(e),
            Ok(p) => if !fits(p.balance + net) || !fits(self.total_deposits + net) {
                Err(VaultError::MathOverflow)
            } else {
                Ok((Position { balance: (p.balance + net) as i128, ..p }, (self.total_deposits + net) as i128))
            },
        }
    }

    /// A deposit of `amount` credited to `owner`: the refusal checks, the
    /// deposit fee, then the credit.
    pub open spec fn spec_deposit(&self, owner: Address, amount: i128, now: u64) -> Result<
        (Position, i128, FeeOutcome),
        VaultError,
    > {
        self.spec_deposit_as(owner, amount, now, true, true)
    }

    /// A deposit made by an acting account: without the risk limits there is
    /// no deposit fee either.
    pub open spec fn spec_deposit_as(&self, owner: Address, amount: i128, now: u64, authorized: bool, limited: bool) -> Result<
        (Position, i128, FeeOutcome),
        VaultError,
    > {
        match self.deposit_refusal(amount, authorized, limited) {
            Some(e) => Err(e),
            None => match (if limited {
                spec_collect_fee(self.fee_config, self.fee_ledger, FeeType::Deposit, owner, self.deposit_token, amount, now)
            } else {
                Ok(no_fee(amount, self.fee_ledger))
            }) {
                Err(e) => Err(e),
                Ok(fee) => match self.spec_credit(owner, fee.net_amount) {
                    Err(e) => Err(e),
                    Ok((p, total)) => Ok((p, total, fee)),
                },
            },
        }
    }

    pub(crate) fn credit(&self, user: &Address, net: i128) -> (r: Result<(Position, i128), VaultError>)
        requires
            self.wf(),
        ensures
            r == self.spec_credit(*user, net),
    {
        let p = self.get_position(user);
        let p = match Self::accrue(p, self.reward_index) {
            Ok(p) => p,
            Err(e) => {
                return Err(e);
            },
        };
        let balance = match p.balance.checked_add(net) {
            Some(b) => b,
            None => {
                return Err(VaultError::MathOverflow);
            },
        };
        let total = match self.total_deposits.checked_add(net) {
            Some(t) => t,
            None => {
                return Err(VaultError::MathOverflow);
            },
        };
        Ok((Position { balance, ..p }, total))
    }

    pub(crate) fn do_deposit(&mut self, owner: Address, payer: Address, amount: i128, now: u64, authorized: bool, limited: bool) -> (r:
        Result<Settlement, VaultError>)
        requires
            old(self).wf(),
            limited && old(self).deposit_reaches_cap(amount, authorized) ==> fits(old(self).risk_total + amount),
        ensures
            final(self).wf(),
            match old(self).spec_deposit_as(owner, amount, now, authorized, limited) {
                Err(e) => r is Err && r->Err_0 == e && *final(self) == *old(self),
                Ok((p, total, fee)) => r is Ok && r->Ok_0.amount == fee.net_amount && r->Ok_0.transfers@ == seq![
                    Transfer { token: old(self).deposit_token, from: payer, to: old(self).contract, amount },
                ] + fee_transfers(old(self).fee_config, old(self).deposit_token, old(self).contract, fee)
                    && final(self).positions.map() == old(self).positions.map().insert(owner, p)
                    && final(self).total_deposits == total && final(self).fee_ledger == fee.ledger
                    && final(self).risk_total == old(self).risk_total + (if limited {
                    amount
                } else {
                    0
                }) && final(self).reward_index == old(self).reward_index && final(self).same_settings(old(self))
                    && final(self).same_locks_and_penalties(old(self)),
            },
    {
        if self.paused {
            return Err(VaultError::Paused);
        }
        if self.admin.is_none() {
            return Err(VaultError::NotInitialized);
        }
        match validate_positive_amount(amount) {
            Ok(()) => {},
            Err(e) => {
                return Err(e);
            },
        }
        if !authorized {
            return Err(VaultError::Unauthorized);
        }
        if limited && self.check_deposit(amount).is_err() {
            return Err(VaultError::OperationLimitExceeded);
        }
        let token = self.deposit_token;
        let fee = if limited {
            match self.collect_fee(FeeType::Deposit, owner, token, amount, now) {
                Ok(f) => f,
                Err(e) => {
                    return Err(e);
                },
            }
        } else {
            FeeOutcome { net_amount: amount, treasury_amount: 0, ledger: self.fee_ledger }
        };
        proof {
            lemma_fee_outcome_bounds(self.fee_config, self.fee_ledger, FeeType::Deposit, owner, token, amount, now);
        }
        let (p, total) = match self.credit(&owner, fee.net_amount) {
            Ok(x) => x,
            Err(e) => {
                return Err(e);
            },
        };
        let mut transfers: Vec<Transfer> = Vec::new();
        transfers.push(Transfer { token, from: payer, to: self.contract, amount });
        self.push_fee_transfer(&mut transfers, token, fee);
        self.store_position(owner, p, total);
        self.fee_ledger = fee.ledger;
        if limited {
            self.risk_total = self.risk_total + amount;
        }
        Ok(Settlement { amount: fee.net_amount, transfers })
    }

    /// Deposit `amount` of the deposit token from `from`, less the deposit
    /// fee, which goes to the treasury (the depositor's authorization is
    /// checked by the host). `now` is the ledger time.
    ///
    /// The position is credited once, with the amount net of the fee, and
    /// the risk total grows by the gross `amount`, so the deposit cap counts
    /// every deposit. Once the deposit reaches the cap check, `risk_total +
    /// amount` must fit in an `i128`: that check forms the sum.
    pub fn deposit(&mut self, from: Address, amount: i128, now: u64) -> (r: Result<Settlement, VaultError>)
        requires
            old(self).wf(),
            old(self).deposit_reaches_cap(amount, true) ==> fits(old(self).risk_total + amount),
        ensures
            final(self).wf(),
            match old(self).spec_deposit(from, amount, now) {
                Err(e) => r is Err && r->Err_0 == e && *final(self) == *old(self),
                Ok((p, total, fee)) => r is Ok && r->Ok_0.amount == fee.net_amount && r->Ok_0.transfers@ == seq![
                    Transfer { token: old(self).deposit_token, from: from, to: old(self).contract, amount },
                ] + fee_transfers(old(self).fee_config, old(self).deposit_token, old(self).contract, fee)
                    && final(self).positions.map() == old(self).positions.map().insert(from, p)
                    && final(self).total_deposits == total && final(self).fee_ledger == fee.ledger
                    && final(self).risk_total == old(self).risk_total + amount && final(self).reward_index
                    == old(self).reward_index && final(self).same_settings(old(self)) && final(self).same_locks_and_penalties(
                    old(self),
                ),
            },
    {
        self.do_deposit(from, from, amount, now, true, true)
    }

    /// Why a withdrawal of `amount` is refused before anything moves, if it
    /// is: `authorized` tells whether the acting account may withdraw for the
    /// owner, `limited` whether the risk limits apply.
    pub open spec fn withdrawal_refusal(&self, amount: i128, authorized: bool, limited: bool) -> Option<VaultError> {
        if self.paused {
            Some(VaultError::Paused)
        } else if !self.initialized() {
            Some(VaultError::NotInitialized)
        } else if amount < 0 {
            Some(VaultError::NegativeAmount)
        } else if amount == 0 {
            Some(VaultError::InvalidAmount)
        } else if !authorized {
            Some(VaultError::Unauthorized)
        } else if limited && spec_check_withdrawal(effective_params(self.risk_params), amount) is Err {
            Some(VaultError::OperationLimitExceeded)
        } else {
            None
        }
    }

    /// The position after taking `amount` unlocked tokens out, and the new total.
    pub open spec fn spec_debit(&self, user: Address, amount: i128) -> Result<(Position, i128), VaultError> {
        match spec_accrue(self.position(user), self.reward_index) {
            Err(e) => Err(e),
            Ok(p) => if amount > p.balance - p.locked {
                Err(VaultError::InsufficientBalance)
            } else {
                Ok((Position { balance: (p.balance - amount) as i128, ..p }, (self.total_deposits - amount) as i128))
            },
        }
    }

    pub open spec fn spec_withdraw(&self, owner: Address, amount: i128) -> Result<(Position, i128), VaultError> {
        self.spec_withdraw_as(owner, amount, true, true)
    }

    pub open spec fn spec_withdraw_as(&self, owner: Address, amount: i128, authorized: bool, limited: bool) -> Result<
        (Position, i128),
        VaultError,
    > {
        match self.withdrawal_refusal(amount, authorized, limited) {
            Some(e) => Err(e),
            None => self.spec_debit(owner, amount),
        }
    }

    pub(crate) fn debit(&self, user: &Address, amount: i128) -> (r: Result<(Position, i128), VaultError>)
        requires
            self.wf(),
            amount > 0,
        ensures
            r == self.spec_debit(*user, amount),
            r matches Ok((p, total)) ==> position_ok(p, self.reward_index, self.user_locks(*user))
                && total == self.total_deposits - self.position(*user).balance + p.balance,
    {
        let p = self.get_position(user);
        let p = match Self::accrue(p, self.reward_index) {
            Ok(p) => p,
            Err(e) => {
                return Err(e);
            },
        };
        if amount > p.balance - p.locked {
            return Err(VaultError::InsufficientBalance);
        }
        let n = self.positions.len();
        proof {
            if self.positions.map().contains_key(*user) {
                let i = choose|i: int| 0 <= i < n && #[trigger] self.positions.entries_view()[i].key == *user;
                assert forall|j: int| 0 <= j < self.positions.entries_view().len() implies #[trigger] self.positions.entries_view()[j].value.balance
                    >= 0 by {
                    assert(self.positions.map().contains_key(self.positions.entries_view()[j].key));
                }
                lemma_balance_within_sum(self.positions.entries_view(), i);
            }
        }
        Ok((Position { balance: p.balance - amount, ..p }, self.total_deposits - amount))
    }

    pub(crate) fn do_withdraw(&mut self, owner: Address, to: Address, amount: i128, authorized: bool, limited: bool) -> (r: Result<
        Settlement,
        VaultError,
    >)
        requires
            old(self).wf(),
            limited && old(self).spec_withdraw_as(owner, amount, authorized, limited) is Ok ==> fits(
                old(self).risk_total - amount,
            ),
        ensures
            final(self).wf(),
            match old(self).spec_withdraw_as(owner, amount, authorized, limited) {
                Err(e) => r is Err && r->Err_0 == e && *final(self) == *old(self),
                Ok((p, total)) => r is Ok && r->Ok_0.amount == amount && r->Ok_0.transfers@ == seq![
                    Transfer { token: old(self).deposit_token, from: old(self).contract, to, amount },
                ] && final(self).positions.map() == old(self).positions.map().insert(owner, p)
                    && final(self).total_deposits == total && final(self).fee_ledger == old(self).fee_ledger
                    && final(self).risk_total == old(self).risk_total - (if limited {
                    amount
                } else {
                    0
                }) && final(self).reward_index == old(self).reward_index && final(self).same_settings(old(self))
                    && final(self).same_locks_and_penalties(old(self)),
            },
    {
        if self.paused {
            return Err(VaultError::Paused);
        }
        if self.admin.is_none() {
            return Err(VaultError::NotInitialized);
        }
        match validate_positive_amount(amount) {
            Ok(()) => {},
            Err(e) => {
                return Err(e);
            },
        }
        if !authorized {
            return Err(VaultError::Unauthorized);
        }
        if limited && self.check_withdrawal(amount).is_err() {
            return Err(VaultError::OperationLimitExceeded);
        }
        let (p, total) = match self.debit(&owner, amount) {
            Ok(x) => x,
            Err(e) => {
                return Err(e);
            },
        };
        let mut transfers: Vec<Transfer> = Vec::new();
        transfers.push(Transfer { token: self.deposit_token, from: self.contract, to, amount });
        self.store_position(owner, p, total);
        if limited {
            self.risk_total = self.risk_total - amount;
        }
        assert(transfers@ =~= seq![Transfer { token: old(self).deposit_token, from: old(self).contract, to, amount }]);
        Ok(Settlement { amount, transfers })
    }

    /// Withdraw `amount` unlocked tokens to `to` (the owner's authorization
    /// is checked by the host).
    pub fn withdraw(&mut self, to: Address, amount: i128) -> (r: Result<Settlement, VaultError>)
        requires
            old(self).wf(),
            old(self).spec_withdraw(to, amount) is Ok ==> fits(old(self).risk_total - amount),
        ensures
            final(self).wf(),
            match old(self).spec_withdraw(to, amount) {
                Err(e) => r is Err && r->Err_0 == e && *final(self) == *old(self),
                Ok((p, total)) => r is Ok && r->Ok_0.amount == amount && r->Ok_0.transfers@ == seq![
                    Transfer { token: old(self).deposit_token, from: old(self).contract, to, amount },
                ] && final(self).positions.map() == old(self).positions.map().insert(to, p)
                    && final(self).total_deposits == total && final(self).fee_ledger == old(self).fee_ledger
                    && final(self).risk_total == old(self).risk_total - amount && final(self).reward_index
                    == old(self).reward_index && final(self).same_settings(old(self)) && final(self).same_locks_and_penalties(
                    old(self),
                ),
            },
    {
        self.do_withdraw(to, to, amount, true, true)
    }
}

} // verus!
