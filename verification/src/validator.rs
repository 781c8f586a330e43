use vstd::prelude::*;
use vstd::string::*;

use crate::events_index::MAX_GLOBAL_EVENTS;
use crate::state::{ProtocolStates, RewardState, StakingState, TreasuryState, VaultState};

verus! {

#[derive(Clone, Copy, Debug, PartialEq, Eq, Structural)]
pub enum Severity {
    Critical,
    Major,
    Minor,
    Info,
}

#[derive(Clone, Copy, Debug, PartialEq, Eq, Structural)]
pub enum ValidationStatus {
    Passed,
    Failed,
    Warning,
}

/// The outcome of one consistency rule.
#[derive(Clone, Debug)]
pub struct RuleResult {
    pub name: String,
    pub status: ValidationStatus,
    pub severity: Severity,
    pub message: String,
}

/// The outcome of every rule at one moment, with the counts per status.
#[derive(Clone, Debug)]
pub struct ValidationReport {
    pub timestamp: u64,
    pub ledger: u32,
    pub overall: ValidationStatus,
    pub rules: Vec<RuleResult>,
    pub passed: u32,
    pub failed: u32,
    pub warnings: u32,
}

/// A rule's result as plain values.
pub struct RuleView {
    pub name: Seq<char>,
    pub status: ValidationStatus,
    pub severity: Severity,
    pub message: Seq<char>,
}

impl View for RuleResult {
    type V = RuleView;

    open spec fn view(&self) -> RuleView {
        RuleView { name: self.name@, status: self.status, severity: self.severity, message: self.message@ }
    }
}

/// The result of a rule named `name` that either holds or reports `on_break`.
pub open spec fn outcome(name: Seq<char>, ok: bool, severity: Severity, on_break: ValidationStatus) -> RuleView {
    RuleView {
        name,
        status: if ok {
            ValidationStatus::Passed
        } else {
            on_break
        },
        severity,
        message: if ok {
            "ok"@
        } else if on_break == ValidationStatus::Warning {
            "warn"@
        } else {
            "fail"@
        },
    }
}

fn make_result(name: &str, ok: bool, severity: Severity, on_break: ValidationStatus) -> (r: RuleResult)
    requires
        on_break != ValidationStatus::Passed,
    ensures
        r@ == outcome(name@, ok, severity, on_break),
{
    let message = if ok {
        String::from_str("ok")
    } else if on_break == ValidationStatus::Warning {
        String::from_str("warn")
    } else {
        String::from_str("fail")
    };
    RuleResult {
        name: String::from_str(name),
        status: if ok {
            ValidationStatus::Passed
        } else {
            on_break
        },
        severity,
        message,
    }
}

pub open spec fn vault_staking_ok(vault: VaultState, staking: StakingState) -> bool {
    vault == VaultState::Active || staking == StakingState::Uninitialized
}

pub open spec fn vault_treasury_ok(vault: VaultState, treasury: TreasuryState) -> bool {
    vault != VaultState::Terminated || treasury == TreasuryState::Insolvent || treasury
        == TreasuryState::EmergencyRestricted
}

pub open spec fn reward_vault_ok(vault: VaultState, reward: RewardState) -> bool {
    reward == RewardState::Idle || vault != VaultState::Uninitialized
}

pub open spec fn vault_reward_ok(vault: VaultState, reward: RewardState) -> bool {
    !(vault == VaultState::Paused && reward == RewardState::Distributing)
}

pub open spec fn treasury_vault_ok(vault: VaultState, treasury: TreasuryState) -> bool {
    treasury != TreasuryState::EmergencyRestricted || vault == VaultState::Paused || vault == VaultState::Locked
}

/// Staking may only run in an active vault.
pub fn rule_vault_staking_consistency(vault: VaultState, staking: StakingState) -> (r: RuleResult)
    ensures
        r@ == outcome("vault_stk"@, vault_staking_ok(vault, staking), Severity::Critical, ValidationStatus::Failed),
{
    let ok = vault == VaultState::Active || staking == StakingState::Uninitialized;
    make_result("vault_stk", ok, Severity::Critical, ValidationStatus::Failed)
}

/// A terminated vault needs an insolvent or emergency-restricted treasury.
pub fn rule_vault_treasury_consistency(vault: VaultState, treasury: TreasuryState) -> (r: RuleResult)
    ensures
        r@ == outcome("vault_trs"@, vault_treasury_ok(vault, treasury), Severity::Critical, ValidationStatus::Failed),
{
    let ok = vault != VaultState::Terminated || treasury == TreasuryState::Insolvent || treasury
        == TreasuryState::EmergencyRestricted;
    make_result("vault_trs", ok, Severity::Critical, ValidationStatus::Failed)
}

/// Rewards may only move once the vault is initialized.
pub fn rule_reward_vault_consistency(vault: VaultState, reward: RewardState) -> (r: RuleResult)
    ensures
        r@ == outcome("rwd_vault"@, reward_vault_ok(vault, reward), Severity::Critical, ValidationStatus::Failed),
{
    let ok = reward == RewardState::Idle || vault != VaultState::Uninitialized;
    make_result("rwd_vault", ok, Severity::Critical, ValidationStatus::Failed)
}

/// A paused vault should not be distributing rewards (a warning).
pub fn rule_vault_reward_consistency(vault: VaultState, reward: RewardState) -> (r: RuleResult)
    ensures
        r@ == outcome("vault_rwd"@, vault_reward_ok(vault, reward), Severity::Major, ValidationStatus::Warning),
{
    let ok = !(vault == VaultState::Paused && reward == RewardState::Distributing);
    make_result("vault_rwd", ok, Severity::Major, ValidationStatus::Warning)
}

/// An emergency-restricted treasury needs a paused or locked vault.
pub fn rule_treasury_vault_consistency(vault: VaultState, treasury: TreasuryState) -> (r: RuleResult)
    ensures
        r@ == outcome("treas_vlt"@, treasury_vault_ok(vault, treasury), Severity::Critical, ValidationStatus::Failed),
{
    let ok = treasury != TreasuryState::EmergencyRestricted || vault == VaultState::Paused || vault
        == VaultState::Locked;
    make_result("treas_vlt", ok, Severity::Critical, ValidationStatus::Failed)
}

/// Every listed resource has a stored entry; `present` tells, for each
/// listed resource in turn, whether its entry is stored.
pub fn rule_resource_invariant(present: &Vec<bool>) -> (r: RuleResult)
    ensures
        r@ == outcome(
            "rsrc_inv"@,
            forall|i: int| 0 <= i < present@.len() ==> present@[i],
            Severity::Major,
            ValidationStatus::Failed,
        ),
{
    let mut ok = true;
    let mut i: usize = 0;
    while i < present.len()
        invariant
            0 <= i <= present@.len(),
            ok == forall|j: int| 0 <= j < i ==> present@[j],
        decreases present.len() - i,
    {
        if !present[i] {
            ok = false;
        }
        i = i + 1;
    }
    make_result("rsrc_inv", ok, Severity::Major, ValidationStatus::Failed)
}

/// The accounting totals agree with their categories, as `consistent` reports.
pub fn rule_accounting_consistency(consistent: bool) -> (r: RuleResult)
    ensures
        r@ == outcome("acct_cons"@, consistent, Severity::Critical, ValidationStatus::Failed),
{
    make_result("acct_cons", consistent, Severity::Critical, ValidationStatus::Failed)
}

/// The global event log holds at most 200 entries.
pub fn rule_event_log_invariant(log_len: usize) -> (r: RuleResult)
    ensures
        r@ == outcome("evt_log"@, log_len <= MAX_GLOBAL_EVENTS, Severity::Minor, ValidationStatus::Failed),
{
    make_result("evt_log", log_len <= MAX_GLOBAL_EVENTS, Severity::Minor, ValidationStatus::Failed)
}

pub open spec fn results_view(s: Seq<RuleResult>) -> Seq<RuleView> {
    s.map_values(|r: RuleResult| r@)
}

/// The results of the rules on the protocol's states, in order.
pub open spec fn consistency_outcomes(states: ProtocolStates) -> Seq<RuleView> {
    seq![
        outcome("vault_stk"@, vault_staking_ok(states.vault, states.staking), Severity::Critical, ValidationStatus::Failed),
        outcome("vault_trs"@, vault_treasury_ok(states.vault, states.treasury), Severity::Critical, ValidationStatus::Failed),
        outcome("rwd_vault"@, reward_vault_ok(states.vault, states.reward), Severity::Critical, ValidationStatus::Failed),
        outcome("vault_rwd"@, vault_reward_ok(states.vault, states.reward), Severity::Major, ValidationStatus::Warning),
        outcome("treas_vlt"@, treasury_vault_ok(states.vault, states.treasury), Severity::Critical, ValidationStatus::Failed),
    ]
}

/// Run the rules on the protocol's states.
pub fn validate_consistency_rules(vault: VaultState, staking: StakingState, reward: RewardState, treasury: TreasuryState) -> (r: Vec<RuleResult>)
    ensures
        results_view(r@) == consistency_outcomes(ProtocolStates { vault, staking, reward, treasury }),
{
    let mut v: Vec<RuleResult> = Vec::new();
    v.push(rule_vault_staking_consistency(vault, staking));
    v.push(rule_vault_treasury_consistency(vault, treasury));
    v.push(rule_reward_vault_consistency(vault, reward));
    v.push(rule_vault_reward_consistency(vault, reward));
    v.push(rule_treasury_vault_consistency(vault, treasury));
    assert(results_view(v@) =~= consistency_outcomes(ProtocolStates { vault, staking, reward, treasury }));
    v
}

/// The results of the checks on what is stored, in order.
pub open spec fn storage_outcomes(present: Seq<bool>, accounting_consistent: bool, log_len: usize) -> Seq<RuleView> {
    seq![
        outcome("rsrc_inv"@, forall|i: int| 0 <= i < present.len() ==> present[i], Severity::Major, ValidationStatus::Failed),
        outcome("acct_cons"@, accounting_consistent, Severity::Critical, ValidationStatus::Failed),
        outcome("evt_log"@, log_len <= MAX_GLOBAL_EVENTS, Severity::Minor, ValidationStatus::Failed),
    ]
}

/// Run the checks on what is stored: the resource list, the accounting
/// totals and the length of the global event log.
pub fn validate_storage_invariants(present: &Vec<bool>, accounting_consistent: bool, log_len: usize) -> (r: Vec<RuleResult>)
    ensures
        results_view(r@) == storage_outcomes(present@, accounting_consistent, log_len),
{
    let mut v: Vec<RuleResult> = Vec::new();
    v.push(rule_resource_invariant(present));
    v.push(rule_accounting_consistency(accounting_consistent));
    v.push(rule_event_log_invariant(log_len));
    assert(results_view(v@) =~= storage_outcomes(present@, accounting_consistent, log_len));
    v
}

/// How many results have `status`.
pub open spec fn count_status(s: Seq<RuleView>, status: ValidationStatus) -> nat
    decreases s.len(),
{
    if s.len() == 0 {
        0
    } else {
        count_status(s.drop_last(), status) + if s.last().status == status {
            1nat
        } else {
            0nat
        }
    }
}

/// The overall status: failed if any rule failed, else warning if any warned.
pub open spec fn overall_status(s: Seq<RuleView>) -> ValidationStatus {
    if count_status(s, ValidationStatus::Failed) > 0 {
        ValidationStatus::Failed
    } else if count_status(s, ValidationStatus::Warning) > 0 {
        ValidationStatus::Warning
    } else {
        ValidationStatus::Passed
    }
}

proof fn lemma_counts_add_up(s: Seq<RuleView>)
    ensures
        count_status(s, ValidationStatus::Passed) + count_status(s, ValidationStatus::Failed) + count_status(
            s,
            ValidationStatus::Warning,
        ) == s.len(),
    decreases s.len(),
{
    if s.len() > 0 {
        lemma_counts_add_up(s.drop_last());
    }
}

/// The full report at `timestamp` and `ledger`: the rules on the protocol's
/// states, then the checks on what is stored, with the counts per status.
pub fn generate_report(
    timestamp: u64,
    ledger: u32,
    states: ProtocolStates,
    present: &Vec<bool>,
    accounting_consistent: bool,
    log_len: usize,
) -> (r: ValidationReport)
    ensures
        results_view(r.rules@) == consistency_outcomes(states) + storage_outcomes(present@, accounting_consistent, log_len),
        r.timestamp == timestamp,
        r.ledger == ledger,
        r.passed == count_status(results_view(r.rules@), ValidationStatus::Passed),
        r.failed == count_status(results_view(r.rules@), ValidationStatus::Failed),
        r.warnings == count_status(results_view(r.rules@), ValidationStatus::Warning),
        r.passed + r.failed + r.warnings == r.rules@.len(),
        r.overall == overall_status(results_view(r.rules@)),
{
    let mut all = validate_consistency_rules(states.vault, states.staking, states.reward, states.treasury);
    let mut stored = validate_storage_invariants(present, accounting_consistent, log_len);
    let ghost first = all@;
    let ghost second = stored@;
    all.append(&mut stored);
    assert(results_view(all@) =~= results_view(first) + results_view(second));
    let mut passed: u32 = 0;
    let mut failed: u32 = 0;
    let mut warnings: u32 = 0;
    let mut i: usize = 0;
    let ghost rv = results_view(all@);
    while i < all.len()
        invariant
            0 <= i <= all@.len(),
            all@.len() == 8,
            rv == results_view(all@),
            passed == count_status(rv.take(i as int), ValidationStatus::Passed),
            failed == count_status(rv.take(i as int), ValidationStatus::Failed),
            warnings == count_status(rv.take(i as int), ValidationStatus::Warning),
            passed + failed + warnings == i,
        decreases all.len() - i,
    {
        proof {
            assert(rv.take(i + 1).drop_last() =~= rv.take(i as int));
            assert(rv.take(i + 1).last() == all@[i as int]@);
        }
        match all[i].status {
            ValidationStatus::Passed => passed = passed + 1,
            ValidationStatus::Failed => failed = failed + 1,
            ValidationStatus::Warning => warnings = warnings + 1,
        }
        i = i + 1;
    }
    proof {
        assert(rv.take(all@.len() as int) =~= rv);
        lemma_counts_add_up(rv);
    }
    let overall = if failed > 0 {
        ValidationStatus::Failed
    } else if warnings > 0 {
        ValidationStatus::Warning
    } else {
        ValidationStatus::Passed
    };
    ValidationReport { timestamp, ledger, overall, rules: all, passed, failed, warnings }
}

/// On the states a protocol starts in, every consistency rule passes.
pub proof fn lemma_initial_states_consistent()
    ensures
        forall|i: int|
            0 <= i < 5 ==> #[trigger] consistency_outcomes(
                ProtocolStates {
                    vault: VaultState::Uninitialized,
                    staking: StakingState::Uninitialized,
                    reward: RewardState::Idle,
                    treasury: TreasuryState::Normal,
                },
            )[i].status == ValidationStatus::Passed,
{
}

/// What the consistency rules demand of the states, rule by rule: staking
/// runs only in an active vault; a terminated vault leaves the treasury
/// insolvent or restricted; rewards move only once the vault is set up; a
/// paused vault distributes nothing; an emergency-restricted treasury goes
/// with a paused or locked vault.
pub proof fn lemma_consistency_rules_meaning(s: ProtocolStates)
    ensures
        vault_staking_ok(s.vault, s.staking) <==> (s.staking == StakingState::Active ==> s.vault == VaultState::Active),
        vault_treasury_ok(s.vault, s.treasury) <==> (s.vault == VaultState::Terminated ==> s.treasury
            != TreasuryState::Normal),
        reward_vault_ok(s.vault, s.reward) <==> (s.vault == VaultState::Uninitialized ==> s.reward == RewardState::Idle),
        vault_reward_ok(s.vault, s.reward) <==> (s.vault == VaultState::Paused ==> s.reward != RewardState::Distributing),
        treasury_vault_ok(s.vault, s.treasury) <==> (s.treasury == TreasuryState::EmergencyRestricted ==> (s.vault
            == VaultState::Paused || s.vault == VaultState::Locked)),
{
}

} // verus!
