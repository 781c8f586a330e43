use vstd::prelude::*;

verus! {

/// Where the vault stands in its life.
#[derive(Clone, Copy, Debug, PartialEq, Eq, Structural)]
pub enum VaultState {
    Uninitialized,
    Active,
    Paused,
    Locked,
    Terminated,
}

/// Whether staking has started.
#[derive(Clone, Copy, Debug, PartialEq, Eq, Structural)]
pub enum StakingState {
    Uninitialized,
    Active,
}

/// What the reward engine is doing.
#[derive(Clone, Copy, Debug, PartialEq, Eq, Structural)]
pub enum RewardState {
    Idle,
    Accruing,
    Distributing,
}

/// The health of the treasury.
#[derive(Clone, Copy, Debug, PartialEq, Eq, Structural)]
pub enum TreasuryState {
    Normal,
    Insolvent,
    EmergencyRestricted,
}

/// The states of the protocol's machines at one moment.
#[derive(Clone, Copy, Debug, PartialEq, Eq, Structural)]
pub struct ProtocolStates {
    pub vault: VaultState,
    pub staking: StakingState,
    pub reward: RewardState,
    pub treasury: TreasuryState,
}

impl ProtocolStates {
    /// The states a protocol starts in.
    pub fn initial() -> (s: Self)
        ensures
            s == (ProtocolStates {
                vault: VaultState::Uninitialized,
                staking: StakingState::Uninitialized,
                reward: RewardState::Idle,
                treasury: TreasuryState::Normal,
            }),
    {
        ProtocolStates {
            vault: VaultState::Uninitialized,
            staking: StakingState::Uninitialized,
            reward: RewardState::Idle,
            treasury: TreasuryState::Normal,
        }
    }
}

} // verus!
