use vstd::prelude::*;
use vstd::string::*;

verus! {

#[derive(Debug, PartialEq, Eq, Clone, Copy, Structural)]
pub enum LifecycleState {
    Deployed,
    Initialized,
    Active,
    Maintenance,
    Deprecated,
    Retired,
}

/// The transitions a contract may make between lifecycle states.
pub open spec fn valid_transition(from: LifecycleState, to: LifecycleState) -> bool {
    match (from, to) {
        (LifecycleState::Deployed, LifecycleState::Initialized) => true,
        (LifecycleState::Initialized, LifecycleState::Active) => true,
        (LifecycleState::Active, LifecycleState::Maintenance) => true,
        (LifecycleState::Maintenance, LifecycleState::Active) => true,
        (LifecycleState::Active, LifecycleState::Deprecated) => true,
        (LifecycleState::Deprecated, LifecycleState::Retired) => true,
        _ => false,
    }
}

pub open spec fn unauthorized_message() -> Seq<char> {
    "Unauthorized: Only administrative controls work"@
}

pub open spec fn invalid_transition_message() -> Seq<char> {
    "Invalid state transition rejected"@
}

pub struct ContractLifecycle {
    pub current_state: LifecycleState,
    pub admin: String,
}

impl ContractLifecycle {
    pub fn new(admin: String) -> (l: Self)
        ensures
            l.current_state == LifecycleState::Deployed,
            l.admin == admin,
    {
        Self { current_state: LifecycleState::Deployed, admin }
    }

    /// Whether the lifecycle allows the move from `from` to `to`.
    pub fn is_valid_transition(from: LifecycleState, to: LifecycleState) -> (b: bool)
        ensures
            b == valid_transition(from, to),
    {
        match (from, to) {
            (LifecycleState::Deployed, LifecycleState::Initialized) => true,
            (LifecycleState::Initialized, LifecycleState::Active) => true,
            (LifecycleState::Active, LifecycleState::Maintenance) => true,
            (LifecycleState::Maintenance, LifecycleState::Active) => true,
            (LifecycleState::Active, LifecycleState::Deprecated) => true,
            (LifecycleState::Deprecated, LifecycleState::Retired) => true,
            _ => false,
        }
    }

    /// Move to `next_state` on behalf of `sender`; only the admin may, and only along a valid transition.
    pub fn transition_to(&mut self, sender: &str, next_state: LifecycleState) -> (r: Result<(), &'static str>)
        ensures
            final(self).admin == old(self).admin,
            sender@ != old(self).admin@ ==> (r matches Err(m) && m@ == unauthorized_message())
                && final(self).current_state == old(self).current_state,
            sender@ == old(self).admin@ && !valid_transition(old(self).current_state, next_state)
                ==> (r matches Err(m) && m@ == invalid_transition_message())
                && final(self).current_state == old(self).current_state,
            sender@ == old(self).admin@ && valid_transition(old(self).current_state, next_state)
                ==> r is Ok && final(self).current_state == next_state,
    {
        let s = String::from_str(sender);
        if s != self.admin {
            return Err("Unauthorized: Only administrative controls work");
        }
        if Self::is_valid_transition(self.current_state, next_state) {
            self.current_state = next_state;
            Ok(())
        } else {
            Err("Invalid state transition rejected")
        }
    }
}

/// Retirement is final: no transition leaves the `Retired` state.
pub proof fn lemma_retired_is_terminal(to: LifecycleState)
    ensures
        !valid_transition(LifecycleState::Retired, to),
{
}

/// No transition returns to `Deployed`: a contract is deployed only once.
pub proof fn lemma_deployed_never_reentered(from: LifecycleState)
    ensures
        !valid_transition(from, LifecycleState::Deployed),
{
}

/// Every transition into `Active` comes from `Initialized` or `Maintenance`.
pub proof fn lemma_activation_sources(from: LifecycleState)
    ensures
        valid_transition(from, LifecycleState::Active) <==> (from == LifecycleState::Initialized
            || from == LifecycleState::Maintenance),
{
}

/// A contract is initialized only right after deployment.
pub proof fn lemma_initialization_source(from: LifecycleState)
    ensures
        valid_transition(from, LifecycleState::Initialized) <==> from == LifecycleState::Deployed,
{
}

/// Maintenance is entered only from active service.
pub proof fn lemma_maintenance_source(from: LifecycleState)
    ensures
        valid_transition(from, LifecycleState::Maintenance) <==> from == LifecycleState::Active,
{
}

/// Deprecation is entered only from active service.
pub proof fn lemma_deprecation_source(from: LifecycleState)
    ensures
        valid_transition(from, LifecycleState::Deprecated) <==> from == LifecycleState::Active,
{
}

/// A contract retires only once deprecated: every transition into `Retired`
/// comes from `Deprecated`, and none skips deprecation.
pub proof fn lemma_retirement_source(from: LifecycleState)
    ensures
        valid_transition(from, LifecycleState::Retired) <==> from == LifecycleState::Deprecated,
{
}

} // verus!
