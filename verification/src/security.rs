use vstd::prelude::*;

use std::marker::PhantomData;

use crate::interfaces::Address;

verus! {

/// Why an access policy refused a request.
#[derive(Clone, Copy, Debug, PartialEq, Eq, Structural)]
pub struct PolicyViolation {
    pub code: u32,
}

/// A policy that names, for each request, the account whose authorization
/// the host must check.
pub struct Authenticated<F, Context> {
    pub get_actor: F,
    pub context: PhantomData<Context>,
}

impl<F: Fn(&Context) -> Address, Context> Authenticated<F, Context> {
    pub fn new(get_actor: F) -> (p: Self)
        ensures
            p.get_actor == get_actor,
    {
        Authenticated { get_actor, context: PhantomData }
    }

    /// The account that must have authorized the request.
    pub fn actor(&self, context: &Context) -> (a: Address)
        requires
            call_requires(self.get_actor, (context,)),
        ensures
            call_ensures(self.get_actor, (context,), a),
    {
        (self.get_actor)(context)
    }
}

/// A policy that two addresses read from the request are the same.
pub struct MatchAddress<F1, F2, Context> {
    pub get_a: F1,
    pub get_b: F2,
    pub violation: PolicyViolation,
    pub context: PhantomData<Context>,
}

impl<F1: Fn(&Context) -> Address, F2: Fn(&Context) -> Address, Context> MatchAddress<F1, F2, Context> {
    pub fn new(get_a: F1, get_b: F2, violation: PolicyViolation) -> (p: Self)
        ensures
            p.get_a == get_a,
            p.get_b == get_b,
            p.violation == violation,
    {
        MatchAddress { get_a, get_b, violation, context: PhantomData }
    }

    /// Accept the request when both addresses agree; refuse it with the
    /// policy's violation otherwise.
    pub fn enforce(&self, context: &Context) -> (r: Result<(), PolicyViolation>)
        requires
            call_requires(self.get_a, (context,)),
            call_requires(self.get_b, (context,)),
        ensures
            exists|a: Address, b: Address|
                call_ensures(self.get_a, (context,), a) && call_ensures(self.get_b, (context,), b) && r == if a == b {
                    Ok::<(), PolicyViolation>(())
                } else {
                    Err(self.violation)
                },
    {
        let a = (self.get_a)(context);
        let b = (self.get_b)(context);
        if a == b {
            Ok(())
        } else {
            Err(self.violation)
        }
    }
}

/// A policy given by a test on the request.
pub struct PredicatePolicy<F, Context> {
    pub predicate: F,
    pub violation: PolicyViolation,
    pub context: PhantomData<Context>,
}

impl<F: Fn(&Context) -> bool, Context> PredicatePolicy<F, Context> {
    pub fn new(predicate: F, violation: PolicyViolation) -> (p: Self)
        ensures
            p.predicate == predicate,
            p.violation == violation,
    {
        PredicatePolicy { predicate, violation, context: PhantomData }
    }

    /// Accept the request when the test holds; refuse it with the policy's
    /// violation otherwise.
    pub fn enforce(&self, context: &Context) -> (r: Result<(), PolicyViolation>)
        requires
            call_requires(self.predicate, (context,)),
        ensures
            exists|b: bool|
                call_ensures(self.predicate, (context,), b) && r == if b {
                    Ok::<(), PolicyViolation>(())
                } else {
                    Err(self.violation)
                },
    {
        if (self.predicate)(context) {
            Ok(())
        } else {
            Err(self.violation)
        }
    }
}

/// A protocol-wide switch that only its admin can flip (the caller's
/// authorization is checked by the host).
pub struct EmergencyPause {
    pub admin: Option<Address>,
    pub paused: bool,
}

impl EmergencyPause {
    /// A switch without an admin, not paused.
    pub fn new() -> (s: Self)
        ensures
            s.admin is None,
            !s.paused,
    {
        EmergencyPause { admin: None, paused: false }
    }

    /// Set the admin, once; the switch starts unpaused.
    pub fn init(&mut self, admin: Address)
        requires
            old(self).admin is None,
        ensures
            final(self).admin == Some(admin),
            !final(self).paused,
    {
        self.admin = Some(admin);
        self.paused = false;
    }

    /// The admin pauses the protocol.
    pub fn pause(&mut self, caller: Address)
        requires
            old(self).admin == Some(caller),
        ensures
            final(self).admin == old(self).admin,
            final(self).paused,
    {
        self.paused = true;
    }

    /// The admin lifts the pause.
    pub fn unpause(&mut self, caller: Address)
        requires
            old(self).admin == Some(caller),
        ensures
            final(self).admin == old(self).admin,
            !final(self).paused,
    {
        self.paused = false;
    }

    pub fn is_paused(&self) -> (b: bool)
        ensures
            b == self.paused,
    {
        self.paused
    }

    pub fn admin(&self) -> (a: Address)
        requires
            self.admin is Some,
        ensures
            self.admin == Some(a),
    {
        match self.admin {
            Some(a) => a,
            None => Address { high: 0, low: 0 },
        }
    }
}

} // verus!
