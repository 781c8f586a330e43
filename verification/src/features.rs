use vstd::prelude::*;

use crate::interfaces::Address;

verus! {

pub const MAX_ROLLOUT_PCT: u32 = 100;

pub const MAX_FEATURES: u32 = 64;

#[derive(Copy, Clone, Debug, Eq, PartialEq, Structural)]
pub enum FeatureError {
    AlreadyInitialized,
    NotInitialized,
    Unauthorized,
    FeatureAlreadyRegistered,
    FeatureNotFound,
    InvalidRolloutPct,
    FeatureLimitReached,
    NoPendingAdmin,
    ContractPaused,
}

impl FeatureError {
    /// The numeric code under which the error is reported to callers.
    pub fn code(&self) -> (c: u32)
        ensures
            1 <= c <= 9,
            c == 1 <==> *self == FeatureError::AlreadyInitialized,
            c == 2 <==> *self == FeatureError::NotInitialized,
            c == 3 <==> *self == FeatureError::Unauthorized,
            c == 4 <==> *self == FeatureError::FeatureAlreadyRegistered,
            c == 5 <==> *self == FeatureError::FeatureNotFound,
            c == 6 <==> *self == FeatureError::InvalidRolloutPct,
            c == 7 <==> *self == FeatureError::FeatureLimitReached,
            c == 8 <==> *self == FeatureError::NoPendingAdmin,
            c == 9 <==> *self == FeatureError::ContractPaused,
    {
        match self {
            FeatureError::AlreadyInitialized => 1,
            FeatureError::NotInitialized => 2,
            FeatureError::Unauthorized => 3,
            FeatureError::FeatureAlreadyRegistered => 4,
            FeatureError::FeatureNotFound => 5,
            FeatureError::InvalidRolloutPct => 6,
            FeatureError::FeatureLimitReached => 7,
            FeatureError::NoPendingAdmin => 8,
            FeatureError::ContractPaused => 9,
        }
    }
}

#[derive(Clone, Debug, Eq, PartialEq)]
pub struct FeatureFlag {
    pub name: String,
    pub enabled: bool,
    pub rollout_pct: u32,
    pub registered_at: u64,
    pub enabled_at: Option<u64>,
}

impl FeatureFlag {
    /// A copy of the flag.
    pub fn copy(&self) -> (c: Self)
        ensures
            c == *self,
    {
        FeatureFlag {
            name: self.name.clone(),
            enabled: self.enabled,
            rollout_pct: self.rollout_pct,
            registered_at: self.registered_at,
            enabled_at: self.enabled_at,
        }
    }
}

pub open spec fn has_name(s: Seq<FeatureFlag>, name: Seq<char>) -> bool {
    exists|i: int| 0 <= i < s.len() && (#[trigger] s[i]).name@ == name
}

pub open spec fn index_of_name(s: Seq<FeatureFlag>, name: Seq<char>) -> int {
    choose|i: int| 0 <= i < s.len() && (#[trigger] s[i]).name@ == name
}

pub open spec fn names_unique(s: Seq<FeatureFlag>) -> bool {
    forall|i: int, j: int| 0 <= i < s.len() && 0 <= j < s.len() && i != j ==> s[i].name@ != s[j].name@
}

proof fn lemma_index_of_name(s: Seq<FeatureFlag>, name: Seq<char>, i: int)
    requires
        names_unique(s),
        0 <= i < s.len(),
        s[i].name@ == name,
    ensures
        has_name(s, name),
        index_of_name(s, name) == i,
{
    assert(has_name(s, name));
    let j = index_of_name(s, name);
    assert(s[j].name@ == name);
}

/// The stored state of the feature flag contract.
pub struct FeaturesContract {
    pub initialized: bool,
    pub admin: Option<Address>,
    pub pending_admin: Option<Address>,
    pub is_paused: bool,
    /// Registered features, in registration order.
    pub features: Vec<FeatureFlag>,
}

impl FeaturesContract {
    /// Names are unique, at most the maximum number of features is registered,
    /// every rollout is a percentage, an enabled feature records when it was
    /// enabled, and an initialized contract has an admin.
    pub open spec fn wf(&self) -> bool {
        &&& names_unique(self.features@)
        &&& self.features@.len() <= MAX_FEATURES
        &&& forall|i: int|
            0 <= i < self.features@.len() ==> (#[trigger] self.features@[i]).rollout_pct
                <= MAX_ROLLOUT_PCT
        &&& forall|i: int|
            0 <= i < self.features@.len() ==> (#[trigger] self.features@[i]).enabled
                ==> self.features@[i].enabled_at is Some
        &&& self.initialized ==> self.admin is Some
    }

    /// The checks every feature write starts with.
    pub open spec fn spec_write_gate(&self) -> Result<(), FeatureError> {
        if !self.initialized {
            Err(FeatureError::NotInitialized)
        } else if self.is_paused {
            Err(FeatureError::ContractPaused)
        } else {
            Ok(())
        }
    }

    pub fn version() -> (v: u32)
        ensures
            v == 1,
    {
        1
    }

    /// A contract before initialization: nothing stored.
    pub fn new() -> (c: Self)
        ensures
            c.wf(),
            !c.initialized,
            c.admin is None,
            c.pending_admin is None,
            !c.is_paused,
            c.features@.len() == 0,
    {
        FeaturesContract { initialized: false, admin: None, pending_admin: None, is_paused: false, features: Vec::new() }
    }

    fn find(&self, name: &String) -> (r: Option<usize>)
        requires
            self.wf(),
        ensures
            match r {
                Some(i) => i < self.features@.len() && self.features@[i as int].name@ == name@
                    && has_name(self.features@, name@) && index_of_name(self.features@, name@) == i,
                None => !has_name(self.features@, name@),
            },
    {
        let mut i: usize = 0;
        while i < self.features.len()
            invariant
                0 <= i <= self.features@.len(),
                self.wf(),
                forall|k: int| 0 <= k < i ==> (#[trigger] self.features@[k]).name@ != name@,
            decreases self.features.len() - i,
        {
            if self.features[i].name == *name {
                proof {
                    lemma_index_of_name(self.features@, name@, i as int);
                }
                return Some(i);
            }
            i = i + 1;
        }
        None
    }

    fn write_gate(&self) -> (r: Result<(), FeatureError>)
        ensures
            r == self.spec_write_gate(),
    {
        if !self.initialized {
            return Err(FeatureError::NotInitialized);
        }
        if self.is_paused {
            return Err(FeatureError::ContractPaused);
        }
        Ok(())
    }

    pub fn initialize(&mut self, admin: Address) -> (r: Result<(), FeatureError>)
        requires
            old(self).wf(),
        ensures
            final(self).wf(),
            old(self).initialized ==> r == Err::<(), FeatureError>(FeatureError::AlreadyInitialized)
                && *final(self) == *old(self),
            !old(self).initialized ==> r is Ok && final(self).initialized && final(self).admin
                == Some(admin) && !final(self).is_paused && final(self).features@.len() == 0
                && final(self).pending_admin == old(self).pending_admin,
    {
        if self.initialized {
            return Err(FeatureError::AlreadyInitialized);
        }
        self.initialized = true;
        self.admin = Some(admin);
        self.is_paused = false;
        self.features = Vec::new();
        Ok(())
    }

    pub fn admin(&self) -> (r: Result<Address, FeatureError>)
        requires
            self.wf(),
        ensures
            !self.initialized ==> r == Err::<Address, FeatureError>(FeatureError::NotInitialized),
            self.initialized ==> r == Ok::<Address, FeatureError>(self.admin->0),
    {
        if !self.initialized {
            return Err(FeatureError::NotInitialized);
        }
        match self.admin {
            Some(a) => Ok(a),
            None => Err(FeatureError::NotInitialized),
        }
    }

    pub fn is_enabled(&self, name: &String) -> (r: Result<bool, FeatureError>)
        requires
            self.wf(),
        ensures
            !self.initialized ==> r == Err::<bool, FeatureError>(FeatureError::NotInitialized),
            self.initialized && !has_name(self.features@, name@) ==> r == Err::<bool, FeatureError>(
                FeatureError::FeatureNotFound,
            ),
            self.initialized && has_name(self.features@, name@) ==> r == Ok::<bool, FeatureError>(
                self.features@[index_of_name(self.features@, name@)].enabled,
            ),
    {
        if !self.initialized {
            return Err(FeatureError::NotInitialized);
        }
        match self.find(name) {
            Some(i) => Ok(self.features[i].enabled),
            None => Err(FeatureError::FeatureNotFound),
        }
    }

    pub fn get_feature(&self, name: &String) -> (r: Result<FeatureFlag, FeatureError>)
        requires
            self.wf(),
        ensures
            !self.initialized ==> r == Err::<FeatureFlag, FeatureError>(FeatureError::NotInitialized),
            self.initialized && !has_name(self.features@, name@) ==> r == Err::<
                FeatureFlag,
                FeatureError,
            >(FeatureError::FeatureNotFound),
            self.initialized && has_name(self.features@, name@) ==> r == Ok::<
                FeatureFlag,
                FeatureError,
            >(self.features@[index_of_name(self.features@, name@)]),
    {
        if !self.initialized {
            return Err(FeatureError::NotInitialized);
        }
        match self.find(name) {
            Some(i) => Ok(self.features[i].copy()),
            None => Err(FeatureError::FeatureNotFound),
        }
    }

    pub fn list_features(&self) -> (r: Result<Vec<FeatureFlag>, FeatureError>)
        requires
            self.wf(),
        ensures
            !self.initialized ==> r == Err::<Vec<FeatureFlag>, FeatureError>(FeatureError::NotInitialized),
            self.initialized ==> (r matches Ok(v) && v@ == self.features@),
    {
        if !self.initialized {
            return Err(FeatureError::NotInitialized);
        }
        let mut out: Vec<FeatureFlag> = Vec::new();
        let mut i: usize = 0;
        while i < self.features.len()
            invariant
                0 <= i <= self.features@.len(),
                out@ == self.features@.take(i as int),
            decreases self.features.len() - i,
        {
            out.push(self.features[i].copy());
            i = i + 1;
            assert(out@ =~= self.features@.take(i as int));
        }
        assert(self.features@.take(i as int) =~= self.features@);
        Ok(out)
    }

    /// Register a disabled feature at time `now` (the admin's authorization is checked by the host).
    pub fn register_feature(&mut self, name: String, now: u64) -> (r: Result<(), FeatureError>)
        requires
            old(self).wf(),
        ensures
            final(self).wf(),
            r == (if old(self).spec_write_gate() is Err {
                old(self).spec_write_gate()
            } else if has_name(old(self).features@, name@) {
                Err(FeatureError::FeatureAlreadyRegistered)
            } else if old(self).features@.len() >= MAX_FEATURES {
                Err(FeatureError::FeatureLimitReached)
            } else {
                Ok(())
            }),
            r is Err ==> *final(self) == *old(self),
            r is Ok ==> final(self).features@ == old(self).features@.push(
                FeatureFlag { name, enabled: false, rollout_pct: 0, registered_at: now, enabled_at: None },
            ),
            final(self).initialized == old(self).initialized,
            final(self).admin == old(self).admin,
            final(self).pending_admin == old(self).pending_admin,
            final(self).is_paused == old(self).is_paused,
    {
        self.write_gate()?;
        if self.find(&name).is_some() {
            return Err(FeatureError::FeatureAlreadyRegistered);
        }
        if self.features.len() >= 64 {
            return Err(FeatureError::FeatureLimitReached);
        }
        let feature = FeatureFlag { name, enabled: false, rollout_pct: 0, registered_at: now, enabled_at: None };
        self.features.push(feature);
        Ok(())
    }

    /// The stored feature with `name` replaced by `f`.
    pub open spec fn spec_replaced(&self, name: Seq<char>, f: FeatureFlag) -> Seq<FeatureFlag> {
        self.features@.update(index_of_name(self.features@, name), f)
    }

    /// Enable a feature at time `now` (the admin's authorization is checked by the host).
    pub fn enable_feature(&mut self, name: &String, now: u64) -> (r: Result<(), FeatureError>)
        requires
            old(self).wf(),
        ensures
            final(self).wf(),
            r == (if old(self).spec_write_gate() is Err {
                old(self).spec_write_gate()
            } else if !has_name(old(self).features@, name@) {
                Err(FeatureError::FeatureNotFound)
            } else {
                Ok(())
            }),
            r is Err ==> *final(self) == *old(self),
            r is Ok ==> final(self).features@ == old(self).spec_replaced(
                name@,
                FeatureFlag {
                    enabled: true,
                    enabled_at: Some(now),
                    ..old(self).features@[index_of_name(old(self).features@, name@)]
                },
            ),
            final(self).initialized == old(self).initialized,
            final(self).admin == old(self).admin,
            final(self).pending_admin == old(self).pending_admin,
            final(self).is_paused == old(self).is_paused,
    {
        self.write_gate()?;
        let i = match self.find(name) {
            Some(i) => i,
            None => {
                return Err(FeatureError::FeatureNotFound);
            },
        };
        let mut feature = self.features[i].copy();
        feature.enabled = true;
        feature.enabled_at = Some(now);
        self.features.set(i, feature);
        proof {
            assert forall|a: int, b: int|
                0 <= a < self.features@.len() && 0 <= b < self.features@.len() && a != b implies self.features@[a].name@
                != self.features@[b].name@ by {
                assert(old(self).features@[a].name@ != old(self).features@[b].name@);
            }
        }
        Ok(())
    }

    /// Disable a feature (the admin's authorization is checked by the host).
    pub fn disable_feature(&mut self, name: &String) -> (r: Result<(), FeatureError>)
        requires
            old(self).wf(),
        ensures
            final(self).wf(),
            r == (if old(self).spec_write_gate() is Err {
                old(self).spec_write_gate()
            } else if !has_name(old(self).features@, name@) {
                Err(FeatureError::FeatureNotFound)
            } else {
                Ok(())
            }),
            r is Err ==> *final(self) == *old(self),
            r is Ok ==> final(self).features@ == old(self).spec_replaced(
                name@,
                FeatureFlag {
                    enabled: false,
                    ..old(self).features@[index_of_name(old(self).features@, name@)]
                },
            ),
            final(self).initialized == old(self).initialized,
            final(self).admin == old(self).admin,
            final(self).pending_admin == old(self).pending_admin,
            final(self).is_paused == old(self).is_paused,
    {
        self.write_gate()?;
        let i = match self.find(name) {
            Some(i) => i,
            None => {
                return Err(FeatureError::FeatureNotFound);
            },
        };
        let mut feature = self.features[i].copy();
        feature.enabled = false;
        self.features.set(i, feature);
        proof {
            assert forall|a: int, b: int|
                0 <= a < self.features@.len() && 0 <= b < self.features@.len() && a != b implies self.features@[a].name@
                != self.features@[b].name@ by {
                assert(old(self).features@[a].name@ != old(self).features@[b].name@);
            }
        }
        Ok(())
    }

    /// Set a feature's rollout percentage (the admin's authorization is checked by the host).
    pub fn set_rollout(&mut self, name: &String, pct: u32) -> (r: Result<(), FeatureError>)
        requires
            old(self).wf(),
        ensures
            final(self).wf(),
            r == (if old(self).spec_write_gate() is Err {
                old(self).spec_write_gate()
            } else if pct > MAX_ROLLOUT_PCT {
                Err(FeatureError::InvalidRolloutPct)
            } else if !has_name(old(self).features@, name@) {
                Err(FeatureError::FeatureNotFound)
            } else {
                Ok(())
            }),
            r is Err ==> *final(self) == *old(self),
            r is Ok ==> final(self).features@ == old(self).spec_replaced(
                name@,
                FeatureFlag {
                    rollout_pct: pct,
                    ..old(self).features@[index_of_name(old(self).features@, name@)]
                },
            ),
            final(self).initialized == old(self).initialized,
            final(self).admin == old(self).admin,
            final(self).pending_admin == old(self).pending_admin,
            final(self).is_paused == old(self).is_paused,
    {
        self.write_gate()?;
        if pct > MAX_ROLLOUT_PCT {
            return Err(FeatureError::InvalidRolloutPct);
        }
        let i = match self.find(name) {
            Some(i) => i,
            None => {
                return Err(FeatureError::FeatureNotFound);
            },
        };
        let mut feature = self.features[i].copy();
        feature.rollout_pct = pct;
        self.features.set(i, feature);
        proof {
            assert forall|a: int, b: int|
                0 <= a < self.features@.len() && 0 <= b < self.features@.len() && a != b implies self.features@[a].name@
                != self.features@[b].name@ by {
                assert(old(self).features@[a].name@ != old(self).features@[b].name@);
            }
        }
        Ok(())
    }

    /// Propose a new admin (the current admin's authorization is checked by the host).
    pub fn propose_new_admin(&mut self, new_admin: Address) -> (r: Result<(), FeatureError>)
        requires
            old(self).wf(),
        ensures
            final(self).wf(),
            !old(self).initialized ==> r == Err::<(), FeatureError>(FeatureError::NotInitialized)
                && *final(self) == *old(self),
            old(self).initialized ==> r is Ok && final(self).pending_admin == Some(new_admin)
                && final(self).admin == old(self).admin && final(self).features == old(self).features
                && final(self).is_paused == old(self).is_paused && final(self).initialized,
    {
        if !self.initialized {
            return Err(FeatureError::NotInitialized);
        }
        self.pending_admin = Some(new_admin);
        Ok(())
    }

    /// Accept the admin role (the new admin's authorization is checked by the host).
    pub fn accept_admin(&mut self, new_admin: Address) -> (r: Result<(), FeatureError>)
        requires
            old(self).wf(),
        ensures
            final(self).wf(),
            r == (if !old(self).initialized {
                Err(FeatureError::NotInitialized)
            } else if old(self).pending_admin is None {
                Err(FeatureError::NoPendingAdmin)
            } else if old(self).pending_admin != Some(new_admin) {
                Err(FeatureError::Unauthorized)
            } else {
                Ok(())
            }),
            r is Err ==> *final(self) == *old(self),
            r is Ok ==> final(self).admin == Some(new_admin) && final(self).pending_admin is None
                && final(self).features == old(self).features && final(self).is_paused
                == old(self).is_paused && final(self).initialized,
    {
        if !self.initialized {
            return Err(FeatureError::NotInitialized);
        }
        match self.pending_admin {
            None => {
                return Err(FeatureError::NoPendingAdmin);
            },
            Some(pending) => {
                if pending != new_admin {
                    return Err(FeatureError::Unauthorized);
                }
            },
        }
        self.admin = Some(new_admin);
        self.pending_admin = None;
        Ok(())
    }

    /// Stop feature writes (the admin's authorization is checked by the host).
    pub fn pause(&mut self) -> (r: Result<(), FeatureError>)
        requires
            old(self).wf(),
        ensures
            final(self).wf(),
            !old(self).initialized ==> r == Err::<(), FeatureError>(FeatureError::NotInitialized)
                && *final(self) == *old(self),
            old(self).initialized ==> r is Ok && final(self).is_paused && final(self).admin
                == old(self).admin && final(self).pending_admin == old(self).pending_admin
                && final(self).features == old(self).features && final(self).initialized,
    {
        if !self.initialized {
            return Err(FeatureError::NotInitialized);
        }
        self.is_paused = true;
        Ok(())
    }

    /// Resume feature writes (the admin's authorization is checked by the host).
    pub fn unpause(&mut self) -> (r: Result<(), FeatureError>)
        requires
            old(self).wf(),
        ensures
            final(self).wf(),
            !old(self).initialized ==> r == Err::<(), FeatureError>(FeatureError::NotInitialized)
                && *final(self) == *old(self),
            old(self).initialized ==> r is Ok && !final(self).is_paused && final(self).admin
                == old(self).admin && final(self).pending_admin == old(self).pending_admin
                && final(self).features == old(self).features && final(self).initialized,
    {
        if !self.initialized {
            return Err(FeatureError::NotInitialized);
        }
        self.is_paused = false;
        Ok(())
    }
}

/// While the contract is paused no feature write goes through: each of them is
/// refused with `ContractPaused`.
pub proof fn lemma_pause_blocks_writes(c: FeaturesContract)
    requires
        c.initialized,
        c.is_paused,
    ensures
        c.spec_write_gate() == Err::<(), FeatureError>(FeatureError::ContractPaused),
{
}

} // verus!
