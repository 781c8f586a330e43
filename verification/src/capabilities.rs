use vstd::prelude::*;
use vstd::string::*;

use crate::interfaces::Address;

verus! {

/// Semantic version.
#[derive(Clone, Copy, Debug, Eq, PartialEq, Structural)]
pub struct Version {
    pub major: u32,
    pub minor: u32,
    pub patch: u32,
}

/// A single capability offered by the protocol.
pub struct Capability {
    pub id: String,
    pub version: Version,
    pub name: String,
    pub description: String,
    pub interfaces: Vec<String>,
}

/// A capability as plain values.
#[verifier::ext_equal]
pub struct CapabilityView {
    pub id: Seq<char>,
    pub version: Version,
    pub name: Seq<char>,
    pub description: Seq<char>,
    pub interfaces: Seq<Seq<char>>,
}

pub open spec fn string_views(v: Seq<String>) -> Seq<Seq<char>> {
    v.map_values(|s: String| s@)
}

impl View for Capability {
    type V = CapabilityView;

    open spec fn view(&self) -> CapabilityView {
        CapabilityView {
            id: self.id@,
            version: self.version,
            name: self.name@,
            description: self.description@,
            interfaces: string_views(self.interfaces@),
        }
    }
}

fn copy_strings(v: &Vec<String>) -> (c: Vec<String>)
    ensures
        string_views(c@) == string_views(v@),
{
    let mut c: Vec<String> = Vec::new();
    let mut i: usize = 0;
    while i < v.len()
        invariant
            0 <= i <= v@.len(),
            c@.len() == i,
            forall|k: int| 0 <= k < i ==> (#[trigger] c@[k])@ == v@[k]@,
        decreases v.len() - i,
    {
        c.push(v[i].clone());
        i = i + 1;
    }
    assert(string_views(c@) =~= string_views(v@));
    c
}

fn strings_contain(v: &Vec<String>, s: &String) -> (b: bool)
    ensures
        b == string_views(v@).contains(s@),
{
    let mut i: usize = 0;
    while i < v.len()
        invariant
            0 <= i <= v@.len(),
            forall|k: int| 0 <= k < i ==> v@[k]@ != s@,
        decreases v.len() - i,
    {
        if v[i] == *s {
            assert(string_views(v@)[i as int] == s@);
            return true;
        }
        i = i + 1;
    }
    proof {
        if string_views(v@).contains(s@) {
            let k = choose|k: int| 0 <= k < string_views(v@).len() && string_views(v@)[k] == s@;
            assert(v@[k]@ == s@);
        }
    }
    false
}

impl Capability {
    /// A copy of the capability.
    pub fn copy(&self) -> (c: Self)
        ensures
            c@ == self@,
    {
        Capability {
            id: self.id.clone(),
            version: self.version,
            name: self.name.clone(),
            description: self.description.clone(),
            interfaces: copy_strings(&self.interfaces),
        }
    }
}

/// Protocol-level metadata.
pub struct ProtocolMetadata {
    pub name: String,
    pub protocol_version: Version,
    pub capabilities_count: u32,
    pub interfaces_count: u32,
}

#[derive(Copy, Clone, Debug, Eq, PartialEq, Structural)]
pub enum CapabilityError {
    NotInitialized,
    AlreadyInitialized,
    CapabilityNotFound,
    Unauthorized,
    DuplicateCapability,
}

impl CapabilityError {
    /// The numeric code under which the error is reported to callers.
    pub fn code(&self) -> (c: u32)
        ensures
            c == 1 <==> *self == CapabilityError::NotInitialized,
            c == 2 <==> *self == CapabilityError::AlreadyInitialized,
            c == 3 <==> *self == CapabilityError::CapabilityNotFound,
            c == 4 <==> *self == CapabilityError::Unauthorized,
            c == 5 <==> *self == CapabilityError::DuplicateCapability,
    {
        match self {
            CapabilityError::NotInitialized => 1,
            CapabilityError::AlreadyInitialized => 2,
            CapabilityError::CapabilityNotFound => 3,
            CapabilityError::Unauthorized => 4,
            CapabilityError::DuplicateCapability => 5,
        }
    }
}

/// Whether a capability at version `v` serves callers of `major.minor.patch`:
/// same major version, and at least that minor and patch.
pub open spec fn spec_version_supports(v: Version, major: u32, minor: u32, patch: u32) -> bool {
    &&& v.major == major
    &&& v.minor >= minor
    &&& !(v.minor == minor && v.patch < patch)
}

/// `list` extended by the names of `add` it lacks, in the order of `add`.
pub open spec fn union_in_order(list: Seq<Seq<char>>, add: Seq<Seq<char>>) -> Seq<Seq<char>>
    decreases add.len(),
{
    if add.len() == 0 {
        list
    } else {
        let l = union_in_order(list, add.drop_last());
        if l.contains(add.last()) {
            l
        } else {
            l.push(add.last())
        }
    }
}

pub open spec fn cap_views(s: Seq<Capability>) -> Seq<CapabilityView> {
    s.map_values(|c: Capability| c@)
}

pub open spec fn cap_ids(s: Seq<CapabilityView>) -> Seq<Seq<char>> {
    s.map_values(|c: CapabilityView| c.id)
}

/// The name every metadata query reports.
pub open spec fn protocol_name() -> Seq<char> {
    "AxionVera"@
}

/// The stored state of the capabilities contract.
pub struct CapabilitiesContract {
    pub initialized: bool,
    pub protocol_version: Option<Version>,
    pub admin: Option<Address>,
    /// Registered capabilities, in registration order.
    pub capabilities: Vec<Capability>,
    /// Every interface any registered capability declared, in first-seen order.
    pub interfaces: Vec<String>,
}

impl CapabilitiesContract {
    pub open spec fn caps(&self) -> Seq<CapabilityView> {
        cap_views(self.capabilities@)
    }

    pub open spec fn has_cap(&self, id: Seq<char>) -> bool {
        cap_ids(self.caps()).contains(id)
    }

    pub open spec fn cap(&self, id: Seq<char>) -> CapabilityView {
        self.caps()[cap_ids(self.caps()).index_of(id)]
    }

    /// The version reported for the protocol (zero before initialization).
    pub open spec fn spec_protocol_version(&self) -> Version {
        match self.protocol_version {
            Some(v) => v,
            None => Version { major: 0, minor: 0, patch: 0 },
        }
    }

    /// Capability ids and interface names are each recorded once.
    pub open spec fn wf(&self) -> bool {
        &&& forall|i: int, j: int|
            0 <= i < self.caps().len() && 0 <= j < self.caps().len() && i != j ==> self.caps()[i].id
                != self.caps()[j].id
        &&& forall|i: int, j: int|
            0 <= i < self.interfaces@.len() && 0 <= j < self.interfaces@.len() && i != j
                ==> self.interfaces@[i]@ != self.interfaces@[j]@
    }

    /// A contract before initialization: nothing stored.
    pub fn new() -> (c: Self)
        ensures
            c.wf(),
            !c.initialized,
            c.protocol_version is None,
            c.admin is None,
            c.caps().len() == 0,
            c.interfaces@.len() == 0,
    {
        let c = CapabilitiesContract { initialized: false, protocol_version: None, admin: None, capabilities: Vec::new(), interfaces: Vec::new() };
        assert(c.caps() =~= Seq::<CapabilityView>::empty());
        c
    }

    pub fn initialize(&mut self, admin: Address, protocol_version: Version) -> (r: Result<(), CapabilityError>)
        requires
            old(self).wf(),
        ensures
            final(self).wf(),
            old(self).initialized ==> r == Err::<(), CapabilityError>(CapabilityError::AlreadyInitialized)
                && *final(self) == *old(self),
            !old(self).initialized ==> r is Ok && final(self).initialized && final(self).protocol_version
                == Some(protocol_version) && final(self).admin == Some(admin)
                && final(self).capabilities == old(self).capabilities && final(self).interfaces
                == old(self).interfaces,
    {
        if self.initialized {
            return Err(CapabilityError::AlreadyInitialized);
        }
        self.initialized = true;
        self.protocol_version = Some(protocol_version);
        self.admin = Some(admin);
        assert(self.caps() == old(self).caps());
        Ok(())
    }

    fn require_admin(&self, addr: &Address) -> (r: Result<(), CapabilityError>)
        ensures
            r == if self.admin == Some(*addr) {
                Ok(())
            } else {
                Err(CapabilityError::Unauthorized)
            },
    {
        match self.admin {
            Some(a) => {
                if a == *addr {
                    Ok(())
                } else {
                    Err(CapabilityError::Unauthorized)
                }
            },
            None => Err(CapabilityError::Unauthorized),
        }
    }

    fn find(&self, id: &String) -> (r: Option<usize>)
        requires
            self.wf(),
        ensures
            match r {
                Some(i) => i < self.caps().len() && self.caps()[i as int].id == id@ && self.has_cap(id@)
                    && cap_ids(self.caps()).index_of(id@) == i,
                None => !self.has_cap(id@),
            },
    {
        let mut i: usize = 0;
        while i < self.capabilities.len()
            invariant
                0 <= i <= self.capabilities@.len(),
                self.wf(),
                forall|k: int| 0 <= k < i ==> self.caps()[k].id != id@,
            decreases self.capabilities.len() - i,
        {
            if self.capabilities[i].id == *id {
                proof {
                    let s = cap_ids(self.caps());
                    assert(s[i as int] == id@);
                    let j = s.index_of(id@);
                    assert(s[j] == id@);
                    if j != i as int {
                        assert(self.caps()[j].id != self.caps()[i as int].id);
                    }
                }
                return Some(i);
            }
            i = i + 1;
        }
        proof {
            let s = cap_ids(self.caps());
            if s.contains(id@) {
                let k = choose|k: int| 0 <= k < s.len() && s[k] == id@;
                assert(self.caps()[k].id == id@);
            }
        }
        None
    }

    /// Register a capability (the caller must be the admin) and record the interfaces it declares.
    pub fn register_capability(&mut self, admin: Address, cap: Capability) -> (r: Result<(), CapabilityError>)
        requires
            old(self).wf(),
        ensures
            final(self).wf(),
            r == (if old(self).admin != Some(admin) {
                Err(CapabilityError::Unauthorized)
            } else if old(self).has_cap(cap@.id) {
                Err(CapabilityError::DuplicateCapability)
            } else {
                Ok(())
            }),
            r is Err ==> *final(self) == *old(self),
            r is Ok ==> final(self).caps() == old(self).caps().push(cap@) && string_views(
                final(self).interfaces@,
            ) == union_in_order(string_views(old(self).interfaces@), cap@.interfaces),
            final(self).initialized == old(self).initialized,
            final(self).protocol_version == old(self).protocol_version,
            final(self).admin == old(self).admin,
    {
        self.require_admin(&admin)?;
        if self.find(&cap.id).is_some() {
            return Err(CapabilityError::DuplicateCapability);
        }
        let ghost add = cap@.interfaces;
        let mut k: usize = 0;
        while k < cap.interfaces.len()
            invariant
                0 <= k <= cap.interfaces@.len(),
                add == string_views(cap.interfaces@),
                string_views(self.interfaces@) == union_in_order(string_views(old(self).interfaces@), add.take(k as int)),
                self.capabilities == old(self).capabilities,
                self.initialized == old(self).initialized,
                self.protocol_version == old(self).protocol_version,
                self.admin == old(self).admin,
                self.wf(),
            decreases cap.interfaces.len() - k,
        {
            let ghost caps_before = self.caps();
            proof {
                assert(add.take(k + 1).drop_last() =~= add.take(k as int));
                assert(add.take(k + 1).last() == cap.interfaces@[k as int]@);
            }
            if !strings_contain(&self.interfaces, &cap.interfaces[k]) {
                let ghost before = self.interfaces@;
                let ghost x = cap.interfaces@[k as int]@;
                self.interfaces.push(cap.interfaces[k].clone());
                proof {
                    assert(!string_views(before).contains(x));
                    assert(self.interfaces@[before.len() as int]@ == x);
                    assert(string_views(self.interfaces@) =~= string_views(before).push(cap.interfaces@[k as int]@));
                    assert forall|i: int, j: int|
                        0 <= i < self.interfaces@.len() && 0 <= j < self.interfaces@.len() && i != j
                        implies self.interfaces@[i]@ != self.interfaces@[j]@ by {
                        if i == before.len() {
                            assert(string_views(before)[j] == before[j]@);
                            assert(self.interfaces@[j] == before[j]);
                        } else if j == before.len() {
                            assert(string_views(before)[i] == before[i]@);
                            assert(self.interfaces@[i] == before[i]);
                        } else {
                            assert(self.interfaces@[i] == before[i]);
                            assert(self.interfaces@[j] == before[j]);
                        }
                    }
                }
            }
            assert(self.caps() =~= caps_before);
            k = k + 1;
        }
        assert(add.take(k as int) =~= add);
        let ghost v = cap@;
        self.capabilities.push(cap);
        proof {
            assert(self.caps() =~= old(self).caps().push(v));
            assert forall|i: int, j: int|
                0 <= i < self.caps().len() && 0 <= j < self.caps().len() && i != j implies self.caps()[i].id
                != self.caps()[j].id by {
                let l = old(self).caps().len() as int;
                if i == l {
                    assert(cap_ids(old(self).caps())[j] == old(self).caps()[j].id);
                } else if j == l {
                    assert(cap_ids(old(self).caps())[i] == old(self).caps()[i].id);
                }
            }
        }
        Ok(())
    }

    /// Change the version of a registered capability (the caller must be the admin).
    pub fn update_capability_version(&mut self, admin: Address, id: &String, new_version: Version) -> (r: Result<(), CapabilityError>)
        requires
            old(self).wf(),
        ensures
            final(self).wf(),
            r == (if old(self).admin != Some(admin) {
                Err(CapabilityError::Unauthorized)
            } else if !old(self).has_cap(id@) {
                Err(CapabilityError::CapabilityNotFound)
            } else {
                Ok(())
            }),
            r is Err ==> *final(self) == *old(self),
            r is Ok ==> final(self).caps() == old(self).caps().update(
                cap_ids(old(self).caps()).index_of(id@),
                CapabilityView { version: new_version, ..old(self).cap(id@) },
            ),
            final(self).interfaces == old(self).interfaces,
            final(self).initialized == old(self).initialized,
            final(self).protocol_version == old(self).protocol_version,
            final(self).admin == old(self).admin,
    {
        self.require_admin(&admin)?;
        let i = match self.find(id) {
            Some(i) => i,
            None => {
                return Err(CapabilityError::CapabilityNotFound);
            },
        };
        let mut cap = self.capabilities[i].copy();
        cap.version = new_version;
        let ghost v = cap@;
        self.capabilities.set(i, cap);
        proof {
            assert(self.caps() =~= old(self).caps().update(i as int, v));
            assert(v =~= CapabilityView { version: new_version, ..old(self).cap(id@) });
        }
        Ok(())
    }

    /// Remove a registered capability (the caller must be the admin); the
    /// interfaces it declared stay recorded.
    pub fn remove_capability(&mut self, admin: Address, id: &String) -> (r: Result<(), CapabilityError>)
        requires
            old(self).wf(),
        ensures
            final(self).wf(),
            r == (if old(self).admin != Some(admin) {
                Err(CapabilityError::Unauthorized)
            } else if !old(self).has_cap(id@) {
                Err(CapabilityError::CapabilityNotFound)
            } else {
                Ok(())
            }),
            r is Err ==> *final(self) == *old(self),
            r is Ok ==> final(self).caps() == old(self).caps().remove(cap_ids(old(self).caps()).index_of(id@))
                && !final(self).has_cap(id@),
            final(self).interfaces == old(self).interfaces,
            final(self).initialized == old(self).initialized,
            final(self).protocol_version == old(self).protocol_version,
            final(self).admin == old(self).admin,
    {
        self.require_admin(&admin)?;
        let i = match self.find(id) {
            Some(i) => i,
            None => {
                return Err(CapabilityError::CapabilityNotFound);
            },
        };
        let _ = self.capabilities.remove(i);
        proof {
            assert(self.caps() =~= old(self).caps().remove(i as int));
            if self.has_cap(id@) {
                let k = choose|k: int| 0 <= k < cap_ids(self.caps()).len() && cap_ids(self.caps())[k] == id@;
                if k < i {
                    assert(old(self).caps()[k].id == id@);
                } else {
                    assert(old(self).caps()[k + 1].id == id@);
                }
            }
        }
        Ok(())
    }

    /// Registered capability ids in registration order.
    pub fn query_capabilities(&self) -> (r: Vec<String>)
        ensures
            string_views(r@) == cap_ids(self.caps()),
    {
        let mut out: Vec<String> = Vec::new();
        let mut i: usize = 0;
        while i < self.capabilities.len()
            invariant
                0 <= i <= self.capabilities@.len(),
                string_views(out@) == cap_ids(self.caps()).take(i as int),
            decreases self.capabilities.len() - i,
        {
            let ghost before = out@;
            out.push(self.capabilities[i].id.clone());
            proof {
                assert(cap_ids(self.caps())[i as int] == self.capabilities@[i as int].id@);
                assert(string_views(out@) =~= string_views(before).push(self.capabilities@[i as int].id@));
                assert(cap_ids(self.caps()).take(i + 1) =~= cap_ids(self.caps()).take(i as int).push(cap_ids(self.caps())[i as int]));
            }
            i = i + 1;
        }
        assert(cap_ids(self.caps()).take(i as int) =~= cap_ids(self.caps()));
        out
    }

    pub fn query_capability(&self, id: &String) -> (r: Option<Capability>)
        requires
            self.wf(),
        ensures
            self.has_cap(id@) ==> (r matches Some(c) && c@ == self.cap(id@)),
            !self.has_cap(id@) ==> r is None,
    {
        match self.find(id) {
            Some(i) => Some(self.capabilities[i].copy()),
            None => None,
        }
    }

    /// Whether the capability `id` is registered at a version serving `major.minor.patch`.
    pub fn supports_capability(&self, id: &String, major: u32, minor: u32, patch: u32) -> (b: bool)
        requires
            self.wf(),
        ensures
            b == (self.has_cap(id@) && spec_version_supports(self.cap(id@).version, major, minor, patch)),
    {
        let i = match self.find(id) {
            Some(i) => i,
            None => {
                return false;
            },
        };
        let v = self.capabilities[i].version;
        if v.major != major {
            return false;
        }
        if v.minor < minor {
            return false;
        }
        if v.minor == minor && v.patch < patch {
            return false;
        }
        true
    }

    /// Every recorded interface name, in first-seen order.
    pub fn query_interfaces(&self) -> (r: Vec<String>)
        ensures
            string_views(r@) == string_views(self.interfaces@),
    {
        copy_strings(&self.interfaces)
    }

    pub fn query_metadata(&self) -> (m: ProtocolMetadata)
        requires
            self.capabilities@.len() <= u32::MAX,
            self.interfaces@.len() <= u32::MAX,
        ensures
            m.name@ == protocol_name(),
            m.protocol_version == self.spec_protocol_version(),
            m.capabilities_count == self.capabilities@.len(),
            m.interfaces_count == self.interfaces@.len(),
    {
        ProtocolMetadata {
            name: String::from_str("AxionVera"),
            protocol_version: self.protocol_version(),
            capabilities_count: self.capabilities.len() as u32,
            interfaces_count: self.interfaces.len() as u32,
        }
    }

    pub fn protocol_version(&self) -> (v: Version)
        ensures
            v == self.spec_protocol_version(),
    {
        match self.protocol_version {
            Some(v) => v,
            None => Version { major: 0, minor: 0, patch: 0 },
        }
    }

    /// Whether the protocol version serves callers of `major.minor`.
    pub fn supports_protocol_version(&self, major: u32, minor: u32) -> (b: bool)
        ensures
            b == (self.spec_protocol_version().major == major && self.spec_protocol_version().minor
                >= minor),
    {
        let v = self.protocol_version();
        if v.major != major {
            return false;
        }
        v.minor >= minor
    }
}

/// Version support is downward compatible within a major version: a version
/// that serves `major.minor.patch` also serves every earlier minor/patch pair
/// of the same major version.
pub proof fn lemma_support_downward_closed(v: Version, major: u32, minor: u32, patch: u32, minor2: u32, patch2: u32)
    requires
        spec_version_supports(v, major, minor, patch),
        minor2 < minor || (minor2 == minor && patch2 <= patch),
    ensures
        spec_version_supports(v, major, minor2, patch2),
{
}

/// A version never serves another major version.
pub proof fn lemma_support_needs_same_major(v: Version, major: u32, minor: u32, patch: u32)
    requires
        v.major != major,
    ensures
        !spec_version_supports(v, major, minor, patch),
{
}

/// A version serves exactly the callers of its own major version that ask
/// for no later minor/patch pair than its own; in particular it serves its
/// own version.
pub proof fn lemma_support_exact(v: Version, major: u32, minor: u32, patch: u32)
    ensures
        spec_version_supports(v, major, minor, patch) <==> (v.major == major && (v.minor > minor || (v.minor
            == minor && v.patch >= patch))),
        spec_version_supports(v, v.major, v.minor, v.patch),
{
}

} // verus!
