use vstd::prelude::*;

use crate::interfaces::Address;

verus! {

/// Full metadata stored per indexed protocol contract.
pub struct ContractInfo {
    /// On-chain address of the deployed contract.
    pub address: Address,
    /// Human-readable name (e.g. `VaultV2`).
    pub name: String,
    /// Implementation version string (e.g. `v1_0_0`).
    pub version: String,
    /// Owner / deployer of the contract.
    pub owner: Address,
    /// List of interface identifiers this contract implements.
    pub interfaces: Vec<String>,
    /// Ledger timestamp at registration time.
    pub registered_at: u64,
    /// Whether the contract is currently considered active.
    pub is_active: bool,
}

/// Contract metadata as plain values.
#[verifier::ext_equal]
pub struct ContractInfoView {
    pub address: Address,
    pub name: Seq<char>,
    pub version: Seq<char>,
    pub owner: Address,
    pub interfaces: Seq<Seq<char>>,
    pub registered_at: u64,
    pub is_active: bool,
}

pub open spec fn string_views(v: Seq<String>) -> Seq<Seq<char>> {
    v.map_values(|s: String| s@)
}

impl View for ContractInfo {
    type V = ContractInfoView;

    open spec fn view(&self) -> ContractInfoView {
        ContractInfoView {
            address: self.address,
            name: self.name@,
            version: self.version@,
            owner: self.owner,
            interfaces: string_views(self.interfaces@),
            registered_at: self.registered_at,
            is_active: self.is_active,
        }
    }
}

fn copy_strings(v: &Vec<String>) -> (c: Vec<String>)
    ensures
        string_views(c@) == string_views(v@),
{
    let mut c: Vec<String> = Vec::new();
    let mut i: usize = 0;
    while i < v.len()
        invariant
            0 <= i <= v@.len(),
            c@.len() == i,
            forall|k: int| 0 <= k < i ==> (#[trigger] c@[k])@ == v@[k]@,
        decreases v.len() - i,
    {
        c.push(v[i].clone());
        i = i + 1;
    }
    assert(string_views(c@) =~= string_views(v@));
    c
}

fn strings_contain(v: &Vec<String>, s: &String) -> (b: bool)
    ensures
        b == string_views(v@).contains(s@),
{
    let mut i: usize = 0;
    while i < v.len()
        invariant
            0 <= i <= v@.len(),
            forall|k: int| 0 <= k < i ==> v@[k]@ != s@,
        decreases v.len() - i,
    {
        if v[i] == *s {
            assert(string_views(v@)[i as int] == s@);
            return true;
        }
        i = i + 1;
    }
    proof {
        if string_views(v@).contains(s@) {
            let k = choose|k: int| 0 <= k < string_views(v@).len() && string_views(v@)[k] == s@;
            assert(v@[k]@ == s@);
        }
    }
    false
}

impl ContractInfo {
    /// A copy of the metadata.
    pub fn copy(&self) -> (c: Self)
        ensures
            c@ == self@,
    {
        ContractInfo {
            address: self.address,
            name: self.name.clone(),
            version: self.version.clone(),
            owner: self.owner,
            interfaces: copy_strings(&self.interfaces),
            registered_at: self.registered_at,
            is_active: self.is_active,
        }
    }
}

/// A registered module: its name and address.
#[derive(Clone, Debug)]
pub struct ModuleEntry {
    pub name: String,
    pub address: Address,
}

/// The recorded active flag of an address.
#[derive(Clone, Copy, Debug, PartialEq, Eq, Structural)]
pub struct ModuleStatus {
    pub address: Address,
    pub is_active: bool,
}

pub open spec fn infos(s: Seq<ContractInfo>) -> Seq<ContractInfoView> {
    s.map_values(|c: ContractInfo| c@)
}

pub open spec fn module_names(s: Seq<ModuleEntry>) -> Seq<Seq<char>> {
    s.map_values(|m: ModuleEntry| m.name@)
}

pub open spec fn module_addresses(s: Seq<ModuleEntry>) -> Seq<Address> {
    s.map_values(|m: ModuleEntry| m.address)
}

pub open spec fn status_addresses(s: Seq<ModuleStatus>) -> Seq<Address> {
    s.map_values(|m: ModuleStatus| m.address)
}

pub open spec fn info_addresses(s: Seq<ContractInfoView>) -> Seq<Address> {
    s.map_values(|c: ContractInfoView| c.address)
}

pub open spec fn no_dups<A>(s: Seq<A>) -> bool {
    forall|i: int, j: int| 0 <= i < s.len() && 0 <= j < s.len() && i != j ==> s[i] != s[j]
}

/// The recorded active flag of an address, if any.
pub open spec fn spec_status_of(s: Seq<ModuleStatus>, address: Address) -> Option<bool> {
    if status_addresses(s).contains(address) {
        Some(s[status_addresses(s).index_of(address)].is_active)
    } else {
        None
    }
}

/// The addresses of indexed contracts declaring `interface`, in index order.
pub open spec fn spec_by_interface(s: Seq<ContractInfoView>, interface: Seq<char>) -> Seq<Address>
    decreases s.len(),
{
    if s.len() == 0 {
        Seq::empty()
    } else {
        let rest = spec_by_interface(s.drop_last(), interface);
        if s.last().interfaces.contains(interface) {
            rest.push(s.last().address)
        } else {
            rest
        }
    }
}

/// The stored state of the contract registry.
pub struct RegistryContract {
    pub initialized: bool,
    pub admin: Option<Address>,
    /// Registered modules, in registration order.
    pub modules: Vec<ModuleEntry>,
    /// Active flags, one per address that was given one.
    pub module_status: Vec<ModuleStatus>,
    /// Indexed contracts, in index order.
    pub contracts: Vec<ContractInfo>,
}

impl RegistryContract {
    pub open spec fn index(&self) -> Seq<ContractInfoView> {
        infos(self.contracts@)
    }

    /// Names, module addresses, flagged addresses and indexed addresses are
    /// each recorded once, and every module has an active flag.
    pub open spec fn wf(&self) -> bool {
        &&& no_dups(module_names(self.modules@))
        &&& no_dups(module_addresses(self.modules@))
        &&& no_dups(status_addresses(self.module_status@))
        &&& no_dups(info_addresses(self.index()))
        &&& forall|i: int|
            0 <= i < self.modules@.len() ==> status_addresses(self.module_status@).contains(
                #[trigger] self.modules@[i].address,
            )
    }

    /// A registry before initialization: nothing stored.
    pub fn new() -> (c: Self)
        ensures
            c.wf(),
            !c.initialized,
            c.admin is None,
            c.modules@.len() == 0,
            c.module_status@.len() == 0,
            c.index().len() == 0,
    {
        let c = RegistryContract { initialized: false, admin: None, modules: Vec::new(), module_status: Vec::new(), contracts: Vec::new() };
        assert(module_names(c.modules@) =~= Seq::<Seq<char>>::empty());
        assert(module_addresses(c.modules@) =~= Seq::<Address>::empty());
        assert(status_addresses(c.module_status@) =~= Seq::<Address>::empty());
        assert(info_addresses(c.index()) =~= Seq::<Address>::empty());
        c
    }

    /// Set the admin once (initializing twice is refused by the contract).
    pub fn initialize(&mut self, admin: Address)
        requires
            old(self).wf(),
            !old(self).initialized,
        ensures
            final(self).wf(),
            final(self).initialized,
            final(self).admin == Some(admin),
            final(self).modules == old(self).modules,
            final(self).module_status == old(self).module_status,
            final(self).contracts == old(self).contracts,
    {
        self.admin = Some(admin);
        self.initialized = true;
    }

    fn find_module_name(&self, name: &String) -> (r: Option<usize>)
        ensures
            match r {
                Some(i) => i < self.modules@.len() && self.modules@[i as int].name@ == name@,
                None => !module_names(self.modules@).contains(name@),
            },
    {
        let mut i: usize = 0;
        while i < self.modules.len()
            invariant
                0 <= i <= self.modules@.len(),
                forall|k: int| 0 <= k < i ==> self.modules@[k].name@ != name@,
            decreases self.modules.len() - i,
        {
            if self.modules[i].name == *name {
                return Some(i);
            }
            i = i + 1;
        }
        proof {
            if module_names(self.modules@).contains(name@) {
                let k = choose|k: int| 0 <= k < module_names(self.modules@).len() && module_names(self.modules@)[k] == name@;
                assert(self.modules@[k].name@ == name@);
            }
        }
        None
    }

    fn find_status(&self, address: &Address) -> (r: Option<usize>)
        requires
            no_dups(status_addresses(self.module_status@)),
        ensures
            match r {
                Some(i) => i < self.module_status@.len() && self.module_status@[i as int].address == *address
                    && status_addresses(self.module_status@).contains(*address)
                    && status_addresses(self.module_status@).index_of(*address) == i,
                None => !status_addresses(self.module_status@).contains(*address),
            },
    {
        let mut i: usize = 0;
        while i < self.module_status.len()
            invariant
                0 <= i <= self.module_status@.len(),
                no_dups(status_addresses(self.module_status@)),
                forall|k: int| 0 <= k < i ==> self.module_status@[k].address != *address,
            decreases self.module_status.len() - i,
        {
            if self.module_status[i].address == *address {
                proof {
                    let s = status_addresses(self.module_status@);
                    assert(s[i as int] == *address);
                    assert(s.contains(*address));
                    let j = s.index_of(*address);
                    assert(s[j] == *address);
                    if j != i as int {
                        assert(s[i as int] != s[j]);
                    }
                }
                return Some(i);
            }
            i = i + 1;
        }
        proof {
            let s = status_addresses(self.module_status@);
            if s.contains(*address) {
                let k = choose|k: int| 0 <= k < s.len() && s[k] == *address;
                assert(self.module_status@[k].address == *address);
            }
        }
        None
    }

    fn find_contract(&self, address: &Address) -> (r: Option<usize>)
        requires
            no_dups(info_addresses(self.index())),
        ensures
            match r {
                Some(i) => i < self.contracts@.len() && self.index()[i as int].address == *address
                    && info_addresses(self.index()).contains(*address)
                    && info_addresses(self.index()).index_of(*address) == i,
                None => !info_addresses(self.index()).contains(*address),
            },
    {
        let mut i: usize = 0;
        while i < self.contracts.len()
            invariant
                0 <= i <= self.contracts@.len(),
                no_dups(info_addresses(self.index())),
                forall|k: int| 0 <= k < i ==> self.index()[k].address != *address,
            decreases self.contracts.len() - i,
        {
            if self.contracts[i].address == *address {
                proof {
                    let s = info_addresses(self.index());
                    assert(s[i as int] == *address);
                    assert(s.contains(*address));
                    let j = s.index_of(*address);
                    assert(s[j] == *address);
                    if j != i as int {
                        assert(s[i as int] != s[j]);
                    }
                }
                return Some(i);
            }
            i = i + 1;
        }
        proof {
            let s = info_addresses(self.index());
            if s.contains(*address) {
                let k = choose|k: int| 0 <= k < s.len() && s[k] == *address;
                assert(self.index()[k].address == *address);
            }
        }
        None
    }

    /// Whether a module name is taken.
    pub fn has_module_name(&self, name: &String) -> (b: bool)
        ensures
            b == module_names(self.modules@).contains(name@),
    {
        match self.find_module_name(name) {
            Some(i) => {
                assert(module_names(self.modules@)[i as int] == name@);
                true
            },
            None => false,
        }
    }

    /// Whether an address has an active flag (every module address has one).
    pub fn has_module_address(&self, address: &Address) -> (b: bool)
        requires
            self.wf(),
        ensures
            b == status_addresses(self.module_status@).contains(*address),
    {
        self.find_status(address).is_some()
    }

    /// Register a module under a fresh name and a fresh address, active
    /// (the admin's authorization is checked by the host; a taken name or
    /// address is refused by the contract).
    pub fn register_module(&mut self, name: String, module_address: Address)
        requires
            old(self).wf(),
            old(self).admin is Some,
            !module_names(old(self).modules@).contains(name@),
            !status_addresses(old(self).module_status@).contains(module_address),
        ensures
            final(self).wf(),
            module_names(final(self).modules@) == module_names(old(self).modules@).push(name@),
            module_addresses(final(self).modules@) == module_addresses(old(self).modules@).push(
                module_address,
            ),
            final(self).module_status@ == old(self).module_status@.push(
                ModuleStatus { address: module_address, is_active: true },
            ),
            final(self).initialized == old(self).initialized,
            final(self).admin == old(self).admin,
            final(self).contracts == old(self).contracts,
    {
        let ghost n = name@;
        self.modules.push(ModuleEntry { name, address: module_address });
        self.module_status.push(ModuleStatus { address: module_address, is_active: true });
        proof {
            assert(module_names(self.modules@) =~= module_names(old(self).modules@).push(n));
            assert(module_addresses(self.modules@) =~= module_addresses(old(self).modules@).push(module_address));
            assert(status_addresses(self.module_status@) =~= status_addresses(old(self).module_status@).push(module_address));
            assert forall|i: int| 0 <= i < self.modules@.len() implies status_addresses(self.module_status@).contains(
                #[trigger] self.modules@[i].address,
            ) by {
                if i < old(self).modules@.len() {
                    let a = self.modules@[i].address;
                    assert(status_addresses(old(self).module_status@).contains(a));
                    let k = choose|k: int| 0 <= k < status_addresses(old(self).module_status@).len() && status_addresses(old(self).module_status@)[k] == a;
                    assert(status_addresses(self.module_status@)[k] == a);
                } else {
                    assert(status_addresses(self.module_status@)[old(self).module_status@.len() as int] == module_address);
                }
            }
            assert forall|i: int, j: int| 0 <= i < module_addresses(self.modules@).len() && 0 <= j < module_addresses(self.modules@).len() && i != j implies module_addresses(self.modules@)[i] != module_addresses(self.modules@)[j] by {
                let l = old(self).modules@.len() as int;
                if i == l && j < l {
                    assert(status_addresses(old(self).module_status@).contains(old(self).modules@[j].address));
                } else if j == l && i < l {
                    assert(status_addresses(old(self).module_status@).contains(old(self).modules@[i].address));
                }
            }
        }
    }

    /// Set the active flag of an address (the admin's authorization is checked by the host).
    pub fn set_module_status(&mut self, module_address: Address, is_active: bool)
        requires
            old(self).wf(),
            old(self).admin is Some,
        ensures
            final(self).wf(),
            spec_status_of(final(self).module_status@, module_address) == Some(is_active),
            forall|a: Address| a != module_address ==> spec_status_of(final(self).module_status@, a)
                == spec_status_of(old(self).module_status@, a),
            final(self).initialized == old(self).initialized,
            final(self).admin == old(self).admin,
            final(self).modules@ == old(self).modules@,
            final(self).contracts == old(self).contracts,
    {
        let entry = ModuleStatus { address: module_address, is_active };
        let ghost old_addrs = status_addresses(old(self).module_status@);
        match self.find_status(&module_address) {
            Some(i) => {
                self.module_status.set(i, entry);
                proof {
                    let s = status_addresses(self.module_status@);
                    assert(s =~= old_addrs);
                }
            },
            None => {
                self.module_status.push(entry);
                proof {
                    let s = status_addresses(self.module_status@);
                    assert(s =~= old_addrs.push(module_address));
                    assert(s[old_addrs.len() as int] == module_address);
                    assert forall|a: Address| old_addrs.contains(a) implies s.contains(a) && s.index_of(a) == old_addrs.index_of(a) by {
                        let k = old_addrs.index_of(a);
                        assert(old_addrs[k] == a);
                        assert(s[k] == a);
                        let m = s.index_of(a);
                        assert(s[m] == a);
                        if m != k {
                            if m == old_addrs.len() {
                                assert(a == module_address);
                            } else {
                                assert(old_addrs[m] == a);
                            }
                        }
                    }
                    assert(s.contains(module_address));
                    let m = s.index_of(module_address);
                    assert(s[m] == module_address);
                    assert(m == old_addrs.len());
                    assert forall|a: Address| s.contains(a) && a != module_address implies old_addrs.contains(a) by {
                        let k = choose|k: int| 0 <= k < s.len() && s[k] == a;
                        assert(old_addrs[k] == a);
                    }
                    assert forall|i: int| 0 <= i < self.modules@.len() implies s.contains(#[trigger] self.modules@[i].address) by {
                        let a = self.modules@[i].address;
                        assert(old_addrs.contains(a));
                    }
                }
            },
        }
        proof {
            let s = status_addresses(self.module_status@);
            assert forall|a: Address| a != module_address implies spec_status_of(self.module_status@, a)
                == spec_status_of(old(self).module_status@, a) by {
                if old_addrs.contains(a) {
                    let k = old_addrs.index_of(a);
                    assert(old_addrs[k] == a);
                    assert(s[k] == a);
                    let m = s.index_of(a);
                    assert(s[m] == a);
                    assert(m == k);
                } else if s.contains(a) {
                    let k = choose|k: int| 0 <= k < s.len() && s[k] == a;
                    if k < old_addrs.len() {
                        assert(old_addrs[k] == a);
                    }
                }
            }
            assert(s.contains(module_address));
            let m = s.index_of(module_address);
            assert(s[m] == module_address);
        }
    }

    pub fn get_module_address(&self, name: &String) -> (r: Option<Address>)
        requires
            self.wf(),
        ensures
            match r {
                Some(a) => exists|i: int| 0 <= i < self.modules@.len() && self.modules@[i].name@ == name@ && self.modules@[i].address == a,
                None => !module_names(self.modules@).contains(name@),
            },
    {
        match self.find_module_name(name) {
            Some(i) => Some(self.modules[i].address),
            None => None,
        }
    }

    pub fn get_module_status(&self, module_address: &Address) -> (r: Option<bool>)
        requires
            self.wf(),
        ensures
            r == spec_status_of(self.module_status@, *module_address),
    {
        match self.find_status(module_address) {
            Some(i) => Some(self.module_status[i].is_active),
            None => None,
        }
    }

    pub fn is_module_active(&self, module_address: &Address) -> (b: bool)
        requires
            self.wf(),
        ensures
            b == (spec_status_of(self.module_status@, *module_address) == Some(true)),
    {
        match self.get_module_status(module_address) {
            Some(b) => b,
            None => false,
        }
    }

    /// Module addresses in registration order.
    pub fn list_modules(&self) -> (r: Vec<Address>)
        ensures
            r@ == module_addresses(self.modules@),
    {
        let mut out: Vec<Address> = Vec::new();
        let mut i: usize = 0;
        while i < self.modules.len()
            invariant
                0 <= i <= self.modules@.len(),
                out@ == module_addresses(self.modules@).take(i as int),
            decreases self.modules.len() - i,
        {
            out.push(self.modules[i].address);
            i = i + 1;
            assert(out@ =~= module_addresses(self.modules@).take(i as int));
        }
        assert(module_addresses(self.modules@).take(i as int) =~= module_addresses(self.modules@));
        out
    }

    /// Index a deployed contract, active, registered at `now` (the admin's
    /// authorization is checked by the host; an address indexed twice is
    /// refused by the contract).
    pub fn index_contract(
        &mut self,
        contract_address: Address,
        name: String,
        version: String,
        owner: Address,
        interfaces: Vec<String>,
        now: u64,
    )
        requires
            old(self).wf(),
            old(self).admin is Some,
            !info_addresses(old(self).index()).contains(contract_address),
        ensures
            final(self).wf(),
            final(self).index() == old(self).index().push(
                ContractInfoView {
                    address: contract_address,
                    name: name@,
                    version: version@,
                    owner,
                    interfaces: string_views(interfaces@),
                    registered_at: now,
                    is_active: true,
                },
            ),
            final(self).initialized == old(self).initialized,
            final(self).admin == old(self).admin,
            final(self).modules@ == old(self).modules@,
            final(self).module_status@ == old(self).module_status@,
    {
        let info = ContractInfo { address: contract_address, name, version, owner, interfaces, registered_at: now, is_active: true };
        let ghost v = info@;
        self.contracts.push(info);
        proof {
            assert(self.index() =~= old(self).index().push(v));
            assert(info_addresses(self.index()) =~= info_addresses(old(self).index()).push(contract_address));
        }
    }

    pub fn get_contract_info(&self, contract_address: &Address) -> (r: Option<ContractInfo>)
        requires
            self.wf(),
        ensures
            info_addresses(self.index()).contains(*contract_address) ==> (r matches Some(c) && c@
                == self.index()[info_addresses(self.index()).index_of(*contract_address)]),
            !info_addresses(self.index()).contains(*contract_address) ==> r is None,
    {
        match self.find_contract(contract_address) {
            Some(i) => Some(self.contracts[i].copy()),
            None => None,
        }
    }

    /// The index position of an indexed contract.
    pub open spec fn position(&self, a: Address) -> int {
        info_addresses(self.index()).index_of(a)
    }

    /// Replace the version and interfaces of an indexed contract (the admin's
    /// authorization is checked by the host; an unknown address is refused by the contract).
    pub fn update_contract_metadata(&mut self, contract_address: Address, version: String, interfaces: Vec<String>)
        requires
            old(self).wf(),
            old(self).admin is Some,
            info_addresses(old(self).index()).contains(contract_address),
        ensures
            final(self).wf(),
            final(self).index() == old(self).index().update(
                old(self).position(contract_address),
                ContractInfoView {
                    version: version@,
                    interfaces: string_views(interfaces@),
                    ..old(self).index()[old(self).position(contract_address)]
                },
            ),
            final(self).initialized == old(self).initialized,
            final(self).admin == old(self).admin,
            final(self).modules@ == old(self).modules@,
            final(self).module_status@ == old(self).module_status@,
    {
        let i = match self.find_contract(&contract_address) {
            Some(i) => i,
            None => {
                proof {
                    assert(false);
                }
                return;
            },
        };
        let mut info = self.contracts[i].copy();
        info.version = version;
        info.interfaces = interfaces;
        let ghost v = info@;
        self.contracts.set(i, info);
        proof {
            assert(self.index() =~= old(self).index().update(i as int, v));
            assert(info_addresses(self.index()) =~= info_addresses(old(self).index()));
            assert(v =~= ContractInfoView {
                version: version@,
                interfaces: string_views(interfaces@),
                ..old(self).index()[old(self).position(contract_address)]
            });
        }
    }

    /// Set the active flag of an indexed contract (the admin's authorization
    /// is checked by the host; an unknown address is refused by the contract).
    pub fn set_contract_status(&mut self, contract_address: Address, is_active: bool)
        requires
            old(self).wf(),
            old(self).admin is Some,
            info_addresses(old(self).index()).contains(contract_address),
        ensures
            final(self).wf(),
            final(self).index() == old(self).index().update(
                old(self).position(contract_address),
                ContractInfoView { is_active, ..old(self).index()[old(self).position(contract_address)] },
            ),
            final(self).initialized == old(self).initialized,
            final(self).admin == old(self).admin,
            final(self).modules@ == old(self).modules@,
            final(self).module_status@ == old(self).module_status@,
    {
        let i = match self.find_contract(&contract_address) {
            Some(i) => i,
            None => {
                proof {
                    assert(false);
                }
                return;
            },
        };
        let mut info = self.contracts[i].copy();
        info.is_active = is_active;
        let ghost v = info@;
        self.contracts.set(i, info);
        proof {
            assert(self.index() =~= old(self).index().update(i as int, v));
            assert(info_addresses(self.index()) =~= info_addresses(old(self).index()));
            assert(v =~= ContractInfoView { is_active, ..old(self).index()[old(self).position(contract_address)] });
        }
    }

    /// Returns all indexed contract addresses in registration order.
    pub fn list_contracts(&self) -> (r: Vec<Address>)
        ensures
            r@ == info_addresses(self.index()),
    {
        let mut out: Vec<Address> = Vec::new();
        let mut i: usize = 0;
        while i < self.contracts.len()
            invariant
                0 <= i <= self.contracts@.len(),
                out@ == info_addresses(self.index()).take(i as int),
            decreases self.contracts.len() - i,
        {
            out.push(self.contracts[i].address);
            i = i + 1;
            assert(out@ =~= info_addresses(self.index()).take(i as int));
        }
        assert(info_addresses(self.index()).take(i as int) =~= info_addresses(self.index()));
        out
    }

    /// Returns the addresses of all indexed contracts that implement the given interface.
    pub fn list_contracts_by_interface(&self, interface: &String) -> (r: Vec<Address>)
        ensures
            r@ == spec_by_interface(self.index(), interface@),
    {
        let mut out: Vec<Address> = Vec::new();
        let mut i: usize = 0;
        while i < self.contracts.len()
            invariant
                0 <= i <= self.contracts@.len(),
                out@ == spec_by_interface(self.index().take(i as int), interface@),
            decreases self.contracts.len() - i,
        {
            proof {
                assert(self.index().take(i + 1).drop_last() =~= self.index().take(i as int));
                assert(self.index().take(i + 1).last() == self.index()[i as int]);
            }
            if strings_contain(&self.contracts[i].interfaces, interface) {
                out.push(self.contracts[i].address);
            }
            i = i + 1;
        }
        assert(self.index().take(i as int) =~= self.index());
        out
    }

    /// Returns `true` if the contract is indexed and currently active.
    pub fn is_contract_active(&self, contract_address: &Address) -> (b: bool)
        requires
            self.wf(),
        ensures
            b == (info_addresses(self.index()).contains(*contract_address)
                && self.index()[self.position(*contract_address)].is_active),
    {
        match self.find_contract(contract_address) {
            Some(i) => self.contracts[i].is_active,
            None => false,
        }
    }
}

} // verus!
