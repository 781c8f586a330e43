use axionvera::interfaces::Address;
use axionvera::registry::RegistryContract;

fn addr(n: u128) -> Address {
    Address { high: 0, low: n }
}

fn s(x: &str) -> String {
    x.to_string()
}

fn setup() -> RegistryContract {
    let mut r = RegistryContract::new();
    r.initialize(addr(1));
    r
}

#[test]
fn test_register_and_list() {
    let mut r = setup();
    let module_addr = addr(2);
    r.register_module(s("VaultV1"), module_addr);
    assert_eq!(r.get_module_address(&s("VaultV1")), Some(module_addr));
    assert!(r.is_module_active(&module_addr));
    let modules = r.list_modules();
    assert_eq!(modules.len(), 1);
    assert_eq!(modules[0], module_addr);
}

#[test]
fn test_set_status() {
    let mut r = setup();
    let module_addr = addr(2);
    r.register_module(s("VaultV1"), module_addr);
    r.set_module_status(module_addr, false);
    assert!(!r.is_module_active(&module_addr));
    assert_eq!(r.get_module_status(&module_addr), Some(false));
}

#[test]
fn test_index_contract_stores_full_metadata() {
    let mut r = setup();
    let a = addr(10);
    let owner = addr(11);
    r.index_contract(a, s("VaultV2"), s("v1_0_0"), owner, vec![s("IVault")], 77);
    let info = r.get_contract_info(&a).expect("info must exist");
    assert_eq!(info.address, a);
    assert_eq!(info.name, s("VaultV2"));
    assert_eq!(info.version, s("v1_0_0"));
    assert_eq!(info.owner, owner);
    assert_eq!(info.interfaces.len(), 1);
    assert_eq!(info.interfaces[0], s("IVault"));
    assert!(info.is_active);
    assert_eq!(info.registered_at, 77);
}

#[test]
fn test_list_contracts_returns_all_indexed() {
    let mut r = setup();
    let owner = addr(9);
    r.index_contract(addr(10), s("VaultV1"), s("v1_0_0"), owner, vec![], 1);
    r.index_contract(addr(11), s("Treasury"), s("v1_0_0"), owner, vec![], 1);
    let listed = r.list_contracts();
    assert_eq!(listed.len(), 2);
    assert!(listed.contains(&addr(10)));
    assert!(listed.contains(&addr(11)));
}

#[test]
fn test_get_contract_info_returns_none_for_unknown() {
    let r = setup();
    assert!(r.get_contract_info(&addr(10)).is_none());
}

#[test]
fn test_list_contracts_by_interface() {
    let mut r = setup();
    let owner = addr(9);
    r.index_contract(addr(10), s("VaultA"), s("v1_0_0"), owner, vec![s("IVault")], 1);
    r.index_contract(addr(11), s("Treasury"), s("v1_0_0"), owner, vec![s("ITreasury")], 1);
    r.index_contract(addr(12), s("VaultB"), s("v1_0_0"), owner, vec![s("IVault"), s("ITreasury")], 1);

    let vault_matches = r.list_contracts_by_interface(&s("IVault"));
    assert_eq!(vault_matches.len(), 2);
    assert!(vault_matches.contains(&addr(10)));
    assert!(vault_matches.contains(&addr(12)));

    let treasury_matches = r.list_contracts_by_interface(&s("ITreasury"));
    assert_eq!(treasury_matches.len(), 2);
    assert!(treasury_matches.contains(&addr(11)));
    assert!(treasury_matches.contains(&addr(12)));

    assert_eq!(r.list_contracts_by_interface(&s("INone")).len(), 0);
}

#[test]
fn test_update_contract_metadata() {
    let mut r = setup();
    let a = addr(10);
    let owner = addr(9);
    r.index_contract(a, s("Vault"), s("v1_0_0"), owner, vec![s("IVault")], 5);
    r.update_contract_metadata(a, s("v2_0_0"), vec![s("IVault"), s("IVaultV2")]);
    let info = r.get_contract_info(&a).expect("info must exist");
    assert_eq!(info.version, s("v2_0_0"));
    assert_eq!(info.interfaces.len(), 2);
    assert!(info.interfaces.contains(&s("IVaultV2")));
    assert_eq!(info.owner, owner);
    assert_eq!(info.registered_at, 5);
}

#[test]
fn test_set_contract_status() {
    let mut r = setup();
    let a = addr(10);
    r.index_contract(a, s("Vault"), s("v1_0_0"), addr(9), vec![], 1);
    assert!(r.is_contract_active(&a));
    r.set_contract_status(a, false);
    assert!(!r.is_contract_active(&a));
    r.set_contract_status(a, true);
    assert!(r.is_contract_active(&a));
}

#[test]
fn test_is_contract_active_returns_false_for_unknown() {
    let r = setup();
    assert!(!r.is_contract_active(&addr(10)));
}

#[test]
fn test_metadata_consistent_across_multiple_contracts() {
    let mut r = setup();
    let owner = addr(9);
    let names = ["ContractA", "ContractB", "ContractC", "ContractD", "ContractE"];
    let mut addrs = Vec::new();
    for (i, n) in names.iter().enumerate() {
        let a = addr(100 + i as u128);
        r.index_contract(a, s(n), s("v1_0_0"), owner, vec![s("ICore")], 1);
        addrs.push(a);
    }
    assert_eq!(r.list_contracts().len(), 5);
    assert_eq!(r.list_contracts_by_interface(&s("ICore")).len(), 5);
    for a in addrs {
        let info = r.get_contract_info(&a).expect("must exist");
        assert!(info.is_active);
        assert_eq!(info.version, s("v1_0_0"));
    }
}

#[test]
fn unknown_module_has_no_status() {
    let r = setup();
    assert_eq!(r.get_module_status(&addr(5)), None);
    assert!(!r.is_module_active(&addr(5)));
    assert_eq!(r.get_module_address(&s("Nope")), None);
}
