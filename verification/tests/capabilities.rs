use axionvera::capabilities::{CapabilitiesContract, Capability, CapabilityError, Version};
use axionvera::interfaces::Address;

fn admin() -> Address {
    Address { high: 0, low: 1 }
}

fn v(major: u32, minor: u32, patch: u32) -> Version {
    Version { major, minor, patch }
}

fn cap(id: &str, version: Version, interfaces: &[&str]) -> Capability {
    Capability {
        id: id.to_string(),
        version,
        name: format!("{} name", id),
        description: "a capability".to_string(),
        interfaces: interfaces.iter().map(|s| s.to_string()).collect(),
    }
}

fn setup() -> CapabilitiesContract {
    let mut c = CapabilitiesContract::new();
    c.initialize(admin(), v(1, 2, 0)).unwrap();
    c
}

#[test]
fn register_and_query_capability() {
    let mut c = setup();
    c.register_capability(admin(), cap("vault", v(2, 1, 3), &["IVault"])).unwrap();
    let got = c.query_capability(&"vault".to_string()).unwrap();
    assert_eq!(got.version, v(2, 1, 3));
    assert_eq!(c.query_capabilities(), vec!["vault".to_string()]);
    assert_eq!(c.query_interfaces(), vec!["IVault".to_string()]);
}

#[test]
fn capability_support_follows_semantic_versions() {
    let mut c = setup();
    c.register_capability(admin(), cap("vault", v(2, 1, 3), &[])).unwrap();
    let id = "vault".to_string();
    assert!(c.supports_capability(&id, 2, 1, 3));
    assert!(c.supports_capability(&id, 2, 0, 9));
    assert!(!c.supports_capability(&id, 2, 1, 4));
    assert!(!c.supports_capability(&id, 2, 2, 0));
    assert!(!c.supports_capability(&id, 3, 0, 0));
    assert!(!c.supports_capability(&"none".to_string(), 2, 1, 3));
}

#[test]
fn duplicate_and_unauthorized_registrations_are_refused() {
    let mut c = setup();
    c.register_capability(admin(), cap("vault", v(1, 0, 0), &[])).unwrap();
    assert_eq!(c.register_capability(admin(), cap("vault", v(1, 0, 0), &[])), Err(CapabilityError::DuplicateCapability));
    assert_eq!(
        c.register_capability(Address { high: 0, low: 2 }, cap("other", v(1, 0, 0), &[])),
        Err(CapabilityError::Unauthorized)
    );
}

#[test]
fn update_and_remove_capability() {
    let mut c = setup();
    let id = "vault".to_string();
    c.register_capability(admin(), cap("vault", v(1, 0, 0), &["IVault"])).unwrap();
    c.update_capability_version(admin(), &id, v(1, 5, 0)).unwrap();
    assert!(c.supports_capability(&id, 1, 5, 0));
    c.remove_capability(admin(), &id).unwrap();
    assert!(c.query_capability(&id).is_none());
    assert_eq!(c.remove_capability(admin(), &id), Err(CapabilityError::CapabilityNotFound));
}

#[test]
fn protocol_metadata_and_version_support() {
    let mut c = setup();
    c.register_capability(admin(), cap("a", v(1, 0, 0), &["I1", "I2"])).unwrap();
    c.register_capability(admin(), cap("b", v(1, 0, 0), &["I2", "I3"])).unwrap();
    let m = c.query_metadata();
    assert_eq!(m.name, "AxionVera");
    assert_eq!(m.capabilities_count, 2);
    assert_eq!(m.interfaces_count, 3);
    assert!(c.supports_protocol_version(1, 1));
    assert!(!c.supports_protocol_version(1, 3));
    assert!(!c.supports_protocol_version(2, 0));
}

#[test]
fn initialize_is_one_time() {
    let mut c = setup();
    assert_eq!(c.initialize(admin(), v(1, 0, 0)), Err(CapabilityError::AlreadyInitialized));
    let mut fresh = CapabilitiesContract::new();
    assert_eq!(fresh.register_capability(admin(), cap("x", v(1, 0, 0), &[])), Err(CapabilityError::Unauthorized));
}
