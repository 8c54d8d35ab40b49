use repo_manager::config::{AuthenticationConfig, Permission};

#[test]
fn write_permits_every_level() {
    assert!(Permission::Write.is_permitted(&Permission::NoAccess));
    assert!(Permission::Write.is_permitted(&Permission::Read));
    assert!(Permission::Write.is_permitted(&Permission::Write));
}

#[test]
fn read_permits_read_and_below() {
    assert!(Permission::Read.is_permitted(&Permission::NoAccess));
    assert!(Permission::Read.is_permitted(&Permission::Read));
    assert!(!Permission::Read.is_permitted(&Permission::Write));
}

#[test]
fn no_access_permits_only_no_access() {
    assert!(Permission::NoAccess.is_permitted(&Permission::NoAccess));
    assert!(!Permission::NoAccess.is_permitted(&Permission::Read));
    assert!(!Permission::NoAccess.is_permitted(&Permission::Write));
}

#[test]
fn authentication_defaults_to_yaml() {
    assert_eq!(AuthenticationConfig::default(), AuthenticationConfig::Yaml);
}
