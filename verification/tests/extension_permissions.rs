use vex_browser::extensions::permissions::{
    build_permission_dialog, check_permission, Permission, PermissionCheck, PermissionSet,
};

#[test]
fn permission_from_key() {
    assert_eq!(Permission::from_key("tabs"), Some(Permission::Tabs));
    assert_eq!(Permission::from_key("storage"), Some(Permission::Storage));
    assert_eq!(Permission::from_key("unknown"), None);
}

#[test]
fn permission_roundtrip() {
    for perm in Permission::all() {
        assert_eq!(Permission::from_key(perm.key()), Some(perm));
    }
}

#[test]
fn permission_set_grant_revoke() {
    let mut set = PermissionSet::new();
    assert!(!set.has(Permission::Tabs));

    set.grant(Permission::Tabs);
    assert!(set.has(Permission::Tabs));
    assert_eq!(set.count(), 1);

    set.revoke(Permission::Tabs);
    assert!(!set.has(Permission::Tabs));
}

#[test]
fn permission_set_has_all() {
    let set = PermissionSet::from_permissions(&[Permission::Tabs, Permission::Storage]);
    assert!(set.has_all(&[Permission::Tabs, Permission::Storage]));
    assert!(!set.has_all(&[Permission::Tabs, Permission::Cookies]));
}

#[test]
fn permission_set_grant_all() {
    let mut set = PermissionSet::new();
    set.grant_all(&[Permission::Tabs, Permission::Storage, Permission::History]);
    assert_eq!(set.count(), 3);
    assert!(set.has(Permission::History));
}

#[test]
fn permission_check_allowed() {
    let set = PermissionSet::from_permissions(&[Permission::Tabs]);
    assert_eq!(check_permission(&set, Permission::Tabs), PermissionCheck::Allowed);
}

#[test]
fn permission_check_denied() {
    let set = PermissionSet::new();
    assert_eq!(
        check_permission(&set, Permission::Cookies),
        PermissionCheck::Denied(Permission::Cookies)
    );
}

#[test]
fn permission_dialog_message() {
    let msg = build_permission_dialog("Test Ext", &[Permission::Tabs, Permission::Storage]);
    assert!(msg.contains("Test Ext"));
    assert!(msg.contains("tabs"));
    assert!(msg.contains("storage"));
    assert!(msg.contains("Allow"));
}

#[test]
fn permission_descriptions() {
    for perm in Permission::all() {
        assert!(!perm.description().is_empty());
    }
}

#[test]
fn permission_dialog_exact_text() {
    let msg = build_permission_dialog("X", &[Permission::Cookies]);
    assert_eq!(
        msg,
        "\"X\" requests the following permissions:\n\n  • cookies — Read and write cookies\n\nAllow this extension?"
    );
}

#[test]
fn grant_twice_counts_once_and_revoke_all_empties() {
    let mut set = PermissionSet::new();
    set.grant(Permission::Tabs);
    set.grant(Permission::Tabs);
    assert_eq!(set.count(), 1);
    set.grant_all(&[Permission::Storage, Permission::Tabs]);
    assert_eq!(set.count(), 2);
    assert_eq!(set.granted().len(), 2);
    set.revoke_all();
    assert_eq!(set.count(), 0);
}
