use vex_browser::extensions::content::InjectionTime;
use vex_browser::extensions::manifest::{
    manifest_from_raw, ManifestError, RawBackground, RawBrowserAction, RawContentScript,
    RawManifest,
};
use vex_browser::extensions::permissions::Permission;

fn raw(version: u32, name: &str, ver: &str) -> RawManifest {
    RawManifest {
        manifest_version: version,
        name: name.to_string(),
        version: ver.to_string(),
        description: None,
        permissions: vec![],
        content_scripts: vec![],
        background: None,
        browser_action: None,
    }
}

#[test]
fn manifest_error_display() {
    let err = ManifestError::UnsupportedVersion(5);
    assert!(err.message().contains("5"));
}

#[test]
fn manifest_error_messages() {
    assert_eq!(ManifestError::UnsupportedVersion(99).message(), "unsupported manifest_version: 99");
    assert_eq!(ManifestError::MissingField("version").message(), "missing required field: version");
    assert_eq!(
        ManifestError::InvalidField { field: "name", reason: "too long".to_string() }.message(),
        "invalid name: too long"
    );
    assert_eq!(ManifestError::UnknownPermission("x".to_string()).message(), "unknown permission: x");
    assert_eq!(ManifestError::InvalidJson("eof".to_string()).message(), "invalid manifest JSON: eof");
}

#[test]
fn parse_valid_manifest() {
    let mut r = raw(1, "Test Extension", "1.0.0");
    r.description = Some("A test extension".to_string());
    r.permissions = vec!["tabs".to_string(), "storage".to_string()];
    r.content_scripts = vec![RawContentScript {
        matches: vec!["*://*.example.com/*".to_string()],
        js: vec!["content.js".to_string()],
        run_at: Some("document_idle".to_string()),
    }];
    r.background = Some(RawBackground { service_worker: Some("background.js".to_string()), scripts: vec![] });
    r.browser_action = Some(RawBrowserAction {
        default_popup: Some("popup.html".to_string()),
        default_icon: Some("icon.png".to_string()),
        default_title: Some("Test".to_string()),
    });
    let m = manifest_from_raw(r, "test-ext", "/ext/test".to_string()).unwrap();
    assert_eq!(m.id, "test-ext");
    assert_eq!(m.name, "Test Extension");
    assert_eq!(m.version, "1.0.0");
    assert_eq!(m.permissions, vec![Permission::Tabs, Permission::Storage]);
    assert_eq!(m.content_scripts.len(), 1);
    assert_eq!(m.content_scripts[0].run_at, InjectionTime::DocumentIdle);
    assert_eq!(m.background_worker.as_deref(), Some("background.js"));
    assert_eq!(m.browser_action.as_ref().unwrap().title.as_deref(), Some("Test"));
    assert_eq!(m.root_dir, "/ext/test");
}

#[test]
fn parse_minimal_manifest() {
    let m = manifest_from_raw(raw(1, "Min", "0.1"), "min", "/ext/min".to_string()).unwrap();
    assert_eq!(m.name, "Min");
    assert!(m.permissions.is_empty());
    assert!(m.content_scripts.is_empty());
    assert!(m.background_worker.is_none());
    assert!(m.browser_action.is_none());
}

#[test]
fn parse_mv2_background_scripts_manifest() {
    let mut r = raw(2, "MV2 Ext", "1.0.0");
    r.background = Some(RawBackground {
        service_worker: None,
        scripts: vec!["bg1.js".to_string(), "bg2.js".to_string()],
    });
    let m = manifest_from_raw(r, "mv2-ext", "/ext/mv2".to_string()).unwrap();
    assert_eq!(m.manifest_version, 2);
    assert_eq!(m.background_worker.as_deref(), Some("bg1.js"));
}

#[test]
fn content_script_run_at_default_and_given() {
    let mut r = raw(3, "Cs", "1");
    r.content_scripts = vec![
        RawContentScript { matches: vec!["<all_urls>".to_string()], js: vec![], run_at: None },
        RawContentScript {
            matches: vec![],
            js: vec!["a.js".to_string()],
            run_at: Some("document_start".to_string()),
        },
    ];
    let m = manifest_from_raw(r, "cs", "/".to_string()).unwrap();
    assert_eq!(m.content_scripts[0].run_at, InjectionTime::DocumentIdle);
    assert_eq!(m.content_scripts[1].run_at, InjectionTime::DocumentStart);
    assert_eq!(m.content_scripts[1].js_files, vec!["a.js".to_string()]);
}

#[test]
fn reject_invalid_version() {
    let err = manifest_from_raw(raw(99, "Bad", "1.0"), "bad", "/".to_string()).unwrap_err();
    assert_eq!(err, ManifestError::UnsupportedVersion(99));
    let err = manifest_from_raw(raw(0, "", ""), "bad", "/".to_string()).unwrap_err();
    assert_eq!(err, ManifestError::UnsupportedVersion(0));
}

#[test]
fn reject_empty_name() {
    let err = manifest_from_raw(raw(1, "", "1.0"), "bad", "/".to_string()).unwrap_err();
    assert!(matches!(err, ManifestError::InvalidField { field: "name", .. }));
    let long = "x".repeat(61);
    let err = manifest_from_raw(raw(1, &long, "1.0"), "bad", "/".to_string()).unwrap_err();
    assert_eq!(
        err,
        ManifestError::InvalidField { field: "name", reason: "must be 1–60 characters".to_string() }
    );
    let ok = "x".repeat(60);
    assert!(manifest_from_raw(raw(1, &ok, "1.0"), "ok", "/".to_string()).is_ok());
    // Sixty characters of two bytes each are 120 bytes: too long.
    let wide = "é".repeat(31);
    assert!(manifest_from_raw(raw(1, &wide, "1.0"), "w", "/".to_string()).is_err());
}

#[test]
fn reject_missing_version() {
    let err = manifest_from_raw(raw(1, "Name", ""), "bad", "/".to_string()).unwrap_err();
    assert_eq!(err, ManifestError::MissingField("version"));
}

#[test]
fn reject_unknown_permission() {
    let mut r = raw(1, "Bad", "1.0");
    r.permissions = vec!["tabs".to_string(), "unknown_perm".to_string(), "also_bad".to_string()];
    let err = manifest_from_raw(r, "bad", "/".to_string()).unwrap_err();
    assert_eq!(err, ManifestError::UnknownPermission("unknown_perm".to_string()));
}

#[test]
fn parse_mv3_service_worker_manifest() {
    let mut r = raw(3, "MV3 Ext", "1.0.0");
    r.background = Some(RawBackground { service_worker: Some("sw.js".to_string()), scripts: vec!["ignored.js".to_string()] });
    let m = manifest_from_raw(r, "mv3-ext", "/ext/mv3".to_string()).unwrap();
    assert_eq!(m.manifest_version, 3);
    assert_eq!(m.background_worker.as_deref(), Some("sw.js"));
}
