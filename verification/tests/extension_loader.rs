use std::collections::HashMap;
use vex_browser::extensions::content::{ContentScriptDef, InjectionTime};
use vex_browser::extensions::loader::{
    compile_content_script, ExtensionLoader, ExtensionState, LoadError,
};
use vex_browser::extensions::manifest::{manifest_from_raw, BrowserActionDef, ExtensionManifest, ManifestError, RawContentScript, RawManifest};
use vex_browser::extensions::permissions::Permission;

fn manifest(id: &str) -> ExtensionManifest {
    let raw = RawManifest {
        manifest_version: 1,
        name: id.to_string(),
        version: "1.0.0".to_string(),
        description: None,
        permissions: vec!["tabs".to_string()],
        content_scripts: vec![RawContentScript {
            matches: vec!["*://*.example.com/*".to_string()],
            js: vec!["content.js".to_string()],
            run_at: None,
        }],
        background: None,
        browser_action: None,
    };
    manifest_from_raw(raw, id, format!("/ext/{id}")).unwrap()
}

fn files() -> HashMap<String, String> {
    let mut m = HashMap::new();
    for id in ["test-ext", "ext-a", "ext-b", "cs-ext", "dis-ext", "url-ext", "perm-ext", "state-ext"] {
        m.insert(format!("/ext/{id}/content.js"), "console.log('hello');".to_string());
    }
    m
}

fn reader(fs: &HashMap<String, String>) -> impl Fn(&str, &str) -> Option<String> + '_ {
    move |root: &str, path: &str| fs.get(&format!("{root}/{path}")).cloned()
}

fn loaded(ids: &[&str]) -> ExtensionLoader {
    let mut loader = ExtensionLoader::new("/ext".to_string());
    for id in ids {
        loader.load_extension(id, Ok(manifest(id))).unwrap();
    }
    loader
}

#[test]
fn load_extension_from_manifest() {
    let mut loader = ExtensionLoader::new("/ext".to_string());
    let id = loader.load_extension("test-ext", Ok(manifest("test-ext"))).unwrap();
    assert_eq!(id, "test-ext");
    assert_eq!(loader.count(), 1);
    let ext = loader.get("test-ext").unwrap();
    assert_eq!(ext.manifest.name, "test-ext");
    assert_eq!(ext.state, ExtensionState::Disabled);
    assert_eq!(loader.extensions_dir(), "/ext");
}

#[test]
fn reject_duplicate_id() {
    let mut loader = loaded(&["dup-ext"]);
    let err = loader.load_extension("dup-ext", Ok(manifest("dup-ext"))).unwrap_err();
    assert!(matches!(err, LoadError::DuplicateId(_)));
    // The duplicate is reported before a refused manifest.
    let err = loader.load_extension("dup-ext", Err(ManifestError::MissingField("version"))).unwrap_err();
    assert!(matches!(err, LoadError::DuplicateId(_)));
    assert_eq!(loader.count(), 1);
}

#[test]
fn reject_invalid_manifest() {
    let mut loader = ExtensionLoader::new("/ext".to_string());
    let err = loader.load_extension("x", Err(ManifestError::UnsupportedVersion(9))).unwrap_err();
    assert!(matches!(err, LoadError::ManifestInvalid(ManifestError::UnsupportedVersion(9))));
    assert_eq!(loader.count(), 0);
}

#[test]
fn enable_compiles_content_scripts() {
    let fs = files();
    let mut loader = loaded(&["cs-ext"]);
    assert!(loader.content_scripts().is_empty());
    assert!(loader.enable("cs-ext", &reader(&fs)));
    assert_eq!(loader.content_scripts().len(), 1);
    assert!(loader.content_scripts()[0].source.contains("console.log"));
}

#[test]
fn disable_removes_content_scripts() {
    let fs = files();
    let mut loader = loaded(&["dis-ext"]);
    loader.enable("dis-ext", &reader(&fs));
    assert_eq!(loader.content_scripts().len(), 1);
    loader.disable("dis-ext", &reader(&fs));
    assert!(loader.content_scripts().is_empty());
}

#[test]
fn unreadable_script_is_skipped() {
    let fs: HashMap<String, String> = HashMap::new();
    let mut loader = loaded(&["cs-ext"]);
    assert!(loader.enable("cs-ext", &reader(&fs)));
    assert!(loader.content_scripts().is_empty());
}

#[test]
fn runtime_messaging_routes_between_active_extensions() {
    let fs = files();
    let mut loader = loaded(&["ext-a", "ext-b"]);
    loader.enable("ext-a", &reader(&fs));
    loader.enable("ext-b", &reader(&fs));
    let delivered = loader.send_runtime_message("ext-a", Some("ext-b"), "{\"kind\":\"ping\"}".to_owned());
    assert_eq!(delivered, 1);
    assert_eq!(loader.pending_runtime_messages("ext-b"), 1);
    let msg = loader.poll_runtime_message("ext-b").expect("message should be queued");
    assert_eq!(msg.from_extension_id, "ext-a");
    assert_eq!(msg.to_extension_id.as_deref(), Some("ext-b"));
    assert_eq!(msg.payload, "{\"kind\":\"ping\"}");
}

#[test]
fn runtime_messaging_blocks_disabled_sender() {
    let fs = files();
    let mut loader = loaded(&["ext-a", "ext-b"]);
    loader.enable("ext-b", &reader(&fs));
    let delivered = loader.send_runtime_message("ext-a", Some("ext-b"), "x".to_owned());
    assert_eq!(delivered, 0);
    assert_eq!(loader.pending_runtime_messages("ext-b"), 0);
}

#[test]
fn runtime_broadcast_reaches_other_active_extensions() {
    let fs = files();
    let mut loader = loaded(&["ext-a", "ext-b", "test-ext"]);
    loader.enable("ext-a", &reader(&fs));
    loader.enable("ext-b", &reader(&fs));
    assert_eq!(loader.send_runtime_message("ext-a", None, "hi".to_owned()), 1);
    assert_eq!(loader.pending_runtime_messages("ext-b"), 1);
    assert_eq!(loader.pending_runtime_messages("ext-a"), 0);
    assert_eq!(loader.pending_runtime_messages("test-ext"), 0);
    assert!(loader.poll_runtime_message("test-ext").is_none());
}

#[test]
fn content_scripts_for_url_filtering() {
    let fs = files();
    let mut loader = loaded(&["url-ext"]);
    loader.enable("url-ext", &reader(&fs));
    assert_eq!(loader.content_scripts_for_url("https://www.example.com/page").len(), 1);
    assert!(loader.content_scripts_for_url("https://other.test/").is_empty());
}

#[test]
fn approve_permissions() {
    let mut loader = loaded(&["perm-ext"]);
    assert_eq!(loader.get("perm-ext").unwrap().permissions.count(), 0);
    loader.approve_permissions("perm-ext");
    assert!(loader.get("perm-ext").unwrap().permissions.has(Permission::Tabs));
}

#[test]
fn load_error_display() {
    let err = LoadError::DuplicateId("test".to_owned());
    assert!(err.message().contains("test"));
    assert_eq!(err.message(), "duplicate extension id: test");
    assert_eq!(
        LoadError::ManifestInvalid(ManifestError::MissingField("version")).message(),
        "invalid manifest: missing required field: version"
    );
    assert_eq!(LoadError::ManifestNotFound("/x/m".to_string()).message(), "extension manifest not found: /x/m");
}

#[test]
fn extension_state_transitions() {
    let fs = files();
    let mut loader = loaded(&["state-ext"]);
    assert!(!loader.get("state-ext").unwrap().is_active());
    assert!(loader.active_ids().is_empty());
    assert!(loader.enable("state-ext", &reader(&fs)));
    assert!(loader.get("state-ext").unwrap().is_active());
    assert_eq!(loader.active_ids(), vec!["state-ext".to_string()]);
    assert!(loader.disable("state-ext", &reader(&fs)));
    assert!(!loader.get("state-ext").unwrap().is_active());
    assert!(!loader.enable("does-not-exist", &reader(&fs)));
    assert_eq!(loader.loaded_ids(), vec!["state-ext".to_string()]);
}

#[test]
fn compile_joins_readable_sources() {
    let def = ContentScriptDef {
        matches: vec!["bad".to_string(), "<all_urls>".to_string()],
        js_files: vec!["a.js".to_string(), "b.js".to_string(), "c.js".to_string()],
        run_at: InjectionTime::DocumentEnd,
    };
    let cs = compile_content_script("e", &def, &[Some("a".to_string()), None, Some("c".to_string())]).unwrap();
    assert_eq!(cs.source, "a\nc");
    assert_eq!(cs.patterns.len(), 1);
    assert_eq!(cs.run_at, InjectionTime::DocumentEnd);
    assert_eq!(cs.extension_id, "e");
    assert!(compile_content_script("e", &def, &[None, Some(String::new())]).is_none());
    let no_patterns = ContentScriptDef { matches: vec!["bad".to_string()], js_files: vec![], run_at: InjectionTime::DocumentIdle };
    assert!(compile_content_script("e", &no_patterns, &[Some("x".to_string())]).is_none());
}

#[test]
fn background_source_reads_worker() {
    let mut m = manifest("bg-ext");
    m.background_worker = Some("sw.js".to_string());
    let mut loader = ExtensionLoader::new("/ext".to_string());
    loader.load_extension("bg-ext", Ok(m)).unwrap();
    let mut fs = HashMap::new();
    fs.insert("/ext/bg-ext/sw.js".to_string(), "self.x = 1;".to_string());
    assert_eq!(loader.background_source("bg-ext", &reader(&fs)).as_deref(), Some("self.x = 1;"));
    assert!(loader.background_source("missing", &reader(&fs)).is_none());
    let plain = loaded(&["ext-a"]);
    assert!(plain.background_source("ext-a", &reader(&fs)).is_none());
}

#[test]
fn browser_actions_of_active_extensions() {
    let fs = files();
    let mut with_action = manifest("ext-a");
    with_action.browser_action = Some(BrowserActionDef { popup: Some("p.html".to_string()), icon: None, title: None });
    let mut loader = ExtensionLoader::new("/ext".to_string());
    loader.load_extension("ext-a", Ok(with_action)).unwrap();
    assert!(loader.browser_actions().is_empty());
    loader.enable("ext-a", &reader(&fs));
    let actions = loader.browser_actions();
    assert_eq!(actions.len(), 1);
    assert_eq!(actions[0].title, "ext-a");
    assert!(actions[0].has_popup);
}
