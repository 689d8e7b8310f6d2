//! Extension manifests: the raw fields read from an extension's manifest file, and their
//! validation into an [`ExtensionManifest`].
use vstd::prelude::*;
use vstd::utf8::encode_utf8;
use vstd::string::StringExecFns;
use super::content::{injection_from_str, ContentScriptDef, InjectionTime};
use super::permissions::{permission_from_key, Permission};
use crate::text::u64_to_decimal;
use crate::text::decimal;

verus! {

/// A validated extension manifest.
#[derive(Debug, Clone)]
pub struct ExtensionManifest {
    /// The extension's ID (the name of its directory).
    pub id: String,
    /// The manifest version (1, 2 or 3).
    pub manifest_version: u32,
    /// The name shown to the user.
    pub name: String,
    /// The extension's version string.
    pub version: String,
    /// A short description.
    pub description: Option<String>,
    /// Requested permissions.
    pub permissions: Vec<Permission>,
    /// Content script definitions.
    pub content_scripts: Vec<ContentScriptDef>,
    /// The background worker, relative to the extension root.
    pub background_worker: Option<String>,
    /// The browser action.
    pub browser_action: Option<BrowserActionDef>,
    /// The extension's root directory.
    pub root_dir: String,
}

/// The fields of the manifest file as read.
#[derive(Debug)]
pub struct RawManifest {
    pub manifest_version: u32,
    pub name: String,
    pub version: String,
    pub description: Option<String>,
    pub permissions: Vec<String>,
    pub content_scripts: Vec<RawContentScript>,
    pub background: Option<RawBackground>,
    pub browser_action: Option<RawBrowserAction>,
}

/// A content script entry as read.
#[derive(Debug)]
pub struct RawContentScript {
    pub matches: Vec<String>,
    pub js: Vec<String>,
    pub run_at: Option<String>,
}

/// The background entry as read.
#[derive(Debug)]
pub struct RawBackground {
    pub service_worker: Option<String>,
    pub scripts: Vec<String>,
}

/// The browser action entry as read.
#[derive(Debug)]
pub struct RawBrowserAction {
    pub default_popup: Option<String>,
    pub default_icon: Option<String>,
    pub default_title: Option<String>,
}

/// The browser action of a manifest.
#[derive(Debug, Clone)]
pub struct BrowserActionDef {
    /// The popup page, relative to the extension root.
    pub popup: Option<String>,
    /// The icon, relative to the extension root.
    pub icon: Option<String>,
    /// The tooltip.
    pub title: Option<String>,
}

/// Why a manifest was refused.
#[derive(Debug, Clone, PartialEq, Eq)]
pub enum ManifestError {
    /// The JSON did not parse.
    InvalidJson(String),
    /// The manifest version is not 1, 2 or 3.
    UnsupportedVersion(u32),
    /// A required field is missing.
    MissingField(&'static str),
    /// A field has a value that is not allowed.
    InvalidField { field: &'static str, reason: String },
    /// A permission key is unknown.
    UnknownPermission(String),
}

/// The text that describes a manifest error.
pub open spec fn manifest_error_text(e: ManifestError) -> Seq<char> {
    match e {
        ManifestError::InvalidJson(m) => "invalid manifest JSON: "@ + m@,
        ManifestError::UnsupportedVersion(v) => "unsupported manifest_version: "@ + decimal(v as nat),
        ManifestError::MissingField(f) => "missing required field: "@ + f@,
        ManifestError::InvalidField { field, reason } => "invalid "@ + field@ + ": "@ + reason@,
        ManifestError::UnknownPermission(p) => "unknown permission: "@ + p@,
    }
}

impl ManifestError {
    /// The text that describes the error.
    pub fn message(&self) -> (r: String)
        ensures
            r@ == manifest_error_text(*self),
    {
        match self {
            ManifestError::InvalidJson(m) => {
                let mut s = String::from_str("invalid manifest JSON: ");
                s.append(m.as_str());
                s
            },
            ManifestError::UnsupportedVersion(v) => {
                let mut s = String::from_str("unsupported manifest_version: ");
                let d = u64_to_decimal(*v as u64);
                s.append(d.as_str());
                s
            },
            ManifestError::MissingField(f) => {
                let mut s = String::from_str("missing required field: ");
                s.append(f);
                s
            },
            ManifestError::InvalidField { field, reason } => {
                let mut s = String::from_str("invalid ");
                s.append(field);
                s.append(": ");
                s.append(reason.as_str());
                s
            },
            ManifestError::UnknownPermission(p) => {
                let mut s = String::from_str("unknown permission: ");
                s.append(p.as_str());
                s
            },
        }
    }
}

/// The permissions that permission keys name, or the first key that names
/// none.
pub open spec fn permissions_from_keys(keys: Seq<String>) -> Result<Seq<Permission>, Seq<char>>
    decreases keys.len(),
{
    if keys.len() == 0 {
        Ok(Seq::empty())
    } else {
        match permissions_from_keys(keys.drop_last()) {
            Err(k) => Err(k),
            Ok(ps) => match permission_from_key(keys.last()@) {
                Some(p) => Ok(ps.push(p)),
                None => Err(keys.last()@),
            },
        }
    }
}

/// The definition that a raw content script entry gives: its patterns and
/// files as they are, injected at its `run_at` time (document idle when
/// it has none).
pub open spec fn def_from_raw(d: ContentScriptDef, raw: RawContentScript) -> bool {
    &&& d.matches@ == raw.matches@
    &&& d.js_files@ == raw.js@
    &&& d.run_at == match raw.run_at {
        Some(s) => injection_from_str(s@),
        None => InjectionTime::DocumentIdle,
    }
}

/// The background worker: the service worker, else the first script.
pub open spec fn worker_from_raw(bg: Option<RawBackground>) -> Option<String> {
    match bg {
        None => None,
        Some(b) => match b.service_worker {
            Some(sw) => Some(sw),
            None => if b.scripts@.len() > 0 {
                Some(b.scripts@[0])
            } else {
                None
            },
        },
    }
}

/// The browser action that a raw entry gives.
pub open spec fn action_from_raw(a: Option<BrowserActionDef>, raw: Option<RawBrowserAction>) -> bool {
    match (a, raw) {
        (None, None) => true,
        (Some(d), Some(r)) => d.popup == r.default_popup && d.icon == r.default_icon && d.title
            == r.default_title,
        _ => false,
    }
}

/// A name is refused when it is empty or longer than 60 bytes.
pub open spec fn bad_name(name: Seq<char>) -> bool {
    name.len() == 0 || encode_utf8(name).len() > 60
}

/// The reason given for a refused name.
pub open spec fn name_reason() -> Seq<char> {
    "must be 1–60 characters"@
}

/// The version is one this browser reads.
pub open spec fn supported_version(v: u32) -> bool {
    1 <= v && v <= 3
}

fn take_first_string(v: Vec<String>) -> (r: Option<String>)
    ensures
        v@.len() > 0 ==> r == Some(v@[0]),
        v@.len() == 0 ==> r is None,
{
    let mut v = v;
    if v.len() > 0 {
        Some(v.remove(0))
    } else {
        None
    }
}

fn def_of(raw: RawContentScript) -> (d: ContentScriptDef)
    ensures
        def_from_raw(d, raw),
{
    let run_at = match &raw.run_at {
        Some(s) => InjectionTime::parse_str(s.as_str()),
        None => InjectionTime::DocumentIdle,
    };
    ContentScriptDef { matches: raw.matches, js_files: raw.js, run_at }
}

fn defs_of(raws: Vec<RawContentScript>) -> (r: Vec<ContentScriptDef>)
    ensures
        r@.len() == raws@.len(),
        forall|i: int| 0 <= i < raws@.len() ==> def_from_raw(#[trigger] r@[i], raws@[i]),
{
    let ghost all = raws@;
    let mut rest = raws;
    let mut out: Vec<ContentScriptDef> = Vec::new();
    while rest.len() > 0
        invariant
            out@.len() + rest@.len() == all.len(),
            rest@ == all.skip(out@.len() as int),
            forall|i: int| 0 <= i < out@.len() ==> def_from_raw(#[trigger] out@[i], all[i]),
        decreases rest.len(),
    {
        let ghost k = out@.len();
        let first = rest.remove(0);
        assert(first == all[k as int]);
        out.push(def_of(first));
        assert(rest@ =~= all.skip(out@.len() as int));
    }
    out
}

fn permissions_of(keys: &Vec<String>) -> (r: Result<Vec<Permission>, String>)
    ensures
        match (r, permissions_from_keys(keys@)) {
            (Ok(v), Ok(ps)) => v@ == ps,
            (Err(s), Err(k)) => s@ == k,
            _ => false,
        },
{
    let mut out: Vec<Permission> = Vec::new();
    let mut i: usize = 0;
    while i < keys.len()
        invariant
            i <= keys@.len(),
            permissions_from_keys(keys@.take(i as int)) == Ok::<Seq<Permission>, Seq<char>>(out@),
        decreases keys.len() - i,
    {
        proof {
            assert(keys@.take(i + 1).drop_last() =~= keys@.take(i as int));
        }
        match Permission::from_key(keys[i].as_str()) {
            Some(p) => out.push(p),
            None => {
                proof {
                    lemma_unknown_stays(keys@, i as int);
                }
                return Err(keys[i].clone());
            },
        }
        i += 1;
    }
    assert(keys@.take(keys@.len() as int) =~= keys@);
    Ok(out)
}

/// Once a key is unknown, every longer prefix fails with the same key.
proof fn lemma_unknown_stays(keys: Seq<String>, i: int)
    requires
        0 <= i < keys.len(),
        permissions_from_keys(keys.take(i)) is Ok,
        permission_from_key(keys[i]@) is None,
    ensures
        permissions_from_keys(keys) == Err::<Seq<Permission>, Seq<char>>(keys[i]@),
    decreases keys.len() - i,
{
    if keys.len() == i + 1 {
        assert(keys.drop_last() =~= keys.take(i));
    } else {
        assert(keys.drop_last().take(i) =~= keys.take(i));
        lemma_unknown_stays(keys.drop_last(), i);
    }
}

/// Validates raw manifest fields. Checked in order: the version must be 1
/// to 3; the name must have 1 to 60 bytes; the version string must not be
/// empty; every permission key must name a permission (the first unknown
/// one is reported). The manifest then takes the fields as they are, with
/// content scripts injected at document idle unless they say otherwise,
/// the service worker (or the first background script) as background
/// worker, and the given ID and root directory.
pub fn manifest_from_raw(raw: RawManifest, extension_id: &str, root_dir: String) -> (r: Result<
    ExtensionManifest,
    ManifestError,
>)
    ensures
        !supported_version(raw.manifest_version) ==> r == Err::<ExtensionManifest, ManifestError>(
            ManifestError::UnsupportedVersion(raw.manifest_version),
        ),
        supported_version(raw.manifest_version) && bad_name(raw.name@) ==> (r matches Err(
            ManifestError::InvalidField { field, reason },
        ) && field@ == "name"@ && reason@ == name_reason()),
        supported_version(raw.manifest_version) && !bad_name(raw.name@) && raw.version@.len() == 0
            ==> (r matches Err(ManifestError::MissingField(f)) && f@ == "version"@),
        supported_version(raw.manifest_version) && !bad_name(raw.name@) && raw.version@.len() > 0
            ==> match permissions_from_keys(raw.permissions@) {
            Err(k) => r matches Err(ManifestError::UnknownPermission(p)) && p@ == k,
            Ok(ps) => r matches Ok(m) && {
                &&& m.id@ == extension_id@
                &&& m.manifest_version == raw.manifest_version
                &&& m.name == raw.name
                &&& m.version == raw.version
                &&& m.description == raw.description
                &&& m.permissions@ == ps
                &&& m.content_scripts@.len() == raw.content_scripts@.len()
                &&& forall|i: int|
                    0 <= i < raw.content_scripts@.len() ==> def_from_raw(
                        #[trigger] m.content_scripts@[i],
                        raw.content_scripts@[i],
                    )
                &&& m.background_worker == worker_from_raw(raw.background)
                &&& action_from_raw(m.browser_action, raw.browser_action)
                &&& m.root_dir == root_dir
            },
        },
{
    if !(1 <= raw.manifest_version && raw.manifest_version <= 3) {
        return Err(ManifestError::UnsupportedVersion(raw.manifest_version));
    }
    if raw.name.as_str().is_empty() || raw.name.as_str().as_bytes().len() > 60 {
        proof {
            reveal_strlit("name");
            reveal_strlit("must be 1–60 characters");
        }
        return Err(ManifestError::InvalidField {
            field: "name",
            reason: String::from_str("must be 1–60 characters"),
        });
    }
    if raw.version.as_str().is_empty() {
        return Err(ManifestError::MissingField("version"));
    }
    let permissions = match permissions_of(&raw.permissions) {
        Ok(ps) => ps,
        Err(k) => {
            return Err(ManifestError::UnknownPermission(k));
        },
    };
    let content_scripts = defs_of(raw.content_scripts);
    let background_worker = match raw.background {
        None => None,
        Some(bg) => match bg.service_worker {
            Some(sw) => Some(sw),
            None => take_first_string(bg.scripts),
        },
    };
    let browser_action = match raw.browser_action {
        None => None,
        Some(ba) => Some(
            BrowserActionDef { popup: ba.default_popup, icon: ba.default_icon, title: ba.default_title },
        ),
    };
    Ok(ExtensionManifest {
        id: extension_id.to_owned(),
        manifest_version: raw.manifest_version,
        name: raw.name,
        version: raw.version,
        description: raw.description,
        permissions,
        content_scripts,
        background_worker,
        browser_action,
        root_dir,
    })
}

} // verus!
