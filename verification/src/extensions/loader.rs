//! The extension loader: the extensions that were loaded, their state and
//! permissions, the content scripts of the active ones, and the runtime
//! messages between them. Reading files is the caller's: manifests arrive
//! as read, and script files are read through a function handed in.
use vstd::prelude::*;
use vstd::string::StringExecFns;
use super::action::{ActionView, BrowserAction};
use super::content::{parse_pattern, scripts_for_url, ContentScript, ContentScriptDef, MatchPattern};
use super::manifest::{manifest_from_raw, manifest_error_text, ExtensionManifest, ManifestError, RawManifest};
use super::messaging::{
    message_view, pending, registered, sent, MessageTarget, MessageView, MessagingHub, RuntimeMessage,
};
use super::permissions::PermissionSet;
use crate::text::{push_char, str_eq};

verus! {

/// The state of a loaded extension.
#[derive(Debug, Clone, Copy, PartialEq, Eq, Structural)]
pub enum ExtensionState {
    /// Installed, not running.
    Disabled,
    /// Running.
    Active,
    /// Failed to load.
    Error,
}

/// A loaded extension.
#[derive(Debug, Clone)]
pub struct Extension {
    /// Its manifest.
    pub manifest: ExtensionManifest,
    /// Its state.
    pub state: ExtensionState,
    /// The permissions granted so far.
    pub permissions: PermissionSet,
}

impl Extension {
    fn new(manifest: ExtensionManifest) -> (e: Self)
        ensures
            e.manifest == manifest,
            e.state == ExtensionState::Disabled,
            e.permissions.wf(),
            e.permissions@ == Set::<super::permissions::Permission>::empty(),
    {
        Extension { manifest, state: ExtensionState::Disabled, permissions: PermissionSet::new() }
    }

    /// The extension's ID.
    pub fn id(&self) -> (r: &str)
        ensures
            r@ == self.manifest.id@,
    {
        self.manifest.id.as_str()
    }

    /// Whether the extension is running.
    pub fn is_active(&self) -> (r: bool)
        ensures
            r == (self.state == ExtensionState::Active),
    {
        self.state == ExtensionState::Active
    }
}

/// Why an extension did not load.
#[derive(Debug, Clone)]
pub enum LoadError {
    /// The extension's manifest file could not be read, at this path.
    ManifestNotFound(String),
    /// The manifest was refused.
    ManifestInvalid(ManifestError),
    /// An extension with this ID is loaded already.
    DuplicateId(String),
}

/// The text that describes a load error.
pub open spec fn load_error_text(e: LoadError) -> Seq<char> {
    match e {
        LoadError::ManifestNotFound(p) => "extension manifest not found: "@ + p@,
        LoadError::ManifestInvalid(m) => "invalid manifest: "@ + manifest_error_text(m),
        LoadError::DuplicateId(id) => "duplicate extension id: "@ + id@,
    }
}

impl LoadError {
    /// The text that describes the error.
    pub fn message(&self) -> (r: String)
        ensures
            r@ == load_error_text(*self),
    {
        match self {
            LoadError::ManifestNotFound(p) => {
                let mut s = String::from_str("extension manifest not found: ");
                s.append(p.as_str());
                s
            },
            LoadError::ManifestInvalid(m) => {
                let mut s = String::from_str("invalid manifest: ");
                let t = m.message();
                s.append(t.as_str());
                s
            },
            LoadError::DuplicateId(id) => {
                let mut s = String::from_str("duplicate extension id: ");
                s.append(id.as_str());
                s
            },
        }
    }
}

// ── Specification helpers ────────────────────────────────────────────────────

/// Some loaded extension has this ID.
pub open spec fn has_id(exts: Seq<Extension>, id: Seq<char>) -> bool {
    exists|i: int| 0 <= i < exts.len() && (#[trigger] exts[i]).manifest.id@ == id
}

/// Some active extension has this ID.
pub open spec fn is_active_id(exts: Seq<Extension>, id: Seq<char>) -> bool {
    exists|i: int|
        0 <= i < exts.len() && (#[trigger] exts[i]).manifest.id@ == id && exts[i].state
            == ExtensionState::Active
}

/// No two loaded extensions share an ID.
pub open spec fn ids_unique(exts: Seq<Extension>) -> bool {
    forall|i: int, j: int|
        0 <= i < exts.len() && 0 <= j < exts.len() && i != j ==> (#[trigger] exts[i]).manifest.id@
            != (#[trigger] exts[j]).manifest.id@
}

/// The IDs of the extensions, in load order.
pub open spec fn ids_of(exts: Seq<Extension>) -> Seq<Seq<char>> {
    exts.map_values(|e: Extension| e.manifest.id@)
}

/// The IDs of the active extensions, in load order.
pub open spec fn active_ids_of(exts: Seq<Extension>) -> Seq<Seq<char>>
    decreases exts.len(),
{
    if exts.len() == 0 {
        seq![]
    } else if exts.last().state == ExtensionState::Active {
        active_ids_of(exts.drop_last()).push(exts.last().manifest.id@)
    } else {
        active_ids_of(exts.drop_last())
    }
}

/// The parts of a match pattern: its text and what it parsed to.
pub open spec fn pattern_view(p: MatchPattern) -> (Seq<char>, (bool, Seq<char>, Seq<char>, Seq<char>)) {
    (p.raw@, (p.all_urls, p.scheme@, p.host@, p.path@))
}

/// The patterns that parse, in order, as text and parts.
pub open spec fn pattern_views(ms: Seq<String>) -> Seq<(Seq<char>, (bool, Seq<char>, Seq<char>, Seq<char>))>
    decreases ms.len(),
{
    if ms.len() == 0 {
        seq![]
    } else {
        match parse_pattern(ms.last()@) {
            Some(t) => pattern_views(ms.drop_last()).push((ms.last()@, t)),
            None => pattern_views(ms.drop_last()),
        }
    }
}

/// The script files that could be read, joined with newlines.
pub open spec fn joined_sources(srcs: Seq<Option<String>>) -> Seq<char>
    decreases srcs.len(),
{
    if srcs.len() == 0 {
        seq![]
    } else {
        match srcs.last() {
            None => joined_sources(srcs.drop_last()),
            Some(js) => if joined_sources(srcs.drop_last()).len() == 0 {
                js@
            } else {
                joined_sources(srcs.drop_last()) + seq!['\n'] + js@
            },
        }
    }
}

/// A content script compiled from a definition of an extension, with the
/// files of the definition read as `srcs`.
pub open spec fn compiled_from(
    cs: ContentScript,
    extension_id: Seq<char>,
    def: ContentScriptDef,
    srcs: Seq<Option<String>>,
) -> bool {
    &&& cs.extension_id@ == extension_id
    &&& cs.patterns@.map_values(|p: MatchPattern| pattern_view(p)) == pattern_views(def.matches@)
    &&& cs.source@ == joined_sources(srcs)
    &&& cs.run_at == def.run_at
}

/// A script compiled from one of the definitions of an active extension,
/// from some file contents.
pub open spec fn from_active_def(exts: Seq<Extension>, cs: ContentScript) -> bool {
    exists|i: int, j: int, srcs: Seq<Option<String>>|
        0 <= i < exts.len() && exts[i].state == ExtensionState::Active && 0 <= j
            < exts[i].manifest.content_scripts@.len() && #[trigger] compiled_from(
            cs,
            exts[i].manifest.id@,
            exts[i].manifest.content_scripts@[j],
            srcs,
        )
}

// ── Compiling content scripts ────────────────────────────────────────────────

fn parse_patterns(ms: &Vec<String>) -> (r: Vec<MatchPattern>)
    ensures
        r@.map_values(|p: MatchPattern| pattern_view(p)) == pattern_views(ms@),
{
    let mut out: Vec<MatchPattern> = Vec::new();
    let mut i: usize = 0;
    while i < ms.len()
        invariant
            i <= ms@.len(),
            out@.map_values(|p: MatchPattern| pattern_view(p)) == pattern_views(ms@.take(i as int)),
        decreases ms.len() - i,
    {
        let ghost before = out@;
        proof {
            assert(ms@.take(i + 1).drop_last() =~= ms@.take(i as int));
            assert(ms@.take(i + 1).last() == ms@[i as int]);
        }
        match MatchPattern::parse(ms[i].as_str()) {
            Some(p) => {
                out.push(p);
                assert(out@.map_values(|p: MatchPattern| pattern_view(p)) =~= before.map_values(
                    |p: MatchPattern| pattern_view(p),
                ).push(pattern_view(p)));
            },
            None => {},
        }
        i += 1;
    }
    assert(ms@.take(ms@.len() as int) =~= ms@);
    out
}

fn join_sources(srcs: &[Option<String>]) -> (r: String)
    ensures
        r@ == joined_sources(srcs@),
{
    let mut out = String::new();
    let mut i: usize = 0;
    while i < srcs.len()
        invariant
            i <= srcs@.len(),
            out@ == joined_sources(srcs@.take(i as int)),
        decreases srcs.len() - i,
    {
        proof {
            assert(srcs@.take(i + 1).drop_last() =~= srcs@.take(i as int));
            assert(srcs@.take(i + 1).last() == srcs@[i as int]);
        }
        match &srcs[i] {
            Some(js) => {
                if !out.as_str().is_empty() {
                    push_char(&mut out, '\n');
                }
                out.append(js.as_str());
            },
            None => {},
        }
        i += 1;
    }
    assert(srcs@.take(srcs@.len() as int) =~= srcs@);
    out
}

/// Compiles a content script definition of an extension, given what was
/// read of each of its files (`None` for a file that could not be read).
/// The patterns that parse are kept; the sources read are joined with
/// newlines. `None` when no pattern parses or no source text is left.
pub fn compile_content_script(
    extension_id: &str,
    def: &ContentScriptDef,
    sources: &[Option<String>],
) -> (r: Option<ContentScript>)
    ensures
        r is None <==> (pattern_views(def.matches@).len() == 0 || joined_sources(sources@).len()
            == 0),
        r matches Some(cs) ==> compiled_from(cs, extension_id@, *def, sources@),
{
    let patterns = parse_patterns(&def.matches);
    if patterns.len() == 0 {
        return None;
    }
    let source = join_sources(sources);
    if source.as_str().is_empty() {
        return None;
    }
    Some(ContentScript { extension_id: extension_id.to_owned(), patterns, source, run_at: def.run_at })
}

/// What `read` may give for a directory and a file path.
pub open spec fn read_gives<F: Fn(&str, &str) -> Option<String>>(
    read: &F,
    dir: Seq<char>,
    file: Seq<char>,
    r: Option<String>,
) -> bool {
    exists|a: &str, b: &str| a@ == dir && b@ == file && #[trigger] read.ensures((a, b), r)
}

/// The definition at (extension index, definition index).
pub open spec fn def_at(exts: Seq<Extension>, ij: (int, int)) -> ContentScriptDef {
    exts[ij.0].manifest.content_scripts@[ij.1]
}

/// The content script definitions of the first `n` extensions that are
/// active, as (extension index, definition index), in order.
pub open spec fn active_defs_upto(exts: Seq<Extension>, n: nat) -> Seq<(int, int)>
    decreases n,
{
    if n == 0 {
        seq![]
    } else {
        let i = n - 1;
        let prev = active_defs_upto(exts, (n - 1) as nat);
        if exts[i].state == ExtensionState::Active {
            prev + Seq::new(exts[i].manifest.content_scripts@.len(), |j: int| (i, j))
        } else {
            prev
        }
    }
}

/// The content script definitions of the active extensions, in order.
pub open spec fn active_defs(exts: Seq<Extension>) -> Seq<(int, int)> {
    active_defs_upto(exts, exts.len())
}

/// Whether a definition compiles to a script with the given file texts.
pub open spec fn def_compiles(def: ContentScriptDef, srcs: Seq<Option<String>>) -> bool {
    pattern_views(def.matches@).len() > 0 && joined_sources(srcs).len() > 0
}

/// `scripts` are what the definitions of `plan` compile to, in order, the
/// definition at `plan[p]` with the file texts `texts[p]`; a definition
/// that compiles to nothing is skipped.
pub open spec fn scripts_from(
    exts: Seq<Extension>,
    plan: Seq<(int, int)>,
    texts: Seq<Seq<Option<String>>>,
    scripts: Seq<ContentScript>,
) -> bool
    decreases plan.len(),
{
    if plan.len() == 0 {
        scripts.len() == 0
    } else {
        let def = def_at(exts, plan.last());
        if def_compiles(def, texts.last()) {
            &&& scripts.len() > 0
            &&& compiled_from(scripts.last(), exts[plan.last().0].manifest.id@, def, texts.last())
            &&& scripts_from(exts, plan.drop_last(), texts.drop_last(), scripts.drop_last())
        } else {
            scripts_from(exts, plan.drop_last(), texts.drop_last(), scripts)
        }
    }
}

/// `texts[p]` holds what `read` gave for each file of the definition at
/// `plan[p]` (in its extension's root directory), for every definition with
/// a usable match pattern; the others are not read.
pub open spec fn texts_read<F: Fn(&str, &str) -> Option<String>>(
    read: &F,
    exts: Seq<Extension>,
    plan: Seq<(int, int)>,
    texts: Seq<Seq<Option<String>>>,
) -> bool {
    &&& texts.len() == plan.len()
    &&& forall|p: int|
        0 <= p < plan.len() && pattern_views(def_at(exts, plan[p]).matches@).len() > 0 ==> {
            &&& (#[trigger] texts[p]).len() == def_at(exts, plan[p]).js_files@.len()
            &&& forall|k: int|
                0 <= k < texts[p].len() ==> read_gives(
                    read,
                    exts[plan[p].0].manifest.root_dir@,
                    def_at(exts, plan[p]).js_files@[k]@,
                    #[trigger] texts[p][k],
                )
        }
}

/// `scripts` are the content scripts of the active extensions of `exts`,
/// compiled anew with file texts that `read` gave.
pub open spec fn rebuilt_scripts<F: Fn(&str, &str) -> Option<String>>(
    read: &F,
    exts: Seq<Extension>,
    scripts: Seq<ContentScript>,
) -> bool {
    exists|texts: Seq<Seq<Option<String>>>|
        #[trigger] texts_read(read, exts, active_defs(exts), texts) && scripts_from(
            exts,
            active_defs(exts),
            texts,
            scripts,
        )
}

// ── The loader ───────────────────────────────────────────────────────────────

/// The loaded extensions, the content scripts of the active ones, and the
/// runtime messaging between active extensions.
pub struct ExtensionLoader {
    extensions_dir: String,
    extensions: Vec<Extension>,
    content_scripts: Vec<ContentScript>,
    messaging_hub: MessagingHub,
}

impl ExtensionLoader {
    /// The directory that holds the extensions.
    pub closed spec fn dir(&self) -> Seq<char> {
        self.extensions_dir@
    }

    /// The loaded extensions, in load order.
    pub closed spec fn exts(&self) -> Seq<Extension> {
        self.extensions@
    }

    /// The compiled content scripts.
    pub closed spec fn scripts(&self) -> Seq<ContentScript> {
        self.content_scripts@
    }

    /// The runtime message inboxes.
    pub closed spec fn hub(&self) -> Seq<(Seq<char>, Seq<MessageView>)> {
        self.messaging_hub@
    }

    /// The hub's own invariant holds.
    pub closed spec fn hub_wf(&self) -> bool {
        self.messaging_hub.wf()
    }

    /// IDs are unique, permission sets are well formed, exactly the active
    /// extensions have an inbox, and every content script comes from a
    /// definition of an active extension.
    pub open spec fn wf(&self) -> bool {
        &&& ids_unique(self.exts())
        &&& forall|i: int| 0 <= i < self.exts().len() ==> (#[trigger] self.exts()[i]).permissions.wf()
        &&& self.hub_wf()
        &&& forall|k: Seq<char>| registered(self.hub(), k) == is_active_id(self.exts(), k)
        &&& forall|i: int|
            0 <= i < self.scripts().len() ==> from_active_def(self.exts(), #[trigger] self.scripts()[i])
    }

    /// A loader for a directory, with nothing loaded.
    pub fn new(extensions_dir: String) -> (r: Self)
        ensures
            r.wf(),
            r.dir() == extensions_dir@,
            r.exts() == Seq::<Extension>::empty(),
            r.scripts() == Seq::<ContentScript>::empty(),
            r.hub() == Seq::<(Seq<char>, Seq<MessageView>)>::empty(),
    {
        ExtensionLoader {
            extensions_dir,
            extensions: Vec::new(),
            content_scripts: Vec::new(),
            messaging_hub: MessagingHub::new(),
        }
    }

    fn index_of(&self, id: &str) -> (r: Option<usize>)
        ensures
            r matches Some(i) ==> i < self.exts().len() && self.exts()[i as int].manifest.id@ == id@,
            r is None ==> !has_id(self.exts(), id@),
    {
        let mut i: usize = 0;
        while i < self.extensions.len()
            invariant
                i <= self.extensions@.len(),
                forall|j: int| 0 <= j < i ==> (#[trigger] self.extensions@[j]).manifest.id@ != id@,
            decreases self.extensions.len() - i,
        {
            if str_eq(self.extensions[i].manifest.id.as_str(), id) {
                return Some(i);
            }
            i += 1;
        }
        None
    }

    /// Adds an extension under an ID, given its manifest as validated (or
    /// the error it was refused with). Refused when the ID is loaded
    /// already, or when the manifest was refused; a new extension is
    /// disabled, with no permission granted, and its manifest carries the
    /// ID.
    pub fn load_extension(&mut self, id: &str, manifest: Result<ExtensionManifest, ManifestError>) -> (r: Result<String, LoadError>)
        requires
            old(self).wf(),
        ensures
            final(self).wf(),
            final(self).dir() == old(self).dir(),
            final(self).scripts() == old(self).scripts(),
            final(self).hub() == old(self).hub(),
            has_id(old(self).exts(), id@) ==> (r matches Err(LoadError::DuplicateId(d)) && d@ == id@),
            !has_id(old(self).exts(), id@) && manifest is Err ==> r == Err::<String, LoadError>(LoadError::ManifestInvalid(manifest->Err_0)),
            r is Err ==> final(self).exts() == old(self).exts(),
            !has_id(old(self).exts(), id@) && manifest is Ok ==> {
                &&& r matches Ok(s) && s@ == id@
                &&& final(self).exts().len() == old(self).exts().len() + 1
                &&& final(self).exts().drop_last() == old(self).exts()
                &&& final(self).exts().last().manifest == (ExtensionManifest { id: final(self).exts().last().manifest.id, ..manifest->Ok_0 })
                &&& final(self).exts().last().manifest.id@ == id@
                &&& final(self).exts().last().state == ExtensionState::Disabled
                &&& final(self).exts().last().permissions@ == Set::<super::permissions::Permission>::empty()
            },
    {
        if self.index_of(id).is_some() {
            return Err(LoadError::DuplicateId(id.to_owned()));
        }
        match manifest {
            Err(e) => Err(LoadError::ManifestInvalid(e)),
            Ok(m) => {
                let mut m = m;
                m.id = id.to_owned();
                let e = Extension::new(m);
                let ghost before = self.extensions@;
                self.extensions.push(e);
                proof {
                    assert(self.extensions@.drop_last() =~= before);
                    assert forall|k: Seq<char>| is_active_id(self.extensions@, k) == is_active_id(before, k) by {
                        if is_active_id(self.extensions@, k) {
                            let i = choose|i: int| 0 <= i < self.extensions@.len() && (#[trigger] self.extensions@[i]).manifest.id@ == k && self.extensions@[i].state == ExtensionState::Active;
                            assert(before[i].manifest.id@ == k);
                        }
                        if is_active_id(before, k) {
                            let i = choose|i: int| 0 <= i < before.len() && (#[trigger] before[i]).manifest.id@ == k && before[i].state == ExtensionState::Active;
                            assert(self.extensions@[i].manifest.id@ == k);
                        }
                    }
                    assert forall|i: int| 0 <= i < self.content_scripts@.len() implies from_active_def(self.extensions@, #[trigger] self.content_scripts@[i]) by {
                        let cs = self.content_scripts@[i];
                        assert(from_active_def(old(self).exts(), old(self).scripts()[i]));
                        let (a, b, srcs) = choose|a: int, b: int, srcs: Seq<Option<String>>| 0 <= a < before.len() && before[a].state == ExtensionState::Active && 0 <= b < before[a].manifest.content_scripts@.len() && #[trigger] compiled_from(cs, before[a].manifest.id@, before[a].manifest.content_scripts@[b], srcs);
                        assert(self.extensions@[a] == before[a]);
                    }
                }
                Ok(id.to_owned())
            },
        }
    }

    /// The extension with an ID, if loaded.
    pub fn get(&self, id: &str) -> (r: Option<&Extension>)
        ensures
            r is Some <==> has_id(self.exts(), id@),
            r matches Some(e) ==> e.manifest.id@ == id@ && self.exts().contains(*e),
    {
        match self.index_of(id) {
            Some(i) => Some(&self.extensions[i]),
            None => None,
        }
    }

    /// The IDs of the loaded extensions.
    pub fn loaded_ids(&self) -> (r: Vec<String>)
        ensures
            r@.map_values(|s: String| s@) == ids_of(self.exts()),
    {
        let mut out: Vec<String> = Vec::new();
        let mut i: usize = 0;
        while i < self.extensions.len()
            invariant
                i <= self.extensions@.len(),
                out@.map_values(|s: String| s@) == ids_of(self.extensions@.take(i as int)),
            decreases self.extensions.len() - i,
        {
            let ghost before = out@;
            out.push(self.extensions[i].manifest.id.clone());
            proof {
                assert(ids_of(self.extensions@.take(i + 1)) =~= ids_of(self.extensions@.take(i as int)).push(self.extensions@[i as int].manifest.id@));
                assert(out@.map_values(|s: String| s@) =~= before.map_values(|s: String| s@).push(self.extensions@[i as int].manifest.id@));
            }
            i += 1;
        }
        assert(self.extensions@.take(self.extensions@.len() as int) =~= self.extensions@);
        out
    }

    /// The IDs of the active extensions.
    pub fn active_ids(&self) -> (r: Vec<String>)
        ensures
            r@.map_values(|s: String| s@) == active_ids_of(self.exts()),
    {
        let mut out: Vec<String> = Vec::new();
        let mut i: usize = 0;
        while i < self.extensions.len()
            invariant
                i <= self.extensions@.len(),
                out@.map_values(|s: String| s@) == active_ids_of(self.extensions@.take(i as int)),
            decreases self.extensions.len() - i,
        {
            let ghost before = out@;
            proof {
                assert(self.extensions@.take(i + 1).drop_last() =~= self.extensions@.take(i as int));
                assert(self.extensions@.take(i + 1).last() == self.extensions@[i as int]);
            }
            if self.extensions[i].is_active() {
                out.push(self.extensions[i].manifest.id.clone());
                assert(out@.map_values(|s: String| s@) =~= before.map_values(|s: String| s@).push(self.extensions@[i as int].manifest.id@));
            }
            i += 1;
        }
        assert(self.extensions@.take(self.extensions@.len() as int) =~= self.extensions@);
        out
    }

    /// The number of loaded extensions.
    pub fn count(&self) -> (r: usize)
        ensures
            r == self.exts().len(),
    {
        self.extensions.len()
    }

    /// The compiled content scripts of the active extensions.
    pub fn content_scripts(&self) -> (r: &[ContentScript])
        ensures
            r@ == self.scripts(),
    {
        self.content_scripts.as_slice()
    }

    /// The compiled content scripts that match a URL, in order.
    pub fn content_scripts_for_url(&self, url: &str) -> (r: Vec<&ContentScript>)
        ensures
            r@.map_values(|c: &ContentScript| *c) == self.scripts().filter(|s: ContentScript| s.spec_matches_url(url@)),
    {
        scripts_for_url(self.content_scripts.as_slice(), url)
    }

    /// The directory that holds the extensions.
    pub fn extensions_dir(&self) -> (r: &str)
        ensures
            r@ == self.dir(),
    {
        self.extensions_dir.as_str()
    }
}

/// The extensions with one state changed, at a position.
pub open spec fn with_state(exts: Seq<Extension>, i: int, st: ExtensionState) -> Seq<Extension> {
    exts.update(i, Extension { state: st, ..exts[i] })
}

/// Changing the state of one extension keeps the IDs unique and changes
/// whether its ID (and no other) is active.
proof fn lemma_state_change(exts: Seq<Extension>, i: int, st: ExtensionState)
    requires
        ids_unique(exts),
        0 <= i < exts.len(),
    ensures
        ids_unique(with_state(exts, i, st)),
        forall|k: Seq<char>| #[trigger] is_active_id(with_state(exts, i, st), k) == (if k == exts[i].manifest.id@ {
            st == ExtensionState::Active
        } else {
            is_active_id(exts, k)
        }),
{
    let n = with_state(exts, i, st);
    assert forall|k: Seq<char>| #[trigger] is_active_id(n, k) == (if k == exts[i].manifest.id@ {
        st == ExtensionState::Active
    } else {
        is_active_id(exts, k)
    }) by {
        if is_active_id(n, k) {
            let a = choose|a: int| 0 <= a < n.len() && (#[trigger] n[a]).manifest.id@ == k && n[a].state == ExtensionState::Active;
            if a != i {
                assert(exts[a].manifest.id@ == k);
            }
        }
        if k == exts[i].manifest.id@ && st == ExtensionState::Active {
            assert(n[i].manifest.id@ == k);
        }
        if k != exts[i].manifest.id@ && is_active_id(exts, k) {
            let a = choose|a: int| 0 <= a < exts.len() && (#[trigger] exts[a]).manifest.id@ == k && exts[a].state == ExtensionState::Active;
            assert(n[a].manifest.id@ == k);
        }
    }
}

/// Scripts from active definitions stay so when no extension stops being
/// active and no manifest changes.
proof fn lemma_scripts_kept(old: Seq<Extension>, new: Seq<Extension>, scripts: Seq<ContentScript>)
    requires
        old.len() == new.len(),
        forall|i: int| 0 <= i < old.len() ==> (#[trigger] new[i]).manifest == old[i].manifest,
        forall|i: int| 0 <= i < old.len() && old[i].state == ExtensionState::Active ==> (#[trigger] new[i]).state == ExtensionState::Active,
        forall|i: int| 0 <= i < scripts.len() ==> from_active_def(old, #[trigger] scripts[i]),
    ensures
        forall|i: int| 0 <= i < scripts.len() ==> from_active_def(new, #[trigger] scripts[i]),
{
    assert forall|i: int| 0 <= i < scripts.len() implies from_active_def(new, #[trigger] scripts[i]) by {
        let cs = scripts[i];
        assert(from_active_def(old, cs));
        let (a, b, srcs) = choose|a: int, b: int, srcs: Seq<Option<String>>| 0 <= a < old.len() && old[a].state == ExtensionState::Active && 0 <= b < old[a].manifest.content_scripts@.len() && #[trigger] compiled_from(cs, old[a].manifest.id@, old[a].manifest.content_scripts@[b], srcs);
        assert(new[a].manifest == old[a].manifest);
        assert(compiled_from(cs, new[a].manifest.id@, new[a].manifest.content_scripts@[b], srcs));
    }
}

/// Registering an ID adds it and keeps the others.
proof fn lemma_registered_push(s: Seq<(Seq<char>, Seq<MessageView>)>, id: Seq<char>)
    ensures
        forall|k: Seq<char>| #[trigger] registered(s.push((id, Seq::<MessageView>::empty())), k) == (registered(s, k) || k == id),
{
    let n = s.push((id, Seq::<MessageView>::empty()));
    assert forall|k: Seq<char>| #[trigger] registered(n, k) == (registered(s, k) || k == id) by {
        if registered(s, k) {
            let a = choose|a: int| 0 <= a < s.len() && (#[trigger] s[a]).0 == k;
            assert(n[a].0 == k);
        }
        if k == id {
            assert(n[s.len() as int].0 == k);
        }
        if registered(n, k) {
            let a = choose|a: int| 0 <= a < n.len() && (#[trigger] n[a]).0 == k;
            if a < s.len() {
                assert(s[a].0 == k);
            }
        }
    }
}

/// Sending keeps the set of inboxes.
proof fn lemma_sent_keeps_ids(
    old: Seq<(Seq<char>, Seq<MessageView>)>,
    from: Seq<char>,
    to: Option<Seq<char>>,
    payload: Seq<char>,
    new: Seq<(Seq<char>, Seq<MessageView>)>,
    r: usize,
)
    requires
        sent(old, from, to, payload, new, r),
    ensures
        forall|k: Seq<char>| #[trigger] registered(new, k) == registered(old, k),
{
    if new != old {
        assert(forall|i: int| 0 <= i < old.len() ==> (#[trigger] new[i]).0 == old[i].0);
        assert forall|k: Seq<char>| #[trigger] registered(new, k) == registered(old, k) by {
            if registered(old, k) {
                let a = choose|a: int| 0 <= a < old.len() && (#[trigger] old[a]).0 == k;
                assert(new[a].0 == k);
            }
            if registered(new, k) {
                let a = choose|a: int| 0 <= a < new.len() && (#[trigger] new[a]).0 == k;
                assert(old[a].0 == k);
            }
        }
    }
}

/// The browser action that an active extension with one shows.
pub open spec fn action_of(e: Extension) -> ActionView {
    let d = e.manifest.browser_action->Some_0;
    ActionView {
        extension_id: e.manifest.id@,
        title: match d.title {
            Some(t) => t@,
            None => e.manifest.name@,
        },
        badge_text: Seq::empty(),
        badge_color: "#4285f4"@,
        enabled: true,
        has_popup: d.popup is Some,
        popup: None,
    }
}

/// The browser actions of the active extensions that have one, in order.
pub open spec fn actions_of(exts: Seq<Extension>) -> Seq<ActionView>
    decreases exts.len(),
{
    if exts.len() == 0 {
        seq![]
    } else if exts.last().state == ExtensionState::Active && exts.last().manifest.browser_action is Some {
        actions_of(exts.drop_last()).push(action_of(exts.last()))
    } else {
        actions_of(exts.drop_last())
    }
}

/// The text of an optional string slice.
pub open spec fn opt_str(o: Option<&str>) -> Option<Seq<char>> {
    match o {
        Some(s) => Some(s@),
        None => None,
    }
}

impl ExtensionLoader {
    fn set_state(&mut self, i: usize, st: ExtensionState)
        requires
            i < old(self).extensions@.len(),
        ensures
            final(self).extensions@ == with_state(old(self).extensions@, i as int, st),
            final(self).content_scripts == old(self).content_scripts,
            final(self).messaging_hub == old(self).messaging_hub,
            final(self).extensions_dir == old(self).extensions_dir,
    {
        let mut e = self.extensions.remove(i);
        e.state = st;
        self.extensions.insert(i, e);
        assert(self.extensions@ =~= with_state(old(self).extensions@, i as int, st));
    }

    fn read_sources<F: Fn(&str, &str) -> Option<String>>(root: &str, files: &Vec<String>, read: &F) -> (r: Vec<Option<String>>)
        requires
            forall|a: &str, b: &str| #[trigger] read.requires((a, b)),
        ensures
            r@.len() == files@.len(),
            forall|k: int| 0 <= k < r@.len() ==> read_gives(read, root@, files@[k]@, #[trigger] r@[k]),
    {
        let mut out: Vec<Option<String>> = Vec::new();
        let mut k: usize = 0;
        while k < files.len()
            invariant
                k <= files@.len(),
                out@.len() == k,
                forall|a: &str, b: &str| #[trigger] read.requires((a, b)),
                forall|q: int| 0 <= q < out@.len() ==> read_gives(read, root@, files@[q]@, #[trigger] out@[q]),
            decreases files.len() - k,
        {
            let f = files[k].as_str();
            let src = read(root, f);
            assert(read_gives(read, root@, files@[k as int]@, src));
            out.push(src);
            k += 1;
        }
        out
    }

    /// Compiles the content scripts of the active extensions anew, reading
    /// their files through `read` (root directory, file path).
    fn rebuild_content_scripts<F: Fn(&str, &str) -> Option<String>>(&mut self, read: &F)
        requires
            forall|a: &str, b: &str| #[trigger] read.requires((a, b)),
        ensures
            final(self).extensions == old(self).extensions,
            final(self).messaging_hub == old(self).messaging_hub,
            final(self).extensions_dir == old(self).extensions_dir,
            forall|i: int| 0 <= i < final(self).content_scripts@.len() ==> from_active_def(final(self).extensions@, #[trigger] final(self).content_scripts@[i]),
            rebuilt_scripts(read, final(self).extensions@, final(self).content_scripts@),
    {
        self.content_scripts.clear();
        let ghost exts = self.extensions@;
        let ghost mut plan: Seq<(int, int)> = seq![];
        let ghost mut texts: Seq<Seq<Option<String>>> = seq![];
        let n = self.extensions.len();
        let mut i: usize = 0;
        while i < n
            invariant
                n == self.extensions@.len(),
                i <= n,
                exts == self.extensions@,
                self.extensions == old(self).extensions,
                self.messaging_hub == old(self).messaging_hub,
                self.extensions_dir == old(self).extensions_dir,
                forall|a: &str, b: &str| #[trigger] read.requires((a, b)),
                forall|k: int| 0 <= k < self.content_scripts@.len() ==> from_active_def(self.extensions@, #[trigger] self.content_scripts@[k]),
                plan == active_defs_upto(exts, i as nat),
                texts_read(read, exts, plan, texts),
                scripts_from(exts, plan, texts, self.content_scripts@),
            decreases n - i,
        {
            if self.extensions[i].state == ExtensionState::Active {
                let m = self.extensions[i].manifest.content_scripts.len();
                let ghost base = plan;
                let mut j: usize = 0;
                while j < m
                    invariant
                        n == self.extensions@.len(),
                        i < n,
                        j <= m,
                        exts == self.extensions@,
                        m == self.extensions@[i as int].manifest.content_scripts@.len(),
                        self.extensions@[i as int].state == ExtensionState::Active,
                        self.extensions == old(self).extensions,
                        self.messaging_hub == old(self).messaging_hub,
                        self.extensions_dir == old(self).extensions_dir,
                        forall|a: &str, b: &str| #[trigger] read.requires((a, b)),
                        forall|k: int| 0 <= k < self.content_scripts@.len() ==> from_active_def(self.extensions@, #[trigger] self.content_scripts@[k]),
                        base == active_defs_upto(exts, i as nat),
                        plan == base + Seq::new(j as nat, |jj: int| (i as int, jj)),
                        texts_read(read, exts, plan, texts),
                        scripts_from(exts, plan, texts, self.content_scripts@),
                    decreases m - j,
                {
                    let ext = &self.extensions[i];
                    let def = &ext.manifest.content_scripts[j];
                    let ghost x: (int, int) = (i as int, j as int);
                    let ghost old_plan = plan;
                    let ghost old_texts = texts;
                    let ghost old_scripts = self.content_scripts@;
                    assert(def_at(exts, x) == *def);
                    let pats = parse_patterns(&def.matches);
                    assert(pats@.len() == pattern_views(def.matches@).len());
                    if pats.len() > 0 {
                        let sources = Self::read_sources(ext.manifest.root_dir.as_str(), &def.js_files, read);
                        proof {
                            plan = old_plan.push(x);
                            texts = old_texts.push(sources@);
                        }
                        match compile_content_script(ext.manifest.id.as_str(), def, sources.as_slice()) {
                            Some(cs) => {
                                proof {
                                    assert(compiled_from(cs, exts[i as int].manifest.id@, exts[i as int].manifest.content_scripts@[j as int], sources@));
                                    assert(from_active_def(exts, cs));
                                }
                                self.content_scripts.push(cs);
                                proof {
                                    assert(self.content_scripts@.drop_last() =~= old_scripts);
                                }
                            },
                            None => {},
                        }
                    } else {
                        proof {
                            plan = old_plan.push(x);
                            texts = old_texts.push(Seq::<Option<String>>::empty());
                        }
                    }
                    proof {
                        assert(plan.drop_last() =~= old_plan);
                        assert(texts.drop_last() =~= old_texts);
                        assert(plan.last() == x);
                        assert(plan =~= base + Seq::new((j + 1) as nat, |jj: int| (i as int, jj)));
                        assert(texts_read(read, exts, plan, texts)) by {
                            assert forall|p: int| 0 <= p < plan.len() && pattern_views(def_at(exts, plan[p]).matches@).len() > 0 implies {
                                &&& (#[trigger] texts[p]).len() == def_at(exts, plan[p]).js_files@.len()
                                &&& forall|k: int| 0 <= k < texts[p].len() ==> read_gives(
                                    read,
                                    exts[plan[p].0].manifest.root_dir@,
                                    def_at(exts, plan[p]).js_files@[k]@,
                                    #[trigger] texts[p][k],
                                )
                            } by {
                                if p < old_plan.len() {
                                    assert(plan[p] == old_plan[p]);
                                    assert(texts[p] == old_texts[p]);
                                }
                            }
                        }
                    }
                    j += 1;
                }
                proof {
                    assert(plan =~= active_defs_upto(exts, (i + 1) as nat));
                }
            } else {
                proof {
                    assert(plan =~= active_defs_upto(exts, (i + 1) as nat));
                }
            }
            i += 1;
        }
        proof {
            assert(texts_read(read, exts, active_defs(exts), texts));
        }
    }

    /// Turns an extension on: it becomes active, gets an inbox, and the
    /// content scripts are compiled anew (files read through `read`, given
    /// the extension's root directory and a file path). False when no
    /// extension has the ID.
    pub fn enable<F: Fn(&str, &str) -> Option<String>>(&mut self, id: &str, read: &F) -> (r: bool)
        requires
            old(self).wf(),
            forall|a: &str, b: &str| #[trigger] read.requires((a, b)),
        ensures
            final(self).wf(),
            final(self).dir() == old(self).dir(),
            r == has_id(old(self).exts(), id@),
            !r ==> final(self).exts() == old(self).exts() && final(self).scripts() == old(self).scripts()
                && final(self).hub() == old(self).hub(),
            r ==> {
                &&& final(self).exts().len() == old(self).exts().len()
                &&& forall|i: int| 0 <= i < old(self).exts().len() ==> #[trigger] final(self).exts()[i] == (if old(self).exts()[i].manifest.id@ == id@ {
                    Extension { state: ExtensionState::Active, ..old(self).exts()[i] }
                } else {
                    old(self).exts()[i]
                })
                &&& is_active_id(final(self).exts(), id@)
                &&& final(self).hub() == (if registered(old(self).hub(), id@) {
                    old(self).hub()
                } else {
                    old(self).hub().push((id@, Seq::<MessageView>::empty()))
                })
                &&& rebuilt_scripts(read, final(self).exts(), final(self).scripts())
            },
    {
        match self.index_of(id) {
            None => false,
            Some(i) => {
                let ghost before = self.extensions@;
                self.set_state(i, ExtensionState::Active);
                proof {
                    lemma_state_change(before, i as int, ExtensionState::Active);
                    lemma_registered_push(self.messaging_hub@, id@);
                    assert forall|k: int| 0 <= k < before.len() implies #[trigger] self.extensions@[k] == (if before[k].manifest.id@ == id@ {
                        Extension { state: ExtensionState::Active, ..before[k] }
                    } else {
                        before[k]
                    }) by {
                        if k != i {
                            assert(before[k].manifest.id@ != before[i as int].manifest.id@);
                        }
                    }
                }
                self.messaging_hub.register_extension(id);
                self.rebuild_content_scripts(read);
                true
            },
        }
    }

    /// Turns an extension off: it becomes disabled, its inbox goes, and the
    /// content scripts are compiled anew, none of them its own. False when
    /// no extension has the ID.
    pub fn disable<F: Fn(&str, &str) -> Option<String>>(&mut self, id: &str, read: &F) -> (r: bool)
        requires
            old(self).wf(),
            forall|a: &str, b: &str| #[trigger] read.requires((a, b)),
        ensures
            final(self).wf(),
            final(self).dir() == old(self).dir(),
            r == has_id(old(self).exts(), id@),
            !r ==> final(self).exts() == old(self).exts() && final(self).scripts() == old(self).scripts()
                && final(self).hub() == old(self).hub(),
            r ==> {
                &&& final(self).exts().len() == old(self).exts().len()
                &&& forall|i: int| 0 <= i < old(self).exts().len() ==> #[trigger] final(self).exts()[i] == (if old(self).exts()[i].manifest.id@ == id@ {
                    Extension { state: ExtensionState::Disabled, ..old(self).exts()[i] }
                } else {
                    old(self).exts()[i]
                })
                &&& !registered(final(self).hub(), id@)
                &&& forall|k: Seq<char>| k != id@ ==> #[trigger] registered(final(self).hub(), k) == registered(old(self).hub(), k)
                    && pending(final(self).hub(), k) == pending(old(self).hub(), k)
                &&& forall|i: int| 0 <= i < final(self).scripts().len() ==> (#[trigger] final(self).scripts()[i]).extension_id@ != id@
                &&& rebuilt_scripts(read, final(self).exts(), final(self).scripts())
            },
    {
        match self.index_of(id) {
            None => false,
            Some(i) => {
                let ghost before = self.extensions@;
                self.set_state(i, ExtensionState::Disabled);
                proof {
                    lemma_state_change(before, i as int, ExtensionState::Disabled);
                    assert forall|k: int| 0 <= k < before.len() implies #[trigger] self.extensions@[k] == (if before[k].manifest.id@ == id@ {
                        Extension { state: ExtensionState::Disabled, ..before[k] }
                    } else {
                        before[k]
                    }) by {
                        if k != i {
                            assert(before[k].manifest.id@ != before[i as int].manifest.id@);
                        }
                    }
                }
                self.messaging_hub.unregister_extension(id);
                self.rebuild_content_scripts(read);
                proof {
                    let exts = self.extensions@;
                    assert forall|k: int| 0 <= k < self.content_scripts@.len() implies (#[trigger] self.content_scripts@[k]).extension_id@ != id@ by {
                        let cs = self.content_scripts@[k];
                        assert(from_active_def(exts, cs));
                        let (a, b, srcs) = choose|a: int, b: int, srcs: Seq<Option<String>>| 0 <= a < exts.len() && exts[a].state == ExtensionState::Active && 0 <= b < exts[a].manifest.content_scripts@.len() && #[trigger] compiled_from(cs, exts[a].manifest.id@, exts[a].manifest.content_scripts@[b], srcs);
                        if a != i {
                            assert(exts[a].manifest.id@ != exts[i as int].manifest.id@);
                        }
                    }
                }
                true
            },
        }
    }

    /// Grants an extension every permission its manifest requests; nothing
    /// happens when no extension has the ID.
    pub fn approve_permissions(&mut self, id: &str)
        requires
            old(self).wf(),
        ensures
            final(self).wf(),
            final(self).dir() == old(self).dir(),
            final(self).scripts() == old(self).scripts(),
            final(self).hub() == old(self).hub(),
            final(self).exts().len() == old(self).exts().len(),
            forall|i: int| 0 <= i < old(self).exts().len() ==> {
                &&& (#[trigger] final(self).exts()[i]).manifest == old(self).exts()[i].manifest
                &&& final(self).exts()[i].state == old(self).exts()[i].state
                &&& final(self).exts()[i].permissions@ == (if old(self).exts()[i].manifest.id@ == id@ {
                    old(self).exts()[i].permissions@.union(old(self).exts()[i].manifest.permissions@.to_set())
                } else {
                    old(self).exts()[i].permissions@
                })
            },
    {
        match self.index_of(id) {
            None => {},
            Some(i) => {
                let ghost before = self.extensions@;
                let mut e = self.extensions.remove(i);
                assert(e.permissions.wf());
                e.permissions.grant_all(e.manifest.permissions.as_slice());
                self.extensions.insert(i, e);
                proof {
                    let after = self.extensions@;
                    assert forall|k: int| 0 <= k < before.len() implies {
                        &&& (#[trigger] after[k]).manifest == before[k].manifest
                        &&& after[k].state == before[k].state
                        &&& after[k].permissions@ == (if before[k].manifest.id@ == id@ {
                            before[k].permissions@.union(before[k].manifest.permissions@.to_set())
                        } else {
                            before[k].permissions@
                        })
                        &&& after[k].permissions.wf()
                    } by {
                        if k != i {
                            assert(after[k] == before[k]);
                            assert(before[k].manifest.id@ != before[i as int].manifest.id@);
                        }
                    }
                    assert forall|a: int, b: int| 0 <= a < after.len() && 0 <= b < after.len() && a != b implies (#[trigger] after[a]).manifest.id@ != (#[trigger] after[b]).manifest.id@ by {
                        assert(after[a].manifest == before[a].manifest);
                        assert(after[b].manifest == before[b].manifest);
                    }
                    assert forall|k: Seq<char>| #[trigger] is_active_id(after, k) == is_active_id(before, k) by {
                        if is_active_id(after, k) {
                            let a = choose|a: int| 0 <= a < after.len() && (#[trigger] after[a]).manifest.id@ == k && after[a].state == ExtensionState::Active;
                            assert(before[a].manifest.id@ == k);
                        }
                        if is_active_id(before, k) {
                            let a = choose|a: int| 0 <= a < before.len() && (#[trigger] before[a]).manifest.id@ == k && before[a].state == ExtensionState::Active;
                            assert(after[a].manifest.id@ == k);
                        }
                    }
                    assert forall|k: int| 0 <= k < self.content_scripts@.len() implies from_active_def(before, #[trigger] self.content_scripts@[k]) by {
                        assert(from_active_def(old(self).exts(), old(self).scripts()[k]));
                    }
                    lemma_scripts_kept(before, after, self.content_scripts@);
                }
            },
        }
    }

    /// The browser actions of the active extensions that define one,
    /// titled with the action's title or else the extension's name.
    pub fn browser_actions(&self) -> (r: Vec<BrowserAction>)
        ensures
            r@.map_values(|a: BrowserAction| a@) == actions_of(self.exts()),
    {
        let mut out: Vec<BrowserAction> = Vec::new();
        let mut i: usize = 0;
        while i < self.extensions.len()
            invariant
                i <= self.extensions@.len(),
                out@.map_values(|a: BrowserAction| a@) == actions_of(self.extensions@.take(i as int)),
            decreases self.extensions.len() - i,
        {
            let ghost before = out@;
            proof {
                assert(self.extensions@.take(i + 1).drop_last() =~= self.extensions@.take(i as int));
                assert(self.extensions@.take(i + 1).last() == self.extensions@[i as int]);
            }
            let ext = &self.extensions[i];
            if ext.is_active() {
                match &ext.manifest.browser_action {
                    Some(d) => {
                        let title = match &d.title {
                            Some(t) => t.clone(),
                            None => ext.manifest.name.clone(),
                        };
                        let a = BrowserAction::new(ext.manifest.id.clone(), title, d.popup.is_some());
                        proof {
                            reveal_strlit("#4285f4");
                        }
                        out.push(a);
                        assert(out@.map_values(|a: BrowserAction| a@) =~= before.map_values(|a: BrowserAction| a@).push(action_of(self.extensions@[i as int])));
                    },
                    None => {},
                }
            }
            i += 1;
        }
        assert(self.extensions@.take(self.extensions@.len() as int) =~= self.extensions@);
        out
    }

    /// The source of an extension's background worker, read through
    /// `read` (root directory, worker path): what `read` gives for that
    /// extension's directory and worker path. `None` when no extension has
    /// the ID or when it has no background worker.
    pub fn background_source<F: Fn(&str, &str) -> Option<String>>(&self, id: &str, read: &F) -> (r: Option<String>)
        requires
            self.wf(),
            forall|a: &str, b: &str| #[trigger] read.requires((a, b)),
        ensures
            !has_id(self.exts(), id@) ==> r is None,
            forall|i: int|
                0 <= i < self.exts().len() && (#[trigger] self.exts()[i]).manifest.id@ == id@ ==> match self.exts()[i].manifest.background_worker {
                    None => r is None,
                    Some(w) => exists|a: &str, b: &str|
                        a@ == self.exts()[i].manifest.root_dir@ && b@ == w@ && #[trigger] read.ensures((a, b), r),
                },
    {
        match self.index_of(id) {
            None => None,
            Some(i) => {
                let ext = &self.extensions[i];
                match &ext.manifest.background_worker {
                    None => {
                        proof {
                            assert forall|j: int| 0 <= j < self.exts().len() && (#[trigger] self.exts()[j]).manifest.id@ == id@ implies j == i by {
                                if j != i {
                                    assert(self.exts()[j].manifest.id@ != self.exts()[i as int].manifest.id@);
                                }
                            }
                        }
                        None
                    },
                    Some(w) => {
                        let a = ext.manifest.root_dir.as_str();
                        let b = w.as_str();
                        let r = read(a, b);
                        proof {
                            assert forall|j: int| 0 <= j < self.exts().len() && (#[trigger] self.exts()[j]).manifest.id@ == id@ implies j == i by {
                                if j != i {
                                    assert(self.exts()[j].manifest.id@ != self.exts()[i as int].manifest.id@);
                                }
                            }
                        }
                        r
                    },
                }
            },
        }
    }

    fn is_active_ext(&self, id: &str) -> (r: bool)
        requires
            ids_unique(self.exts()),
        ensures
            r == is_active_id(self.exts(), id@),
    {
        match self.index_of(id) {
            None => false,
            Some(i) => {
                proof {
                    if is_active_id(self.extensions@, id@) {
                        let a = choose|a: int| 0 <= a < self.extensions@.len() && (#[trigger] self.extensions@[a]).manifest.id@ == id@ && self.extensions@[a].state == ExtensionState::Active;
                        if a != i {
                            assert(self.extensions@[a].manifest.id@ != self.extensions@[i as int].manifest.id@);
                        }
                    }
                }
                self.extensions[i].is_active()
            },
        }
    }

    /// Sends a runtime message from an active extension, to another active
    /// extension or (without a target) to all. Returns how many received
    /// it; nothing is sent when the sender or the target is not an active
    /// extension.
    pub fn send_runtime_message(&mut self, from_extension_id: &str, target_extension_id: Option<&str>, payload: String) -> (r: usize)
        requires
            old(self).wf(),
        ensures
            final(self).wf(),
            final(self).dir() == old(self).dir(),
            final(self).exts() == old(self).exts(),
            final(self).scripts() == old(self).scripts(),
            !is_active_id(old(self).exts(), from_extension_id@) ==> r == 0 && final(self).hub() == old(self).hub(),
            (target_extension_id matches Some(t) && !is_active_id(old(self).exts(), t@)) ==> r == 0 && final(self).hub() == old(self).hub(),
            is_active_id(old(self).exts(), from_extension_id@) && (target_extension_id matches Some(t) ==> is_active_id(old(self).exts(), t@))
                ==> sent(old(self).hub(), from_extension_id@, opt_str(target_extension_id), payload@, final(self).hub(), r),
    {
        if !self.is_active_ext(from_extension_id) {
            return 0;
        }
        let target = match target_extension_id {
            Some(t) => {
                if !self.is_active_ext(t) {
                    return 0;
                }
                MessageTarget::Extension(t.to_owned())
            },
            None => MessageTarget::Broadcast,
        };
        let ghost h0 = self.messaging_hub@;
        let r = self.messaging_hub.send_message(from_extension_id, target, payload);
        proof {
            lemma_sent_keeps_ids(h0, from_extension_id@, opt_str(target_extension_id), payload@, self.messaging_hub@, r);
            assert forall|k: Seq<char>| #[trigger] registered(self.hub(), k) == is_active_id(self.exts(), k) by {
                assert(registered(old(self).hub(), k) == is_active_id(old(self).exts(), k));
            }
            assert forall|i: int| 0 <= i < self.scripts().len() implies from_active_def(self.exts(), #[trigger] self.scripts()[i]) by {
                assert(from_active_def(old(self).exts(), old(self).scripts()[i]));
            }
        }
        r
    }

    /// The next pending runtime message of an active extension, taken from
    /// its inbox; `None` for an extension that is not active or has none.
    pub fn poll_runtime_message(&mut self, extension_id: &str) -> (r: Option<RuntimeMessage>)
        requires
            old(self).wf(),
        ensures
            final(self).wf(),
            final(self).dir() == old(self).dir(),
            final(self).exts() == old(self).exts(),
            final(self).scripts() == old(self).scripts(),
            !is_active_id(old(self).exts(), extension_id@) ==> r is None && final(self).hub() == old(self).hub(),
            is_active_id(old(self).exts(), extension_id@) ==> {
                &&& pending(old(self).hub(), extension_id@).len() == 0 ==> r is None && final(self).hub() == old(self).hub()
                &&& pending(old(self).hub(), extension_id@).len() > 0 ==> r is Some && message_view(r->0)
                    == pending(old(self).hub(), extension_id@)[0] && pending(final(self).hub(), extension_id@)
                    == pending(old(self).hub(), extension_id@).drop_first()
                &&& forall|k: Seq<char>| k != extension_id@ ==> #[trigger] pending(final(self).hub(), k) == pending(old(self).hub(), k)
            },
    {
        if !self.is_active_ext(extension_id) {
            return None;
        }
        let r = self.messaging_hub.poll_message(extension_id);
        proof {
            assert forall|k: Seq<char>| #[trigger] registered(self.hub(), k) == is_active_id(self.exts(), k) by {
                assert(registered(old(self).hub(), k) == is_active_id(old(self).exts(), k));
            }
            assert forall|i: int| 0 <= i < self.scripts().len() implies from_active_def(self.exts(), #[trigger] self.scripts()[i]) by {
                assert(from_active_def(old(self).exts(), old(self).scripts()[i]));
            }
        }
        r
    }

    /// The number of pending runtime messages of an extension.
    pub fn pending_runtime_messages(&self, extension_id: &str) -> (r: usize)
        requires
            self.wf(),
        ensures
            r == pending(self.hub(), extension_id@).len(),
    {
        self.messaging_hub.pending_count(extension_id)
    }
}

} // verus!
