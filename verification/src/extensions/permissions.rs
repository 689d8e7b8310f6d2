//! Extension permissions: declaration, granting and enforcement.
//!
//! Each extension declares the permissions it needs in its manifest. At
//! runtime, API calls are checked against the granted permissions.
use vstd::prelude::*;

use crate::text::str_eq;

verus! {

/// A single permission that an extension can request.
#[derive(Debug, Clone, Copy, PartialEq, Eq, Hash, Structural)]
pub enum Permission {
    /// Query and create tabs.
    Tabs,
    /// Read/write extension-local storage.
    Storage,
    /// Show desktop notifications.
    Notifications,
    /// Access the currently active tab's DOM.
    ActiveTab,
    /// Observe network requests.
    WebRequest,
    /// Read/write cookies.
    Cookies,
    /// Access browser history.
    History,
    /// Access bookmarks.
    Bookmarks,
}

/// The manifest key of a permission.
pub open spec fn permission_key(p: Permission) -> Seq<char> {
    match p {
        Permission::Tabs => "tabs"@,
        Permission::Storage => "storage"@,
        Permission::Notifications => "notifications"@,
        Permission::ActiveTab => "activeTab"@,
        Permission::WebRequest => "webRequest"@,
        Permission::Cookies => "cookies"@,
        Permission::History => "history"@,
        Permission::Bookmarks => "bookmarks"@,
    }
}

/// The permission named by a manifest key, if any.
pub open spec fn permission_from_key(k: Seq<char>) -> Option<Permission> {
    if k == "tabs"@ {
        Some(Permission::Tabs)
    } else if k == "storage"@ {
        Some(Permission::Storage)
    } else if k == "notifications"@ {
        Some(Permission::Notifications)
    } else if k == "activeTab"@ {
        Some(Permission::ActiveTab)
    } else if k == "webRequest"@ {
        Some(Permission::WebRequest)
    } else if k == "cookies"@ {
        Some(Permission::Cookies)
    } else if k == "history"@ {
        Some(Permission::History)
    } else if k == "bookmarks"@ {
        Some(Permission::Bookmarks)
    } else {
        None
    }
}

/// The description shown in the permission dialog.
pub open spec fn permission_description(p: Permission) -> Seq<char> {
    match p {
        Permission::Tabs => "Query and create browser tabs"@,
        Permission::Storage => "Store data locally"@,
        Permission::Notifications => "Show desktop notifications"@,
        Permission::ActiveTab => "Access the current tab's content"@,
        Permission::WebRequest => "Observe and modify network requests"@,
        Permission::Cookies => "Read and write cookies"@,
        Permission::History => "Access browsing history"@,
        Permission::Bookmarks => "Access bookmarks"@,
    }
}

/// The eight known permissions, in declaration order.
pub open spec fn all_permissions() -> Seq<Permission> {
    seq![
        Permission::Tabs,
        Permission::Storage,
        Permission::Notifications,
        Permission::ActiveTab,
        Permission::WebRequest,
        Permission::Cookies,
        Permission::History,
        Permission::Bookmarks,
    ]
}

impl Permission {
    /// Parse a permission from its manifest key string.
    pub fn from_key(key: &str) -> (r: Option<Permission>)
        ensures
            r == permission_from_key(key@),
    {
        if str_eq(key, "tabs") {
            Some(Permission::Tabs)
        } else if str_eq(key, "storage") {
            Some(Permission::Storage)
        } else if str_eq(key, "notifications") {
            Some(Permission::Notifications)
        } else if str_eq(key, "activeTab") {
            Some(Permission::ActiveTab)
        } else if str_eq(key, "webRequest") {
            Some(Permission::WebRequest)
        } else if str_eq(key, "cookies") {
            Some(Permission::Cookies)
        } else if str_eq(key, "history") {
            Some(Permission::History)
        } else if str_eq(key, "bookmarks") {
            Some(Permission::Bookmarks)
        } else {
            None
        }
    }

    /// The manifest key string for this permission.
    pub fn key(self) -> (r: &'static str)
        ensures
            r@ == permission_key(self),
    {
        match self {
            Permission::Tabs => "tabs",
            Permission::Storage => "storage",
            Permission::Notifications => "notifications",
            Permission::ActiveTab => "activeTab",
            Permission::WebRequest => "webRequest",
            Permission::Cookies => "cookies",
            Permission::History => "history",
            Permission::Bookmarks => "bookmarks",
        }
    }

    /// Human-readable description for the permission dialog.
    pub fn description(self) -> (r: &'static str)
        ensures
            r@ == permission_description(self),
    {
        match self {
            Permission::Tabs => "Query and create browser tabs",
            Permission::Storage => "Store data locally",
            Permission::Notifications => "Show desktop notifications",
            Permission::ActiveTab => "Access the current tab's content",
            Permission::WebRequest => "Observe and modify network requests",
            Permission::Cookies => "Read and write cookies",
            Permission::History => "Access browsing history",
            Permission::Bookmarks => "Access bookmarks",
        }
    }

    /// All known permissions.
    pub fn all() -> (r: Vec<Permission>)
        ensures
            r@ == all_permissions(),
    {
        let r = vec![
            Permission::Tabs,
            Permission::Storage,
            Permission::Notifications,
            Permission::ActiveTab,
            Permission::WebRequest,
            Permission::Cookies,
            Permission::History,
            Permission::Bookmarks,
        ];
        assert(r@ =~= all_permissions());
        r
    }
}

/// Reading a permission's key back gives the permission.
pub proof fn law_key_roundtrip(p: Permission)
    ensures
        permission_from_key(permission_key(p)) == Some(p),
{
    reveal_strlit("tabs");
    reveal_strlit("storage");
    reveal_strlit("notifications");
    reveal_strlit("activeTab");
    reveal_strlit("webRequest");
    reveal_strlit("cookies");
    reveal_strlit("history");
    reveal_strlit("bookmarks");
    match p {
        Permission::Tabs => {},
        Permission::Storage => { assert(permission_key(p)[0] != 't'); },
        Permission::Notifications => { assert(permission_key(p)[0] != 't'); },
        Permission::ActiveTab => { assert(permission_key(p)[0] != 't'); },
        Permission::WebRequest => { assert(permission_key(p)[0] != 't'); },
        Permission::Cookies => { assert(permission_key(p)[0] != 't'); assert(permission_key(p)[0] != 's'); assert(permission_key(p)[0] != 'n'); },
        Permission::History => { assert(permission_key(p)[0] != 't'); assert(permission_key(p)[0] != 'c'); assert(permission_key(p)[0] != 's');},
        Permission::Bookmarks => { assert(permission_key(p)[0] != 't'); assert(permission_key(p)[0] != 'h'); assert(permission_key(p)[0] != 'c'); },
    }
}

/// Every permission has a non-empty description.
pub proof fn law_descriptions_non_empty(p: Permission)
    ensures
        permission_description(p).len() > 0,
{
    reveal_strlit("Query and create browser tabs");
    reveal_strlit("Store data locally");
    reveal_strlit("Show desktop notifications");
    reveal_strlit("Access the current tab's content");
    reveal_strlit("Observe and modify network requests");
    reveal_strlit("Read and write cookies");
    reveal_strlit("Access browsing history");
    reveal_strlit("Access bookmarks");
}

/// A set of permissions granted to an extension.
#[derive(Debug, Clone, Default)]
pub struct PermissionSet {
    granted: Vec<Permission>,
}

impl View for PermissionSet {
    type V = Set<Permission>;

    closed spec fn view(&self) -> Set<Permission> {
        self.granted@.to_set()
    }
}

impl PermissionSet {
    /// No permission is listed twice.
    pub closed spec fn wf(&self) -> bool {
        self.granted@.no_duplicates()
    }

    /// Create an empty permission set.
    pub fn new() -> (s: Self)
        ensures
            s.wf(),
            s@ == Set::<Permission>::empty(),
    {
        let s = PermissionSet { granted: Vec::new() };
        assert(s.granted@.to_set() =~= Set::<Permission>::empty());
        s
    }

    /// Create a permission set with the given permissions.
    pub fn from_permissions(perms: &[Permission]) -> (s: Self)
        ensures
            s.wf(),
            s@ == perms@.to_set(),
    {
        let mut s = PermissionSet::new();
        s.grant_all(perms);
        assert(s@ =~= perms@.to_set());
        s
    }

    /// Position of a permission in the list.
    fn position(&self, perm: Permission) -> (r: Option<usize>)
        ensures
            r matches Some(i) ==> i < self.granted@.len() && self.granted@[i as int] == perm,
            r is None ==> !self.granted@.contains(perm),
    {
        let mut i: usize = 0;
        while i < self.granted.len()
            invariant
                i <= self.granted@.len(),
                forall|j: int| 0 <= j < i ==> self.granted@[j] != perm,
            decreases self.granted.len() - i,
        {
            if self.granted[i] == perm {
                return Some(i);
            }
            i += 1;
        }
        None
    }

    /// Grant a permission.
    pub fn grant(&mut self, perm: Permission)
        requires
            old(self).wf(),
        ensures
            final(self).wf(),
            final(self)@ == old(self)@.insert(perm),
    {
        match self.position(perm) {
            Some(_) => {
                assert(self.granted@.to_set() =~= self.granted@.to_set().insert(perm));
            },
            None => {
                let ghost before = self.granted@;
                self.granted.push(perm);
                proof { before.lemma_push_to_set_commute(perm); }
                assert(self.granted@.to_set() =~= before.to_set().insert(perm));
            },
        }
    }

    /// Revoke a permission.
    pub fn revoke(&mut self, perm: Permission)
        requires
            old(self).wf(),
        ensures
            final(self).wf(),
            final(self)@ == old(self)@.remove(perm),
    {
        match self.position(perm) {
            Some(i) => {
                let ghost before = self.granted@;
                self.granted.remove(i);
                assert(self.granted@ =~= before.remove(i as int));
                assert forall|x: Permission| self.granted@.contains(x) <==> before.to_set().remove(perm).contains(x) by {
                    if before.contains(x) && x != perm {
                        let k = choose|k: int| 0 <= k < before.len() && before[k] == x;
                        if k < i { assert(self.granted@[k] == x); } else { assert(self.granted@[k - 1] == x); }
                    }
                }
                assert(self.granted@.to_set() =~= before.to_set().remove(perm));
            },
            None => {
                assert(self.granted@.to_set() =~= self.granted@.to_set().remove(perm));
            },
        }
    }

    /// Check if a permission is granted.
    pub fn has(&self, perm: Permission) -> (r: bool)
        ensures
            r == self@.contains(perm),
    {
        self.position(perm).is_some()
    }

    /// Check if all requested permissions are granted.
    pub fn has_all(&self, perms: &[Permission]) -> (r: bool)
        ensures
            r == forall|i: int| 0 <= i < perms@.len() ==> self@.contains(#[trigger] perms@[i]),
    {
        let mut i: usize = 0;
        while i < perms.len()
            invariant
                i <= perms@.len(),
                forall|j: int| 0 <= j < i ==> self@.contains(#[trigger] perms@[j]),
            decreases perms.len() - i,
        {
            if !self.has(perms[i]) {
                return false;
            }
            i += 1;
        }
        true
    }

    /// All granted permissions.
    pub fn granted(&self) -> (r: Vec<Permission>)
        requires
            self.wf(),
        ensures
            r@.to_set() == self@,
            r@.no_duplicates(),
    {
        self.granted.clone()
    }

    /// Number of granted permissions.
    pub fn count(&self) -> (r: usize)
        requires
            self.wf(),
        ensures
            r == self@.len(),
    {
        proof { self.granted@.unique_seq_to_set(); }
        self.granted.len()
    }

    /// Grant all requested permissions.
    pub fn grant_all(&mut self, perms: &[Permission])
        requires
            old(self).wf(),
        ensures
            final(self).wf(),
            final(self)@ == old(self)@.union(perms@.to_set()),
    {
        let mut i: usize = 0;
        while i < perms.len()
            invariant
                i <= perms@.len(),
                self.wf(),
                self@ == old(self)@.union(perms@.take(i as int).to_set()),
            decreases perms.len() - i,
        {
            self.grant(perms[i]);
            assert(perms@.take(i + 1) =~= perms@.take(i as int).push(perms@[i as int]));
            assert(perms@.take(i + 1).to_set() =~= perms@.take(i as int).to_set().insert(perms@[i as int])) by {
                perms@.take(i as int).lemma_push_to_set_commute(perms@[i as int]);
            }
            assert(self@ =~= old(self)@.union(perms@.take(i + 1).to_set()));
            i += 1;
        }
        assert(perms@.take(perms@.len() as int) =~= perms@);
    }

    /// Revoke all permissions.
    pub fn revoke_all(&mut self)
        ensures
            final(self).wf(),
            final(self)@ == Set::<Permission>::empty(),
    {
        self.granted.clear();
        assert(self.granted@.to_set() =~= Set::<Permission>::empty());
    }
}

/// Result of a permission check.
#[derive(Debug, Clone, PartialEq, Eq)]
pub enum PermissionCheck {
    /// Permission is granted; the API call is allowed.
    Allowed,
    /// Permission is denied; the API call is blocked.
    Denied(Permission),
}

/// Check that an extension has permission for a specific API call.
pub fn check_permission(perms: &PermissionSet, required: Permission) -> (r: PermissionCheck)
    ensures
        r == (if perms@.contains(required) {
            PermissionCheck::Allowed
        } else {
            PermissionCheck::Denied(required)
        }),
{
    if perms.has(required) {
        PermissionCheck::Allowed
    } else {
        PermissionCheck::Denied(required)
    }
}

/// The text of the permission dialog lines for the given permissions.
pub open spec fn dialog_lines(perms: Seq<Permission>) -> Seq<char>
    decreases perms.len(),
{
    if perms.len() == 0 {
        Seq::empty()
    } else {
        dialog_lines(perms.drop_last()) + "  • "@ + permission_key(perms.last()) + " — "@
            + permission_description(perms.last()) + "\n"@
    }
}

/// The complete permission dialog text.
pub open spec fn dialog_text(name: Seq<char>, perms: Seq<Permission>) -> Seq<char> {
    "\""@ + name + "\" requests the following permissions:\n\n"@ + dialog_lines(perms)
        + "\nAllow this extension?"@
}

/// Build a human-readable permission dialog message.
pub fn build_permission_dialog(extension_name: &str, requested: &[Permission]) -> (msg: String)
    ensures
        msg@ == dialog_text(extension_name@, requested@),
{
    let mut msg = "\"".to_owned();
    msg.append(extension_name);
    msg.append("\" requests the following permissions:\n\n");
    let ghost start = msg@;
    let mut i: usize = 0;
    while i < requested.len()
        invariant
            i <= requested@.len(),
            msg@ == start + dialog_lines(requested@.take(i as int)),
        decreases requested.len() - i,
    {
        let p = requested[i];
        msg.append("  • ");
        msg.append(p.key());
        msg.append(" — ");
        msg.append(p.description());
        msg.append("\n");
        assert(requested@.take(i + 1).drop_last() =~= requested@.take(i as int));
        i += 1;
    }
    assert(requested@.take(requested@.len() as int) =~= requested@);
    msg.append("\nAllow this extension?");
    msg
}

} // verus!
