//! The Geolocation API's decisions: per-origin permissions, errors, and the
//! registry of position watchers. Positions themselves (coordinates in
//! degrees and metres) are the application's.
use vstd::prelude::*;
use vstd::string::StringExecFns;
use crate::assoc::{keys_unique, lemma_lookup_at, lemma_lookup_none, lemma_push_new, lemma_update_value, lookup, present};
use crate::text::{decimal, str_eq, u64_to_decimal};

verus! {

// ── Errors ───────────────────────────────────────────────────────────────────

/// Geolocation error codes.
#[derive(Debug, Clone, Copy, PartialEq, Eq, Hash, Structural)]
pub enum GeoErrorCode {
    /// The user denied permission (code 1).
    PermissionDenied,
    /// The position could not be determined (code 2).
    PositionUnavailable,
    /// The request timed out (code 3).
    Timeout,
}

/// The number of an error code.
pub open spec fn geo_code_number(c: GeoErrorCode) -> u8 {
    match c {
        GeoErrorCode::PermissionDenied => 1,
        GeoErrorCode::PositionUnavailable => 2,
        GeoErrorCode::Timeout => 3,
    }
}

impl GeoErrorCode {
    /// The number of the code.
    pub fn number(&self) -> (r: u8)
        ensures
            r == geo_code_number(*self),
    {
        match self {
            GeoErrorCode::PermissionDenied => 1,
            GeoErrorCode::PositionUnavailable => 2,
            GeoErrorCode::Timeout => 3,
        }
    }
}

/// A geolocation error.
#[derive(Debug, Clone)]
pub struct GeoError {
    pub code: GeoErrorCode,
    pub message: String,
}

/// The text of an error: `GeoError(<code>): <message>`.
pub open spec fn geo_error_text(e: GeoError) -> Seq<char> {
    "GeoError("@ + decimal(geo_code_number(e.code) as nat) + "): "@ + e.message@
}

/// The message that goes with an error code.
pub open spec fn geo_message(c: GeoErrorCode) -> Seq<char> {
    match c {
        GeoErrorCode::PermissionDenied => "User denied Geolocation permission"@,
        GeoErrorCode::PositionUnavailable => "Position unavailable"@,
        GeoErrorCode::Timeout => "Geolocation request timed out"@,
    }
}

impl GeoError {
    /// The user denied permission.
    pub fn permission_denied() -> (r: Self)
        ensures
            r.code == GeoErrorCode::PermissionDenied,
            r.message@ == geo_message(GeoErrorCode::PermissionDenied),
    {
        GeoError {
            code: GeoErrorCode::PermissionDenied,
            message: String::from_str("User denied Geolocation permission"),
        }
    }

    /// The position could not be determined.
    pub fn position_unavailable() -> (r: Self)
        ensures
            r.code == GeoErrorCode::PositionUnavailable,
            r.message@ == geo_message(GeoErrorCode::PositionUnavailable),
    {
        GeoError {
            code: GeoErrorCode::PositionUnavailable,
            message: String::from_str("Position unavailable"),
        }
    }

    /// The request timed out.
    pub fn timeout() -> (r: Self)
        ensures
            r.code == GeoErrorCode::Timeout,
            r.message@ == geo_message(GeoErrorCode::Timeout),
    {
        GeoError { code: GeoErrorCode::Timeout, message: String::from_str("Geolocation request timed out") }
    }

    /// The text of the error: `GeoError(<code>): <message>`.
    pub fn describe(&self) -> (r: String)
        ensures
            r@ == geo_error_text(*self),
    {
        let mut s = String::from_str("GeoError(");
        let n = u64_to_decimal(self.code.number() as u64);
        s.append(n.as_str());
        s.append("): ");
        s.append(self.message.as_str());
        s
    }
}

// ── Options and watch IDs ────────────────────────────────────────────────────

/// Options of a position request.
#[derive(Debug, Clone)]
pub struct PositionOptions {
    /// Whether high accuracy is asked for.
    pub enable_high_accuracy: bool,
    /// The oldest cached position accepted, in ms (0: none).
    pub maximum_age: u64,
    /// The time allowed, in ms.
    pub timeout: u64,
}

impl Default for PositionOptions {
    fn default() -> (r: Self)
        ensures
            !r.enable_high_accuracy,
            r.maximum_age == 0,
            r.timeout == u64::MAX,
    {
        PositionOptions { enable_high_accuracy: false, maximum_age: 0, timeout: u64::MAX }
    }
}

/// The ID of a position watcher.
#[derive(Debug, Clone, Copy, PartialEq, Eq, Hash, Structural)]
pub struct WatchId(u64);

impl WatchId {
    /// The watcher ID with a number.
    pub fn from_raw(n: u64) -> (r: Self)
        ensures
            r.raw_spec() == n,
    {
        WatchId(n)
    }

    /// The number of the ID.
    pub closed spec fn raw_spec(&self) -> u64 {
        self.0
    }

    /// The number of the ID.
    pub fn raw(&self) -> (r: u64)
        ensures
            r == self.raw_spec(),
    {
        self.0
    }
}

// ── Permissions and watchers ─────────────────────────────────────────────────

/// Whether geolocation is allowed for an origin.
#[derive(Debug, Clone, Copy, PartialEq, Eq, Default, Structural)]
pub enum GeoPermission {
    Granted,
    Denied,
    #[default]
    Prompt,
}

/// The permission state of an origin: what was set, else `Prompt`.
pub open spec fn permission_of(perms: Seq<(Seq<char>, GeoPermission)>, origin: Seq<char>) -> GeoPermission {
    match lookup(perms, origin) {
        Some(p) => p,
        None => GeoPermission::Prompt,
    }
}

/// What a position request from an origin gets: refused unless permission
/// was granted, and unavailable when there is no position to give.
pub open spec fn position_outcome(p: GeoPermission, has_position: bool) -> Option<GeoErrorCode> {
    if p != GeoPermission::Granted {
        Some(GeoErrorCode::PermissionDenied)
    } else if !has_position {
        Some(GeoErrorCode::PositionUnavailable)
    } else {
        None
    }
}

/// The permissions and watchers of a browsing context.
#[derive(Debug)]
pub struct GeolocationService {
    permissions: Vec<(String, GeoPermission)>,
    watchers: Vec<(WatchId, PositionOptions)>,
}

impl Default for GeolocationService {
    fn default() -> (r: Self)
        ensures
            r.wf(),
            r.perms() == Seq::<(Seq<char>, GeoPermission)>::empty(),
            r.watches() == Seq::<WatchId>::empty(),
    {
        Self::new()
    }
}

impl GeolocationService {
    /// The permissions set, by origin.
    pub closed spec fn perms(&self) -> Seq<(Seq<char>, GeoPermission)> {
        self.permissions@.map_values(|e: (String, GeoPermission)| (e.0@, e.1))
    }

    /// The IDs of the active watchers, in the order they began.
    pub closed spec fn watches(&self) -> Seq<WatchId> {
        self.watchers@.map_values(|e: (WatchId, PositionOptions)| e.0)
    }

    /// Each origin and each watcher occurs once.
    pub open spec fn wf(&self) -> bool {
        keys_unique(self.perms()) && self.watches().no_duplicates()
    }

    /// No permissions and no watchers.
    pub fn new() -> (r: Self)
        ensures
            r.wf(),
            r.perms() == Seq::<(Seq<char>, GeoPermission)>::empty(),
            r.watches() == Seq::<WatchId>::empty(),
    {
        let r = GeolocationService { permissions: Vec::new(), watchers: Vec::new() };
        assert(r.perms() =~= Seq::<(Seq<char>, GeoPermission)>::empty());
        assert(r.watches() =~= Seq::<WatchId>::empty());
        r
    }

    fn origin_index(&self, origin: &str) -> (r: Option<usize>)
        ensures
            r matches Some(i) ==> i < self.perms().len() && self.perms()[i as int].0 == origin@,
            r is None ==> !present(self.perms(), origin@),
    {
        let mut i: usize = 0;
        while i < self.permissions.len()
            invariant
                i <= self.permissions@.len(),
                forall|j: int| 0 <= j < i ==> (#[trigger] self.perms()[j]).0 != origin@,
            decreases self.permissions.len() - i,
        {
            if str_eq(self.permissions[i].0.as_str(), origin) {
                return Some(i);
            }
            i += 1;
        }
        None
    }

    /// Sets the permission state of an origin.
    pub fn set_permission(&mut self, origin: &str, permission: GeoPermission)
        requires
            old(self).wf(),
        ensures
            final(self).wf(),
            final(self).watches() == old(self).watches(),
            permission_of(final(self).perms(), origin@) == permission,
            forall|o: Seq<char>| o != origin@ ==> #[trigger] permission_of(final(self).perms(), o) == permission_of(old(self).perms(), o),
    {
        let ghost before = self.perms();
        match self.origin_index(origin) {
            Some(i) => {
                let mut e = self.permissions.remove(i);
                e.1 = permission;
                self.permissions.insert(i, e);
                proof {
                    lemma_update_value(before, i as int, permission);
                    assert(self.perms() =~= before.update(i as int, (before[i as int].0, permission)));
                    assert(self.watches() =~= old(self).watches());
                }
            },
            None => {
                self.permissions.push((origin.to_owned(), permission));
                proof {
                    lemma_push_new(before, origin@, permission);
                    assert(self.perms() =~= before.push((origin@, permission)));
                }
            },
        }
    }

    /// The permission state of an origin; `Prompt` when none was set.
    pub fn get_permission(&self, origin: &str) -> (r: GeoPermission)
        requires
            self.wf(),
        ensures
            r == permission_of(self.perms(), origin@),
    {
        match self.origin_index(origin) {
            Some(i) => {
                proof {
                    lemma_lookup_at(self.perms(), origin@, i as int);
                }
                self.permissions[i].1
            },
            None => {
                proof {
                    lemma_lookup_none(self.perms(), origin@);
                }
                GeoPermission::Prompt
            },
        }
    }

    /// Decides a position request from an origin, given whether a position
    /// is at hand: permission denied unless granted; position unavailable
    /// when there is none.
    pub fn position_access(&self, origin: &str, has_position: bool) -> (r: Result<(), GeoError>)
        requires
            self.wf(),
        ensures
            match position_outcome(permission_of(self.perms(), origin@), has_position) {
                None => r is Ok,
                Some(c) => r matches Err(e) && e.code == c && e.message@ == geo_message(c),
            },
    {
        match self.get_permission(origin) {
            GeoPermission::Granted => {},
            _ => {
                return Err(GeoError::permission_denied());
            },
        }
        if !has_position {
            return Err(GeoError::position_unavailable());
        }
        Ok(())
    }

    fn watch_index(&self, id: WatchId) -> (r: Option<usize>)
        ensures
            r matches Some(i) ==> i < self.watches().len() && self.watches()[i as int] == id,
            r is None ==> !self.watches().contains(id),
    {
        let mut i: usize = 0;
        while i < self.watchers.len()
            invariant
                i <= self.watchers@.len(),
                forall|j: int| 0 <= j < i ==> self.watches()[j] != id,
            decreases self.watchers.len() - i,
        {
            if self.watchers[i].0 == id {
                return Some(i);
            }
            i += 1;
        }
        None
    }

    /// Starts a watcher with a fresh ID from an origin; refused with
    /// permission denied unless permission was granted. A watcher with the
    /// same ID is replaced.
    pub fn watch_position(&mut self, origin: &str, options: PositionOptions, id: WatchId) -> (r: Result<
        WatchId,
        GeoError,
    >)
        requires
            old(self).wf(),
        ensures
            final(self).wf(),
            final(self).perms() == old(self).perms(),
            permission_of(old(self).perms(), origin@) != GeoPermission::Granted ==> (r matches Err(e)
                && e.code == GeoErrorCode::PermissionDenied && e.message@ == geo_message(e.code))
                && final(self).watches() == old(self).watches(),
            permission_of(old(self).perms(), origin@) == GeoPermission::Granted ==> r == Ok::<WatchId, GeoError>(id)
                && final(self).watches() == (if old(self).watches().contains(id) {
                old(self).watches()
            } else {
                old(self).watches().push(id)
            }),
    {
        match self.get_permission(origin) {
            GeoPermission::Granted => {},
            _ => {
                return Err(GeoError::permission_denied());
            },
        }
        match self.watch_index(id) {
            Some(i) => {
                let mut e = self.watchers.remove(i);
                e.1 = options;
                self.watchers.insert(i, e);
                assert(self.watches() =~= old(self).watches());
                assert(self.perms() =~= old(self).perms());
            },
            None => {
                self.watchers.push((id, options));
                assert(self.watches() =~= old(self).watches().push(id));
                assert(self.perms() =~= old(self).perms());
            },
        }
        Ok(id)
    }

    /// Stops a watcher; false when no watcher has the ID.
    pub fn clear_watch(&mut self, id: WatchId) -> (r: bool)
        requires
            old(self).wf(),
        ensures
            final(self).wf(),
            final(self).perms() == old(self).perms(),
            r == old(self).watches().contains(id),
            !r ==> final(self).watches() == old(self).watches(),
            r ==> exists|k: int| 0 <= k < old(self).watches().len() && old(self).watches()[k] == id
                && final(self).watches() == old(self).watches().remove(k),
            !final(self).watches().contains(id),
    {
        let ghost before = self.watches();
        match self.watch_index(id) {
            Some(i) => {
                self.watchers.remove(i);
                proof {
                    assert(self.watches() =~= before.remove(i as int));
                    assert(self.perms() =~= old(self).perms());
                    assert(self.watches().no_duplicates()) by {
                        assert forall|a: int, b: int| 0 <= a < b < self.watches().len() implies self.watches()[a] != self.watches()[b] by {
                            let a2 = if a < i { a } else { a + 1 };
                            let b2 = if b < i { b } else { b + 1 };
                            assert(before[a2] != before[b2]);
                        }
                    }
                    if self.watches().contains(id) {
                        let c = choose|c: int| 0 <= c < self.watches().len() && self.watches()[c] == id;
                        let c2 = if c < i { c } else { c + 1 };
                        assert(before[c2] == before[i as int]);
                    }
                }
                true
            },
            None => false,
        }
    }

    /// The number of active watchers.
    pub fn watcher_count(&self) -> (r: usize)
        ensures
            r == self.watches().len(),
    {
        self.watchers.len()
    }
}

} // verus!
