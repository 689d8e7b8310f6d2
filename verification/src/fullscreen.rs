//! The Fullscreen API (a stack of fullscreen elements, an allowlist and
//! change listeners) and the Screen Orientation API.
use vstd::prelude::*;
use crate::node::VexId;
use crate::text::str_eq;

verus! {

// ── Types ────────────────────────────────────────────────────────────────────

/// Why a fullscreen request failed.
#[derive(Debug, Clone, PartialEq, Eq, Structural)]
pub enum FullscreenError {
    /// The element may not go fullscreen.
    NotAllowed,
    /// The element already is the fullscreen element.
    AlreadyFullscreen,
    /// The element was not found.
    ElementNotFound,
    /// Fullscreen is not supported.
    NotSupported,
}

/// The text that describes a fullscreen error.
pub open spec fn fullscreen_error_text(e: FullscreenError) -> Seq<char> {
    match e {
        FullscreenError::NotAllowed => "Fullscreen request not allowed"@,
        FullscreenError::AlreadyFullscreen => "Already in fullscreen mode"@,
        FullscreenError::ElementNotFound => "Element not found"@,
        FullscreenError::NotSupported => "Fullscreen not supported"@,
    }
}

impl FullscreenError {
    /// The text that describes the error.
    pub fn message(&self) -> (r: String)
        ensures
            r@ == fullscreen_error_text(*self),
    {
        match self {
            FullscreenError::NotAllowed => String::from_str("Fullscreen request not allowed"),
            FullscreenError::AlreadyFullscreen => String::from_str("Already in fullscreen mode"),
            FullscreenError::ElementNotFound => String::from_str("Element not found"),
            FullscreenError::NotSupported => String::from_str("Fullscreen not supported"),
        }
    }
}

/// Whether navigation UI shows while fullscreen.
#[derive(Debug, Clone, Copy, PartialEq, Eq, Default, Structural)]
pub enum FullscreenNavigationUi {
    /// The user agent decides.
    #[default]
    Auto,
    /// Show navigation UI.
    Show,
    /// Hide navigation UI.
    Hide,
}

/// Options of a fullscreen request.
#[derive(Debug, Clone, Default)]
pub struct FullscreenOptions {
    pub navigation_ui: FullscreenNavigationUi,
}

/// What fullscreen listeners are told.
#[derive(Debug, Clone, PartialEq, Eq)]
pub enum FullscreenEvent {
    /// The fullscreen element changed (to none, when fullscreen ended).
    Change { element: Option<VexId> },
    /// A request failed.
    Error { message: String },
}

/// Something that listens for fullscreen events; every
/// `Fn(FullscreenEvent)` closure is one.
pub trait FullscreenListener {
    /// Called with each fullscreen event.
    fn on_fullscreen_event(&self, event: FullscreenEvent);
}

impl<F: Fn(FullscreenEvent)> FullscreenListener for F {
    fn on_fullscreen_event(&self, event: FullscreenEvent) {
        call_fullscreen_closure(self, event)
    }
}

/// Calls a closure with an event; what the closure does is up to it.
#[verifier::external_body]
fn call_fullscreen_closure<F: Fn(FullscreenEvent)>(f: &F, event: FullscreenEvent) {
    f(event)
}

/// A listener for fullscreen events.
pub type FullscreenCallback = Box<dyn FullscreenListener>;

// ── FullscreenManager ────────────────────────────────────────────────────────

/// The state of a fullscreen manager, listeners aside.
pub struct FullscreenView {
    /// Fullscreen elements, the topmost last.
    pub stack: Seq<VexId>,
    pub supported: bool,
    /// Elements that may go fullscreen; all may when it is empty.
    pub allowlist: Seq<VexId>,
}

/// The fullscreen state of a document.
pub struct FullscreenManager {
    stack: Vec<VexId>,
    supported: bool,
    allowlist: Vec<VexId>,
    callbacks: Vec<FullscreenCallback>,
}

impl View for FullscreenManager {
    type V = FullscreenView;

    closed spec fn view(&self) -> FullscreenView {
        FullscreenView { stack: self.stack@, supported: self.supported, allowlist: self.allowlist@ }
    }
}

/// What a fullscreen request for an element gets: refused when fullscreen
/// is unsupported, when an allowlist leaves the element out, or when the
/// element already is the fullscreen element.
pub open spec fn request_outcome(v: FullscreenView, element: VexId) -> Result<(), FullscreenError> {
    if !v.supported {
        Err(FullscreenError::NotSupported)
    } else if v.allowlist.len() > 0 && !v.allowlist.contains(element) {
        Err(FullscreenError::NotAllowed)
    } else if v.stack.len() > 0 && v.stack.last() == element {
        Err(FullscreenError::AlreadyFullscreen)
    } else {
        Ok(())
    }
}

impl FullscreenManager {
    /// No element is allowed twice.
    pub open spec fn wf(&self) -> bool {
        self@.allowlist.no_duplicates()
    }

    /// A manager with no fullscreen element, no allowlist and no listeners.
    pub fn new(supported: bool) -> (r: Self)
        ensures
            r.wf(),
            r@.stack == Seq::<VexId>::empty(),
            r@.supported == supported,
            r@.allowlist == Seq::<VexId>::empty(),
    {
        FullscreenManager {
            stack: Vec::new(),
            supported,
            allowlist: Vec::new(),
            callbacks: Vec::new(),
        }
    }

    /// Whether fullscreen is available.
    pub fn fullscreen_enabled(&self) -> (r: bool)
        ensures
            r == self@.supported,
    {
        self.supported
    }

    /// The fullscreen element: the top of the stack.
    pub fn fullscreen_element(&self) -> (r: Option<VexId>)
        ensures
            r == (if self@.stack.len() > 0 {
                Some(self@.stack.last())
            } else {
                None::<VexId>
            }),
    {
        let n = self.stack.len();
        if n > 0 {
            Some(self.stack[n - 1])
        } else {
            None
        }
    }

    /// Whether some element is fullscreen.
    pub fn is_fullscreen(&self) -> (r: bool)
        ensures
            r == (self@.stack.len() > 0),
    {
        self.stack.len() > 0
    }

    fn allows(&self, id: VexId) -> (r: bool)
        ensures
            r == self@.allowlist.contains(id),
    {
        let mut i: usize = 0;
        while i < self.allowlist.len()
            invariant
                i <= self.allowlist@.len(),
                forall|j: int| 0 <= j < i ==> self.allowlist@[j] != id,
            decreases self.allowlist.len() - i,
        {
            if self.allowlist[i] == id {
                return true;
            }
            i += 1;
        }
        false
    }

    /// Adds an element to the allowlist, once.
    pub fn allow_element(&mut self, id: VexId)
        requires
            old(self).wf(),
        ensures
            final(self).wf(),
            final(self)@.stack == old(self)@.stack,
            final(self)@.supported == old(self)@.supported,
            final(self)@.allowlist == (if old(self)@.allowlist.contains(id) {
                old(self)@.allowlist
            } else {
                old(self)@.allowlist.push(id)
            }),
    {
        if !self.allows(id) {
            self.allowlist.push(id);
            assert(self@.allowlist.no_duplicates()) by {
                assert(forall|j: int| 0 <= j < old(self)@.allowlist.len() ==> self@.allowlist[j] == old(self)@.allowlist[j]);
            }
        }
    }

    /// Registers a listener for fullscreen events.
    pub fn on_change(&mut self, callback: FullscreenCallback)
        ensures
            final(self)@ == old(self)@,
    {
        self.callbacks.push(callback);
    }

    fn fire(&self, event: FullscreenEvent) {
        let mut k: usize = 0;
        while k < self.callbacks.len()
            invariant
                k <= self.callbacks@.len(),
            decreases self.callbacks.len() - k,
        {
            self.callbacks[k].on_fullscreen_event(event.clone());
            k += 1;
        }
    }

    fn fire_change(&self) {
        let element = self.fullscreen_element();
        self.fire(FullscreenEvent::Change { element });
    }

    fn fire_error(&self, message: &str) {
        self.fire(FullscreenEvent::Error { message: String::from_str(message) });
    }

    /// Requests fullscreen for an element, which goes on top of the stack;
    /// listeners hear of the change, or of the error where fullscreen is
    /// unsupported or the element is not allowed.
    pub fn request_fullscreen(&mut self, element: VexId, _options: FullscreenOptions) -> (r: Result<
        (),
        FullscreenError,
    >)
        requires
            old(self).wf(),
        ensures
            final(self).wf(),
            r == request_outcome(old(self)@, element),
            final(self)@.supported == old(self)@.supported,
            final(self)@.allowlist == old(self)@.allowlist,
            final(self)@.stack == (if r is Ok {
                old(self)@.stack.push(element)
            } else {
                old(self)@.stack
            }),
    {
        if !self.supported {
            self.fire_error("Fullscreen not supported");
            return Err(FullscreenError::NotSupported);
        }
        if self.allowlist.len() > 0 && !self.allows(element) {
            self.fire_error("Element not allowed fullscreen");
            return Err(FullscreenError::NotAllowed);
        }
        let n = self.stack.len();
        if n > 0 && self.stack[n - 1] == element {
            return Err(FullscreenError::AlreadyFullscreen);
        }
        self.stack.push(element);
        self.fire_change();
        Ok(())
    }

    /// Leaves fullscreen for the top element; nothing happens when no
    /// element is fullscreen. Always succeeds.
    pub fn exit_fullscreen(&mut self) -> (r: Result<(), FullscreenError>)
        requires
            old(self).wf(),
        ensures
            final(self).wf(),
            r is Ok,
            final(self)@.supported == old(self)@.supported,
            final(self)@.allowlist == old(self)@.allowlist,
            final(self)@.stack == (if old(self)@.stack.len() > 0 {
                old(self)@.stack.drop_last()
            } else {
                old(self)@.stack
            }),
    {
        if self.stack.len() == 0 {
            return Ok(());
        }
        self.stack.pop();
        self.fire_change();
        Ok(())
    }

    /// Leaves fullscreen altogether.
    pub fn fully_exit_fullscreen(&mut self)
        requires
            old(self).wf(),
        ensures
            final(self).wf(),
            final(self)@.supported == old(self)@.supported,
            final(self)@.allowlist == old(self)@.allowlist,
            final(self)@.stack == Seq::<VexId>::empty(),
    {
        if self.stack.len() > 0 {
            self.stack.clear();
            self.fire_change();
        }
        assert(self@.stack =~= Seq::<VexId>::empty());
    }
}

/// A granted request puts the element on top, and leaving fullscreen
/// right after gives back the stack as it was.
pub proof fn law_request_then_exit(v: FullscreenView, element: VexId)
    requires
        request_outcome(v, element) is Ok,
    ensures
        v.stack.push(element).drop_last() == v.stack,
        v.stack.push(element).last() == element,
{
    assert(v.stack.push(element).drop_last() =~= v.stack);
}

// ── Screen orientation ───────────────────────────────────────────────────────

/// The orientation of the screen.
#[derive(Debug, Clone, Copy, PartialEq, Eq, Hash, Default, Structural)]
pub enum OrientationType {
    #[default]
    PortraitPrimary,
    PortraitSecondary,
    LandscapePrimary,
    LandscapeSecondary,
}

/// The name of an orientation.
pub open spec fn orientation_label(o: OrientationType) -> Seq<char> {
    match o {
        OrientationType::PortraitPrimary => "portrait-primary"@,
        OrientationType::PortraitSecondary => "portrait-secondary"@,
        OrientationType::LandscapePrimary => "landscape-primary"@,
        OrientationType::LandscapeSecondary => "landscape-secondary"@,
    }
}

/// Whether an orientation is a portrait one.
pub open spec fn is_portrait_spec(o: OrientationType) -> bool {
    o == OrientationType::PortraitPrimary || o == OrientationType::PortraitSecondary
}

/// The angle of an orientation in degrees.
pub open spec fn orientation_angle(o: OrientationType) -> u16 {
    match o {
        OrientationType::PortraitPrimary => 0,
        OrientationType::LandscapePrimary => 90,
        OrientationType::PortraitSecondary => 180,
        OrientationType::LandscapeSecondary => 270,
    }
}

impl OrientationType {
    /// The name of the orientation.
    pub fn as_str(&self) -> (r: &'static str)
        ensures
            r@ == orientation_label(*self),
    {
        match self {
            OrientationType::PortraitPrimary => "portrait-primary",
            OrientationType::PortraitSecondary => "portrait-secondary",
            OrientationType::LandscapePrimary => "landscape-primary",
            OrientationType::LandscapeSecondary => "landscape-secondary",
        }
    }

    /// The orientation with a name, if any.
    pub fn from_label(s: &str) -> (r: Option<Self>)
        ensures
            r matches Some(o) ==> orientation_label(o) == s@,
            r is None ==> forall|o: OrientationType| orientation_label(o) != s@,
    {
        if str_eq(s, "portrait-primary") {
            Some(OrientationType::PortraitPrimary)
        } else if str_eq(s, "portrait-secondary") {
            Some(OrientationType::PortraitSecondary)
        } else if str_eq(s, "landscape-primary") {
            Some(OrientationType::LandscapePrimary)
        } else if str_eq(s, "landscape-secondary") {
            Some(OrientationType::LandscapeSecondary)
        } else {
            proof {
                assert forall|o: OrientationType| orientation_label(o) != s@ by {
                    match o {
                        OrientationType::PortraitPrimary => {},
                        OrientationType::PortraitSecondary => {},
                        OrientationType::LandscapePrimary => {},
                        OrientationType::LandscapeSecondary => {},
                    }
                }
            }
            None
        }
    }

    /// Whether the orientation is a portrait one.
    pub fn is_portrait(&self) -> (r: bool)
        ensures
            r == is_portrait_spec(*self),
    {
        match self {
            OrientationType::PortraitPrimary | OrientationType::PortraitSecondary => true,
            _ => false,
        }
    }

    /// Whether the orientation is a landscape one.
    pub fn is_landscape(&self) -> (r: bool)
        ensures
            r == !is_portrait_spec(*self),
    {
        !self.is_portrait()
    }

    /// The angle of the orientation in degrees.
    pub fn angle(&self) -> (r: u16)
        ensures
            r == orientation_angle(*self),
    {
        match self {
            OrientationType::PortraitPrimary => 0,
            OrientationType::LandscapePrimary => 90,
            OrientationType::PortraitSecondary => 180,
            OrientationType::LandscapeSecondary => 270,
        }
    }
}

/// What an orientation lock holds the screen to.
#[derive(Debug, Clone, Copy, PartialEq, Eq, Structural)]
pub enum OrientationLock {
    Any,
    Natural,
    Landscape,
    Portrait,
    PortraitPrimary,
    PortraitSecondary,
    LandscapePrimary,
    LandscapeSecondary,
}

/// Whether a lock lets the screen have an orientation.
pub open spec fn lock_allows(lock: OrientationLock, o: OrientationType) -> bool {
    match lock {
        OrientationLock::Any | OrientationLock::Natural => true,
        OrientationLock::Landscape => !is_portrait_spec(o),
        OrientationLock::Portrait => is_portrait_spec(o),
        OrientationLock::PortraitPrimary => o == OrientationType::PortraitPrimary,
        OrientationLock::PortraitSecondary => o == OrientationType::PortraitSecondary,
        OrientationLock::LandscapePrimary => o == OrientationType::LandscapePrimary,
        OrientationLock::LandscapeSecondary => o == OrientationType::LandscapeSecondary,
    }
}

fn allows_orientation(lock: OrientationLock, o: OrientationType) -> (r: bool)
    ensures
        r == lock_allows(lock, o),
{
    match lock {
        OrientationLock::Any | OrientationLock::Natural => true,
        OrientationLock::Landscape => o.is_landscape(),
        OrientationLock::Portrait => o.is_portrait(),
        OrientationLock::PortraitPrimary => o == OrientationType::PortraitPrimary,
        OrientationLock::PortraitSecondary => o == OrientationType::PortraitSecondary,
        OrientationLock::LandscapePrimary => o == OrientationType::LandscapePrimary,
        OrientationLock::LandscapeSecondary => o == OrientationType::LandscapeSecondary,
    }
}

/// The state of the screen orientation.
pub struct OrientationView {
    pub current: OrientationType,
    pub locked: Option<OrientationLock>,
}

/// The screen's orientation and its lock.
#[derive(Debug)]
pub struct ScreenOrientation {
    current: OrientationType,
    locked: Option<OrientationLock>,
}

impl View for ScreenOrientation {
    type V = OrientationView;

    closed spec fn view(&self) -> OrientationView {
        OrientationView { current: self.current, locked: self.locked }
    }
}

impl Default for ScreenOrientation {
    fn default() -> (r: Self)
        ensures
            r@.current == OrientationType::LandscapePrimary,
            r@.locked is None,
    {
        Self::new(OrientationType::LandscapePrimary)
    }
}

/// The orientation after the system reports one: kept when a lock does
/// not allow it.
pub open spec fn next_orientation(v: OrientationView, o: OrientationType) -> OrientationType {
    match v.locked {
        Some(lock) => if lock_allows(lock, o) {
            o
        } else {
            v.current
        },
        None => o,
    }
}

impl ScreenOrientation {
    /// An unlocked screen in an orientation.
    pub fn new(initial: OrientationType) -> (r: Self)
        ensures
            r@.current == initial,
            r@.locked is None,
    {
        ScreenOrientation { current: initial, locked: None }
    }

    /// The current orientation.
    pub fn orientation_type(&self) -> (r: OrientationType)
        ensures
            r == self@.current,
    {
        self.current
    }

    /// The angle of the current orientation.
    pub fn angle(&self) -> (r: u16)
        ensures
            r == orientation_angle(self@.current),
    {
        self.current.angle()
    }

    /// Whether the orientation is locked.
    pub fn is_locked(&self) -> (r: bool)
        ensures
            r == (self@.locked is Some),
    {
        self.locked.is_some()
    }

    /// Locks the orientation; refused when the current orientation is not
    /// one the lock allows.
    pub fn lock(&mut self, target: OrientationLock) -> (r: Result<(), String>)
        ensures
            final(self)@.current == old(self)@.current,
            r is Ok <==> lock_allows(target, old(self)@.current),
            r is Ok ==> final(self)@.locked == Some(target),
            r matches Err(m) ==> m@ == "Current orientation incompatible with lock target"@
                && final(self)@.locked == old(self)@.locked,
    {
        if allows_orientation(target, self.current) {
            self.locked = Some(target);
            Ok(())
        } else {
            Err(String::from_str("Current orientation incompatible with lock target"))
        }
    }

    /// Removes the lock.
    pub fn unlock(&mut self)
        ensures
            final(self)@.current == old(self)@.current,
            final(self)@.locked is None,
    {
        self.locked = None;
    }

    /// The system reports an orientation: taken unless a lock forbids it.
    /// Returns whether the orientation changed.
    pub fn set_orientation(&mut self, orientation: OrientationType) -> (r: bool)
        ensures
            final(self)@.locked == old(self)@.locked,
            final(self)@.current == next_orientation(old(self)@, orientation),
            r == (next_orientation(old(self)@, orientation) != old(self)@.current),
    {
        match self.locked {
            Some(lock) => {
                if !allows_orientation(lock, orientation) {
                    return false;
                }
            },
            None => {},
        }
        if self.current != orientation {
            self.current = orientation;
            true
        } else {
            false
        }
    }
}

/// Under a lock, every orientation the screen takes is one the lock
/// allows, whatever the system reports.
pub proof fn law_lock_is_kept(v: OrientationView, lock: OrientationLock, o: OrientationType)
    requires
        v.locked == Some(lock),
        lock_allows(lock, v.current),
    ensures
        lock_allows(lock, next_orientation(v, o)),
{
}


/// Different orientations have different names, so reading the name of an
/// orientation back gives the orientation.
pub proof fn law_orientation_labels_distinct(a: OrientationType, b: OrientationType)
    ensures
        orientation_label(a) == orientation_label(b) ==> a == b,
{
    reveal_strlit("portrait-primary");
    reveal_strlit("portrait-secondary");
    reveal_strlit("landscape-primary");
    reveal_strlit("landscape-secondary");
    if orientation_label(a) == orientation_label(b) {
        assert(orientation_label(a).len() == orientation_label(b).len());
    }
}

} // verus!
