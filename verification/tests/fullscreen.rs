use std::cell::RefCell;
use std::rc::Rc;
use vex_browser::fullscreen::{
    FullscreenError, FullscreenEvent, FullscreenManager, FullscreenOptions, OrientationLock,
    OrientationType, ScreenOrientation,
};
use vex_browser::node::VexId;

#[test]
fn initial_state() {
    let mgr = FullscreenManager::new(true);
    assert!(mgr.fullscreen_enabled());
    assert!(!mgr.is_fullscreen());
    assert_eq!(mgr.fullscreen_element(), None);
}

#[test]
fn request_fullscreen() {
    let mut mgr = FullscreenManager::new(true);
    let elem = VexId::new(1);
    mgr.request_fullscreen(elem, FullscreenOptions::default()).unwrap();
    assert!(mgr.is_fullscreen());
    assert_eq!(mgr.fullscreen_element(), Some(elem));
}

#[test]
fn exit_fullscreen() {
    let mut mgr = FullscreenManager::new(true);
    mgr.request_fullscreen(VexId::new(1), FullscreenOptions::default()).unwrap();
    mgr.exit_fullscreen().unwrap();
    assert!(!mgr.is_fullscreen());
}

#[test]
fn fullscreen_stack() {
    let mut mgr = FullscreenManager::new(true);
    mgr.request_fullscreen(VexId::new(1), FullscreenOptions::default()).unwrap();
    mgr.request_fullscreen(VexId::new(2), FullscreenOptions::default()).unwrap();
    assert_eq!(mgr.fullscreen_element(), Some(VexId::new(2)));
    mgr.exit_fullscreen().unwrap();
    assert_eq!(mgr.fullscreen_element(), Some(VexId::new(1)));
}

#[test]
fn fully_exit_fullscreen() {
    let mut mgr = FullscreenManager::new(true);
    mgr.request_fullscreen(VexId::new(1), FullscreenOptions::default()).unwrap();
    mgr.request_fullscreen(VexId::new(2), FullscreenOptions::default()).unwrap();
    mgr.fully_exit_fullscreen();
    assert!(!mgr.is_fullscreen());
}

#[test]
fn not_supported() {
    let mut mgr = FullscreenManager::new(false);
    let err = mgr.request_fullscreen(VexId::new(1), FullscreenOptions::default()).unwrap_err();
    assert_eq!(err, FullscreenError::NotSupported);
}

#[test]
fn already_fullscreen() {
    let mut mgr = FullscreenManager::new(true);
    let elem = VexId::new(1);
    mgr.request_fullscreen(elem, FullscreenOptions::default()).unwrap();
    let err = mgr.request_fullscreen(elem, FullscreenOptions::default()).unwrap_err();
    assert_eq!(err, FullscreenError::AlreadyFullscreen);
}

#[test]
fn allowlist() {
    let mut mgr = FullscreenManager::new(true);
    mgr.allow_element(VexId::new(1));
    mgr.request_fullscreen(VexId::new(1), FullscreenOptions::default()).unwrap();
    mgr.exit_fullscreen().unwrap();
    let err = mgr.request_fullscreen(VexId::new(2), FullscreenOptions::default()).unwrap_err();
    assert_eq!(err, FullscreenError::NotAllowed);
}

#[test]
fn exit_when_not_fullscreen() {
    let mut mgr = FullscreenManager::new(true);
    mgr.exit_fullscreen().unwrap();
}

#[test]
fn listeners_hear_changes_and_errors() {
    let seen: Rc<RefCell<Vec<FullscreenEvent>>> = Rc::new(RefCell::new(Vec::new()));
    let mut mgr = FullscreenManager::new(true);
    mgr.allow_element(VexId::new(3));
    let s = seen.clone();
    mgr.on_change(Box::new(move |e: FullscreenEvent| s.borrow_mut().push(e)));
    mgr.request_fullscreen(VexId::new(3), FullscreenOptions::default()).unwrap();
    assert!(mgr.request_fullscreen(VexId::new(4), FullscreenOptions::default()).is_err());
    mgr.fully_exit_fullscreen();
    let events = seen.borrow();
    assert_eq!(events.len(), 3);
    assert_eq!(events[0], FullscreenEvent::Change { element: Some(VexId::new(3)) });
    assert_eq!(events[1], FullscreenEvent::Error { message: "Element not allowed fullscreen".to_string() });
    assert_eq!(events[2], FullscreenEvent::Change { element: None });
}

#[test]
fn error_messages() {
    assert_eq!(FullscreenError::NotSupported.message(), "Fullscreen not supported");
    assert_eq!(FullscreenError::NotAllowed.message(), "Fullscreen request not allowed");
    assert_eq!(FullscreenError::AlreadyFullscreen.message(), "Already in fullscreen mode");
    assert_eq!(FullscreenError::ElementNotFound.message(), "Element not found");
}

#[test]
fn orientation_type_properties() {
    assert!(OrientationType::PortraitPrimary.is_portrait());
    assert!(OrientationType::LandscapePrimary.is_landscape());
    assert_eq!(OrientationType::PortraitPrimary.angle(), 0);
    assert_eq!(OrientationType::LandscapePrimary.angle(), 90);
}

#[test]
fn orientation_from_label() {
    assert_eq!(
        OrientationType::from_label("landscape-primary"),
        Some(OrientationType::LandscapePrimary)
    );
    assert_eq!(OrientationType::from_label("invalid"), None);
}

#[test]
fn orientation_labels_round_trip() {
    for o in [
        OrientationType::PortraitPrimary,
        OrientationType::PortraitSecondary,
        OrientationType::LandscapePrimary,
        OrientationType::LandscapeSecondary,
    ] {
        assert_eq!(OrientationType::from_label(o.as_str()), Some(o));
    }
    assert_eq!(OrientationType::PortraitSecondary.angle(), 180);
    assert_eq!(OrientationType::LandscapeSecondary.angle(), 270);
}

#[test]
fn screen_orientation_initial() {
    let so = ScreenOrientation::new(OrientationType::LandscapePrimary);
    assert_eq!(so.orientation_type(), OrientationType::LandscapePrimary);
    assert_eq!(so.angle(), 90);
    assert!(!so.is_locked());
}

#[test]
fn screen_orientation_lock_unlock() {
    let mut so = ScreenOrientation::new(OrientationType::LandscapePrimary);
    so.lock(OrientationLock::Landscape).unwrap();
    assert!(so.is_locked());
    assert!(!so.set_orientation(OrientationType::PortraitPrimary));
    assert_eq!(so.orientation_type(), OrientationType::LandscapePrimary);
    assert!(so.set_orientation(OrientationType::LandscapeSecondary));
    assert_eq!(so.orientation_type(), OrientationType::LandscapeSecondary);
    so.unlock();
    assert!(!so.is_locked());
}

#[test]
fn set_orientation_no_change() {
    let mut so = ScreenOrientation::new(OrientationType::PortraitPrimary);
    assert!(!so.set_orientation(OrientationType::PortraitPrimary));
}

#[test]
fn lock_any_allows_all() {
    let mut so = ScreenOrientation::new(OrientationType::PortraitPrimary);
    so.lock(OrientationLock::Any).unwrap();
    assert!(so.set_orientation(OrientationType::LandscapePrimary));
}

#[test]
fn incompatible_lock_is_refused() {
    let mut so = ScreenOrientation::new(OrientationType::PortraitPrimary);
    let err = so.lock(OrientationLock::Landscape).unwrap_err();
    assert_eq!(err, "Current orientation incompatible with lock target");
    assert!(!so.is_locked());
    assert_eq!(ScreenOrientation::default().orientation_type(), OrientationType::LandscapePrimary);
}
