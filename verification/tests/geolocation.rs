use vex_browser::geolocation::{
    GeoError, GeoErrorCode, GeoPermission, GeolocationService, PositionOptions, WatchId,
};

const ORIGIN: &str = "https://example.com";

#[test]
fn geo_error_display() {
    let e = GeoError::permission_denied();
    let s = e.describe();
    assert!(s.contains("denied"));
    assert_eq!(s, "GeoError(1): User denied Geolocation permission");
    assert_eq!(GeoError::timeout().describe(), "GeoError(3): Geolocation request timed out");
    assert_eq!(GeoError::position_unavailable().code, GeoErrorCode::PositionUnavailable);
}

#[test]
fn permission_denied_by_default() {
    let geo = GeolocationService::new();
    let result = geo.position_access(ORIGIN, true);
    assert_eq!(result.unwrap_err().code, GeoErrorCode::PermissionDenied);
}

#[test]
fn position_unavailable_no_sim() {
    let mut geo = GeolocationService::new();
    geo.set_permission(ORIGIN, GeoPermission::Granted);
    assert!(geo.position_access(ORIGIN, true).is_ok());
    assert_eq!(geo.position_access(ORIGIN, false).unwrap_err().code, GeoErrorCode::PositionUnavailable);
}

#[test]
fn watch_position() {
    let mut geo = GeolocationService::new();
    geo.set_permission(ORIGIN, GeoPermission::Granted);
    let id = geo.watch_position(ORIGIN, PositionOptions::default(), WatchId::from_raw(7)).unwrap();
    assert_eq!(id.raw(), 7);
    assert_eq!(geo.watcher_count(), 1);
    assert!(geo.clear_watch(id));
    assert_eq!(geo.watcher_count(), 0);
}

#[test]
fn watch_denied() {
    let mut geo = GeolocationService::new();
    let result = geo.watch_position(ORIGIN, PositionOptions::default(), WatchId::from_raw(1));
    assert!(result.is_err());
    assert_eq!(geo.watcher_count(), 0);
    geo.set_permission(ORIGIN, GeoPermission::Denied);
    assert!(geo.watch_position(ORIGIN, PositionOptions::default(), WatchId::from_raw(1)).is_err());
}

#[test]
fn clear_nonexistent_watch() {
    let mut geo = GeolocationService::new();
    assert!(!geo.clear_watch(WatchId::from_raw(42)));
}

#[test]
fn per_origin_permissions() {
    let mut geo = GeolocationService::new();
    geo.set_permission("https://a.com", GeoPermission::Granted);
    geo.set_permission("https://b.com", GeoPermission::Denied);
    assert_eq!(geo.get_permission("https://a.com"), GeoPermission::Granted);
    assert_eq!(geo.get_permission("https://b.com"), GeoPermission::Denied);
    assert_eq!(geo.get_permission("https://c.com"), GeoPermission::Prompt);
    geo.set_permission("https://a.com", GeoPermission::Denied);
    assert_eq!(geo.get_permission("https://a.com"), GeoPermission::Denied);
}

#[test]
fn default_options() {
    let o = PositionOptions::default();
    assert!(!o.enable_high_accuracy);
    assert_eq!(o.maximum_age, 0);
    assert_eq!(o.timeout, u64::MAX);
}
