use vex_browser::abort_controller::{AbortController, AbortReason, AbortSignal};

#[test]
fn controller_not_aborted() {
    let ctrl = AbortController::new();
    let signal = ctrl.signal();
    assert!(!signal.aborted());
    assert!(signal.reason().is_none());
}

#[test]
fn controller_abort() {
    let ctrl = AbortController::new();
    let signal = ctrl.signal();
    ctrl.abort();
    assert!(signal.aborted());
}

#[test]
fn signal_abort_static() {
    let signal = AbortSignal::abort();
    assert!(signal.aborted());
    assert_eq!(signal.reason(), Some(AbortReason::Default));
}

#[test]
fn signal_abort_with_reason() {
    let signal = AbortSignal::abort_with(AbortReason::Custom("cancelled".to_string()));
    assert!(signal.aborted());
    assert_eq!(
        signal.reason(),
        Some(AbortReason::Custom("cancelled".to_string()))
    );
}

#[test]
fn signal_throw_if_aborted() {
    let signal = AbortSignal::abort();
    assert!(signal.throw_if_aborted().is_err());

    let ctrl = AbortController::new();
    let signal2 = ctrl.signal();
    assert!(signal2.throw_if_aborted().is_ok());
}

#[test]
fn signal_any() {
    let ctrl1 = AbortController::new();
    let ctrl2 = AbortController::new();
    let s1 = ctrl1.signal();
    let s2 = ctrl2.signal();

    let combined = AbortSignal::any(&[&s1, &s2]);
    assert!(!combined.aborted());

    ctrl1.abort();
    let combined2 = AbortSignal::any(&[&ctrl1.signal(), &s2]);
    assert!(combined2.aborted());
}

#[test]
fn signal_timeout() {
    let signal = AbortSignal::timeout(5000);
    assert!(!signal.aborted());
    assert_eq!(signal.reason(), None);
}

#[test]
fn abort_reason_display() {
    assert_eq!(
        AbortReason::Default.message(),
        "AbortError: The operation was aborted."
    );
    assert_eq!(
        AbortReason::Timeout(5000).message(),
        "TimeoutError: The operation timed out after 5000ms."
    );
}

#[test]
fn multiple_signals_from_controller() {
    let ctrl = AbortController::new();
    let s1 = ctrl.signal();
    let s2 = ctrl.signal();
    ctrl.abort();
    assert!(s1.aborted());
    assert!(s2.aborted());
}

#[test]
fn plain_abort_reports_the_default_reason() {
    let ctrl = AbortController::new();
    let s = ctrl.signal();
    ctrl.abort();
    assert!(s.aborted());
    assert_eq!(s.throw_if_aborted(), Err(AbortReason::Default));
    ctrl.abort_with_reason(AbortReason::Custom("x".to_string()));
    assert_eq!(s.reason(), Some(AbortReason::Default));
}

#[test]
fn any_takes_first_aborted_reason() {
    let a = AbortSignal::timeout(10);
    let b = AbortSignal::abort_with(AbortReason::Custom("b".to_string()));
    let c = AbortSignal::abort_with(AbortReason::Custom("c".to_string()));
    let s = AbortSignal::any(&[&a, &b, &c]);
    assert_eq!(s.reason(), Some(AbortReason::Custom("b".to_string())));
}

#[test]
fn custom_reason_message_is_text() {
    assert_eq!(AbortReason::Custom("stop".to_string()).message(), "stop");
}

#[test]
fn controller_abort_with_custom_reason() {
    let ctrl = AbortController::new();
    let s = ctrl.signal();
    ctrl.abort_with_reason(AbortReason::Custom("cancelled".into()));
    assert!(s.aborted());
    assert_eq!(s.reason(), Some(AbortReason::Custom("cancelled".into())));
    assert_eq!(s.throw_if_aborted(), Err(AbortReason::Custom("cancelled".into())));
    ctrl.abort();
    assert_eq!(s.reason(), Some(AbortReason::Custom("cancelled".into())));
}

#[test]
fn combined_signal_follows_a_later_abort() {
    let ctrl = AbortController::new();
    let other = AbortController::new();
    let s = ctrl.signal();
    let t = other.signal();
    let fixed = AbortSignal::timeout(10);
    let c = AbortSignal::any(&[&fixed, &s, &t]);
    assert!(!c.aborted());
    other.abort_with_reason(AbortReason::Timeout(3));
    assert!(c.aborted());
    assert_eq!(c.reason(), Some(AbortReason::Timeout(3)));
    let again = AbortSignal::any(&[&s, &t]);
    assert_eq!(again.reason(), Some(AbortReason::Timeout(3)));
}
