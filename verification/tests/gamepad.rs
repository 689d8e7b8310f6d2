use vex_browser::gamepad::{GamepadMappingType, GamepadSlots, StandardButton};

#[test]
fn standard_button_indices() {
    assert_eq!(StandardButton::A.index(), 0);
    assert_eq!(StandardButton::Home.index(), 16);
    assert_eq!(StandardButton::DPadRight.index(), 15);
}

#[test]
fn gamepad_mapping_type_str() {
    assert_eq!(GamepadMappingType::Standard.as_str(), "standard");
    assert_eq!(GamepadMappingType::NoMapping.as_str(), "");
}

#[test]
fn all_button_indices() {
    let all = [
        StandardButton::A, StandardButton::B, StandardButton::X, StandardButton::Y,
        StandardButton::LeftBumper, StandardButton::RightBumper, StandardButton::LeftTrigger,
        StandardButton::RightTrigger, StandardButton::Select, StandardButton::Start,
        StandardButton::LeftStick, StandardButton::RightStick, StandardButton::DPadUp,
        StandardButton::DPadDown, StandardButton::DPadLeft, StandardButton::DPadRight,
        StandardButton::Home,
    ];
    for (i, b) in all.iter().enumerate() {
        assert_eq!(b.index(), i);
    }
    assert_eq!(GamepadMappingType::default(), GamepadMappingType::Standard);
}

#[test]
fn slots_hand_out_indices_and_track_connections() {
    let mut slots = GamepadSlots::new();
    assert_eq!(slots.connected_slots(), vec![]);
    let a = slots.connect();
    let b = slots.connect();
    assert_eq!((a, b), (0, 1));
    assert!(slots.is_connected(a));
    assert!(slots.disconnect(a));
    assert!(!slots.disconnect(7));
    assert!(!slots.is_connected(a));
    assert!(slots.is_connected(b));
    assert_eq!(slots.connected_slots(), vec![None, Some(1)]);
    assert_eq!(slots.connect(), 2);
    assert_eq!(slots.next_index(), 3);
}
