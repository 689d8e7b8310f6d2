use vex_browser::event_handler::{default_form_click, FormInput, InputKind};
use vex_browser::node::VexId;

fn input(id: u32, kind: InputKind, name: &str, checked: bool) -> FormInput {
    FormInput { id: VexId(id), kind, name: name.to_string(), checked }
}

#[test]
fn checkbox_click_flips_its_state() {
    let inputs = vec![input(1, InputKind::Checkbox, "agree", false), input(2, InputKind::Checkbox, "agree", true)];
    assert_eq!(default_form_click(&inputs, 0), Some(vec![(VexId(1), true)]));
    assert_eq!(default_form_click(&inputs, 1), Some(vec![(VexId(2), false)]));
}

#[test]
fn radio_click_selects_within_its_group() {
    let inputs = vec![
        input(1, InputKind::Radio, "size", true),
        input(2, InputKind::Radio, "color", true),
        input(3, InputKind::Checkbox, "size", false),
        input(4, InputKind::Radio, "size", false),
        input(5, InputKind::Radio, "size", false),
    ];
    assert_eq!(
        default_form_click(&inputs, 3),
        Some(vec![(VexId(1), false), (VexId(4), true), (VexId(5), false)])
    );
    assert_eq!(default_form_click(&inputs, 1), Some(vec![(VexId(2), true)]));
}

#[test]
fn other_targets_have_no_default_action() {
    let inputs = vec![input(1, InputKind::Other, "q", false)];
    assert_eq!(default_form_click(&inputs, 0), None);
    assert_eq!(default_form_click(&inputs, 5), None);
}
