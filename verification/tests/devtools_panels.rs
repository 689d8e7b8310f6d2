use vex_browser::devtools::console::LogLevel;
use vex_browser::devtools::elements::{BoxModelColors, StyleCategory};
use vex_browser::devtools::{DevToolsPanel, DevToolsState, DockPosition};

#[test]
fn panel_labels() {
    assert_eq!(DevToolsPanel::Elements.label(), "Elements");
    assert_eq!(DevToolsPanel::Console.label(), "Console");
    assert_eq!(DevToolsPanel::Network.label(), "Network");
    assert_eq!(DevToolsPanel::Sources.label(), "Sources");
    assert_eq!(DevToolsPanel::Performance.label(), "Performance");
}

#[test]
fn panels_in_tab_order() {
    let all = DevToolsPanel::all();
    assert_eq!(all.len(), 5);
    assert_eq!(all[0], DevToolsPanel::Elements);
    assert_eq!(DevToolsPanel::at(1), Some(DevToolsPanel::Console));
    assert_eq!(DevToolsPanel::at(4), Some(DevToolsPanel::Performance));
    assert_eq!(DevToolsPanel::at(5), None);
    assert_ne!(DockPosition::Bottom, DockPosition::Right);
}

#[test]
fn log_level_labels() {
    assert_eq!(LogLevel::Log.label(), "log");
    assert_eq!(LogLevel::Warn.label(), "warn");
    assert_eq!(LogLevel::Error.label(), "error");
    assert_eq!(LogLevel::System.label(), "system");
    assert_eq!(LogLevel::Info.label(), "info");
    assert_eq!(LogLevel::Debug.label(), "debug");
}

#[test]
fn style_category_labels() {
    assert_eq!(StyleCategory::BoxModel.label(), "Box Model");
    assert_eq!(StyleCategory::Typography.label(), "Typography");
    assert_eq!(StyleCategory::Layout.label(), "Layout");
}

#[test]
fn style_categories_in_display_order() {
    let all = StyleCategory::all();
    assert_eq!(all.len(), 8);
    assert_eq!(all[0], StyleCategory::Layout);
    assert_eq!(all[7], StyleCategory::Visual);
}

#[test]
fn overlay_colors_are_semitransparent() {
    let colors = [
        BoxModelColors::margin(),
        BoxModelColors::border(),
        BoxModelColors::padding(),
        BoxModelColors::content(),
    ];
    for c in &colors {
        assert!(c.a < 255, "overlay color should be semi-transparent: {:?}", c);
    }
    assert_eq!(BoxModelColors::margin().g, 165);
}

#[test]
fn default_state_is_closed() {
    let state = DevToolsState::new();
    assert!(!state.is_open());
    assert_eq!(state.active_panel(), DevToolsPanel::Elements);
    assert_eq!(state.dock(), DockPosition::Bottom);
}

#[test]
fn toggle_opens_and_closes() {
    let mut state = DevToolsState::new();
    state.toggle();
    assert!(state.is_open());
    state.toggle();
    assert!(!state.is_open());
}

#[test]
fn switch_panel() {
    let mut state = DevToolsState::new();
    state.set_panel(DevToolsPanel::Console);
    assert_eq!(state.active_panel(), DevToolsPanel::Console);
}

#[test]
fn dock_position_switching() {
    let mut state = DevToolsState::new();
    assert_eq!(state.dock(), DockPosition::Bottom);
    state.set_dock(DockPosition::Right);
    assert_eq!(state.dock(), DockPosition::Right);
}

#[test]
fn open_and_close_are_idempotent() {
    let mut state = DevToolsState::default();
    state.open();
    state.open();
    assert!(state.is_open());
    state.close();
    state.close();
    assert!(!state.is_open());
}
