use vex_browser::extensions::action::{ActionBar, ActionClick, BrowserAction};

#[test]
fn browser_action_defaults() {
    let action = BrowserAction::new("ext1".into(), "My Ext".into(), true);
    assert_eq!(action.extension_id, "ext1");
    assert_eq!(action.title, "My Ext");
    assert!(action.enabled);
    assert!(action.has_popup);
    assert!(!action.has_badge());
    assert!(action.popup_source().is_none());
    assert_eq!(action.badge_color, "#4285f4");
}

#[test]
fn set_badge_text_truncates() {
    let mut action = BrowserAction::new("ext1".into(), "Ext".into(), false);
    action.set_badge_text("12345");
    assert_eq!(action.badge_text, "1234");
    assert!(action.has_badge());
}

#[test]
fn set_badge_text_short_kept_whole() {
    let mut action = BrowserAction::new("ext1".into(), "Ext".into(), false);
    action.set_badge_text("99");
    assert_eq!(action.badge_text, "99");
    action.set_badge_text("");
    assert!(!action.has_badge());
}

#[test]
fn set_badge_color() {
    let mut action = BrowserAction::new("ext1".into(), "Ext".into(), false);
    action.set_badge_color("#ff0000");
    assert_eq!(action.badge_color, "#ff0000");
}

#[test]
fn toggle_popup() {
    let mut action = BrowserAction::new("ext1".into(), "Ext".into(), false);
    assert!(!action.has_popup);

    action.set_popup_source("<html>popup</html>".into());
    assert!(action.has_popup);
    assert_eq!(action.popup_source(), Some("<html>popup</html>"));

    action.remove_popup();
    assert!(!action.has_popup);
    assert!(action.popup_source().is_none());
}

#[test]
fn action_bar_add_remove() {
    let mut bar = ActionBar::new();
    bar.add(BrowserAction::new("ext1".into(), "One".into(), false));
    bar.add(BrowserAction::new("ext2".into(), "Two".into(), true));
    assert_eq!(bar.count(), 2);

    bar.remove("ext1");
    assert_eq!(bar.count(), 1);
    assert_eq!(bar.actions()[0].extension_id, "ext2");
}

#[test]
fn action_bar_get_mut() {
    let mut bar = ActionBar::new();
    bar.add(BrowserAction::new("ext1".into(), "One".into(), false));

    let action = bar.get_mut("ext1").unwrap();
    action.set_title("Updated");
    assert_eq!(bar.actions()[0].title, "Updated");
    assert!(bar.get_mut("missing").is_none());
}

#[test]
fn action_bar_click_with_popup() {
    let mut bar = ActionBar::new();
    bar.add(BrowserAction::new("ext1".into(), "One".into(), true));

    let click = bar.click(0).unwrap();
    assert_eq!(
        click,
        ActionClick {
            extension_id: "ext1".into(),
            show_popup: true,
        }
    );
}

#[test]
fn action_bar_click_without_popup() {
    let mut bar = ActionBar::new();
    bar.add(BrowserAction::new("ext1".into(), "One".into(), false));

    let click = bar.click(0).unwrap();
    assert!(!click.show_popup);
}

#[test]
fn action_bar_click_disabled() {
    let mut bar = ActionBar::new();
    let mut action = BrowserAction::new("ext1".into(), "One".into(), true);
    action.set_enabled(false);
    bar.add(action);

    assert!(bar.click(0).is_none());
}

#[test]
fn action_bar_click_out_of_bounds() {
    let bar = ActionBar::new();
    assert!(bar.click(0).is_none());
}

#[test]
fn set_title_and_enabled() {
    let mut action = BrowserAction::new("ext1".into(), "Old".into(), false);
    action.set_title("New");
    assert_eq!(action.title, "New");

    action.set_enabled(false);
    assert!(!action.enabled);
}
