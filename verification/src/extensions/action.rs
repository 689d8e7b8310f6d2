//! Browser action: toolbar icon, popup and badge for extensions.
use vstd::prelude::*;

use crate::text::{chars_of, str_eq, string_from_chars};

verus! {

/// A browser action instance for a loaded extension.
#[derive(Debug)]
pub struct BrowserAction {
    /// Owning extension ID.
    pub extension_id: String,
    /// Tooltip text shown on hover.
    pub title: String,
    /// Optional badge text (e.g., "3" for blocked ads).
    pub badge_text: String,
    /// Badge background color as CSS hex (e.g., "#ff0000").
    pub badge_color: String,
    /// Whether the action is enabled (clickable).
    pub enabled: bool,
    /// True if a popup is configured.
    pub has_popup: bool,
    /// Popup HTML source (loaded from disk when needed).
    popup_source: Option<String>,
}

/// The abstract state of a browser action.
pub struct ActionView {
    pub extension_id: Seq<char>,
    pub title: Seq<char>,
    pub badge_text: Seq<char>,
    pub badge_color: Seq<char>,
    pub enabled: bool,
    pub has_popup: bool,
    pub popup: Option<Seq<char>>,
}

impl View for BrowserAction {
    type V = ActionView;

    closed spec fn view(&self) -> ActionView {
        ActionView {
            extension_id: self.extension_id@,
            title: self.title@,
            badge_text: self.badge_text@,
            badge_color: self.badge_color@,
            enabled: self.enabled,
            has_popup: self.has_popup,
            popup: match self.popup_source {
                Some(s) => Some(s@),
                None => None,
            },
        }
    }
}

/// The first `n` characters of a sequence (all of it when shorter).
pub open spec fn take_chars(s: Seq<char>, n: nat) -> Seq<char> {
    if s.len() <= n { s } else { s.take(n as int) }
}

impl BrowserAction {
    /// Create a new browser action with default state.
    pub fn new(extension_id: String, title: String, has_popup: bool) -> (a: Self)
        ensures
            a@.extension_id == extension_id@,
            a@.title == title@,
            a@.badge_text == Seq::<char>::empty(),
            a@.badge_color == "#4285f4"@,
            a@.enabled,
            a@.has_popup == has_popup,
            a@.popup is None,
    {
        BrowserAction {
            extension_id,
            title,
            badge_text: String::new(),
            badge_color: "#4285f4".to_owned(),
            enabled: true,
            has_popup,
            popup_source: None,
        }
    }

    /// A copy of this action.
    pub fn copy(&self) -> (a: Self)
        ensures
            a == *self,
    {
        BrowserAction {
            extension_id: self.extension_id.clone(),
            title: self.title.clone(),
            badge_text: self.badge_text.clone(),
            badge_color: self.badge_color.clone(),
            enabled: self.enabled,
            has_popup: self.has_popup,
            popup_source: match &self.popup_source {
                Some(s) => Some(s.clone()),
                None => None,
            },
        }
    }

    /// Set the badge text, keeping at most its first four characters.
    pub fn set_badge_text(&mut self, text: &str)
        ensures
            final(self)@.badge_text == take_chars(text@, 4),
            final(self)@.extension_id == old(self)@.extension_id,
            final(self)@.title == old(self)@.title,
            final(self)@.badge_color == old(self)@.badge_color,
            final(self)@.enabled == old(self)@.enabled,
            final(self)@.has_popup == old(self)@.has_popup,
            final(self)@.popup == old(self)@.popup,
    {
        let chars = chars_of(text);
        let n: usize = if chars.len() < 4 { chars.len() } else { 4 };
        let kept = string_from_chars(&chars.as_slice()[0..n]);
        proof {
            assert(chars@.subrange(0, n as int) =~= take_chars(text@, 4));
        }
        self.badge_text = kept;
    }

    /// Set the badge background color.
    pub fn set_badge_color(&mut self, color: &str)
        ensures
            final(self)@.badge_color == color@,
            final(self)@.extension_id == old(self)@.extension_id,
            final(self)@.title == old(self)@.title,
            final(self)@.badge_text == old(self)@.badge_text,
            final(self)@.enabled == old(self)@.enabled,
            final(self)@.has_popup == old(self)@.has_popup,
            final(self)@.popup == old(self)@.popup,
    {
        self.badge_color = color.to_owned();
    }

    /// Set the tooltip title.
    pub fn set_title(&mut self, title: &str)
        ensures
            final(self)@.title == title@,
            final(self)@.extension_id == old(self)@.extension_id,
            final(self)@.badge_text == old(self)@.badge_text,
            final(self)@.badge_color == old(self)@.badge_color,
            final(self)@.enabled == old(self)@.enabled,
            final(self)@.has_popup == old(self)@.has_popup,
            final(self)@.popup == old(self)@.popup,
    {
        self.title = title.to_owned();
    }

    /// Enable or disable the action.
    pub fn set_enabled(&mut self, enabled: bool)
        ensures
            final(self)@.enabled == enabled,
            final(self)@.extension_id == old(self)@.extension_id,
            final(self)@.title == old(self)@.title,
            final(self)@.badge_text == old(self)@.badge_text,
            final(self)@.badge_color == old(self)@.badge_color,
            final(self)@.has_popup == old(self)@.has_popup,
            final(self)@.popup == old(self)@.popup,
    {
        self.enabled = enabled;
    }

    /// Set the popup HTML source.
    pub fn set_popup_source(&mut self, source: String)
        ensures
            final(self)@.popup == Some(source@),
            final(self)@.has_popup,
            final(self)@.extension_id == old(self)@.extension_id,
            final(self)@.title == old(self)@.title,
            final(self)@.badge_text == old(self)@.badge_text,
            final(self)@.badge_color == old(self)@.badge_color,
            final(self)@.enabled == old(self)@.enabled,
    {
        self.popup_source = Some(source);
        self.has_popup = true;
    }

    /// The popup HTML source, if available.
    pub fn popup_source(&self) -> (r: Option<&str>)
        ensures
            self@.popup is None ==> r is None,
            self@.popup is Some ==> (r is Some && r->0@ == self@.popup->0),
    {
        match &self.popup_source {
            Some(s) => Some(s.as_str()),
            None => None,
        }
    }

    /// Clear the popup; clicks will fire an event instead.
    pub fn remove_popup(&mut self)
        ensures
            final(self)@.popup is None,
            !final(self)@.has_popup,
            final(self)@.extension_id == old(self)@.extension_id,
            final(self)@.title == old(self)@.title,
            final(self)@.badge_text == old(self)@.badge_text,
            final(self)@.badge_color == old(self)@.badge_color,
            final(self)@.enabled == old(self)@.enabled,
    {
        self.popup_source = None;
        self.has_popup = false;
    }

    /// Whether this action has a non-empty badge.
    pub fn has_badge(&self) -> (r: bool)
        ensures
            r == (self@.badge_text.len() > 0),
    {
        !self.badge_text.as_str().is_empty()
    }
}

/// Collects browser actions from all active extensions.
#[derive(Debug, Default)]
pub struct ActionBar {
    actions: Vec<BrowserAction>,
}

/// Result of clicking a browser action.
#[derive(Debug, Clone, PartialEq, Eq)]
pub struct ActionClick {
    /// Extension that owns this action.
    pub extension_id: String,
    /// Whether to show the popup (true) or fire a click event (false).
    pub show_popup: bool,
}

impl View for ActionBar {
    type V = Seq<ActionView>;

    closed spec fn view(&self) -> Seq<ActionView> {
        self.actions@.map_values(|a: BrowserAction| a@)
    }
}

impl ActionBar {
    /// Create an empty action bar.
    pub fn new() -> (b: Self)
        ensures
            b@ == Seq::<ActionView>::empty(),
    {
        ActionBar { actions: Vec::new() }
    }

    /// Add a browser action at the end.
    pub fn add(&mut self, action: BrowserAction)
        ensures
            final(self)@ == old(self)@.push(action@),
    {
        self.actions.push(action);
    }

    /// Remove all actions for an extension, keeping the order of the rest.
    pub fn remove(&mut self, extension_id: &str)
        ensures
            final(self)@ == old(self)@.filter(|a: ActionView| a.extension_id != extension_id@),
    {
        let ghost pred = |a: ActionView| a.extension_id != extension_id@;
        let mut kept: Vec<BrowserAction> = Vec::new();
        let mut old_actions: Vec<BrowserAction> = Vec::new();
        std::mem::swap(&mut old_actions, &mut self.actions);
        let ghost allv = old_actions@.map_values(|a: BrowserAction| a@);
        let mut i: usize = 0;
        while i < old_actions.len()
            invariant
                i <= old_actions@.len(),
                allv == old_actions@.map_values(|a: BrowserAction| a@),
                pred == (|a: ActionView| a.extension_id != extension_id@),
                kept@.map_values(|a: BrowserAction| a@) == allv.take(i as int).filter(pred),
            decreases old_actions.len() - i,
        {
            let keep = !str_eq(old_actions[i].extension_id.as_str(), extension_id);
            let ghost before = kept@;
            assert(allv[i as int] == old_actions@[i as int]@);
            assert(old_actions@[i as int]@.extension_id == old_actions@[i as int].extension_id@);
            assert(keep == (old_actions@[i as int].extension_id@ != extension_id@));
            assert(keep == pred(allv[i as int]));
            if keep {
                kept.push(old_actions[i].copy());
                assert(kept@.map_values(|a: BrowserAction| a@) =~= before.map_values(|a: BrowserAction| a@).push(allv[i as int]));
            }
            assert(allv.take(i + 1).drop_last() =~= allv.take(i as int));
            assert(allv.take(i + 1).last() == allv[i as int]);
            reveal_with_fuel(Seq::filter, 1);
            assert(allv.take(i + 1).filter(pred) == (if pred(allv[i as int]) {
                allv.take(i as int).filter(pred).push(allv[i as int])
            } else {
                allv.take(i as int).filter(pred)
            }));
            i += 1;
        }
        assert(allv.take(allv.len() as int) =~= allv);
        self.actions = kept;
    }

    /// All actions, in the order they were added.
    pub fn actions(&self) -> (r: &[BrowserAction])
        ensures
            r@.map_values(|a: BrowserAction| a@) == self@,
    {
        self.actions.as_slice()
    }

    /// Index of the first action of an extension.
    fn index_of(&self, extension_id: &str) -> (r: Option<usize>)
        ensures
            r matches Some(i) ==> i < self@.len() && self@[i as int].extension_id == extension_id@
                && forall|j: int| 0 <= j < i ==> self@[j].extension_id != extension_id@,
            r is None ==> forall|j: int| 0 <= j < self@.len() ==> self@[j].extension_id != extension_id@,
    {
        let mut i: usize = 0;
        while i < self.actions.len()
            invariant
                i <= self.actions@.len(),
                forall|j: int| 0 <= j < i ==> self.actions@[j].extension_id@ != extension_id@,
            decreases self.actions.len() - i,
        {
            if str_eq(self.actions[i].extension_id.as_str(), extension_id) {
                return Some(i);
            }
            i += 1;
        }
        None
    }

    /// A mutable reference to the first action of an extension.
    pub fn get_mut(&mut self, extension_id: &str) -> (r: Option<&mut BrowserAction>)
        ensures
            r is None ==> final(self)@ == old(self)@ && forall|j: int|
                0 <= j < old(self)@.len() ==> old(self)@[j].extension_id != extension_id@,
            r is Some ==> exists|i: int|
                0 <= i < old(self)@.len() && old(self)@[i].extension_id == extension_id@
                && (forall|j: int| 0 <= j < i ==> old(self)@[j].extension_id != extension_id@)
                && (*r->0)@ == old(self)@[i] && final(self)@ == old(self)@.update(i, (*final(r->0))@),
    {
        match self.index_of(extension_id) {
            Some(i) => Some(&mut self.actions[i]),
            None => None,
        }
    }

    /// Number of actions.
    pub fn count(&self) -> (r: usize)
        ensures
            r == self@.len(),
    {
        self.actions.len()
    }

    /// Handle a click on the action at the given index: the owning extension
    /// and whether a popup should be shown, or `None` for a missing or
    /// disabled action.
    pub fn click(&self, index: usize) -> (r: Option<ActionClick>)
        ensures
            (index >= self@.len() || !self@[index as int].enabled) ==> r is None,
            (index < self@.len() && self@[index as int].enabled) ==> (r is Some && r->0.extension_id@
                == self@[index as int].extension_id && r->0.show_popup == self@[index as int].has_popup),
    {
        if index >= self.actions.len() {
            return None;
        }
        let action = &self.actions[index];
        if !action.enabled {
            return None;
        }
        Some(ActionClick { extension_id: action.extension_id.clone(), show_popup: action.has_popup })
    }
}

} // verus!
