//! The developer tools: which panel shows, where the tools are docked, and
//! the panels themselves.
use vstd::prelude::*;

pub mod console;
pub mod elements;
pub mod network;
pub mod performance;
pub mod sources;

verus! {

/// The panels of the developer tools.
#[derive(Debug, Clone, Copy, PartialEq, Eq, Hash, Structural)]
pub enum DevToolsPanel {
    /// DOM tree and computed styles.
    Elements,
    /// Console log and REPL.
    Console,
    /// Network requests.
    Network,
    /// Page sources.
    Sources,
    /// Frame timing.
    Performance,
}

/// The label of a panel's tab.
pub open spec fn panel_label(p: DevToolsPanel) -> Seq<char> {
    match p {
        DevToolsPanel::Elements => "Elements"@,
        DevToolsPanel::Console => "Console"@,
        DevToolsPanel::Network => "Network"@,
        DevToolsPanel::Sources => "Sources"@,
        DevToolsPanel::Performance => "Performance"@,
    }
}

impl DevToolsPanel {
    /// The label of the panel's tab.
    pub fn label(self) -> (r: &'static str)
        ensures
            r@ == panel_label(self),
    {
        match self {
            DevToolsPanel::Elements => "Elements",
            DevToolsPanel::Console => "Console",
            DevToolsPanel::Network => "Network",
            DevToolsPanel::Sources => "Sources",
            DevToolsPanel::Performance => "Performance",
        }
    }

    /// All panels, in tab-bar order.
    pub fn all() -> (r: Vec<DevToolsPanel>)
        ensures
            r@ == seq![
                DevToolsPanel::Elements,
                DevToolsPanel::Console,
                DevToolsPanel::Network,
                DevToolsPanel::Sources,
                DevToolsPanel::Performance,
            ],
    {
        let r = vec![
            DevToolsPanel::Elements,
            DevToolsPanel::Console,
            DevToolsPanel::Network,
            DevToolsPanel::Sources,
            DevToolsPanel::Performance,
        ];
        assert(r@ =~= seq![
            DevToolsPanel::Elements,
            DevToolsPanel::Console,
            DevToolsPanel::Network,
            DevToolsPanel::Sources,
            DevToolsPanel::Performance,
        ]);
        r
    }

    /// The panel whose tab is at a position of the tab bar, if any.
    pub fn at(index: usize) -> (r: Option<DevToolsPanel>)
        ensures
            index < 5 ==> r == Some(seq![
                DevToolsPanel::Elements,
                DevToolsPanel::Console,
                DevToolsPanel::Network,
                DevToolsPanel::Sources,
                DevToolsPanel::Performance,
            ][index as int]),
            index >= 5 ==> r is None,
    {
        let all = Self::all();
        if index < all.len() {
            Some(all[index])
        } else {
            None
        }
    }
}

/// Where the developer tools are docked.
#[derive(Debug, Clone, Copy, PartialEq, Eq, Structural)]
pub enum DockPosition {
    /// Below the page.
    Bottom,
    /// Right of the page.
    Right,
}

/// Whether the developer tools are open, which panel is active and where
/// they are docked (their size, in pixels, is the UI's).
#[derive(Debug, Clone, Copy, PartialEq, Eq, Structural)]
pub struct DevToolsState {
    pub open: bool,
    pub active_panel: DevToolsPanel,
    pub dock: DockPosition,
}

impl DevToolsState {
    /// Closed, on the elements panel, docked at the bottom.
    pub fn new() -> (r: Self)
        ensures
            r == (DevToolsState { open: false, active_panel: DevToolsPanel::Elements, dock: DockPosition::Bottom }),
    {
        DevToolsState { open: false, active_panel: DevToolsPanel::Elements, dock: DockPosition::Bottom }
    }

    /// Opens closed tools and closes open ones.
    pub fn toggle(&mut self)
        ensures
            *final(self) == (DevToolsState { open: !old(self).open, ..*old(self) }),
    {
        self.open = !self.open;
    }

    /// Opens the tools.
    pub fn open(&mut self)
        ensures
            *final(self) == (DevToolsState { open: true, ..*old(self) }),
    {
        self.open = true;
    }

    /// Closes the tools.
    pub fn close(&mut self)
        ensures
            *final(self) == (DevToolsState { open: false, ..*old(self) }),
    {
        self.open = false;
    }

    /// Whether the tools are open.
    pub fn is_open(&self) -> (r: bool)
        ensures
            r == self.open,
    {
        self.open
    }

    /// The active panel.
    pub fn active_panel(&self) -> (r: DevToolsPanel)
        ensures
            r == self.active_panel,
    {
        self.active_panel
    }

    /// Switches to a panel.
    pub fn set_panel(&mut self, panel: DevToolsPanel)
        ensures
            *final(self) == (DevToolsState { active_panel: panel, ..*old(self) }),
    {
        self.active_panel = panel;
    }

    /// Where the tools are docked.
    pub fn dock(&self) -> (r: DockPosition)
        ensures
            r == self.dock,
    {
        self.dock
    }

    /// Docks the tools.
    pub fn set_dock(&mut self, dock: DockPosition)
        ensures
            *final(self) == (DevToolsState { dock, ..*old(self) }),
    {
        self.dock = dock;
    }
}

impl Default for DevToolsState {
    fn default() -> (r: Self)
        ensures
            r == (DevToolsState { open: false, active_panel: DevToolsPanel::Elements, dock: DockPosition::Bottom }),
    {
        DevToolsState::new()
    }
}

} // verus!
