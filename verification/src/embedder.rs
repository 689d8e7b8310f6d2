//! The vocabulary shared by the engine and the browser UI: loading states,
//! cursor shapes, permission kinds, script dialogs, console levels, and the
//! bus that carries commands to the engine and messages back to the UI.
use std::collections::VecDeque;
use vstd::prelude::*;

verus! {

/// How far a page has loaded.
#[derive(Debug, Clone, Copy, PartialEq, Eq, Structural)]
pub enum LoadStatus {
    /// The request started.
    Started,
    /// `<head>` is parsed.
    HeadParsed,
    /// The page and its resources are loaded.
    Complete,
}

/// The text shown for a loading state.
pub open spec fn load_status_text(s: LoadStatus) -> Seq<char> {
    match s {
        LoadStatus::Started => "loading"@,
        LoadStatus::HeadParsed => "head parsed"@,
        LoadStatus::Complete => "complete"@,
    }
}

impl LoadStatus {
    /// The text shown for the state.
    pub fn label(&self) -> (r: &'static str)
        ensures
            r@ == load_status_text(*self),
    {
        match self {
            LoadStatus::Started => "loading",
            LoadStatus::HeadParsed => "head parsed",
            LoadStatus::Complete => "complete",
        }
    }
}

/// Cursor shapes the engine can ask for.
#[derive(Debug, Clone, Copy, PartialEq, Eq, Default, Structural)]
pub enum CursorKind {
    #[default]
    Default,
    Pointer,
    Text,
    Crosshair,
    Move,
    NotAllowed,
    Wait,
    Progress,
    ColResize,
    RowResize,
    NResize,
    SResize,
    EResize,
    WResize,
}

/// What the engine can ask the user's permission for.
#[derive(Debug, Clone, Copy, PartialEq, Eq, Structural)]
pub enum PermissionKind {
    Geolocation,
    Camera,
    Microphone,
    Notifications,
    Clipboard,
}

/// Dialogs that scripts open.
#[derive(Debug, Clone)]
pub enum DialogRequest {
    /// `alert(message)`.
    Alert(String),
    /// `confirm(message)`.
    Confirm(String),
    /// `prompt(message, default)`.
    Prompt(String, Option<String>),
}

/// Console API levels.
#[derive(Debug, Clone, Copy, PartialEq, Eq, Structural)]
pub enum ConsoleLevel {
    Log,
    Info,
    Warn,
    Error,
    Debug,
}

/// The tag shown for a console level.
pub open spec fn console_level_text(l: ConsoleLevel) -> Seq<char> {
    match l {
        ConsoleLevel::Log => "LOG"@,
        ConsoleLevel::Info => "INFO"@,
        ConsoleLevel::Warn => "WARN"@,
        ConsoleLevel::Error => "ERROR"@,
        ConsoleLevel::Debug => "DEBUG"@,
    }
}

impl ConsoleLevel {
    /// The tag shown for the level.
    pub fn label(&self) -> (r: &'static str)
        ensures
            r@ == console_level_text(*self),
    {
        match self {
            ConsoleLevel::Log => "LOG",
            ConsoleLevel::Info => "INFO",
            ConsoleLevel::Warn => "WARN",
            ConsoleLevel::Error => "ERROR",
            ConsoleLevel::Debug => "DEBUG",
        }
    }
}

/// Two first-in first-out queues between the browser UI and the engine:
/// commands (`C`) from the UI to the engine and messages (`M`) from the
/// engine to the UI.
pub struct EmbedderBus<C, M> {
    commands: VecDeque<C>,
    messages: VecDeque<M>,
}

impl<C, M> EmbedderBus<C, M> {
    /// The queued commands, oldest first.
    pub closed spec fn commands(&self) -> Seq<C> {
        self.commands@
    }

    /// The queued messages, oldest first.
    pub closed spec fn messages(&self) -> Seq<M> {
        self.messages@
    }

    /// An empty bus.
    pub fn new() -> (r: Self)
        ensures
            r.commands() == Seq::<C>::empty(),
            r.messages() == Seq::<M>::empty(),
    {
        EmbedderBus { commands: VecDeque::new(), messages: VecDeque::new() }
    }

    /// Queues a command from the UI for the engine.
    pub fn push_command(&mut self, command: C)
        ensures
            final(self).commands() == old(self).commands().push(command),
            final(self).messages() == old(self).messages(),
    {
        self.commands.push_back(command);
    }

    /// Queues a message from the engine for the UI.
    pub fn push_message(&mut self, message: M)
        ensures
            final(self).messages() == old(self).messages().push(message),
            final(self).commands() == old(self).commands(),
    {
        self.messages.push_back(message);
    }

    /// Takes the oldest queued command, if any.
    pub fn pop_command(&mut self) -> (r: Option<C>)
        ensures
            old(self).commands().len() == 0 ==> r is None && final(self).commands() == old(self).commands(),
            old(self).commands().len() > 0 ==> r == Some(old(self).commands()[0])
                && final(self).commands() == old(self).commands().drop_first(),
            final(self).messages() == old(self).messages(),
    {
        let r = self.commands.pop_front();
        assert(old(self).commands().len() > 0 ==> self.commands@ =~= old(self).commands().drop_first());
        r
    }

    /// Takes the oldest queued message, if any.
    pub fn pop_message(&mut self) -> (r: Option<M>)
        ensures
            old(self).messages().len() == 0 ==> r is None && final(self).messages() == old(self).messages(),
            old(self).messages().len() > 0 ==> r == Some(old(self).messages()[0])
                && final(self).messages() == old(self).messages().drop_first(),
            final(self).commands() == old(self).commands(),
    {
        let r = self.messages.pop_front();
        assert(old(self).messages().len() > 0 ==> self.messages@ =~= old(self).messages().drop_first());
        r
    }

    /// Whether a command is queued.
    pub fn has_commands(&self) -> (r: bool)
        ensures
            r == (self.commands().len() > 0),
    {
        self.commands.len() > 0
    }

    /// Whether a message is queued.
    pub fn has_messages(&self) -> (r: bool)
        ensures
            r == (self.messages().len() > 0),
    {
        self.messages.len() > 0
    }

    /// The number of queued commands and messages together.
    pub fn len(&self) -> (r: usize)
        requires
            self.commands().len() + self.messages().len() <= usize::MAX,
        ensures
            r == self.commands().len() + self.messages().len(),
    {
        self.commands.len() + self.messages.len()
    }

    /// Whether nothing is queued.
    pub fn is_empty(&self) -> (r: bool)
        ensures
            r == (self.commands().len() == 0 && self.messages().len() == 0),
    {
        self.commands.len() == 0 && self.messages.len() == 0
    }
}

impl<C, M> Default for EmbedderBus<C, M> {
    fn default() -> (r: Self)
        ensures
            r.commands() == Seq::<C>::empty(),
            r.messages() == Seq::<M>::empty(),
    {
        EmbedderBus::new()
    }
}



} // verus!
