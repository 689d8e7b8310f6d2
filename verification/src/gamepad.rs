//! The Gamepad API's standard button layout and mapping names. Button
//! values and axes are analog readings, kept by the application.
use std::collections::HashMap;
use vstd::prelude::*;

verus! {

/// The buttons of the standard gamepad layout.
#[derive(Debug, Clone, Copy, PartialEq, Eq, Hash, Structural)]
pub enum StandardButton {
    /// Bottom face button (A / Cross).
    A,
    /// Right face button (B / Circle).
    B,
    /// Left face button (X / Square).
    X,
    /// Top face button (Y / Triangle).
    Y,
    /// Left shoulder.
    LeftBumper,
    /// Right shoulder.
    RightBumper,
    /// Left trigger.
    LeftTrigger,
    /// Right trigger.
    RightTrigger,
    /// Select / Back / Share.
    Select,
    /// Start / Menu.
    Start,
    /// Left stick press.
    LeftStick,
    /// Right stick press.
    RightStick,
    /// D-pad up.
    DPadUp,
    /// D-pad down.
    DPadDown,
    /// D-pad left.
    DPadLeft,
    /// D-pad right.
    DPadRight,
    /// Home / Guide.
    Home,
}

/// The position of a button in the standard layout.
pub open spec fn button_index(b: StandardButton) -> usize {
    match b {
        StandardButton::A => 0,
        StandardButton::B => 1,
        StandardButton::X => 2,
        StandardButton::Y => 3,
        StandardButton::LeftBumper => 4,
        StandardButton::RightBumper => 5,
        StandardButton::LeftTrigger => 6,
        StandardButton::RightTrigger => 7,
        StandardButton::Select => 8,
        StandardButton::Start => 9,
        StandardButton::LeftStick => 10,
        StandardButton::RightStick => 11,
        StandardButton::DPadUp => 12,
        StandardButton::DPadDown => 13,
        StandardButton::DPadLeft => 14,
        StandardButton::DPadRight => 15,
        StandardButton::Home => 16,
    }
}

impl StandardButton {
    /// The position of the button in the standard layout.
    pub fn index(&self) -> (r: usize)
        ensures
            r == button_index(*self),
    {
        match self {
            StandardButton::A => 0,
            StandardButton::B => 1,
            StandardButton::X => 2,
            StandardButton::Y => 3,
            StandardButton::LeftBumper => 4,
            StandardButton::RightBumper => 5,
            StandardButton::LeftTrigger => 6,
            StandardButton::RightTrigger => 7,
            StandardButton::Select => 8,
            StandardButton::Start => 9,
            StandardButton::LeftStick => 10,
            StandardButton::RightStick => 11,
            StandardButton::DPadUp => 12,
            StandardButton::DPadDown => 13,
            StandardButton::DPadLeft => 14,
            StandardButton::DPadRight => 15,
            StandardButton::Home => 16,
        }
    }
}

/// Distinct buttons have distinct positions, all among the 17 of the
/// standard layout.
pub proof fn law_button_indices_distinct(a: StandardButton, b: StandardButton)
    ensures
        button_index(a) < 17,
        a != b ==> button_index(a) != button_index(b),
{
}

/// How a gamepad's buttons are laid out.
#[derive(Debug, Clone, Copy, PartialEq, Eq, Hash, Default, Structural)]
pub enum GamepadMappingType {
    /// The standard layout.
    #[default]
    Standard,
    /// The vendor's own order.
    NoMapping,
}

impl GamepadMappingType {
    /// The mapping's name: `standard`, or empty.
    pub fn as_str(&self) -> (r: &'static str)
        ensures
            r@ == (match *self {
                GamepadMappingType::Standard => "standard"@,
                GamepadMappingType::NoMapping => ""@,
            }),
    {
        match self {
            GamepadMappingType::Standard => "standard",
            GamepadMappingType::NoMapping => "",
        }
    }
}

/// Gamepad events.
#[derive(Debug, Clone, Copy, PartialEq, Eq, Hash, Structural)]
pub enum GamepadEventType {
    Connected,
    Disconnected,
}

/// Which gamepads are connected, by index: each connection gets the next
/// index, and a disconnected gamepad keeps its index, marked disconnected.
#[derive(Debug)]
pub struct GamepadSlots {
    connected: HashMap<u32, bool>,
    next_index: u32,
}

impl GamepadSlots {
    /// The connection state of each index handed out.
    pub closed spec fn slots(&self) -> Map<u32, bool> {
        self.connected@
    }

    /// The index the next gamepad gets.
    pub closed spec fn next_index_spec(&self) -> u32 {
        self.next_index
    }

    /// Exactly the indices below the next one have been handed out.
    pub open spec fn wf(&self) -> bool {
        forall|i: u32| #[trigger] self.slots().contains_key(i) <==> i < self.next_index_spec()
    }

    /// No gamepad yet.
    pub fn new() -> (r: Self)
        ensures
            r.wf(),
            r.slots() == Map::<u32, bool>::empty(),
            r.next_index_spec() == 0,
    {
        GamepadSlots { connected: HashMap::new(), next_index: 0 }
    }

    /// The index the next gamepad gets.
    pub fn next_index(&self) -> (r: u32)
        ensures
            r == self.next_index_spec(),
    {
        self.next_index
    }

    /// Connects a gamepad: it gets the next index, connected.
    pub fn connect(&mut self) -> (r: u32)
        requires
            old(self).wf(),
            old(self).next_index_spec() < u32::MAX,
        ensures
            final(self).wf(),
            r == old(self).next_index_spec(),
            final(self).next_index_spec() == old(self).next_index_spec() + 1,
            final(self).slots() == old(self).slots().insert(r, true),
    {
        broadcast use vstd::std_specs::hash::group_hash_axioms;
        let index = self.next_index;
        self.next_index = self.next_index + 1;
        self.connected.insert(index, true);
        assert forall|i: u32| #[trigger] self.slots().contains_key(i) <==> i < self.next_index_spec() by {
            if i != index {
                assert(old(self).slots().contains_key(i) <==> i < old(self).next_index_spec());
            }
        }
        index
    }

    /// Disconnects the gamepad with an index; whether there was one.
    pub fn disconnect(&mut self, index: u32) -> (r: bool)
        requires
            old(self).wf(),
        ensures
            final(self).wf(),
            r == old(self).slots().contains_key(index),
            final(self).next_index_spec() == old(self).next_index_spec(),
            final(self).slots() == if r {
                old(self).slots().insert(index, false)
            } else {
                old(self).slots()
            },
    {
        broadcast use vstd::std_specs::hash::group_hash_axioms;
        if self.connected.contains_key(&index) {
            self.connected.insert(index, false);
            assert(self.connected@.dom() =~= old(self).slots().dom());
            true
        } else {
            false
        }
    }

    /// Whether the gamepad with an index is connected.
    pub fn is_connected(&self, index: u32) -> (r: bool)
        ensures
            r == (self.slots().contains_key(index) && self.slots()[index]),
    {
        broadcast use vstd::std_specs::hash::group_hash_axioms;
        match self.connected.get(&index) {
            Some(c) => *c,
            None => false,
        }
    }

    /// For each index handed out, in order, the index if its gamepad is
    /// connected, else `None`.
    pub fn connected_slots(&self) -> (r: Vec<Option<u32>>)
        requires
            self.wf(),
        ensures
            r@.len() == self.next_index_spec(),
            forall|i: int| 0 <= i < r@.len() ==> #[trigger] r@[i] == if self.slots()[i as u32] {
                Some(i as u32)
            } else {
                None
            },
    {
        let mut r: Vec<Option<u32>> = Vec::new();
        let mut i: u32 = 0;
        while i < self.next_index
            invariant
                i <= self.next_index,
                self.wf(),
                r@.len() == i,
                forall|k: int| 0 <= k < r@.len() ==> #[trigger] r@[k] == if self.slots()[k as u32] {
                    Some(k as u32)
                } else {
                    None
                },
            decreases self.next_index - i,
        {
            assert(self.slots().contains_key(i));
            if self.is_connected(i) {
                r.push(Some(i));
            } else {
                r.push(None);
            }
            i += 1;
        }
        r
    }
}

impl Default for GamepadSlots {
    fn default() -> (r: Self)
        ensures
            r.wf(),
            r.slots() == Map::<u32, bool>::empty(),
            r.next_index_spec() == 0,
    {
        GamepadSlots::new()
    }
}

} // verus!
