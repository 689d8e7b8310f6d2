//! Outcomes of events on page elements: keyboard events on the focused
//! element, and the default action of a click on a checkbox or a radio
//! button.
use vstd::prelude::*;
use crate::node::VexId;
use crate::text::str_eq;

verus! {

/// What a key press on the focused element led to.
#[derive(Debug, Clone, PartialEq, Eq, Structural)]
pub enum KeyResult {
    /// The focused input's value changed.
    InputChanged,
    /// The key was handled without changing a value.
    Handled,
    /// No element has the focus.
    NoFocus,
}

/// The kind of a form input, as a click's default action sees it.
#[derive(Debug, Clone, Copy, PartialEq, Eq, Structural)]
pub enum InputKind {
    Checkbox,
    Radio,
    /// Any other input or element.
    Other,
}

/// A form input of the page, in document order: its node, its kind, its
/// `name` attribute (empty without one) and whether it is checked.
#[derive(Debug, Clone)]
pub struct FormInput {
    pub id: VexId,
    pub kind: InputKind,
    pub name: String,
    pub checked: bool,
}

/// The radio buttons of a group (the same name), in document order, each
/// with its new state: checked exactly when it is the clicked one.
pub open spec fn radio_group(inputs: Seq<FormInput>, name: Seq<char>, clicked: VexId) -> Seq<(VexId, bool)>
    decreases inputs.len(),
{
    if inputs.len() == 0 {
        seq![]
    } else {
        let last = inputs.last();
        radio_group(inputs.drop_last(), name, clicked) + if last.kind == InputKind::Radio && last.name@
            == name {
            seq![(last.id, last.id == clicked)]
        } else {
            seq![]
        }
    }
}

/// The default action of a click on the input at `target`: a checkbox
/// flips its checked state; a radio button is checked and every other radio
/// button with the same name is unchecked. The result lists each input
/// whose state is set, with its new state, in document order; `None` when
/// the target is neither a checkbox nor a radio button.
pub fn default_form_click(inputs: &[FormInput], target: usize) -> (r: Option<Vec<(VexId, bool)>>)
    ensures
        target >= inputs@.len() ==> r is None,
        target < inputs@.len() ==> match inputs@[target as int].kind {
            InputKind::Checkbox => r matches Some(v) && v@ == seq![
                (inputs@[target as int].id, !inputs@[target as int].checked),
            ],
            InputKind::Radio => r matches Some(v) && v@ == radio_group(
                inputs@,
                inputs@[target as int].name@,
                inputs@[target as int].id,
            ),
            InputKind::Other => r is None,
        },
{
    if target >= inputs.len() {
        return None;
    }
    let t = &inputs[target];
    match t.kind {
        InputKind::Checkbox => {
            let mut v: Vec<(VexId, bool)> = Vec::new();
            v.push((t.id, !t.checked));
            assert(v@ =~= seq![(t.id, !t.checked)]);
            Some(v)
        },
        InputKind::Radio => {
            let mut v: Vec<(VexId, bool)> = Vec::new();
            let mut j: usize = 0;
            while j < inputs.len()
                invariant
                    j <= inputs@.len(),
                    target < inputs@.len(),
                    *t == inputs@[target as int],
                    v@ == radio_group(inputs@.take(j as int), t.name@, t.id),
                decreases inputs.len() - j,
            {
                let x = &inputs[j];
                assert(inputs@.take(j + 1).drop_last() =~= inputs@.take(j as int));
                assert(inputs@.take(j + 1).last() == *x);
                if x.kind == InputKind::Radio && str_eq(x.name.as_str(), t.name.as_str()) {
                    v.push((x.id, x.id == t.id));
                }
                assert(v@ =~= radio_group(inputs@.take(j + 1), t.name@, t.id));
                j += 1;
            }
            assert(inputs@.take(inputs@.len() as int) =~= inputs@);
            Some(v)
        },
        InputKind::Other => None,
    }
}

} // verus!
