//! AbortController and AbortSignal: a mechanism for aborting in-progress
//! operations (fetch requests, event listeners, streams), following the
//! WHATWG DOM specification.
use std::sync::Arc;
use std::sync::OnceLock;
use vstd::prelude::*;

use crate::text::{decimal, u64_to_decimal};

verus! {

/// A reason for the abort.
#[derive(Debug, Clone, PartialEq, Eq)]
pub enum AbortReason {
    /// Default abort (user-initiated).
    Default,
    /// Timeout in milliseconds.
    Timeout(u64),
    /// Custom reason message.
    Custom(String),
}

/// The text shown for an abort reason.
pub open spec fn reason_message(r: AbortReason) -> Seq<char> {
    match r {
        AbortReason::Default => "AbortError: The operation was aborted."@,
        AbortReason::Timeout(ms) => "TimeoutError: The operation timed out after "@ + decimal(
            ms as nat,
        ) + "ms."@,
        AbortReason::Custom(msg) => msg@,
    }
}

impl AbortReason {
    /// A copy of this reason.
    pub fn copy(&self) -> (r: AbortReason)
        ensures
            r == *self,
    {
        match self {
            AbortReason::Default => AbortReason::Default,
            AbortReason::Timeout(ms) => AbortReason::Timeout(*ms),
            AbortReason::Custom(m) => AbortReason::Custom(m.clone()),
        }
    }

    /// The human-readable message for this reason.
    pub fn message(&self) -> (s: String)
        ensures
            s@ == reason_message(*self),
    {
        match self {
            AbortReason::Default => "AbortError: The operation was aborted.".to_owned(),
            AbortReason::Timeout(ms) => {
                let mut s = "TimeoutError: The operation timed out after ".to_owned();
                let digits = u64_to_decimal(*ms);
                s.append(digits.as_str());
                s.append("ms.");
                s
            },
            AbortReason::Custom(m) => m.clone(),
        }
    }
}

/// A cell shared by a controller and its signals: empty until the
/// controller aborts, then holding the abort reason. Only the first abort
/// settles it.
pub type AbortCell = Arc<OnceLock<AbortReason>>;

#[verifier::external_type_specification]
#[verifier::external_body]
#[verifier::reject_recursive_types(T)]
pub struct ExOnceLock<T>(OnceLock<T>);

/// Where a signal's aborted state lives.
pub enum SignalFlag {
    /// A flag that nothing else can change after the signal was made.
    Fixed(bool),
    /// Cells shared with controllers: the signal is aborted once one of
    /// them holds a reason.
    Shared(Vec<AbortCell>),
}

/// An AbortSignal that can be checked by async operations.
pub struct AbortSignal {
    flag: SignalFlag,
    /// Reason for the abort of a fixed signal.
    reason: Option<AbortReason>,
}

/// `Arc::clone`: a second handle to the same cell.
#[verifier::external_body]
fn share_cell(cell: &AbortCell) -> (r: AbortCell)
    ensures
        r == *cell,
{
    Arc::clone(cell)
}

/// `OnceLock::new`: an empty cell.
#[verifier::external_body]
fn empty_cell() -> OnceLock<AbortReason> {
    OnceLock::new()
}

/// `OnceLock::get`: the reason a cell holds, if a controller has aborted.
/// It depends on what other handles did, so nothing is stated of it.
#[verifier::external_body]
fn cell_reason(cell: &AbortCell) -> Option<AbortReason> {
    cell.get().cloned()
}

/// `OnceLock::set`: settles the cell with a reason unless it holds one
/// already (then the call changes nothing).
#[verifier::external_body]
fn settle_cell(cell: &AbortCell, reason: AbortReason) {
    let _ = cell.set(reason);
}

/// The cells a sequence of signals watch, in order.
pub open spec fn cells_of(signals: Seq<&AbortSignal>) -> Seq<AbortCell>
    decreases signals.len(),
{
    if signals.len() == 0 {
        seq![]
    } else {
        cells_of(signals.drop_last()) + signals.last().links()
    }
}

impl AbortSignal {
    /// Whether the aborted state can no longer change.
    pub closed spec fn is_fixed(&self) -> bool {
        self.flag is Fixed
    }

    /// The value of a fixed flag.
    pub closed spec fn fixed_value(&self) -> bool {
        match self.flag {
            SignalFlag::Fixed(b) => b,
            SignalFlag::Shared(_) => false,
        }
    }

    /// The controller cells the signal watches (none for a fixed signal).
    pub closed spec fn links(&self) -> Seq<AbortCell> {
        match self.flag {
            SignalFlag::Fixed(_) => seq![],
            SignalFlag::Shared(v) => v@,
        }
    }

    /// The stored reason of a fixed signal.
    pub closed spec fn stored_reason(&self) -> Option<AbortReason> {
        self.reason
    }

    /// The reason reported once a fixed signal is aborted.
    pub closed spec fn effective_reason(&self) -> AbortReason {
        match self.reason {
            Some(r) => r,
            None => AbortReason::Default,
        }
    }

    /// The reason held by the first watched cell that holds one.
    fn shared_reason(cells: &Vec<AbortCell>) -> Option<AbortReason> {
        let mut i: usize = 0;
        while i < cells.len()
            decreases cells.len() - i,
        {
            match cell_reason(&cells[i]) {
                Some(r) => {
                    return Some(r);
                },
                None => {},
            }
            i += 1;
        }
        None
    }

    /// Whether the signal has been aborted.
    pub fn aborted(&self) -> (r: bool)
        ensures
            self.is_fixed() ==> r == self.fixed_value(),
    {
        match &self.flag {
            SignalFlag::Fixed(b) => *b,
            SignalFlag::Shared(cells) => Self::shared_reason(cells).is_some(),
        }
    }

    /// The abort reason, if the signal is aborted: for a signal of
    /// controllers, the reason of the first of them that aborted.
    pub fn reason(&self) -> (r: Option<AbortReason>)
        ensures
            self.is_fixed() ==> r == (if self.fixed_value() {
                Some(self.effective_reason())
            } else {
                None
            }),
    {
        match &self.flag {
            SignalFlag::Fixed(b) => {
                if *b {
                    match &self.reason {
                        Some(r) => Some(r.copy()),
                        None => Some(AbortReason::Default),
                    }
                } else {
                    None
                }
            },
            SignalFlag::Shared(cells) => Self::shared_reason(cells),
        }
    }

    /// `Err` with the reason if the signal has been aborted, `Ok` otherwise.
    pub fn throw_if_aborted(&self) -> (r: Result<(), AbortReason>)
        ensures
            self.is_fixed() ==> r == (if self.fixed_value() {
                Err::<(), AbortReason>(self.effective_reason())
            } else {
                Ok::<(), AbortReason>(())
            }),
    {
        match self.reason() {
            Some(r) => Err(r),
            None => Ok(()),
        }
    }

    /// An already-aborted signal.
    pub fn abort() -> (s: Self)
        ensures
            s.is_fixed() && s.fixed_value(),
            s.stored_reason() == Some(AbortReason::Default),
            s.effective_reason() == AbortReason::Default,
    {
        AbortSignal { flag: SignalFlag::Fixed(true), reason: Some(AbortReason::Default) }
    }

    /// An already-aborted signal with a reason.
    pub fn abort_with(reason: AbortReason) -> (s: Self)
        ensures
            s.is_fixed() && s.fixed_value(),
            s.stored_reason() == Some(reason),
            s.effective_reason() == reason,
    {
        AbortSignal { flag: SignalFlag::Fixed(true), reason: Some(reason) }
    }

    /// A signal carrying a timeout reason; it is not aborted automatically,
    /// the caller must check the deadline.
    pub fn timeout(ms: u64) -> (s: Self)
        ensures
            s.is_fixed() && !s.fixed_value(),
            s.stored_reason() == Some(AbortReason::Timeout(ms)),
            s.effective_reason() == AbortReason::Timeout(ms),
    {
        AbortSignal { flag: SignalFlag::Fixed(false), reason: Some(AbortReason::Timeout(ms)) }
    }

    /// A signal that is aborted when one of the inputs is: one aborted at
    /// the time of the call gives a signal aborted with its reason (the
    /// first such input's); otherwise the signal watches every controller
    /// cell its inputs watch, and so aborts when any of them aborts later.
    pub fn any(signals: &[&AbortSignal]) -> (s: Self)
        ensures
            s.is_fixed() && s.fixed_value() ==> exists|i: int|
                0 <= i < signals@.len() && ((#[trigger] signals@[i]).is_fixed() ==> signals@[i].fixed_value()
                    && s.stored_reason() == Some(signals@[i].effective_reason())) && s.stored_reason() is Some
                && forall|j: int| 0 <= j < i && (#[trigger] signals@[j]).is_fixed() ==> !signals@[j].fixed_value(),
            !(s.is_fixed() && s.fixed_value()) ==> {
                &&& forall|i: int| 0 <= i < signals@.len() && (#[trigger] signals@[i]).is_fixed() ==> !signals@[i].fixed_value()
                &&& s.links() == cells_of(signals@)
                &&& s.stored_reason() is None
            },
    {
        let mut cells: Vec<AbortCell> = Vec::new();
        let mut i: usize = 0;
        while i < signals.len()
            invariant
                i <= signals.len(),
                forall|j: int| 0 <= j < i && (#[trigger] signals@[j]).is_fixed() ==> !signals@[j].fixed_value(),
                cells@ == cells_of(signals@.take(i as int)),
            decreases signals.len() - i,
        {
            let sig = signals[i];
            let ghost before = cells@;
            assert(signals@.take(i + 1).drop_last() =~= signals@.take(i as int));
            assert(signals@.take(i + 1).last() == sig);
            match &sig.flag {
                SignalFlag::Fixed(b) => {
                    if *b {
                        let reason = match &sig.reason {
                            Some(r) => r.copy(),
                            None => AbortReason::Default,
                        };
                        let s = AbortSignal::abort_with(reason);
                        assert(s.stored_reason() == Some(signals@[i as int].effective_reason()));
                        return s;
                    }
                    assert(cells@ =~= cells_of(signals@.take(i + 1)));
                },
                SignalFlag::Shared(own) => {
                    match Self::shared_reason(own) {
                        Some(r) => {
                            let s = AbortSignal::abort_with(r);
                            assert(!signals@[i as int].is_fixed());
                            return s;
                        },
                        None => {},
                    }
                    let mut k: usize = 0;
                    while k < own.len()
                        invariant
                            k <= own@.len(),
                            cells@ == before + own@.take(k as int),
                        decreases own.len() - k,
                    {
                        cells.push(share_cell(&own[k]));
                        assert(own@.take(k + 1) =~= own@.take(k as int).push(own@[k as int]));
                        assert(cells@ =~= before + own@.take(k + 1));
                        k += 1;
                    }
                    assert(own@.take(own@.len() as int) =~= own@);
                    assert(cells@ =~= cells_of(signals@.take(i + 1)));
                },
            }
            i += 1;
        }
        assert(signals@.take(signals@.len() as int) =~= signals@);
        if cells.len() == 0 {
            AbortSignal { flag: SignalFlag::Fixed(false), reason: None }
        } else {
            AbortSignal { flag: SignalFlag::Shared(cells), reason: None }
        }
    }
}

/// An AbortController that can trigger its associated AbortSignals.
pub struct AbortController {
    cell: AbortCell,
}

impl AbortController {
    /// The cell the controller settles when it aborts.
    pub closed spec fn cell(&self) -> AbortCell {
        self.cell
    }

    /// A new controller, with a cell of its own that no signal watches yet.
    pub fn new() -> (c: Self) {
        AbortController { cell: Arc::new(empty_cell()) }
    }

    /// A signal linked to this controller: it watches the controller's
    /// cell and nothing else.
    pub fn signal(&self) -> (s: AbortSignal)
        ensures
            !s.is_fixed(),
            s.links() == seq![self.cell()],
            s.stored_reason() is None,
    {
        let mut cells: Vec<AbortCell> = Vec::new();
        cells.push(share_cell(&self.cell));
        assert(cells@ =~= seq![self.cell()]);
        AbortSignal { flag: SignalFlag::Shared(cells), reason: None }
    }

    /// Aborts every signal of this controller with the default reason,
    /// unless it aborted already.
    pub fn abort(&self) {
        settle_cell(&self.cell, AbortReason::Default);
    }

    /// Aborts every signal of this controller with the given reason,
    /// unless it aborted already; the signals report that reason.
    pub fn abort_with_reason(&self, reason: AbortReason) {
        settle_cell(&self.cell, reason);
    }
}

impl Default for AbortController {
    fn default() -> (c: Self) {
        AbortController::new()
    }
}

} // verus!
