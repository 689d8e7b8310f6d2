//! The console panel: log levels, and the REPL's input line with its
//! history of submitted commands.
use std::collections::VecDeque;
use vstd::prelude::*;
use crate::extensions::messaging::unix_millis_now;
use crate::text::{chars_of, chars_trim, trim_ws};

verus! {

/// The level of a console message.
#[derive(Debug, Clone, Copy, PartialEq, Eq, Hash, Structural)]
pub enum LogLevel {
    /// `console.log()`.
    Log,
    /// `console.info()`.
    Info,
    /// `console.warn()`.
    Warn,
    /// `console.error()`.
    Error,
    /// `console.debug()`.
    Debug,
    /// A message of the browser itself.
    System,
}

/// The name of a log level, which also names its color class.
pub open spec fn log_level_label(l: LogLevel) -> Seq<char> {
    match l {
        LogLevel::Log => "log"@,
        LogLevel::Info => "info"@,
        LogLevel::Warn => "warn"@,
        LogLevel::Error => "error"@,
        LogLevel::Debug => "debug"@,
        LogLevel::System => "system"@,
    }
}

impl LogLevel {
    /// The name of the level.
    pub fn label(self) -> (r: &'static str)
        ensures
            r@ == log_level_label(self),
    {
        match self {
            LogLevel::Log => "log",
            LogLevel::Info => "info",
            LogLevel::Warn => "warn",
            LogLevel::Error => "error",
            LogLevel::Debug => "debug",
            LogLevel::System => "system",
        }
    }
}

/// The REPL's input line and the commands submitted so far.
#[derive(Debug, Clone)]
pub struct ConsoleInput {
    input_text: String,
    input_history: Vec<String>,
    history_index: Option<usize>,
}

/// The state of the REPL input: the text being typed, the submitted
/// commands (oldest first), and the position in the history that is being
/// recalled, if any.
pub struct InputView {
    pub text: Seq<char>,
    pub history: Seq<Seq<char>>,
    pub index: Option<usize>,
}

impl View for ConsoleInput {
    type V = InputView;

    closed spec fn view(&self) -> InputView {
        InputView {
            text: self.input_text@,
            history: self.input_history@.map_values(|s: String| s@),
            index: self.history_index,
        }
    }
}

/// The history position after Up: one further back, staying at the oldest;
/// from the input line, the newest.
pub open spec fn index_after_prev(v: InputView) -> Option<usize> {
    if v.history.len() == 0 {
        v.index
    } else {
        match v.index {
            Some(i) => Some(if i > 0 { (i - 1) as usize } else { 0 }),
            None => Some((v.history.len() - 1) as usize),
        }
    }
}

/// The history position after Down: one further forward; past the newest,
/// back to the input line.
pub open spec fn index_after_next(v: InputView) -> Option<usize> {
    match v.index {
        Some(i) => if i + 1 < v.history.len() {
            Some((i + 1) as usize)
        } else {
            None
        },
        None => None,
    }
}

impl ConsoleInput {
    /// A recalled position lies in the history.
    pub open spec fn wf(&self) -> bool {
        self@.index matches Some(i) ==> i < self@.history.len()
    }

    /// An empty input line and no history.
    pub fn new() -> (r: Self)
        ensures
            r.wf(),
            r@.text == Seq::<char>::empty(),
            r@.history == Seq::<Seq<char>>::empty(),
            r@.index is None,
    {
        let r = ConsoleInput { input_text: String::new(), input_history: Vec::new(), history_index: None };
        assert(r@.history =~= Seq::<Seq<char>>::empty());
        r
    }

    /// The text being typed.
    pub fn input_text(&self) -> (r: &str)
        ensures
            r@ == self@.text,
    {
        self.input_text.as_str()
    }

    /// Replaces the text being typed; recall stops.
    pub fn set_input_text(&mut self, text: String)
        ensures
            final(self)@.text == text@,
            final(self)@.history == old(self)@.history,
            final(self)@.index is None,
            final(self).wf(),
    {
        self.input_text = text;
        self.history_index = None;
    }

    /// Submits the input line: returns its text and empties it; the text
    /// joins the history unless it is only white space. Recall stops.
    pub fn submit_input(&mut self) -> (r: String)
        ensures
            r@ == old(self)@.text,
            final(self)@.text == Seq::<char>::empty(),
            final(self)@.history == (if trim_ws(old(self)@.text).len() == 0 {
                old(self)@.history
            } else {
                old(self)@.history.push(old(self)@.text)
            }),
            final(self)@.index is None,
            final(self).wf(),
    {
        let mut text = String::new();
        std::mem::swap(&mut text, &mut self.input_text);
        let cs = chars_of(text.as_str());
        let trimmed = chars_trim(cs.as_slice());
        if trimmed.len() > 0 {
            let ghost before = self.input_history@;
            self.input_history.push(text.clone());
            assert(self.input_history@.map_values(|s: String| s@) =~= before.map_values(|s: String| s@).push(text@));
        }
        self.history_index = None;
        assert(self.input_text@ =~= Seq::<char>::empty());
        text
    }

    /// Up: recalls the previous command into the input line (the newest
    /// one when not recalling yet, and the oldest stays). Nothing happens
    /// with an empty history.
    pub fn history_prev(&mut self)
        requires
            old(self).wf(),
        ensures
            final(self).wf(),
            final(self)@.history == old(self)@.history,
            final(self)@.index == index_after_prev(old(self)@),
            old(self)@.history.len() == 0 ==> final(self)@.text == old(self)@.text,
            old(self)@.history.len() > 0 ==> final(self)@.text == old(self)@.history[index_after_prev(old(self)@)->0 as int],
    {
        let n = self.input_history.len();
        if n == 0 {
            return;
        }
        let idx: usize = match self.history_index {
            Some(i) => if i > 0 { i - 1 } else { 0 },
            None => n - 1,
        };
        self.history_index = Some(idx);
        self.input_text = self.input_history[idx].clone();
    }

    /// Down: recalls the next command; past the newest, the input line is
    /// emptied and recall stops. Nothing happens when not recalling.
    pub fn history_next(&mut self)
        requires
            old(self).wf(),
        ensures
            final(self).wf(),
            final(self)@.history == old(self)@.history,
            final(self)@.index == index_after_next(old(self)@),
            old(self)@.index is None ==> final(self)@.text == old(self)@.text,
            (old(self)@.index is Some && index_after_next(old(self)@) is None) ==> final(self)@.text == Seq::<char>::empty(),
            index_after_next(old(self)@) matches Some(j) ==> final(self)@.text == old(self)@.history[j as int],
    {
        let n = self.input_history.len();
        match self.history_index {
            Some(i) => {
                assert(self@.index == Some(i));
                assert(i < self.input_history@.len());
                if i + 1 < n {
                    let idx = i + 1;
                    self.history_index = Some(idx);
                    self.input_text = self.input_history[idx].clone();
                } else {
                    self.history_index = None;
                    self.input_text = String::new();
                    assert(self.input_text@ =~= Seq::<char>::empty());
                }
            },
            None => {},
        }
    }

    /// The submitted commands, oldest first.
    pub fn history(&self) -> (r: &[String])
        ensures
            r@.map_values(|s: String| s@) == self@.history,
    {
        self.input_history.as_slice()
    }
}

/// Entries kept at most in the console; older ones are dropped.
pub const MAX_LOG_ENTRIES: usize = 5000;

/// One console entry; `V` is the type of a logged value.
#[derive(Debug, Clone)]
pub struct LogEntry<V> {
    /// Sequential id, unique in its console.
    pub id: u64,
    /// When the entry was logged, in milliseconds since the Unix epoch.
    pub timestamp: u128,
    /// Severity level.
    pub level: LogLevel,
    /// The logged values (one call may log several).
    pub values: Vec<V>,
    /// Where the message came from, such as `script.js:42`.
    pub source: Option<String>,
}

/// Whether an entry has the given level.
pub open spec fn has_level<V>(l: LogLevel) -> spec_fn(LogEntry<V>) -> bool {
    |e: LogEntry<V>| e.level == l
}

/// The entries that a level filter lets through, in order.
pub open spec fn filtered<V>(entries: Seq<LogEntry<V>>, filter: Option<LogLevel>) -> Seq<LogEntry<V>> {
    match filter {
        Some(l) => entries.filter(has_level::<V>(l)),
        None => entries,
    }
}

/// The entries kept after one more is logged: the oldest goes when the
/// console is full.
pub open spec fn kept_before_push<V>(entries: Seq<LogEntry<V>>) -> Seq<LogEntry<V>> {
    if entries.len() < MAX_LOG_ENTRIES {
        entries
    } else {
        entries.drop_first()
    }
}

/// The console panel: its log, its REPL input, its scroll position and its
/// level filter.
#[derive(Debug, Clone)]
pub struct ConsoleState<V> {
    entries: VecDeque<LogEntry<V>>,
    next_id: u64,
    input: ConsoleInput,
    scroll_offset: usize,
    level_filter: Option<LogLevel>,
}

impl<V> ConsoleState<V> {
    /// The entries, oldest first.
    pub closed spec fn entries_spec(&self) -> Seq<LogEntry<V>> {
        self.entries@
    }

    /// The id that the next entry gets.
    pub closed spec fn next_id_spec(&self) -> u64 {
        self.next_id
    }

    /// The REPL input.
    pub closed spec fn input_spec(&self) -> InputView {
        self.input@
    }

    /// The scroll offset, in entries from the bottom.
    pub closed spec fn scroll_spec(&self) -> usize {
        self.scroll_offset
    }

    /// The level filter, if any.
    pub closed spec fn filter_spec(&self) -> Option<LogLevel> {
        self.level_filter
    }

    /// At most [`MAX_LOG_ENTRIES`] entries, with increasing ids below the
    /// next id, and a well-formed input.
    pub open spec fn wf(&self) -> bool {
        &&& self.entries_spec().len() <= MAX_LOG_ENTRIES
        &&& forall|i: int, j: int|
            0 <= i < j < self.entries_spec().len() ==> #[trigger] self.entries_spec()[i].id
                < #[trigger] self.entries_spec()[j].id
        &&& forall|i: int|
            0 <= i < self.entries_spec().len() ==> #[trigger] self.entries_spec()[i].id < self.next_id_spec()
        &&& (self.input_spec().index matches Some(i) ==> i < self.input_spec().history.len())
    }

    /// An empty console: no entries, ids from 1, no filter.
    pub fn new() -> (r: Self)
        ensures
            r.wf(),
            r.entries_spec() == Seq::<LogEntry<V>>::empty(),
            r.next_id_spec() == 1,
            r.input_spec().text == Seq::<char>::empty(),
            r.input_spec().history == Seq::<Seq<char>>::empty(),
            r.input_spec().index is None,
            r.scroll_spec() == 0,
            r.filter_spec() is None,
    {
        ConsoleState {
            entries: VecDeque::new(),
            next_id: 1,
            input: ConsoleInput::new(),
            scroll_offset: 0,
            level_filter: None,
        }
    }

    /// The id that the next entry gets.
    pub fn next_id(&self) -> (r: u64)
        ensures
            r == self.next_id_spec(),
    {
        self.next_id
    }

    /// Logs values at a level: the entry gets the next id and the current
    /// time, and the oldest entry goes when the console is full.
    pub fn log(&mut self, level: LogLevel, values: Vec<V>, source: Option<String>)
        requires
            old(self).wf(),
            old(self).next_id_spec() < u64::MAX,
        ensures
            final(self).wf(),
            final(self).next_id_spec() == old(self).next_id_spec() + 1,
            final(self).entries_spec().len() == kept_before_push(old(self).entries_spec()).len() + 1,
            final(self).entries_spec().drop_last() == kept_before_push(old(self).entries_spec()),
            final(self).entries_spec().last().id == old(self).next_id_spec(),
            final(self).entries_spec().last().level == level,
            final(self).entries_spec().last().values@ == values@,
            final(self).entries_spec().last().source == source,
            final(self).input_spec() == old(self).input_spec(),
            final(self).scroll_spec() == old(self).scroll_spec(),
            final(self).filter_spec() == old(self).filter_spec(),
    {
        let ghost old_entries = self.entries@;
        let entry = LogEntry { id: self.next_id, timestamp: unix_millis_now(), level, values, source };
        self.next_id = self.next_id + 1;
        self.entries.push_back(entry);
        if self.entries.len() > MAX_LOG_ENTRIES {
            self.entries.pop_front();
            assert(self.entries@.drop_last() =~= old_entries.drop_first());
        }
        assert(old_entries.len() < MAX_LOG_ENTRIES ==> self.entries@.drop_last() =~= old_entries);
        assert forall|i: int, j: int| 0 <= i < j < self.entries@.len() implies #[trigger] self.entries@[i].id
            < #[trigger] self.entries@[j].id by {
            if j == self.entries@.len() - 1 {
                assert(self.entries@[i] == self.entries@.drop_last()[i]);
            } else {
                assert(self.entries@[i] == self.entries@.drop_last()[i]);
                assert(self.entries@[j] == self.entries@.drop_last()[j]);
            }
        }
        assert forall|i: int| 0 <= i < self.entries@.len() implies #[trigger] self.entries@[i].id < self.next_id by {
            if i < self.entries@.len() - 1 {
                assert(self.entries@[i] == self.entries@.drop_last()[i]);
            }
        }
    }

    /// The entries that the level filter lets through, oldest first.
    pub fn visible_entries(&self) -> (r: Vec<&LogEntry<V>>)
        ensures
            r@.len() == filtered(self.entries_spec(), self.filter_spec()).len(),
            forall|i: int| 0 <= i < r@.len() ==> *r@[i] == filtered(self.entries_spec(), self.filter_spec())[i],
    {
        let mut r: Vec<&LogEntry<V>> = Vec::new();
        let mut i: usize = 0;
        while i < self.entries.len()
            invariant
                i <= self.entries@.len(),
                r@.len() == filtered(self.entries@.take(i as int), self.level_filter).len(),
                forall|k: int| 0 <= k < r@.len() ==> *r@[k] == filtered(self.entries@.take(i as int), self.level_filter)[k],
            decreases self.entries.len() - i,
        {
            let e = &self.entries[i];
            let ghost before = self.entries@.take(i as int);
            assert(self.entries@.take(i + 1) =~= before.push(*e));
            let keep = match self.level_filter {
                Some(l) => e.level == l,
                None => true,
            };
            proof {
                match self.level_filter {
                    Some(l) => {
                        before.lemma_filter_push(*e, has_level::<V>(l));
                    },
                    None => {},
                }
            }
            if keep {
                r.push(e);
            }
            i += 1;
        }
        assert(self.entries@.take(self.entries@.len() as int) =~= self.entries@);
        r
    }

    /// The number of entries, whatever the filter.
    pub fn entry_count(&self) -> (r: usize)
        ensures
            r == self.entries_spec().len(),
    {
        self.entries.len()
    }

    /// Removes every entry; ids keep counting.
    pub fn clear(&mut self)
        requires
            old(self).wf(),
        ensures
            final(self).wf(),
            final(self).entries_spec() == Seq::<LogEntry<V>>::empty(),
            final(self).next_id_spec() == old(self).next_id_spec(),
            final(self).input_spec() == old(self).input_spec(),
            final(self).scroll_spec() == old(self).scroll_spec(),
            final(self).filter_spec() == old(self).filter_spec(),
    {
        self.entries.clear();
    }

    /// Sets the level filter (`None` shows every entry).
    pub fn set_filter(&mut self, filter: Option<LogLevel>)
        requires
            old(self).wf(),
        ensures
            final(self).wf(),
            final(self).filter_spec() == filter,
            final(self).entries_spec() == old(self).entries_spec(),
            final(self).next_id_spec() == old(self).next_id_spec(),
            final(self).input_spec() == old(self).input_spec(),
            final(self).scroll_spec() == old(self).scroll_spec(),
    {
        self.level_filter = filter;
    }

    /// The level filter.
    pub fn filter(&self) -> (r: Option<LogLevel>)
        ensures
            r == self.filter_spec(),
    {
        self.level_filter
    }

    /// The REPL input text.
    pub fn input_text(&self) -> (r: &str)
        ensures
            r@ == self.input_spec().text,
    {
        self.input.input_text()
    }

    /// Replaces the REPL input text; recall stops.
    pub fn set_input_text(&mut self, text: String)
        requires
            old(self).wf(),
        ensures
            final(self).wf(),
            final(self).input_spec().text == text@,
            final(self).input_spec().history == old(self).input_spec().history,
            final(self).input_spec().index is None,
            final(self).entries_spec() == old(self).entries_spec(),
            final(self).next_id_spec() == old(self).next_id_spec(),
            final(self).scroll_spec() == old(self).scroll_spec(),
            final(self).filter_spec() == old(self).filter_spec(),
    {
        self.input.set_input_text(text);
    }

    /// Submits the REPL input: returns its text and empties it; the text
    /// joins the history unless it is only white space.
    pub fn submit_input(&mut self) -> (r: String)
        requires
            old(self).wf(),
        ensures
            final(self).wf(),
            r@ == old(self).input_spec().text,
            final(self).input_spec().text == Seq::<char>::empty(),
            final(self).input_spec().history == (if trim_ws(old(self).input_spec().text).len() == 0 {
                old(self).input_spec().history
            } else {
                old(self).input_spec().history.push(old(self).input_spec().text)
            }),
            final(self).input_spec().index is None,
            final(self).entries_spec() == old(self).entries_spec(),
            final(self).next_id_spec() == old(self).next_id_spec(),
            final(self).scroll_spec() == old(self).scroll_spec(),
            final(self).filter_spec() == old(self).filter_spec(),
    {
        self.input.submit_input()
    }

    /// Up in the REPL: recalls the previous command.
    pub fn history_prev(&mut self)
        requires
            old(self).wf(),
        ensures
            final(self).wf(),
            final(self).input_spec().history == old(self).input_spec().history,
            final(self).input_spec().index == index_after_prev(old(self).input_spec()),
            old(self).input_spec().history.len() == 0 ==> final(self).input_spec().text == old(
                self,
            ).input_spec().text,
            old(self).input_spec().history.len() > 0 ==> final(self).input_spec().text == old(
                self,
            ).input_spec().history[index_after_prev(old(self).input_spec())->0 as int],
            final(self).entries_spec() == old(self).entries_spec(),
            final(self).next_id_spec() == old(self).next_id_spec(),
            final(self).scroll_spec() == old(self).scroll_spec(),
            final(self).filter_spec() == old(self).filter_spec(),
    {
        self.input.history_prev();
    }

    /// Down in the REPL: recalls the next command, or goes back to an
    /// empty input line past the newest.
    pub fn history_next(&mut self)
        requires
            old(self).wf(),
        ensures
            final(self).wf(),
            final(self).input_spec().history == old(self).input_spec().history,
            final(self).input_spec().index == index_after_next(old(self).input_spec()),
            old(self).input_spec().index is None ==> final(self).input_spec().text == old(
                self,
            ).input_spec().text,
            (old(self).input_spec().index is Some && index_after_next(old(self).input_spec()) is None)
                ==> final(self).input_spec().text == Seq::<char>::empty(),
            index_after_next(old(self).input_spec()) matches Some(j) ==> final(self).input_spec().text
                == old(self).input_spec().history[j as int],
            final(self).entries_spec() == old(self).entries_spec(),
            final(self).next_id_spec() == old(self).next_id_spec(),
            final(self).scroll_spec() == old(self).scroll_spec(),
            final(self).filter_spec() == old(self).filter_spec(),
    {
        self.input.history_next();
    }

    /// The submitted commands, oldest first.
    pub fn history(&self) -> (r: &[String])
        ensures
            r@.map_values(|s: String| s@) == self.input_spec().history,
    {
        self.input.history()
    }

    /// The scroll offset.
    pub fn scroll_offset(&self) -> (r: usize)
        ensures
            r == self.scroll_spec(),
    {
        self.scroll_offset
    }

    /// Sets the scroll offset.
    pub fn set_scroll_offset(&mut self, offset: usize)
        requires
            old(self).wf(),
        ensures
            final(self).wf(),
            final(self).scroll_spec() == offset,
            final(self).entries_spec() == old(self).entries_spec(),
            final(self).next_id_spec() == old(self).next_id_spec(),
            final(self).input_spec() == old(self).input_spec(),
            final(self).filter_spec() == old(self).filter_spec(),
    {
        self.scroll_offset = offset;
    }
}

impl<V> Default for ConsoleState<V> {
    fn default() -> (r: Self)
        ensures
            r.wf(),
            r.entries_spec() == Seq::<LogEntry<V>>::empty(),
            r.next_id_spec() == 1,
            r.filter_spec() is None,
    {
        ConsoleState::new()
    }
}

/// Under a level filter, every visible entry has that level, and every
/// entry with that level is visible.
pub proof fn law_filter_shows_exactly_level<V>(entries: Seq<LogEntry<V>>, l: LogLevel)
    ensures
        forall|i: int|
            0 <= i < filtered(entries, Some(l)).len() ==> (#[trigger] filtered(entries, Some(l))[i]).level == l,
        forall|i: int|
            0 <= i < entries.len() && (#[trigger] entries[i]).level == l ==> filtered(entries, Some(l)).contains(
                entries[i],
            ),
{
    assert forall|i: int| 0 <= i < filtered(entries, Some(l)).len() implies (#[trigger] filtered(
        entries,
        Some(l),
    )[i]).level == l by {
        entries.lemma_filter_pred(has_level::<V>(l), i);
    }
    assert forall|i: int| 0 <= i < entries.len() && (#[trigger] entries[i]).level == l implies filtered(
        entries,
        Some(l),
    ).contains(entries[i]) by {
        entries.lemma_filter_contains(has_level::<V>(l), i);
    }
}

/// From the input line, Up recalls the newest command and Down then goes
/// back to the input line.
pub proof fn law_prev_then_next(v: InputView)
    requires
        0 < v.history.len() <= usize::MAX,
        v.index is None,
    ensures
        index_after_prev(v) == Some((v.history.len() - 1) as usize),
        index_after_next(InputView { index: index_after_prev(v), ..v }) is None,
{
}

} // verus!
