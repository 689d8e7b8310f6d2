//! Server-Sent Events: the `text/event-stream` parser and the `EventSource`
//! client that dispatches parsed events to listeners.
use vstd::prelude::*;
use crate::text::{
    chars_eq_str, chars_has, chars_of, chars_parse_u64, chars_split, chars_split_once,
    lemma_map_push, lemma_split_char_nonempty, parse_u64, push_char, split_char, split_once,
    str_eq, string_from_chars,
};

verus! {

// ── Types ────────────────────────────────────────────────────────────────────

/// The ready state of an `EventSource`.
#[derive(Debug, Clone, Copy, PartialEq, Eq, Hash, Default, Structural)]
pub enum EventSourceState {
    /// Connecting to the server.
    #[default]
    Connecting,
    /// The connection is open and receiving events.
    Open,
    /// The connection is closed.
    Closed,
}

impl EventSourceState {
    /// The numeric value of the state: 0, 1 or 2.
    pub fn value(&self) -> (r: u16)
        ensures
            r == match *self {
                EventSourceState::Connecting => 0u16,
                EventSourceState::Open => 1u16,
                EventSourceState::Closed => 2u16,
            },
    {
        match self {
            EventSourceState::Connecting => 0,
            EventSourceState::Open => 1,
            EventSourceState::Closed => 2,
        }
    }
}

/// A parsed server-sent event.
#[derive(Debug, Clone, PartialEq, Eq)]
pub struct SseEvent {
    /// The event type (`message` unless the stream names one).
    pub event_type: String,
    /// The event data.
    pub data: String,
    /// The last event ID.
    pub last_event_id: String,
    /// The reconnection time in milliseconds, when the stream sent one.
    pub retry: Option<u64>,
}

/// The value of an event: its fields as character sequences.
pub struct SseEventView {
    pub event_type: Seq<char>,
    pub data: Seq<char>,
    pub last_event_id: Seq<char>,
    pub retry: Option<u64>,
}

impl View for SseEvent {
    type V = SseEventView;

    open spec fn view(&self) -> SseEventView {
        SseEventView {
            event_type: self.event_type@,
            data: self.data@,
            last_event_id: self.last_event_id@,
            retry: self.retry,
        }
    }
}

/// A new event of type `message` with no data and a given last event ID.
pub open spec fn fresh_event(id: Seq<char>) -> SseEventView {
    SseEventView { event_type: "message"@, data: Seq::empty(), last_event_id: id, retry: None }
}

impl SseEvent {
    fn fresh(id: String) -> (r: Self)
        ensures
            r@ == fresh_event(id@),
    {
        SseEvent { event_type: "message".to_owned(), data: String::new(), last_event_id: id, retry: None }
    }
}

impl Default for SseEvent {
    fn default() -> (r: Self)
        ensures
            r@ == fresh_event(Seq::empty()),
    {
        SseEvent::fresh(String::new())
    }
}

/// How to connect an `EventSource`.
#[derive(Debug, Clone)]
pub struct EventSourceInit {
    /// The URL to connect to.
    pub url: String,
    /// Whether to include credentials (cookies, auth headers).
    pub with_credentials: bool,
}

/// Something that listens for events; every `Fn(&SseEvent)` closure is one.
pub trait EventListener {
    /// Called with each event of the type it listens for.
    fn on_event(&self, event: &SseEvent);
}

impl<F: Fn(&SseEvent)> EventListener for F {
    fn on_event(&self, event: &SseEvent) {
        call_event_closure(self, event)
    }
}

/// Calls a closure with an event; what the closure does is up to it.
#[verifier::external_body]
fn call_event_closure<F: Fn(&SseEvent)>(f: &F, event: &SseEvent) {
    f(event)
}

/// Something that listens for the opening of the connection; every `Fn()`
/// closure is one.
pub trait OpenListener {
    /// Called when the connection opens.
    fn on_open(&self);
}

impl<F: Fn()> OpenListener for F {
    fn on_open(&self) {
        call_open_closure(self)
    }
}

/// Calls a closure; what the closure does is up to it.
#[verifier::external_body]
fn call_open_closure<F: Fn()>(f: &F) {
    f()
}

/// Something that listens for errors; every `Fn(&str)` closure is one.
pub trait ErrorListener {
    /// Called with the message of each error.
    fn on_error(&self, message: &str);
}

impl<F: Fn(&str)> ErrorListener for F {
    fn on_error(&self, message: &str) {
        call_error_closure(self, message)
    }
}

/// Calls a closure with a message; what the closure does is up to it.
#[verifier::external_body]
fn call_error_closure<F: Fn(&str)>(f: &F, message: &str) {
    f(message)
}

/// A listener for events of one type.
pub type EventCallback = Box<dyn EventListener>;

/// A listener for the opening of the connection.
pub type OpenCallback = Box<dyn OpenListener>;

/// A listener for errors.
pub type ErrorCallback = Box<dyn ErrorListener>;

// ── The stream format ────────────────────────────────────────────────────────

/// A line without the carriage return of a CRLF ending.
pub open spec fn crlf_trim(l: Seq<char>) -> Seq<char> {
    if l.len() > 0 && l.last() == '\r' {
        l.drop_last()
    } else {
        l
    }
}

/// The lines of a text as `str::lines` gives them: split at `\n`, a `\r`
/// before a `\n` dropped, and no empty line after a final `\n`.
pub open spec fn text_lines(s: Seq<char>) -> Seq<Seq<char>> {
    let p = split_char(s, '\n');
    let terminated = Seq::new((p.len() - 1) as nat, |i: int| crlf_trim(p[i]));
    if p.last().len() == 0 {
        terminated
    } else {
        terminated.push(p.last())
    }
}

/// An event as dispatched: one trailing newline of its data removed.
pub open spec fn finished(e: SseEventView) -> SseEventView {
    SseEventView {
        event_type: e.event_type,
        data: if e.data.len() > 0 && e.data.last() == '\n' {
            e.data.drop_last()
        } else {
            e.data
        },
        last_event_id: e.last_event_id,
        retry: e.retry,
    }
}

/// The state of the parser between lines.
pub struct SseParse {
    /// The events dispatched so far.
    pub events: Seq<SseEventView>,
    /// The event being built.
    pub cur: SseEventView,
    /// Whether the event being built has a data line.
    pub has_data: bool,
}

/// The events with the one being built dispatched, if it has data.
pub open spec fn flushed(st: SseParse) -> Seq<SseEventView> {
    if st.has_data {
        st.events.push(finished(st.cur))
    } else {
        st.events
    }
}

/// A value without one leading space.
pub open spec fn strip_one_space(v: Seq<char>) -> Seq<char> {
    if v.len() > 0 && v[0] == ' ' {
        v.drop_first()
    } else {
        v
    }
}

/// A line split into field name and value at its first colon.
pub open spec fn field_value(line: Seq<char>) -> (Seq<char>, Seq<char>) {
    match split_once(line, seq![':']) {
        Some(p) => (p.0, strip_one_space(p.1)),
        None => (line, Seq::empty()),
    }
}

/// The state after a field line.
pub open spec fn apply_field(st: SseParse, field: Seq<char>, value: Seq<char>) -> SseParse {
    let c = st.cur;
    if field == "event"@ {
        SseParse {
            cur: SseEventView { event_type: value, data: c.data, last_event_id: c.last_event_id, retry: c.retry },
            ..st
        }
    } else if field == "data"@ {
        let d = if st.has_data {
            c.data.push('\n') + value
        } else {
            c.data + value
        };
        SseParse {
            events: st.events,
            cur: SseEventView { event_type: c.event_type, data: d, last_event_id: c.last_event_id, retry: c.retry },
            has_data: true,
        }
    } else if field == "id"@ && !value.contains('\0') {
        SseParse {
            cur: SseEventView { event_type: c.event_type, data: c.data, last_event_id: value, retry: c.retry },
            ..st
        }
    } else if field == "retry"@ && parse_u64(value) is Some {
        SseParse {
            cur: SseEventView {
                event_type: c.event_type,
                data: c.data,
                last_event_id: c.last_event_id,
                retry: parse_u64(value),
            },
            ..st
        }
    } else {
        st
    }
}

/// The state after one line: a blank line dispatches and starts a new
/// event, which keeps the last event ID (the ID buffer persists across
/// blocks, with or without data); a line starting with a colon is a
/// comment; any other line is a field.
pub open spec fn sse_step(st: SseParse, line: Seq<char>, current_id: Seq<char>) -> SseParse {
    if line.len() == 0 {
        let evs = flushed(st);
        SseParse {
            events: evs,
            cur: fresh_event(st.cur.last_event_id),
            has_data: false,
        }
    } else if line[0] == ':' {
        st
    } else {
        apply_field(st, field_value(line).0, field_value(line).1)
    }
}

/// After a blank line the event being built starts afresh: type `message`,
/// no data and no retry time, so a retry time never carries over from one
/// event's block to the next. Only the last event ID carries over.
pub proof fn law_blank_line_starts_fresh_event(lines: Seq<Seq<char>>, current_id: Seq<char>)
    requires
        lines.len() > 0,
        lines.last().len() == 0,
    ensures
        sse_run(lines, current_id).cur.retry is None,
        sse_run(lines, current_id).cur.data.len() == 0,
        sse_run(lines, current_id).cur.event_type == "message"@,
        !sse_run(lines, current_id).has_data,
        sse_run(lines, current_id).cur.last_event_id == sse_run(lines.drop_last(), current_id).cur.last_event_id,
{
}

/// Only a `retry` field gives the event being built a retry time: a line
/// that is not one leaves a missing retry time missing.
pub proof fn law_retry_only_from_retry_field(lines: Seq<Seq<char>>, line: Seq<char>, current_id: Seq<char>)
    requires
        sse_run(lines, current_id).cur.retry is None,
        !(line.len() > 0 && line[0] != ':' && field_value(line).0 == "retry"@),
    ensures
        sse_run(lines.push(line), current_id).cur.retry is None,
{
    assert(lines.push(line).drop_last() =~= lines);
}

/// Whether a line is a `retry` field whose value is the number `n`.
pub open spec fn is_retry_line(l: Seq<char>, n: u64) -> bool {
    l.len() > 0 && l[0] != ':' && field_value(l).0 == "retry"@ && parse_u64(field_value(l).1) == Some(n)
}

/// The event being built has retry time `n` only if a `retry: n` line came
/// after the last blank line: a retry time belongs to the block of lines
/// that builds its event.
pub proof fn law_retry_comes_from_own_block(lines: Seq<Seq<char>>, current_id: Seq<char>, n: u64)
    requires
        sse_run(lines, current_id).cur.retry == Some(n),
    ensures
        exists|j: int|
            0 <= j < lines.len() && is_retry_line(#[trigger] lines[j], n) && forall|m: int|
                j < m < lines.len() ==> (#[trigger] lines[m]).len() > 0,
    decreases lines.len(),
{
    if lines.len() == 0 {
    } else {
        let l = lines.last();
        let prev = lines.drop_last();
        let st = sse_run(prev, current_id);
        assert(sse_run(lines, current_id) == sse_step(st, l, current_id));
        assert(lines[lines.len() - 1] == l);
        if l.len() == 0 {
        } else if l[0] == ':' {
            law_retry_comes_from_own_block(prev, current_id, n);
            let j = choose|j: int|
                0 <= j < prev.len() && is_retry_line(#[trigger] prev[j], n) && forall|m: int|
                    j < m < prev.len() ==> (#[trigger] prev[m]).len() > 0;
            assert(lines[j] == prev[j]);
            assert forall|m: int| j < m < lines.len() implies (#[trigger] lines[m]).len() > 0 by {
                if m < prev.len() {
                    assert(lines[m] == prev[m]);
                }
            }
        } else {
            let f = field_value(l).0;
            let v = field_value(l).1;
            if f == "retry"@ && parse_u64(v) is Some {
                reveal_strlit("retry");
                reveal_strlit("event");
                reveal_strlit("data");
                reveal_strlit("id");
                assert("retry"@[0] != "event"@[0]);
                assert("retry"@.len() != "data"@.len() && "retry"@.len() != "id"@.len());
                assert(f != "event"@ && f != "data"@ && f != "id"@);
                assert(sse_step(st, l, current_id) == apply_field(st, f, v));
                assert(apply_field(st, f, v).cur.retry == parse_u64(v));
                assert(is_retry_line(lines[lines.len() - 1], n));
            } else {
                assert(st.cur.retry == Some(n));
                law_retry_comes_from_own_block(prev, current_id, n);
                let j = choose|j: int|
                    0 <= j < prev.len() && is_retry_line(#[trigger] prev[j], n) && forall|m: int|
                        j < m < prev.len() ==> (#[trigger] prev[m]).len() > 0;
                assert(lines[j] == prev[j]);
                assert forall|m: int| j < m < lines.len() implies (#[trigger] lines[m]).len() > 0 by {
                    if m < prev.len() {
                        assert(lines[m] == prev[m]);
                    }
                }
            }
        }
    }
}

/// The state after a sequence of lines.
pub open spec fn sse_run(lines: Seq<Seq<char>>, current_id: Seq<char>) -> SseParse
    decreases lines.len(),
{
    if lines.len() == 0 {
        SseParse { events: Seq::empty(), cur: fresh_event(current_id), has_data: false }
    } else {
        sse_step(sse_run(lines.drop_last(), current_id), lines.last(), current_id)
    }
}

/// The events of a stream: those dispatched by blank lines, then the last
/// one if it has data.
pub open spec fn sse_events(text: Seq<char>, current_id: Seq<char>) -> Seq<SseEventView> {
    flushed(sse_run(text_lines(text), current_id))
}

struct ParseState {
    events: Vec<SseEvent>,
    cur: SseEvent,
    has_data: bool,
}

impl ParseState {
    spec fn parse_view(&self) -> SseParse {
        SseParse {
            events: self.events@.map_values(|e: SseEvent| e@),
            cur: self.cur@,
            has_data: self.has_data,
        }
    }
}

fn finish_event(e: SseEvent) -> (r: SseEvent)
    ensures
        r@ == finished(e@),
{
    let cs = chars_of(e.data.as_str());
    let n = cs.len();
    if n > 0 && cs[n - 1] == '\n' {
        let mut d: Vec<char> = Vec::new();
        let mut i: usize = 0;
        while i < n - 1
            invariant
                n == cs@.len(),
                n > 0,
                i <= n - 1,
                d@ == cs@.take(i as int),
            decreases n - 1 - i,
        {
            d.push(cs[i]);
            assert(cs@.take(i + 1) =~= cs@.take(i as int).push(cs@[i as int]));
            i += 1;
        }
        assert(d@ =~= cs@.drop_last());
        SseEvent {
            event_type: e.event_type,
            data: string_from_chars(d.as_slice()),
            last_event_id: e.last_event_id,
            retry: e.retry,
        }
    } else {
        e
    }
}

fn flush_events(st: ParseState) -> (r: Vec<SseEvent>)
    ensures
        r@.map_values(|e: SseEvent| e@) == flushed(st.parse_view()),
{
    let ParseState { mut events, cur, has_data } = st;
    if has_data {
        let ghost before = events@;
        let f = finish_event(cur);
        events.push(f);
        proof {
            lemma_map_push(before, f, |e: SseEvent| e@);
        }
    }
    events
}

fn apply_field_exec(st: ParseState, field: &[char], value: &[char]) -> (r: ParseState)
    ensures
        r.parse_view() == apply_field(st.parse_view(), field@, value@),
{
    let ParseState { events, mut cur, mut has_data } = st;
    if chars_eq_str(field, "event") {
        cur.event_type = string_from_chars(value);
    } else if chars_eq_str(field, "data") {
        if has_data {
            push_char(&mut cur.data, '\n');
        }
        let v = string_from_chars(value);
        cur.data.append(v.as_str());
        has_data = true;
    } else if chars_eq_str(field, "id") && !chars_has(value, '\0') {
        cur.last_event_id = string_from_chars(value);
    } else if chars_eq_str(field, "retry") {
        match chars_parse_u64(value) {
            Some(ms) => {
                cur.retry = Some(ms);
            },
            None => {},
        }
    }
    let r = ParseState { events, cur, has_data };
    assert(r.parse_view().cur =~~= apply_field(st.parse_view(), field@, value@).cur);
    r
}

fn step(st: ParseState, line: &[char], current_id: &str) -> (r: ParseState)
    ensures
        r.parse_view() == sse_step(st.parse_view(), line@, current_id@),
{
    if line.len() == 0 {
        let id = st.cur.last_event_id.clone();
        let evs = flush_events(st);
        ParseState { events: evs, cur: SseEvent::fresh(id), has_data: false }
    } else if line[0] == ':' {
        st
    } else {
        let colon: Vec<char> = vec![':'];
        assert(colon@ =~= seq![':']);
        match chars_split_once(line, colon.as_slice()) {
            Some((f, v)) => {
                let vs = v.as_slice();
                if vs.len() > 0 && vs[0] == ' ' {
                    let mut t: Vec<char> = Vec::new();
                    let mut i: usize = 1;
                    while i < vs.len()
                        invariant
                            1 <= i <= vs@.len(),
                            t@ == vs@.subrange(1, i as int),
                        decreases vs.len() - i,
                    {
                        t.push(vs[i]);
                        assert(vs@.subrange(1, i + 1) =~= vs@.subrange(1, i as int).push(vs@[i as int]));
                        i += 1;
                    }
                    assert(t@ =~= vs@.drop_first());
                    apply_field_exec(st, f.as_slice(), t.as_slice())
                } else {
                    apply_field_exec(st, f.as_slice(), vs)
                }
            },
            None => {
                let empty: Vec<char> = Vec::new();
                assert(empty@ =~= Seq::<char>::empty());
                apply_field_exec(st, line, empty.as_slice())
            },
        }
    }
}

fn line_at(pieces: &Vec<Vec<char>>, i: usize) -> (r: Vec<char>)
    requires
        i < pieces@.len(),
    ensures
        i + 1 < pieces@.len() ==> r@ == crlf_trim(pieces@[i as int]@),
        i + 1 == pieces@.len() ==> r@ == pieces@[i as int]@,
{
    let p = &pieces[i];
    let n = p.len();
    let last = pieces.len() - 1;
    let keep = if i < last && n > 0 && p[n - 1] == '\r' {
        n - 1
    } else {
        n
    };
    let mut r: Vec<char> = Vec::new();
    let mut k: usize = 0;
    while k < keep
        invariant
            keep <= n == p@.len(),
            k <= keep,
            r@ == p@.take(k as int),
        decreases keep - k,
    {
        r.push(p[k]);
        assert(p@.take(k + 1) =~= p@.take(k as int).push(p@[k as int]));
        k += 1;
    }
    assert(r@ =~= p@.take(keep as int));
    assert(p@.take(n as int) =~= p@);
    r
}

/// Parses a `text/event-stream` chunk into its events; `current_id` is the
/// last event ID before the chunk.
pub fn parse_sse_stream(text: &str, current_id: &str) -> (r: Vec<SseEvent>)
    ensures
        r@.map_values(|e: SseEvent| e@) == sse_events(text@, current_id@),
{
    let cs = chars_of(text);
    let pieces = chars_split(cs.as_slice(), '\n');
    let ghost p = split_char(text@, '\n');
    proof {
        lemma_split_char_nonempty(text@, '\n');
        assert(pieces@.len() == p.len());
    }
    let np = pieces.len();
    let nlines = if pieces[np - 1].len() == 0 {
        np - 1
    } else {
        np
    };
    let ghost lines = text_lines(text@);
    assert(pieces@[np - 1]@ == p.last());
    assert(lines.len() == nlines);
    let mut st = ParseState {
        events: Vec::new(),
        cur: SseEvent::fresh(current_id.to_owned()),
        has_data: false,
    };
    assert(st.parse_view().events =~= Seq::<SseEventView>::empty());
    assert(lines.take(0) =~= Seq::<Seq<char>>::empty());
    let mut i: usize = 0;
    while i < nlines
        invariant
            np == pieces@.len(),
            np >= 1,
            pieces@.map_values(|v: Vec<char>| v@) == p,
            p == split_char(text@, '\n'),
            lines == text_lines(text@),
            nlines == lines.len(),
            nlines <= np,
            nlines < np ==> nlines == np - 1,
            i <= nlines,
            st.parse_view() == sse_run(lines.take(i as int), current_id@),
        decreases nlines - i,
    {
        let line = line_at(&pieces, i);
        assert(pieces@[i as int]@ == p[i as int]);
        assert(line@ == lines[i as int]);
        assert(lines.take(i + 1).drop_last() =~= lines.take(i as int));
        assert(lines.take(i + 1).last() == lines[i as int]);
        st = step(st, line.as_slice(), current_id);
        i += 1;
    }
    assert(lines.take(nlines as int) =~= lines);
    flush_events(st)
}

/// The listeners (by position) that get an event of a type, each with the
/// event's index `i`, in the order the listeners were added.
pub open spec fn listeners_for(types: Seq<Seq<char>>, ty: Seq<char>, i: int) -> Seq<(int, int)>
    decreases types.len(),
{
    if types.len() == 0 {
        seq![]
    } else {
        listeners_for(types.drop_last(), ty, i) + if types.last() == ty {
            seq![(i, types.len() - 1)]
        } else {
            seq![]
        }
    }
}

/// Which listener gets which event, as (event index, listener index): each
/// event in stream order goes to every listener added for its type, in the
/// order the listeners were added.
pub open spec fn dispatch_order(types: Seq<Seq<char>>, evs: Seq<SseEventView>) -> Seq<(int, int)>
    decreases evs.len(),
{
    if evs.len() == 0 {
        seq![]
    } else {
        dispatch_order(types, evs.drop_last()) + listeners_for(types, evs.last().event_type, evs.len() - 1)
    }
}

/// The deliveries of a sequence of events to listeners of the given event
/// types, as (event index, listener index), in the order they are made.
pub fn dispatch_plan(listener_types: &[String], events: &[SseEvent]) -> (r: Vec<(usize, usize)>)
    ensures
        r@.map_values(|p: (usize, usize)| (p.0 as int, p.1 as int)) == dispatch_order(
            listener_types@.map_values(|t: String| t@),
            events@.map_values(|e: SseEvent| e@),
        ),
        forall|k: int| 0 <= k < r@.len() ==> (#[trigger] r@[k]).0 < events@.len() && r@[k].1 < listener_types@.len(),
{
    let ghost types = listener_types@.map_values(|t: String| t@);
    let ghost evs = events@.map_values(|e: SseEvent| e@);
    let ghost f = |p: (usize, usize)| (p.0 as int, p.1 as int);
    let mut r: Vec<(usize, usize)> = Vec::new();
    let mut i: usize = 0;
    while i < events.len()
        invariant
            i <= events@.len(),
            types == listener_types@.map_values(|t: String| t@),
            evs == events@.map_values(|e: SseEvent| e@),
            f == (|p: (usize, usize)| (p.0 as int, p.1 as int)),
            r@.map_values(f) == dispatch_order(types, evs.take(i as int)),
            forall|k: int| 0 <= k < r@.len() ==> (#[trigger] r@[k]).0 < i && r@[k].1 < listener_types@.len(),
        decreases events.len() - i,
    {
        assert(evs.take(i + 1).drop_last() =~= evs.take(i as int));
        assert(evs.take(i + 1).last() == events@[i as int]@);
        let ghost base = r@.map_values(f);
        let mut j: usize = 0;
        while j < listener_types.len()
            invariant
                i < events@.len(),
                j <= listener_types@.len(),
                types == listener_types@.map_values(|t: String| t@),
                f == (|p: (usize, usize)| (p.0 as int, p.1 as int)),
                r@.map_values(f) == base + listeners_for(types.take(j as int), events@[i as int].event_type@, i as int),
                forall|k: int| 0 <= k < r@.len() ==> (#[trigger] r@[k]).0 < i + 1 && r@[k].1 < listener_types@.len(),
            decreases listener_types.len() - j,
        {
            assert(types.take(j + 1).drop_last() =~= types.take(j as int));
            assert(types.take(j + 1).last() == listener_types@[j as int]@);
            let ghost before = r@;
            if str_eq(listener_types[j].as_str(), events[i].event_type.as_str()) {
                r.push((i, j));
                proof {
                    crate::text::lemma_map_push(before, (i, j), f);
                }
            }
            assert(r@.map_values(f) =~= base + listeners_for(types.take(j + 1), events@[i as int].event_type@, i as int));
            j += 1;
        }
        assert(types.take(listener_types@.len() as int) =~= types);
        i += 1;
    }
    assert(evs.take(events@.len() as int) =~= evs);
    r
}

// ── The client ───────────────────────────────────────────────────────────────

/// The value of an `EventSource`: its settings and state, and the event
/// type of each listener, in the order the listeners were added.
pub struct EventSourceView {
    pub url: Seq<char>,
    pub with_credentials: bool,
    pub state: EventSourceState,
    pub last_event_id: Seq<char>,
    pub retry_ms: u64,
    pub listeners: Seq<Seq<char>>,
    pub has_onopen: bool,
    pub has_onerror: bool,
}

/// A client for server-sent events.
pub struct EventSource {
    url: String,
    with_credentials: bool,
    state: EventSourceState,
    last_event_id: String,
    retry_ms: u64,
    /// The listeners with their event types, in the order they were added.
    handlers: Vec<(String, EventCallback)>,
    on_open: Option<OpenCallback>,
    on_error: Option<ErrorCallback>,
}

/// The reconnection time after some events: that of the last event that
/// carries one, else the earlier time.
pub open spec fn retry_after(evs: Seq<SseEventView>, r0: u64) -> u64
    decreases evs.len(),
{
    if evs.len() == 0 {
        r0
    } else {
        match evs.last().retry {
            Some(r) => r,
            None => retry_after(evs.drop_last(), r0),
        }
    }
}

/// The last event ID after some events: the last non-empty one, else the
/// earlier ID.
pub open spec fn id_after(evs: Seq<SseEventView>, id0: Seq<char>) -> Seq<char>
    decreases evs.len(),
{
    if evs.len() == 0 {
        id0
    } else if evs.last().last_event_id.len() > 0 {
        evs.last().last_event_id
    } else {
        id_after(evs.drop_last(), id0)
    }
}

impl View for EventSource {
    type V = EventSourceView;

    closed spec fn view(&self) -> EventSourceView {
        EventSourceView {
            url: self.url@,
            with_credentials: self.with_credentials,
            state: self.state,
            last_event_id: self.last_event_id@,
            retry_ms: self.retry_ms,
            listeners: self.handlers@.map_values(|h: (String, EventCallback)| h.0@),
            has_onopen: self.on_open is Some,
            has_onerror: self.on_error is Some,
        }
    }
}

impl EventSource {
    /// A new client, connecting, with a reconnection time of 3000 ms.
    pub fn new(init: EventSourceInit) -> (r: Self)
        ensures
            r@.url == init.url@,
            r@.with_credentials == init.with_credentials,
            r@.state == EventSourceState::Connecting,
            r@.last_event_id == Seq::<char>::empty(),
            r@.retry_ms == 3000,
            r@.listeners == Seq::<Seq<char>>::empty(),
            !r@.has_onopen,
            !r@.has_onerror,
    {
        let r = EventSource {
            url: init.url,
            with_credentials: init.with_credentials,
            state: EventSourceState::Connecting,
            last_event_id: String::new(),
            retry_ms: 3000,
            handlers: Vec::new(),
            on_open: None,
            on_error: None,
        };
        assert(r@.listeners =~= Seq::<Seq<char>>::empty());
        r
    }

    /// The URL.
    pub fn url(&self) -> (r: &str)
        ensures
            r@ == self@.url,
    {
        self.url.as_str()
    }

    /// The ready state.
    pub fn ready_state(&self) -> (r: EventSourceState)
        ensures
            r == self@.state,
    {
        self.state
    }

    /// Whether credentials are sent.
    pub fn with_credentials(&self) -> (r: bool)
        ensures
            r == self@.with_credentials,
    {
        self.with_credentials
    }

    /// The last event ID.
    pub fn last_event_id(&self) -> (r: &str)
        ensures
            r@ == self@.last_event_id,
    {
        self.last_event_id.as_str()
    }

    /// Adds a listener for an event type, after the listeners added
    /// before.
    pub fn add_event_listener(&mut self, event_type: &str, callback: EventCallback)
        ensures
            final(self)@ == (EventSourceView {
                listeners: old(self)@.listeners.push(event_type@),
                ..old(self)@
            }),
    {
        let ghost before = self.handlers@;
        let entry = (event_type.to_owned(), callback);
        self.handlers.push(entry);
        proof {
            lemma_map_push(before, entry, |h: (String, EventCallback)| h.0@);
        }
    }

    /// Sets the open listener.
    pub fn set_onopen(&mut self, callback: OpenCallback)
        ensures
            final(self)@ == (EventSourceView { has_onopen: true, ..old(self)@ }),
    {
        self.on_open = Some(callback);
    }

    /// Sets the error listener.
    pub fn set_onerror(&mut self, callback: ErrorCallback)
        ensures
            final(self)@ == (EventSourceView { has_onerror: true, ..old(self)@ }),
    {
        self.on_error = Some(callback);
    }

    /// Closes the connection.
    pub fn close(&mut self)
        ensures
            final(self)@ == (EventSourceView { state: EventSourceState::Closed, ..old(self)@ }),
    {
        self.state = EventSourceState::Closed;
    }

    /// The connection opens: the state becomes open and the open listener,
    /// if any, is called.
    pub fn simulate_open(&mut self)
        ensures
            final(self)@ == (EventSourceView { state: EventSourceState::Open, ..old(self)@ }),
    {
        self.state = EventSourceState::Open;
        match &self.on_open {
            Some(cb) => cb.on_open(),
            None => {},
        }
    }

    /// A chunk of the stream arrives: its events are parsed, the
    /// reconnection time and last event ID follow them, and the events are
    /// handed to the listeners as [`dispatch_plan`] orders: each event in
    /// stream order to every listener added for its type, in the order the
    /// listeners were added.
    pub fn simulate_receive(&mut self, chunk: &str)
        ensures
            final(self)@ == (EventSourceView {
                retry_ms: retry_after(sse_events(chunk@, old(self)@.last_event_id), old(self)@.retry_ms),
                last_event_id: id_after(sse_events(chunk@, old(self)@.last_event_id), old(self)@.last_event_id),
                ..old(self)@
            }),
    {
        let events = parse_sse_stream(chunk, self.last_event_id.as_str());
        let ghost evs = sse_events(chunk@, old(self)@.last_event_id);
        let ghost s0 = self@;
        let mut i: usize = 0;
        while i < events.len()
            invariant
                i <= events@.len(),
                events@.map_values(|e: SseEvent| e@) == evs,
                self@ == (EventSourceView {
                    retry_ms: retry_after(evs.take(i as int), s0.retry_ms),
                    last_event_id: id_after(evs.take(i as int), s0.last_event_id),
                    ..s0
                }),
            decreases events.len() - i,
        {
            let event = &events[i];
            assert(evs.take(i + 1).drop_last() =~= evs.take(i as int));
            assert(evs.take(i + 1).last() == event@);
            match event.retry {
                Some(r) => {
                    self.retry_ms = r;
                },
                None => {},
            }
            if !event.last_event_id.as_str().is_empty() {
                self.last_event_id = event.last_event_id.clone();
            }
            i += 1;
        }
        assert(evs.take(events@.len() as int) =~= evs);
        let mut types: Vec<String> = Vec::new();
        let mut h: usize = 0;
        while h < self.handlers.len()
            invariant
                h <= self.handlers@.len(),
                types@.len() == h,
                forall|q: int| 0 <= q < h ==> (#[trigger] types@[q])@ == self.handlers@[q].0@,
            decreases self.handlers.len() - h,
        {
            types.push(self.handlers[h].0.clone());
            h += 1;
        }
        let plan = dispatch_plan(types.as_slice(), events.as_slice());
        let mut k: usize = 0;
        while k < plan.len()
            invariant
                k <= plan@.len(),
                types@.len() == self.handlers@.len(),
                forall|q: int| 0 <= q < plan@.len() ==> (#[trigger] plan@[q]).0 < events@.len() && plan@[q].1 < types@.len(),
            decreases plan.len() - k,
        {
            let (ei, li) = plan[k];
            self.handlers[li].1.on_event(&events[ei]);
            k += 1;
        }
    }

    /// A connection error: the state goes back to connecting and the error
    /// listener, if any, is called with the message.
    pub fn simulate_error(&mut self, message: &str)
        ensures
            final(self)@ == (EventSourceView { state: EventSourceState::Connecting, ..old(self)@ }),
    {
        self.state = EventSourceState::Connecting;
        match &self.on_error {
            Some(cb) => cb.on_error(message),
            None => {},
        }
    }

    /// The reconnection time in milliseconds.
    pub fn retry_ms(&self) -> (r: u64)
        ensures
            r == self@.retry_ms,
    {
        self.retry_ms
    }
}

} // verus!
