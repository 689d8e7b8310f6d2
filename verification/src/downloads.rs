//! Downloads: the list of downloads and their states, and the rules that
//! name the files (from `Content-Disposition` or the URL). Transfers and
//! file writes are the application's; it reports progress here.
use vstd::prelude::*;
use vstd::utf8::{decode_utf8, valid_utf8};
use crate::history::unix_seconds_now;
use crate::text::{
    ascii_lower, chars_eq_str, chars_of, chars_replace_all, chars_split_once, chars_trim, has_prefix,
    is_space, push_char, replace_all, split_char, split_once, str_eq_ignore_ascii_case, str_to_ascii_lower,
    str_to_bytes, string_from_chars, sub_chars, trim_ws, utf8_decode, chars_split,
};
use vstd::utf8::encode_utf8;
use vstd::string::StringExecFns;
use crate::text::{decimal, u64_to_decimal};

verus! {

/// The identifier of a download.
#[derive(Debug, Clone, Copy, PartialEq, Eq, Hash, Structural)]
pub struct DownloadId(pub u64);

/// The state of a download.
#[derive(Debug, Clone, PartialEq)]
pub enum DownloadState {
    /// Queued, not started.
    Pending,
    /// Receiving.
    InProgress {
        /// Bytes received so far.
        received: u64,
        /// Total size, when known.
        total: Option<u64>,
    },
    /// Finished.
    Complete,
    /// Failed, with a message.
    Failed(String),
    /// Cancelled by the user.
    Cancelled,
}

/// The value of a download state.
pub enum StateView {
    Pending,
    InProgress { received: u64, total: Option<u64> },
    Complete,
    Failed(Seq<char>),
    Cancelled,
}

impl View for DownloadState {
    type V = StateView;

    open spec fn view(&self) -> StateView {
        match self {
            DownloadState::Pending => StateView::Pending,
            DownloadState::InProgress { received, total } => StateView::InProgress {
                received: *received,
                total: *total,
            },
            DownloadState::Complete => StateView::Complete,
            DownloadState::Failed(m) => StateView::Failed(m@),
            DownloadState::Cancelled => StateView::Cancelled,
        }
    }
}

impl DownloadState {
    /// A copy of the state.
    pub fn copy(&self) -> (r: Self)
        ensures
            r@ == self@,
    {
        match self {
            DownloadState::Pending => DownloadState::Pending,
            DownloadState::InProgress { received, total } => DownloadState::InProgress {
                received: *received,
                total: *total,
            },
            DownloadState::Complete => DownloadState::Complete,
            DownloadState::Failed(m) => DownloadState::Failed(m.clone()),
            DownloadState::Cancelled => DownloadState::Cancelled,
        }
    }
}

/// One download.
#[derive(Debug, Clone)]
pub struct Download {
    pub id: DownloadId,
    /// Source URL.
    pub url: String,
    /// File name.
    pub filename: String,
    /// Destination path.
    pub path: String,
    /// Current state.
    pub state: DownloadState,
    /// Unix time it started, in seconds.
    pub started_at: u64,
    /// MIME type, when known.
    pub mime_type: Option<String>,
}

/// The value of a download.
pub struct DownloadView {
    pub id: u64,
    pub url: Seq<char>,
    pub filename: Seq<char>,
    pub path: Seq<char>,
    pub state: StateView,
    pub started_at: u64,
    pub mime_type: Option<Seq<char>>,
}

/// The value of an optional text.
pub open spec fn opt_text(o: Option<String>) -> Option<Seq<char>> {
    match o {
        Some(s) => Some(s@),
        None => None,
    }
}

impl View for Download {
    type V = DownloadView;

    open spec fn view(&self) -> DownloadView {
        DownloadView {
            id: self.id.0,
            url: self.url@,
            filename: self.filename@,
            path: self.path@,
            state: self.state@,
            started_at: self.started_at,
            mime_type: opt_text(self.mime_type),
        }
    }
}

impl Download {
    /// A copy of the download.
    pub fn copy(&self) -> (r: Self)
        ensures
            r@ == self@,
    {
        Download {
            id: self.id,
            url: self.url.clone(),
            filename: self.filename.clone(),
            path: self.path.clone(),
            state: self.state.copy(),
            started_at: self.started_at,
            mime_type: match &self.mime_type {
                Some(m) => Some(m.clone()),
                None => None,
            },
        }
    }
}

/// Why queueing a download failed; each carries the system's message.
#[derive(Debug, Clone, PartialEq, Eq)]
pub enum DownloadError {
    /// The download directory could not be created.
    CreateDirectory(String),
    /// No destination file could be reserved.
    ReserveDestination(String),
    /// The worker could not be started.
    SpawnWorker(String),
}

impl DownloadError {
    /// The error as displayed.
    pub fn message(&self) -> (r: String)
        ensures
            r@ == match self {
                DownloadError::CreateDirectory(m) => "could not create the download directory: "@ + m@,
                DownloadError::ReserveDestination(m) => "could not reserve a destination file: "@ + m@,
                DownloadError::SpawnWorker(m) => "could not start the download worker: "@ + m@,
            },
    {
        match self {
            DownloadError::CreateDirectory(m) => {
                let mut s = "could not create the download directory: ".to_owned();
                s.append(m.as_str());
                s
            },
            DownloadError::ReserveDestination(m) => {
                let mut s = "could not reserve a destination file: ".to_owned();
                s.append(m.as_str());
                s
            },
            DownloadError::SpawnWorker(m) => {
                let mut s = "could not start the download worker: ".to_owned();
                s.append(m.as_str());
                s
            },
        }
    }
}

// ── File names ───────────────────────────────────────────────────────────────

/// Whether a character is a control character (general category Cc).
pub open spec fn is_control(c: char) -> bool {
    c <= '\u{1f}' || ('\u{7f}' <= c && c <= '\u{9f}')
}

/// The character a file name keeps for a character: path separators,
/// characters that file systems refuse, and control characters become `_`.
pub open spec fn name_char(c: char) -> char {
    if c == '<' || c == '>' || c == ':' || c == '"' || c == '/' || c == '\\' || c == '|' || c == '?'
        || c == '*' || c == '\0' || is_control(c) {
        '_'
    } else {
        c
    }
}

/// Whether a character is trimmed from the ends of a file name.
pub open spec fn name_trimmed(c: char) -> bool {
    c == ' ' || c == '.'
}

/// A text without leading spaces and dots.
pub open spec fn trim_name_start(s: Seq<char>) -> Seq<char>
    decreases s.len(),
{
    if s.len() > 0 && name_trimmed(s[0]) {
        trim_name_start(s.drop_first())
    } else {
        s
    }
}

/// A text without trailing spaces and dots.
pub open spec fn trim_name_end(s: Seq<char>) -> Seq<char>
    decreases s.len(),
{
    if s.len() > 0 && name_trimmed(s.last()) {
        trim_name_end(s.drop_last())
    } else {
        s
    }
}

/// A safe file name: characters replaced, spaces and dots trimmed from both
/// ends, at most 180 characters; `download` when nothing is left.
pub open spec fn safe_name(name: Seq<char>) -> Seq<char> {
    let cleaned = trim_name_end(trim_name_start(name.map_values(|c: char| name_char(c))));
    if cleaned.len() == 0 || cleaned == "."@ || cleaned == ".."@ {
        "download"@
    } else if cleaned.len() > 180 {
        cleaned.take(180)
    } else {
        cleaned
    }
}

proof fn lemma_trim_name_start_is_suffix(s: Seq<char>)
    ensures
        exists|k: int| 0 <= k <= s.len() && trim_name_start(s) == s.skip(k),
    decreases s.len(),
{
    if s.len() > 0 && name_trimmed(s[0]) {
        lemma_trim_name_start_is_suffix(s.drop_first());
        let k = choose|k: int| 0 <= k <= s.drop_first().len() && trim_name_start(s.drop_first()) == s.drop_first().skip(k);
        assert(s.drop_first().skip(k) =~= s.skip(k + 1));
    } else {
        assert(s.skip(0) =~= s);
    }
}

proof fn lemma_trim_name_end_is_prefix(s: Seq<char>)
    ensures
        exists|k: int| 0 <= k <= s.len() && trim_name_end(s) == s.take(k),
    decreases s.len(),
{
    if s.len() > 0 && name_trimmed(s.last()) {
        lemma_trim_name_end_is_prefix(s.drop_last());
        let k = choose|k: int| 0 <= k <= s.drop_last().len() && trim_name_end(s.drop_last()) == s.drop_last().take(k);
        assert(s.drop_last().take(k) =~= s.take(k));
    } else {
        assert(s.take(s.len() as int) =~= s);
    }
}

/// A safe file name is never empty, has at most 180 characters, and holds
/// no path separator, no character that file systems refuse and no control
/// character: it cannot leave the directory it is saved in.
pub proof fn law_safe_name_is_plain(name: Seq<char>)
    ensures
        safe_name(name).len() > 0,
        safe_name(name).len() <= 180,
        forall|i: int| 0 <= i < safe_name(name).len() ==> name_char(#[trigger] safe_name(name)[i]) == safe_name(name)[i],
{
    reveal_strlit("download");
    let m = name.map_values(|c: char| name_char(c));
    lemma_trim_name_start_is_suffix(m);
    let a = choose|k: int| 0 <= k <= m.len() && trim_name_start(m) == m.skip(k);
    let st = m.skip(a);
    lemma_trim_name_end_is_prefix(st);
    let b = choose|k: int| 0 <= k <= st.len() && trim_name_end(st) == st.take(k);
    let cleaned = st.take(b);
    assert forall|i: int| 0 <= i < cleaned.len() implies name_char(#[trigger] cleaned[i]) == cleaned[i] by {
        assert(cleaned[i] == m[a + i]);
        assert(m[a + i] == name_char(name[a + i]));
    }
    let r = safe_name(name);
    assert forall|i: int| 0 <= i < r.len() implies name_char(#[trigger] r[i]) == r[i] by {
        if cleaned.len() == 0 || cleaned == "."@ || cleaned == ".."@ {
        } else if cleaned.len() > 180 {
            assert(r[i] == cleaned[i]);
        } else {
            assert(r[i] == cleaned[i]);
        }
    }
}

fn map_name_char(c: char) -> (r: char)
    ensures
        r == name_char(c),
{
    if c == '<' || c == '>' || c == ':' || c == '"' || c == '/' || c == '\\' || c == '|' || c == '?'
        || c == '*' || c == '\0' || c <= '\u{1f}' || ('\u{7f}' <= c && c <= '\u{9f}') {
        '_'
    } else {
        c
    }
}

/// Makes a name safe to use as a file name.
pub fn safe_filename(name: &str) -> (r: String)
    ensures
        r@ == safe_name(name@),
{
    let cs = chars_of(name);
    let ghost mapped = name@.map_values(|c: char| name_char(c));
    let mut m: Vec<char> = Vec::new();
    let mut i: usize = 0;
    while i < cs.len()
        invariant
            i <= cs@.len(),
            cs@ == name@,
            mapped == name@.map_values(|c: char| name_char(c)),
            m@ == mapped.take(i as int),
        decreases cs.len() - i,
    {
        m.push(map_name_char(cs[i]));
        assert(mapped.take(i + 1) =~= mapped.take(i as int).push(mapped[i as int]));
        i += 1;
    }
    assert(mapped.take(cs@.len() as int) =~= mapped);
    let n = m.len();
    let mut a: usize = 0;
    assert(m@.skip(0) =~= m@);
    while a < n && (m[a] == ' ' || m[a] == '.')
        invariant
            a <= n == m@.len(),
            trim_name_start(m@) == trim_name_start(m@.skip(a as int)),
        decreases n - a,
    {
        assert(m@.skip(a as int).drop_first() =~= m@.skip(a + 1));
        a += 1;
    }
    let ghost st = m@.skip(a as int);
    let mut b: usize = n;
    assert(st.take(st.len() as int) =~= st);
    while b > a && (m[b - 1] == ' ' || m[b - 1] == '.')
        invariant
            a <= b <= n == m@.len(),
            st == m@.skip(a as int),
            trim_name_end(st) == trim_name_end(st.take(b - a)),
        decreases b,
    {
        assert(st.take(b - a).drop_last() =~= st.take(b - a - 1));
        assert(st.take(b - a).last() == m@[b - 1]);
        b -= 1;
    }
    let ghost cleaned = st.take(b - a);
    assert(cleaned == trim_name_end(trim_name_start(mapped)));
    let len = b - a;
    if len == 0 || (len == 1 && m[a] == '.') || (len == 2 && m[a] == '.' && m[a + 1] == '.') {
        proof {
            reveal_strlit(".");
            reveal_strlit("..");
        }
        return "download".to_owned();
    }
    proof {
        reveal_strlit(".");
        reveal_strlit("..");
        if cleaned == "."@ {
            assert(cleaned[0] == m@[a as int]);
        }
        if cleaned == ".."@ {
            assert(cleaned[0] == m@[a as int]);
            assert(cleaned[1] == m@[a + 1]);
        }
    }
    let end = if len > 180 {
        a + 180
    } else {
        b
    };
    let out = sub_chars(m.as_slice(), a, end);
    assert(out@ =~= if cleaned.len() > 180 { cleaned.take(180) } else { cleaned });
    string_from_chars(out.as_slice())
}

/// The part of a text before its first `c`, or all of it.
pub open spec fn before_char(s: Seq<char>, c: char) -> Seq<char> {
    split_char(s, c)[0]
}

/// The part of a text after its last `c`, or all of it.
pub open spec fn after_last_char(s: Seq<char>, c: char) -> Seq<char> {
    split_char(s, c).last()
}

/// The file name suggested for a URL: the last path segment before any
/// query, or `download`, made safe.
pub open spec fn suggested_name(url: Seq<char>) -> Seq<char> {
    let seg = after_last_char(before_char(url, '?'), '/');
    safe_name(if seg.len() > 0 { seg } else { "download"@ })
}

/// Suggests a safe file name for a URL.
pub fn suggest_filename(url: &str) -> (r: String)
    ensures
        r@ == suggested_name(url@),
{
    let cs = chars_of(url);
    let parts = chars_split(cs.as_slice(), '?');
    proof {
        crate::text::lemma_split_char_nonempty(url@, '?');
    }
    assert(parts@[0]@ == before_char(url@, '?'));
    let segs = chars_split(parts[0].as_slice(), '/');
    proof {
        crate::text::lemma_split_char_nonempty(before_char(url@, '?'), '/');
    }
    let k = segs.len() - 1;
    assert(segs@[k as int]@ == after_last_char(before_char(url@, '?'), '/'));
    if segs[k].len() > 0 {
        let seg = string_from_chars(segs[k].as_slice());
        safe_filename(seg.as_str())
    } else {
        safe_filename("download")
    }
}

// ── Content-Disposition ──────────────────────────────────────────────────────

/// The scanner state over a header value: inside quotes, after a backslash.
pub struct CdScan {
    pub quoted: bool,
    pub escaped: bool,
}

/// The segments of a `Content-Disposition` value: split at each `;` outside
/// double quotes; a backslash inside quotes escapes the next character.
pub open spec fn cd_segments_from(
    s: Seq<char>,
    i: int,
    st: CdScan,
    cur: Seq<char>,
) -> Seq<Seq<char>>
    decreases s.len() - i,
{
    if i >= s.len() || i < 0 {
        seq![cur]
    } else {
        let c = s[i];
        if c == '\\' && st.quoted {
            cd_segments_from(s, i + 1, CdScan { quoted: st.quoted, escaped: !st.escaped }, cur.push(c))
        } else if c == '"' && !st.escaped {
            cd_segments_from(s, i + 1, CdScan { quoted: !st.quoted, escaped: false }, cur.push(c))
        } else if c == ';' && !st.quoted {
            seq![cur] + cd_segments_from(s, i + 1, CdScan { quoted: st.quoted, escaped: false }, Seq::empty())
        } else {
            cd_segments_from(s, i + 1, CdScan { quoted: st.quoted, escaped: false }, cur.push(c))
        }
    }
}

/// The segments of a value.
pub open spec fn cd_segments(s: Seq<char>) -> Seq<Seq<char>> {
    cd_segments_from(s, 0, CdScan { quoted: false, escaped: false }, Seq::empty())
}

/// A parameter segment as a trimmed name and value, if it has `=`.
pub open spec fn cd_param(seg: Seq<char>) -> Option<(Seq<char>, Seq<char>)> {
    match split_once(seg, seq!['=']) {
        Some(p) => Some((trim_ws(p.0), trim_ws(p.1))),
        None => None,
    }
}

/// The parameters of the segments from `k` on, those with `=`.
pub open spec fn cd_params_from(segs: Seq<Seq<char>>, k: int) -> Seq<(Seq<char>, Seq<char>)>
    decreases segs.len() - k,
{
    if k >= segs.len() || k < 0 {
        Seq::empty()
    } else {
        match cd_param(segs[k]) {
            Some(p) => seq![p] + cd_params_from(segs, k + 1),
            None => cd_params_from(segs, k + 1),
        }
    }
}

/// The disposition (first segment, trimmed) and the parameters.
pub open spec fn cd_parts(value: Seq<char>) -> (Seq<char>, Seq<(Seq<char>, Seq<char>)>) {
    let segs = cd_segments(value);
    (trim_ws(segs[0]), cd_params_from(segs, 1))
}

fn split_segments(value: &[char]) -> (r: Vec<Vec<char>>)
    ensures
        r@.map_values(|v: Vec<char>| v@) == cd_segments(value@),
{
    let mut segs: Vec<Vec<char>> = Vec::new();
    let mut cur: Vec<char> = Vec::new();
    let mut quoted = false;
    let mut escaped = false;
    let mut i: usize = 0;
    while i < value.len()
        invariant
            i <= value@.len(),
            segs@.map_values(|v: Vec<char>| v@) + cd_segments_from(
                value@,
                i as int,
                CdScan { quoted, escaped },
                cur@,
            ) == cd_segments(value@),
        decreases value.len() - i,
    {
        let c = value[i];
        let ghost before = segs@.map_values(|v: Vec<char>| v@);
        if c == '\\' && quoted {
            escaped = !escaped;
            cur.push(c);
        } else if c == '"' && !escaped {
            quoted = !quoted;
            escaped = false;
            cur.push(c);
        } else if c == ';' && !quoted {
            let ghost cv = cur@;
            let mut fresh: Vec<char> = Vec::new();
            std::mem::swap(&mut fresh, &mut cur);
            segs.push(fresh);
            escaped = false;
            assert(segs@.map_values(|v: Vec<char>| v@) =~= before.push(cv));
            assert(before.push(cv) + cd_segments_from(value@, i + 1, CdScan { quoted, escaped }, cur@)
                =~= before + (seq![cv] + cd_segments_from(value@, i + 1, CdScan { quoted, escaped }, cur@)));
        } else {
            escaped = false;
            cur.push(c);
        }
        i += 1;
    }
    let ghost before = segs@.map_values(|v: Vec<char>| v@);
    let ghost cv = cur@;
    segs.push(cur);
    assert(segs@.map_values(|v: Vec<char>| v@) =~= before.push(cv));
    assert(before + seq![cv] =~= before.push(cv));
    segs
}

/// Splits a `Content-Disposition` value into its disposition and its
/// parameters.
pub fn split_content_disposition(value: &str) -> (r: (String, Vec<(String, String)>))
    ensures
        r.0@ == cd_parts(value@).0,
        r.1@.map_values(|p: (String, String)| (p.0@, p.1@)) == cd_parts(value@).1,
{
    let cs = chars_of(value);
    let segs = split_segments(cs.as_slice());
    let ghost sv = segs@.map_values(|v: Vec<char>| v@);
    assert(segs@.len() >= 1) by {
        lemma_cd_segments_nonempty(value@, 0, CdScan { quoted: false, escaped: false }, Seq::empty());
    }
    let disposition = string_from_chars(chars_trim(segs[0].as_slice()).as_slice());
    assert(sv[0] == segs@[0]@);
    let mut params: Vec<(String, String)> = Vec::new();
    let mut k: usize = 1;
    assert(sv.len() >= 1);
    while k < segs.len()
        invariant
            1 <= k <= segs@.len(),
            sv == segs@.map_values(|v: Vec<char>| v@),
            params@.map_values(|p: (String, String)| (p.0@, p.1@)) + cd_params_from(sv, k as int)
                == cd_params_from(sv, 1),
        decreases segs.len() - k,
    {
        assert(sv[k as int] == segs@[k as int]@);
        let eq: Vec<char> = vec!['='];
        assert(eq@ =~= seq!['=']);
        let ghost before = params@.map_values(|p: (String, String)| (p.0@, p.1@));
        match chars_split_once(segs[k].as_slice(), eq.as_slice()) {
            Some((n, v)) => {
                let name = string_from_chars(chars_trim(n.as_slice()).as_slice());
                let val = string_from_chars(chars_trim(v.as_slice()).as_slice());
                let ghost pv = (name@, val@);
                params.push((name, val));
                assert(params@.map_values(|p: (String, String)| (p.0@, p.1@)) =~= before.push(pv));
                assert(before.push(pv) + cd_params_from(sv, k + 1) =~= before + (seq![pv] + cd_params_from(sv, k + 1)));
            },
            None => {},
        }
        k += 1;
    }
    assert(params@.map_values(|p: (String, String)| (p.0@, p.1@)) =~= params@.map_values(|p: (String, String)| (p.0@, p.1@)) + Seq::<(Seq<char>, Seq<char>)>::empty());
    (disposition, params)
}

/// The segments always include a first one.
pub proof fn lemma_cd_segments_nonempty(s: Seq<char>, i: int, st: CdScan, cur: Seq<char>)
    ensures
        cd_segments_from(s, i, st, cur).len() >= 1,
    decreases s.len() - i,
{
    if i < s.len() && i >= 0 {
        let c = s[i];
        if c == '\\' && st.quoted {
            lemma_cd_segments_nonempty(s, i + 1, CdScan { quoted: st.quoted, escaped: !st.escaped }, cur.push(c));
        } else if c == '"' && !st.escaped {
            lemma_cd_segments_nonempty(s, i + 1, CdScan { quoted: !st.quoted, escaped: false }, cur.push(c));
        } else if c == ';' && !st.quoted {
        } else {
            lemma_cd_segments_nonempty(s, i + 1, CdScan { quoted: st.quoted, escaped: false }, cur.push(c));
        }
    }
}


/// A quoted file name parameter unquoted: trimmed, surrounding double
/// quotes removed, then `\"` read as `"` and `\\` as `\`.
pub open spec fn unquoted(v: Seq<char>) -> Seq<char> {
    let t = trim_ws(v);
    let inner = if t.len() >= 2 && t[0] == '"' && t.last() == '"' {
        t.subrange(1, t.len() - 1)
    } else {
        t
    };
    replace_all(replace_all(inner, seq!['\\', '"'], seq!['"']), seq!['\\', '\\'], seq!['\\'])
}

/// Unquotes a file name parameter.
pub fn unquote_filename(value: &str) -> (r: String)
    ensures
        r@ == unquoted(value@),
{
    let cs = chars_of(value);
    let t = chars_trim(cs.as_slice());
    let n = t.len();
    let inner = if n >= 2 && t[0] == '"' && t[n - 1] == '"' {
        sub_chars(t.as_slice(), 1, n - 1)
    } else {
        sub_chars(t.as_slice(), 0, n)
    };
    assert(t@.subrange(0, n as int) =~= t@);
    let p1: Vec<char> = vec!['\\', '"'];
    let r1: Vec<char> = vec!['"'];
    let p2: Vec<char> = vec!['\\', '\\'];
    let r2: Vec<char> = vec!['\\'];
    assert(p1@ =~= seq!['\\', '"']);
    assert(r1@ =~= seq!['"']);
    assert(p2@ =~= seq!['\\', '\\']);
    assert(r2@ =~= seq!['\\']);
    let a = chars_replace_all(inner.as_slice(), p1.as_slice(), r1.as_slice());
    let b = chars_replace_all(a.as_slice(), p2.as_slice(), r2.as_slice());
    string_from_chars(b.as_slice())
}

/// The value of a hexadecimal digit byte.
pub open spec fn hex_val(b: u8) -> Option<u8> {
    if 0x30 <= b <= 0x39 {
        Some((b - 0x30) as u8)
    } else if 0x61 <= b <= 0x66 {
        Some((b - 0x61 + 10) as u8)
    } else if 0x41 <= b <= 0x46 {
        Some((b - 0x41 + 10) as u8)
    } else {
        None
    }
}

fn hex_value(b: u8) -> (r: Option<u8>)
    ensures
        r == hex_val(b),
{
    if 0x30 <= b && b <= 0x39 {
        Some(b - 0x30)
    } else if 0x61 <= b && b <= 0x66 {
        Some(b - 0x61 + 10)
    } else if 0x41 <= b && b <= 0x46 {
        Some(b - 0x41 + 10)
    } else {
        None
    }
}

/// Percent-decoding of bytes: `%` and two hexadecimal digits stand for a
/// byte; a `%` without two digits after it fails.
pub open spec fn pct_decode(b: Seq<u8>) -> Option<Seq<u8>>
    decreases b.len(),
{
    if b.len() == 0 {
        Some(Seq::empty())
    } else if b[0] == 0x25 {
        if b.len() < 3 {
            None
        } else {
            match (hex_val(b[1]), hex_val(b[2])) {
                (Some(h), Some(l)) => match pct_decode(b.skip(3)) {
                    Some(r) => Some(seq![(h * 16 + l) as u8] + r),
                    None => None,
                },
                _ => None,
            }
        }
    } else {
        match pct_decode(b.drop_first()) {
            Some(r) => Some(seq![b[0]] + r),
            None => None,
        }
    }
}

fn percent_decode(b: &[u8]) -> (r: Option<Vec<u8>>)
    ensures
        match r {
            Some(v) => pct_decode(b@) == Some(v@),
            None => pct_decode(b@) is None,
        },
{
    let n = b.len();
    let mut out: Vec<u8> = Vec::new();
    let mut i: usize = 0;
    assert(b@.skip(0) =~= b@);
    while i < n
        invariant
            i <= n == b@.len(),
            match pct_decode(b@.skip(i as int)) {
                Some(r) => pct_decode(b@) == Some(out@ + r),
                None => pct_decode(b@) is None,
            },
        decreases n - i,
    {
        let ghost rest = b@.skip(i as int);
        let ghost before = out@;
        if b[i] == 0x25 {
            if n - i < 3 {
                return None;
            }
            let h = hex_value(b[i + 1]);
            let l = hex_value(b[i + 2]);
            assert(rest[1] == b@[i + 1] && rest[2] == b@[i + 2]);
            match (h, l) {
                (Some(hv), Some(lv)) => {
                    out.push(hv * 16 + lv);
                    assert(rest.skip(3) =~= b@.skip(i + 3));
                    proof {
                        match pct_decode(b@.skip(i + 3)) {
                            Some(r) => {
                                assert(out@ + r =~= before + (seq![(hv * 16 + lv) as u8] + r));
                            },
                            None => {},
                        }
                    }
                    i += 3;
                },
                _ => {
                    return None;
                },
            }
        } else {
            out.push(b[i]);
            assert(rest.drop_first() =~= b@.skip(i + 1));
            proof {
                match pct_decode(b@.skip(i + 1)) {
                    Some(r) => {
                        assert(out@ + r =~= before + (seq![b@[i as int]] + r));
                    },
                    None => {},
                }
            }
            i += 1;
        }
    }
    assert(b@.skip(n as int) =~= Seq::<u8>::empty());
    assert(out@ + Seq::<u8>::empty() =~= out@);
    Some(out)
}

/// The file name of an RFC 5987 `filename*` value: after the first `''`,
/// percent-decoded, as UTF-8.
pub open spec fn ext_filename(v: Seq<char>) -> Option<Seq<char>> {
    match split_once(v, seq!['\'', '\'']) {
        None => None,
        Some(p) => match pct_decode(encode_utf8(p.1)) {
            None => None,
            Some(bytes) => if valid_utf8(bytes) {
                Some(decode_utf8(bytes))
            } else {
                None
            },
        },
    }
}

/// Decodes an RFC 5987 `filename*` value.
pub fn decode_extended_filename(value: &str) -> (r: Option<String>)
    ensures
        opt_text(r) == ext_filename(value@),
{
    let cs = chars_of(value);
    let sep: Vec<char> = vec!['\'', '\''];
    assert(sep@ =~= seq!['\'', '\'']);
    match chars_split_once(cs.as_slice(), sep.as_slice()) {
        None => None,
        Some((_, encoded)) => {
            let es = string_from_chars(encoded.as_slice());
            let bytes = str_to_bytes(es.as_str());
            match percent_decode(bytes.as_slice()) {
                None => None,
                Some(decoded) => utf8_decode(decoded),
            }
        },
    }
}

/// The value of the first entry whose name equals `name` ASCII
/// case-insensitively.
pub open spec fn header_lookup(h: Seq<(Seq<char>, Seq<char>)>, name: Seq<char>) -> Option<Seq<char>>
    decreases h.len(),
{
    if h.len() == 0 {
        None
    } else if ascii_lower(h[0].0) == ascii_lower(name) {
        Some(h[0].1)
    } else {
        header_lookup(h.drop_first(), name)
    }
}

/// The names and values of header pairs.
pub open spec fn pair_texts(h: Seq<(String, String)>) -> Seq<(Seq<char>, Seq<char>)> {
    h.map_values(|p: (String, String)| (p.0@, p.1@))
}

fn find_value(h: &[(String, String)], name: &str) -> (r: Option<String>)
    ensures
        opt_text(r) == header_lookup(pair_texts(h@), name@),
{
    let ghost hv = pair_texts(h@);
    let mut i: usize = 0;
    assert(hv.skip(0) =~= hv);
    while i < h.len()
        invariant
            i <= h@.len(),
            hv == pair_texts(h@),
            header_lookup(hv, name@) == header_lookup(hv.skip(i as int), name@),
        decreases h.len() - i,
    {
        assert(hv.skip(i as int)[0] == hv[i as int]);
        if str_eq_ignore_ascii_case(h[i].0.as_str(), name) {
            return Some(h[i].1.clone());
        }
        assert(hv.skip(i as int).drop_first() =~= hv.skip(i + 1));
        i += 1;
    }
    None
}

/// The file name an attachment response asks to be saved under, when its
/// `Content-Disposition` is `attachment`: the decoded `filename*`, else the
/// unquoted `filename`, else (or when empty) the name suggested by the URL;
/// made safe.
pub open spec fn attachment_name(h: Seq<(Seq<char>, Seq<char>)>, url: Seq<char>) -> Option<Seq<char>> {
    match header_lookup(h, "content-disposition"@) {
        None => None,
        Some(v) => {
            let parts = cd_parts(v);
            if ascii_lower(parts.0) != ascii_lower("attachment"@) {
                None
            } else {
                let ext = match header_lookup(parts.1, "filename*"@) {
                    Some(x) => ext_filename(x),
                    None => None,
                };
                let chosen = match ext {
                    Some(x) => Some(x),
                    None => match header_lookup(parts.1, "filename"@) {
                        Some(x) => Some(unquoted(x)),
                        None => None,
                    },
                };
                let name = match chosen {
                    Some(x) => if x.len() > 0 {
                        x
                    } else {
                        suggested_name(url)
                    },
                    None => suggested_name(url),
                };
                Some(safe_name(name))
            }
        },
    }
}

/// An attachment's `filename` parameter names the file whatever the URL:
/// when the response is `Content-Disposition: attachment` with no decodable
/// `filename*` and a `filename` whose unquoted value is not empty, the name
/// is that value made safe, and two URLs give the same name.
pub proof fn law_attachment_filename_wins(
    h: Seq<(Seq<char>, Seq<char>)>,
    url: Seq<char>,
    other_url: Seq<char>,
    v: Seq<char>,
    fname: Seq<char>,
)
    requires
        header_lookup(h, "content-disposition"@) == Some(v),
        ascii_lower(cd_parts(v).0) == ascii_lower("attachment"@),
        match header_lookup(cd_parts(v).1, "filename*"@) {
            Some(x) => ext_filename(x) is None,
            None => true,
        },
        header_lookup(cd_parts(v).1, "filename"@) == Some(fname),
        unquoted(fname).len() > 0,
    ensures
        attachment_name(h, url) == Some(safe_name(unquoted(fname))),
        attachment_name(h, url) == attachment_name(h, other_url),
{
}

/// A decodable, non-empty `filename*` wins over `filename` and the URL.
pub proof fn law_attachment_extended_filename_wins(
    h: Seq<(Seq<char>, Seq<char>)>,
    url: Seq<char>,
    v: Seq<char>,
    x: Seq<char>,
    decoded: Seq<char>,
)
    requires
        header_lookup(h, "content-disposition"@) == Some(v),
        ascii_lower(cd_parts(v).0) == ascii_lower("attachment"@),
        header_lookup(cd_parts(v).1, "filename*"@) == Some(x),
        ext_filename(x) == Some(decoded),
        decoded.len() > 0,
    ensures
        attachment_name(h, url) == Some(safe_name(decoded)),
{
}

/// Without `Content-Disposition: attachment` there is no download name.
pub proof fn law_no_attachment_no_name(h: Seq<(Seq<char>, Seq<char>)>, url: Seq<char>)
    requires
        match header_lookup(h, "content-disposition"@) {
            None => true,
            Some(v) => ascii_lower(cd_parts(v).0) != ascii_lower("attachment"@),
        },
    ensures
        attachment_name(h, url) is None,
{
}

/// The file name requested by `Content-Disposition: attachment`, if the
/// response asks to be downloaded.
pub fn attachment_filename(headers: &[(String, String)], url: &str) -> (r: Option<String>)
    ensures
        opt_text(r) == attachment_name(pair_texts(headers@), url@),
{
    let value = match find_value(headers, "content-disposition") {
        Some(v) => v,
        None => return None,
    };
    let (disposition, parameters) = split_content_disposition(value.as_str());
    if !str_eq_ignore_ascii_case(disposition.as_str(), "attachment") {
        return None;
    }
    let ghost pv = parameters@.map_values(|p: (String, String)| (p.0@, p.1@));
    assert(pair_texts(parameters@) == pv);
    let ext = match find_value(parameters.as_slice(), "filename*") {
        Some(x) => decode_extended_filename(x.as_str()),
        None => None,
    };
    let chosen = match ext {
        Some(x) => Some(x),
        None => match find_value(parameters.as_slice(), "filename") {
            Some(x) => Some(unquote_filename(x.as_str())),
            None => None,
        },
    };
    let name = match chosen {
        Some(x) => if !x.as_str().is_empty() {
            x
        } else {
            suggest_filename(url)
        },
        None => suggest_filename(url),
    };
    Some(safe_filename(name.as_str()))
}

/// The MIME type of a response: the Content-Type before any `;`, trimmed
/// and ASCII-lowercased; none when empty or absent.
pub open spec fn mime_of(h: Seq<(Seq<char>, Seq<char>)>) -> Option<Seq<char>> {
    match header_lookup(h, "content-type"@) {
        None => None,
        Some(v) => {
            let m = ascii_lower(trim_ws(before_char(v, ';')));
            if m.len() > 0 {
                Some(m)
            } else {
                None
            }
        },
    }
}

/// The MIME type of a response, without parameters.
pub fn response_mime_type(headers: &[(String, String)]) -> (r: Option<String>)
    ensures
        opt_text(r) == mime_of(pair_texts(headers@)),
{
    match find_value(headers, "content-type") {
        None => None,
        Some(v) => {
            let cs = chars_of(v.as_str());
            let parts = chars_split(cs.as_slice(), ';');
            proof {
                crate::text::lemma_split_char_nonempty(v@, ';');
            }
            assert(parts@[0]@ == before_char(v@, ';'));
            let t = chars_trim(parts[0].as_slice());
            let ts = string_from_chars(t.as_slice());
            let l = str_to_ascii_lower(ts.as_str());
            if l.len() > 0 {
                Some(string_from_chars(l.as_slice()))
            } else {
                None
            }
        },
    }
}

/// The position of the last `.` of a name, if any.
pub open spec fn last_dot(s: Seq<char>) -> Option<int>
    decreases s.len(),
{
    if s.len() == 0 {
        None
    } else if s.last() == '.' {
        Some(s.len() - 1)
    } else {
        last_dot(s.drop_last())
    }
}

/// A file name split as `Path::file_stem` and `Path::extension` split it,
/// the extension with its dot (empty when there is none); a name that has
/// no stem counts as `download`.
pub open spec fn stem_and_ext(name: Seq<char>) -> (Seq<char>, Seq<char>) {
    if name.len() == 0 || name == "."@ || name == ".."@ {
        ("download"@, Seq::empty())
    } else {
        match last_dot(name) {
            Some(p) => if p == 0 {
                (name, Seq::empty())
            } else {
                (name.take(p), name.skip(p))
            },
            None => (name, Seq::empty()),
        }
    }
}

/// The file name tried at one attempt to reserve a destination: the name
/// itself first, then `stem (n)` with the extension after it.
pub open spec fn candidate_name(name: Seq<char>, attempt: nat) -> Seq<char> {
    if attempt == 0 {
        name
    } else {
        stem_and_ext(name).0 + " ("@ + decimal(attempt) + ")"@ + stem_and_ext(name).1
    }
}

fn last_dot_index(s: &Vec<char>) -> (r: Option<usize>)
    ensures
        match r {
            Some(p) => last_dot(s@) == Some(p as int),
            None => last_dot(s@) is None,
        },
        r matches Some(p) ==> p < s@.len(),
{
    let mut i: usize = s.len();
    assert(s@.take(s@.len() as int) =~= s@);
    while i > 0
        invariant
            i <= s@.len(),
            last_dot(s@) == last_dot(s@.take(i as int)),
        decreases i,
    {
        proof {
            assert(s@.take(i as int).drop_last() =~= s@.take(i - 1));
        }
        if s[i - 1] == '.' {
            return Some(i - 1);
        }
        i -= 1;
    }
    None
}

/// The file name tried at an attempt to reserve a destination for a
/// download: the safe form of the name first, then `stem (n).ext`.
pub fn destination_name(filename: &str, attempt: u32) -> (r: String)
    ensures
        r@ == candidate_name(safe_name(filename@), attempt as nat),
{
    let name = safe_filename(filename);
    if attempt == 0 {
        return name;
    }
    let cs = chars_of(name.as_str());
    proof {
        reveal_strlit(".");
        reveal_strlit("..");
        reveal_strlit("download");
    }
    let n = cs.len();
    let special = n == 0 || chars_eq_str(cs.as_slice(), ".") || chars_eq_str(cs.as_slice(), "..");
    let (stem, ext): (String, String) = if special {
        (String::from_str("download"), String::new())
    } else {
        match last_dot_index(&cs) {
            Some(p) => if p == 0 {
                (name, String::new())
            } else {
                (string_from_chars(sub_chars(cs.as_slice(), 0, p).as_slice()), string_from_chars(sub_chars(cs.as_slice(), p, n).as_slice()))
            },
            None => (name, String::new()),
        }
    };
    proof {
        if !special {
            if let Some(p) = last_dot(cs@) {
                if p != 0 {
                    assert(cs@.subrange(0, p) =~= cs@.take(p));
                    assert(cs@.subrange(p, n as int) =~= cs@.skip(p));
                }
            }
        }
    }
    let mut r = stem;
    r.append(" (");
    let d = u64_to_decimal(attempt as u64);
    r.append(d.as_str());
    r.append(")");
    r.append(ext.as_str());
    r
}

/// The temporary file a transfer writes before it is complete: the
/// destination with `.part` appended.
pub fn temporary_path(destination: &str) -> (r: String)
    ensures
        r@ == destination@ + ".part"@,
{
    let mut r = destination.to_owned();
    r.append(".part");
    r
}

/// A file name inside a directory (as `Path::join` puts it).
pub open spec fn join_path(dir: Seq<char>, name: Seq<char>) -> Seq<char> {
    if dir.len() == 0 {
        name
    } else if dir.last() == '/' {
        dir + name
    } else {
        dir + "/"@ + name
    }
}

fn join_path_string(dir: &str, name: &str) -> (r: String)
    ensures
        r@ == join_path(dir@, name@),
{
    let d = chars_of(dir);
    let n = d.len();
    if n == 0 {
        return name.to_owned();
    }
    let mut s = dir.to_owned();
    if d[n - 1] != '/' {
        s.append("/");
    }
    s.append(name);
    s
}

// ── The list of downloads ────────────────────────────────────────────────────

/// The downloads, oldest first, with the set of cancelled identifiers.
#[derive(Debug, Clone)]
pub struct DownloadManager {
    downloads: Vec<Download>,
    cancelled: Vec<DownloadId>,
    next_id: u64,
    download_dir: String,
}

/// The value of the manager.
pub struct ManagerView {
    pub downloads: Seq<DownloadView>,
    pub cancelled: Set<u64>,
    pub next_id: u64,
    pub download_dir: Seq<char>,
}

impl View for DownloadManager {
    type V = ManagerView;

    closed spec fn view(&self) -> ManagerView {
        ManagerView {
            downloads: self.downloads@.map_values(|d: Download| d@),
            cancelled: self.cancelled@.map_values(|d: DownloadId| d.0).to_set(),
            next_id: self.next_id,
            download_dir: self.download_dir@,
        }
    }
}

/// `i` is the first position of a download with an identifier.
pub open spec fn first_download(s: Seq<DownloadView>, id: u64, i: int) -> bool {
    0 <= i < s.len() && s[i].id == id && forall|j: int| 0 <= j < i ==> s[j].id != id
}

/// Whether a download has an identifier.
pub open spec fn has_download(s: Seq<DownloadView>, id: u64) -> bool {
    exists|i: int| 0 <= i < s.len() && s[i].id == id
}

/// The downloads after the first one with an identifier takes a state.
pub open spec fn with_state(s: Seq<DownloadView>, i: int, st: StateView) -> Seq<DownloadView> {
    s.update(i, DownloadView { state: st, ..s[i] })
}

/// A new pending download.
pub open spec fn pending_download(
    id: u64,
    url: Seq<char>,
    filename: Seq<char>,
    path: Seq<char>,
    now: u64,
    mime_type: Option<Seq<char>>,
) -> DownloadView {
    DownloadView { id, url, filename, path, state: StateView::Pending, started_at: now, mime_type }
}

/// Whether a download is still running (pending or in progress).
pub open spec fn is_active(d: DownloadView) -> bool {
    d.state is Pending || d.state is InProgress
}

/// The downloads, most recent first.
pub open spec fn newest_first(s: Seq<DownloadView>) -> Seq<DownloadView> {
    Seq::new(s.len(), |i: int| s[s.len() - 1 - i])
}

impl Default for DownloadManager {
    fn default() -> (r: Self)
        ensures
            r@.downloads == Seq::<DownloadView>::empty(),
            r@.cancelled == Set::<u64>::empty(),
            r@.next_id == 1,
            r@.download_dir == "downloads"@,
    {
        Self::new()
    }
}

impl DownloadManager {
    /// A manager saving into a local `downloads` directory.
    pub fn new() -> (r: Self)
        ensures
            r@.downloads == Seq::<DownloadView>::empty(),
            r@.cancelled == Set::<u64>::empty(),
            r@.next_id == 1,
            r@.download_dir == "downloads"@,
    {
        Self::with_download_dir("downloads")
    }

    /// A manager saving into a directory.
    pub fn with_download_dir(download_dir: &str) -> (r: Self)
        ensures
            r@.downloads == Seq::<DownloadView>::empty(),
            r@.cancelled == Set::<u64>::empty(),
            r@.next_id == 1,
            r@.download_dir == download_dir@,
    {
        let r = DownloadManager {
            downloads: Vec::new(),
            cancelled: Vec::new(),
            next_id: 1,
            download_dir: download_dir.to_owned(),
        };
        assert(r@.downloads =~= Seq::<DownloadView>::empty());
        assert(r@.cancelled =~= Set::<u64>::empty());
        r
    }

    /// The directory downloads are saved into.
    pub fn download_dir(&self) -> (r: &str)
        ensures
            r@ == self@.download_dir,
    {
        self.download_dir.as_str()
    }

    /// The identifier the next download gets.
    pub fn next_id(&self) -> (r: u64)
        ensures
            r == self@.next_id,
    {
        self.next_id
    }

    /// Records a pending download started now; the time is whatever the
    /// clock reads.
    pub fn insert_download(&mut self, url: &str, filename: &str, path: &str, mime_type: Option<String>) -> (r: DownloadId)
        requires
            old(self)@.next_id < u64::MAX,
        ensures
            r.0 == old(self)@.next_id,
            exists|now: u64| final(self)@ == (ManagerView {
                downloads: old(self)@.downloads.push(
                    #[trigger] pending_download(r.0, url@, safe_name(filename@), path@, now, opt_text(mime_type)),
                ),
                next_id: (old(self)@.next_id + 1) as u64,
                ..old(self)@
            }),
    {
        let now = unix_seconds_now();
        self.insert_download_at(url, filename, path, mime_type, now)
    }

    /// Records a pending download started at a given time.
    pub fn insert_download_at(
        &mut self,
        url: &str,
        filename: &str,
        path: &str,
        mime_type: Option<String>,
        now: u64,
    ) -> (r: DownloadId)
        requires
            old(self)@.next_id < u64::MAX,
        ensures
            r.0 == old(self)@.next_id,
            final(self)@ == (ManagerView {
                downloads: old(self)@.downloads.push(
                    pending_download(r.0, url@, safe_name(filename@), path@, now, opt_text(mime_type)),
                ),
                next_id: (old(self)@.next_id + 1) as u64,
                ..old(self)@
            }),
    {
        let id = DownloadId(self.next_id);
        self.next_id = self.next_id + 1;
        let d = Download {
            id,
            url: url.to_owned(),
            filename: safe_filename(filename),
            path: path.to_owned(),
            state: DownloadState::Pending,
            started_at: now,
            mime_type,
        };
        let ghost before = self.downloads@;
        let ghost dv = d@;
        self.downloads.push(d);
        assert(self@.downloads =~= before.map_values(|x: Download| x@).push(dv));
        id
    }

    /// Records a download into a directory, under its safe file name, without
    /// starting a transfer.
    pub fn start_download(&mut self, url: &str, filename: &str, download_dir: &str) -> (r: DownloadId)
        requires
            old(self)@.next_id < u64::MAX,
        ensures
            r.0 == old(self)@.next_id,
            exists|now: u64| final(self)@ == (ManagerView {
                downloads: old(self)@.downloads.push(
                    #[trigger] pending_download(
                        r.0,
                        url@,
                        safe_name(filename@),
                        join_path(download_dir@, safe_name(filename@)),
                        now,
                        None,
                    ),
                ),
                next_id: (old(self)@.next_id + 1) as u64,
                ..old(self)@
            }),
    {
        let safe = safe_filename(filename);
        let path = join_path_string(download_dir, safe.as_str());
        self.insert_download(url, filename, path.as_str(), None)
    }

    fn position(&self, id: DownloadId) -> (r: Option<usize>)
        ensures
            r matches Some(i) ==> first_download(self@.downloads, id.0, i as int),
            r is None ==> !has_download(self@.downloads, id.0),
    {
        let n = self.downloads.len();
        let mut i: usize = 0;
        while i < n
            invariant
                n == self.downloads@.len(),
                i <= n,
                forall|j: int| 0 <= j < i ==> self@.downloads[j].id != id.0,
            decreases n - i,
        {
            if self.downloads[i].id.0 == id.0 {
                return Some(i);
            }
            i += 1;
        }
        None
    }

    fn set_state(&mut self, i: usize, st: DownloadState)
        requires
            i < old(self)@.downloads.len(),
        ensures
            final(self)@ == (ManagerView { downloads: with_state(old(self)@.downloads, i as int, st@), ..old(self)@ }),
    {
        let ghost before = self.downloads@;
        let mut d = self.downloads.remove(i);
        d.state = st;
        self.downloads.insert(i, d);
        assert(self.downloads@ =~= before.update(i as int, d));
        assert(self@.downloads =~= with_state(before.map_values(|x: Download| x@), i as int, st@));
    }

    /// Records progress of a download, unless it was cancelled.
    pub fn update_progress(&mut self, id: DownloadId, received: u64, total: Option<u64>)
        ensures
            !has_download(old(self)@.downloads, id.0) ==> final(self)@ == old(self)@,
            has_download(old(self)@.downloads, id.0) ==> exists|i: int|
                first_download(old(self)@.downloads, id.0, i) && final(self)@ == (ManagerView {
                    downloads: if old(self)@.downloads[i].state is Cancelled {
                        old(self)@.downloads
                    } else {
                        with_state(old(self)@.downloads, i, StateView::InProgress { received, total })
                    },
                    ..old(self)@
                }),
    {
        if let Some(i) = self.position(id) {
            if !matches!(self.downloads[i].state, DownloadState::Cancelled) {
                self.set_state(i, DownloadState::InProgress { received, total });
            }
        }
    }

    /// Marks a download complete, unless it was cancelled.
    pub fn mark_complete(&mut self, id: DownloadId)
        ensures
            !has_download(old(self)@.downloads, id.0) ==> final(self)@ == old(self)@,
            has_download(old(self)@.downloads, id.0) ==> exists|i: int|
                first_download(old(self)@.downloads, id.0, i) && final(self)@ == (ManagerView {
                    downloads: if old(self)@.downloads[i].state is Cancelled {
                        old(self)@.downloads
                    } else {
                        with_state(old(self)@.downloads, i, StateView::Complete)
                    },
                    ..old(self)@
                }),
    {
        if let Some(i) = self.position(id) {
            if !matches!(self.downloads[i].state, DownloadState::Cancelled) {
                self.set_state(i, DownloadState::Complete);
            }
        }
    }

    /// Marks a download failed, unless it was cancelled.
    pub fn mark_failed(&mut self, id: DownloadId, error: &str)
        ensures
            !has_download(old(self)@.downloads, id.0) ==> final(self)@ == old(self)@,
            has_download(old(self)@.downloads, id.0) ==> exists|i: int|
                first_download(old(self)@.downloads, id.0, i) && final(self)@ == (ManagerView {
                    downloads: if old(self)@.downloads[i].state is Cancelled {
                        old(self)@.downloads
                    } else {
                        with_state(old(self)@.downloads, i, StateView::Failed(error@))
                    },
                    ..old(self)@
                }),
    {
        if let Some(i) = self.position(id) {
            if !matches!(self.downloads[i].state, DownloadState::Cancelled) {
                self.set_state(i, DownloadState::Failed(error.to_owned()));
            }
        }
    }

    /// Cancels a download: its identifier is recorded as cancelled, and it
    /// becomes cancelled unless already complete.
    pub fn cancel(&mut self, id: DownloadId)
        ensures
            final(self)@.cancelled == old(self)@.cancelled.insert(id.0),
            final(self)@.next_id == old(self)@.next_id,
            final(self)@.download_dir == old(self)@.download_dir,
            !has_download(old(self)@.downloads, id.0) ==> final(self)@.downloads == old(self)@.downloads,
            has_download(old(self)@.downloads, id.0) ==> exists|i: int|
                first_download(old(self)@.downloads, id.0, i) && final(self)@.downloads == if old(
                    self,
                )@.downloads[i].state is Complete {
                    old(self)@.downloads
                } else {
                    with_state(old(self)@.downloads, i, StateView::Cancelled)
                },
    {
        let ghost before = self.cancelled@;
        self.cancelled.push(id);
        proof {
            before.map_values(|d: DownloadId| d.0).lemma_push_to_set_commute(id.0);
            assert(self.cancelled@.map_values(|d: DownloadId| d.0) =~= before.map_values(|d: DownloadId| d.0).push(id.0));
        }
        if let Some(i) = self.position(id) {
            if !matches!(self.downloads[i].state, DownloadState::Complete) {
                self.set_state(i, DownloadState::Cancelled);
            }
        }
    }

    /// Whether a download was cancelled.
    pub fn is_cancelled(&self, id: DownloadId) -> (r: bool)
        ensures
            r == self@.cancelled.contains(id.0),
    {
        let mut i: usize = 0;
        while i < self.cancelled.len()
            invariant
                i <= self.cancelled@.len(),
                forall|j: int| 0 <= j < i ==> self.cancelled@[j].0 != id.0,
            decreases self.cancelled.len() - i,
        {
            if self.cancelled[i].0 == id.0 {
                assert(self.cancelled@.map_values(|d: DownloadId| d.0)[i as int] == id.0);
                return true;
            }
            i += 1;
        }
        let ghost cv = self.cancelled@.map_values(|d: DownloadId| d.0);
        assert(!cv.contains(id.0)) by {
            if cv.contains(id.0) {
                let j = choose|j: int| 0 <= j < cv.len() && #[trigger] cv[j] == id.0;
                assert(self.cancelled@[j].0 == id.0);
            }
        }
        false
    }

    /// Removes every download with an identifier from the list (its file
    /// stays) and forgets its cancellation; whether there was one.
    pub fn remove(&mut self, id: DownloadId) -> (r: bool)
        ensures
            final(self)@.downloads == old(self)@.downloads.filter(|d: DownloadView| d.id != id.0),
            final(self)@.cancelled == old(self)@.cancelled.remove(id.0),
            final(self)@.next_id == old(self)@.next_id,
            final(self)@.download_dir == old(self)@.download_dir,
            r == has_download(old(self)@.downloads, id.0),
    {
        let ghost pred = |d: DownloadView| d.id != id.0;
        let ghost allv = self@.downloads;
        let mut kept: Vec<Download> = Vec::new();
        let n = self.downloads.len();
        let mut found = false;
        let mut i: usize = 0;
        while i < n
            invariant
                n == self.downloads@.len(),
                i <= n,
                allv == self@.downloads,
                pred == (|d: DownloadView| d.id != id.0),
                kept@.map_values(|d: Download| d@) == allv.take(i as int).filter(pred),
                found == exists|j: int| 0 <= j < i && allv[j].id == id.0,
            decreases n - i,
        {
            let d = &self.downloads[i];
            assert(allv[i as int] == d@);
            let ghost before = kept@;
            if d.id.0 != id.0 {
                kept.push(d.copy());
                assert(kept@.map_values(|x: Download| x@) =~= before.map_values(|x: Download| x@).push(allv[i as int]));
            } else {
                found = true;
            }
            assert(allv.take(i + 1).drop_last() =~= allv.take(i as int));
            assert(allv.take(i + 1).last() == allv[i as int]);
            reveal_with_fuel(Seq::filter, 1);
            i += 1;
        }
        assert(allv.take(n as int) =~= allv);
        self.downloads = kept;
        let ghost cv = self.cancelled@.map_values(|d: DownloadId| d.0);
        let mut keep_c: Vec<DownloadId> = Vec::new();
        let mut k: usize = 0;
        while k < self.cancelled.len()
            invariant
                k <= self.cancelled@.len(),
                cv == self.cancelled@.map_values(|d: DownloadId| d.0),
                keep_c@.map_values(|d: DownloadId| d.0).to_set() == cv.take(k as int).to_set().remove(id.0),
            decreases self.cancelled.len() - k,
        {
            let c = self.cancelled[k];
            let ghost before = keep_c@.map_values(|d: DownloadId| d.0);
            assert(cv.take(k + 1) =~= cv.take(k as int).push(c.0));
            proof {
                cv.take(k as int).lemma_push_to_set_commute(c.0);
            }
            if c.0 != id.0 {
                keep_c.push(c);
                proof {
                    assert(keep_c@.map_values(|d: DownloadId| d.0) =~= before.push(c.0));
                    before.lemma_push_to_set_commute(c.0);
                }
                assert(before.push(c.0).to_set() =~= cv.take(k + 1).to_set().remove(id.0));
            } else {
                assert(before.to_set() =~= cv.take(k + 1).to_set().remove(id.0));
            }
            k += 1;
        }
        assert(cv.take(self.cancelled@.len() as int) =~= cv);
        self.cancelled = keep_c;
        found
    }

    /// A copy of the first download with an identifier.
    pub fn get(&self, id: DownloadId) -> (r: Option<Download>)
        ensures
            r is None <==> !has_download(self@.downloads, id.0),
            r matches Some(d) ==> exists|i: int| first_download(self@.downloads, id.0, i) && d@ == self@.downloads[i],
    {
        match self.position(id) {
            Some(i) => Some(self.downloads[i].copy()),
            None => None,
        }
    }

    /// Copies of all downloads, most recent first.
    pub fn all(&self) -> (r: Vec<Download>)
        ensures
            r@.map_values(|d: Download| d@) == newest_first(self@.downloads),
    {
        let ghost nf = newest_first(self@.downloads);
        let n = self.downloads.len();
        let mut r: Vec<Download> = Vec::new();
        let mut i: usize = 0;
        while i < n
            invariant
                n == self.downloads@.len(),
                i <= n,
                nf == newest_first(self@.downloads),
                r@.map_values(|d: Download| d@) == nf.take(i as int),
            decreases n - i,
        {
            let c = self.downloads[n - 1 - i].copy();
            let ghost before = r@;
            r.push(c);
            assert(r@.map_values(|d: Download| d@) =~= before.map_values(|d: Download| d@).push(nf[i as int]));
            assert(nf.take(i + 1) =~= nf.take(i as int).push(nf[i as int]));
            i += 1;
        }
        assert(nf.take(n as int) =~= nf);
        r
    }

    /// Copies of the running downloads, most recent first.
    pub fn in_progress(&self) -> (r: Vec<Download>)
        ensures
            r@.map_values(|d: Download| d@) == newest_first(self@.downloads).filter(|d: DownloadView| is_active(d)),
    {
        let everything = self.all();
        let ghost allv = everything@.map_values(|d: Download| d@);
        let ghost pred = |d: DownloadView| is_active(d);
        let mut r: Vec<Download> = Vec::new();
        let mut i: usize = 0;
        while i < everything.len()
            invariant
                i <= everything@.len(),
                allv == everything@.map_values(|d: Download| d@),
                pred == (|d: DownloadView| is_active(d)),
                r@.map_values(|d: Download| d@) == allv.take(i as int).filter(pred),
            decreases everything.len() - i,
        {
            let d = &everything[i];
            assert(allv[i as int] == d@);
            let ghost before = r@;
            if matches!(d.state, DownloadState::Pending) || matches!(d.state, DownloadState::InProgress { .. }) {
                r.push(d.copy());
                assert(r@.map_values(|x: Download| x@) =~= before.map_values(|x: Download| x@).push(allv[i as int]));
            }
            assert(allv.take(i + 1).drop_last() =~= allv.take(i as int));
            assert(allv.take(i + 1).last() == allv[i as int]);
            reveal_with_fuel(Seq::filter, 1);
            i += 1;
        }
        assert(allv.take(everything@.len() as int) =~= allv);
        r
    }

    /// The number of downloads.
    pub fn count(&self) -> (r: usize)
        ensures
            r == self@.downloads.len(),
    {
        self.downloads.len()
    }

    /// Removes the complete, failed and cancelled downloads from the list.
    pub fn clear_finished(&mut self)
        ensures
            final(self)@ == (ManagerView {
                downloads: old(self)@.downloads.filter(|d: DownloadView| is_active(d)),
                ..old(self)@
            }),
    {
        let ghost pred = |d: DownloadView| is_active(d);
        let ghost allv = self@.downloads;
        let mut kept: Vec<Download> = Vec::new();
        let n = self.downloads.len();
        let mut i: usize = 0;
        while i < n
            invariant
                n == self.downloads@.len(),
                i <= n,
                allv == self@.downloads,
                pred == (|d: DownloadView| is_active(d)),
                kept@.map_values(|d: Download| d@) == allv.take(i as int).filter(pred),
            decreases n - i,
        {
            let d = &self.downloads[i];
            assert(allv[i as int] == d@);
            let ghost before = kept@;
            if matches!(d.state, DownloadState::Pending) || matches!(d.state, DownloadState::InProgress { .. }) {
                kept.push(d.copy());
                assert(kept@.map_values(|x: Download| x@) =~= before.map_values(|x: Download| x@).push(allv[i as int]));
            }
            assert(allv.take(i + 1).drop_last() =~= allv.take(i as int));
            assert(allv.take(i + 1).last() == allv[i as int]);
            reveal_with_fuel(Seq::filter, 1);
            i += 1;
        }
        assert(allv.take(n as int) =~= allv);
        self.downloads = kept;
    }
}
} // verus!
