//! The network panel: the log of requests, their detail, filtering and
//! sorting.
use vstd::prelude::*;
use crate::extensions::messaging::unix_millis_now;
use crate::order::{insert_sorted, lemma_insert_sorted_at, lemma_stable_sort_key_sorted, stable_sort};
use crate::text::{
    char_is_space, is_space,
    ascii_lower, chars_contains, chars_of, chars_split, chars_starts_with, contains_seq,
    has_prefix, lex_lt, split_char, str_eq, str_eq_ignore_ascii_case, str_lt, str_to_ascii_lower,
    string_from_chars, u64_to_decimal, decimal,
};
use crate::units::{format_duration, format_size, duration_text, size_text, Duration};

verus! {

/// The identifier of an entry of the panel.
#[derive(Debug, Clone, Copy, PartialEq, Eq, Hash, Structural)]
pub struct RequestId(pub u64);

/// The kind of resource fetched, for filtering.
#[derive(Debug, Clone, Copy, PartialEq, Eq, Hash, Structural)]
pub enum ResourceType {
    /// HTML document (main frame or iframe).
    Document,
    /// JavaScript file.
    Script,
    /// CSS stylesheet.
    Stylesheet,
    /// Image (PNG, JPEG, WebP, etc.).
    Image,
    /// Font file (WOFF2, TTF, etc.).
    Font,
    /// Audio or video media.
    Media,
    /// XMLHttpRequest.
    Xhr,
    /// Fetch API call.
    Fetch,
    /// WebSocket upgrade.
    WebSocket,
    /// Anything that doesn't fit the above.
    Other,
}

/// The label of a resource type on its filter button.
pub open spec fn type_label(t: ResourceType) -> Seq<char> {
    match t {
        ResourceType::Document => "Doc"@,
        ResourceType::Script => "JS"@,
        ResourceType::Stylesheet => "CSS"@,
        ResourceType::Image => "Img"@,
        ResourceType::Font => "Font"@,
        ResourceType::Media => "Media"@,
        ResourceType::Xhr => "XHR"@,
        ResourceType::Fetch => "Fetch"@,
        ResourceType::WebSocket => "WS"@,
        ResourceType::Other => "Other"@,
    }
}

/// The resource type a Content-Type value names, compared in ASCII lowercase.
pub open spec fn type_for_content(ct: Seq<char>) -> ResourceType {
    let l = ascii_lower(ct);
    if has_prefix(l, "text/html"@) {
        ResourceType::Document
    } else if contains_seq(l, "javascript"@) || contains_seq(l, "ecmascript"@) {
        ResourceType::Script
    } else if has_prefix(l, "text/css"@) {
        ResourceType::Stylesheet
    } else if has_prefix(l, "image/"@) {
        ResourceType::Image
    } else if contains_seq(l, "font"@) || has_prefix(l, "application/x-font"@) {
        ResourceType::Font
    } else if has_prefix(l, "audio/"@) || has_prefix(l, "video/"@) {
        ResourceType::Media
    } else {
        ResourceType::Other
    }
}

fn lit_prefix(l: &Vec<char>, p: &str) -> (r: bool)
    ensures
        r == has_prefix(l@, p@),
{
    let pv = chars_of(p);
    chars_starts_with(l.as_slice(), pv.as_slice())
}

fn lit_contains(l: &Vec<char>, p: &str) -> (r: bool)
    ensures
        r == contains_seq(l@, p@),
{
    let pv = chars_of(p);
    chars_contains(l.as_slice(), pv.as_slice())
}

impl ResourceType {
    /// The label on the filter button.
    pub fn label(self) -> (r: &'static str)
        ensures
            r@ == type_label(self),
    {
        match self {
            ResourceType::Document => "Doc",
            ResourceType::Script => "JS",
            ResourceType::Stylesheet => "CSS",
            ResourceType::Image => "Img",
            ResourceType::Font => "Font",
            ResourceType::Media => "Media",
            ResourceType::Xhr => "XHR",
            ResourceType::Fetch => "Fetch",
            ResourceType::WebSocket => "WS",
            ResourceType::Other => "Other",
        }
    }

    /// All resource types, in the order of the filter buttons.
    pub fn all() -> (r: Vec<ResourceType>)
        ensures
            r@ == seq![
                ResourceType::Document,
                ResourceType::Script,
                ResourceType::Stylesheet,
                ResourceType::Image,
                ResourceType::Font,
                ResourceType::Media,
                ResourceType::Xhr,
                ResourceType::Fetch,
                ResourceType::WebSocket,
                ResourceType::Other,
            ],
    {
        let r = vec![
            ResourceType::Document,
            ResourceType::Script,
            ResourceType::Stylesheet,
            ResourceType::Image,
            ResourceType::Font,
            ResourceType::Media,
            ResourceType::Xhr,
            ResourceType::Fetch,
            ResourceType::WebSocket,
            ResourceType::Other,
        ];
        assert(r@ =~= seq![
            ResourceType::Document,
            ResourceType::Script,
            ResourceType::Stylesheet,
            ResourceType::Image,
            ResourceType::Font,
            ResourceType::Media,
            ResourceType::Xhr,
            ResourceType::Fetch,
            ResourceType::WebSocket,
            ResourceType::Other,
        ]);
        r
    }

    /// The resource type a Content-Type value names.
    pub fn from_content_type(ct: &str) -> (r: Self)
        ensures
            r == type_for_content(ct@),
    {
        let l = str_to_ascii_lower(ct);
        if lit_prefix(&l, "text/html") {
            ResourceType::Document
        } else if lit_contains(&l, "javascript") || lit_contains(&l, "ecmascript") {
            ResourceType::Script
        } else if lit_prefix(&l, "text/css") {
            ResourceType::Stylesheet
        } else if lit_prefix(&l, "image/") {
            ResourceType::Image
        } else if lit_contains(&l, "font") || lit_prefix(&l, "application/x-font") {
            ResourceType::Font
        } else if lit_prefix(&l, "audio/") || lit_prefix(&l, "video/") {
            ResourceType::Media
        } else {
            ResourceType::Other
        }
    }
}

/// The phase of a request.
#[derive(Debug, Clone, Copy, PartialEq, Eq, Structural)]
pub enum RequestPhase {
    /// The request is in flight.
    Pending,
    /// The response was received.
    Complete,
    /// The request failed (DNS error, timeout, etc.).
    Failed,
    /// The request was cancelled.
    Cancelled,
}

/// How long each phase of a request took; zero for a skipped phase.
#[derive(Debug, Clone, Copy, Default, PartialEq, Eq, Structural)]
pub struct RequestTiming {
    /// DNS lookup time.
    pub dns: Duration,
    /// TCP connection time (after DNS).
    pub connect: Duration,
    /// TLS handshake time (after connection).
    pub tls: Duration,
    /// Time to first byte (after TLS / sending request).
    pub first_byte: Duration,
    /// Download time (first byte to last byte).
    pub download: Duration,
}

/// The total time of a request, in nanoseconds.
pub open spec fn timing_total(t: RequestTiming) -> nat {
    t.dns@ + t.connect@ + t.tls@ + t.first_byte@ + t.download@
}

impl RequestTiming {
    /// The sum of all phases.
    pub fn total(&self) -> (r: Duration)
        requires
            timing_total(*self) <= u64::MAX,
        ensures
            r@ == timing_total(*self),
    {
        self.dns.plus(self.connect).plus(self.tls).plus(self.first_byte).plus(self.download)
    }

    /// The total as shown, e.g. `123 ms`.
    pub fn total_display(&self) -> (r: String)
        requires
            timing_total(*self) <= u64::MAX,
        ensures
            r@ == duration_text(timing_total(*self)),
    {
        format_duration(self.total())
    }

    fn total_nanos(&self) -> (r: u128)
        ensures
            r == timing_total(*self),
    {
        self.dns.as_nanos() as u128 + self.connect.as_nanos() as u128 + self.tls.as_nanos() as u128
            + self.first_byte.as_nanos() as u128 + self.download.as_nanos() as u128
    }
}

/// The last non-empty piece, if any.
pub open spec fn last_nonempty(pieces: Seq<Seq<char>>) -> Option<Seq<char>>
    decreases pieces.len(),
{
    if pieces.len() == 0 {
        None
    } else if pieces.last().len() > 0 {
        Some(pieces.last())
    } else {
        last_nonempty(pieces.drop_last())
    }
}

/// The short name of a URL: its last non-empty `/`-separated segment, or
/// the whole URL.
pub open spec fn display_name_of(url: Seq<char>) -> Seq<char> {
    match last_nonempty(split_char(url, '/')) {
        Some(p) => p,
        None => url,
    }
}

fn short_name(url: &str) -> (r: String)
    ensures
        r@ == display_name_of(url@),
{
    let cs = chars_of(url);
    let pieces = chars_split(cs.as_slice(), '/');
    let ghost pv = pieces@.map_values(|v: Vec<char>| v@);
    let mut k: usize = pieces.len();
    assert(pv.take(k as int) =~= pv);
    while k > 0
        invariant
            k <= pieces@.len(),
            pv == pieces@.map_values(|v: Vec<char>| v@),
            pv == split_char(url@, '/'),
            last_nonempty(pv) == last_nonempty(pv.take(k as int)),
        decreases k,
    {
        assert(pv.take(k as int).last() == pv[k - 1]);
        assert(pv.take(k as int).drop_last() =~= pv.take(k - 1));
        if pieces[k - 1].len() > 0 {
            return string_from_chars(pieces[k - 1].as_slice());
        }
        k -= 1;
    }
    assert(pv.take(0) =~= Seq::<Seq<char>>::empty());
    url.to_owned()
}

/// The request headers or response headers of an entry: names with values.
pub open spec fn pairs_view(v: Seq<(String, String)>) -> Seq<(Seq<char>, Seq<char>)> {
    v.map_values(|p: (String, String)| (p.0@, p.1@))
}

fn copy_pairs(v: &Vec<(String, String)>) -> (r: Vec<(String, String)>)
    ensures
        pairs_view(r@) == pairs_view(v@),
{
    let mut r: Vec<(String, String)> = Vec::new();
    let mut i: usize = 0;
    while i < v.len()
        invariant
            i <= v@.len(),
            pairs_view(r@) == pairs_view(v@).take(i as int),
        decreases v.len() - i,
    {
        let ghost before = r@;
        let e = (v[i].0.clone(), v[i].1.clone());
        assert((e.0@, e.1@) == pairs_view(v@)[i as int]);
        r.push(e);
        assert(pairs_view(r@) =~= pairs_view(before).push((e.0@, e.1@)));
        assert(pairs_view(v@).take(i + 1) =~= pairs_view(v@).take(i as int).push(pairs_view(v@)[i as int]));
        i += 1;
    }
    assert(pairs_view(v@).take(v@.len() as int) =~= pairs_view(v@));
    r
}

/// One request of the log.
#[derive(Debug, Clone)]
pub struct NetworkEntry {
    /// Identifier within the panel.
    pub id: RequestId,
    /// When the request started, in milliseconds since the Unix epoch.
    pub started_at: u128,
    /// Request URL.
    pub url: String,
    /// HTTP method.
    pub method: String,
    /// HTTP status code (0 while pending).
    pub status: u16,
    /// Response Content-Type header, once known.
    pub content_type: Option<String>,
    /// Response body size in bytes.
    pub size: u64,
    /// The kind of resource.
    pub resource_type: ResourceType,
    /// Timing breakdown.
    pub timing: RequestTiming,
    /// Request headers.
    pub request_headers: Vec<(String, String)>,
    /// Response headers.
    pub response_headers: Vec<(String, String)>,
    /// Body preview.
    pub body_preview: Option<String>,
    /// Whether the response came from the cache.
    pub was_cached: bool,
    /// The phase of the request.
    pub phase: RequestPhase,
    /// Error message of a failed request.
    pub error: Option<String>,
}

/// The value of an optional text.
pub open spec fn opt_view(o: Option<String>) -> Option<Seq<char>> {
    match o {
        Some(s) => Some(s@),
        None => None,
    }
}

/// The value of an entry.
pub struct EntryView {
    pub id: u64,
    pub started_at: u128,
    pub url: Seq<char>,
    pub method: Seq<char>,
    pub status: u16,
    pub content_type: Option<Seq<char>>,
    pub size: u64,
    pub resource_type: ResourceType,
    pub timing: RequestTiming,
    pub request_headers: Seq<(Seq<char>, Seq<char>)>,
    pub response_headers: Seq<(Seq<char>, Seq<char>)>,
    pub body_preview: Option<Seq<char>>,
    pub was_cached: bool,
    pub phase: RequestPhase,
    pub error: Option<Seq<char>>,
}

impl View for NetworkEntry {
    type V = EntryView;

    open spec fn view(&self) -> EntryView {
        EntryView {
            id: self.id.0,
            started_at: self.started_at,
            url: self.url@,
            method: self.method@,
            status: self.status,
            content_type: opt_view(self.content_type),
            size: self.size,
            resource_type: self.resource_type,
            timing: self.timing,
            request_headers: pairs_view(self.request_headers@),
            response_headers: pairs_view(self.response_headers@),
            body_preview: opt_view(self.body_preview),
            was_cached: self.was_cached,
            phase: self.phase,
            error: opt_view(self.error),
        }
    }
}

fn copy_opt(o: &Option<String>) -> (r: Option<String>)
    ensures
        opt_view(r) == opt_view(*o),
{
    match o {
        Some(s) => Some(s.clone()),
        None => None,
    }
}

impl NetworkEntry {
    /// The short name: the last non-empty path segment, or the host.
    pub fn display_name(&self) -> (r: String)
        ensures
            r@ == display_name_of(self.url@),
    {
        short_name(self.url.as_str())
    }

    /// The body size as shown.
    pub fn size_display(&self) -> (r: String)
        ensures
            r@ == size_text(self.size as nat),
    {
        format_size(self.size)
    }

    /// The hundreds digit of the status: 2 for success, 3 for redirect, ...
    pub fn status_category(&self) -> (r: u8)
        ensures
            r == (self.status / 100) as u8,
    {
        #[verifier::truncate]
        ((self.status / 100) as u8)
    }

    /// A copy of the entry.
    pub fn copy(&self) -> (r: Self)
        ensures
            r@ == self@,
    {
        NetworkEntry {
            id: self.id,
            started_at: self.started_at,
            url: self.url.clone(),
            method: self.method.clone(),
            status: self.status,
            content_type: copy_opt(&self.content_type),
            size: self.size,
            resource_type: self.resource_type,
            timing: self.timing,
            request_headers: copy_pairs(&self.request_headers),
            response_headers: copy_pairs(&self.response_headers),
            body_preview: copy_opt(&self.body_preview),
            was_cached: self.was_cached,
            phase: self.phase,
            error: copy_opt(&self.error),
        }
    }
}

/// The columns the log can be sorted by.
#[derive(Debug, Clone, Copy, PartialEq, Eq, Structural)]
pub enum SortColumn {
    /// By display name.
    Name,
    /// By HTTP method.
    Method,
    /// By HTTP status code.
    Status,
    /// By resource type label.
    Type,
    /// By body size.
    Size,
    /// By total time.
    Time,
}

impl SortColumn {
    /// The column header.
    pub fn label(self) -> (r: &'static str)
        ensures
            r@ == match self {
                SortColumn::Name => "Name"@,
                SortColumn::Method => "Method"@,
                SortColumn::Status => "Status"@,
                SortColumn::Type => "Type"@,
                SortColumn::Size => "Size"@,
                SortColumn::Time => "Time"@,
            },
    {
        match self {
            SortColumn::Name => "Name",
            SortColumn::Method => "Method",
            SortColumn::Status => "Status",
            SortColumn::Type => "Type",
            SortColumn::Size => "Size",
            SortColumn::Time => "Time",
        }
    }

    /// All columns, in display order.
    pub fn all() -> (r: Vec<SortColumn>)
        ensures
            r@ == seq![
                SortColumn::Name,
                SortColumn::Method,
                SortColumn::Status,
                SortColumn::Type,
                SortColumn::Size,
                SortColumn::Time,
            ],
    {
        let r = vec![
            SortColumn::Name,
            SortColumn::Method,
            SortColumn::Status,
            SortColumn::Type,
            SortColumn::Size,
            SortColumn::Time,
        ];
        assert(r@ =~= seq![
            SortColumn::Name,
            SortColumn::Method,
            SortColumn::Status,
            SortColumn::Type,
            SortColumn::Size,
            SortColumn::Time,
        ]);
        r
    }
}

/// A filter on the status code.
#[derive(Debug, Clone, Copy, PartialEq, Eq, Structural)]
pub enum StatusFilter {
    /// Every status.
    All,
    /// 2xx.
    Success,
    /// 3xx.
    Redirect,
    /// 4xx.
    ClientError,
    /// 5xx.
    ServerError,
}

/// Whether a status passes a filter.
pub open spec fn status_passes(f: StatusFilter, status: u16) -> bool {
    match f {
        StatusFilter::All => true,
        StatusFilter::Success => 200 <= status < 300,
        StatusFilter::Redirect => 300 <= status < 400,
        StatusFilter::ClientError => 400 <= status < 500,
        StatusFilter::ServerError => 500 <= status < 600,
    }
}

impl StatusFilter {
    /// The label.
    pub fn label(self) -> (r: &'static str)
        ensures
            r@ == match self {
                StatusFilter::All => "All"@,
                StatusFilter::Success => "2xx"@,
                StatusFilter::Redirect => "3xx"@,
                StatusFilter::ClientError => "4xx"@,
                StatusFilter::ServerError => "5xx"@,
            },
    {
        match self {
            StatusFilter::All => "All",
            StatusFilter::Success => "2xx",
            StatusFilter::Redirect => "3xx",
            StatusFilter::ClientError => "4xx",
            StatusFilter::ServerError => "5xx",
        }
    }

    /// Whether a status code passes the filter.
    pub fn matches(self, status: u16) -> (r: bool)
        ensures
            r == status_passes(self, status),
    {
        match self {
            StatusFilter::All => true,
            StatusFilter::Success => 200 <= status && status < 300,
            StatusFilter::Redirect => 300 <= status && status < 400,
            StatusFilter::ClientError => 400 <= status && status < 500,
            StatusFilter::ServerError => 500 <= status && status < 600,
        }
    }
}

/// The tabs of the detail view.
#[derive(Debug, Clone, Copy, PartialEq, Eq, Structural)]
pub enum DetailTab {
    /// Request and response headers.
    Headers,
    /// Response body preview.
    Preview,
    /// Timing.
    Timing,
}

impl DetailTab {
    /// The label.
    pub fn label(self) -> (r: &'static str)
        ensures
            r@ == match self {
                DetailTab::Headers => "Headers"@,
                DetailTab::Preview => "Preview"@,
                DetailTab::Timing => "Timing"@,
            },
    {
        match self {
            DetailTab::Headers => "Headers",
            DetailTab::Preview => "Preview",
            DetailTab::Timing => "Timing",
        }
    }

    /// All tabs, in display order.
    pub fn all() -> (r: Vec<DetailTab>)
        ensures
            r@ == seq![DetailTab::Headers, DetailTab::Preview, DetailTab::Timing],
    {
        let r = vec![DetailTab::Headers, DetailTab::Preview, DetailTab::Timing];
        assert(r@ =~= seq![DetailTab::Headers, DetailTab::Preview, DetailTab::Timing]);
        r
    }
}

/// A header for display.
#[derive(Debug, Clone)]
pub struct HeaderRow {
    /// Header name.
    pub name: String,
    /// Header value.
    pub value: String,
}

/// Whether header `a` goes before header `b`: by ASCII-lowercased name.
pub open spec fn header_before(a: (Seq<char>, Seq<char>), b: (Seq<char>, Seq<char>)) -> bool {
    lex_lt(ascii_lower(a.0), ascii_lower(b.0))
}

fn header_insert_pos(rows: &Vec<HeaderRow>, xl: &[char]) -> (p: usize)
    ensures
        p <= rows@.len(),
        forall|j: int| 0 <= j < p ==> !lex_lt(xl@, ascii_lower(#[trigger] rows@[j].name@)),
        p < rows@.len() ==> lex_lt(xl@, ascii_lower(rows@[p as int].name@)),
{
    let mut p: usize = 0;
    while p < rows.len()
        invariant
            p <= rows@.len(),
            forall|j: int| 0 <= j < p ==> !lex_lt(xl@, ascii_lower(#[trigger] rows@[j].name@)),
        decreases rows.len() - p,
    {
        let yl = str_to_ascii_lower(rows[p].name.as_str());
        if crate::text::chars_lt(xl, yl.as_slice()) {
            return p;
        }
        p += 1;
    }
    p
}

/// Header rows sorted by name, ASCII case-insensitively; headers with equal
/// names keep their order.
pub fn build_header_rows(headers: &[(String, String)]) -> (r: Vec<HeaderRow>)
    ensures
        r@.map_values(|h: HeaderRow| (h.name@, h.value@)) == stable_sort(
            headers@.map_values(|p: (String, String)| (p.0@, p.1@)),
            |a: (Seq<char>, Seq<char>), b: (Seq<char>, Seq<char>)| header_before(a, b),
        ),
{
    let ghost before = |a: (Seq<char>, Seq<char>), b: (Seq<char>, Seq<char>)| header_before(a, b);
    let ghost hv = headers@.map_values(|p: (String, String)| (p.0@, p.1@));
    let mut rows: Vec<HeaderRow> = Vec::new();
    let mut i: usize = 0;
    while i < headers.len()
        invariant
            i <= headers@.len(),
            hv == headers@.map_values(|p: (String, String)| (p.0@, p.1@)),
            before == (|a: (Seq<char>, Seq<char>), b: (Seq<char>, Seq<char>)| header_before(a, b)),
            rows@.map_values(|h: HeaderRow| (h.name@, h.value@)) == stable_sort(hv.take(i as int), before),
        decreases headers.len() - i,
    {
        let ghost rv = rows@.map_values(|h: HeaderRow| (h.name@, h.value@));
        let x = HeaderRow { name: headers[i].0.clone(), value: headers[i].1.clone() };
        let ghost xv = (x.name@, x.value@);
        assert(xv == hv[i as int]);
        let xl = str_to_ascii_lower(x.name.as_str());
        let p = header_insert_pos(&rows, xl.as_slice());
        proof {
            assert forall|j: int| 0 <= j < p implies !before(xv, #[trigger] rv[j]) by {
                assert(rv[j] == (rows@[j].name@, rows@[j].value@));
            }
            if p < rv.len() {
                assert(rv[p as int] == (rows@[p as int].name@, rows@[p as int].value@));
            }
            lemma_insert_sorted_at(rv, xv, before, p as int);
            assert(hv.take(i + 1).drop_last() =~= hv.take(i as int));
            assert(hv.take(i + 1).last() == xv);
        }
        rows.insert(p, x);
        assert(rows@.map_values(|h: HeaderRow| (h.name@, h.value@)) =~= rv.insert(p as int, xv));
        i += 1;
    }
    assert(hv.take(headers@.len() as int) =~= hv);
    rows
}


/// Whether the text, after leading white space, starts with `{` or `[`.
pub open spec fn looks_like_json(s: Seq<char>) -> bool {
    exists|i: int|
        0 <= i < s.len() && (forall|j: int| 0 <= j < i ==> is_space(#[trigger] s[j])) && (s[i] == '{'
            || s[i] == '[')
}

fn starts_like_json(s: &str) -> (r: bool)
    ensures
        r == looks_like_json(s@),
{
    let cs = chars_of(s);
    let mut i: usize = 0;
    while i < cs.len()
        invariant
            i <= cs@.len(),
            cs@ == s@,
            forall|j: int| 0 <= j < i ==> is_space(#[trigger] cs@[j]),
        decreases cs.len() - i,
    {
        if !char_is_space(cs[i]) {
            let c = cs[i];
            if c == '{' || c == '[' {
                return true;
            }
            assert forall|k: int|
                0 <= k < s@.len() && (forall|j: int| 0 <= j < k ==> is_space(#[trigger] s@[j])) implies !(
            s@[k] == '{' || s@[k] == '[') by {
                if k > i {
                    assert(is_space(s@[i as int]));
                }
            }
            return false;
        }
        i += 1;
    }
    false
}

/// The name of what `serde_json` makes of a text when it parses it as JSON
/// and writes it back pretty-printed; none when it does not parse.
pub uninterp spec fn pretty_json(text: Seq<char>) -> Option<Seq<char>>;

/// Parses a text as JSON (`serde_json::from_str` into a `Value`) and writes
/// it back with `serde_json::to_string_pretty`.
#[verifier::external_body]
fn json_pretty(text: &str) -> (r: Option<String>)
    ensures
        r matches Some(p) ==> pretty_json(text@) == Some(p@),
        r is None ==> pretty_json(text@) is None,
{
    match serde_json::from_str::<serde_json::Value>(text) {
        Ok(v) => serde_json::to_string_pretty(&v).ok(),
        Err(_) => None,
    }
}

/// A text cut to `max_len` characters, with `…` after a cut.
pub open spec fn truncated(t: Seq<char>, max_len: nat) -> Seq<char> {
    if t.len() <= max_len {
        t
    } else {
        t.take(max_len as int).push('…')
    }
}

/// Whether a body is taken for JSON: its content type says so, or it
/// starts with `{` or `[`.
pub open spec fn is_json_body(body: Seq<char>, content_type: Option<Seq<char>>) -> bool {
    (content_type matches Some(ct) && contains_seq(ct, "json"@)) || looks_like_json(body)
}

/// The preview of a body: pretty-printed when it is JSON that parses, then
/// cut to `max_len` characters.
pub open spec fn preview_text(body: Seq<char>, content_type: Option<Seq<char>>, max_len: nat) -> Seq<char> {
    if is_json_body(body, content_type) && pretty_json(body) is Some {
        truncated(pretty_json(body)->0, max_len)
    } else {
        truncated(body, max_len)
    }
}

/// Cuts a text to `max_len` characters, with `…` after a cut.
pub fn truncate_text(t: &str, max_len: usize) -> (r: String)
    ensures
        r@ == truncated(t@, max_len as nat),
{
    let cs = chars_of(t);
    if cs.len() <= max_len {
        return t.to_owned();
    }
    let mut out: Vec<char> = Vec::new();
    let mut i: usize = 0;
    while i < max_len
        invariant
            i <= max_len < cs@.len(),
            out@ == cs@.take(i as int),
        decreases max_len - i,
    {
        out.push(cs[i]);
        assert(cs@.take(i + 1) =~= cs@.take(i as int).push(cs@[i as int]));
        i += 1;
    }
    out.push('…');
    string_from_chars(out.as_slice())
}

/// The preview kept for a body, given what the JSON pretty-printer made of
/// it (`pretty`), when it was asked.
pub fn preview_from(body: &str, pretty: Option<String>, max_len: usize) -> (r: String)
    ensures
        pretty matches Some(p) ==> r@ == truncated(p@, max_len as nat),
        pretty is None ==> r@ == truncated(body@, max_len as nat),
{
    match pretty {
        Some(p) => truncate_text(p.as_str(), max_len),
        None => truncate_text(body, max_len),
    }
}

/// The preview of a response body: JSON (by content type or by its first
/// character) is pretty-printed when it parses; the text is cut to
/// `max_len` characters.
pub fn format_body_preview(body: &str, content_type: Option<&str>, max_len: usize) -> (r: String)
    ensures
        r@ == preview_text(
            body@,
            match content_type {
                Some(c) => Some(c@),
                None => None,
            },
            max_len as nat,
        ),
{
    let ct_json = match content_type {
        Some(c) => {
            let cv = chars_of(c);
            lit_contains(&cv, "json")
        },
        None => false,
    };
    let is_json = ct_json || starts_like_json(body);
    if is_json {
        let pretty = json_pretty(body);
        preview_from(body, pretty, max_len)
    } else {
        preview_from(body, None, max_len)
    }
}

/// The most entries the log keeps.
pub const MAX_NETWORK_ENTRIES: usize = 5000;

/// The longest body preview kept, in characters.
pub const MAX_PREVIEW_LEN: usize = 10_000;

/// What is known once a response arrives.
#[derive(Debug, Clone)]
pub struct ResponseData {
    /// HTTP status code.
    pub status: u16,
    /// Response headers.
    pub response_headers: Vec<(String, String)>,
    /// Response body size in bytes.
    pub size: u64,
    /// Timing breakdown.
    pub timing: RequestTiming,
    /// Raw body preview text (formatted when stored).
    pub body_preview: Option<String>,
    /// Whether the response came from the cache.
    pub was_cached: bool,
}

/// The value of response data.
pub struct ResponseView {
    pub status: u16,
    pub response_headers: Seq<(Seq<char>, Seq<char>)>,
    pub size: u64,
    pub timing: RequestTiming,
    pub body_preview: Option<Seq<char>>,
    pub was_cached: bool,
}

impl View for ResponseData {
    type V = ResponseView;

    open spec fn view(&self) -> ResponseView {
        ResponseView {
            status: self.status,
            response_headers: pairs_view(self.response_headers@),
            size: self.size,
            timing: self.timing,
            body_preview: opt_view(self.body_preview),
            was_cached: self.was_cached,
        }
    }
}

/// The value of the first header named `content-type` in any case.
pub open spec fn response_content_type(h: Seq<(Seq<char>, Seq<char>)>) -> Option<Seq<char>>
    decreases h.len(),
{
    if h.len() == 0 {
        None
    } else if ascii_lower(h[0].0) == ascii_lower("content-type"@) {
        Some(h[0].1)
    } else {
        response_content_type(h.drop_first())
    }
}

fn find_content_type(h: &Vec<(String, String)>) -> (r: Option<String>)
    ensures
        opt_view(r) == response_content_type(pairs_view(h@)),
{
    let ghost hv = pairs_view(h@);
    let mut i: usize = 0;
    assert(hv.skip(0) =~= hv);
    while i < h.len()
        invariant
            i <= h@.len(),
            hv == pairs_view(h@),
            response_content_type(hv) == response_content_type(hv.skip(i as int)),
        decreases h.len() - i,
    {
        assert(hv.skip(i as int)[0] == hv[i as int]);
        if str_eq_ignore_ascii_case(h[i].0.as_str(), "content-type") {
            return Some(h[i].1.clone());
        }
        assert(hv.skip(i as int).drop_first() =~= hv.skip(i + 1));
        i += 1;
    }
    None
}

/// An entry once its response has arrived.
pub open spec fn completed(e: EntryView, d: ResponseView) -> EntryView {
    let ct = response_content_type(d.response_headers);
    EntryView {
        status: d.status,
        size: d.size,
        timing: d.timing,
        response_headers: d.response_headers,
        was_cached: d.was_cached,
        phase: RequestPhase::Complete,
        content_type: ct,
        resource_type: if e.resource_type == ResourceType::Other && ct is Some {
            type_for_content(ct->0)
        } else {
            e.resource_type
        },
        body_preview: match d.body_preview {
            Some(raw) => Some(preview_text(raw, ct, 10_000)),
            None => e.body_preview,
        },
        ..e
    }
}

/// The state of the network panel.
#[derive(Debug, Clone)]
pub struct NetworkState {
    /// All entries, oldest first.
    entries: Vec<NetworkEntry>,
    next_id: u64,
    selected: Option<RequestId>,
    detail_tab: DetailTab,
    sort_column: SortColumn,
    sort_ascending: bool,
    type_filter: Option<ResourceType>,
    status_filter: StatusFilter,
    search_text: String,
    scroll_offset: usize,
    preserve_log: bool,
}

/// The value of the panel state.
pub struct NetworkView {
    pub entries: Seq<EntryView>,
    pub next_id: u64,
    pub selected: Option<RequestId>,
    pub detail_tab: DetailTab,
    pub sort_column: SortColumn,
    pub sort_ascending: bool,
    pub type_filter: Option<ResourceType>,
    pub status_filter: StatusFilter,
    pub search_text: Seq<char>,
    pub scroll_offset: usize,
    pub preserve_log: bool,
}

impl View for NetworkState {
    type V = NetworkView;

    closed spec fn view(&self) -> NetworkView {
        NetworkView {
            entries: self.entries@.map_values(|e: NetworkEntry| e@),
            next_id: self.next_id,
            selected: self.selected,
            detail_tab: self.detail_tab,
            sort_column: self.sort_column,
            sort_ascending: self.sort_ascending,
            type_filter: self.type_filter,
            status_filter: self.status_filter,
            search_text: self.search_text@,
            scroll_offset: self.scroll_offset,
            preserve_log: self.preserve_log,
        }
    }
}

/// Whether an entry passes the filters: its type, its status (only once
/// complete) and, ASCII case-insensitively, the search text in its URL.
pub open spec fn passes(v: NetworkView, e: EntryView) -> bool {
    &&& (v.type_filter matches Some(t) ==> e.resource_type == t)
    &&& !(v.status_filter != StatusFilter::All && e.phase == RequestPhase::Complete && !status_passes(
        v.status_filter,
        e.status,
    ))
    &&& (v.search_text.len() > 0 ==> contains_seq(ascii_lower(e.url), ascii_lower(v.search_text)))
}

/// Whether entry `a` is strictly before entry `b` by a column, ascending.
pub open spec fn key_lt(col: SortColumn, a: EntryView, b: EntryView) -> bool {
    match col {
        SortColumn::Name => lex_lt(display_name_of(a.url), display_name_of(b.url)),
        SortColumn::Method => lex_lt(a.method, b.method),
        SortColumn::Status => a.status < b.status,
        SortColumn::Type => lex_lt(type_label(a.resource_type), type_label(b.resource_type)),
        SortColumn::Size => a.size < b.size,
        SortColumn::Time => timing_total(a.timing) < timing_total(b.timing),
    }
}

/// Whether entry `a` goes before entry `b` in the sorted log.
pub open spec fn entry_before(col: SortColumn, asc: bool, a: EntryView, b: EntryView) -> bool {
    if asc {
        key_lt(col, a, b)
    } else {
        key_lt(col, b, a)
    }
}

/// The entries the panel shows: those passing the filters, stably sorted.
pub open spec fn visible(v: NetworkView) -> Seq<EntryView> {
    stable_sort(
        v.entries.filter(|e: EntryView| passes(v, e)),
        |a: EntryView, b: EntryView| entry_before(v.sort_column, v.sort_ascending, a, b),
    )
}

/// Sorted by status or by size, the visible log goes in the order of that
/// column: each entry's value is at most the next one's when ascending, at
/// least when descending.
pub proof fn law_numeric_sort_orders_visible(v: NetworkView)
    requires
        v.sort_column == SortColumn::Status || v.sort_column == SortColumn::Size,
    ensures
        forall|k: int|
            0 <= k < visible(v).len() - 1 ==> {
                let a = #[trigger] visible(v)[k];
                let b = visible(v)[k + 1];
                if v.sort_column == SortColumn::Status {
                    if v.sort_ascending {
                        a.status <= b.status
                    } else {
                        a.status >= b.status
                    }
                } else {
                    if v.sort_ascending {
                        a.size <= b.size
                    } else {
                        a.size >= b.size
                    }
                }
            },
{
    let s = v.entries.filter(|e: EntryView| passes(v, e));
    let before = |a: EntryView, b: EntryView| entry_before(v.sort_column, v.sort_ascending, a, b);
    let key = |e: EntryView| {
        let x: int = if v.sort_column == SortColumn::Status {
            e.status as int
        } else {
            e.size as int
        };
        if v.sort_ascending {
            x
        } else {
            -x
        }
    };
    assert forall|a: EntryView, b: EntryView| #[trigger] before(a, b) <==> key(a) < key(b) by {}
    lemma_stable_sort_key_sorted(s, before, key);
    let r = visible(v);
    assert(r == stable_sort(s, before));
    assert forall|k: int| 0 <= k < r.len() - 1 implies key(#[trigger] r[k]) <= key(r[k + 1]) by {}
}

/// The log after adding an entry: the oldest entries beyond the limit go.
pub open spec fn capped(s: Seq<EntryView>) -> Seq<EntryView> {
    if s.len() > 5000 {
        s.skip(s.len() - 5000)
    } else {
        s
    }
}

/// The log's request IDs increase from the oldest entry to the newest and
/// stay below the next ID, so no two entries share an ID.
pub open spec fn ids_ordered(v: NetworkView) -> bool {
    &&& forall|i: int, j: int|
        0 <= i < j < v.entries.len() ==> #[trigger] v.entries[i].id < #[trigger] v.entries[j].id
    &&& forall|i: int| 0 <= i < v.entries.len() ==> #[trigger] v.entries[i].id < v.next_id
}

/// Starting a request keeps the IDs ordered, and the new request's ID is
/// that of no other entry.
pub proof fn law_start_request_keeps_ids_ordered(
    v: NetworkView,
    now: u128,
    url: Seq<char>,
    method: Seq<char>,
    headers: Seq<(Seq<char>, Seq<char>)>,
    resource_type: ResourceType,
)
    requires
        ids_ordered(v),
        v.next_id < u64::MAX,
    ensures
        ({
            let w = NetworkView {
                entries: capped(
                    v.entries.push(pending_entry(v.next_id, now, url, method, headers, resource_type)),
                ),
                next_id: (v.next_id + 1) as u64,
                ..v
            };
            &&& ids_ordered(w)
            &&& forall|i: int| 0 <= i < w.entries.len() - 1 ==> #[trigger] w.entries[i].id != v.next_id
        }),
{
    let pushed = v.entries.push(pending_entry(v.next_id, now, url, method, headers, resource_type));
    assert(forall|i: int, j: int| 0 <= i < j < pushed.len() ==> #[trigger] pushed[i].id < #[trigger] pushed[j].id) by {
        assert forall|i: int, j: int| 0 <= i < j < pushed.len() implies #[trigger] pushed[i].id < #[trigger] pushed[j].id by {
            if j == pushed.len() - 1 {
                assert(pushed[i] == v.entries[i]);
            } else {
                assert(pushed[i] == v.entries[i]);
                assert(pushed[j] == v.entries[j]);
            }
        }
    }
    assert(forall|i: int| 0 <= i < pushed.len() ==> #[trigger] pushed[i].id < v.next_id + 1) by {
        assert forall|i: int| 0 <= i < pushed.len() implies #[trigger] pushed[i].id < v.next_id + 1 by {
            if i < pushed.len() - 1 {
                assert(pushed[i] == v.entries[i]);
            }
        }
    }
    let c = capped(pushed);
    let off: int = if pushed.len() > 5000 { pushed.len() - 5000 } else { 0 };
    assert(forall|i: int| 0 <= i < c.len() ==> #[trigger] c[i] == pushed[i + off]);
    assert forall|i: int, j: int| 0 <= i < j < c.len() implies #[trigger] c[i].id < #[trigger] c[j].id by {
        assert(c[i] == pushed[i + off] && c[j] == pushed[j + off]);
    }
    assert forall|i: int| 0 <= i < c.len() implies #[trigger] c[i].id < v.next_id + 1 by {
        assert(c[i] == pushed[i + off]);
    }
    assert forall|i: int| 0 <= i < c.len() - 1 implies #[trigger] c[i].id != v.next_id by {
        assert(c[i] == pushed[i + off]);
        assert(c[c.len() - 1] == pushed[pushed.len() - 1]);
    }
}

/// Entries with the same IDs, in the same places, under the same next ID
/// keep the IDs ordered.
pub proof fn lemma_same_ids(v: NetworkView, w: NetworkView)
    requires
        ids_ordered(v),
        w.entries.len() == v.entries.len(),
        w.next_id == v.next_id,
        forall|i: int| 0 <= i < v.entries.len() ==> #[trigger] w.entries[i].id == v.entries[i].id,
    ensures
        ids_ordered(w),
{
    assert forall|a: int, b: int| 0 <= a < b < w.entries.len() implies #[trigger] w.entries[a].id < #[trigger] w.entries[b].id by {
        assert(w.entries[a].id == v.entries[a].id && w.entries[b].id == v.entries[b].id);
    }
    assert forall|a: int| 0 <= a < w.entries.len() implies #[trigger] w.entries[a].id < w.next_id by {
        assert(w.entries[a].id == v.entries[a].id);
    }
}

/// Updating an entry without changing its ID (completing, failing or
/// cancelling a request) keeps the IDs ordered; clearing the log does too.
pub proof fn law_update_keeps_ids_ordered(v: NetworkView, i: int, e: EntryView)
    requires
        ids_ordered(v),
        0 <= i < v.entries.len(),
        e.id == v.entries[i].id,
    ensures
        ids_ordered(NetworkView { entries: v.entries.update(i, e), ..v }),
        ids_ordered(NetworkView { entries: Seq::empty(), selected: None, next_id: 1, ..v }),
{
    let u = v.entries.update(i, e);
    assert forall|a: int, b: int| 0 <= a < b < u.len() implies #[trigger] u[a].id < #[trigger] u[b].id by {
        assert(u[a].id == v.entries[a].id && u[b].id == v.entries[b].id);
    }
    assert forall|a: int| 0 <= a < u.len() implies #[trigger] u[a].id < v.next_id by {
        assert(u[a].id == v.entries[a].id);
    }
}

/// A new pending entry.
pub open spec fn pending_entry(
    id: u64,
    now: u128,
    url: Seq<char>,
    method: Seq<char>,
    headers: Seq<(Seq<char>, Seq<char>)>,
    resource_type: ResourceType,
) -> EntryView {
    EntryView {
        id,
        started_at: now,
        url,
        method,
        status: 0,
        content_type: None,
        size: 0,
        resource_type,
        timing: RequestTiming {
            dns: Duration::nil(),
            connect: Duration::nil(),
            tls: Duration::nil(),
            first_byte: Duration::nil(),
            download: Duration::nil(),
        },
        request_headers: headers,
        response_headers: Seq::empty(),
        body_preview: None,
        was_cached: false,
        phase: RequestPhase::Pending,
        error: None,
    }
}

/// `i` is the first position of an entry with an identifier.
pub open spec fn first_entry(s: Seq<EntryView>, id: u64, i: int) -> bool {
    0 <= i < s.len() && s[i].id == id && forall|j: int| 0 <= j < i ==> s[j].id != id
}

/// Whether some entry has an identifier.
pub open spec fn has_entry(s: Seq<EntryView>, id: u64) -> bool {
    exists|i: int| 0 <= i < s.len() && s[i].id == id
}

/// The total of the body sizes.
pub open spec fn sum_sizes(s: Seq<EntryView>) -> nat
    decreases s.len(),
{
    if s.len() == 0 {
        0
    } else {
        sum_sizes(s.drop_last()) + s.last().size as nat
    }
}

/// The number of entries in a phase.
pub open spec fn count_phase(s: Seq<EntryView>, p: RequestPhase) -> nat {
    s.filter(|e: EntryView| e.phase == p).len()
}

impl Default for NetworkState {
    fn default() -> (r: Self)
        ensures
            r@.entries == Seq::<EntryView>::empty(),
            r@.next_id == 1,
            ids_ordered(r@),
            r@.selected is None,
            r@.detail_tab == DetailTab::Headers,
            r@.sort_column == SortColumn::Time,
            r@.sort_ascending,
            r@.type_filter is None,
            r@.status_filter == StatusFilter::All,
            r@.search_text == Seq::<char>::empty(),
            r@.scroll_offset == 0,
            !r@.preserve_log,
    {
        let r = NetworkState {
            entries: Vec::new(),
            next_id: 1,
            selected: None,
            detail_tab: DetailTab::Headers,
            sort_column: SortColumn::Time,
            sort_ascending: true,
            type_filter: None,
            status_filter: StatusFilter::All,
            search_text: String::new(),
            scroll_offset: 0,
            preserve_log: false,
        };
        assert(r@.entries =~= Seq::<EntryView>::empty());
        r
    }
}

impl NetworkState {
    /// An empty log, sorted by time ascending, with no filter.
    pub fn new() -> (r: Self)
        ensures
            r@.entries == Seq::<EntryView>::empty(),
            r@.next_id == 1,
            ids_ordered(r@),
            r@.selected is None,
            r@.detail_tab == DetailTab::Headers,
            r@.sort_column == SortColumn::Time,
            r@.sort_ascending,
            r@.type_filter is None,
            r@.status_filter == StatusFilter::All,
            r@.search_text == Seq::<char>::empty(),
            r@.scroll_offset == 0,
            !r@.preserve_log,
    {
        Self::default()
    }

    /// The entries, oldest first.
    pub fn entries(&self) -> (r: &[NetworkEntry])
        ensures
            r@.map_values(|e: NetworkEntry| e@) == self@.entries,
    {
        self.entries.as_slice()
    }

    /// Starts recording a request now; the start time is whatever the clock
    /// reads.
    pub fn start_request(
        &mut self,
        url: String,
        method: String,
        request_headers: Vec<(String, String)>,
        resource_type: ResourceType,
    ) -> (r: RequestId)
        requires
            old(self)@.next_id < u64::MAX,
        ensures
            r.0 == old(self)@.next_id,
            exists|now: u128|
                final(self)@ == (NetworkView {
                    entries: capped(
                        old(self)@.entries.push(
                            #[trigger] pending_entry(
                                r.0,
                                now,
                                url@,
                                method@,
                                pairs_view(request_headers@),
                                resource_type,
                            ),
                        ),
                    ),
                    next_id: (old(self)@.next_id + 1) as u64,
                    ..old(self)@
                }),
            ids_ordered(old(self)@) ==> ids_ordered(final(self)@) && forall|i: int|
                0 <= i < old(self)@.entries.len() ==> #[trigger] old(self)@.entries[i].id != r.0,
    {
        let now = unix_millis_now();
        self.start_request_at(url, method, request_headers, resource_type, now)
    }

    /// Starts recording a request at a given time (milliseconds since the
    /// Unix epoch); the oldest entries beyond the limit are dropped.
    pub fn start_request_at(
        &mut self,
        url: String,
        method: String,
        request_headers: Vec<(String, String)>,
        resource_type: ResourceType,
        now: u128,
    ) -> (r: RequestId)
        requires
            old(self)@.next_id < u64::MAX,
        ensures
            r.0 == old(self)@.next_id,
            final(self)@ == (NetworkView {
                entries: capped(
                    old(self)@.entries.push(
                        pending_entry(r.0, now, url@, method@, pairs_view(request_headers@), resource_type),
                    ),
                ),
                next_id: (old(self)@.next_id + 1) as u64,
                ..old(self)@
            }),
            ids_ordered(old(self)@) ==> ids_ordered(final(self)@) && forall|i: int|
                0 <= i < old(self)@.entries.len() ==> #[trigger] old(self)@.entries[i].id != r.0,
    {
        let ghost s0 = self@;
        let id = RequestId(self.next_id);
        self.next_id = self.next_id + 1;
        let entry = NetworkEntry {
            id,
            started_at: now,
            url,
            method,
            status: 0,
            content_type: None,
            size: 0,
            resource_type,
            timing: RequestTiming {
                dns: Duration::zero(),
                connect: Duration::zero(),
                tls: Duration::zero(),
                first_byte: Duration::zero(),
                download: Duration::zero(),
            },
            request_headers,
            response_headers: Vec::new(),
            body_preview: None,
            was_cached: false,
            phase: RequestPhase::Pending,
            error: None,
        };
        assert(pairs_view(entry.response_headers@) =~= Seq::<(Seq<char>, Seq<char>)>::empty());
        let ghost ev = entry@;
        self.entries.push(entry);
        let ghost pushed = self@.entries;
        assert(pushed =~= s0.entries.push(ev));
        let cur_len = self.entries.len();
        assert(pushed.len() == cur_len);
        let mut dropped: usize = 0;
        while self.entries.len() > MAX_NETWORK_ENTRIES
            invariant
                self.entries@.len() + dropped == pushed.len(),
                pushed.len() <= usize::MAX,
                self@.entries == pushed.skip(dropped as int),
                dropped > 0 ==> self.entries@.len() >= MAX_NETWORK_ENTRIES,
                self@ == (NetworkView { entries: self@.entries, next_id: (s0.next_id + 1) as u64, ..s0 }),
            decreases self.entries.len(),
        {
            let ghost before = self.entries@;
            self.entries.remove(0);
            assert(self.entries@ =~= before.skip(1));
            assert forall|k: int| 0 <= k < self@.entries.len() implies self@.entries[k] == pushed.skip(dropped + 1)[k] by {
                assert(self@.entries[k] == before[k + 1]@);
                assert(before.map_values(|e: NetworkEntry| e@)[k + 1] == pushed.skip(dropped as int)[k + 1]);
            }
            assert(self@.entries =~= pushed.skip(dropped + 1));
            dropped += 1;
        }
        assert(self@.entries =~= capped(pushed));
        proof {
            if ids_ordered(s0) {
                law_start_request_keeps_ids_ordered(s0, now, url@, method@, pairs_view(request_headers@), resource_type);
            }
        }
        id
    }

    fn position(&self, id: RequestId) -> (r: Option<usize>)
        ensures
            r matches Some(i) ==> first_entry(self@.entries, id.0, i as int),
            r is None ==> !has_entry(self@.entries, id.0),
    {
        let n = self.entries.len();
        let mut i: usize = 0;
        while i < n
            invariant
                n == self.entries@.len(),
                i <= n,
                forall|j: int| 0 <= j < i ==> self@.entries[j].id != id.0,
            decreases n - i,
        {
            if self.entries[i].id.0 == id.0 {
                return Some(i);
            }
            i += 1;
        }
        None
    }

    /// Records the response of a request: status, size, timing, headers
    /// and phase; the content type from the headers; a refined resource
    /// type for a request of type `Other`; and the formatted body preview.
    pub fn complete_request(&mut self, id: RequestId, data: ResponseData)
        ensures
            !has_entry(old(self)@.entries, id.0) ==> final(self)@ == old(self)@,
            has_entry(old(self)@.entries, id.0) ==> exists|i: int|
                first_entry(old(self)@.entries, id.0, i) && final(self)@ == (NetworkView {
                    entries: old(self)@.entries.update(i, completed(old(self)@.entries[i], data@)),
                    ..old(self)@
                }),
            ids_ordered(old(self)@) ==> ids_ordered(final(self)@),
    {
        let ghost s0 = self@;
        let ghost dv = data@;
        match self.position(id) {
            Some(i) => {
                let ghost before = self.entries@;
                let mut e = self.entries.remove(i);
                let ghost e0 = e@;
                let ct = find_content_type(&data.response_headers);
                e.status = data.status;
                e.size = data.size;
                e.timing = data.timing;
                e.was_cached = data.was_cached;
                e.phase = RequestPhase::Complete;
                if e.resource_type == ResourceType::Other {
                    match &ct {
                        Some(c) => {
                            e.resource_type = ResourceType::from_content_type(c.as_str());
                        },
                        None => {},
                    }
                }
                match &data.body_preview {
                    Some(raw) => {
                        let ct_ref: Option<&str> = match &ct {
                            Some(c) => Some(c.as_str()),
                            None => None,
                        };
                        e.body_preview = Some(format_body_preview(raw.as_str(), ct_ref, MAX_PREVIEW_LEN));
                    },
                    None => {},
                }
                e.content_type = ct;
                e.response_headers = data.response_headers;
                assert(e@ == completed(e0, dv));
                self.entries.insert(i, e);
                assert(self.entries@ =~= before.update(i as int, e));
                assert(self@.entries =~= s0.entries.update(i as int, completed(s0.entries[i as int], dv)));
            },
            None => {},
        }
        proof {
            if ids_ordered(s0) {
                lemma_same_ids(s0, self@);
            }
        }
    }

    /// Marks a request failed, with its error.
    pub fn fail_request(&mut self, id: RequestId, error: String)
        ensures
            !has_entry(old(self)@.entries, id.0) ==> final(self)@ == old(self)@,
            has_entry(old(self)@.entries, id.0) ==> exists|i: int|
                first_entry(old(self)@.entries, id.0, i) && final(self)@ == (NetworkView {
                    entries: old(self)@.entries.update(
                        i,
                        EntryView {
                            phase: RequestPhase::Failed,
                            error: Some(error@),
                            ..old(self)@.entries[i]
                        },
                    ),
                    ..old(self)@
                }),
            ids_ordered(old(self)@) ==> ids_ordered(final(self)@),
    {
        let ghost s0 = self@;
        match self.position(id) {
            Some(i) => {
                let ghost before = self.entries@;
                let mut e = self.entries.remove(i);
                e.phase = RequestPhase::Failed;
                e.error = Some(error);
                self.entries.insert(i, e);
                assert(self.entries@ =~= before.update(i as int, e));
                assert(self@.entries =~= s0.entries.update(
                    i as int,
                    EntryView { phase: RequestPhase::Failed, error: Some(error@), ..s0.entries[i as int] },
                ));
            },
            None => {},
        }
        proof {
            if ids_ordered(s0) {
                lemma_same_ids(s0, self@);
            }
        }
    }

    /// Marks a request cancelled.
    pub fn cancel_request(&mut self, id: RequestId)
        ensures
            !has_entry(old(self)@.entries, id.0) ==> final(self)@ == old(self)@,
            has_entry(old(self)@.entries, id.0) ==> exists|i: int|
                first_entry(old(self)@.entries, id.0, i) && final(self)@ == (NetworkView {
                    entries: old(self)@.entries.update(
                        i,
                        EntryView { phase: RequestPhase::Cancelled, ..old(self)@.entries[i] },
                    ),
                    ..old(self)@
                }),
            ids_ordered(old(self)@) ==> ids_ordered(final(self)@),
    {
        let ghost s0 = self@;
        match self.position(id) {
            Some(i) => {
                let ghost before = self.entries@;
                let mut e = self.entries.remove(i);
                e.phase = RequestPhase::Cancelled;
                self.entries.insert(i, e);
                assert(self.entries@ =~= before.update(i as int, e));
                assert(self@.entries =~= s0.entries.update(
                    i as int,
                    EntryView { phase: RequestPhase::Cancelled, ..s0.entries[i as int] },
                ));
            },
            None => {},
        }
        proof {
            if ids_ordered(s0) {
                lemma_same_ids(s0, self@);
            }
        }
    }

    /// Selects a request for the detail view.
    pub fn select(&mut self, id: RequestId)
        ensures
            final(self)@ == (NetworkView { selected: Some(id), ..old(self)@ }),
    {
        self.selected = Some(id);
    }

    /// Clears the selection.
    pub fn deselect(&mut self)
        ensures
            final(self)@ == (NetworkView { selected: None, ..old(self)@ }),
    {
        self.selected = None;
    }

    /// The selected request.
    pub fn selected_id(&self) -> (r: Option<RequestId>)
        ensures
            r == self@.selected,
    {
        self.selected
    }

    /// The first entry with the selected identifier.
    pub fn selected_entry(&self) -> (r: Option<&NetworkEntry>)
        ensures
            r is Some <==> (self@.selected matches Some(id) && has_entry(self@.entries, id.0)),
            r matches Some(e) ==> (self@.selected matches Some(sid) && exists|i: int|
                first_entry(self@.entries, sid.0, i) && e@ == self@.entries[i]),
    {
        match self.selected {
            Some(id) => match self.position(id) {
                Some(i) => Some(&self.entries[i]),
                None => None,
            },
            None => None,
        }
    }

    /// Sets the detail tab.
    pub fn set_detail_tab(&mut self, tab: DetailTab)
        ensures
            final(self)@ == (NetworkView { detail_tab: tab, ..old(self)@ }),
    {
        self.detail_tab = tab;
    }

    /// The detail tab.
    pub fn detail_tab(&self) -> (r: DetailTab)
        ensures
            r == self@.detail_tab,
    {
        self.detail_tab
    }

    /// Sorts by a column: the current column toggles its direction, another
    /// column starts ascending.
    pub fn toggle_sort(&mut self, column: SortColumn)
        ensures
            old(self)@.sort_column == column ==> final(self)@ == (NetworkView {
                sort_ascending: !old(self)@.sort_ascending,
                ..old(self)@
            }),
            old(self)@.sort_column != column ==> final(self)@ == (NetworkView {
                sort_column: column,
                sort_ascending: true,
                ..old(self)@
            }),
    {
        if self.sort_column == column {
            self.sort_ascending = !self.sort_ascending;
        } else {
            self.sort_column = column;
            self.sort_ascending = true;
        }
    }

    /// The sort column.
    pub fn sort_column(&self) -> (r: SortColumn)
        ensures
            r == self@.sort_column,
    {
        self.sort_column
    }

    /// Whether the sort is ascending.
    pub fn sort_ascending(&self) -> (r: bool)
        ensures
            r == self@.sort_ascending,
    {
        self.sort_ascending
    }

    /// Sets the type filter and scrolls to the top.
    pub fn set_type_filter(&mut self, filter: Option<ResourceType>)
        ensures
            final(self)@ == (NetworkView { type_filter: filter, scroll_offset: 0, ..old(self)@ }),
    {
        self.type_filter = filter;
        self.scroll_offset = 0;
    }

    /// The type filter.
    pub fn type_filter(&self) -> (r: Option<ResourceType>)
        ensures
            r == self@.type_filter,
    {
        self.type_filter
    }

    /// Sets the status filter and scrolls to the top.
    pub fn set_status_filter(&mut self, filter: StatusFilter)
        ensures
            final(self)@ == (NetworkView { status_filter: filter, scroll_offset: 0, ..old(self)@ }),
    {
        self.status_filter = filter;
        self.scroll_offset = 0;
    }

    /// The status filter.
    pub fn status_filter(&self) -> (r: StatusFilter)
        ensures
            r == self@.status_filter,
    {
        self.status_filter
    }

    /// Sets the search text and scrolls to the top.
    pub fn set_search(&mut self, text: String)
        ensures
            final(self)@ == (NetworkView { search_text: text@, scroll_offset: 0, ..old(self)@ }),
    {
        self.search_text = text;
        self.scroll_offset = 0;
    }

    /// The search text.
    pub fn search_text(&self) -> (r: &str)
        ensures
            r@ == self@.search_text,
    {
        self.search_text.as_str()
    }

    /// Clears the filters and the search text and scrolls to the top.
    pub fn clear_filters(&mut self)
        ensures
            final(self)@ == (NetworkView {
                type_filter: None,
                status_filter: StatusFilter::All,
                search_text: Seq::empty(),
                scroll_offset: 0,
                ..old(self)@
            }),
    {
        self.type_filter = None;
        self.status_filter = StatusFilter::All;
        self.search_text = String::new();
        self.scroll_offset = 0;
    }

    fn passes_filters(&self, e: &NetworkEntry) -> (r: bool)
        ensures
            r == passes(self@, e@),
    {
        match self.type_filter {
            Some(t) => {
                if e.resource_type != t {
                    return false;
                }
            },
            None => {},
        }
        if self.status_filter != StatusFilter::All && e.phase == RequestPhase::Complete
            && !self.status_filter.matches(e.status) {
            return false;
        }
        if !self.search_text.as_str().is_empty() {
            let u = str_to_ascii_lower(e.url.as_str());
            let q = str_to_ascii_lower(self.search_text.as_str());
            if !chars_contains(u.as_slice(), q.as_slice()) {
                return false;
            }
        }
        true
    }

    fn key_less(&self, a: &NetworkEntry, b: &NetworkEntry) -> (r: bool)
        ensures
            r == key_lt(self@.sort_column, a@, b@),
    {
        match self.sort_column {
            SortColumn::Name => {
                let an = a.display_name();
                let bn = b.display_name();
                str_lt(an.as_str(), bn.as_str())
            },
            SortColumn::Method => str_lt(a.method.as_str(), b.method.as_str()),
            SortColumn::Status => a.status < b.status,
            SortColumn::Type => str_lt(a.resource_type.label(), b.resource_type.label()),
            SortColumn::Size => a.size < b.size,
            SortColumn::Time => a.timing.total_nanos() < b.timing.total_nanos(),
        }
    }

    fn goes_before(&self, a: &NetworkEntry, b: &NetworkEntry) -> (r: bool)
        ensures
            r == entry_before(self@.sort_column, self@.sort_ascending, a@, b@),
    {
        if self.sort_ascending {
            self.key_less(a, b)
        } else {
            self.key_less(b, a)
        }
    }

    fn sorted_position(&self, out: &Vec<&NetworkEntry>, x: &NetworkEntry) -> (p: usize)
        ensures
            p <= out@.len(),
            forall|j: int| 0 <= j < p ==> !entry_before(self@.sort_column, self@.sort_ascending, x@, #[trigger] out@[j]@),
            p < out@.len() ==> entry_before(self@.sort_column, self@.sort_ascending, x@, out@[p as int]@),
    {
        let mut p: usize = 0;
        while p < out.len()
            invariant
                p <= out@.len(),
                forall|j: int| 0 <= j < p ==> !entry_before(self@.sort_column, self@.sort_ascending, x@, #[trigger] out@[j]@),
            decreases out.len() - p,
        {
            if self.goes_before(x, out[p]) {
                return p;
            }
            p += 1;
        }
        p
    }

    /// The entries that pass the filters, sorted by the sort column in the
    /// sort direction; entries that compare equal keep their order.
    pub fn visible_entries(&self) -> (r: Vec<&NetworkEntry>)
        ensures
            r@.map_values(|e: &NetworkEntry| e@) == visible(self@),
    {
        let ghost v = self@;
        let ghost pred = |e: EntryView| passes(v, e);
        let ghost before = |a: EntryView, b: EntryView| entry_before(v.sort_column, v.sort_ascending, a, b);
        let ghost all = v.entries;
        let n = self.entries.len();
        let mut out: Vec<&NetworkEntry> = Vec::new();
        let mut i: usize = 0;
        while i < n
            invariant
                n == self.entries@.len(),
                i <= n,
                v == self@,
                all == v.entries,
                pred == (|e: EntryView| passes(v, e)),
                before == (|a: EntryView, b: EntryView| entry_before(v.sort_column, v.sort_ascending, a, b)),
                out@.map_values(|e: &NetworkEntry| e@) == stable_sort(all.take(i as int).filter(pred), before),
            decreases n - i,
        {
            let x = &self.entries[i];
            assert(all[i as int] == x@);
            assert(all.take(i + 1).drop_last() =~= all.take(i as int));
            assert(all.take(i + 1).last() == x@);
            reveal_with_fuel(Seq::filter, 1);
            if self.passes_filters(x) {
                let ghost ov = out@.map_values(|e: &NetworkEntry| e@);
                let ghost fl = all.take(i as int).filter(pred);
                let p = self.sorted_position(&out, x);
                proof {
                    assert forall|j: int| 0 <= j < p implies !before(x@, #[trigger] ov[j]) by {
                        assert(ov[j] == out@[j]@);
                    }
                    if p < ov.len() {
                        assert(ov[p as int] == out@[p as int]@);
                    }
                    lemma_insert_sorted_at(ov, x@, before, p as int);
                    assert(all.take(i + 1).filter(pred) == fl.push(x@));
                    assert(fl.push(x@).drop_last() =~= fl);
                }
                out.insert(p, x);
                assert(out@.map_values(|e: &NetworkEntry| e@) =~= ov.insert(p as int, x@));
            }
            i += 1;
        }
        assert(all.take(n as int) =~= all);
        out
    }

    /// The number of entries, whatever the filters.
    pub fn entry_count(&self) -> (r: usize)
        ensures
            r == self@.entries.len(),
    {
        self.entries.len()
    }

    /// Clears the log and the selection and restarts identifiers at 1.
    pub fn clear(&mut self)
        ensures
            final(self)@ == (NetworkView {
                entries: Seq::empty(),
                selected: None,
                next_id: 1,
                ..old(self)@
            }),
            ids_ordered(final(self)@),
    {
        self.entries.clear();
        self.selected = None;
        self.next_id = 1;
        assert(self@.entries =~= Seq::<EntryView>::empty());
    }

    /// Whether the log is kept across navigations.
    pub fn preserve_log(&self) -> (r: bool)
        ensures
            r == self@.preserve_log,
    {
        self.preserve_log
    }

    /// Sets whether the log is kept across navigations.
    pub fn set_preserve_log(&mut self, preserve: bool)
        ensures
            final(self)@ == (NetworkView { preserve_log: preserve, ..old(self)@ }),
    {
        self.preserve_log = preserve;
    }

    /// The scroll offset, in rows.
    pub fn scroll_offset(&self) -> (r: usize)
        ensures
            r == self@.scroll_offset,
    {
        self.scroll_offset
    }

    /// Sets the scroll offset.
    pub fn set_scroll_offset(&mut self, offset: usize)
        ensures
            final(self)@ == (NetworkView { scroll_offset: offset, ..old(self)@ }),
    {
        self.scroll_offset = offset;
    }

    /// Counts and total size of the entries.
    pub fn summary(&self) -> (r: NetworkSummary)
        requires
            sum_sizes(self@.entries) <= u64::MAX,
        ensures
            r.total_count == self@.entries.len(),
            r.total_size == sum_sizes(self@.entries),
            r.pending_count == count_phase(self@.entries, RequestPhase::Pending),
            r.failed_count == count_phase(self@.entries, RequestPhase::Failed),
    {
        let ghost all = self@.entries;
        let ghost pp = |e: EntryView| e.phase == RequestPhase::Pending;
        let ghost fp = |e: EntryView| e.phase == RequestPhase::Failed;
        let n = self.entries.len();
        let mut size: u64 = 0;
        let mut pending: usize = 0;
        let mut failed: usize = 0;
        let mut i: usize = 0;
        while i < n
            invariant
                n == self.entries@.len(),
                i <= n,
                all == self@.entries,
                sum_sizes(all) <= u64::MAX,
                pp == (|e: EntryView| e.phase == RequestPhase::Pending),
                fp == (|e: EntryView| e.phase == RequestPhase::Failed),
                size == sum_sizes(all.take(i as int)),
                pending == all.take(i as int).filter(pp).len(),
                failed == all.take(i as int).filter(fp).len(),
                pending <= i,
                failed <= i,
            decreases n - i,
        {
            let e = &self.entries[i];
            assert(all[i as int] == e@);
            assert(all.take(i + 1).drop_last() =~= all.take(i as int));
            assert(all.take(i + 1).last() == e@);
            proof {
                lemma_sum_sizes_prefix(all, i + 1);
            }
            size = size + e.size;
            reveal_with_fuel(Seq::filter, 1);
            if e.phase == RequestPhase::Pending {
                pending = pending + 1;
            }
            if e.phase == RequestPhase::Failed {
                failed = failed + 1;
            }
            proof {
                all.take(i as int).lemma_filter_len_push(pp, e@);
            }
            i += 1;
        }
        assert(all.take(n as int) =~= all);
        NetworkSummary { total_count: n, total_size: size, pending_count: pending, failed_count: failed }
    }
}

/// A prefix has no larger total size.
pub proof fn lemma_sum_sizes_prefix(s: Seq<EntryView>, i: int)
    requires
        0 <= i <= s.len(),
    ensures
        sum_sizes(s.take(i)) <= sum_sizes(s),
    decreases s.len(),
{
    if i < s.len() {
        assert(s.drop_last().take(i) =~= s.take(i));
        lemma_sum_sizes_prefix(s.drop_last(), i);
    } else {
        assert(s.take(i) =~= s);
    }
}

/// The counts shown in the footer of the panel.
#[derive(Debug, Clone, PartialEq, Eq, Structural)]
pub struct NetworkSummary {
    /// The number of requests.
    pub total_count: usize,
    /// The total transferred size in bytes.
    pub total_size: u64,
    /// The number of pending requests.
    pub pending_count: usize,
    /// The number of failed requests.
    pub failed_count: usize,
}

/// The footer text.
pub open spec fn summary_text(s: NetworkSummary) -> Seq<char> {
    decimal(s.total_count as nat) + " requests  |  "@ + size_text(s.total_size as nat) + " transferred"@
        + (if s.pending_count > 0 {
        "  |  "@ + decimal(s.pending_count as nat) + " pending"@
    } else {
        Seq::empty()
    }) + (if s.failed_count > 0 {
        "  |  "@ + decimal(s.failed_count as nat) + " failed"@
    } else {
        Seq::empty()
    })
}

impl NetworkSummary {
    /// The footer text, e.g. `5 requests  |  10.0 KB transferred  |  1 pending`.
    pub fn display(&self) -> (r: String)
        ensures
            r@ == summary_text(*self),
    {
        let mut s = u64_to_decimal(self.total_count as u64);
        s.append(" requests  |  ");
        let size = format_size(self.total_size);
        s.append(size.as_str());
        s.append(" transferred");
        let ghost base = s@;
        if self.pending_count > 0 {
            s.append("  |  ");
            let p = u64_to_decimal(self.pending_count as u64);
            s.append(p.as_str());
            s.append(" pending");
        }
        let ghost mid = s@;
        if self.failed_count > 0 {
            s.append("  |  ");
            let f = u64_to_decimal(self.failed_count as u64);
            s.append(f.as_str());
            s.append(" failed");
        }
        assert(s@ =~= summary_text(*self));
        s
    }
}
} // verus!
