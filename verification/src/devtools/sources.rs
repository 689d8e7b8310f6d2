//! The sources panel: the page's source documents, split into lines, with a
//! simple HTML highlighter, scrolling and search.
use vstd::prelude::*;
use vstd::utf8::encode_utf8;
use crate::text::{
    ascii_lower, chars_contains, chars_of, chars_split, contains_seq, split_char,
    str_to_ascii_lower, str_to_bytes, string_from_chars,
};

verus! {

/// The identifier of a source tab.
#[derive(Debug, Clone, Copy, PartialEq, Eq, Hash, Structural)]
pub struct SourceId(pub u64);

/// The kind of a source document.
#[derive(Debug, Clone, Copy, PartialEq, Eq, Hash, Structural)]
pub enum SourceKind {
    /// The page HTML.
    Html,
    /// An external JavaScript file.
    Script,
    /// An external CSS stylesheet.
    Stylesheet,
}

impl SourceKind {
    /// The label of the kind.
    pub fn label(self) -> (r: &'static str)
        ensures
            r@ == match self {
                SourceKind::Html => "HTML"@,
                SourceKind::Script => "JS"@,
                SourceKind::Stylesheet => "CSS"@,
            },
    {
        match self {
            SourceKind::Html => "HTML",
            SourceKind::Script => "JS",
            SourceKind::Stylesheet => "CSS",
        }
    }
}

/// A line without its trailing `\n` and `\r` characters.
pub open spec fn trim_line_end(s: Seq<char>) -> Seq<char>
    decreases s.len(),
{
    if s.len() > 0 && (s.last() == '\n' || s.last() == '\r') {
        trim_line_end(s.drop_last())
    } else {
        s
    }
}

/// The lines of a text: split at each `\n`, line endings trimmed. A text
/// has at least one line.
pub open spec fn doc_lines(content: Seq<char>) -> Seq<Seq<char>> {
    split_char(content, '\n').map_values(|l: Seq<char>| trim_line_end(l))
}

fn trimmed_line(v: &Vec<char>) -> (r: String)
    ensures
        r@ == trim_line_end(v@),
{
    let mut n = v.len();
    assert(v@.take(n as int) =~= v@);
    while n > 0 && (v[n - 1] == '\n' || v[n - 1] == '\r')
        invariant
            n <= v@.len(),
            trim_line_end(v@) == trim_line_end(v@.take(n as int)),
        decreases n,
    {
        assert(v@.take(n as int).drop_last() =~= v@.take(n - 1));
        n -= 1;
    }
    let mut out: Vec<char> = Vec::new();
    let mut k: usize = 0;
    while k < n
        invariant
            k <= n <= v@.len(),
            out@ == v@.take(k as int),
        decreases n - k,
    {
        out.push(v[k]);
        assert(v@.take(k + 1) =~= v@.take(k as int).push(v@[k as int]));
        k += 1;
    }
    string_from_chars(out.as_slice())
}

/// A source document of the panel.
#[derive(Debug, Clone)]
pub struct SourceDocument {
    /// Identifier.
    pub id: SourceId,
    /// Label (e.g. file name or URL path).
    pub label: String,
    /// Full URL.
    pub url: String,
    /// Kind of source.
    pub kind: SourceKind,
    /// The source text.
    pub content: String,
    /// The lines of the content, as split when the document was made.
    lines: Vec<String>,
}

/// The value of a source document.
pub struct DocView {
    pub id: SourceId,
    pub label: Seq<char>,
    pub url: Seq<char>,
    pub kind: SourceKind,
    pub content: Seq<char>,
    /// The lines kept for the document.
    pub lines: Seq<Seq<char>>,
}

impl View for SourceDocument {
    type V = DocView;

    closed spec fn view(&self) -> DocView {
        DocView {
            id: self.id,
            label: self.label@,
            url: self.url@,
            kind: self.kind,
            content: self.content@,
            lines: self.lines@.map_values(|s: String| s@),
        }
    }
}

impl SourceDocument {

    /// A document, split into lines.
    pub fn new(id: SourceId, label: String, url: String, kind: SourceKind, content: String) -> (r: Self)
        ensures
            r@.id == id,
            r@.label == label@,
            r@.url == url@,
            r@.kind == kind,
            r@.content == content@,
            r@.lines == doc_lines(content@),
    {
        let cs = chars_of(content.as_str());
        let pieces = chars_split(cs.as_slice(), '\n');
        let ghost pv = pieces@.map_values(|v: Vec<char>| v@);
        let mut lines: Vec<String> = Vec::new();
        let mut i: usize = 0;
        while i < pieces.len()
            invariant
                i <= pieces@.len(),
                pv == pieces@.map_values(|v: Vec<char>| v@),
                pv == split_char(content@, '\n'),
                lines@.map_values(|s: String| s@) == pv.map_values(|l: Seq<char>| trim_line_end(l)).take(i as int),
            decreases pieces.len() - i,
        {
            let l = trimmed_line(&pieces[i]);
            let ghost before = lines@;
            let ghost lv = l@;
            lines.push(l);
            assert(pv[i as int] == pieces@[i as int]@);
            assert(lines@.map_values(|s: String| s@) =~= before.map_values(|s: String| s@).push(lv));
            assert(lines@.map_values(|s: String| s@) =~= pv.map_values(|l: Seq<char>| trim_line_end(l)).take(i + 1));
            i += 1;
        }
        assert(pv.map_values(|l: Seq<char>| trim_line_end(l)).take(pieces@.len() as int) =~= pv.map_values(|l: Seq<char>| trim_line_end(l)));
        let r = SourceDocument { id, label, url, kind, content, lines };
        assert(r@.lines == doc_lines(r@.content));
        r
    }

    /// The number of lines.
    pub fn line_count(&self) -> (r: usize)
        ensures
            r == self@.lines.len(),
    {
        self.lines.len()
    }

    /// Line `number`, counting from 1; none out of range.
    pub fn line(&self, number: usize) -> (r: Option<&str>)
        ensures
            (number == 0 || number > self@.lines.len()) ==> r is None,
            1 <= number <= self@.lines.len() ==> (r matches Some(l) && l@
                == self@.lines[number - 1]),
    {
        if number == 0 || number > self.lines.len() {
            return None;
        }
        Some(self.lines[number - 1].as_str())
    }

    /// The numbered lines from `start` to `end` inclusive, clamped to the
    /// document.
    pub fn lines(&self, start: usize, end: usize) -> (r: Vec<(usize, &str)>)
        ensures
            ({
                let lo = if start < 1 { 1 } else { start as int };
                let hi = if end < self@.lines.len() { end as int } else { self@.lines.len() as int };
                &&& r@.len() == if hi >= lo { hi - lo + 1 } else { 0 }
                &&& forall|k: int| 0 <= k < r@.len() ==> (#[trigger] r@[k]).0 == lo + k && r@[k].1@
                    == self@.lines[lo + k - 1]
            }),
    {
        let lo: usize = if start < 1 {
            1
        } else {
            start
        };
        let hi: usize = if end < self.lines.len() {
            end
        } else {
            self.lines.len()
        };
        let mut r: Vec<(usize, &str)> = Vec::new();
        if hi < lo {
            return r;
        }
        let count = hi - lo + 1;
        let mut k: usize = 0;
        while k < count
            invariant
                lo >= 1,
                lo <= hi,
                hi <= self.lines@.len(),
                count == hi - lo + 1,
                k <= count,
                r@.len() == k,
                forall|j: int| 0 <= j < r@.len() ==> (#[trigger] r@[j]).0 == lo + j && r@[j].1@
                    == self@.lines[lo + j - 1],
            decreases count - k,
        {
            let n = lo + k;
            r.push((n, self.lines[n - 1].as_str()));
            k += 1;
        }
        r
    }
}

// ── Highlighting ─────────────────────────────────────────────────────────────

/// The kind of a highlighted span.
#[derive(Debug, Clone, Copy, PartialEq, Eq, Structural)]
pub enum TokenKind {
    /// Tag names and angle brackets.
    Tag,
    /// Attribute names.
    Attribute,
    /// Attribute values (quoted strings).
    StringLiteral,
    /// Comments.
    Comment,
    /// Keywords.
    Keyword,
    /// Numbers.
    Number,
    /// CSS property names.
    Property,
    /// Punctuation and operators.
    Punctuation,
    /// Other text.
    Plain,
}

/// A highlighted span of a line, by byte offsets.
#[derive(Debug, Clone, PartialEq, Eq, Structural)]
pub struct HighlightSpan {
    /// First byte.
    pub start: usize,
    /// Byte after the last.
    pub end: usize,
    /// What the span is.
    pub kind: TokenKind,
}

/// A span.
pub open spec fn span(start: int, end: int, kind: TokenKind) -> HighlightSpan {
    HighlightSpan { start: start as usize, end: end as usize, kind }
}

/// Whether a byte is ASCII white space.
pub open spec fn is_ascii_ws(b: u8) -> bool {
    b == 0x20 || b == 0x09 || b == 0x0A || b == 0x0C || b == 0x0D
}

/// Whether a byte ends a tag name: `>`, space or tab.
pub open spec fn ends_tag_name(b: u8) -> bool {
    b == 0x3E || b == 0x20 || b == 0x09
}

/// Whether a byte ends an attribute name: `=`, `>`, space, tab or `"`.
pub open spec fn ends_attr_name(b: u8) -> bool {
    b == 0x3D || b == 0x3E || b == 0x20 || b == 0x09 || b == 0x22
}

/// The first position at or after `i` whose byte ends a tag name, or the
/// length.
pub open spec fn tag_name_end(b: Seq<u8>, i: int) -> int
    decreases b.len() - i,
{
    if i >= b.len() {
        b.len() as int
    } else if ends_tag_name(b[i]) {
        i
    } else {
        tag_name_end(b, i + 1)
    }
}

/// The first position at or after `i` whose byte ends an attribute name, or
/// the length.
pub open spec fn attr_name_end(b: Seq<u8>, i: int) -> int
    decreases b.len() - i,
{
    if i >= b.len() {
        b.len() as int
    } else if ends_attr_name(b[i]) {
        i
    } else {
        attr_name_end(b, i + 1)
    }
}

/// The first position at or after `i` holding byte `x`, or the length.
pub open spec fn next_byte(b: Seq<u8>, i: int, x: u8) -> int
    decreases b.len() - i,
{
    if i >= b.len() {
        b.len() as int
    } else if b[i] == x {
        i
    } else {
        next_byte(b, i + 1, x)
    }
}

/// The position after the first `-->` at or after `i`, or the length.
pub open spec fn comment_close(b: Seq<u8>, i: int) -> int
    decreases b.len() - i,
{
    if i + 3 > b.len() {
        b.len() as int
    } else if b[i] == 0x2D && b[i + 1] == 0x2D && b[i + 2] == 0x3E {
        i + 3
    } else {
        comment_close(b, i + 1)
    }
}

/// Whether `<!--` starts at `i`.
pub open spec fn comment_opens(b: Seq<u8>, i: int) -> bool {
    i + 3 < b.len() && b[i] == 0x3C && b[i + 1] == 0x21 && b[i + 2] == 0x2D && b[i + 3] == 0x2D
}

/// The end of a quoted value starting at `i`: after the closing quote, or
/// the length.
pub open spec fn quoted_end(b: Seq<u8>, i: int) -> int {
    let q = next_byte(b, i + 1, b[i]);
    if q < b.len() {
        q + 1
    } else {
        b.len() as int
    }
}

/// The spans of the line from `i` on, outside a tag.
pub open spec fn scan_text(b: Seq<u8>, i: int) -> Seq<HighlightSpan>
    decreases b.len() - i, 1int,
{
    if i < 0 || i >= b.len() {
        Seq::empty()
    } else if b[i] == 0x3C {
        if comment_opens(b, i) {
            let e = comment_close(b, i);
            if i < e <= b.len() {
                seq![span(i, e, TokenKind::Comment)] + scan_text(b, e)
            } else {
                Seq::empty()
            }
        } else {
            let e = tag_name_end(b, i);
            if i < e <= b.len() {
                seq![span(i, e, TokenKind::Tag)] + scan_tag(b, e)
            } else {
                Seq::empty()
            }
        }
    } else {
        let e = next_byte(b, i, 0x3C);
        if i < e <= b.len() {
            seq![span(i, e, TokenKind::Plain)] + scan_text(b, e)
        } else {
            Seq::empty()
        }
    }
}

/// The spans of the line from `i` on, inside a tag after its name.
pub open spec fn scan_tag(b: Seq<u8>, i: int) -> Seq<HighlightSpan>
    decreases b.len() - i, 0int,
{
    if i < 0 || i >= b.len() {
        Seq::empty()
    } else if b[i] == 0x3E {
        seq![span(i, i + 1, TokenKind::Tag)] + scan_text(b, i + 1)
    } else if is_ascii_ws(b[i]) {
        scan_tag(b, i + 1)
    } else if b[i] == 0x22 || b[i] == 0x27 {
        let e = quoted_end(b, i);
        if i < e <= b.len() {
            seq![span(i, e, TokenKind::StringLiteral)] + scan_tag(b, e)
        } else {
            Seq::empty()
        }
    } else if b[i] == 0x3D {
        seq![span(i, i + 1, TokenKind::Punctuation)] + scan_tag(b, i + 1)
    } else {
        let e = attr_name_end(b, i);
        if i < e <= b.len() {
            seq![span(i, e, TokenKind::Attribute)] + scan_tag(b, e)
        } else {
            Seq::empty()
        }
    }
}

proof fn lemma_next_byte_bounds(b: Seq<u8>, i: int, x: u8)
    requires
        0 <= i,
    ensures
        i <= next_byte(b, i, x) || i > b.len(),
        next_byte(b, i, x) <= b.len(),
    decreases b.len() - i,
{
    if i < b.len() && b[i] != x {
        lemma_next_byte_bounds(b, i + 1, x);
    }
}

fn find_next_byte(b: &[u8], i: usize, x: u8) -> (r: usize)
    requires
        i <= b@.len(),
    ensures
        r == next_byte(b@, i as int, x),
        i <= r <= b@.len(),
        i < b@.len() && b@[i as int] != x ==> r > i,
{
    let mut k = i;
    while k < b.len()
        invariant
            i <= k <= b@.len(),
            next_byte(b@, i as int, x) == next_byte(b@, k as int, x),
        decreases b.len() - k,
    {
        if b[k] == x {
            return k;
        }
        k += 1;
    }
    k
}

fn find_tag_name_end(b: &[u8], i: usize) -> (r: usize)
    requires
        i <= b@.len(),
    ensures
        r == tag_name_end(b@, i as int),
        i <= r <= b@.len(),
        i < b@.len() && !ends_tag_name(b@[i as int]) ==> r > i,
{
    let mut k = i;
    while k < b.len()
        invariant
            i <= k <= b@.len(),
            tag_name_end(b@, i as int) == tag_name_end(b@, k as int),
        decreases b.len() - k,
    {
        let c = b[k];
        if c == 0x3E || c == 0x20 || c == 0x09 {
            return k;
        }
        k += 1;
    }
    k
}

fn find_attr_name_end(b: &[u8], i: usize) -> (r: usize)
    requires
        i <= b@.len(),
    ensures
        r == attr_name_end(b@, i as int),
        i <= r <= b@.len(),
        i < b@.len() && !ends_attr_name(b@[i as int]) ==> r > i,
{
    let mut k = i;
    while k < b.len()
        invariant
            i <= k <= b@.len(),
            attr_name_end(b@, i as int) == attr_name_end(b@, k as int),
        decreases b.len() - k,
    {
        let c = b[k];
        if c == 0x3D || c == 0x3E || c == 0x20 || c == 0x09 || c == 0x22 {
            return k;
        }
        k += 1;
    }
    k
}

fn find_comment_close(b: &[u8], i: usize) -> (r: usize)
    requires
        i <= b@.len(),
    ensures
        r == comment_close(b@, i as int),
        r <= b@.len(),
        i + 3 <= b@.len() ==> r >= i + 3,
{
    let n = b.len();
    let mut k = i;
    while k < n && n - k >= 3
        invariant
            n == b@.len(),
            i <= k <= n,
            comment_close(b@, i as int) == comment_close(b@, k as int),
        decreases n - k,
    {
        if b[k] == 0x2D && b[k + 1] == 0x2D && b[k + 2] == 0x3E {
            return k + 3;
        }
        k += 1;
    }
    n
}

/// Whether spans lie in order inside `b` from `lo` on, none overlapping,
/// each non-empty, and together cover every byte from `lo` on that is not
/// ASCII white space.
#[verifier::opaque]
pub open spec fn laid_out(sp: Seq<HighlightSpan>, b: Seq<u8>, lo: int) -> bool {
    &&& forall|j: int| 0 <= j < sp.len() ==> lo <= (#[trigger] sp[j]).start < sp[j].end <= b.len()
    &&& forall|j1: int, j2: int| 0 <= j1 < j2 < sp.len() ==> (#[trigger] sp[j1]).end <= (#[trigger] sp[j2]).start
    &&& forall|k: int|
        lo <= k < b.len() ==> is_ascii_ws(#[trigger] b[k]) || exists|j: int|
            0 <= j < sp.len() && (#[trigger] sp[j]).start <= k < sp[j].end
}

proof fn lemma_laid_cons(b: Seq<u8>, lo: int, e: int, kind: TokenKind, rest: Seq<HighlightSpan>)
    requires
        0 <= lo < e <= b.len() <= usize::MAX,
        laid_out(rest, b, e),
    ensures
        laid_out(seq![span(lo, e, kind)] + rest, b, lo),
{
    reveal(laid_out);
    let sp = seq![span(lo, e, kind)] + rest;
    assert(sp[0].start == lo && sp[0].end == e);
    assert forall|j: int| 0 <= j < sp.len() implies lo <= (#[trigger] sp[j]).start < sp[j].end <= b.len() by {
        if j > 0 {
            assert(sp[j] == rest[j - 1]);
        }
    }
    assert forall|j1: int, j2: int| 0 <= j1 < j2 < sp.len() implies (#[trigger] sp[j1]).end <= (#[trigger] sp[j2]).start by {
        assert(sp[j2] == rest[j2 - 1]);
        if j1 > 0 {
            assert(sp[j1] == rest[j1 - 1]);
        }
    }
    assert forall|k: int| lo <= k < b.len() implies is_ascii_ws(#[trigger] b[k]) || exists|j: int|
        0 <= j < sp.len() && (#[trigger] sp[j]).start <= k < sp[j].end by {
        if k < e {
            assert(sp[0].start <= k < sp[0].end);
        } else if !is_ascii_ws(b[k]) {
            let j = choose|j: int| 0 <= j < rest.len() && (#[trigger] rest[j]).start <= k < rest[j].end;
            assert(sp[j + 1] == rest[j]);
        }
    }
}

proof fn lemma_laid_ws(sp: Seq<HighlightSpan>, b: Seq<u8>, i: int)
    requires
        0 <= i < b.len(),
        is_ascii_ws(b[i]),
        laid_out(sp, b, i + 1),
    ensures
        laid_out(sp, b, i),
{
    reveal(laid_out);
    assert forall|k: int| i <= k < b.len() implies is_ascii_ws(#[trigger] b[k]) || exists|j: int|
        0 <= j < sp.len() && (#[trigger] sp[j]).start <= k < sp[j].end by {
        if k > i {
        }
    }
}

proof fn lemma_laid_empty(b: Seq<u8>, i: int)
    requires
        i >= b.len(),
    ensures
        laid_out(Seq::<HighlightSpan>::empty(), b, i),
{
    reveal(laid_out);
}

proof fn lemma_tag_name_end_bounds(b: Seq<u8>, i: int)
    requires
        0 <= i <= b.len(),
    ensures
        i <= tag_name_end(b, i) <= b.len(),
        i < b.len() && !ends_tag_name(b[i]) ==> tag_name_end(b, i) > i,
    decreases b.len() - i,
{
    if i < b.len() && !ends_tag_name(b[i]) {
        lemma_tag_name_end_bounds(b, i + 1);
    }
}

proof fn lemma_attr_name_end_bounds(b: Seq<u8>, i: int)
    requires
        0 <= i <= b.len(),
    ensures
        i <= attr_name_end(b, i) <= b.len(),
        i < b.len() && !ends_attr_name(b[i]) ==> attr_name_end(b, i) > i,
    decreases b.len() - i,
{
    if i < b.len() && !ends_attr_name(b[i]) {
        lemma_attr_name_end_bounds(b, i + 1);
    }
}

proof fn lemma_comment_close_bounds(b: Seq<u8>, i: int)
    requires
        0 <= i <= b.len(),
    ensures
        comment_close(b, i) <= b.len(),
        i + 3 <= b.len() ==> comment_close(b, i) >= i + 3,
    decreases b.len() - i,
{
    if i + 3 <= b.len() && !(b[i] == 0x2D && b[i + 1] == 0x2D && b[i + 2] == 0x3E) {
        lemma_comment_close_bounds(b, i + 1);
    }
}

proof fn lemma_scan_text_laid(b: Seq<u8>, i: int)
    requires
        0 <= i <= b.len() <= usize::MAX,
    ensures
        laid_out(scan_text(b, i), b, i),
    decreases b.len() - i, 1int,
{
    if i >= b.len() {
        lemma_laid_empty(b, i);
    } else {
        if b[i] == 0x3C {
            if comment_opens(b, i) {
                let e = comment_close(b, i);
                lemma_comment_close_bounds(b, i);
                lemma_scan_text_laid(b, e);
                lemma_laid_cons(b, i, e, TokenKind::Comment, scan_text(b, e));
            } else {
                let e = tag_name_end(b, i);
                lemma_tag_name_end_bounds(b, i);
                lemma_scan_tag_laid(b, e);
                lemma_laid_cons(b, i, e, TokenKind::Tag, scan_tag(b, e));
            }
        } else {
            let e = next_byte(b, i, 0x3C);
            lemma_next_byte_bounds(b, i + 1, 0x3C);
            assert(e == next_byte(b, i + 1, 0x3C));
            lemma_scan_text_laid(b, e);
            lemma_laid_cons(b, i, e, TokenKind::Plain, scan_text(b, e));
        }
    }
}

proof fn lemma_scan_tag_laid(b: Seq<u8>, i: int)
    requires
        0 <= i <= b.len() <= usize::MAX,
    ensures
        laid_out(scan_tag(b, i), b, i),
    decreases b.len() - i, 0int,
{
    if i >= b.len() {
        lemma_laid_empty(b, i);
    } else {
        if b[i] == 0x3E {
            lemma_scan_text_laid(b, i + 1);
            lemma_laid_cons(b, i, i + 1, TokenKind::Tag, scan_text(b, i + 1));
        } else if is_ascii_ws(b[i]) {
            lemma_scan_tag_laid(b, i + 1);
            lemma_laid_ws(scan_tag(b, i + 1), b, i);
        } else if b[i] == 0x22 || b[i] == 0x27 {
            let e = quoted_end(b, i);
            lemma_next_byte_bounds(b, i + 1, b[i]);
            lemma_scan_tag_laid(b, e);
            lemma_laid_cons(b, i, e, TokenKind::StringLiteral, scan_tag(b, e));
        } else if b[i] == 0x3D {
            lemma_scan_tag_laid(b, i + 1);
            lemma_laid_cons(b, i, i + 1, TokenKind::Punctuation, scan_tag(b, i + 1));
        } else {
            let e = attr_name_end(b, i);
            lemma_attr_name_end_bounds(b, i);
            lemma_scan_tag_laid(b, e);
            lemma_laid_cons(b, i, e, TokenKind::Attribute, scan_tag(b, e));
        }
    }
}

/// The highlighted spans of a line lie in order without overlapping, each
/// non-empty and inside the line, and every byte that is not ASCII white
/// space belongs to a span: markup after a comment, a tag or text gets
/// spans too.
pub proof fn law_highlight_covers_line(line: Seq<char>)
    requires
        encode_utf8(line).len() <= usize::MAX,
    ensures
        ({
            let b = encode_utf8(line);
            let sp = scan_text(b, 0);
            &&& forall|j: int| 0 <= j < sp.len() ==> (#[trigger] sp[j]).start < sp[j].end <= b.len()
            &&& forall|j1: int, j2: int| 0 <= j1 < j2 < sp.len() ==> (#[trigger] sp[j1]).end <= (#[trigger] sp[j2]).start
            &&& forall|k: int|
                0 <= k < b.len() ==> is_ascii_ws(#[trigger] b[k]) || exists|j: int|
                    0 <= j < sp.len() && (#[trigger] sp[j]).start <= k < sp[j].end
        }),
{
    lemma_scan_text_laid(encode_utf8(line), 0);
    reveal(laid_out);
}

/// Highlights one line of HTML: comments, tags with their attributes,
/// quoted values and `=`, and plain text between tags. Offsets are bytes
/// of the line's UTF-8 encoding.
pub fn highlight_html_line(line: &str) -> (r: Vec<HighlightSpan>)
    ensures
        r@ == scan_text(encode_utf8(line@), 0),
{
    let bv = str_to_bytes(line);
    let b = bv.as_slice();
    let len = b.len();
    let ghost bs = b@;
    let mut spans: Vec<HighlightSpan> = Vec::new();
    let mut i: usize = 0;
    let mut in_tag = false;
    while i < len
        invariant
            len == bs.len(),
            bs == b@,
            bs == encode_utf8(line@),
            i <= len,
            spans@ + (if in_tag { scan_tag(bs, i as int) } else { scan_text(bs, i as int) })
                == scan_text(bs, 0),
        decreases len - i, if in_tag { 0int } else { 1int },
    {
        let ghost before = spans@;
        if !in_tag {
            if b[i] == 0x3C {
                if len - i > 3 && b[i + 1] == 0x21 && b[i + 2] == 0x2D && b[i + 3] == 0x2D {
                    let e = find_comment_close(b, i);
                    spans.push(HighlightSpan { start: i, end: e, kind: TokenKind::Comment });
                    assert(spans@ + scan_text(bs, e as int) =~= before + scan_text(bs, i as int));
                    i = e;
                } else {
                    let e = find_tag_name_end(b, i);
                    assert(e > i);
                    spans.push(HighlightSpan { start: i, end: e, kind: TokenKind::Tag });
                    assert(spans@ + scan_tag(bs, e as int) =~= before + scan_text(bs, i as int));
                    i = e;
                    in_tag = true;
                }
            } else {
                let e = find_next_byte(b, i, 0x3C);
                assert(e > i);
                spans.push(HighlightSpan { start: i, end: e, kind: TokenKind::Plain });
                assert(spans@ + scan_text(bs, e as int) =~= before + scan_text(bs, i as int));
                i = e;
            }
        } else {
            let c = b[i];
            if c == 0x3E {
                spans.push(HighlightSpan { start: i, end: i + 1, kind: TokenKind::Tag });
                assert(spans@ + scan_text(bs, i + 1) =~= before + scan_tag(bs, i as int));
                i += 1;
                in_tag = false;
            } else if c == 0x20 || c == 0x09 || c == 0x0A || c == 0x0C || c == 0x0D {
                i += 1;
            } else if c == 0x22 || c == 0x27 {
                let q = find_next_byte(b, i + 1, c);
                let e = if q < len {
                    q + 1
                } else {
                    len
                };
                spans.push(HighlightSpan { start: i, end: e, kind: TokenKind::StringLiteral });
                assert(spans@ + scan_tag(bs, e as int) =~= before + scan_tag(bs, i as int));
                i = e;
            } else if c == 0x3D {
                spans.push(HighlightSpan { start: i, end: i + 1, kind: TokenKind::Punctuation });
                assert(spans@ + scan_tag(bs, i + 1) =~= before + scan_tag(bs, i as int));
                i += 1;
            } else {
                let e = find_attr_name_end(b, i);
                assert(e > i);
                spans.push(HighlightSpan { start: i, end: e, kind: TokenKind::Attribute });
                assert(spans@ + scan_tag(bs, e as int) =~= before + scan_tag(bs, i as int));
                i = e;
            }
        }
    }
    assert(spans@ =~= scan_text(bs, 0));
    spans
}


// ── Panel state ──────────────────────────────────────────────────────────────

/// The state of the sources panel.
#[derive(Debug, Clone)]
pub struct SourcesState {
    sources: Vec<SourceDocument>,
    next_id: u64,
    active_tab: Option<SourceId>,
    scroll_line: usize,
    search_text: String,
    search_matches: Vec<(SourceId, usize)>,
    search_index: usize,
}

/// The value of the panel state.
pub struct SourcesView {
    pub sources: Seq<DocView>,
    pub next_id: u64,
    pub active_tab: Option<SourceId>,
    pub scroll_line: usize,
    pub search_text: Seq<char>,
    pub search_matches: Seq<(SourceId, usize)>,
    pub search_index: usize,
}

impl View for SourcesState {
    type V = SourcesView;

    closed spec fn view(&self) -> SourcesView {
        SourcesView {
            sources: self.sources@.map_values(|d: SourceDocument| d@),
            next_id: self.next_id,
            active_tab: self.active_tab,
            scroll_line: self.scroll_line,
            search_text: self.search_text@,
            search_matches: self.search_matches@,
            search_index: self.search_index,
        }
    }
}

/// `i` is the first position of a document with an identifier.
pub open spec fn first_source(s: Seq<DocView>, id: SourceId, i: int) -> bool {
    0 <= i < s.len() && s[i].id == id && forall|j: int| 0 <= j < i ==> s[j].id != id
}

/// Whether some document has an identifier.
pub open spec fn has_source(s: Seq<DocView>, id: SourceId) -> bool {
    exists|i: int| 0 <= i < s.len() && s[i].id == id
}

/// The lines of the active document, if there is one.
pub open spec fn active_lines(v: SourcesView) -> Option<Seq<Seq<char>>> {
    match v.active_tab {
        Some(id) => if has_source(v.sources, id) {
            Some(v.sources[choose|i: int| first_source(v.sources, id, i)].lines)
        } else {
            None
        },
        None => None,
    }
}

/// The line a scroll request lands on: at least 1, at most the number of
/// lines of the active document (1 without one).
pub open spec fn clamp_line(v: SourcesView, line: int) -> int {
    let max = match active_lines(v) {
        Some(ls) => ls.len() as int,
        None => 1,
    };
    let at_least_one = if line < 1 { 1 } else { line };
    if at_least_one < max { at_least_one } else { max }
}

/// The matches of a search in a document: the numbers of the lines that
/// contain the query, ASCII case-insensitively, with the document's id.
pub open spec fn line_matches(id: SourceId, lines: Seq<Seq<char>>, q: Seq<char>) -> Seq<(SourceId, usize)> {
    Seq::new(lines.len(), |k: int| (id, (k + 1) as usize)).filter(
        |m: (SourceId, usize)| contains_seq(ascii_lower(lines[m.1 - 1]), ascii_lower(q)),
    )
}

impl Default for SourcesState {
    fn default() -> (r: Self)
        ensures
            r@.sources == Seq::<DocView>::empty(),
            r@.next_id == 1,
            r@.active_tab is None,
            r@.scroll_line == 1,
            r@.search_text == Seq::<char>::empty(),
            r@.search_matches == Seq::<(SourceId, usize)>::empty(),
            r@.search_index == 0,
    {
        let r = SourcesState {
            sources: Vec::new(),
            next_id: 1,
            active_tab: None,
            scroll_line: 1,
            search_text: String::new(),
            search_matches: Vec::new(),
            search_index: 0,
        };
        assert(r@.sources =~= Seq::<DocView>::empty());
        r
    }
}

impl SourcesState {
    /// While there are matches, the current one is among them.
    pub open spec fn wf(&self) -> bool {
        self@.search_matches.len() > 0 ==> self@.search_index < self@.search_matches.len()
    }

    /// An empty panel.
    pub fn new() -> (r: Self)
        ensures
            r.wf(),
            r@.sources == Seq::<DocView>::empty(),
            r@.next_id == 1,
            r@.active_tab is None,
            r@.scroll_line == 1,
            r@.search_text == Seq::<char>::empty(),
            r@.search_matches == Seq::<(SourceId, usize)>::empty(),
            r@.search_index == 0,
    {
        Self::default()
    }

    /// Adds a document, split into lines; the first one added becomes active.
    pub fn add_source(&mut self, label: String, url: String, kind: SourceKind, content: String) -> (r: SourceId)
        requires
            old(self).wf(),
            old(self)@.next_id < u64::MAX,
        ensures
            final(self).wf(),
            r == SourceId(old(self)@.next_id),
            final(self)@ == (SourcesView {
                sources: old(self)@.sources.push(
                    DocView { id: r, label: label@, url: url@, kind, content: content@, lines: doc_lines(content@) },
                ),
                next_id: (old(self)@.next_id + 1) as u64,
                active_tab: if old(self)@.active_tab is None {
                    Some(r)
                } else {
                    old(self)@.active_tab
                },
                ..old(self)@
            }),
    {
        let id = SourceId(self.next_id);
        self.next_id = self.next_id + 1;
        let doc = SourceDocument::new(id, label, url, kind, content);
        let ghost before = self.sources@;
        let ghost dv = doc@;
        self.sources.push(doc);
        assert(self@.sources =~= before.map_values(|d: SourceDocument| d@).push(dv));
        if self.active_tab.is_none() {
            self.active_tab = Some(id);
        }
        id
    }

    /// Removes every document and resets tab, scroll, search and identifiers.
    pub fn clear(&mut self)
        requires
            old(self).wf(),
        ensures
            final(self).wf(),
            final(self)@ == (SourcesView {
                sources: Seq::empty(),
                active_tab: None,
                scroll_line: 1,
                search_text: Seq::empty(),
                search_matches: Seq::empty(),
                next_id: 1,
                ..old(self)@
            }),
    {
        self.sources.clear();
        self.active_tab = None;
        self.scroll_line = 1;
        self.search_text = String::new();
        self.search_matches.clear();
        self.next_id = 1;
        assert(self@.sources =~= Seq::<DocView>::empty());
        assert(self@.search_matches =~= Seq::<(SourceId, usize)>::empty());
    }

    /// All documents.
    pub fn sources(&self) -> (r: &[SourceDocument])
        ensures
            r@.map_values(|d: SourceDocument| d@) == self@.sources,
    {
        self.sources.as_slice()
    }

    fn position(&self, id: SourceId) -> (r: Option<usize>)
        ensures
            r matches Some(i) ==> first_source(self@.sources, id, i as int),
            r is None ==> !has_source(self@.sources, id),
    {
        let n = self.sources.len();
        let mut i: usize = 0;
        while i < n
            invariant
                n == self.sources@.len(),
                i <= n,
                forall|j: int| 0 <= j < i ==> self@.sources[j].id != id,
            decreases n - i,
        {
            if self.sources[i].id == id {
                assert(self@.sources[i as int].id == id);
                return Some(i);
            }
            assert(self@.sources[i as int].id == self.sources@[i as int].id);
            i += 1;
        }
        None
    }

    /// The first document with an identifier.
    pub fn get_source(&self, id: SourceId) -> (r: Option<&SourceDocument>)
        ensures
            r is None <==> !has_source(self@.sources, id),
            r matches Some(d) ==> exists|i: int| first_source(self@.sources, id, i) && d@ == self@.sources[i],
    {
        match self.position(id) {
            Some(i) => Some(&self.sources[i]),
            None => None,
        }
    }

    /// The active document.
    pub fn active_source(&self) -> (r: Option<&SourceDocument>)
        ensures
            r is Some <==> active_lines(self@) is Some,
            r matches Some(d) ==> active_lines(self@) == Some(d@.lines),
    {
        match self.active_tab {
            Some(id) => match self.position(id) {
                Some(i) => {
                    proof {
                        let c = choose|k: int| first_source(self@.sources, id, k);
                        assert(first_source(self@.sources, id, c));
                        if c < i {
                            assert(self@.sources[c].id != id);
                        }
                        if c > i {
                            assert(self@.sources[i as int].id != id);
                        }
                    }
                    Some(&self.sources[i])
                },
                None => None,
            },
            None => None,
        }
    }

    /// Makes a document active and scrolls to its top; an unknown identifier
    /// changes nothing.
    pub fn set_active_tab(&mut self, id: SourceId)
        requires
            old(self).wf(),
        ensures
            final(self).wf(),
            has_source(old(self)@.sources, id) ==> final(self)@ == (SourcesView {
                active_tab: Some(id),
                scroll_line: 1,
                ..old(self)@
            }),
            !has_source(old(self)@.sources, id) ==> final(self)@ == old(self)@,
    {
        if self.position(id).is_some() {
            self.active_tab = Some(id);
            self.scroll_line = 1;
        }
    }

    /// The active tab.
    pub fn active_tab(&self) -> (r: Option<SourceId>)
        ensures
            r == self@.active_tab,
    {
        self.active_tab
    }

    /// The number of documents.
    pub fn source_count(&self) -> (r: usize)
        ensures
            r == self@.sources.len(),
    {
        self.sources.len()
    }

    /// The first line shown (from 1).
    pub fn scroll_line(&self) -> (r: usize)
        ensures
            r == self@.scroll_line,
    {
        self.scroll_line
    }

    /// Scrolls to a line, clamped to the active document.
    pub fn set_scroll_line(&mut self, line: usize)
        requires
            old(self).wf(),
        ensures
            final(self).wf(),
            final(self)@ == (SourcesView { scroll_line: clamp_line(old(self)@, line as int) as usize, ..old(self)@ }),
    {
        let max = match self.active_source() {
            Some(s) => s.line_count(),
            None => 1,
        };
        let at_least_one = if line < 1 {
            1
        } else {
            line
        };
        self.scroll_line = if at_least_one < max {
            at_least_one
        } else {
            max
        };
    }

    /// Scrolls down some lines (clamped).
    pub fn scroll_down(&mut self, lines: usize)
        requires
            old(self).wf(),
        ensures
            final(self).wf(),
            final(self)@ == (SourcesView {
                scroll_line: clamp_line(
                    old(self)@,
                    if old(self)@.scroll_line + lines > usize::MAX { usize::MAX as int } else { old(self)@.scroll_line + lines },
                ) as usize,
                ..old(self)@
            }),
    {
        let target = self.scroll_line.saturating_add(lines);
        self.set_scroll_line(target);
    }

    /// Scrolls up some lines (clamped).
    pub fn scroll_up(&mut self, lines: usize)
        requires
            old(self).wf(),
        ensures
            final(self).wf(),
            final(self)@ == (SourcesView {
                scroll_line: clamp_line(
                    old(self)@,
                    if old(self)@.scroll_line < lines { 0 } else { old(self)@.scroll_line - lines },
                ) as usize,
                ..old(self)@
            }),
    {
        let target = self.scroll_line.saturating_sub(lines);
        self.set_scroll_line(target);
    }

    /// Searches the active document for a text: the matches are the lines
    /// containing it, ASCII case-insensitively; the current match is the
    /// first. An empty text finds nothing.
    pub fn search(&mut self, text: String)
        requires
            old(self).wf(),
        ensures
            final(self).wf(),
            final(self)@ == (SourcesView {
                search_text: text@,
                search_matches: if text@.len() == 0 {
                    Seq::empty()
                } else {
                    match active_lines(old(self)@) {
                        Some(ls) => line_matches(old(self)@.active_tab->0, ls, text@),
                        None => Seq::empty(),
                    }
                },
                search_index: 0,
                ..old(self)@
            }),
    {
        let ghost s0 = self@;
        self.search_text = text;
        self.search_matches.clear();
        self.search_index = 0;
        if self.search_text.as_str().is_empty() {
            assert(self@.search_matches =~= Seq::<(SourceId, usize)>::empty());
            return;
        }
        let q = str_to_ascii_lower(self.search_text.as_str());
        let mut found: Vec<(SourceId, usize)> = Vec::new();
        let ghost q_text = self@.search_text;
        match self.active_source() {
            Some(source) => {
                let sid = self.active_tab.unwrap();
                let ghost ls = source@.lines;
                let ghost pred = |m: (SourceId, usize)| contains_seq(ascii_lower(ls[m.1 - 1]), ascii_lower(q_text));
                let ghost all = Seq::new(ls.len(), |k: int| (sid, (k + 1) as usize));
                let count = source.line_count();
                let mut k: usize = 0;
                while k < count
                    invariant
                        count == ls.len(),
                        k <= count,
                        ls == source@.lines,
                        q@ == ascii_lower(q_text),
                        all == Seq::new(ls.len(), |j: int| (sid, (j + 1) as usize)),
                        pred == (|m: (SourceId, usize)| contains_seq(ascii_lower(ls[m.1 - 1]), ascii_lower(q_text))),
                        found@ == all.take(k as int).filter(pred),
                    decreases count - k,
                {
                    let line = source.line(k + 1).unwrap();
                    let lw = str_to_ascii_lower(line);
                    let hit = chars_contains(lw.as_slice(), q.as_slice());
                    assert(all[k as int] == (sid, (k + 1) as usize));
                    assert(hit == pred(all[k as int]));
                    assert(all.take(k + 1).drop_last() =~= all.take(k as int));
                    assert(all.take(k + 1).last() == all[k as int]);
                    reveal_with_fuel(Seq::filter, 1);
                    if hit {
                        found.push((sid, k + 1));
                    }
                    k += 1;
                }
                assert(all.take(count as int) =~= all);
            },
            None => {},
        }
        self.search_matches = found;
    }

    /// The number of matches.
    pub fn match_count(&self) -> (r: usize)
        ensures
            r == self@.search_matches.len(),
    {
        self.search_matches.len()
    }

    /// The current match, if any.
    pub fn current_match(&self) -> (r: Option<(SourceId, usize)>)
        ensures
            self@.search_index < self@.search_matches.len() ==> r == Some(
                self@.search_matches[self@.search_index as int],
            ),
            self@.search_index >= self@.search_matches.len() ==> r is None,
    {
        if self.search_index < self.search_matches.len() {
            Some(self.search_matches[self.search_index])
        } else {
            None
        }
    }

    /// Moves to the next match, wrapping around, and scrolls to its line.
    pub fn next_match(&mut self)
        requires
            old(self).wf(),
        ensures
            final(self).wf(),
            old(self)@.search_matches.len() == 0 ==> final(self)@ == old(self)@,
            old(self)@.search_matches.len() > 0 ==> ({
                let n = old(self)@.search_matches.len();
                let k = ((old(self)@.search_index + 1) % (n as int)) as usize;
                final(self)@ == (SourcesView {
                    search_index: k,
                    scroll_line: old(self)@.search_matches[k as int].1,
                    ..old(self)@
                })
            }),
    {
        let n = self.search_matches.len();
        if n > 0 {
            self.search_index = (self.search_index + 1) % n;
            let (_, line) = self.search_matches[self.search_index];
            self.scroll_line = line;
        }
    }

    /// Moves to the previous match, wrapping around, and scrolls to its line.
    pub fn prev_match(&mut self)
        requires
            old(self).wf(),
        ensures
            final(self).wf(),
            old(self)@.search_matches.len() == 0 ==> final(self)@ == old(self)@,
            old(self)@.search_matches.len() > 0 ==> ({
                let n = old(self)@.search_matches.len();
                let k = if old(self)@.search_index == 0 {
                    (n - 1) as usize
                } else {
                    (old(self)@.search_index - 1) as usize
                };
                final(self)@ == (SourcesView {
                    search_index: k,
                    scroll_line: old(self)@.search_matches[k as int].1,
                    ..old(self)@
                })
            }),
    {
        let n = self.search_matches.len();
        if n > 0 {
            self.search_index = if self.search_index == 0 {
                n - 1
            } else {
                self.search_index - 1
            };
            let (_, line) = self.search_matches[self.search_index];
            self.scroll_line = line;
        }
    }

    /// The search text.
    pub fn search_text(&self) -> (r: &str)
        ensures
            r@ == self@.search_text,
    {
        self.search_text.as_str()
    }
}
} // verus!
