//! Content script injection: URL pattern matching and injection timing.
//!
//! When a page loads, content scripts whose match patterns match the page
//! URL are injected into an isolated JavaScript world.
use vstd::prelude::*;

use crate::text::{
    chars_eq, chars_find, chars_of, chars_split, chars_split_once, chars_starts_with, chars_ends_with,
    find_first, has_prefix, has_suffix, split_char, split_once, str_eq, string_from_chars, sub_chars,
};

verus! {

/// When to inject a content script relative to page load.
#[derive(Debug, Clone, Copy, PartialEq, Eq, Hash, Structural)]
pub enum InjectionTime {
    /// Before any page script runs.
    DocumentStart,
    /// After the DOM is ready (DOMContentLoaded).
    DocumentEnd,
    /// After page load (default).
    DocumentIdle,
}

/// The manifest key of an injection time.
pub open spec fn injection_key(t: InjectionTime) -> Seq<char> {
    match t {
        InjectionTime::DocumentStart => "document_start"@,
        InjectionTime::DocumentEnd => "document_end"@,
        InjectionTime::DocumentIdle => "document_idle"@,
    }
}

/// The injection time named by a manifest string; unknown names mean idle.
pub open spec fn injection_from_str(s: Seq<char>) -> InjectionTime {
    if s == "document_start"@ {
        InjectionTime::DocumentStart
    } else if s == "document_end"@ {
        InjectionTime::DocumentEnd
    } else {
        InjectionTime::DocumentIdle
    }
}

/// Order of injection: start, then end, then idle.
pub open spec fn injection_rank(t: InjectionTime) -> int {
    match t {
        InjectionTime::DocumentStart => 0,
        InjectionTime::DocumentEnd => 1,
        InjectionTime::DocumentIdle => 2,
    }
}

impl InjectionTime {
    /// Parse from a manifest string.
    pub fn parse_str(s: &str) -> (r: Self)
        ensures
            r == injection_from_str(s@),
    {
        if str_eq(s, "document_start") {
            InjectionTime::DocumentStart
        } else if str_eq(s, "document_end") {
            InjectionTime::DocumentEnd
        } else {
            InjectionTime::DocumentIdle
        }
    }

    /// Manifest key string.
    pub fn as_str(self) -> (r: &'static str)
        ensures
            r@ == injection_key(self),
    {
        match self {
            InjectionTime::DocumentStart => "document_start",
            InjectionTime::DocumentEnd => "document_end",
            InjectionTime::DocumentIdle => "document_idle",
        }
    }
}

/// Parsing the key of an injection time gives it back.
pub proof fn law_injection_roundtrip(t: InjectionTime)
    ensures
        injection_from_str(injection_key(t)) == t,
{
    reveal_strlit("document_start");
    reveal_strlit("document_end");
    reveal_strlit("document_idle");
    assert("document_end"@.len() != "document_start"@.len());
    assert("document_idle"@.len() != "document_start"@.len());
    assert("document_idle"@[9] != "document_end"@[9]);
}

/// Content script definition from the manifest.
#[derive(Debug, Clone)]
pub struct ContentScriptDef {
    /// URL match patterns.
    pub matches: Vec<String>,
    /// JS files to inject (paths relative to the extension root).
    pub js_files: Vec<String>,
    /// When to inject.
    pub run_at: InjectionTime,
}

/// A resolved content script ready for injection.
#[derive(Debug, Clone)]
pub struct ContentScript {
    /// Extension ID that owns this script.
    pub extension_id: String,
    /// Compiled match patterns.
    pub patterns: Vec<MatchPattern>,
    /// JavaScript source code to inject.
    pub source: String,
    /// When to inject.
    pub run_at: InjectionTime,
}

/// A compiled URL match pattern of the form `<scheme>://<host>/<path>`;
/// `<all_urls>` matches every http and https URL.
#[derive(Debug, Clone)]
pub struct MatchPattern {
    /// The raw pattern string.
    pub raw: String,
    /// Whether this is the `<all_urls>` wildcard.
    pub all_urls: bool,
    /// Scheme part ("*", "http", "https").
    pub scheme: String,
    /// Host part (may start with "*." for subdomain match).
    pub host: String,
    /// Path part (may contain "*" wildcards).
    pub path: String,
}

/// Splits `rest` into host and path at the first '/'; without a '/', the
/// path is `default_path`.
pub open spec fn host_and_path(rest: Seq<char>, default_path: Seq<char>) -> (Seq<char>, Seq<char>) {
    match find_first(rest, seq!['/']) {
        Some(pos) => (rest.subrange(0, pos), rest.subrange(pos, rest.len() as int)),
        None => (rest, default_path),
    }
}

/// The parts a pattern string parses into: all-urls flag, scheme, host, path.
pub open spec fn parse_pattern(p: Seq<char>) -> Option<(bool, Seq<char>, Seq<char>, Seq<char>)> {
    if p == "<all_urls>"@ {
        Some((true, Seq::empty(), Seq::empty(), Seq::empty()))
    } else {
        match split_once(p, "://"@) {
            None => None,
            Some((scheme, rest)) => {
                let (host, path) = host_and_path(rest, "/*"@);
                Some((false, scheme, host, path))
            },
        }
    }
}

/// Whether a URL host matches a pattern host.
pub open spec fn host_matches(host: Seq<char>, url_host: Seq<char>) -> bool {
    if host == "*"@ {
        true
    } else if has_prefix(host, "*."@) {
        let suffix = host.subrange(2, host.len() as int);
        url_host == suffix || has_suffix(url_host, seq!['.'] + suffix)
    } else {
        url_host == host
    }
}

/// Matching the wildcard segments `segs[i..]` against the rest of a path:
/// `*` stands for any text between segments. The first segment must start
/// the path and the last one must end it (unless the pattern ends in `*`,
/// when the last segment is empty); a pattern without `*` must be the whole
/// path. The other segments are found leftmost, in order.
pub open spec fn segments_match(segs: Seq<Seq<char>>, i: int, rem: Seq<char>) -> bool
    decreases segs.len() - i,
{
    if i < 0 || i >= segs.len() {
        true
    } else if i == segs.len() - 1 {
        if segs[i].len() == 0 {
            true
        } else if i == 0 {
            rem == segs[i]
        } else {
            has_suffix(rem, segs[i])
        }
    } else if segs[i].len() == 0 {
        segments_match(segs, i + 1, rem)
    } else {
        match find_first(rem, segs[i]) {
            None => false,
            Some(pos) => if i == 0 && pos != 0 {
                false
            } else {
                segments_match(segs, i + 1, rem.subrange(pos + segs[i].len(), rem.len() as int))
            },
        }
    }
}

/// Whether a URL path matches a pattern path.
pub open spec fn path_matches(path: Seq<char>, url_path: Seq<char>) -> bool {
    path == "/*"@ || path == "*"@ || segments_match(split_char(path, '*'), 0, url_path)
}

/// A pattern with host `*` matches every host: whatever the URL's host, it
/// matches exactly when the scheme and the path do; so `*://*/*` matches
/// every http or https URL.
pub proof fn law_star_host_matches_any_host(scheme: Seq<char>, path: Seq<char>, url: Seq<char>, url_host: Seq<char>)
    ensures
        host_matches("*"@, url_host),
        match split_once(url, "://"@) {
            None => !pattern_matches(false, scheme, "*"@, path, url),
            Some((url_scheme, rest)) => pattern_matches(false, scheme, "*"@, path, url) == ((if scheme == "*"@ {
                url_scheme == "http"@ || url_scheme == "https"@
            } else {
                scheme == url_scheme
            }) && path_matches(path, host_and_path(rest, "/"@).1)),
        },
        match split_once(url, "://"@) {
            None => true,
            Some((url_scheme, rest)) => pattern_matches(false, "*"@, "*"@, "/*"@, url) == (url_scheme == "http"@
                || url_scheme == "https"@),
        },
{
}

/// A `*.` host matches its domain and every subdomain of it, and a host
/// without a wildcard matches only itself.
pub proof fn law_subdomain_host_matches(domain: Seq<char>, sub: Seq<char>, host: Seq<char>, url_host: Seq<char>)
    requires
        host.len() == 0 || host[0] != '*',
    ensures
        host_matches("*."@ + domain, domain),
        host_matches("*."@ + domain, sub + seq!['.'] + domain),
        host_matches(host, url_host) == (url_host == host),
{
    reveal_strlit("*.");
    reveal_strlit("*");
    let pat = "*."@ + domain;
    assert(pat.subrange(2, pat.len() as int) =~= domain);
    assert(has_prefix(pat, "*."@)) by {
        assert(pat.subrange(0, 2) =~= "*."@);
    }
    let u = sub + seq!['.'] + domain;
    assert(has_suffix(u, seq!['.'] + domain)) by {
        assert(u.subrange(u.len() - (domain.len() + 1), u.len() as int) =~= seq!['.'] + domain);
    }
    if host.len() >= 2 {
        assert(host.subrange(0, 2)[0] == host[0]);
        assert(host.subrange(0, 2) != "*."@);
    }
    assert(host != "*"@);
    assert(!has_prefix(host, "*."@));
}

/// Whether a URL matches a pattern given by its parts.
pub open spec fn pattern_matches(
    all_urls: bool,
    scheme: Seq<char>,
    host: Seq<char>,
    path: Seq<char>,
    url: Seq<char>,
) -> bool {
    if all_urls {
        has_prefix(url, "http://"@) || has_prefix(url, "https://"@)
    } else {
        match split_once(url, "://"@) {
            None => false,
            Some((url_scheme, rest)) => {
                let scheme_ok = if scheme == "*"@ {
                    url_scheme == "http"@ || url_scheme == "https"@
                } else {
                    scheme == url_scheme
                };
                let (url_host, url_path) = host_and_path(rest, "/"@);
                scheme_ok && host_matches(host, url_host) && path_matches(path, url_path)
            },
        }
    }
}

impl MatchPattern {
    /// Whether a URL matches this pattern.
    pub open spec fn spec_matches(&self, url: Seq<char>) -> bool {
        pattern_matches(self.all_urls, self.scheme@, self.host@, self.path@, url)
    }

    /// Parse a match pattern string; `None` if it is malformed.
    pub fn parse(pattern: &str) -> (r: Option<Self>)
        ensures
            r is None <==> parse_pattern(pattern@) is None,
            r matches Some(m) ==> parse_pattern(pattern@) == Some(
                (m.all_urls, m.scheme@, m.host@, m.path@),
            ) && m.raw@ == pattern@,
    {
        if str_eq(pattern, "<all_urls>") {
            return Some(MatchPattern {
                raw: pattern.to_owned(),
                all_urls: true,
                scheme: String::new(),
                host: String::new(),
                path: String::new(),
            });
        }
        let chars = chars_of(pattern);
        let sep = chars_of("://");
        let split = chars_split_once(chars.as_slice(), sep.as_slice());
        let (scheme, rest) = match split {
            Some(pair) => pair,
            None => { return None; },
        };
        let default_path = chars_of("/*");
        let (host, path) = split_host_path(rest.as_slice(), default_path.as_slice());
        Some(MatchPattern {
            raw: pattern.to_owned(),
            all_urls: false,
            scheme: string_from_chars(scheme.as_slice()),
            host: string_from_chars(host.as_slice()),
            path: string_from_chars(path.as_slice()),
        })
    }

    /// Whether a URL matches this pattern.
    pub fn matches(&self, url: &str) -> (r: bool)
        ensures
            r == self.spec_matches(url@),
    {
        if self.all_urls {
            let u = chars_of(url);
            let http = chars_of("http://");
            let https = chars_of("https://");
            return chars_starts_with(u.as_slice(), http.as_slice()) || chars_starts_with(
                u.as_slice(),
                https.as_slice(),
            );
        }
        let u = chars_of(url);
        let sep = chars_of("://");
        let (url_scheme, rest) = match chars_split_once(u.as_slice(), sep.as_slice()) {
            Some(pair) => pair,
            None => { return false; },
        };
        let scheme = chars_of(self.scheme.as_str());
        let star = chars_of("*");
        let scheme_ok = if chars_eq(scheme.as_slice(), star.as_slice()) {
            let http = chars_of("http");
            let https = chars_of("https");
            chars_eq(url_scheme.as_slice(), http.as_slice()) || chars_eq(url_scheme.as_slice(), https.as_slice())
        } else {
            chars_eq(scheme.as_slice(), url_scheme.as_slice())
        };
        if !scheme_ok {
            return false;
        }
        let slash = chars_of("/");
        let (url_host, url_path) = split_host_path(rest.as_slice(), slash.as_slice());
        let host = chars_of(self.host.as_str());
        if !host_matches_exec(host.as_slice(), url_host.as_slice()) {
            return false;
        }
        let path = chars_of(self.path.as_str());
        path_matches_exec(path.as_slice(), url_path.as_slice())
    }
}

/// Splits at the first '/' into host and path.
fn split_host_path(rest: &[char], default_path: &[char]) -> (r: (Vec<char>, Vec<char>))
    ensures
        (r.0@, r.1@) == host_and_path(rest@, default_path@),
{
    let slash = vec!['/'];
    assert(slash@ =~= seq!['/']);
    match chars_find(rest, slash.as_slice()) {
        Some(pos) => {
            let n = rest.len();
            (sub_chars(rest, 0, pos), sub_chars(rest, pos, n))
        },
        None => {
            let n = rest.len();
            let whole = sub_chars(rest, 0, n);
            assert(whole@ =~= rest@);
            (whole, sub_chars(default_path, 0, default_path.len()))
        },
    }
}

fn host_matches_exec(host: &[char], url_host: &[char]) -> (r: bool)
    ensures
        r == host_matches(host@, url_host@),
{
    let star = chars_of("*");
    if chars_eq(host, star.as_slice()) {
        return true;
    }
    let star_dot = chars_of("*.");
    proof { reveal_strlit("*."); }
    if chars_starts_with(host, star_dot.as_slice()) {
        let n = host.len();
        let suffix = sub_chars(host, 2, n);
        if chars_eq(url_host, suffix.as_slice()) {
            return true;
        }
        let mut dotted: Vec<char> = vec!['.'];
        let mut k: usize = 0;
        while k < suffix.len()
            invariant
                k <= suffix@.len(),
                dotted@ == seq!['.'] + suffix@.take(k as int),
            decreases suffix.len() - k,
        {
            dotted.push(suffix[k]);
            assert(suffix@.take(k + 1) =~= suffix@.take(k as int).push(suffix@[k as int]));
            k += 1;
        }
        assert(suffix@.take(suffix@.len() as int) =~= suffix@);
        chars_ends_with(url_host, dotted.as_slice())
    } else {
        chars_eq(url_host, host)
    }
}

fn path_matches_exec(path: &[char], url_path: &[char]) -> (r: bool)
    ensures
        r == path_matches(path@, url_path@),
{
    let slash_star = chars_of("/*");
    let star = chars_of("*");
    if chars_eq(path, slash_star.as_slice()) || chars_eq(path, star.as_slice()) {
        return true;
    }
    assert(path@ != "/*"@ && path@ != "*"@);
    let segs = chars_split(path, '*');
    let ghost sv = segs@.map_values(|v: Vec<char>| v@);
    let mut rem: Vec<char> = sub_chars(url_path, 0, url_path.len());
    assert(rem@ =~= url_path@);
    let mut i: usize = 0;
    while i < segs.len()
        invariant
            i <= segs@.len(),
            sv == segs@.map_values(|v: Vec<char>| v@),
            sv == split_char(path@, '*'),
            path@ != "/*"@ && path@ != "*"@,
            segments_match(sv, 0, url_path@) == segments_match(sv, i as int, rem@),
        decreases segs.len() - i,
    {
        let seg = &segs[i];
        assert(sv[i as int] == seg@);
        if i + 1 == segs.len() {
            if seg.len() == 0 {
                return true;
            } else if i == 0 {
                return chars_eq(rem.as_slice(), seg.as_slice());
            } else {
                return chars_ends_with(rem.as_slice(), seg.as_slice());
            }
        }
        if seg.len() == 0 {
            i += 1;
            continue;
        }
        match chars_find(rem.as_slice(), seg.as_slice()) {
            None => {
                assert(!segments_match(sv, i as int, rem@));
                return false;
            },
            Some(pos) => {
                if i == 0 && pos != 0 {
                    assert(!segments_match(sv, i as int, rem@));
                    return false;
                }
                let n = rem.len();
                rem = sub_chars(rem.as_slice(), pos + seg.len(), n);
            },
        }
        i += 1;
    }
    true
}

impl ContentScript {
    /// Whether one of the patterns matches the URL.
    pub open spec fn spec_matches_url(&self, url: Seq<char>) -> bool {
        exists|i: int| 0 <= i < self.patterns@.len() && (#[trigger] self.patterns@[i]).spec_matches(url)
    }

    /// Check if this script should be injected into the given URL.
    pub fn matches_url(&self, url: &str) -> (r: bool)
        ensures
            r == self.spec_matches_url(url@),
    {
        let mut i: usize = 0;
        while i < self.patterns.len()
            invariant
                i <= self.patterns@.len(),
                forall|j: int| 0 <= j < i ==> !(#[trigger] self.patterns@[j]).spec_matches(url@),
            decreases self.patterns.len() - i,
        {
            if self.patterns[i].matches(url) {
                return true;
            }
            i += 1;
        }
        false
    }
}

/// All content scripts that match a URL, in their original order.
pub fn scripts_for_url<'a>(scripts: &'a [ContentScript], url: &str) -> (r: Vec<&'a ContentScript>)
    ensures
        r@.map_values(|c: &ContentScript| *c) == scripts@.filter(|s: ContentScript| s.spec_matches_url(url@)),
{
    let ghost pred = |s: ContentScript| s.spec_matches_url(url@);
    let mut r: Vec<&'a ContentScript> = Vec::new();
    let mut i: usize = 0;
    while i < scripts.len()
        invariant
            i <= scripts@.len(),
            pred == (|s: ContentScript| s.spec_matches_url(url@)),
            r@.map_values(|c: &ContentScript| *c) == scripts@.take(i as int).filter(pred),
        decreases scripts.len() - i,
    {
        let s = &scripts[i];
        let ghost before = r@;
        if s.matches_url(url) {
            r.push(s);
            assert(r@.map_values(|c: &ContentScript| *c) =~= before.map_values(|c: &ContentScript| *c).push(*s));
        }
        assert(scripts@.take(i + 1).drop_last() =~= scripts@.take(i as int));
        assert(scripts@.take(i + 1).last() == scripts@[i as int]);
        reveal_with_fuel(Seq::filter, 1);
        i += 1;
    }
    assert(scripts@.take(scripts@.len() as int) =~= scripts@);
    r
}

/// Scripts of one injection rank, in order.
pub open spec fn scripts_of_rank(s: Seq<&ContentScript>, k: int) -> Seq<&ContentScript> {
    s.filter(|c: &ContentScript| injection_rank(c.run_at) == k)
}

fn append_rank<'a>(out: &mut Vec<&'a ContentScript>, scripts: &Vec<&'a ContentScript>, k: u8)
    requires
        k <= 2,
    ensures
        final(out)@ == old(out)@ + scripts_of_rank(scripts@, k as int),
{
    let ghost pred = |c: &ContentScript| injection_rank(c.run_at) == k as int;
    let ghost start = out@;
    let mut i: usize = 0;
    while i < scripts.len()
        invariant
            i <= scripts@.len(),
            pred == (|c: &ContentScript| injection_rank(c.run_at) == k as int),
            out@ == start + scripts@.take(i as int).filter(pred),
        decreases scripts.len() - i,
    {
        let s = scripts[i];
        let rank: u8 = match s.run_at {
            InjectionTime::DocumentStart => 0,
            InjectionTime::DocumentEnd => 1,
            InjectionTime::DocumentIdle => 2,
        };
        if rank == k {
            out.push(s);
        }
        assert(scripts@.take(i + 1).drop_last() =~= scripts@.take(i as int));
        assert(scripts@.take(i + 1).last() == scripts@[i as int]);
        reveal_with_fuel(Seq::filter, 1);
        assert(out@ =~= start + scripts@.take(i + 1).filter(pred));
        i += 1;
    }
    assert(scripts@.take(scripts@.len() as int) =~= scripts@);
}

/// Sort scripts by injection time (start, end, idle), keeping the order of
/// scripts with the same time.
pub fn sort_by_injection_time(scripts: &mut Vec<&ContentScript>)
    ensures
        final(scripts)@ == scripts_of_rank(old(scripts)@, 0) + scripts_of_rank(old(scripts)@, 1)
            + scripts_of_rank(old(scripts)@, 2),
{
    let mut out: Vec<&ContentScript> = Vec::new();
    append_rank(&mut out, scripts, 0);
    append_rank(&mut out, scripts, 1);
    append_rank(&mut out, scripts, 2);
    assert(out@ =~= scripts_of_rank(scripts@, 0) + scripts_of_rank(scripts@, 1) + scripts_of_rank(scripts@, 2));
    *scripts = out;
}

// ── Wrapping a script for its extension ──────────────────────────────────────

/// The text before the extension's ID in a wrapped script.
pub open spec fn wrap_head() -> Seq<char> {
    "(function() {\n            const __vigoExtId = "@
}

/// The text between the extension's ID and the script in a wrapped script:
/// it binds `vigo` to a runtime whose calls carry the ID.
pub open spec fn wrap_middle() -> Seq<char> {
    ";\n            const __vigoOrig = globalThis.vigo;\n            const vigo = (__vigoOrig && __vigoOrig.runtime)\n                ? {\n                    runtime: {\n                        __vigoExtensionId: __vigoExtId,\n                        sendMessage: function() {\n                            return __vigoOrig.runtime.sendMessage.apply({ __vigoExtensionId: __vigoExtId }, arguments);\n                        },\n                        onMessage: {\n                            addListener: function(callback) {\n                                return __vigoOrig.runtime.onMessage.addListener.call({ __vigoExtensionId: __vigoExtId }, callback);\n                            }\n                        }\n                    }\n                }\n                : __vigoOrig;\n            "@
}

/// The text after the script in a wrapped script.
pub open spec fn wrap_tail() -> Seq<char> {
    "\n        })();"@
}

/// A character as it stands inside a JSON string: `"` and `\` and the
/// control characters are escaped (`\b`, `\t`, `\n`, `\f`, `\r`, and
/// `\u00XX` with lowercase hexadecimal digits for the others below U+0020).
pub open spec fn json_char(c: char) -> Seq<char> {
    if c == '"' {
        seq!['\\', '"']
    } else if c == '\\' {
        seq!['\\', '\\']
    } else if c == '\u{8}' {
        seq!['\\', 'b']
    } else if c == '\t' {
        seq!['\\', 't']
    } else if c == '\n' {
        seq!['\\', 'n']
    } else if c == '\u{c}' {
        seq!['\\', 'f']
    } else if c == '\r' {
        seq!['\\', 'r']
    } else if (c as u32) < 0x20 {
        seq!['\\', 'u', '0', '0', lower_hex_digit((c as u32 / 16) as int), lower_hex_digit((c as u32 % 16) as int)]
    } else {
        seq![c]
    }
}

/// A lowercase hexadecimal digit.
pub open spec fn lower_hex_digit(d: int) -> char {
    if d < 10 {
        (48 + d) as char
    } else {
        (87 + d) as char
    }
}

/// The escaped characters of a text.
pub open spec fn json_chars(s: Seq<char>) -> Seq<char>
    decreases s.len(),
{
    if s.len() == 0 {
        seq![]
    } else {
        json_chars(s.drop_last()) + json_char(s.last())
    }
}

/// A text as a JSON string literal.
pub open spec fn json_quoted(s: Seq<char>) -> Seq<char> {
    seq!['"'] + json_chars(s) + seq!['"']
}

/// `serde_json::to_string` of a string: the JSON string literal of the
/// text. Writing into memory cannot fail, so the result is always there.
#[verifier::external_body]
fn json_string(s: &str) -> (r: Option<String>)
    ensures
        r is Some,
        r->0@ == json_quoted(s@),
{
    serde_json::to_string(s).ok()
}

/// Wraps a content script so that its `vigo.runtime` calls carry the
/// extension's ID, given as a JSON string literal.
pub fn wrap_extension_script(extension_id: &str, source: &str) -> (r: String)
    ensures
        r@ == wrap_head() + json_quoted(extension_id@) + wrap_middle() + source@ + wrap_tail(),
{
    let id_json = match json_string(extension_id) {
        Some(j) => j,
        None => "\"unknown\"".to_owned(),
    };
    let mut r = "(function() {\n            const __vigoExtId = ".to_owned();
    r.append(id_json.as_str());
    r.append(";\n            const __vigoOrig = globalThis.vigo;\n            const vigo = (__vigoOrig && __vigoOrig.runtime)\n                ? {\n                    runtime: {\n                        __vigoExtensionId: __vigoExtId,\n                        sendMessage: function() {\n                            return __vigoOrig.runtime.sendMessage.apply({ __vigoExtensionId: __vigoExtId }, arguments);\n                        },\n                        onMessage: {\n                            addListener: function(callback) {\n                                return __vigoOrig.runtime.onMessage.addListener.call({ __vigoExtensionId: __vigoExtId }, callback);\n                            }\n                        }\n                    }\n                }\n                : __vigoOrig;\n            ");
    r.append(source);
    r.append("\n        })();");
    r
}

} // verus!
