//! Web Fetch API types: `Request`, `Response`, `Headers` and `Body`,
//! following the WHATWG Fetch specification.
use vstd::prelude::*;
use vstd::utf8::{decode_utf8, encode_utf8, valid_utf8};

use crate::assoc::{keys_unique, lemma_lookup_at, lemma_lookup_none, lemma_push_new, lemma_remove_at, lemma_update_value, lookup, present};
use crate::text::{
    ascii_lower, ascii_upper, chars_eq, chars_of, chars_starts_with, chars_to_lower, chars_to_upper,
    copy_bytes, has_prefix, lemma_map_push, lemma_map_take, lemma_take_succ, str_eq, str_to_ascii_lower,
    str_to_bytes, string_from_chars, utf8_decode,
};

verus! {

/// HTTP methods as used by the Fetch API.
#[derive(Debug, Clone, PartialEq, Eq, Hash, Default)]
pub enum RequestMethod {
    #[default]
    Get,
    Head,
    Post,
    Put,
    Delete,
    Connect,
    Options,
    Trace,
    Patch,
    Custom(String),
}

/// The name of a method.
pub open spec fn method_name(m: RequestMethod) -> Seq<char> {
    match m {
        RequestMethod::Get => "GET"@,
        RequestMethod::Head => "HEAD"@,
        RequestMethod::Post => "POST"@,
        RequestMethod::Put => "PUT"@,
        RequestMethod::Delete => "DELETE"@,
        RequestMethod::Connect => "CONNECT"@,
        RequestMethod::Options => "OPTIONS"@,
        RequestMethod::Trace => "TRACE"@,
        RequestMethod::Patch => "PATCH"@,
        RequestMethod::Custom(s) => s@,
    }
}

/// The method named by an (already uppercased) name: a known method, or a
/// custom one holding the name.
pub open spec fn method_is_named(m: RequestMethod, u: Seq<char>) -> bool {
    if u == "GET"@ {
        m == RequestMethod::Get
    } else if u == "HEAD"@ {
        m == RequestMethod::Head
    } else if u == "POST"@ {
        m == RequestMethod::Post
    } else if u == "PUT"@ {
        m == RequestMethod::Put
    } else if u == "DELETE"@ {
        m == RequestMethod::Delete
    } else if u == "CONNECT"@ {
        m == RequestMethod::Connect
    } else if u == "OPTIONS"@ {
        m == RequestMethod::Options
    } else if u == "TRACE"@ {
        m == RequestMethod::Trace
    } else if u == "PATCH"@ {
        m == RequestMethod::Patch
    } else {
        m matches RequestMethod::Custom(s) && s@ == u
    }
}

impl RequestMethod {
    /// The method name.
    pub fn as_str(&self) -> (r: &str)
        ensures
            r@ == method_name(*self),
    {
        match self {
            RequestMethod::Get => "GET",
            RequestMethod::Head => "HEAD",
            RequestMethod::Post => "POST",
            RequestMethod::Put => "PUT",
            RequestMethod::Delete => "DELETE",
            RequestMethod::Connect => "CONNECT",
            RequestMethod::Options => "OPTIONS",
            RequestMethod::Trace => "TRACE",
            RequestMethod::Patch => "PATCH",
            RequestMethod::Custom(s) => s.as_str(),
        }
    }

    /// The method with a name, compared without regard to ASCII case; an
    /// unknown name gives a custom method holding the uppercased name.
    pub fn from_name(s: &str) -> (r: Self)
        ensures
            method_is_named(r, ascii_upper(s@)),
    {
        let c = chars_of(s);
        let u = chars_to_upper(c.as_slice());
        let us = string_from_chars(u.as_slice());
        let n = us.as_str();
        if str_eq(n, "GET") {
            RequestMethod::Get
        } else if str_eq(n, "HEAD") {
            RequestMethod::Head
        } else if str_eq(n, "POST") {
            RequestMethod::Post
        } else if str_eq(n, "PUT") {
            RequestMethod::Put
        } else if str_eq(n, "DELETE") {
            RequestMethod::Delete
        } else if str_eq(n, "CONNECT") {
            RequestMethod::Connect
        } else if str_eq(n, "OPTIONS") {
            RequestMethod::Options
        } else if str_eq(n, "TRACE") {
            RequestMethod::Trace
        } else if str_eq(n, "PATCH") {
            RequestMethod::Patch
        } else {
            RequestMethod::Custom(us)
        }
    }

    /// Safe methods do not alter server state.
    pub fn is_safe(&self) -> (r: bool)
        ensures
            r == (*self is Get || *self is Head || *self is Options || *self is Trace),
    {
        match self {
            RequestMethod::Get | RequestMethod::Head | RequestMethod::Options | RequestMethod::Trace => true,
            _ => false,
        }
    }
}

/// The mode of a fetch request.
#[derive(Debug, Clone, Copy, PartialEq, Eq, Default, Structural)]
pub enum RequestMode {
    #[default]
    Cors,
    NoCors,
    SameOrigin,
    Navigate,
}

/// The name of a request mode.
pub open spec fn mode_name(m: RequestMode) -> Seq<char> {
    match m {
        RequestMode::Cors => "cors"@,
        RequestMode::NoCors => "no-cors"@,
        RequestMode::SameOrigin => "same-origin"@,
        RequestMode::Navigate => "navigate"@,
    }
}

impl RequestMode {
    /// The mode name.
    pub fn as_str(&self) -> (r: &str)
        ensures
            r@ == mode_name(*self),
    {
        match self {
            RequestMode::Cors => "cors",
            RequestMode::NoCors => "no-cors",
            RequestMode::SameOrigin => "same-origin",
            RequestMode::Navigate => "navigate",
        }
    }

    /// The mode with a name.
    pub fn from_name(s: &str) -> (r: Option<Self>)
        ensures
            r matches Some(m) ==> mode_name(m) == s@,
            r is None ==> forall|m: RequestMode| mode_name(m) != s@,
    {
        if str_eq(s, "cors") {
            Some(RequestMode::Cors)
        } else if str_eq(s, "no-cors") {
            Some(RequestMode::NoCors)
        } else if str_eq(s, "same-origin") {
            Some(RequestMode::SameOrigin)
        } else if str_eq(s, "navigate") {
            Some(RequestMode::Navigate)
        } else {
            assert forall|m: RequestMode| mode_name(m) != s@ by {
                match m {
                    RequestMode::Cors => {},
                    RequestMode::NoCors => {},
                    RequestMode::SameOrigin => {},
                    RequestMode::Navigate => {},
                }
            }
            None
        }
    }
}

/// Credentials mode for a fetch.
#[derive(Debug, Clone, Copy, PartialEq, Eq, Default, Structural)]
pub enum RequestCredentials {
    Omit,
    #[default]
    SameOrigin,
    Include,
}

/// The name of a credentials mode.
pub open spec fn credentials_name(c: RequestCredentials) -> Seq<char> {
    match c {
        RequestCredentials::Omit => "omit"@,
        RequestCredentials::SameOrigin => "same-origin"@,
        RequestCredentials::Include => "include"@,
    }
}

impl RequestCredentials {
    /// The credentials mode name.
    pub fn as_str(&self) -> (r: &str)
        ensures
            r@ == credentials_name(*self),
    {
        match self {
            RequestCredentials::Omit => "omit",
            RequestCredentials::SameOrigin => "same-origin",
            RequestCredentials::Include => "include",
        }
    }

    /// The credentials mode with a name.
    pub fn from_name(s: &str) -> (r: Option<Self>)
        ensures
            r matches Some(c) ==> credentials_name(c) == s@,
            r is None ==> forall|c: RequestCredentials| credentials_name(c) != s@,
    {
        if str_eq(s, "omit") {
            Some(RequestCredentials::Omit)
        } else if str_eq(s, "same-origin") {
            Some(RequestCredentials::SameOrigin)
        } else if str_eq(s, "include") {
            Some(RequestCredentials::Include)
        } else {
            assert forall|c: RequestCredentials| credentials_name(c) != s@ by {
                match c {
                    RequestCredentials::Omit => {},
                    RequestCredentials::SameOrigin => {},
                    RequestCredentials::Include => {},
                }
            }
            None
        }
    }
}

/// Cache mode for a fetch request.
#[derive(Debug, Clone, Copy, PartialEq, Eq, Default, Structural)]
pub enum RequestCache {
    #[default]
    Default,
    NoStore,
    Reload,
    NoCache,
    ForceCache,
    OnlyIfCached,
}

impl RequestCache {
    /// The cache mode name.
    pub fn as_str(&self) -> (r: &str)
        ensures
            r@ == (match *self {
                RequestCache::Default => "default"@,
                RequestCache::NoStore => "no-store"@,
                RequestCache::Reload => "reload"@,
                RequestCache::NoCache => "no-cache"@,
                RequestCache::ForceCache => "force-cache"@,
                RequestCache::OnlyIfCached => "only-if-cached"@,
            }),
    {
        match self {
            RequestCache::Default => "default",
            RequestCache::NoStore => "no-store",
            RequestCache::Reload => "reload",
            RequestCache::NoCache => "no-cache",
            RequestCache::ForceCache => "force-cache",
            RequestCache::OnlyIfCached => "only-if-cached",
        }
    }
}

/// How to handle redirects.
#[derive(Debug, Clone, Copy, PartialEq, Eq, Default, Structural)]
pub enum RequestRedirect {
    #[default]
    Follow,
    Error,
    Manual,
}

impl RequestRedirect {
    /// The redirect mode name.
    pub fn as_str(&self) -> (r: &str)
        ensures
            r@ == (match *self {
                RequestRedirect::Follow => "follow"@,
                RequestRedirect::Error => "error"@,
                RequestRedirect::Manual => "manual"@,
            }),
    {
        match self {
            RequestRedirect::Follow => "follow",
            RequestRedirect::Error => "error",
            RequestRedirect::Manual => "manual",
        }
    }
}

/// Referrer policy per the W3C specification.
#[derive(Debug, Clone, Copy, PartialEq, Eq, Default, Structural)]
pub enum ReferrerPolicy {
    NoReferrer,
    NoReferrerWhenDowngrade,
    Origin,
    OriginWhenCrossOrigin,
    SameOrigin,
    StrictOrigin,
    #[default]
    StrictOriginWhenCrossOrigin,
    UnsafeUrl,
}

/// The name of a referrer policy.
pub open spec fn policy_name(p: ReferrerPolicy) -> Seq<char> {
    match p {
        ReferrerPolicy::NoReferrer => "no-referrer"@,
        ReferrerPolicy::NoReferrerWhenDowngrade => "no-referrer-when-downgrade"@,
        ReferrerPolicy::Origin => "origin"@,
        ReferrerPolicy::OriginWhenCrossOrigin => "origin-when-cross-origin"@,
        ReferrerPolicy::SameOrigin => "same-origin"@,
        ReferrerPolicy::StrictOrigin => "strict-origin"@,
        ReferrerPolicy::StrictOriginWhenCrossOrigin => "strict-origin-when-cross-origin"@,
        ReferrerPolicy::UnsafeUrl => "unsafe-url"@,
    }
}

impl ReferrerPolicy {
    /// The policy name.
    pub fn as_str(&self) -> (r: &str)
        ensures
            r@ == policy_name(*self),
    {
        match self {
            ReferrerPolicy::NoReferrer => "no-referrer",
            ReferrerPolicy::NoReferrerWhenDowngrade => "no-referrer-when-downgrade",
            ReferrerPolicy::Origin => "origin",
            ReferrerPolicy::OriginWhenCrossOrigin => "origin-when-cross-origin",
            ReferrerPolicy::SameOrigin => "same-origin",
            ReferrerPolicy::StrictOrigin => "strict-origin",
            ReferrerPolicy::StrictOriginWhenCrossOrigin => "strict-origin-when-cross-origin",
            ReferrerPolicy::UnsafeUrl => "unsafe-url",
        }
    }

    /// The policy with a name; the empty name means the default policy.
    pub fn from_name(s: &str) -> (r: Option<Self>)
        ensures
            s@.len() == 0 ==> r == Some(ReferrerPolicy::StrictOriginWhenCrossOrigin),
            s@.len() > 0 && r is Some ==> policy_name(r->0) == s@,
            r is None ==> s@.len() > 0 && forall|p: ReferrerPolicy| policy_name(p) != s@,
    {
        if s.is_empty() {
            Some(ReferrerPolicy::StrictOriginWhenCrossOrigin)
        } else if str_eq(s, "no-referrer") {
            Some(ReferrerPolicy::NoReferrer)
        } else if str_eq(s, "no-referrer-when-downgrade") {
            Some(ReferrerPolicy::NoReferrerWhenDowngrade)
        } else if str_eq(s, "origin") {
            Some(ReferrerPolicy::Origin)
        } else if str_eq(s, "origin-when-cross-origin") {
            Some(ReferrerPolicy::OriginWhenCrossOrigin)
        } else if str_eq(s, "same-origin") {
            Some(ReferrerPolicy::SameOrigin)
        } else if str_eq(s, "strict-origin") {
            Some(ReferrerPolicy::StrictOrigin)
        } else if str_eq(s, "strict-origin-when-cross-origin") {
            Some(ReferrerPolicy::StrictOriginWhenCrossOrigin)
        } else if str_eq(s, "unsafe-url") {
            Some(ReferrerPolicy::UnsafeUrl)
        } else {
            assert forall|p: ReferrerPolicy| policy_name(p) != s@ by {
                match p {
                    ReferrerPolicy::NoReferrer => {},
                    ReferrerPolicy::NoReferrerWhenDowngrade => {},
                    ReferrerPolicy::Origin => {},
                    ReferrerPolicy::OriginWhenCrossOrigin => {},
                    ReferrerPolicy::SameOrigin => {},
                    ReferrerPolicy::StrictOrigin => {},
                    ReferrerPolicy::StrictOriginWhenCrossOrigin => {},
                    ReferrerPolicy::UnsafeUrl => {},
                }
            }
            None
        }
    }
}

/// The names joined with a separator.
pub open spec fn join(parts: Seq<Seq<char>>, sep: Seq<char>) -> Seq<char>
    decreases parts.len(),
{
    if parts.len() == 0 {
        Seq::empty()
    } else if parts.len() == 1 {
        parts[0]
    } else {
        join(parts.drop_last(), sep) + sep + parts.last()
    }
}

/// Joins strings with a separator.
pub fn join_strings(parts: &[String], sep: &str) -> (r: String)
    ensures
        r@ == join(parts@.map_values(|s: String| s@), sep@),
{
    let ghost pv = parts@.map_values(|s: String| s@);
    let mut r = String::new();
    let mut i: usize = 0;
    while i < parts.len()
        invariant
            i <= parts@.len(),
            pv == parts@.map_values(|s: String| s@),
            r@ == join(pv.take(i as int), sep@),
        decreases parts.len() - i,
    {
        if i > 0 {
            r.append(sep);
        }
        r.append(parts[i].as_str());
        assert(pv.take(i + 1).drop_last() =~= pv.take(i as int));
        assert(pv.take(i + 1).last() == parts@[i as int]@);
        if i == 0 {
            assert(pv.take(1) =~= seq![pv[0]]);
        }
        i += 1;
    }
    assert(pv.take(parts@.len() as int) =~= pv);
    r
}

/// A Fetch API Headers object: header names (ASCII-lowercased, unique) with
/// their values, in order of first insertion.
#[derive(Debug, Default)]
pub struct FetchHeaders {
    map: Vec<(String, Vec<String>)>,
}

/// The abstract view of one stored header.
pub open spec fn header_entry_view(e: (String, Vec<String>)) -> (Seq<char>, Seq<Seq<char>>) {
    (e.0@, e.1@.map_values(|v: String| v@))
}

impl View for FetchHeaders {
    type V = Seq<(Seq<char>, Seq<Seq<char>>)>;

    closed spec fn view(&self) -> Seq<(Seq<char>, Seq<Seq<char>>)> {
        self.map@.map_values(|e: (String, Vec<String>)| header_entry_view(e))
    }
}

/// Header names that scripts may not set.
pub open spec fn forbidden_name(lower: Seq<char>) -> bool {
    lower == "accept-charset"@ || lower == "accept-encoding"@ || lower == "access-control-request-headers"@
        || lower == "access-control-request-method"@ || lower == "connection"@ || lower == "content-length"@
        || lower == "cookie"@ || lower == "cookie2"@ || lower == "date"@ || lower == "dnt"@ || lower == "expect"@
        || lower == "host"@ || lower == "keep-alive"@ || lower == "origin"@ || lower == "referer"@ || lower
        == "te"@ || lower == "trailer"@ || lower == "transfer-encoding"@ || lower == "upgrade"@ || lower
        == "via"@ || has_prefix(lower, "proxy-"@) || has_prefix(lower, "sec-"@)
}

/// The values of a header after appending one.
pub open spec fn appended(old: Option<Seq<Seq<char>>>, v: Seq<char>) -> Seq<Seq<char>> {
    match old {
        Some(vs) => vs.push(v),
        None => seq![v],
    }
}

impl FetchHeaders {
    /// Names are unique and every name has at least one value.
    pub closed spec fn wf(&self) -> bool {
        &&& keys_unique(self@)
        &&& forall|i: int| 0 <= i < self@.len() ==> (#[trigger] self@[i]).1.len() > 0
    }

    /// Empty headers.
    pub fn new() -> (h: Self)
        ensures
            h.wf(),
            h@.len() == 0,
    {
        FetchHeaders { map: Vec::new() }
    }

    proof fn lemma_view(&self)
        ensures
            self@.len() == self.map@.len(),
            forall|i: int| 0 <= i < self.map@.len() ==> #[trigger] self@[i] == header_entry_view(self.map@[i]),
    {
    }

    fn position(&self, key: &str) -> (r: Option<usize>)
        ensures
            r matches Some(i) ==> i < self@.len() && self@[i as int].0 == key@,
            r is None ==> !present(self@, key@),
    {
        proof { self.lemma_view(); }
        let mut i: usize = 0;
        while i < self.map.len()
            invariant
                i <= self.map@.len(),
                self@.len() == self.map@.len(),
                forall|j: int| 0 <= j < self.map@.len() ==> #[trigger] self@[j] == header_entry_view(self.map@[j]),
                forall|j: int| 0 <= j < i ==> self@[j].0 != key@,
            decreases self.map.len() - i,
        {
            if str_eq(self.map[i].0.as_str(), key) {
                return Some(i);
            }
            i += 1;
        }
        None
    }

    fn lower_key(name: &str) -> (k: String)
        ensures
            k@ == ascii_lower(name@),
    {
        string_from_chars(str_to_ascii_lower(name).as_slice())
    }

    /// Append a value to a header (several values per name are kept).
    pub fn append(&mut self, name: &str, value: &str)
        requires
            old(self).wf(),
        ensures
            final(self).wf(),
            lookup(final(self)@, ascii_lower(name@)) == Some(appended(lookup(old(self)@, ascii_lower(name@)), value@)),
            forall|k: Seq<char>| k != ascii_lower(name@) ==> lookup(final(self)@, k) == lookup(old(self)@, k),
            forall|k: Seq<char>| present(final(self)@, k) == (present(old(self)@, k) || k == ascii_lower(name@)),
            final(self)@.len() == old(self)@.len() + if present(old(self)@, ascii_lower(name@)) {
                0int
            } else {
                1int
            },
    {
        let key = Self::lower_key(name);
        proof { self.lemma_view(); }
        match self.position(key.as_str()) {
            Some(i) => {
                let ghost s = self@;
                proof { lemma_lookup_at(s, key@, i as int); }
                let ghost vs = self.map@[i as int].1@;
                let ghost prev = self.map@;
                let v = value.to_owned();
                self.map[i].1.push(v);
                proof {
                    self.lemma_view();
                    lemma_map_push(vs, v, |v: String| v@);
                    assert(forall|j: int| 0 <= j < prev.len() && j != i ==> self.map@[j] == prev[j]);
                    assert(self@ =~= s.update(i as int, (s[i as int].0, s[i as int].1.push(value@))));
                    lemma_update_value(s, i as int, s[i as int].1.push(value@));
                    assert(present(s, key@));
                }
            },
            None => {
                let ghost s = self@;
                proof { lemma_lookup_none(s, key@); }
                let v = value.to_owned();
                let entry = (key, vec![v]);
                assert(header_entry_view(entry).1 =~= seq![value@]);
                self.map.push(entry);
                proof {
                    self.lemma_view();
                    assert(self@ =~= s.push((ascii_lower(name@), seq![value@])));
                    lemma_push_new(s, ascii_lower(name@), seq![value@]);
                }
            },
        }
    }

    /// Set a header, replacing all existing values for that name.
    pub fn set(&mut self, name: &str, value: &str)
        requires
            old(self).wf(),
        ensures
            final(self).wf(),
            lookup(final(self)@, ascii_lower(name@)) == Some(seq![value@]),
            forall|k: Seq<char>| k != ascii_lower(name@) ==> lookup(final(self)@, k) == lookup(old(self)@, k),
            forall|k: Seq<char>| present(final(self)@, k) == (present(old(self)@, k) || k == ascii_lower(name@)),
    {
        let key = Self::lower_key(name);
        proof { self.lemma_view(); }
        let ghost s = self@;
        match self.position(key.as_str()) {
            Some(i) => {
                let v = vec![value.to_owned()];
                assert(v@.map_values(|v: String| v@) =~= seq![value@]);
                let ghost prev = self.map@;
                let k2 = self.map[i].0.clone();
                self.map.set(i, (k2, v));
                proof {
                    self.lemma_view();
                    assert(self@ =~= s.update(i as int, (s[i as int].0, seq![value@])));
                    lemma_update_value(s, i as int, seq![value@]);
                    assert(present(s, key@));
                }
            },
            None => {
                let v = vec![value.to_owned()];
                let entry = (key, v);
                assert(header_entry_view(entry).1 =~= seq![value@]);
                self.map.push(entry);
                proof {
                    self.lemma_view();
                    assert(self@ =~= s.push((ascii_lower(name@), seq![value@])));
                    lemma_push_new(s, ascii_lower(name@), seq![value@]);
                }
            },
        }
    }

    /// The first value of a header.
    pub fn get(&self, name: &str) -> (r: Option<&str>)
        requires
            self.wf(),
        ensures
            match lookup(self@, ascii_lower(name@)) {
                Some(vs) => r is Some && r->0@ == vs[0],
                None => r is None,
            },
    {
        let key = Self::lower_key(name);
        proof { self.lemma_view(); }
        match self.position(key.as_str()) {
            Some(i) => {
                proof { lemma_lookup_at(self@, key@, i as int); }
                assert(self@[i as int].1.len() > 0);
                Some(self.map[i].1[0].as_str())
            },
            None => {
                proof { lemma_lookup_none(self@, key@); }
                None
            },
        }
    }

    /// All values of a header, joined by ", ".
    pub fn get_all(&self, name: &str) -> (r: Option<String>)
        requires
            self.wf(),
        ensures
            match lookup(self@, ascii_lower(name@)) {
                Some(vs) => r is Some && r->0@ == join(vs, ", "@),
                None => r is None,
            },
    {
        let key = Self::lower_key(name);
        proof { self.lemma_view(); }
        match self.position(key.as_str()) {
            Some(i) => {
                proof { lemma_lookup_at(self@, key@, i as int); }
                Some(join_strings(self.map[i].1.as_slice(), ", "))
            },
            None => {
                proof { lemma_lookup_none(self@, key@); }
                None
            },
        }
    }

    /// Whether a header is present.
    pub fn has(&self, name: &str) -> (r: bool)
        ensures
            r == present(self@, ascii_lower(name@)),
    {
        let key = Self::lower_key(name);
        self.position(key.as_str()).is_some()
    }

    /// Delete a header.
    pub fn delete(&mut self, name: &str)
        requires
            old(self).wf(),
        ensures
            final(self).wf(),
            !present(final(self)@, ascii_lower(name@)),
            lookup(final(self)@, ascii_lower(name@)) is None,
            forall|k: Seq<char>| k != ascii_lower(name@) ==> lookup(final(self)@, k) == lookup(old(self)@, k),
            forall|k: Seq<char>| k != ascii_lower(name@) ==> present(final(self)@, k) == present(old(self)@, k),
    {
        let key = Self::lower_key(name);
        proof { self.lemma_view(); }
        let ghost s = self@;
        match self.position(key.as_str()) {
            Some(i) => {
                self.map.remove(i);
                proof {
                    self.lemma_view();
                    assert(self@ =~= s.remove(i as int));
                    lemma_remove_at(s, i as int);
                }
            },
            None => {
                proof { lemma_lookup_none(s, key@); }
            },
        }
    }

    /// All headers as (name, values joined by ", "), in order.
    pub fn entries(&self) -> (r: Vec<(&str, String)>)
        ensures
            r@.len() == self@.len(),
            forall|i: int| 0 <= i < r@.len() ==> (#[trigger] r@[i]).0@ == self@[i].0 && r@[i].1@ == join(
                self@[i].1,
                ", "@,
            ),
    {
        proof { self.lemma_view(); }
        let mut r: Vec<(&str, String)> = Vec::new();
        let mut i: usize = 0;
        while i < self.map.len()
            invariant
                i <= self.map@.len(),
                r@.len() == i,
                self@.len() == self.map@.len(),
                forall|j: int| 0 <= j < self.map@.len() ==> #[trigger] self@[j] == header_entry_view(self.map@[j]),
                forall|j: int| 0 <= j < i ==> (#[trigger] r@[j]).0@ == self@[j].0 && r@[j].1@ == join(self@[j].1, ", "@),
            decreases self.map.len() - i,
        {
            let e = &self.map[i];
            r.push((e.0.as_str(), join_strings(e.1.as_slice(), ", ")));
            i += 1;
        }
        r
    }

    /// Number of distinct header names.
    pub fn len(&self) -> (r: usize)
        ensures
            r == self@.len(),
    {
        self.map.len()
    }

    /// Whether there are no headers.
    pub fn is_empty(&self) -> (r: bool)
        ensures
            r == (self@.len() == 0),
    {
        self.map.len() == 0
    }

    /// Whether a header name is forbidden for setting from scripts.
    pub fn is_forbidden_header(name: &str) -> (r: bool)
        ensures
            r == forbidden_name(ascii_lower(name@)),
    {
        let k = Self::lower_key(name);
        let l = k.as_str();
        let c = chars_of(l);
        let proxy = chars_of("proxy-");
        let sec = chars_of("sec-");
        str_eq(l, "accept-charset") || str_eq(l, "accept-encoding") || str_eq(l, "access-control-request-headers")
            || str_eq(l, "access-control-request-method") || str_eq(l, "connection") || str_eq(l, "content-length")
            || str_eq(l, "cookie") || str_eq(l, "cookie2") || str_eq(l, "date") || str_eq(l, "dnt") || str_eq(l, "expect")
            || str_eq(l, "host") || str_eq(l, "keep-alive") || str_eq(l, "origin") || str_eq(l, "referer") || str_eq(
            l,
            "te",
        ) || str_eq(l, "trailer") || str_eq(l, "transfer-encoding") || str_eq(l, "upgrade") || str_eq(l, "via")
            || chars_starts_with(c.as_slice(), proxy.as_slice()) || chars_starts_with(c.as_slice(), sec.as_slice())
    }

    /// A copy of these headers.
    pub fn copy(&self) -> (r: Self)
        ensures
            r@ == self@,
            self.wf() ==> r.wf(),
    {
        let mut map: Vec<(String, Vec<String>)> = Vec::new();
        let mut i: usize = 0;
        while i < self.map.len()
            invariant
                i <= self.map@.len(),
                map@.map_values(|e: (String, Vec<String>)| header_entry_view(e)) == self@.take(i as int),
            decreases self.map.len() - i,
        {
            let k = self.map[i].0.clone();
            let mut vs: Vec<String> = Vec::new();
            let mut j: usize = 0;
            while j < self.map[i].1.len()
                invariant
                    i < self.map@.len(),
                    j <= self.map@[i as int].1@.len(),
                    vs@.map_values(|v: String| v@) == self.map@[i as int].1@.map_values(|v: String| v@).take(j as int),
                decreases self.map@[i as int].1@.len() - j,
            {
                let v = self.map[i].1[j].clone();
                let ghost before = vs@;
                vs.push(v);
                proof {
                    lemma_map_push(before, v, |v: String| v@);
                    lemma_map_take(self.map@[i as int].1@, j as int, |v: String| v@);
                    lemma_map_take(self.map@[i as int].1@, j + 1, |v: String| v@);
                    lemma_take_succ(self.map@[i as int].1@, j as int);
                    lemma_map_push(self.map@[i as int].1@.take(j as int), self.map@[i as int].1@[j as int], |v: String| v@);
                }
                j += 1;
            }
            assert(self.map@[i as int].1@.map_values(|v: String| v@).take(self.map@[i as int].1@.len() as int)
                =~= self.map@[i as int].1@.map_values(|v: String| v@));
            let ghost before = map@;
            let e = (k, vs);
            map.push(e);
            proof {
                lemma_map_push(before, e, |e: (String, Vec<String>)| header_entry_view(e));
                lemma_take_succ(self@, i as int);
            }
            i += 1;
        }
        assert(self@.take(self.map@.len() as int) =~= self@);
        FetchHeaders { map }
    }
}


/// The body of a request or response.
#[derive(Debug, Default)]
pub enum BodyContent {
    /// No body.
    #[default]
    Empty,
    /// UTF-8 text body.
    Text(String),
    /// Binary body.
    Bytes(Vec<u8>),
    /// URL-encoded form data (name, value) pairs.
    FormData(Vec<(String, String)>),
}

/// The form pairs written as `name=value`.
pub open spec fn pair_texts(pairs: Seq<(String, String)>) -> Seq<Seq<char>> {
    pairs.map_values(|p: (String, String)| p.0@ + "="@ + p.1@)
}

/// The `name=value` pairs joined with '&'.
pub open spec fn form_text(pairs: Seq<(String, String)>) -> Seq<char> {
    join(pair_texts(pairs), "&"@)
}

/// The approximate encoded length of form pairs: name and value bytes plus
/// two per pair.
pub open spec fn form_length(pairs: Seq<(String, String)>) -> int
    decreases pairs.len(),
{
    if pairs.len() == 0 {
        0
    } else {
        form_length(pairs.drop_last()) + encode_utf8(pairs.last().0@).len() + encode_utf8(pairs.last().1@).len() + 2
    }
}

/// The byte length of a body.
pub open spec fn body_length(b: BodyContent) -> int {
    match b {
        BodyContent::Empty => 0,
        BodyContent::Text(s) => encode_utf8(s@).len() as int,
        BodyContent::Bytes(v) => v@.len() as int,
        BodyContent::FormData(p) => form_length(p@),
    }
}

/// The bytes of a body.
pub open spec fn body_bytes(b: BodyContent) -> Seq<u8> {
    match b {
        BodyContent::Empty => Seq::empty(),
        BodyContent::Text(s) => encode_utf8(s@),
        BodyContent::Bytes(v) => v@,
        BodyContent::FormData(p) => encode_utf8(form_text(p@)),
    }
}

fn form_string(pairs: &Vec<(String, String)>) -> (r: String)
    ensures
        r@ == form_text(pairs@),
{
    let mut texts: Vec<String> = Vec::new();
    let mut i: usize = 0;
    while i < pairs.len()
        invariant
            i <= pairs@.len(),
            texts@.map_values(|s: String| s@) == pair_texts(pairs@).take(i as int),
        decreases pairs.len() - i,
    {
        let mut t = pairs[i].0.clone();
        t.append("=");
        t.append(pairs[i].1.as_str());
        let ghost before = texts@;
        texts.push(t);
        proof {
            lemma_map_push(before, t, |s: String| s@);
            lemma_map_take(pairs@, i as int, |p: (String, String)| p.0@ + "="@ + p.1@);
            lemma_map_take(pairs@, i + 1, |p: (String, String)| p.0@ + "="@ + p.1@);
            lemma_take_succ(pairs@, i as int);
            lemma_map_push(pairs@.take(i as int), pairs@[i as int], |p: (String, String)| p.0@ + "="@ + p.1@);
        }
        i += 1;
    }
    assert(pair_texts(pairs@).take(pairs@.len() as int) =~= pair_texts(pairs@));
    join_strings(texts.as_slice(), "&")
}

impl BodyContent {
    /// Whether there is no body.
    pub fn is_none(&self) -> (r: bool)
        ensures
            r == (*self is Empty),
    {
        match self {
            BodyContent::Empty => true,
            _ => false,
        }
    }

    /// The byte length of the body (for form data: name and value bytes plus
    /// two per pair).
    pub fn byte_length(&self) -> (r: usize)
        requires
            body_length(*self) <= usize::MAX,
        ensures
            r == body_length(*self),
    {
        match self {
            BodyContent::Empty => 0,
            BodyContent::Text(s) => s.as_str().len(),
            BodyContent::Bytes(b) => b.len(),
            BodyContent::FormData(pairs) => {
                let mut total: usize = 0;
                let mut i: usize = 0;
                proof { lemma_form_length_mono(pairs@); }
                while i < pairs.len()
                    invariant
                        i <= pairs@.len(),
                        total == form_length(pairs@.take(i as int)),
                        form_length(pairs@) <= usize::MAX,
                        forall|j: int| 0 <= j <= pairs@.len() ==> form_length(#[trigger] pairs@.take(j)) <= form_length(pairs@),
                    decreases pairs.len() - i,
                {
                    assert(pairs@.take(i + 1).drop_last() =~= pairs@.take(i as int));
                    assert(pairs@.take(i + 1).last() == pairs@[i as int]);
                    assert(form_length(pairs@.take(i + 1)) <= form_length(pairs@));
                    total = total + pairs[i].0.as_str().len() + pairs[i].1.as_str().len() + 2;
                    i += 1;
                }
                assert(pairs@.take(pairs@.len() as int) =~= pairs@);
                total
            },
        }
    }

    /// The bytes of the body (form data as `name=value` pairs joined by '&').
    pub fn to_bytes(&self) -> (r: Vec<u8>)
        ensures
            r@ == body_bytes(*self),
    {
        match self {
            BodyContent::Empty => Vec::new(),
            BodyContent::Text(s) => str_to_bytes(s.as_str()),
            BodyContent::Bytes(b) => copy_bytes(b.as_slice()),
            BodyContent::FormData(pairs) => {
                let t = form_string(pairs);
                str_to_bytes(t.as_str())
            },
        }
    }

    /// The body as text: text as is, bytes when valid UTF-8, form data as
    /// `name=value` pairs joined by '&'.
    pub fn as_text(&self) -> (r: Option<String>)
        ensures
            match *self {
                BodyContent::Empty => r is None,
                BodyContent::Text(s) => r is Some && r->0@ == s@,
                BodyContent::Bytes(b) => if valid_utf8(b@) {
                    r is Some && r->0@ == decode_utf8(b@)
                } else {
                    r is None
                },
                BodyContent::FormData(p) => r is Some && r->0@ == form_text(p@),
            },
    {
        match self {
            BodyContent::Empty => None,
            BodyContent::Text(s) => Some(s.clone()),
            BodyContent::Bytes(b) => utf8_decode(copy_bytes(b.as_slice())),
            BodyContent::FormData(pairs) => Some(form_string(pairs)),
        }
    }

    /// A copy of this body.
    pub fn copy(&self) -> (r: Self)
        ensures
            body_bytes(r) == body_bytes(*self),
            body_length(r) == body_length(*self),
            r is Empty <==> *self is Empty,
    {
        match self {
            BodyContent::Empty => BodyContent::Empty,
            BodyContent::Text(s) => BodyContent::Text(s.clone()),
            BodyContent::Bytes(b) => BodyContent::Bytes(copy_bytes(b.as_slice())),
            BodyContent::FormData(pairs) => {
                let mut v: Vec<(String, String)> = Vec::new();
                let mut i: usize = 0;
                while i < pairs.len()
                    invariant
                        i <= pairs@.len(),
                        v@ == pairs@.take(i as int),
                    decreases pairs.len() - i,
                {
                    v.push((pairs[i].0.clone(), pairs[i].1.clone()));
                    assert(v@ =~= pairs@.take(i + 1));
                    i += 1;
                }
                assert(pairs@.take(pairs@.len() as int) =~= pairs@);
                BodyContent::FormData(v)
            },
        }
    }
}

proof fn lemma_form_length_mono(pairs: Seq<(String, String)>)
    ensures
        forall|j: int| 0 <= j <= pairs.len() ==> form_length(#[trigger] pairs.take(j)) <= form_length(pairs),
    decreases pairs.len(),
{
    if pairs.len() > 0 {
        let d = pairs.drop_last();
        lemma_form_length_mono(d);
        assert forall|j: int| 0 <= j <= pairs.len() implies form_length(#[trigger] pairs.take(j)) <= form_length(pairs) by {
            if j == pairs.len() {
                assert(pairs.take(j) =~= pairs);
            } else {
                assert(pairs.take(j) =~= d.take(j));
            }
        }
    }
}

/// A Fetch API Request object.
#[derive(Debug)]
pub struct FetchRequest {
    /// The URL of the request.
    pub url: String,
    /// HTTP method.
    pub method: RequestMethod,
    /// Headers.
    pub headers: FetchHeaders,
    /// Body content.
    pub body: BodyContent,
    /// Request mode.
    pub mode: RequestMode,
    /// Credentials mode.
    pub credentials: RequestCredentials,
    /// Cache mode.
    pub cache: RequestCache,
    /// Redirect mode.
    pub redirect: RequestRedirect,
    /// Referrer policy.
    pub referrer_policy: ReferrerPolicy,
    /// Integrity hash (SRI).
    pub integrity: String,
    /// Signal abort controller ID (optional).
    pub signal_id: Option<u64>,
    /// Whether keepalive is enabled.
    pub keepalive: bool,
}

/// A request has the default options: cors mode, same-origin credentials,
/// default cache, follow redirects, the default referrer policy, no
/// integrity, no signal, no keepalive.
pub open spec fn default_request_options(r: FetchRequest) -> bool {
    &&& r.mode == RequestMode::Cors
    &&& r.credentials == RequestCredentials::SameOrigin
    &&& r.cache == RequestCache::Default
    &&& r.redirect == RequestRedirect::Follow
    &&& r.referrer_policy == ReferrerPolicy::StrictOriginWhenCrossOrigin
    &&& r.integrity@.len() == 0
    &&& r.signal_id is None
    &&& !r.keepalive
}

impl FetchRequest {
    fn with(url: &str, method: RequestMethod, headers: FetchHeaders, body: BodyContent) -> (r: Self)
        ensures
            r.url@ == url@,
            r.method == method,
            r.headers == headers,
            r.body == body,
            default_request_options(r),
    {
        FetchRequest {
            url: url.to_owned(),
            method,
            headers,
            body,
            mode: RequestMode::Cors,
            credentials: RequestCredentials::SameOrigin,
            cache: RequestCache::Default,
            redirect: RequestRedirect::Follow,
            referrer_policy: ReferrerPolicy::StrictOriginWhenCrossOrigin,
            integrity: String::new(),
            signal_id: None,
            keepalive: false,
        }
    }

    /// A simple GET request.
    pub fn get(url: &str) -> (r: Self)
        ensures
            r.url@ == url@,
            r.method == RequestMethod::Get,
            r.headers.wf() && r.headers@.len() == 0,
            r.body is Empty,
            default_request_options(r),
    {
        FetchRequest::with(url, RequestMethod::Get, FetchHeaders::new(), BodyContent::Empty)
    }

    /// A POST request with a text body.
    pub fn post(url: &str, body: &str) -> (r: Self)
        ensures
            r.url@ == url@,
            r.method == RequestMethod::Post,
            r.headers.wf(),
            r.headers@ == seq![("content-type"@, seq!["text/plain;charset=UTF-8"@])],
            r.body matches BodyContent::Text(t) && t@ == body@,
            default_request_options(r),
    {
        let mut headers = FetchHeaders::new();
        headers.set("content-type", "text/plain;charset=UTF-8");
        proof {
            reveal_strlit("content-type");
            assert(ascii_lower("content-type"@) =~= "content-type"@);
            lemma_single_header(headers@, "content-type"@, "text/plain;charset=UTF-8"@);
        }
        FetchRequest::with(url, RequestMethod::Post, headers, BodyContent::Text(body.to_owned()))
    }

    /// A POST request with a JSON body.
    pub fn post_json(url: &str, json: &str) -> (r: Self)
        ensures
            r.url@ == url@,
            r.method == RequestMethod::Post,
            r.headers.wf(),
            r.headers@ == seq![("content-type"@, seq!["application/json"@])],
            r.body matches BodyContent::Text(t) && t@ == json@,
            default_request_options(r),
    {
        let mut headers = FetchHeaders::new();
        headers.set("content-type", "application/json");
        proof {
            reveal_strlit("content-type");
            assert(ascii_lower("content-type"@) =~= "content-type"@);
            lemma_single_header(headers@, "content-type"@, "application/json"@);
        }
        FetchRequest::with(url, RequestMethod::Post, headers, BodyContent::Text(json.to_owned()))
    }

    /// Whether this request has a body.
    pub fn has_body(&self) -> (r: bool)
        ensures
            r == !(self.body is Empty),
    {
        !self.body.is_none()
    }

    /// Whether the method allows a body (all but GET and HEAD).
    pub fn method_allows_body(&self) -> (r: bool)
        ensures
            r == !(self.method is Get || self.method is Head),
    {
        match self.method {
            RequestMethod::Get | RequestMethod::Head => false,
            _ => true,
        }
    }
}

proof fn lemma_single_header(s: Seq<(Seq<char>, Seq<Seq<char>>)>, name: Seq<char>, v: Seq<char>)
    requires
        keys_unique(s),
        lookup(s, ascii_lower(name)) == Some(seq![v]),
        forall|k: Seq<char>| present(s, k) == (k == ascii_lower(name)),
        ascii_lower(name) == name,
    ensures
        s == seq![(name, seq![v])],
{
    assert(present(s, name));
    let i = choose|i: int| 0 <= i < s.len() && (#[trigger] s[i]).0 == name;
    lemma_lookup_at(s, name, i);
    if s.len() > 1 {
        let j = if i == 0 { 1int } else { 0int };
        assert(present(s, s[j].0));
        assert(s[j].0 != s[i].0);
    }
    assert(s =~= seq![(name, seq![v])]);
}

/// The type of a Fetch API response.
#[derive(Debug, Clone, Copy, PartialEq, Eq, Default, Structural)]
pub enum ResponseType {
    #[default]
    Basic,
    Cors,
    Default,
    Error,
    Opaque,
    OpaqueRedirect,
}

impl ResponseType {
    /// The response type name.
    pub fn as_str(&self) -> (r: &str)
        ensures
            r@ == (match *self {
                ResponseType::Basic => "basic"@,
                ResponseType::Cors => "cors"@,
                ResponseType::Default => "default"@,
                ResponseType::Error => "error"@,
                ResponseType::Opaque => "opaque"@,
                ResponseType::OpaqueRedirect => "opaqueredirect"@,
            }),
    {
        match self {
            ResponseType::Basic => "basic",
            ResponseType::Cors => "cors",
            ResponseType::Default => "default",
            ResponseType::Error => "error",
            ResponseType::Opaque => "opaque",
            ResponseType::OpaqueRedirect => "opaqueredirect",
        }
    }
}

/// A Fetch API Response object.
#[derive(Debug)]
pub struct FetchResponse {
    /// The response type.
    pub response_type: ResponseType,
    /// The final URL (after redirects).
    pub url: String,
    /// Whether redirected.
    pub redirected: bool,
    /// HTTP status code.
    pub status: u16,
    /// HTTP status text.
    pub status_text: String,
    /// Response headers.
    pub headers: FetchHeaders,
    /// Response body.
    pub body: BodyContent,
    /// Whether the body has been consumed.
    pub body_used: bool,
}

impl FetchResponse {
    /// A successful (200 OK) response with a body.
    pub fn ok(body: BodyContent) -> (r: Self)
        ensures
            r.response_type == ResponseType::Basic,
            r.url@.len() == 0,
            !r.redirected,
            r.status == 200,
            r.status_text@ == "OK"@,
            r.headers.wf() && r.headers@.len() == 0,
            r.body == body,
            !r.body_used,
    {
        FetchResponse {
            response_type: ResponseType::Basic,
            url: String::new(),
            redirected: false,
            status: 200,
            status_text: "OK".to_owned(),
            headers: FetchHeaders::new(),
            body,
            body_used: false,
        }
    }

    /// A network error response.
    pub fn error() -> (r: Self)
        ensures
            r.response_type == ResponseType::Error,
            r.url@.len() == 0,
            !r.redirected,
            r.status == 0,
            r.status_text@.len() == 0,
            r.headers.wf() && r.headers@.len() == 0,
            r.body is Empty,
            !r.body_used,
    {
        FetchResponse {
            response_type: ResponseType::Error,
            url: String::new(),
            redirected: false,
            status: 0,
            status_text: String::new(),
            headers: FetchHeaders::new(),
            body: BodyContent::Empty,
            body_used: false,
        }
    }

    /// A redirect response; `None` unless the status is 301, 302, 303, 307
    /// or 308.
    pub fn redirect(url: &str, status: u16) -> (r: Option<Self>)
        ensures
            r is Some <==> (status == 301 || status == 302 || status == 303 || status == 307 || status == 308),
            r matches Some(resp) ==> {
                &&& resp.response_type == ResponseType::Basic
                &&& resp.url@ == url@
                &&& resp.redirected
                &&& resp.status == status
                &&& resp.status_text@.len() == 0
                &&& resp.headers.wf()
                &&& resp.headers@ == seq![("location"@, seq![url@])]
                &&& resp.body is Empty
                &&& !resp.body_used
            },
    {
        if !(status == 301 || status == 302 || status == 303 || status == 307 || status == 308) {
            return None;
        }
        let mut headers = FetchHeaders::new();
        headers.set("location", url);
        proof {
            reveal_strlit("location");
            assert(ascii_lower("location"@) =~= "location"@);
            lemma_single_header(headers@, "location"@, url@);
        }
        Some(FetchResponse {
            response_type: ResponseType::Basic,
            url: url.to_owned(),
            redirected: true,
            status,
            status_text: String::new(),
            headers,
            body: BodyContent::Empty,
            body_used: false,
        })
    }

    /// Whether the status is in 200..=299.
    pub fn ok_status(&self) -> (r: bool)
        ensures
            r == (200 <= self.status < 300),
    {
        200 <= self.status && self.status < 300
    }

    /// Consume the body as text; `None` once the body has been used.
    pub fn text(&mut self) -> (r: Option<String>)
        ensures
            final(self).body_used,
            final(self).body == old(self).body,
            old(self).body_used ==> r is None,
            !old(self).body_used ==> match old(self).body {
                BodyContent::Empty => r is None,
                BodyContent::Text(s) => r is Some && r->0@ == s@,
                BodyContent::Bytes(b) => if valid_utf8(b@) {
                    r is Some && r->0@ == decode_utf8(b@)
                } else {
                    r is None
                },
                BodyContent::FormData(p) => r is Some && r->0@ == form_text(p@),
            },
    {
        if self.body_used {
            return None;
        }
        self.body_used = true;
        self.body.as_text()
    }

    /// Consume the body as bytes; `None` once the body has been used.
    pub fn bytes(&mut self) -> (r: Option<Vec<u8>>)
        ensures
            final(self).body_used,
            final(self).body == old(self).body,
            old(self).body_used ==> r is None,
            !old(self).body_used ==> r is Some && r->0@ == body_bytes(old(self).body),
    {
        if self.body_used {
            return None;
        }
        self.body_used = true;
        Some(self.body.to_bytes())
    }

    /// A copy of the response (copying does not consume the body).
    pub fn clone_response(&self) -> (r: Self)
        ensures
            r.response_type == self.response_type,
            r.url == self.url,
            r.redirected == self.redirected,
            r.status == self.status,
            r.status_text == self.status_text,
            r.headers@ == self.headers@,
            self.headers.wf() ==> r.headers.wf(),
            body_bytes(r.body) == body_bytes(self.body),
            r.body_used == self.body_used,
    {
        FetchResponse {
            response_type: self.response_type,
            url: self.url.clone(),
            redirected: self.redirected,
            status: self.status,
            status_text: self.status_text.clone(),
            headers: self.headers.copy(),
            body: self.body.copy(),
            body_used: self.body_used,
        }
    }
}


/// Different request modes have different names, so reading the name of
/// a mode back gives the mode.
pub proof fn law_mode_names_distinct(a: RequestMode, b: RequestMode)
    ensures
        mode_name(a) == mode_name(b) ==> a == b,
{
    reveal_strlit("cors");
    reveal_strlit("no-cors");
    reveal_strlit("same-origin");
    reveal_strlit("navigate");
    if mode_name(a) == mode_name(b) {
        assert(mode_name(a).len() == mode_name(b).len());
        assert(mode_name(a)[0] == mode_name(b)[0]);
    }
}

/// Different credentials modes have different names.
pub proof fn law_credentials_names_distinct(a: RequestCredentials, b: RequestCredentials)
    ensures
        credentials_name(a) == credentials_name(b) ==> a == b,
{
    reveal_strlit("omit");
    reveal_strlit("same-origin");
    reveal_strlit("include");
    if credentials_name(a) == credentials_name(b) {
        assert(credentials_name(a).len() == credentials_name(b).len());
        assert(credentials_name(a)[0] == credentials_name(b)[0]);
    }
}

/// Different referrer policies have different names.
pub proof fn law_policy_names_distinct(a: ReferrerPolicy, b: ReferrerPolicy)
    ensures
        policy_name(a) == policy_name(b) ==> a == b,
{
    reveal_strlit("no-referrer");
    reveal_strlit("no-referrer-when-downgrade");
    reveal_strlit("origin");
    reveal_strlit("origin-when-cross-origin");
    reveal_strlit("same-origin");
    reveal_strlit("strict-origin");
    reveal_strlit("strict-origin-when-cross-origin");
    reveal_strlit("unsafe-url");
    if policy_name(a) == policy_name(b) {
        assert(policy_name(a).len() == policy_name(b).len());
        assert(policy_name(a)[0] == policy_name(b)[0]);
    }
}

} // verus!
