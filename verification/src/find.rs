//! Find in page: every occurrence of a query in the page's text nodes, and
//! moving between them. The page is given as its text nodes in document
//! order.
use vstd::prelude::*;
use vstd::utf8::encode_utf8;
use vstd::string::StringExecFns;
use crate::node::VexId;
use crate::text::{decimal, str_to_bytes, to_lowercase, u64_to_decimal, unicode_lower};

verus! {

/// An occurrence of the query.
#[derive(Debug, Clone, Copy, PartialEq, Eq, Structural)]
pub struct FindMatch {
    /// The text node that holds it.
    pub node_id: VexId,
    /// Where it starts, in bytes of the (case-folded) node text.
    pub offset: usize,
    /// Its length in bytes.
    pub length: usize,
}

/// The search state of a page.
#[derive(Debug)]
pub struct FindState {
    /// The query.
    pub query: String,
    /// The occurrences found, in document order.
    pub matches: Vec<FindMatch>,
    /// The highlighted occurrence, if any.
    pub current_index: Option<usize>,
    /// Whether case matters.
    pub case_sensitive: bool,
}

/// A text as searched: as it is, or lowercased when case does not matter.
pub open spec fn folded(case_sensitive: bool, s: Seq<char>) -> Seq<char> {
    if case_sensitive {
        s
    } else {
        unicode_lower(s)
    }
}

/// `q` occurs in `h` at byte `p`.
pub open spec fn byte_occurs(h: Seq<u8>, q: Seq<u8>, p: int) -> bool {
    0 <= p && p + q.len() <= h.len() && h.subrange(p, p + q.len()) == q
}

/// The positions from `start` on where `q` occurs in `h`, overlapping ones
/// included, in increasing order.
pub open spec fn occurrences_from(h: Seq<u8>, q: Seq<u8>, start: int) -> Seq<int>
    decreases h.len() - start,
{
    if start < 0 || start >= h.len() || start + q.len() > h.len() {
        seq![]
    } else if byte_occurs(h, q, start) {
        seq![start] + occurrences_from(h, q, start + 1)
    } else {
        occurrences_from(h, q, start + 1)
    }
}

/// The matches in one text node.
pub open spec fn node_matches(id: VexId, h: Seq<u8>, q: Seq<u8>) -> Seq<FindMatch> {
    occurrences_from(h, q, 0).map_values(
        |p: int| FindMatch { node_id: id, offset: p as usize, length: q.len() as usize },
    )
}

/// The bytes of a node's text as searched.
pub open spec fn node_bytes(case_sensitive: bool, text: String) -> Seq<u8> {
    encode_utf8(folded(case_sensitive, text@))
}

/// The matches in the text nodes, in document order.
pub open spec fn page_matches(nodes: Seq<(VexId, String)>, case_sensitive: bool, q: Seq<u8>) -> Seq<FindMatch>
    decreases nodes.len(),
{
    if nodes.len() == 0 {
        seq![]
    } else {
        page_matches(nodes.drop_last(), case_sensitive, q) + node_matches(
            nodes.last().0,
            node_bytes(case_sensitive, nodes.last().1),
            q,
        )
    }
}

/// Whether the search can run: a query that starts with a multi-byte
/// character cannot be stepped past by one byte, so it may not occur; and
/// a query that folds to nothing finds no end.
pub open spec fn search_allowed(nodes: Seq<(VexId, String)>, case_sensitive: bool, query: Seq<char>) -> bool {
    let q = encode_utf8(folded(case_sensitive, query));
    if q.len() == 0 {
        query.len() == 0 || nodes.len() == 0
    } else {
        q[0] < 0x80 || forall|i: int|
            0 <= i < nodes.len() ==> occurrences_from(node_bytes(case_sensitive, #[trigger] nodes[i].1), q, 0).len() == 0
    }
}

/// The status line: empty without a query, `No matches`, `i of n` with a
/// highlighted match, or `n matches`.
pub open spec fn status_text(query: Seq<char>, n: nat, current: Option<usize>) -> Seq<char> {
    if n == 0 {
        if query.len() == 0 {
            Seq::empty()
        } else {
            "No matches"@
        }
    } else {
        match current {
            Some(i) => decimal((i + 1) as nat) + " of "@ + decimal(n),
            None => decimal(n) + " matches"@,
        }
    }
}

fn fold_text(case_sensitive: bool, s: &str) -> (r: Vec<u8>)
    ensures
        r@ == encode_utf8(folded(case_sensitive, s@)),
{
    if case_sensitive {
        str_to_bytes(s)
    } else {
        let l = to_lowercase(s);
        str_to_bytes(l.as_str())
    }
}

fn occurs_at(h: &Vec<u8>, q: &Vec<u8>, p: usize) -> (r: bool)
    requires
        p + q@.len() <= h@.len(),
    ensures
        r == byte_occurs(h@, q@, p as int),
{
    let hl = h.len();
    let mut k: usize = 0;
    while k < q.len()
        invariant
            k <= q@.len(),
            hl == h@.len(),
            p + q@.len() <= h@.len(),
            forall|j: int| 0 <= j < k ==> h@[p + j] == q@[j],
        decreases q.len() - k,
    {
        if h[p + k] != q[k] {
            assert(h@.subrange(p as int, p + q@.len())[k as int] != q@[k as int]);
            return false;
        }
        k += 1;
    }
    assert(h@.subrange(p as int, p + q@.len()) =~= q@);
    true
}

/// The occurrences from a position on split at the next position.
proof fn lemma_occurrences_step(h: Seq<u8>, q: Seq<u8>, start: int)
    requires
        0 <= start,
        q.len() > 0,
        start + q.len() <= h.len(),
    ensures
        occurrences_from(h, q, start) == if byte_occurs(h, q, start) {
            seq![start] + occurrences_from(h, q, start + 1)
        } else {
            occurrences_from(h, q, start + 1)
        },
{
}

fn find_in_node(id: VexId, h: &Vec<u8>, q: &Vec<u8>, out: &mut Vec<FindMatch>)
    requires
        q@.len() > 0,
    ensures
        final(out)@ == old(out)@ + node_matches(id, h@, q@),
{
    let ghost start_out = old(out)@;
    let ghost f = |p: int| FindMatch { node_id: id, offset: p as usize, length: q@.len() as usize };
    if q.len() > h.len() {
        assert(occurrences_from(h@, q@, 0) =~= Seq::<int>::empty());
        assert(node_matches(id, h@, q@) =~= Seq::<FindMatch>::empty());
        assert(out@ =~= start_out + Seq::<FindMatch>::empty());
        return;
    }
    let hl = h.len();
    let last = hl - q.len();
    assert(last < usize::MAX);
    let mut p: usize = 0;
    while p <= last
        invariant
            last == h@.len() - q@.len(),
            last < usize::MAX,
            q@.len() > 0,
            p <= last + 1,
            f == (|p: int| FindMatch { node_id: id, offset: p as usize, length: q@.len() as usize }),
            start_out + occurrences_from(h@, q@, 0).map_values(f) == out@ + occurrences_from(h@, q@, p as int).map_values(f),
        decreases last + 1 - p,
    {
        proof {
            lemma_occurrences_step(h@, q@, p as int);
        }
        if occurs_at(h, q, p) {
            out.push(FindMatch { node_id: id, offset: p, length: q.len() });
            proof {
                let rest = occurrences_from(h@, q@, p + 1);
                assert((seq![p as int] + rest).map_values(f) =~= seq![f(p as int)] + rest.map_values(f));
            }
        }
        p += 1;
    }
    assert(occurrences_from(h@, q@, p as int) =~= Seq::<int>::empty());
    assert(out@ =~= start_out + node_matches(id, h@, q@));
}

impl FindState {
    /// The current match lies among the matches.
    pub open spec fn wf(&self) -> bool {
        self.current_index matches Some(i) ==> i < self.matches@.len()
    }

    /// No search.
    pub fn new() -> (r: Self)
        ensures
            r.wf(),
            r.query@ == Seq::<char>::empty(),
            r.matches@ == Seq::<FindMatch>::empty(),
            r.current_index is None,
            !r.case_sensitive,
    {
        FindState { query: String::new(), matches: Vec::new(), current_index: None, case_sensitive: false }
    }

    /// Searches the text nodes (in document order) for every occurrence
    /// of the query, overlapping ones included, ignoring case unless the
    /// search is case-sensitive; the first match is highlighted. An empty
    /// query finds nothing.
    pub fn search(&mut self, text_nodes: &[(VexId, String)], query: &str)
        requires
            search_allowed(text_nodes@, old(self).case_sensitive, query@),
        ensures
            final(self).wf(),
            final(self).case_sensitive == old(self).case_sensitive,
            final(self).query@ == query@,
            final(self).matches@ == (if query@.len() == 0 {
                Seq::<FindMatch>::empty()
            } else {
                page_matches(text_nodes@, old(self).case_sensitive, encode_utf8(folded(old(self).case_sensitive, query@)))
            }),
            final(self).current_index == (if final(self).matches@.len() > 0 {
                Some(0usize)
            } else {
                None::<usize>
            }),
    {
        self.query = query.to_owned();
        self.matches = Vec::new();
        self.current_index = None;
        if query.is_empty() {
            return;
        }
        let cs = self.case_sensitive;
        let q = fold_text(cs, query);
        let mut i: usize = 0;
        while i < text_nodes.len()
            invariant
                i <= text_nodes@.len(),
                q@ == encode_utf8(folded(cs, query@)),
                q@.len() > 0 || text_nodes@.len() == 0,
                self.matches@ == page_matches(text_nodes@.take(i as int), cs, q@),
                self.current_index is None,
                self.case_sensitive == cs,
                self.query@ == query@,
            decreases text_nodes.len() - i,
        {
            let h = fold_text(cs, text_nodes[i].1.as_str());
            proof {
                assert(text_nodes@.take(i + 1).drop_last() =~= text_nodes@.take(i as int));
                assert(text_nodes@.take(i + 1).last() == text_nodes@[i as int]);
                assert(h@ == node_bytes(cs, text_nodes@[i as int].1));
            }
            if q.len() > 0 {
                find_in_node(text_nodes[i].0, &h, &q, &mut self.matches);
            }
            i += 1;
        }
        assert(text_nodes@.take(text_nodes@.len() as int) =~= text_nodes@);
        if self.matches.len() > 0 {
            self.current_index = Some(0);
        }
    }

    /// Searches as [`Self::search`] does, where the search is allowed;
    /// otherwise leaves the state as it is and returns false.
    pub fn try_search(&mut self, text_nodes: &[(VexId, String)], query: &str) -> (r: bool)
        ensures
            r == search_allowed(text_nodes@, old(self).case_sensitive, query@),
            !r ==> final(self).query == old(self).query && final(self).matches == old(self).matches
                && final(self).current_index == old(self).current_index && final(self).case_sensitive
                == old(self).case_sensitive,
            r ==> final(self).wf() && final(self).query@ == query@ && final(self).case_sensitive == old(self).case_sensitive
                && final(self).matches@ == (if query@.len() == 0 {
                Seq::<FindMatch>::empty()
            } else {
                page_matches(text_nodes@, old(self).case_sensitive, encode_utf8(folded(old(self).case_sensitive, query@)))
            }),
    {
        let cs = self.case_sensitive;
        let q = fold_text(cs, query);
        let mut allowed = if q.len() == 0 {
            query.is_empty() || text_nodes.len() == 0
        } else {
            q[0] < 0x80
        };
        if !allowed && q.len() > 0 {
            let mut i: usize = 0;
            let mut none = true;
            while i < text_nodes.len()
                invariant
                    i <= text_nodes@.len(),
                    q@ == encode_utf8(folded(cs, query@)),
                    q@.len() > 0,
                    none == forall|j: int| 0 <= j < i ==> occurrences_from(node_bytes(cs, #[trigger] text_nodes@[j].1), q@, 0).len() == 0,
                decreases text_nodes.len() - i,
            {
                let h = fold_text(cs, text_nodes[i].1.as_str());
                let mut found: Vec<FindMatch> = Vec::new();
                find_in_node(text_nodes[i].0, &h, &q, &mut found);
                proof {
                    assert(found@.len() == occurrences_from(h@, q@, 0).len());
                }
                if found.len() > 0 {
                    none = false;
                }
                i += 1;
            }
            allowed = none;
        }
        if allowed {
            self.search(text_nodes, query);
        }
        allowed
    }

    /// Highlights the next match, wrapping to the first.
    pub fn next_match(&mut self)
        requires
            old(self).wf(),
        ensures
            final(self).wf(),
            final(self).query == old(self).query,
            final(self).matches == old(self).matches,
            final(self).case_sensitive == old(self).case_sensitive,
            final(self).current_index == match old(self).current_index {
                Some(i) => Some(next_index(i, old(self).matches@.len())),
                None => None::<usize>,
            },
    {
        match self.current_index {
            Some(i) => {
                let n = self.matches.len();
                self.current_index = Some((i + 1) % n);
            },
            None => {},
        }
    }

    /// Highlights the previous match, wrapping to the last.
    pub fn prev_match(&mut self)
        requires
            old(self).wf(),
        ensures
            final(self).wf(),
            final(self).query == old(self).query,
            final(self).matches == old(self).matches,
            final(self).case_sensitive == old(self).case_sensitive,
            final(self).current_index == match old(self).current_index {
                Some(i) => Some(prev_index(i, old(self).matches@.len())),
                None => None::<usize>,
            },
    {
        match self.current_index {
            Some(i) => {
                let n = self.matches.len();
                self.current_index = Some(if i == 0 { n - 1 } else { i - 1 });
            },
            None => {},
        }
    }

    /// The highlighted match, if any.
    pub fn current_match(&self) -> (r: Option<&FindMatch>)
        ensures
            r == match self.current_index {
                Some(i) => if i < self.matches@.len() {
                    Some(&self.matches@[i as int])
                } else {
                    None
                },
                None => None,
            },
    {
        match self.current_index {
            Some(i) => if i < self.matches.len() {
                Some(&self.matches[i])
            } else {
                None
            },
            None => None,
        }
    }

    /// The number of matches.
    pub fn match_count(&self) -> (r: usize)
        ensures
            r == self.matches@.len(),
    {
        self.matches.len()
    }

    /// The status line: `i of n`, `n matches`, `No matches`, or empty
    /// without a query.
    pub fn status(&self) -> (r: String)
        requires
            self.wf(),
        ensures
            r@ == status_text(self.query@, self.matches@.len(), self.current_index),
    {
        let n = self.matches.len();
        if n == 0 {
            if self.query.as_str().is_empty() {
                String::new()
            } else {
                String::from_str("No matches")
            }
        } else {
            match self.current_index {
                Some(i) => {
                    let mut s = u64_to_decimal((i + 1) as u64);
                    s.append(" of ");
                    let t = u64_to_decimal(n as u64);
                    s.append(t.as_str());
                    s
                },
                None => {
                    let mut s = u64_to_decimal(n as u64);
                    s.append(" matches");
                    s
                },
            }
        }
    }

    /// Ends the search.
    pub fn clear(&mut self)
        ensures
            final(self).wf(),
            final(self).query@ == Seq::<char>::empty(),
            final(self).matches@ == Seq::<FindMatch>::empty(),
            final(self).current_index is None,
            final(self).case_sensitive == old(self).case_sensitive,
    {
        self.query = String::new();
        self.matches = Vec::new();
        self.current_index = None;
    }

    /// Whether a search is active: the query is not empty.
    pub fn is_active(&self) -> (r: bool)
        ensures
            r == (self.query@.len() > 0),
    {
        !self.query.as_str().is_empty()
    }
}

impl Default for FindState {
    fn default() -> (r: Self)
        ensures
            r.wf(),
            r.query@ == Seq::<char>::empty(),
            r.matches@ == Seq::<FindMatch>::empty(),
            r.current_index is None,
            !r.case_sensitive,
    {
        Self::new()
    }
}

/// The match after match `i` of `n`, wrapping to the first.
pub open spec fn next_index(i: usize, n: nat) -> usize {
    ((i + 1) % (n as int)) as usize
}

/// The match before match `i` of `n`, wrapping to the last.
pub open spec fn prev_index(i: usize, n: nat) -> usize {
    if i == 0 {
        (n - 1) as usize
    } else {
        (i - 1) as usize
    }
}

/// Going to the previous match undoes going to the next one, and the
/// other way round.
pub proof fn law_prev_undoes_next(i: usize, n: nat)
    requires
        i < n <= usize::MAX,
    ensures
        prev_index(next_index(i, n), n) == i,
        next_index(prev_index(i, n), n) == i,
        next_index(i, n) < n,
        prev_index(i, n) < n,
{
    if i + 1 < n {
        assert((i + 1) % (n as int) == i + 1) by (nonlinear_arith)
            requires
                0 <= i + 1 < n,
        ;
    } else {
        assert((i + 1) % (n as int) == 0) by (nonlinear_arith)
            requires
                i + 1 == n,
                n > 0,
        ;
    }
    if i == 0 {
        assert(((n - 1) + 1) % (n as int) == 0) by (nonlinear_arith)
            requires
                n > 0,
        ;
    } else {
        assert((i as int) % (n as int) == i) by (nonlinear_arith)
            requires
                0 <= i < n,
        ;
    }
}

} // verus!
