//! Browsing history: visits in order, the latest last, with a cap on how
//! many are kept. Saving and loading as JSON is left to the application.
use vstd::prelude::*;
use crate::text::{contains_seq, matches_lowered, str_eq, to_lowercase, unicode_lower};

verus! {

/// One visited page.
#[derive(Debug, Clone)]
pub struct HistoryRecord {
    /// URL visited.
    pub url: String,
    /// Page title (may be empty).
    pub title: String,
    /// Unix time of the latest visit, in seconds.
    pub visited_at: u64,
    /// How many times in a row this URL was visited.
    pub visit_count: u32,
}

/// The value of a record.
pub struct RecordView {
    pub url: Seq<char>,
    pub title: Seq<char>,
    pub visited_at: u64,
    pub visit_count: u32,
}

impl View for HistoryRecord {
    type V = RecordView;

    open spec fn view(&self) -> RecordView {
        RecordView { url: self.url@, title: self.title@, visited_at: self.visited_at, visit_count: self.visit_count }
    }
}

impl HistoryRecord {
    /// A copy of the record.
    pub fn copy(&self) -> (r: Self)
        ensures
            r@ == self@,
    {
        HistoryRecord {
            url: self.url.clone(),
            title: self.title.clone(),
            visited_at: self.visited_at,
            visit_count: self.visit_count,
        }
    }
}

/// The browsing history.
#[derive(Debug, Clone)]
pub struct BrowsingHistory {
    records: Vec<HistoryRecord>,
    /// Maximum number of records to keep.
    max_records: usize,
}

/// The value of a history: its records, oldest first, and its cap.
pub struct HistoryView {
    pub records: Seq<RecordView>,
    pub max_records: usize,
}

impl View for BrowsingHistory {
    type V = HistoryView;

    closed spec fn view(&self) -> HistoryView {
        HistoryView { records: self.records@.map_values(|r: HistoryRecord| r@), max_records: self.max_records }
    }
}

/// Whether a visit can be counted: a visit to the URL of the latest record
/// adds one to its count, which must not overflow.
pub open spec fn can_record(h: HistoryView, url: Seq<char>) -> bool {
    h.records.len() > 0 && h.records.last().url == url ==> h.records.last().visit_count < u32::MAX
}

/// The records after a visit at a time: a visit to the URL of the latest
/// record updates it (count, time, and title unless the new one is empty);
/// any other visit is added, and the oldest records beyond the cap dropped.
pub open spec fn after_visit(h: HistoryView, url: Seq<char>, title: Seq<char>, now: u64) -> Seq<RecordView> {
    let rs = h.records;
    if rs.len() > 0 && rs.last().url == url {
        let last = rs.last();
        rs.update(
            rs.len() - 1,
            RecordView {
                url: last.url,
                title: if title.len() > 0 {
                    title
                } else {
                    last.title
                },
                visited_at: now,
                visit_count: (last.visit_count + 1) as u32,
            },
        )
    } else {
        let pushed = rs.push(RecordView { url, title, visited_at: now, visit_count: 1 });
        if pushed.len() > h.max_records {
            pushed.skip(pushed.len() - h.max_records)
        } else {
            pushed
        }
    }
}

/// Recording a visit never takes the history beyond its cap.
pub proof fn law_visit_respects_cap(h: HistoryView, url: Seq<char>, title: Seq<char>, now: u64)
    requires
        h.records.len() <= h.max_records,
    ensures
        after_visit(h, url, title, now).len() <= h.max_records,
{
}

/// A visit to the URL of the latest record adds no record: it counts one
/// more visit to it.
pub proof fn law_repeat_visit_counts(h: HistoryView, url: Seq<char>, title: Seq<char>, now: u64)
    requires
        h.records.len() > 0,
        h.records.last().url == url,
    ensures
        after_visit(h, url, title, now).len() == h.records.len(),
        after_visit(h, url, title, now).drop_last() == h.records.drop_last(),
        after_visit(h, url, title, now).last().url == url,
        after_visit(h, url, title, now).last().visit_count == (h.records.last().visit_count + 1) as u32,
        after_visit(h, url, title, now).last().visited_at == now,
        after_visit(h, url, title, now).last().title == if title.len() > 0 {
            title
        } else {
            h.records.last().title
        },
{
    assert(after_visit(h, url, title, now).drop_last() =~= h.records.drop_last());
}

/// Any other visit adds a record with one visit, which becomes the most
/// recent; the history grows by one up to its cap, dropping the oldest
/// record when full.
pub proof fn law_new_visit_is_newest(h: HistoryView, url: Seq<char>, title: Seq<char>, now: u64)
    requires
        !(h.records.len() > 0 && h.records.last().url == url),
        h.records.len() <= h.max_records,
        h.max_records > 0,
    ensures
        after_visit(h, url, title, now).len() == if h.records.len() < h.max_records {
            h.records.len() + 1
        } else {
            h.max_records as nat
        },
        after_visit(h, url, title, now).last() == (RecordView { url, title, visited_at: now, visit_count: 1 }),
        newest_first(after_visit(h, url, title, now))[0] == (RecordView { url, title, visited_at: now, visit_count: 1 }),
        h.records.len() < h.max_records ==> after_visit(h, url, title, now).drop_last() == h.records,
        h.records.len() == h.max_records ==> after_visit(h, url, title, now).drop_last() == h.records.drop_first(),
{
    let a = after_visit(h, url, title, now);
    if h.records.len() < h.max_records {
        assert(a.drop_last() =~= h.records);
    } else {
        assert(a.drop_last() =~= h.records.drop_first());
    }
}

/// The records, most recent first.
pub open spec fn newest_first(rs: Seq<RecordView>) -> Seq<RecordView> {
    Seq::new(rs.len(), |i: int| rs[rs.len() - 1 - i])
}

/// Whether a record matches a lowercased query: its lowercased title or URL
/// contains it.
pub open spec fn record_matches(r: RecordView, q: Seq<char>) -> bool {
    contains_seq(unicode_lower(r.title), q) || contains_seq(unicode_lower(r.url), q)
}

/// The current Unix time in seconds; 0 if the clock is before the epoch.
#[verifier::external_body]
pub(crate) fn unix_seconds_now() -> u64 {
    std::time::SystemTime::now().duration_since(std::time::UNIX_EPOCH).unwrap_or_default().as_secs()
}

impl Default for BrowsingHistory {
    fn default() -> (r: Self)
        ensures
            r@.records == Seq::<RecordView>::empty(),
            r@.max_records == 10_000,
    {
        Self::new()
    }
}

impl BrowsingHistory {
    /// An empty history keeping up to 10 000 records.
    pub fn new() -> (r: Self)
        ensures
            r@.records == Seq::<RecordView>::empty(),
            r@.max_records == 10_000,
    {
        let r = Self { records: Vec::new(), max_records: 10_000 };
        assert(r@.records =~= Seq::<RecordView>::empty());
        r
    }

    /// An empty history keeping up to `max` records.
    pub fn with_max_records(max: usize) -> (r: Self)
        ensures
            r@.records == Seq::<RecordView>::empty(),
            r@.max_records == max,
    {
        let r = Self { records: Vec::new(), max_records: max };
        assert(r@.records =~= Seq::<RecordView>::empty());
        r
    }

    /// A history with given records (oldest first) and cap, as loaded.
    pub fn from_parts(records: Vec<HistoryRecord>, max_records: usize) -> (r: Self)
        ensures
            r@.records == records@.map_values(|x: HistoryRecord| x@),
            r@.max_records == max_records,
    {
        Self { records, max_records }
    }

    /// The records, oldest first.
    pub fn records(&self) -> (r: &[HistoryRecord])
        ensures
            r@.map_values(|x: HistoryRecord| x@) == self@.records,
    {
        self.records.as_slice()
    }

    /// The cap on the number of records.
    pub fn max_records(&self) -> (r: usize)
        ensures
            r == self@.max_records,
    {
        self.max_records
    }

    /// Records a visit now; the time is whatever the clock reads.
    pub fn record_visit(&mut self, url: &str, title: &str)
        requires
            can_record(old(self)@, url@),
        ensures
            exists|now: u64|
                final(self)@.records == after_visit(old(self)@, url@, title@, now),
            final(self)@.max_records == old(self)@.max_records,
            old(self)@.records.len() <= old(self)@.max_records ==> final(self)@.records.len()
                <= final(self)@.max_records,
    {
        let now = unix_seconds_now();
        self.record_visit_at(url, title, now);
    }

    /// Records a visit at a given time.
    pub fn record_visit_at(&mut self, url: &str, title: &str, now: u64)
        requires
            can_record(old(self)@, url@),
        ensures
            final(self)@.records == after_visit(old(self)@, url@, title@, now),
            final(self)@.max_records == old(self)@.max_records,
            old(self)@.records.len() <= old(self)@.max_records ==> final(self)@.records.len()
                <= final(self)@.max_records,
    {
        let ghost h0 = self@;
        proof {
            if h0.records.len() <= h0.max_records {
                law_visit_respects_cap(h0, url@, title@, now);
            }
        }
        let ghost f = |r: HistoryRecord| r@;
        let n = self.records.len();
        if n > 0 && str_eq(self.records[n - 1].url.as_str(), url) {
            let last = self.records.pop().unwrap();
            let new_title = if !title.is_empty() {
                title.to_owned()
            } else {
                last.title
            };
            let rec = HistoryRecord {
                url: last.url,
                title: new_title,
                visited_at: now,
                visit_count: last.visit_count + 1,
            };
            self.records.push(rec);
            assert(self@.records =~= after_visit(h0, url@, title@, now));
        } else {
            self.records.push(HistoryRecord {
                url: url.to_owned(),
                title: title.to_owned(),
                visited_at: now,
                visit_count: 1,
            });
            let ghost pushed = self@.records;
            assert(pushed =~= h0.records.push(RecordView { url: url@, title: title@, visited_at: now, visit_count: 1 }));
            let cur_len = self.records.len();
            assert(pushed.len() == cur_len);
            let mut dropped: usize = 0;
            while self.records.len() > self.max_records
                invariant
                    self.max_records == h0.max_records,
                    self.records@.len() + dropped == pushed.len(),
                    pushed.len() <= usize::MAX,
                    self@.records == pushed.skip(dropped as int),
                    dropped > 0 ==> self.records@.len() >= self.max_records,
                decreases self.records.len(),
            {
                let ghost before = self.records@;
                self.records.remove(0);
                assert(self.records@ =~= before.skip(1));
                assert forall|k: int| 0 <= k < self@.records.len() implies self@.records[k] == pushed.skip(dropped + 1)[k] by {
                    assert(self@.records[k] == before[k + 1]@);
                    assert(before.map_values(|r: HistoryRecord| r@)[k + 1] == pushed.skip(dropped as int)[k + 1]);
                }
                assert(self@.records =~= pushed.skip(dropped + 1));
                dropped += 1;
            }
            assert(self@.records =~= after_visit(h0, url@, title@, now));
        }
    }

    /// All records, most recent first.
    pub fn all(&self) -> (r: Vec<&HistoryRecord>)
        ensures
            r@.len() == self@.records.len(),
            forall|i: int| 0 <= i < r@.len() ==> #[trigger] r@[i]@ == newest_first(self@.records)[i],
    {
        self.recent(self.records.len())
    }

    /// The latest `count` records (or all, if fewer), most recent first.
    pub fn recent(&self, count: usize) -> (r: Vec<&HistoryRecord>)
        ensures
            r@.len() == if count < self@.records.len() {
                count as int
            } else {
                self@.records.len() as int
            },
            forall|i: int| 0 <= i < r@.len() ==> #[trigger] r@[i]@ == newest_first(self@.records)[i],
    {
        let n = self.records.len();
        let mut r: Vec<&HistoryRecord> = Vec::new();
        let mut i: usize = 0;
        while i < n && i < count
            invariant
                n == self.records@.len(),
                i <= n,
                i <= count,
                r@.len() == i,
                forall|j: int| 0 <= j < i ==> #[trigger] r@[j]@ == newest_first(self@.records)[j],
            decreases n - i,
        {
            r.push(&self.records[n - 1 - i]);
            i += 1;
        }
        r
    }

    /// The records whose title or URL contains the query, compared in
    /// Unicode lowercase, most recent first.
    pub fn search(&self, query: &str) -> (r: Vec<&HistoryRecord>)
        ensures
            r@.map_values(|x: &HistoryRecord| x@) == newest_first(self@.records).filter(
                |x: RecordView| record_matches(x, unicode_lower(query@)),
            ),
    {
        let q = to_lowercase(query);
        let ghost pred = |x: RecordView| record_matches(x, unicode_lower(query@));
        let ghost nf = newest_first(self@.records);
        let n = self.records.len();
        let mut r: Vec<&HistoryRecord> = Vec::new();
        let mut i: usize = 0;
        while i < n
            invariant
                n == self.records@.len(),
                i <= n,
                nf == newest_first(self@.records),
                q@ == unicode_lower(query@),
                pred == (|x: RecordView| record_matches(x, unicode_lower(query@))),
                r@.map_values(|x: &HistoryRecord| x@) == nf.take(i as int).filter(pred),
            decreases n - i,
        {
            let rec = &self.records[n - 1 - i];
            assert(nf[i as int] == rec@);
            let t = to_lowercase(rec.title.as_str());
            let u = to_lowercase(rec.url.as_str());
            let hit = matches_lowered(t.as_str(), u.as_str(), q.as_str());
            assert(hit == pred(nf[i as int]));
            let ghost before = r@;
            if hit {
                r.push(rec);
                assert(r@.map_values(|x: &HistoryRecord| x@) =~= before.map_values(|x: &HistoryRecord| x@).push(nf[i as int]));
            }
            assert(nf.take(i + 1).drop_last() =~= nf.take(i as int));
            assert(nf.take(i + 1).last() == nf[i as int]);
            reveal_with_fuel(Seq::filter, 1);
            i += 1;
        }
        assert(nf.take(n as int) =~= nf);
        r
    }

    /// Removes every record of a URL.
    pub fn remove_url(&mut self, url: &str)
        ensures
            final(self)@.records == old(self)@.records.filter(|x: RecordView| x.url != url@),
            final(self)@.max_records == old(self)@.max_records,
    {
        let ghost pred = |x: RecordView| x.url != url@;
        let ghost allv = self@.records;
        let mut kept: Vec<HistoryRecord> = Vec::new();
        let n = self.records.len();
        let mut i: usize = 0;
        while i < n
            invariant
                n == self.records@.len(),
                i <= n,
                allv == self@.records,
                pred == (|x: RecordView| x.url != url@),
                kept@.map_values(|x: HistoryRecord| x@) == allv.take(i as int).filter(pred),
            decreases n - i,
        {
            let rec = &self.records[i];
            assert(allv[i as int] == rec@);
            let keep = !str_eq(rec.url.as_str(), url);
            let ghost before = kept@;
            if keep {
                kept.push(rec.copy());
                assert(kept@.map_values(|x: HistoryRecord| x@) =~= before.map_values(|x: HistoryRecord| x@).push(allv[i as int]));
            }
            assert(allv.take(i + 1).drop_last() =~= allv.take(i as int));
            assert(allv.take(i + 1).last() == allv[i as int]);
            reveal_with_fuel(Seq::filter, 1);
            i += 1;
        }
        assert(allv.take(n as int) =~= allv);
        self.records = kept;
    }

    /// Removes every record.
    pub fn clear(&mut self)
        ensures
            final(self)@.records == Seq::<RecordView>::empty(),
            final(self)@.max_records == old(self)@.max_records,
    {
        self.records.clear();
        assert(self@.records =~= Seq::<RecordView>::empty());
    }

    /// The number of records.
    pub fn count(&self) -> (r: usize)
        ensures
            r == self@.records.len(),
    {
        self.records.len()
    }
}

} // verus!
