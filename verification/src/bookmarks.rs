//! Bookmarks: titled URLs in named folders, each with an identifier handed
//! out in increasing order. Saving and loading as JSON is left to the
//! application.
use vstd::prelude::*;
use crate::history::unix_seconds_now;
use crate::text::{contains_seq, matches_lowered, str_eq, to_lowercase, unicode_lower};

verus! {

/// The identifier of a bookmark.
#[derive(Debug, Clone, Copy, PartialEq, Eq, Hash, Structural)]
pub struct BookmarkId(pub u64);

/// One bookmark.
#[derive(Debug, Clone)]
pub struct Bookmark {
    pub id: BookmarkId,
    /// Display title.
    pub title: String,
    /// URL.
    pub url: String,
    /// Folder path (e.g. "Bookmarks Bar", "Other Bookmarks/Tech").
    pub folder: String,
    /// Unix time of creation, in seconds.
    pub created_at: u64,
}

/// The value of a bookmark.
pub struct BookmarkView {
    pub id: u64,
    pub title: Seq<char>,
    pub url: Seq<char>,
    pub folder: Seq<char>,
    pub created_at: u64,
}

impl View for Bookmark {
    type V = BookmarkView;

    open spec fn view(&self) -> BookmarkView {
        BookmarkView {
            id: self.id.0,
            title: self.title@,
            url: self.url@,
            folder: self.folder@,
            created_at: self.created_at,
        }
    }
}

impl Bookmark {
    /// A copy of the bookmark.
    pub fn copy(&self) -> (r: Self)
        ensures
            r@ == self@,
    {
        Bookmark {
            id: self.id,
            title: self.title.clone(),
            url: self.url.clone(),
            folder: self.folder.clone(),
            created_at: self.created_at,
        }
    }
}

/// The bookmarks, in the order they were added.
#[derive(Debug, Clone)]
pub struct BookmarkManager {
    bookmarks: Vec<Bookmark>,
    next_id: u64,
}

/// The value of a manager: its bookmarks and the next identifier.
pub struct ManagerView {
    pub bookmarks: Seq<BookmarkView>,
    pub next_id: u64,
}

impl View for BookmarkManager {
    type V = ManagerView;

    closed spec fn view(&self) -> ManagerView {
        ManagerView { bookmarks: self.bookmarks@.map_values(|b: Bookmark| b@), next_id: self.next_id }
    }
}

/// Identifiers are below the next one, hence fresh when handed out.
pub open spec fn ids_below_next(m: ManagerView) -> bool {
    forall|i: int| 0 <= i < m.bookmarks.len() ==> #[trigger] m.bookmarks[i].id < m.next_id
}

/// `i` is the first position of a bookmark with identifier `id`.
pub open spec fn first_with_id(s: Seq<BookmarkView>, id: u64, i: int) -> bool {
    0 <= i < s.len() && s[i].id == id && forall|j: int| 0 <= j < i ==> s[j].id != id
}

/// Whether a bookmark has an identifier.
pub open spec fn has_id(s: Seq<BookmarkView>, id: u64) -> bool {
    exists|i: int| 0 <= i < s.len() && s[i].id == id
}

/// Whether a bookmark matches a lowercased query: its lowercased title or
/// URL contains it.
pub open spec fn bookmark_matches(b: BookmarkView, q: Seq<char>) -> bool {
    contains_seq(unicode_lower(b.title), q) || contains_seq(unicode_lower(b.url), q)
}

impl Default for BookmarkManager {
    fn default() -> (r: Self)
        ensures
            r@.bookmarks == Seq::<BookmarkView>::empty(),
            r@.next_id == 1,
    {
        Self::new()
    }
}

impl BookmarkManager {
    /// No bookmarks; the first identifier is 1.
    pub fn new() -> (r: Self)
        ensures
            r@.bookmarks == Seq::<BookmarkView>::empty(),
            r@.next_id == 1,
    {
        let r = Self { bookmarks: Vec::new(), next_id: 1 };
        assert(r@.bookmarks =~= Seq::<BookmarkView>::empty());
        r
    }

    /// A manager with given bookmarks and next identifier, as loaded.
    pub fn from_parts(bookmarks: Vec<Bookmark>, next_id: u64) -> (r: Self)
        ensures
            r@.bookmarks == bookmarks@.map_values(|b: Bookmark| b@),
            r@.next_id == next_id,
    {
        Self { bookmarks, next_id }
    }

    /// The next identifier to hand out.
    pub fn next_id(&self) -> (r: u64)
        ensures
            r == self@.next_id,
    {
        self.next_id
    }

    /// Adds a bookmark created now; the time is whatever the clock reads.
    pub fn add(&mut self, title: &str, url: &str, folder: &str) -> (r: BookmarkId)
        requires
            old(self)@.next_id < u64::MAX,
        ensures
            r.0 == old(self)@.next_id,
            final(self)@.next_id == old(self)@.next_id + 1,
            exists|now: u64|
                final(self)@.bookmarks == old(self)@.bookmarks.push(
                    BookmarkView { id: r.0, title: title@, url: url@, folder: folder@, created_at: now },
                ),
    {
        let now = unix_seconds_now();
        self.add_at(title, url, folder, now)
    }

    /// Adds a bookmark created at a given time, with the next identifier.
    pub fn add_at(&mut self, title: &str, url: &str, folder: &str, now: u64) -> (r: BookmarkId)
        requires
            old(self)@.next_id < u64::MAX,
        ensures
            r.0 == old(self)@.next_id,
            final(self)@.next_id == old(self)@.next_id + 1,
            final(self)@.bookmarks == old(self)@.bookmarks.push(
                BookmarkView { id: r.0, title: title@, url: url@, folder: folder@, created_at: now },
            ),
    {
        let id = BookmarkId(self.next_id);
        self.next_id = self.next_id + 1;
        let ghost before = self.bookmarks@;
        let b = Bookmark {
            id,
            title: title.to_owned(),
            url: url.to_owned(),
            folder: folder.to_owned(),
            created_at: now,
        };
        self.bookmarks.push(b);
        assert(self@.bookmarks =~= before.map_values(|x: Bookmark| x@).push(b@));
        id
    }

    /// Removes every bookmark with an identifier; whether there was one.
    pub fn remove(&mut self, id: BookmarkId) -> (r: bool)
        ensures
            final(self)@.bookmarks == old(self)@.bookmarks.filter(|b: BookmarkView| b.id != id.0),
            final(self)@.next_id == old(self)@.next_id,
            r == has_id(old(self)@.bookmarks, id.0),
    {
        let ghost pred = |b: BookmarkView| b.id != id.0;
        let ghost allv = self@.bookmarks;
        let mut kept: Vec<Bookmark> = Vec::new();
        let n = self.bookmarks.len();
        let mut found = false;
        let mut i: usize = 0;
        while i < n
            invariant
                n == self.bookmarks@.len(),
                i <= n,
                allv == self@.bookmarks,
                pred == (|b: BookmarkView| b.id != id.0),
                kept@.map_values(|b: Bookmark| b@) == allv.take(i as int).filter(pred),
                found == exists|j: int| 0 <= j < i && allv[j].id == id.0,
            decreases n - i,
        {
            let b = &self.bookmarks[i];
            assert(allv[i as int] == b@);
            let ghost before = kept@;
            if b.id.0 != id.0 {
                kept.push(b.copy());
                assert(kept@.map_values(|x: Bookmark| x@) =~= before.map_values(|x: Bookmark| x@).push(allv[i as int]));
            } else {
                found = true;
            }
            assert(allv.take(i + 1).drop_last() =~= allv.take(i as int));
            assert(allv.take(i + 1).last() == allv[i as int]);
            reveal_with_fuel(Seq::filter, 1);
            i += 1;
        }
        assert(allv.take(n as int) =~= allv);
        self.bookmarks = kept;
        found
    }

    fn position(&self, id: BookmarkId) -> (r: Option<usize>)
        ensures
            r matches Some(i) ==> first_with_id(self@.bookmarks, id.0, i as int),
            r is None ==> !has_id(self@.bookmarks, id.0),
    {
        let n = self.bookmarks.len();
        let mut i: usize = 0;
        while i < n
            invariant
                n == self.bookmarks@.len(),
                i <= n,
                forall|j: int| 0 <= j < i ==> self@.bookmarks[j].id != id.0,
            decreases n - i,
        {
            if self.bookmarks[i].id.0 == id.0 {
                return Some(i);
            }
            i += 1;
        }
        None
    }

    /// Sets the title and URL of the first bookmark with an identifier;
    /// whether there was one.
    pub fn update(&mut self, id: BookmarkId, title: &str, url: &str) -> (r: bool)
        ensures
            r == has_id(old(self)@.bookmarks, id.0),
            final(self)@.next_id == old(self)@.next_id,
            !r ==> final(self)@.bookmarks == old(self)@.bookmarks,
            r ==> exists|i: int|
                first_with_id(old(self)@.bookmarks, id.0, i) && final(self)@.bookmarks
                    == old(self)@.bookmarks.update(
                    i,
                    BookmarkView { title: title@, url: url@, ..old(self)@.bookmarks[i] },
                ),
    {
        match self.position(id) {
            Some(i) => {
                let ghost before = self.bookmarks@;
                let old_b = self.bookmarks.remove(i);
                let b = Bookmark {
                    id: old_b.id,
                    title: title.to_owned(),
                    url: url.to_owned(),
                    folder: old_b.folder,
                    created_at: old_b.created_at,
                };
                self.bookmarks.insert(i, b);
                assert(self.bookmarks@ =~= before.update(i as int, b));
                assert(self@.bookmarks =~= before.map_values(|x: Bookmark| x@).update(i as int, b@));
                true
            },
            None => false,
        }
    }

    /// The first bookmark with an identifier.
    pub fn get(&self, id: BookmarkId) -> (r: Option<&Bookmark>)
        ensures
            r is None <==> !has_id(self@.bookmarks, id.0),
            r matches Some(b) ==> exists|i: int|
                first_with_id(self@.bookmarks, id.0, i) && b@ == self@.bookmarks[i],
    {
        match self.position(id) {
            Some(i) => Some(&self.bookmarks[i]),
            None => None,
        }
    }

    /// The bookmarks of a folder, in order.
    pub fn in_folder(&self, folder: &str) -> (r: Vec<&Bookmark>)
        ensures
            r@.map_values(|b: &Bookmark| b@) == self@.bookmarks.filter(|b: BookmarkView| b.folder == folder@),
    {
        let ghost pred = |b: BookmarkView| b.folder == folder@;
        let ghost allv = self@.bookmarks;
        let n = self.bookmarks.len();
        let mut r: Vec<&Bookmark> = Vec::new();
        let mut i: usize = 0;
        while i < n
            invariant
                n == self.bookmarks@.len(),
                i <= n,
                allv == self@.bookmarks,
                pred == (|b: BookmarkView| b.folder == folder@),
                r@.map_values(|b: &Bookmark| b@) == allv.take(i as int).filter(pred),
            decreases n - i,
        {
            let b = &self.bookmarks[i];
            assert(allv[i as int] == b@);
            let ghost before = r@;
            if str_eq(b.folder.as_str(), folder) {
                r.push(b);
                assert(r@.map_values(|x: &Bookmark| x@) =~= before.map_values(|x: &Bookmark| x@).push(allv[i as int]));
            }
            assert(allv.take(i + 1).drop_last() =~= allv.take(i as int));
            assert(allv.take(i + 1).last() == allv[i as int]);
            reveal_with_fuel(Seq::filter, 1);
            i += 1;
        }
        assert(allv.take(n as int) =~= allv);
        r
    }

    /// The bookmarks of the bookmarks bar.
    pub fn bar_bookmarks(&self) -> (r: Vec<&Bookmark>)
        ensures
            r@.map_values(|b: &Bookmark| b@) == self@.bookmarks.filter(
                |b: BookmarkView| b.folder == "Bookmarks Bar"@,
            ),
    {
        self.in_folder("Bookmarks Bar")
    }

    /// The bookmarks whose title or URL contains the query, compared in
    /// Unicode lowercase, in order.
    pub fn search(&self, query: &str) -> (r: Vec<&Bookmark>)
        ensures
            r@.map_values(|b: &Bookmark| b@) == self@.bookmarks.filter(
                |b: BookmarkView| bookmark_matches(b, unicode_lower(query@)),
            ),
    {
        let q = to_lowercase(query);
        let ghost pred = |b: BookmarkView| bookmark_matches(b, unicode_lower(query@));
        let ghost allv = self@.bookmarks;
        let n = self.bookmarks.len();
        let mut r: Vec<&Bookmark> = Vec::new();
        let mut i: usize = 0;
        while i < n
            invariant
                n == self.bookmarks@.len(),
                i <= n,
                allv == self@.bookmarks,
                q@ == unicode_lower(query@),
                pred == (|b: BookmarkView| bookmark_matches(b, unicode_lower(query@))),
                r@.map_values(|b: &Bookmark| b@) == allv.take(i as int).filter(pred),
            decreases n - i,
        {
            let b = &self.bookmarks[i];
            assert(allv[i as int] == b@);
            let t = to_lowercase(b.title.as_str());
            let u = to_lowercase(b.url.as_str());
            let hit = matches_lowered(t.as_str(), u.as_str(), q.as_str());
            assert(hit == pred(allv[i as int]));
            let ghost before = r@;
            if hit {
                r.push(b);
                assert(r@.map_values(|x: &Bookmark| x@) =~= before.map_values(|x: &Bookmark| x@).push(allv[i as int]));
            }
            assert(allv.take(i + 1).drop_last() =~= allv.take(i as int));
            assert(allv.take(i + 1).last() == allv[i as int]);
            reveal_with_fuel(Seq::filter, 1);
            i += 1;
        }
        assert(allv.take(n as int) =~= allv);
        r
    }

    /// Whether some bookmark has a URL.
    pub fn is_bookmarked(&self, url: &str) -> (r: bool)
        ensures
            r == exists|i: int| 0 <= i < self@.bookmarks.len() && self@.bookmarks[i].url == url@,
    {
        let n = self.bookmarks.len();
        let mut i: usize = 0;
        while i < n
            invariant
                n == self.bookmarks@.len(),
                i <= n,
                forall|j: int| 0 <= j < i ==> self@.bookmarks[j].url != url@,
            decreases n - i,
        {
            if str_eq(self.bookmarks[i].url.as_str(), url) {
                assert(self@.bookmarks[i as int].url == url@);
                return true;
            }
            i += 1;
        }
        false
    }

    /// The number of bookmarks.
    pub fn count(&self) -> (r: usize)
        ensures
            r == self@.bookmarks.len(),
    {
        self.bookmarks.len()
    }

    /// All bookmarks, in the order they were added.
    pub fn all(&self) -> (r: &[Bookmark])
        ensures
            r@.map_values(|b: Bookmark| b@) == self@.bookmarks,
    {
        self.bookmarks.as_slice()
    }

    /// The folder names, each once. The order is unspecified.
    pub fn folders(&self) -> (r: Vec<String>)
        ensures
            r@.map_values(|s: String| s@).no_duplicates(),
            r@.map_values(|s: String| s@).to_set() == self@.bookmarks.map_values(
                |b: BookmarkView| b.folder,
            ).to_set(),
    {
        let ghost fs = self@.bookmarks.map_values(|b: BookmarkView| b.folder);
        let n = self.bookmarks.len();
        let mut r: Vec<String> = Vec::new();
        let mut i: usize = 0;
        while i < n
            invariant
                n == self.bookmarks@.len(),
                i <= n,
                fs == self@.bookmarks.map_values(|b: BookmarkView| b.folder),
                r@.map_values(|s: String| s@).no_duplicates(),
                r@.map_values(|s: String| s@).to_set() == fs.take(i as int).to_set(),
            decreases n - i,
        {
            let folder = &self.bookmarks[i].folder;
            assert(fs[i as int] == folder@);
            let ghost rv = r@.map_values(|s: String| s@);
            let mut seen = false;
            let mut k: usize = 0;
            while k < r.len()
                invariant
                    k <= r@.len(),
                    rv == r@.map_values(|s: String| s@),
                    seen == exists|j: int| 0 <= j < k && rv[j] == folder@,
                decreases r.len() - k,
            {
                assert(rv[k as int] == r@[k as int]@);
                if str_eq(r[k].as_str(), folder.as_str()) {
                    seen = true;
                }
                k += 1;
            }
            assert(fs.take(i + 1) =~= fs.take(i as int).push(folder@));
            if !seen {
                r.push(folder.clone());
                assert(r@.map_values(|s: String| s@) =~= rv.push(folder@));
                proof {
                    rv.lemma_push_to_set_commute(folder@);
                    fs.take(i as int).lemma_push_to_set_commute(folder@);
                    assert forall|a: int, b: int| 0 <= a < b < rv.push(folder@).len() implies rv.push(folder@)[a] != rv.push(folder@)[b] by {
                        if b == rv.len() {
                            assert(rv[a] != folder@);
                        }
                    }
                }
            } else {
                proof {
                    let j = choose|j: int| 0 <= j < rv.len() && rv[j] == folder@;
                    assert(rv.to_set().contains(rv[j]));
                    fs.take(i as int).lemma_push_to_set_commute(folder@);
                    assert(rv.to_set().insert(folder@) =~= rv.to_set());
                }
            }
            i += 1;
        }
        assert(fs.take(n as int) =~= fs);
        r
    }
}

/// Adding a bookmark keeps identifiers below the next one, and the new
/// bookmark is the one found by its identifier.
pub proof fn law_add_then_get(m: ManagerView, title: Seq<char>, url: Seq<char>, folder: Seq<char>, now: u64)
    requires
        ids_below_next(m),
        m.next_id < u64::MAX,
    ensures
        ({
            let b = BookmarkView { id: m.next_id, title, url, folder, created_at: now };
            let after = ManagerView { bookmarks: m.bookmarks.push(b), next_id: (m.next_id + 1) as u64 };
            &&& ids_below_next(after)
            &&& first_with_id(after.bookmarks, m.next_id, m.bookmarks.len() as int)
        }),
{
    let b = BookmarkView { id: m.next_id, title, url, folder, created_at: now };
    let s = m.bookmarks.push(b);
    assert forall|j: int| 0 <= j < m.bookmarks.len() implies s[j].id != m.next_id by {
        assert(s[j] == m.bookmarks[j]);
    }
}

} // verus!
