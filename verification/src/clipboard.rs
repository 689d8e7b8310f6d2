//! Clipboard API: clipboard read/write and the DataTransfer carrier used by
//! copy-paste and drag-and-drop.
use vstd::prelude::*;
use vstd::utf8::{decode_utf8, encode_utf8, valid_utf8};

use crate::text::{copy_bytes, lemma_map_push, lemma_map_take, lemma_take_succ, str_eq, str_to_bytes, utf8_decode};

verus! {

/// A clipboard item: MIME types with their data.
#[derive(Debug)]
pub struct ClipboardItem {
    types: Vec<(String, Vec<u8>)>,
}

/// The keys of the entries, in order.
pub open spec fn entry_keys(s: Seq<(Seq<char>, Seq<u8>)>) -> Seq<Seq<char>> {
    s.map_values(|e: (Seq<char>, Seq<u8>)| e.0)
}

/// Whether an entry list has a MIME type.
pub open spec fn has_key(s: Seq<(Seq<char>, Seq<u8>)>, k: Seq<char>) -> bool {
    exists|i: int| 0 <= i < s.len() && (#[trigger] s[i]).0 == k
}

/// The data for a MIME type (the first entry with it).
pub open spec fn lookup(s: Seq<(Seq<char>, Seq<u8>)>, k: Seq<char>) -> Option<Seq<u8>>
    decreases s.len(),
{
    if s.len() == 0 {
        None
    } else if s[0].0 == k {
        Some(s[0].1)
    } else {
        lookup(s.drop_first(), k)
    }
}

/// Entries after inserting `k => v`: an existing entry for `k` gets the new
/// data in place, otherwise the entry is appended.
pub open spec fn insert_entry(s: Seq<(Seq<char>, Seq<u8>)>, k: Seq<char>, v: Seq<u8>) -> Seq<(Seq<char>, Seq<u8>)> {
    if has_key(s, k) {
        s.update(choose|i: int| 0 <= i < s.len() && (#[trigger] s[i]).0 == k, (k, v))
    } else {
        s.push((k, v))
    }
}

/// Entries after inserting each pair in turn.
pub open spec fn insert_all(s: Seq<(Seq<char>, Seq<u8>)>, pairs: Seq<(Seq<char>, Seq<u8>)>) -> Seq<(Seq<char>, Seq<u8>)>
    decreases pairs.len(),
{
    if pairs.len() == 0 {
        s
    } else {
        insert_entry(insert_all(s, pairs.drop_last()), pairs.last().0, pairs.last().1)
    }
}

/// MIME types are pairwise different.
pub open spec fn keys_unique(s: Seq<(Seq<char>, Seq<u8>)>) -> bool {
    forall|i: int, j: int| 0 <= i < s.len() && 0 <= j < s.len() && i != j ==> s[i].0 != s[j].0
}

/// The abstract entries of a pair list.
pub open spec fn pairs_view(v: Seq<(String, Vec<u8>)>) -> Seq<(Seq<char>, Seq<u8>)> {
    v.map_values(|p: (String, Vec<u8>)| (p.0@, p.1@))
}

impl View for ClipboardItem {
    type V = Seq<(Seq<char>, Seq<u8>)>;

    closed spec fn view(&self) -> Seq<(Seq<char>, Seq<u8>)> {
        pairs_view(self.types@)
    }
}

proof fn lemma_lookup_unique(s: Seq<(Seq<char>, Seq<u8>)>, k: Seq<char>, i: int)
    requires
        keys_unique(s),
        0 <= i < s.len(),
        s[i].0 == k,
    ensures
        lookup(s, k) == Some(s[i].1),
    decreases s.len(),
{
    if i > 0 {
        let d = s.drop_first();
        assert(s[0].0 != s[i].0);
        assert forall|a: int, b: int| 0 <= a < d.len() && 0 <= b < d.len() && a != b implies d[a].0 != d[b].0 by {
            assert(s[a + 1].0 != s[b + 1].0);
        }
        lemma_lookup_unique(d, k, i - 1);
    }
}

proof fn lemma_lookup_none(s: Seq<(Seq<char>, Seq<u8>)>, k: Seq<char>)
    requires
        !has_key(s, k),
    ensures
        lookup(s, k) is None,
    decreases s.len(),
{
    if s.len() > 0 {
        let d = s.drop_first();
        assert(s[0].0 != k);
        assert(!has_key(d, k)) by {
            if has_key(d, k) {
                let j = choose|j: int| 0 <= j < d.len() && (#[trigger] d[j]).0 == k;
                assert(s[j + 1].0 == k);
            }
        }
        lemma_lookup_none(d, k);
    }
}

impl ClipboardItem {
    /// MIME types are unique.
    pub closed spec fn wf(&self) -> bool {
        keys_unique(self@)
    }

    /// An item with a single MIME type and its data.
    pub fn new(mime_type: &str, data: Vec<u8>) -> (r: Self)
        ensures
            r.wf(),
            r@ == seq![(mime_type@, data@)],
    {
        let r = ClipboardItem { types: vec![(mime_type.to_owned(), data)] };
        assert(r@ =~= seq![(mime_type@, data@)]);
        r
    }

    fn position(&self, mime_type: &str) -> (r: Option<usize>)
        ensures
            r matches Some(i) ==> i < self@.len() && self@[i as int].0 == mime_type@,
            r is None ==> !has_key(self@, mime_type@),
    {
        let mut i: usize = 0;
        while i < self.types.len()
            invariant
                i <= self.types@.len(),
                forall|j: int| 0 <= j < i ==> self@[j].0 != mime_type@,
            decreases self.types.len() - i,
        {
            if str_eq(self.types[i].0.as_str(), mime_type) {
                return Some(i);
            }
            i += 1;
        }
        None
    }

    fn insert(&mut self, mime_type: String, data: Vec<u8>)
        requires
            old(self).wf(),
        ensures
            final(self).wf(),
            final(self)@ == insert_entry(old(self)@, mime_type@, data@),
    {
        match self.position(mime_type.as_str()) {
            Some(i) => {
                proof {
                    let c = choose|c: int| 0 <= c < self@.len() && (#[trigger] self@[c]).0 == mime_type@;
                    assert(self@[i as int].0 == mime_type@);
                    if c != i as int {
                        assert(self@[c].0 != self@[i as int].0);
                    }
                }
                self.types.set(i, (mime_type, data));
                assert(self@ =~= old(self)@.update(i as int, (mime_type@, data@)));
            },
            None => {
                self.types.push((mime_type, data));
                assert(self@ =~= old(self)@.push((mime_type@, data@)));
            },
        }
    }

    /// An item from MIME type / data pairs; for a repeated MIME type the
    /// last data wins.
    pub fn from_map(types: Vec<(String, Vec<u8>)>) -> (r: Self)
        ensures
            r.wf(),
            r@ == insert_all(Seq::empty(), pairs_view(types@)),
    {
        let mut r = ClipboardItem { types: Vec::new() };
        assert(r@ =~= Seq::<(Seq<char>, Seq<u8>)>::empty());
        let ghost all = pairs_view(types@);
        let mut rest = types;
        let mut n: usize = 0;
        let total = rest.len();
        while rest.len() > 0
            invariant
                r.wf(),
                all.len() == total,
                n <= total,
                pairs_view(rest@) == all.skip(n as int),
                r@ == insert_all(Seq::empty(), all.take(n as int)),
            decreases rest.len(),
        {
            let ghost r0 = rest@;
            assert(pairs_view(r0).len() == r0.len());
            assert(n < all.len());
            assert(pairs_view(r0)[0] == (r0[0].0@, r0[0].1@));
            let (k, v) = rest.remove(0);
            assert(all.skip(n as int)[0] == all[n as int]);
            assert(rest@ =~= r0.drop_first());
            assert(pairs_view(rest@) =~= all.skip(n + 1)) by {
                assert forall|j: int| 0 <= j < rest@.len() implies pairs_view(rest@)[j] == all.skip(n + 1)[j] by {
                    assert(pairs_view(r0)[j + 1] == all.skip(n as int)[j + 1]);
                }
            }
            assert((k@, v@) == all[n as int]);
            assert(all.take(n + 1).drop_last() =~= all.take(n as int));
            r.insert(k, v);
            n += 1;
        }
        assert(all.take(total as int) =~= all);
        r
    }

    /// The MIME types, in insertion order.
    pub fn types(&self) -> (r: Vec<&str>)
        ensures
            r@.map_values(|s: &str| s@) == entry_keys(self@),
    {
        let mut r: Vec<&str> = Vec::new();
        let mut i: usize = 0;
        while i < self.types.len()
            invariant
                i <= self.types@.len(),
                r@.map_values(|s: &str| s@) == entry_keys(self@).take(i as int),
            decreases self.types.len() - i,
        {
            let ghost before = r@;
            let k = self.types[i].0.as_str();
            r.push(k);
            proof {
                lemma_map_push(before, k, |s: &str| s@);
                lemma_map_take(self@, i as int, |e: (Seq<char>, Seq<u8>)| e.0);
                lemma_map_take(self@, i + 1, |e: (Seq<char>, Seq<u8>)| e.0);
                lemma_take_succ(self@, i as int);
                lemma_map_push(self@.take(i as int), self@[i as int], |e: (Seq<char>, Seq<u8>)| e.0);
            }
            i += 1;
        }
        assert(entry_keys(self@).take(self.types@.len() as int) =~= entry_keys(self@));
        r
    }

    /// The data for a MIME type.
    pub fn get_type(&self, mime_type: &str) -> (r: Option<&[u8]>)
        requires
            self.wf(),
        ensures
            match lookup(self@, mime_type@) {
                Some(d) => r is Some && r->0@ == d,
                None => r is None,
            },
    {
        match self.position(mime_type) {
            Some(i) => {
                proof { lemma_lookup_unique(self@, mime_type@, i as int); }
                Some(self.types[i].1.as_slice())
            },
            None => {
                proof { lemma_lookup_none(self@, mime_type@); }
                None
            },
        }
    }

    /// Whether this item contains the given MIME type.
    pub fn has_type(&self, mime_type: &str) -> (r: bool)
        ensures
            r == has_key(self@, mime_type@),
    {
        self.position(mime_type).is_some()
    }

    /// A deep copy of this item.
    pub fn copy(&self) -> (r: Self)
        ensures
            r@ == self@,
    {
        let mut types: Vec<(String, Vec<u8>)> = Vec::new();
        let mut i: usize = 0;
        while i < self.types.len()
            invariant
                i <= self.types@.len(),
                pairs_view(types@) == self@.take(i as int),
            decreases self.types.len() - i,
        {
            let k = self.types[i].0.clone();
            let v = copy_bytes(self.types[i].1.as_slice());
            let ghost before = types@;
            types.push((k, v));
            proof {
                lemma_map_push(before, (k, v), |p: (String, Vec<u8>)| (p.0@, p.1@));
                lemma_take_succ(self@, i as int);
            }
            i += 1;
        }
        assert(self@.take(self.types@.len() as int) =~= self@);
        ClipboardItem { types }
    }
}

/// Permission state for clipboard access.
#[derive(Debug, Clone, Copy, PartialEq, Eq, Structural)]
pub enum ClipboardPermission {
    Granted,
    Denied,
    Prompt,
}

/// Clipboard operation errors.
#[derive(Debug, Clone, PartialEq, Eq, Structural)]
pub enum ClipboardError {
    /// The operation was not allowed (permission denied).
    NotAllowed,
    /// The clipboard data was invalid.
    InvalidData,
    /// Internal error.
    Internal,
}

impl ClipboardError {
    /// The error message.
    pub fn message(&self) -> (r: &'static str)
        ensures
            r@ == (match self {
                ClipboardError::NotAllowed => "clipboard: operation not allowed"@,
                ClipboardError::InvalidData => "clipboard: invalid data"@,
                ClipboardError::Internal => "clipboard: internal error"@,
            }),
    {
        match self {
            ClipboardError::NotAllowed => "clipboard: operation not allowed",
            ClipboardError::InvalidData => "clipboard: invalid data",
            ClipboardError::Internal => "clipboard: internal error",
        }
    }
}

/// An in-process clipboard store with read and write permissions.
#[derive(Debug)]
pub struct Clipboard {
    items: Vec<ClipboardItem>,
    read_permission: ClipboardPermission,
    write_permission: ClipboardPermission,
}

/// The abstract clipboard: its items and permissions.
pub struct ClipboardView {
    pub items: Seq<Seq<(Seq<char>, Seq<u8>)>>,
    pub read_permission: ClipboardPermission,
    pub write_permission: ClipboardPermission,
}

/// The text of the first item that holds plain text: `Some(Ok(bytes))` when
/// there is one, `None` when no item holds plain text.
pub open spec fn first_plain_text(items: Seq<Seq<(Seq<char>, Seq<u8>)>>) -> Option<Seq<u8>>
    decreases items.len(),
{
    if items.len() == 0 {
        None
    } else {
        match lookup(items[0], "text/plain"@) {
            Some(d) => Some(d),
            None => first_plain_text(items.drop_first()),
        }
    }
}

impl View for Clipboard {
    type V = ClipboardView;

    closed spec fn view(&self) -> ClipboardView {
        ClipboardView {
            items: self.items@.map_values(|i: ClipboardItem| i@),
            read_permission: self.read_permission,
            write_permission: self.write_permission,
        }
    }
}

impl Clipboard {
    /// All stored items are well formed.
    pub closed spec fn wf(&self) -> bool {
        forall|i: int| 0 <= i < self.items@.len() ==> (#[trigger] self.items@[i]).wf()
    }

    /// An empty clipboard with both permissions granted.
    pub fn new() -> (c: Self)
        ensures
            c.wf(),
            c@.items.len() == 0,
            c@.read_permission == ClipboardPermission::Granted,
            c@.write_permission == ClipboardPermission::Granted,
    {
        Clipboard {
            items: Vec::new(),
            read_permission: ClipboardPermission::Granted,
            write_permission: ClipboardPermission::Granted,
        }
    }

    /// Set read permission.
    pub fn set_read_permission(&mut self, perm: ClipboardPermission)
        requires
            old(self).wf(),
        ensures
            final(self).wf(),
            final(self)@ == (ClipboardView { read_permission: perm, ..old(self)@ }),
    {
        self.read_permission = perm;
    }

    /// Set write permission.
    pub fn set_write_permission(&mut self, perm: ClipboardPermission)
        requires
            old(self).wf(),
        ensures
            final(self).wf(),
            final(self)@ == (ClipboardView { write_permission: perm, ..old(self)@ }),
    {
        self.write_permission = perm;
    }

    /// Read all clipboard items.
    pub fn read(&self) -> (r: Result<Vec<ClipboardItem>, ClipboardError>)
        requires
            self.wf(),
        ensures
            self@.read_permission == ClipboardPermission::Denied ==> r == Err::<Vec<ClipboardItem>, ClipboardError>(
                ClipboardError::NotAllowed,
            ),
            self@.read_permission != ClipboardPermission::Denied ==> r is Ok && r->Ok_0@.map_values(
                |i: ClipboardItem| i@,
            ) == self@.items,
    {
        if self.read_permission == ClipboardPermission::Denied {
            return Err(ClipboardError::NotAllowed);
        }
        let mut out: Vec<ClipboardItem> = Vec::new();
        let mut i: usize = 0;
        while i < self.items.len()
            invariant
                i <= self.items@.len(),
                out@.map_values(|i: ClipboardItem| i@) == self@.items.take(i as int),
            decreases self.items.len() - i,
        {
            let c = self.items[i].copy();
            let ghost before = out@;
            out.push(c);
            proof {
                lemma_map_push(before, c, |i: ClipboardItem| i@);
                lemma_take_succ(self@.items, i as int);
            }
            i += 1;
        }
        assert(self@.items.take(self.items@.len() as int) =~= self@.items);
        Ok(out)
    }

    /// Read the clipboard as plain text: the first item holding
    /// "text/plain", decoded as UTF-8; empty text when no item holds it.
    pub fn read_text(&self) -> (r: Result<String, ClipboardError>)
        requires
            self.wf(),
        ensures
            self@.read_permission == ClipboardPermission::Denied ==> r == Err::<String, ClipboardError>(
                ClipboardError::NotAllowed,
            ),
            self@.read_permission != ClipboardPermission::Denied ==> match first_plain_text(self@.items) {
                None => r is Ok && r->Ok_0@ == Seq::<char>::empty(),
                Some(d) => if valid_utf8(d) {
                    r is Ok && r->Ok_0@ == decode_utf8(d)
                } else {
                    r == Err::<String, ClipboardError>(ClipboardError::InvalidData)
                },
            },
    {
        if self.read_permission == ClipboardPermission::Denied {
            return Err(ClipboardError::NotAllowed);
        }
        let ghost items = self@.items;
        assert(items.skip(0) =~= items);
        let mut i: usize = 0;
        while i < self.items.len()
            invariant
                i <= self.items@.len(),
                self.wf(),
                self@.read_permission != ClipboardPermission::Denied,
                items == self@.items,
                first_plain_text(items) == first_plain_text(items.skip(i as int)),
            decreases self.items.len() - i,
        {
            assert(items.skip(i as int)[0] == items[i as int]);
            assert(items.skip(i as int).drop_first() =~= items.skip(i + 1));
            assert(items[i as int] == self.items@[i as int]@);
            match self.items[i].get_type("text/plain") {
                Some(data) => {
                    let bytes = copy_bytes(data);
                    return match utf8_decode(bytes) {
                        Some(s) => Ok(s),
                        None => Err(ClipboardError::InvalidData),
                    };
                },
                None => {},
            }
            i += 1;
        }
        assert(items.skip(self.items@.len() as int).len() == 0);
        Ok(String::new())
    }

    /// Replace the clipboard items.
    pub fn write(&mut self, new_items: Vec<ClipboardItem>) -> (r: Result<(), ClipboardError>)
        requires
            old(self).wf(),
            forall|i: int| 0 <= i < new_items@.len() ==> (#[trigger] new_items@[i]).wf(),
        ensures
            final(self).wf(),
            old(self)@.write_permission == ClipboardPermission::Denied ==> r == Err::<(), ClipboardError>(
                ClipboardError::NotAllowed,
            ) && final(self)@ == old(self)@,
            old(self)@.write_permission != ClipboardPermission::Denied ==> r is Ok && final(self)@ == (
            ClipboardView { items: new_items@.map_values(|i: ClipboardItem| i@), ..old(self)@ }),
    {
        if self.write_permission == ClipboardPermission::Denied {
            return Err(ClipboardError::NotAllowed);
        }
        self.items = new_items;
        Ok(())
    }

    /// Write plain text to the clipboard as a single "text/plain" item.
    pub fn write_text(&mut self, text: &str) -> (r: Result<(), ClipboardError>)
        requires
            old(self).wf(),
        ensures
            final(self).wf(),
            old(self)@.write_permission == ClipboardPermission::Denied ==> r == Err::<(), ClipboardError>(
                ClipboardError::NotAllowed,
            ) && final(self)@ == old(self)@,
            old(self)@.write_permission != ClipboardPermission::Denied ==> r is Ok && final(self)@ == (
            ClipboardView { items: seq![seq![("text/plain"@, encode_utf8(text@))]], ..old(self)@ }),
    {
        if self.write_permission == ClipboardPermission::Denied {
            return Err(ClipboardError::NotAllowed);
        }
        let item = ClipboardItem::new("text/plain", str_to_bytes(text));
        self.items = vec![item];
        assert(self@.items =~= seq![seq![("text/plain"@, encode_utf8(text@))]]);
        Ok(())
    }

    /// Clear the clipboard (permissions are not checked).
    pub fn clear(&mut self) -> (r: Result<(), ClipboardError>)
        requires
            old(self).wf(),
        ensures
            final(self).wf(),
            r is Ok,
            final(self)@ == (ClipboardView { items: Seq::empty(), ..old(self)@ }),
    {
        self.items.clear();
        assert(self@.items =~= Seq::<Seq<(Seq<char>, Seq<u8>)>>::empty());
        Ok(())
    }
}

/// Writing text and reading it back gives the same text while both
/// permissions allow it.
pub proof fn law_write_then_read_text(text: Seq<char>)
    ensures
        first_plain_text(seq![seq![("text/plain"@, encode_utf8(text))]]) == Some(encode_utf8(text)),
        valid_utf8(encode_utf8(text)),
        decode_utf8(encode_utf8(text)) == text,
{
    let items = seq![seq![("text/plain"@, encode_utf8(text))]];
    assert(lookup(items[0], "text/plain"@) == Some(encode_utf8(text)));
    vstd::utf8::encode_utf8_valid_utf8(text);
    vstd::utf8::encode_utf8_decode_utf8(text);
}

/// The `effectAllowed` property of a DataTransfer.
#[derive(Debug, Clone, Copy, PartialEq, Eq, Default, Structural)]
pub enum EffectAllowed {
    #[default]
    Uninitialized,
    NoEffect,
    Copy,
    CopyLink,
    CopyMove,
    Link,
    LinkMove,
    Move,
    All,
}

/// The `dropEffect` property of a DataTransfer.
#[derive(Debug, Clone, Copy, PartialEq, Eq, Default, Structural)]
pub enum DropEffect {
    #[default]
    NoEffect,
    Copy,
    Link,
    Move,
}

/// The kind of a DataTransferItem.
#[derive(Debug, Clone, Copy, PartialEq, Eq, Structural)]
pub enum DataTransferItemKind {
    String,
    File,
}

/// A single item in a DataTransfer.
#[derive(Debug)]
pub struct DataTransferItem {
    pub kind: DataTransferItemKind,
    pub mime_type: String,
    pub data: Vec<u8>,
}

impl DataTransferItem {
    /// A string item.
    pub fn string(mime_type: &str, data: &str) -> (r: Self)
        ensures
            r.kind == DataTransferItemKind::String,
            r.mime_type@ == mime_type@,
            r.data@ == encode_utf8(data@),
    {
        DataTransferItem { kind: DataTransferItemKind::String, mime_type: mime_type.to_owned(), data: str_to_bytes(data) }
    }

    /// A file item.
    pub fn file(mime_type: &str, data: Vec<u8>) -> (r: Self)
        ensures
            r.kind == DataTransferItemKind::File,
            r.mime_type@ == mime_type@,
            r.data == data,
    {
        DataTransferItem { kind: DataTransferItemKind::File, mime_type: mime_type.to_owned(), data }
    }

    /// The string data of a string item whose bytes are valid UTF-8.
    pub fn as_string(&self) -> (r: Option<String>)
        ensures
            (self.kind == DataTransferItemKind::String && valid_utf8(self.data@)) ==> r is Some && r->0@ == decode_utf8(self.data@),
            !(self.kind == DataTransferItemKind::String && valid_utf8(self.data@)) ==> r is None,
    {
        if self.kind == DataTransferItemKind::String {
            utf8_decode(copy_bytes(self.data.as_slice()))
        } else {
            None
        }
    }
}

/// The data carrier for clipboard and drag-and-drop events.
#[derive(Debug, Default)]
pub struct DataTransfer {
    pub drop_effect: DropEffect,
    pub effect_allowed: EffectAllowed,
    items: Vec<DataTransferItem>,
}

/// The string data for a MIME type: the first string item with it, decoded
/// (empty when there is none or its bytes are not valid UTF-8).
pub open spec fn string_data(items: Seq<DataTransferItem>, mime: Seq<char>) -> Seq<char>
    decreases items.len(),
{
    if items.len() == 0 {
        Seq::empty()
    } else if items[0].mime_type@ == mime && items[0].kind == DataTransferItemKind::String {
        if valid_utf8(items[0].data@) { decode_utf8(items[0].data@) } else { Seq::empty() }
    } else {
        string_data(items.drop_first(), mime)
    }
}

impl DataTransfer {
    /// The drop effect and the allowed effects.
    pub closed spec fn effects(&self) -> (DropEffect, EffectAllowed) {
        (self.drop_effect, self.effect_allowed)
    }

    /// The items, in order.
    pub closed spec fn item_seq(&self) -> Seq<DataTransferItem> {
        self.items@
    }

    /// An empty DataTransfer with default effects.
    pub fn new() -> (d: Self)
        ensures
            d.item_seq().len() == 0,
            d.effects() == (DropEffect::NoEffect, EffectAllowed::Uninitialized),
    {
        DataTransfer { drop_effect: DropEffect::NoEffect, effect_allowed: EffectAllowed::Uninitialized, items: Vec::new() }
    }

    /// The items.
    pub fn items(&self) -> (r: &[DataTransferItem])
        ensures
            r@ == self.item_seq(),
    {
        self.items.as_slice()
    }

    /// Number of items.
    pub fn length(&self) -> (r: usize)
        ensures
            r == self.item_seq().len(),
    {
        self.items.len()
    }

    /// Remove the items of a MIME type, keeping the order of the rest.
    fn remove_type(&mut self, mime_type: &str)
        ensures
            final(self).item_seq() == old(self).item_seq().filter(|i: DataTransferItem| i.mime_type@ != mime_type@),
            final(self).effects() == old(self).effects(),
    {
        let ghost pred = |i: DataTransferItem| i.mime_type@ != mime_type@;
        let mut all: Vec<DataTransferItem> = Vec::new();
        std::mem::swap(&mut all, &mut self.items);
        let ghost allv = all@;
        let total = all.len();
        let mut kept: Vec<DataTransferItem> = Vec::new();
        let mut n: usize = 0;
        while all.len() > 0
            invariant
                allv.len() == total,
                pred == (|i: DataTransferItem| i.mime_type@ != mime_type@),
                all@ == allv.skip(n as int),
                n <= allv.len(),
                kept@ == allv.take(n as int).filter(pred),
            decreases all.len(),
        {
            let c = all.remove(0);
            assert(c == allv[n as int]) by {
                assert(allv.skip(n as int)[0] == allv[n as int]);
            }
            assert(all@ =~= allv.skip(n + 1));
            assert(allv.take(n + 1).drop_last() =~= allv.take(n as int));
            assert(allv.take(n + 1).last() == allv[n as int]);
            reveal_with_fuel(Seq::filter, 1);
            if !str_eq(c.mime_type.as_str(), mime_type) {
                kept.push(c);
            }
            n += 1;
        }
        assert(allv.take(total as int) =~= allv);
        self.items = kept;
    }

    /// Set string data, replacing any item of the same MIME type.
    pub fn set_data(&mut self, mime_type: &str, data: &str)
        ensures
            final(self).item_seq().drop_last() == old(self).item_seq().filter(
                |i: DataTransferItem| i.mime_type@ != mime_type@,
            ),
            final(self).item_seq().len() > 0,
            final(self).item_seq().last().kind == DataTransferItemKind::String,
            final(self).item_seq().last().mime_type@ == mime_type@,
            final(self).item_seq().last().data@ == encode_utf8(data@),
            final(self).effects() == old(self).effects(),
    {
        self.remove_type(mime_type);
        let ghost before = self.items@;
        self.items.push(DataTransferItem::string(mime_type, data));
        assert(self.items@.drop_last() =~= before);
    }

    /// The string data of the first string item of a MIME type, or empty.
    pub fn get_data(&self, mime_type: &str) -> (r: String)
        ensures
            r@ == string_data(self.item_seq(), mime_type@),
    {
        let ghost items = self.items@;
        assert(items.skip(0) =~= items);
        let mut i: usize = 0;
        while i < self.items.len()
            invariant
                i <= items.len(),
                items == self.items@,
                string_data(items, mime_type@) == string_data(items.skip(i as int), mime_type@),
            decreases self.items.len() - i,
        {
            assert(items.skip(i as int)[0] == items[i as int]);
            assert(items.skip(i as int).drop_first() =~= items.skip(i + 1));
            let item = &self.items[i];
            if str_eq(item.mime_type.as_str(), mime_type) && item.kind == DataTransferItemKind::String {
                return match item.as_string() {
                    Some(s) => s,
                    None => String::new(),
                };
            }
            i += 1;
        }
        assert(items.skip(items.len() as int).len() == 0);
        String::new()
    }

    /// Remove the items of a MIME type, or all items.
    pub fn clear_data(&mut self, mime_type: Option<&str>)
        ensures
            mime_type matches Some(m) ==> final(self).item_seq() == old(self).item_seq().filter(
                |i: DataTransferItem| i.mime_type@ != m@,
            ),
            mime_type is None ==> final(self).item_seq().len() == 0,
            final(self).effects() == old(self).effects(),
    {
        match mime_type {
            Some(m) => self.remove_type(m),
            None => self.items.clear(),
        }
    }

    /// Add a file item.
    pub fn add_file(&mut self, mime_type: &str, data: Vec<u8>)
        ensures
            final(self).item_seq().drop_last() == old(self).item_seq(),
            final(self).item_seq().len() == old(self).item_seq().len() + 1,
            final(self).item_seq().last().kind == DataTransferItemKind::File,
            final(self).item_seq().last().mime_type@ == mime_type@,
            final(self).item_seq().last().data == data,
            final(self).effects() == old(self).effects(),
    {
        self.items.push(DataTransferItem::file(mime_type, data));
        assert(self.items@.drop_last() =~= old(self).items@);
    }

    /// All file items, in order.
    pub fn files(&self) -> (r: Vec<&DataTransferItem>)
        ensures
            r@.map_values(|i: &DataTransferItem| *i) == self.item_seq().filter(
                |i: DataTransferItem| i.kind == DataTransferItemKind::File,
            ),
    {
        let ghost pred = |i: DataTransferItem| i.kind == DataTransferItemKind::File;
        let mut r: Vec<&DataTransferItem> = Vec::new();
        let mut i: usize = 0;
        while i < self.items.len()
            invariant
                i <= self.items@.len(),
                pred == (|i: DataTransferItem| i.kind == DataTransferItemKind::File),
                r@.map_values(|i: &DataTransferItem| *i) == self.items@.take(i as int).filter(pred),
            decreases self.items.len() - i,
        {
            let item = &self.items[i];
            let ghost before = r@;
            if item.kind == DataTransferItemKind::File {
                r.push(item);
                assert(r@.map_values(|i: &DataTransferItem| *i) =~= before.map_values(|i: &DataTransferItem| *i).push(*item));
            }
            assert(self.items@.take(i + 1).drop_last() =~= self.items@.take(i as int));
            assert(self.items@.take(i + 1).last() == self.items@[i as int]);
            reveal_with_fuel(Seq::filter, 1);
            i += 1;
        }
        assert(self.items@.take(self.items@.len() as int) =~= self.items@);
        r
    }

    /// The MIME types of all items, in order.
    pub fn types(&self) -> (r: Vec<&str>)
        ensures
            r@.map_values(|s: &str| s@) == self.item_seq().map_values(|i: DataTransferItem| i.mime_type@),
    {
        let mut r: Vec<&str> = Vec::new();
        let mut i: usize = 0;
        while i < self.items.len()
            invariant
                i <= self.items@.len(),
                r@.map_values(|s: &str| s@) == self.items@.map_values(|i: DataTransferItem| i.mime_type@).take(i as int),
            decreases self.items.len() - i,
        {
            let m = self.items[i].mime_type.as_str();
            let ghost before = r@;
            r.push(m);
            proof {
                lemma_map_push(before, m, |s: &str| s@);
                lemma_map_take(self.items@, i as int, |i: DataTransferItem| i.mime_type@);
                lemma_map_take(self.items@, i + 1, |i: DataTransferItem| i.mime_type@);
                lemma_take_succ(self.items@, i as int);
                lemma_map_push(self.items@.take(i as int), self.items@[i as int], |i: DataTransferItem| i.mime_type@);
            }
            i += 1;
        }
        assert(self.items@.map_values(|i: DataTransferItem| i.mime_type@).take(self.items@.len() as int) =~= self.items@.map_values(|i: DataTransferItem| i.mime_type@));
        r
    }
}

} // verus!
