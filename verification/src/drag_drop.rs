//! HTML drag and drop: effects, the drag data store, drag event types, and
//! the controller that runs a drag session. Pointer coordinates are the
//! application's: the controller's events carry everything else.
use vstd::prelude::*;
use crate::text::{str_eq, to_lowercase, unicode_lower};
pub use crate::node::VexId;

verus! {

// ── DropEffect / EffectAllowed ───────────────────────────────────────────────

/// The feedback of a drag operation.
#[derive(Debug, Clone, Copy, PartialEq, Eq, Default, Structural)]
pub enum DropEffect {
    #[default]
    NoEffect,
    Copy,
    Move,
    Link,
}

/// The name of a drop effect.
pub open spec fn drop_effect_name(e: DropEffect) -> Seq<char> {
    match e {
        DropEffect::NoEffect => "none"@,
        DropEffect::Copy => "copy"@,
        DropEffect::Move => "move"@,
        DropEffect::Link => "link"@,
    }
}

impl DropEffect {
    /// The effect a name gives; `none` for an unknown name.
    pub fn parse(s: &str) -> (r: Self)
        ensures
            drop_effect_name(r) == s@ || (r == DropEffect::NoEffect && forall|e: DropEffect|
                drop_effect_name(e) != s@),
    {
        if str_eq(s, "copy") {
            DropEffect::Copy
        } else if str_eq(s, "move") {
            DropEffect::Move
        } else if str_eq(s, "link") {
            DropEffect::Link
        } else if str_eq(s, "none") {
            DropEffect::NoEffect
        } else {
            assert forall|e: DropEffect| drop_effect_name(e) != s@ by {
                match e {
                    DropEffect::NoEffect => {},
                    DropEffect::Copy => {},
                    DropEffect::Move => {},
                    DropEffect::Link => {},
                }
            }
            DropEffect::NoEffect
        }
    }

    /// The name.
    pub fn as_str(&self) -> (r: &'static str)
        ensures
            r@ == drop_effect_name(*self),
    {
        match self {
            DropEffect::NoEffect => "none",
            DropEffect::Copy => "copy",
            DropEffect::Move => "move",
            DropEffect::Link => "link",
        }
    }
}

/// The operations a drag source allows.
#[derive(Debug, Clone, Copy, PartialEq, Eq, Default, Structural)]
pub enum EffectAllowed {
    NoEffect,
    Copy,
    CopyLink,
    CopyMove,
    Link,
    LinkMove,
    Move,
    #[default]
    All,
    Uninitialized,
}

/// The name of an allowed-effect value.
pub open spec fn effect_allowed_name(e: EffectAllowed) -> Seq<char> {
    match e {
        EffectAllowed::NoEffect => "none"@,
        EffectAllowed::Copy => "copy"@,
        EffectAllowed::CopyLink => "copyLink"@,
        EffectAllowed::CopyMove => "copyMove"@,
        EffectAllowed::Link => "link"@,
        EffectAllowed::LinkMove => "linkMove"@,
        EffectAllowed::Move => "move"@,
        EffectAllowed::All => "all"@,
        EffectAllowed::Uninitialized => "uninitialized"@,
    }
}

/// Whether an allowed-effect value permits a drop effect (`none` always is).
pub open spec fn permits(a: EffectAllowed, e: DropEffect) -> bool {
    match a {
        EffectAllowed::NoEffect => e == DropEffect::NoEffect,
        EffectAllowed::Copy => e == DropEffect::Copy || e == DropEffect::NoEffect,
        EffectAllowed::Move => e == DropEffect::Move || e == DropEffect::NoEffect,
        EffectAllowed::Link => e == DropEffect::Link || e == DropEffect::NoEffect,
        EffectAllowed::CopyLink => e == DropEffect::Copy || e == DropEffect::Link || e == DropEffect::NoEffect,
        EffectAllowed::CopyMove => e == DropEffect::Copy || e == DropEffect::Move || e == DropEffect::NoEffect,
        EffectAllowed::LinkMove => e == DropEffect::Link || e == DropEffect::Move || e == DropEffect::NoEffect,
        EffectAllowed::All | EffectAllowed::Uninitialized => true,
    }
}

impl EffectAllowed {
    /// The value a name gives; `all` for an unknown name.
    pub fn parse(s: &str) -> (r: Self)
        ensures
            effect_allowed_name(r) == s@ || (r == EffectAllowed::All && forall|e: EffectAllowed|
                effect_allowed_name(e) != s@),
    {
        if str_eq(s, "none") {
            EffectAllowed::NoEffect
        } else if str_eq(s, "copy") {
            EffectAllowed::Copy
        } else if str_eq(s, "copyLink") {
            EffectAllowed::CopyLink
        } else if str_eq(s, "copyMove") {
            EffectAllowed::CopyMove
        } else if str_eq(s, "link") {
            EffectAllowed::Link
        } else if str_eq(s, "linkMove") {
            EffectAllowed::LinkMove
        } else if str_eq(s, "move") {
            EffectAllowed::Move
        } else if str_eq(s, "all") {
            EffectAllowed::All
        } else if str_eq(s, "uninitialized") {
            EffectAllowed::Uninitialized
        } else {
            assert forall|e: EffectAllowed| effect_allowed_name(e) != s@ by {
                match e {
                    EffectAllowed::NoEffect => {},
                    EffectAllowed::Copy => {},
                    EffectAllowed::CopyLink => {},
                    EffectAllowed::CopyMove => {},
                    EffectAllowed::Link => {},
                    EffectAllowed::LinkMove => {},
                    EffectAllowed::Move => {},
                    EffectAllowed::All => {},
                    EffectAllowed::Uninitialized => {},
                }
            }
            EffectAllowed::All
        }
    }

    /// The name.
    pub fn as_str(&self) -> (r: &'static str)
        ensures
            r@ == effect_allowed_name(*self),
    {
        match self {
            EffectAllowed::NoEffect => "none",
            EffectAllowed::Copy => "copy",
            EffectAllowed::CopyLink => "copyLink",
            EffectAllowed::CopyMove => "copyMove",
            EffectAllowed::Link => "link",
            EffectAllowed::LinkMove => "linkMove",
            EffectAllowed::Move => "move",
            EffectAllowed::All => "all",
            EffectAllowed::Uninitialized => "uninitialized",
        }
    }

    /// Whether this value permits a drop effect.
    pub fn allows(&self, effect: DropEffect) -> (r: bool)
        ensures
            r == permits(*self, effect),
    {
        match self {
            EffectAllowed::NoEffect => effect == DropEffect::NoEffect,
            EffectAllowed::Copy => effect == DropEffect::Copy || effect == DropEffect::NoEffect,
            EffectAllowed::Move => effect == DropEffect::Move || effect == DropEffect::NoEffect,
            EffectAllowed::Link => effect == DropEffect::Link || effect == DropEffect::NoEffect,
            EffectAllowed::CopyLink => effect == DropEffect::Copy || effect == DropEffect::Link || effect
                == DropEffect::NoEffect,
            EffectAllowed::CopyMove => effect == DropEffect::Copy || effect == DropEffect::Move || effect
                == DropEffect::NoEffect,
            EffectAllowed::LinkMove => effect == DropEffect::Link || effect == DropEffect::Move || effect
                == DropEffect::NoEffect,
            EffectAllowed::All | EffectAllowed::Uninitialized => true,
        }
    }
}

// ── Items and the data store ─────────────────────────────────────────────────

/// The kind of a drag item.
#[derive(Debug, Clone, Copy, PartialEq, Eq, Structural)]
pub enum DataTransferItemKind {
    String,
    File,
}

/// One item of the drag data store.
#[derive(Debug, Clone)]
pub struct DataTransferItem {
    pub kind: DataTransferItemKind,
    pub mime_type: String,
    pub data: String,
}

/// The value of an item.
pub struct ItemView {
    pub kind: DataTransferItemKind,
    pub mime_type: Seq<char>,
    pub data: Seq<char>,
}

impl View for DataTransferItem {
    type V = ItemView;

    open spec fn view(&self) -> ItemView {
        ItemView { kind: self.kind, mime_type: self.mime_type@, data: self.data@ }
    }
}

impl DataTransferItem {
    /// A string item; its MIME type is lowercased.
    pub fn new_string(mime_type: &str, data: &str) -> (r: Self)
        ensures
            r@ == (ItemView { kind: DataTransferItemKind::String, mime_type: unicode_lower(mime_type@), data: data@ }),
    {
        DataTransferItem { kind: DataTransferItemKind::String, mime_type: to_lowercase(mime_type), data: data.to_owned() }
    }

    /// A file item holding a file name.
    pub fn new_file(name: &str) -> (r: Self)
        ensures
            r@ == (ItemView {
                kind: DataTransferItemKind::File,
                mime_type: "application/octet-stream"@,
                data: name@,
            }),
    {
        DataTransferItem {
            kind: DataTransferItemKind::File,
            mime_type: "application/octet-stream".to_owned(),
            data: name.to_owned(),
        }
    }

    /// A copy of the item.
    pub fn copy(&self) -> (r: Self)
        ensures
            r@ == self@,
    {
        DataTransferItem { kind: self.kind, mime_type: self.mime_type.clone(), data: self.data.clone() }
    }
}

/// What may be done with the data store.
#[derive(Debug, Clone, Copy, PartialEq, Eq, Default, Structural)]
pub enum DragDataStoreMode {
    /// The source can change the data (during dragstart).
    #[default]
    ReadWrite,
    /// The data can be read but not changed (during drop).
    ReadOnly,
    /// The types are visible but not the data (during drag events).
    Protected,
}

/// The items of a drag operation.
#[derive(Debug, Clone, Default)]
pub struct DragDataStore {
    items: Vec<DataTransferItem>,
    mode: DragDataStoreMode,
}

/// The value of a data store.
pub struct StoreView {
    pub items: Seq<ItemView>,
    pub mode: DragDataStoreMode,
}

impl View for DragDataStore {
    type V = StoreView;

    closed spec fn view(&self) -> StoreView {
        StoreView { items: self.items@.map_values(|i: DataTransferItem| i@), mode: self.mode }
    }
}

/// `i` is the first position of an item of a MIME type.
pub open spec fn first_item(s: Seq<ItemView>, mime: Seq<char>, i: int) -> bool {
    0 <= i < s.len() && s[i].mime_type == mime && forall|j: int| 0 <= j < i ==> s[j].mime_type != mime
}

/// Whether some item has a MIME type.
pub open spec fn has_item(s: Seq<ItemView>, mime: Seq<char>) -> bool {
    exists|i: int| 0 <= i < s.len() && s[i].mime_type == mime
}

/// A sequence without runs of equal neighbours (`Vec::dedup`).
pub open spec fn dedup(s: Seq<Seq<char>>) -> Seq<Seq<char>>
    decreases s.len(),
{
    if s.len() <= 1 {
        s
    } else if s[s.len() - 1] == s[s.len() - 2] {
        dedup(s.drop_last())
    } else {
        dedup(s.drop_last()).push(s.last())
    }
}

/// The last element of `dedup` is the last element.
pub proof fn lemma_dedup_last(s: Seq<Seq<char>>)
    requires
        s.len() > 0,
    ensures
        dedup(s).len() > 0,
        dedup(s).last() == s.last(),
    decreases s.len(),
{
    if s.len() > 1 && s[s.len() - 1] == s[s.len() - 2] {
        lemma_dedup_last(s.drop_last());
    }
}

impl DragDataStore {
    /// An empty, writable store.
    pub fn new() -> (r: Self)
        ensures
            r@.items == Seq::<ItemView>::empty(),
            r@.mode == DragDataStoreMode::ReadWrite,
    {
        let r = DragDataStore { items: Vec::new(), mode: DragDataStoreMode::ReadWrite };
        assert(r@.items =~= Seq::<ItemView>::empty());
        r
    }

    fn position(&self, mime: &str) -> (r: Option<usize>)
        ensures
            r matches Some(i) ==> first_item(self@.items, mime@, i as int),
            r is None ==> !has_item(self@.items, mime@),
    {
        let n = self.items.len();
        let mut i: usize = 0;
        while i < n
            invariant
                n == self.items@.len(),
                i <= n,
                forall|j: int| 0 <= j < i ==> self@.items[j].mime_type != mime@,
            decreases n - i,
        {
            if str_eq(self.items[i].mime_type.as_str(), mime) {
                return Some(i);
            }
            i += 1;
        }
        None
    }

    /// Sets the data of a MIME type (lowercased): the first item of that type
    /// gets it, or a new string item is added. Only a writable store changes.
    pub fn set_data(&mut self, mime_type: &str, data: &str) -> (r: bool)
        ensures
            r == (old(self)@.mode == DragDataStoreMode::ReadWrite),
            !r ==> final(self)@ == old(self)@,
            final(self)@.mode == old(self)@.mode,
            r && has_item(old(self)@.items, unicode_lower(mime_type@)) ==> exists|i: int|
                first_item(old(self)@.items, unicode_lower(mime_type@), i) && final(self)@.items
                    == old(self)@.items.update(i, ItemView { data: data@, ..old(self)@.items[i] }),
            r && !has_item(old(self)@.items, unicode_lower(mime_type@)) ==> final(self)@.items
                == old(self)@.items.push(
                ItemView {
                    kind: DataTransferItemKind::String,
                    mime_type: unicode_lower(mime_type@),
                    data: data@,
                },
            ),
            r ==> exists|i: int|
                first_item(final(self)@.items, unicode_lower(mime_type@), i) && final(self)@.items[i].data
                    == data@,
    {
        if self.mode != DragDataStoreMode::ReadWrite {
            return false;
        }
        let lower = to_lowercase(mime_type);
        let ghost before = self.items@;
        match self.position(lower.as_str()) {
            Some(i) => {
                let mut item = self.items.remove(i);
                item.data = data.to_owned();
                self.items.insert(i, item);
                assert(self.items@ =~= before.update(i as int, item));
                assert(self@.items =~= before.map_values(|x: DataTransferItem| x@).update(
                    i as int,
                    ItemView { data: data@, ..before[i as int]@ },
                ));
                assert(forall|j: int| 0 <= j < i ==> self@.items[j] == before[j]@);
                assert(first_item(self@.items, unicode_lower(mime_type@), i as int));
            },
            None => {
                let item = DataTransferItem {
                    kind: DataTransferItemKind::String,
                    mime_type: lower,
                    data: data.to_owned(),
                };
                let ghost iv = item@;
                self.items.push(item);
                assert(self@.items =~= before.map_values(|x: DataTransferItem| x@).push(iv));
                assert(first_item(self@.items, unicode_lower(mime_type@), before.len() as int));
            },
        }
        true
    }

    /// The data of a MIME type (lowercased): that of its first item; none
    /// when the store is protected.
    pub fn get_data(&self, mime_type: &str) -> (r: Option<&str>)
        ensures
            self@.mode == DragDataStoreMode::Protected ==> r is None,
            self@.mode != DragDataStoreMode::Protected ==> (r is None <==> !has_item(
                self@.items,
                unicode_lower(mime_type@),
            )),
            r matches Some(d) ==> exists|i: int|
                first_item(self@.items, unicode_lower(mime_type@), i) && d@ == self@.items[i].data,
    {
        if self.mode == DragDataStoreMode::Protected {
            return None;
        }
        let lower = to_lowercase(mime_type);
        match self.position(lower.as_str()) {
            Some(i) => Some(self.items[i].data.as_str()),
            None => None,
        }
    }

    /// Removes the items of a MIME type (lowercased), when writable;
    /// whether one was removed.
    pub fn clear_data(&mut self, mime_type: &str) -> (r: bool)
        ensures
            final(self)@.mode == old(self)@.mode,
            old(self)@.mode != DragDataStoreMode::ReadWrite ==> !r && final(self)@ == old(self)@,
            old(self)@.mode == DragDataStoreMode::ReadWrite ==> final(self)@.items == old(self)@.items.filter(
                |i: ItemView| i.mime_type != unicode_lower(mime_type@),
            ) && r == has_item(old(self)@.items, unicode_lower(mime_type@)),
    {
        if self.mode != DragDataStoreMode::ReadWrite {
            return false;
        }
        let lower = to_lowercase(mime_type);
        let ghost pred = |i: ItemView| i.mime_type != unicode_lower(mime_type@);
        let ghost allv = self@.items;
        let mut kept: Vec<DataTransferItem> = Vec::new();
        let mut found = false;
        let n = self.items.len();
        let mut i: usize = 0;
        while i < n
            invariant
                n == self.items@.len(),
                i <= n,
                allv == self@.items,
                lower@ == unicode_lower(mime_type@),
                pred == (|i: ItemView| i.mime_type != unicode_lower(mime_type@)),
                kept@.map_values(|x: DataTransferItem| x@) == allv.take(i as int).filter(pred),
                found == exists|j: int| 0 <= j < i && allv[j].mime_type == unicode_lower(mime_type@),
            decreases n - i,
        {
            let it = &self.items[i];
            assert(allv[i as int] == it@);
            let ghost before = kept@;
            if !str_eq(it.mime_type.as_str(), lower.as_str()) {
                kept.push(it.copy());
                assert(kept@.map_values(|x: DataTransferItem| x@) =~= before.map_values(|x: DataTransferItem| x@).push(allv[i as int]));
            } else {
                found = true;
            }
            assert(allv.take(i + 1).drop_last() =~= allv.take(i as int));
            assert(allv.take(i + 1).last() == allv[i as int]);
            reveal_with_fuel(Seq::filter, 1);
            i += 1;
        }
        assert(allv.take(n as int) =~= allv);
        self.items = kept;
        found
    }

    /// Removes every item, when writable; whether it was.
    pub fn clear_all(&mut self) -> (r: bool)
        ensures
            r == (old(self)@.mode == DragDataStoreMode::ReadWrite),
            final(self)@.mode == old(self)@.mode,
            r ==> final(self)@.items == Seq::<ItemView>::empty(),
            !r ==> final(self)@ == old(self)@,
    {
        if self.mode != DragDataStoreMode::ReadWrite {
            return false;
        }
        self.items.clear();
        assert(self@.items =~= Seq::<ItemView>::empty());
        true
    }

    /// Adds a file item, when writable; whether it was.
    pub fn add_file(&mut self, name: &str) -> (r: bool)
        ensures
            r == (old(self)@.mode == DragDataStoreMode::ReadWrite),
            final(self)@.mode == old(self)@.mode,
            r ==> final(self)@.items == old(self)@.items.push(
                ItemView { kind: DataTransferItemKind::File, mime_type: "application/octet-stream"@, data: name@ },
            ),
            !r ==> final(self)@ == old(self)@,
    {
        if self.mode != DragDataStoreMode::ReadWrite {
            return false;
        }
        let ghost before = self.items@;
        let item = DataTransferItem::new_file(name);
        let ghost iv = item@;
        self.items.push(item);
        assert(self@.items =~= before.map_values(|x: DataTransferItem| x@).push(iv));
        true
    }

    /// The MIME types of the items, in order, with runs of the same type
    /// given once.
    pub fn types(&self) -> (r: Vec<String>)
        ensures
            r@.map_values(|s: String| s@) == dedup(self@.items.map_values(|i: ItemView| i.mime_type)),
    {
        let ghost ts = self@.items.map_values(|i: ItemView| i.mime_type);
        let n = self.items.len();
        let mut r: Vec<String> = Vec::new();
        let mut i: usize = 0;
        assert(ts.take(0) =~= Seq::<Seq<char>>::empty());
        while i < n
            invariant
                n == self.items@.len(),
                i <= n,
                ts == self@.items.map_values(|i: ItemView| i.mime_type),
                r@.map_values(|s: String| s@) == dedup(ts.take(i as int)),
            decreases n - i,
        {
            let m = &self.items[i].mime_type;
            assert(ts[i as int] == m@);
            let ghost before = r@.map_values(|s: String| s@);
            assert(ts.take(i + 1).drop_last() =~= ts.take(i as int));
            assert(ts.take(i + 1).last() == m@);
            if i > 0 {
                assert(ts.take(i + 1)[i - 1] == ts[i - 1]);
                proof {
                    lemma_dedup_last(ts.take(i as int));
                    assert(ts.take(i as int).last() == ts[i - 1]);
                }
                let k = r.len();
                assert(k > 0);
                assert(before.last() == r@[k - 1]@);
                if str_eq(r[k - 1].as_str(), m.as_str()) {
                    assert(m@ == ts[i - 1]);
                } else {
                    r.push(m.clone());
                    assert(r@.map_values(|s: String| s@) =~= before.push(m@));
                }
            } else {
                r.push(m.clone());
                assert(r@.map_values(|s: String| s@) =~= seq![m@]);
                assert(ts.take(1) =~= seq![m@]);
            }
            i += 1;
        }
        assert(ts.take(n as int) =~= ts);
        r
    }

    /// The number of items.
    pub fn len(&self) -> (r: usize)
        ensures
            r == self@.items.len(),
    {
        self.items.len()
    }

    /// Whether there are no items.
    pub fn is_empty(&self) -> (r: bool)
        ensures
            r == (self@.items.len() == 0),
    {
        self.items.len() == 0
    }

    /// The items.
    pub fn items(&self) -> (r: &[DataTransferItem])
        ensures
            r@.map_values(|i: DataTransferItem| i@) == self@.items,
    {
        self.items.as_slice()
    }

    /// The file items, in order.
    pub fn files(&self) -> (r: Vec<&DataTransferItem>)
        ensures
            r@.map_values(|i: &DataTransferItem| i@) == self@.items.filter(
                |i: ItemView| i.kind == DataTransferItemKind::File,
            ),
    {
        let ghost pred = |i: ItemView| i.kind == DataTransferItemKind::File;
        let ghost allv = self@.items;
        let n = self.items.len();
        let mut r: Vec<&DataTransferItem> = Vec::new();
        let mut i: usize = 0;
        while i < n
            invariant
                n == self.items@.len(),
                i <= n,
                allv == self@.items,
                pred == (|i: ItemView| i.kind == DataTransferItemKind::File),
                r@.map_values(|x: &DataTransferItem| x@) == allv.take(i as int).filter(pred),
            decreases n - i,
        {
            let it = &self.items[i];
            assert(allv[i as int] == it@);
            let ghost before = r@;
            if it.kind == DataTransferItemKind::File {
                r.push(it);
                assert(r@.map_values(|x: &DataTransferItem| x@) =~= before.map_values(|x: &DataTransferItem| x@).push(allv[i as int]));
            }
            assert(allv.take(i + 1).drop_last() =~= allv.take(i as int));
            assert(allv.take(i + 1).last() == allv[i as int]);
            reveal_with_fuel(Seq::filter, 1);
            i += 1;
        }
        assert(allv.take(n as int) =~= allv);
        r
    }

    /// Sets the mode.
    pub fn set_mode(&mut self, mode: DragDataStoreMode)
        ensures
            final(self)@ == (StoreView { mode, ..old(self)@ }),
    {
        self.mode = mode;
    }
}

// ── Drag events ──────────────────────────────────────────────────────────────

/// The type of a drag event.
#[derive(Debug, Clone, Copy, PartialEq, Eq, Hash, Structural)]
pub enum DragEventType {
    DragStart,
    Drag,
    DragEnter,
    DragOver,
    DragLeave,
    Drop,
    DragEnd,
}

/// The name of a drag event type.
pub open spec fn event_type_name(t: DragEventType) -> Seq<char> {
    match t {
        DragEventType::DragStart => "dragstart"@,
        DragEventType::Drag => "drag"@,
        DragEventType::DragEnter => "dragenter"@,
        DragEventType::DragOver => "dragover"@,
        DragEventType::DragLeave => "dragleave"@,
        DragEventType::Drop => "drop"@,
        DragEventType::DragEnd => "dragend"@,
    }
}

/// Whether events of a type can be cancelled.
pub open spec fn is_cancelable(t: DragEventType) -> bool {
    t == DragEventType::DragStart || t == DragEventType::DragEnter || t == DragEventType::DragOver || t
        == DragEventType::Drop
}

impl DragEventType {
    /// The name.
    pub fn as_str(&self) -> (r: &'static str)
        ensures
            r@ == event_type_name(*self),
    {
        match self {
            DragEventType::DragStart => "dragstart",
            DragEventType::Drag => "drag",
            DragEventType::DragEnter => "dragenter",
            DragEventType::DragOver => "dragover",
            DragEventType::DragLeave => "dragleave",
            DragEventType::Drop => "drop",
            DragEventType::DragEnd => "dragend",
        }
    }

    /// The type a name gives.
    pub fn parse(s: &str) -> (r: Option<Self>)
        ensures
            r matches Some(t) ==> event_type_name(t) == s@,
            r is None ==> forall|t: DragEventType| event_type_name(t) != s@,
    {
        if str_eq(s, "dragstart") {
            Some(DragEventType::DragStart)
        } else if str_eq(s, "drag") {
            Some(DragEventType::Drag)
        } else if str_eq(s, "dragenter") {
            Some(DragEventType::DragEnter)
        } else if str_eq(s, "dragover") {
            Some(DragEventType::DragOver)
        } else if str_eq(s, "dragleave") {
            Some(DragEventType::DragLeave)
        } else if str_eq(s, "drop") {
            Some(DragEventType::Drop)
        } else if str_eq(s, "dragend") {
            Some(DragEventType::DragEnd)
        } else {
            assert forall|t: DragEventType| event_type_name(t) != s@ by {
                match t {
                    DragEventType::DragStart => {},
                    DragEventType::Drag => {},
                    DragEventType::DragEnter => {},
                    DragEventType::DragOver => {},
                    DragEventType::DragLeave => {},
                    DragEventType::Drop => {},
                    DragEventType::DragEnd => {},
                }
            }
            None
        }
    }

    /// Whether events of this type can be cancelled.
    pub fn cancelable(&self) -> (r: bool)
        ensures
            r == is_cancelable(*self),
    {
        match self {
            DragEventType::DragStart | DragEventType::DragEnter | DragEventType::DragOver | DragEventType::Drop => true,
            _ => false,
        }
    }
}


/// A drag event; the pointer position that goes with it is kept by the
/// application.
#[derive(Debug, Clone, Copy, PartialEq, Eq, Structural)]
pub struct DragEvent {
    pub event_type: DragEventType,
    pub target: VexId,
    pub drop_effect: DropEffect,
    pub effect_allowed: EffectAllowed,
    pub default_prevented: bool,
}

/// A fresh event: no drop effect, every effect allowed, not prevented.
pub open spec fn fresh_event(t: DragEventType, target: VexId) -> DragEvent {
    DragEvent {
        event_type: t,
        target,
        drop_effect: DropEffect::NoEffect,
        effect_allowed: EffectAllowed::All,
        default_prevented: false,
    }
}

impl DragEvent {
    /// A fresh event of a type at a target.
    pub fn new(event_type: DragEventType, target: VexId) -> (r: Self)
        ensures
            r == fresh_event(event_type, target),
    {
        DragEvent {
            event_type,
            target,
            drop_effect: DropEffect::NoEffect,
            effect_allowed: EffectAllowed::All,
            default_prevented: false,
        }
    }

    /// Prevents the default action, if the event can be cancelled.
    pub fn prevent_default(&mut self)
        ensures
            *final(self) == (DragEvent {
                default_prevented: old(self).default_prevented || is_cancelable(old(self).event_type),
                ..*old(self)
            }),
    {
        if self.event_type.cancelable() {
            self.default_prevented = true;
        }
    }
}

/// Whether a drag is under way.
#[derive(Debug, Clone, Copy, PartialEq, Eq, Structural)]
pub enum DragPhase {
    /// No drag.
    Idle,
    /// A drag is under way.
    Dragging,
}

/// A drag session: its source, the element under the pointer, the data and
/// effects, the registered drop zones with the types they accept, and the
/// log of events fired.
#[derive(Debug)]
pub struct DragController {
    pub phase: DragPhase,
    pub source: Option<VexId>,
    pub current_target: Option<VexId>,
    pub data_store: DragDataStore,
    pub drop_effect: DropEffect,
    pub effect_allowed: EffectAllowed,
    drop_zones: Vec<(VexId, Vec<String>)>,
    event_log: Vec<(DragEventType, VexId)>,
}

/// The value of a controller.
pub struct ControllerView {
    pub phase: DragPhase,
    pub source: Option<VexId>,
    pub current_target: Option<VexId>,
    pub store: StoreView,
    pub drop_effect: DropEffect,
    pub effect_allowed: EffectAllowed,
    pub zones: Seq<(VexId, Seq<Seq<char>>)>,
    pub log: Seq<(DragEventType, VexId)>,
}

impl View for DragController {
    type V = ControllerView;

    closed spec fn view(&self) -> ControllerView {
        ControllerView {
            phase: self.phase,
            source: self.source,
            current_target: self.current_target,
            store: self.data_store@,
            drop_effect: self.drop_effect,
            effect_allowed: self.effect_allowed,
            zones: self.drop_zones@.map_values(|z: (VexId, Vec<String>)| (z.0, z.1@.map_values(|s: String| s@))),
            log: self.event_log@,
        }
    }
}

/// The types a drop zone accepts, if the element is one.
pub open spec fn zone_types(zones: Seq<(VexId, Seq<Seq<char>>)>, id: VexId) -> Option<Seq<Seq<char>>>
    decreases zones.len(),
{
    if zones.len() == 0 {
        None
    } else if zones[0].0 == id {
        Some(zones[0].1)
    } else {
        zone_types(zones.drop_first(), id)
    }
}

/// Whether a drop on an element is valid: it is a drop zone, and it accepts
/// every type (no list) or one of the types of the dragged items.
pub open spec fn valid_drop(zones: Seq<(VexId, Seq<Seq<char>>)>, items: Seq<ItemView>, target: VexId) -> bool {
    match zone_types(zones, target) {
        None => false,
        Some(acc) => acc.len() == 0 || exists|k: int, j: int|
            0 <= k < acc.len() && 0 <= j < items.len() && acc[k] == items[j].mime_type,
    }
}

/// The events of a pointer move over a target: `drag` on the source, then
/// on a change of target `dragleave` on the old one and `dragenter` on the
/// new one, then `dragover` on the target.
pub open spec fn move_events(src: Option<VexId>, cur: Option<VexId>, target: VexId) -> Seq<(DragEventType, VexId)> {
    let drag = match src {
        Some(s) => seq![(DragEventType::Drag, s)],
        None => Seq::empty(),
    };
    let change = if cur != Some(target) {
        (match cur {
            Some(o) => seq![(DragEventType::DragLeave, o)],
            None => Seq::empty(),
        }) + seq![(DragEventType::DragEnter, target)]
    } else {
        Seq::empty()
    };
    drag + change + seq![(DragEventType::DragOver, target)]
}

/// The type and target of each event.
pub open spec fn kinds(evs: Seq<DragEvent>) -> Seq<(DragEventType, VexId)> {
    evs.map_values(|e: DragEvent| (e.event_type, e.target))
}

/// The controller after a drag ends or is cancelled: idle, with fresh data
/// and effects; drop zones and log kept.
pub open spec fn reset_view(v: ControllerView) -> ControllerView {
    ControllerView {
        phase: DragPhase::Idle,
        source: None,
        current_target: None,
        store: StoreView { items: Seq::empty(), mode: DragDataStoreMode::ReadWrite },
        drop_effect: DropEffect::NoEffect,
        effect_allowed: EffectAllowed::All,
        ..v
    }
}

impl Default for DragController {
    fn default() -> (r: Self)
        ensures
            r.wf(),
            r@ == reset_view(ControllerView { zones: Seq::empty(), log: Seq::empty(), ..r@ }),
    {
        Self::new()
    }
}

impl DragController {
    /// Each element is registered as a drop zone at most once.
    pub open spec fn wf(&self) -> bool {
        forall|i: int, j: int|
            0 <= i < j < self@.zones.len() ==> self@.zones[i].0 != self@.zones[j].0
    }

    /// An idle controller without drop zones.
    pub fn new() -> (r: Self)
        ensures
            r.wf(),
            r@ == reset_view(ControllerView { zones: Seq::empty(), log: Seq::empty(), ..r@ }),
    {
        let r = DragController {
            phase: DragPhase::Idle,
            source: None,
            current_target: None,
            data_store: DragDataStore::new(),
            drop_effect: DropEffect::NoEffect,
            effect_allowed: EffectAllowed::All,
            drop_zones: Vec::new(),
            event_log: Vec::new(),
        };
        assert(r@.zones =~= Seq::<(VexId, Seq<Seq<char>>)>::empty());
        r
    }

    fn zone_position(&self, id: VexId) -> (r: Option<usize>)
        ensures
            r matches Some(i) ==> i < self@.zones.len() && self@.zones[i as int].0 == id && forall|j: int|
                0 <= j < i ==> self@.zones[j].0 != id,
            r is None ==> forall|j: int| 0 <= j < self@.zones.len() ==> self@.zones[j].0 != id,
    {
        let n = self.drop_zones.len();
        let mut i: usize = 0;
        while i < n
            invariant
                n == self.drop_zones@.len(),
                i <= n,
                forall|j: int| 0 <= j < i ==> self@.zones[j].0 != id,
            decreases n - i,
        {
            if self.drop_zones[i].0 == id {
                return Some(i);
            }
            i += 1;
        }
        None
    }

    proof fn lemma_zone_types_at(zones: Seq<(VexId, Seq<Seq<char>>)>, id: VexId, i: int)
        requires
            0 <= i < zones.len(),
            zones[i].0 == id,
            forall|j: int| 0 <= j < i ==> zones[j].0 != id,
        ensures
            zone_types(zones, id) == Some(zones[i].1),
        decreases i,
    {
        if i > 0 {
            Self::lemma_zone_types_at(zones.drop_first(), id, i - 1);
        }
    }

    proof fn lemma_zone_types_none(zones: Seq<(VexId, Seq<Seq<char>>)>, id: VexId)
        requires
            forall|j: int| 0 <= j < zones.len() ==> zones[j].0 != id,
        ensures
            zone_types(zones, id) is None,
        decreases zones.len(),
    {
        if zones.len() > 0 {
            Self::lemma_zone_types_none(zones.drop_first(), id);
        }
    }

    /// Registers an element as a drop zone accepting some MIME types (none
    /// listed: all); a second registration replaces the first.
    pub fn register_drop_zone(&mut self, element_id: VexId, accepted_types: Vec<String>)
        requires
            old(self).wf(),
        ensures
            final(self).wf(),
            zone_types(final(self)@.zones, element_id) == Some(accepted_types@.map_values(|s: String| s@)),
            forall|o: VexId| o != element_id ==> zone_types(final(self)@.zones, o) == zone_types(old(self)@.zones, o),
            final(self)@ == (ControllerView { zones: final(self)@.zones, ..old(self)@ }),
    {
        let ghost z0 = self@.zones;
        let ghost acc = accepted_types@.map_values(|s: String| s@);
        let ghost f = |z: (VexId, Vec<String>)| (z.0, z.1@.map_values(|s: String| s@));
        match self.zone_position(element_id) {
            Some(i) => {
                let ghost before = self.drop_zones@;
                self.drop_zones.remove(i);
                self.drop_zones.insert(i, (element_id, accepted_types));
                assert(self@.zones =~= z0.update(i as int, (element_id, acc)));
                proof {
                    Self::lemma_zone_types_at(self@.zones, element_id, i as int);
                    assert forall|o: VexId| o != element_id implies zone_types(self@.zones, o) == zone_types(z0, o) by {
                        if exists|k: int| 0 <= k < z0.len() && z0[k].0 == o {
                            let k = choose|k: int| 0 <= k < z0.len() && z0[k].0 == o;
                            assert forall|j: int| 0 <= j < k implies z0[j].0 != o by {
                                assert(j != k ==> z0[j].0 != z0[k].0 || j == k);
                            }
                            Self::lemma_zone_types_at(z0, o, k);
                            Self::lemma_zone_types_at(self@.zones, o, k);
                        } else {
                            Self::lemma_zone_types_none(z0, o);
                            assert forall|j: int| 0 <= j < self@.zones.len() implies self@.zones[j].0 != o by {
                                if j != i {
                                    assert(self@.zones[j] == z0[j]);
                                }
                            }
                            Self::lemma_zone_types_none(self@.zones, o);
                        }
                    }
                }
            },
            None => {
                let ghost before = self.drop_zones@;
                let entry = (element_id, accepted_types);
                self.drop_zones.push(entry);
                assert(self@.zones =~= z0.push((element_id, acc)));
                proof {
                    Self::lemma_zone_types_at(self@.zones, element_id, z0.len() as int);
                    assert forall|o: VexId| o != element_id implies zone_types(self@.zones, o) == zone_types(z0, o) by {
                        if exists|k: int| 0 <= k < z0.len() && z0[k].0 == o {
                            let k = choose|k: int| 0 <= k < z0.len() && z0[k].0 == o;
                            Self::lemma_zone_types_at(z0, o, k);
                            Self::lemma_zone_types_at(self@.zones, o, k);
                        } else {
                            Self::lemma_zone_types_none(z0, o);
                            Self::lemma_zone_types_none(self@.zones, o);
                        }
                    }
                }
            },
        }
    }

    /// Removes an element from the drop zones.
    pub fn unregister_drop_zone(&mut self, element_id: VexId)
        requires
            old(self).wf(),
        ensures
            final(self).wf(),
            zone_types(final(self)@.zones, element_id) is None,
            forall|o: VexId| o != element_id ==> zone_types(final(self)@.zones, o) == zone_types(old(self)@.zones, o),
            final(self)@ == (ControllerView { zones: final(self)@.zones, ..old(self)@ }),
    {
        let ghost z0 = self@.zones;
        match self.zone_position(element_id) {
            Some(i) => {
                self.drop_zones.remove(i);
                assert(self@.zones =~= z0.remove(i as int));
                proof {
                    assert forall|j: int| 0 <= j < self@.zones.len() implies self@.zones[j].0 != element_id by {
                        if j < i {
                            assert(self@.zones[j] == z0[j]);
                        } else {
                            assert(self@.zones[j] == z0[j + 1]);
                        }
                    }
                    Self::lemma_zone_types_none(self@.zones, element_id);
                    assert forall|o: VexId| o != element_id implies zone_types(self@.zones, o) == zone_types(z0, o) by {
                        if exists|k: int| 0 <= k < z0.len() && z0[k].0 == o {
                            let k = choose|k: int| 0 <= k < z0.len() && z0[k].0 == o;
                            Self::lemma_zone_types_at(z0, o, k);
                            let k2 = if k < i { k } else { k - 1 };
                            assert(self@.zones[k2] == z0[k]);
                            Self::lemma_zone_types_at(self@.zones, o, k2);
                        } else {
                            Self::lemma_zone_types_none(z0, o);
                            assert forall|j: int| 0 <= j < self@.zones.len() implies self@.zones[j].0 != o by {
                                if j < i {
                                    assert(self@.zones[j] == z0[j]);
                                } else {
                                    assert(self@.zones[j] == z0[j + 1]);
                                }
                            }
                            Self::lemma_zone_types_none(self@.zones, o);
                        }
                    }
                }
            },
            None => {
                proof {
                    Self::lemma_zone_types_none(z0, element_id);
                }
            },
        }
    }

    /// Whether an element is a drop zone.
    pub fn is_drop_zone(&self, element_id: VexId) -> (r: bool)
        requires
            self.wf(),
        ensures
            r == zone_types(self@.zones, element_id) is Some,
    {
        match self.zone_position(element_id) {
            Some(i) => {
                proof {
                    Self::lemma_zone_types_at(self@.zones, element_id, i as int);
                }
                true
            },
            None => {
                proof {
                    Self::lemma_zone_types_none(self@.zones, element_id);
                }
                false
            },
        }
    }

    /// Starts a drag from a source element: dragging, fresh writable data,
    /// no drop effect, every effect allowed; returns the `dragstart` event.
    pub fn drag_start(&mut self, source: VexId) -> (r: DragEvent)
        ensures
            r == fresh_event(DragEventType::DragStart, source),
            final(self)@ == (ControllerView {
                phase: DragPhase::Dragging,
                source: Some(source),
                store: StoreView { items: Seq::empty(), mode: DragDataStoreMode::ReadWrite },
                drop_effect: DropEffect::NoEffect,
                effect_allowed: EffectAllowed::All,
                log: old(self)@.log.push((DragEventType::DragStart, source)),
                ..old(self)@
            }),
    {
        self.phase = DragPhase::Dragging;
        self.source = Some(source);
        self.data_store = DragDataStore::new();
        self.data_store.set_mode(DragDataStoreMode::ReadWrite);
        self.drop_effect = DropEffect::NoEffect;
        self.effect_allowed = EffectAllowed::All;
        self.event_log.push((DragEventType::DragStart, source));
        DragEvent::new(DragEventType::DragStart, source)
    }

    fn fire(&mut self, events: &mut Vec<DragEvent>, t: DragEventType, target: VexId)
        ensures
            final(events)@ == old(events)@.push(fresh_event(t, target)),
            final(self)@ == (ControllerView { log: old(self)@.log.push((t, target)), ..old(self)@ }),
    {
        events.push(DragEvent::new(t, target));
        self.event_log.push((t, target));
    }

    /// The pointer moves over a target during a drag: the data becomes
    /// protected and the move's events are fired (and logged). Without a
    /// drag nothing happens.
    pub fn drag_move(&mut self, target: VexId) -> (r: Vec<DragEvent>)
        ensures
            old(self)@.phase != DragPhase::Dragging ==> r@.len() == 0 && final(self)@ == old(self)@,
            old(self)@.phase == DragPhase::Dragging ==> {
                let evs = move_events(old(self)@.source, old(self)@.current_target, target);
                &&& kinds(r@) == evs
                &&& forall|k: int| 0 <= k < r@.len() ==> #[trigger] r@[k] == fresh_event(r@[k].event_type, r@[k].target)
                &&& final(self)@ == (ControllerView {
                    current_target: Some(target),
                    store: StoreView { mode: DragDataStoreMode::Protected, ..old(self)@.store },
                    log: old(self)@.log + evs,
                    ..old(self)@
                })
            },
    {
        let mut events: Vec<DragEvent> = Vec::new();
        if self.phase != DragPhase::Dragging {
            return events;
        }
        let ghost s0 = self@;
        self.data_store.set_mode(DragDataStoreMode::Protected);
        match self.source {
            Some(src) => {
                self.fire(&mut events, DragEventType::Drag, src);
            },
            None => {},
        }
        let old_target = self.current_target;
        if old_target != Some(target) {
            match old_target {
                Some(o) => {
                    self.fire(&mut events, DragEventType::DragLeave, o);
                },
                None => {},
            }
            self.fire(&mut events, DragEventType::DragEnter, target);
            self.current_target = Some(target);
        }
        self.fire(&mut events, DragEventType::DragOver, target);
        let ghost evs = move_events(s0.source, s0.current_target, target);
        assert(kinds(events@) =~= evs);
        assert(self@.log =~= s0.log + evs);
        events
    }

    fn valid_drop_now(&self, target: VexId) -> (r: bool)
        requires
            self.wf(),
        ensures
            r == valid_drop(self@.zones, self@.store.items, target),
    {
        match self.zone_position(target) {
            None => {
                proof {
                    Self::lemma_zone_types_none(self@.zones, target);
                }
                false
            },
            Some(i) => {
                proof {
                    Self::lemma_zone_types_at(self@.zones, target, i as int);
                }
                let acc = &self.drop_zones[i].1;
                let ghost av = acc@.map_values(|s: String| s@);
                assert(av == self@.zones[i as int].1);
                if acc.len() == 0 {
                    return true;
                }
                let items = self.data_store.items();
                let ghost iv = self@.store.items;
                let mut k: usize = 0;
                while k < acc.len()
                    invariant
                        k <= acc@.len(),
                        av == acc@.map_values(|s: String| s@),
                        zone_types(self@.zones, target) == Some(av),
                        iv == self@.store.items,
                        iv == items@.map_values(|i: DataTransferItem| i@),
                        forall|a: int, j: int| 0 <= a < k && 0 <= j < iv.len() ==> av[a] != iv[j].mime_type,
                    decreases acc.len() - k,
                {
                    let mut j: usize = 0;
                    while j < items.len()
                        invariant
                            k < acc@.len(),
                            j <= items@.len(),
                            av == acc@.map_values(|s: String| s@),
                            zone_types(self@.zones, target) == Some(av),
                            iv == self@.store.items,
                            iv == items@.map_values(|i: DataTransferItem| i@),
                            forall|b: int| 0 <= b < j ==> av[k as int] != iv[b].mime_type,
                        decreases items.len() - j,
                    {
                        if str_eq(acc[k].as_str(), items[j].mime_type.as_str()) {
                            assert(av[k as int] == iv[j as int].mime_type);
                            assert(0 <= k < av.len() && 0 <= j < iv.len());
                            return true;
                        }
                        j += 1;
                    }
                    k += 1;
                }
                false
            },
        }
    }

    fn reset(&mut self)
        ensures
            final(self)@ == reset_view(old(self)@),
    {
        self.phase = DragPhase::Idle;
        self.source = None;
        self.current_target = None;
        self.data_store = DragDataStore::new();
        self.drop_effect = DropEffect::NoEffect;
        self.effect_allowed = EffectAllowed::All;
    }

    /// The pointer is released over a target: on a valid drop a `drop`
    /// event carries the drag's effects; `dragend` goes to the source with
    /// the drop effect (none unless the drop was valid); the controller
    /// becomes idle. Without a drag nothing happens.
    pub fn drag_end(&mut self, target: VexId) -> (r: Vec<DragEvent>)
        requires
            old(self).wf(),
        ensures
            final(self).wf(),
            old(self)@.phase != DragPhase::Dragging ==> r@.len() == 0 && final(self)@ == old(self)@,
            old(self)@.phase == DragPhase::Dragging ==> {
                let valid = valid_drop(old(self)@.zones, old(self)@.store.items, target);
                let drop = if valid {
                    seq![DragEvent {
                        drop_effect: old(self)@.drop_effect,
                        effect_allowed: old(self)@.effect_allowed,
                        ..fresh_event(DragEventType::Drop, target)
                    }]
                } else {
                    Seq::empty()
                };
                let end = match old(self)@.source {
                    Some(s) => seq![DragEvent {
                        drop_effect: if valid { old(self)@.drop_effect } else { DropEffect::NoEffect },
                        ..fresh_event(DragEventType::DragEnd, s)
                    }],
                    None => Seq::empty(),
                };
                &&& r@ == drop + end
                &&& final(self)@ == reset_view(ControllerView { log: old(self)@.log + kinds(drop + end), ..old(self)@ })
            },
    {
        let mut events: Vec<DragEvent> = Vec::new();
        if self.phase != DragPhase::Dragging {
            return events;
        }
        let ghost s0 = self@;
        let valid = self.valid_drop_now(target);
        if valid {
            self.data_store.set_mode(DragDataStoreMode::ReadOnly);
            let mut ev = DragEvent::new(DragEventType::Drop, target);
            ev.drop_effect = self.drop_effect;
            ev.effect_allowed = self.effect_allowed;
            events.push(ev);
            self.event_log.push((DragEventType::Drop, target));
        }
        match self.source {
            Some(src) => {
                let mut ev = DragEvent::new(DragEventType::DragEnd, src);
                ev.drop_effect = if valid {
                    self.drop_effect
                } else {
                    DropEffect::NoEffect
                };
                events.push(ev);
                self.event_log.push((DragEventType::DragEnd, src));
            },
            None => {},
        }
        self.reset();
        assert(self@.log =~= s0.log + kinds(events@));
        events
    }

    /// Cancels the drag: `dragend` on the source with no drop effect (and
    /// logged), and the controller becomes idle. Without a drag nothing
    /// happens.
    pub fn cancel(&mut self) -> (r: Option<DragEvent>)
        ensures
            old(self)@.phase != DragPhase::Dragging ==> r is None && final(self)@ == old(self)@,
            old(self)@.phase == DragPhase::Dragging ==> {
                &&& r == match old(self)@.source {
                    Some(s) => Some(fresh_event(DragEventType::DragEnd, s)),
                    None => None,
                }
                &&& final(self)@ == reset_view(ControllerView {
                    log: match old(self)@.source {
                        Some(s) => old(self)@.log.push((DragEventType::DragEnd, s)),
                        None => old(self)@.log,
                    },
                    ..old(self)@
                })
            },
    {
        if self.phase != DragPhase::Dragging {
            return None;
        }
        let event = match self.source {
            Some(src) => {
                self.event_log.push((DragEventType::DragEnd, src));
                Some(DragEvent::new(DragEventType::DragEnd, src))
            },
            None => None,
        };
        self.reset();
        event
    }

    /// The events fired so far.
    pub fn event_log(&self) -> (r: &[(DragEventType, VexId)])
        ensures
            r@ == self@.log,
    {
        self.event_log.as_slice()
    }

    /// Forgets the events fired so far.
    pub fn clear_log(&mut self)
        ensures
            final(self)@ == (ControllerView { log: Seq::empty(), ..old(self)@ }),
    {
        self.event_log.clear();
    }
}

/// Different allowed-effect values have different names, so parsing the
/// name of a value gives the value.
pub proof fn law_effect_allowed_names_distinct(a: EffectAllowed, b: EffectAllowed)
    ensures
        effect_allowed_name(a) == effect_allowed_name(b) ==> a == b,
{
    reveal_strlit("none");
    reveal_strlit("copy");
    reveal_strlit("copyLink");
    reveal_strlit("copyMove");
    reveal_strlit("link");
    reveal_strlit("linkMove");
    reveal_strlit("move");
    reveal_strlit("all");
    reveal_strlit("uninitialized");
    if effect_allowed_name(a) == effect_allowed_name(b) {
        assert(effect_allowed_name(a).len() == effect_allowed_name(b).len());
        assert(effect_allowed_name(a)[0] == effect_allowed_name(b)[0]);
        assert(effect_allowed_name(a)[4] == effect_allowed_name(b)[4]);
    }
}

/// Different drag event types have different names, so parsing the name
/// of a type gives the type.
pub proof fn law_event_type_names_distinct(a: DragEventType, b: DragEventType)
    ensures
        event_type_name(a) == event_type_name(b) ==> a == b,
{
    reveal_strlit("dragstart");
    reveal_strlit("drag");
    reveal_strlit("dragenter");
    reveal_strlit("dragover");
    reveal_strlit("dragleave");
    reveal_strlit("drop");
    reveal_strlit("dragend");
    if event_type_name(a) == event_type_name(b) {
        assert(event_type_name(a).len() == event_type_name(b).len());
        assert(event_type_name(a)[2] == event_type_name(b)[2]);
        assert(event_type_name(a)[4] == event_type_name(b)[4]);
    }
}

} // verus!
