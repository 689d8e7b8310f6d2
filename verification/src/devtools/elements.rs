//! The elements panel: which nodes of the DOM tree view are expanded,
//! selected or hovered, categories of computed styles, style entries, and
//! the colors of the box model overlay.
use vstd::prelude::*;
use vstd::utf8::{decode_utf8, encode_utf8, encode_utf8_decode_utf8, is_char_boundary};
use crate::node::VexId;
use crate::text::{chars_of, chars_trim, push_char, str_eq, string_from_chars, trim_ws};

verus! {

/// Groups of CSS properties in the computed styles list.
#[derive(Debug, Clone, Copy, PartialEq, Eq, Hash, Structural)]
pub enum StyleCategory {
    /// Margin, padding, border widths.
    BoxModel,
    /// Width, height, min and max.
    Dimensions,
    /// Font, text alignment, line height.
    Typography,
    /// Text, background and border colors.
    Colors,
    /// Display, position, z-index, overflow.
    Layout,
    /// Flex direction, wrapping and alignment.
    Flexbox,
    /// Top, right, bottom, left.
    Positioning,
    /// Opacity, visibility, cursor.
    Visual,
}

/// The heading of a style category.
pub open spec fn category_label(c: StyleCategory) -> Seq<char> {
    match c {
        StyleCategory::BoxModel => "Box Model"@,
        StyleCategory::Dimensions => "Dimensions"@,
        StyleCategory::Typography => "Typography"@,
        StyleCategory::Colors => "Colors"@,
        StyleCategory::Layout => "Layout"@,
        StyleCategory::Flexbox => "Flexbox"@,
        StyleCategory::Positioning => "Positioning"@,
        StyleCategory::Visual => "Visual"@,
    }
}

impl StyleCategory {
    /// The heading of the category.
    pub fn label(self) -> (r: &'static str)
        ensures
            r@ == category_label(self),
    {
        match self {
            StyleCategory::BoxModel => "Box Model",
            StyleCategory::Dimensions => "Dimensions",
            StyleCategory::Typography => "Typography",
            StyleCategory::Colors => "Colors",
            StyleCategory::Layout => "Layout",
            StyleCategory::Flexbox => "Flexbox",
            StyleCategory::Positioning => "Positioning",
            StyleCategory::Visual => "Visual",
        }
    }

    /// All categories, in display order.
    pub fn all() -> (r: Vec<StyleCategory>)
        ensures
            r@ == seq![
                StyleCategory::Layout,
                StyleCategory::Dimensions,
                StyleCategory::BoxModel,
                StyleCategory::Typography,
                StyleCategory::Colors,
                StyleCategory::Flexbox,
                StyleCategory::Positioning,
                StyleCategory::Visual,
            ],
    {
        let r = vec![
            StyleCategory::Layout,
            StyleCategory::Dimensions,
            StyleCategory::BoxModel,
            StyleCategory::Typography,
            StyleCategory::Colors,
            StyleCategory::Flexbox,
            StyleCategory::Positioning,
            StyleCategory::Visual,
        ];
        assert(r@ =~= seq![
            StyleCategory::Layout,
            StyleCategory::Dimensions,
            StyleCategory::BoxModel,
            StyleCategory::Typography,
            StyleCategory::Colors,
            StyleCategory::Flexbox,
            StyleCategory::Positioning,
            StyleCategory::Visual,
        ]);
        r
    }
}

/// One property in the computed styles list.
#[derive(Debug, Clone, PartialEq)]
pub struct StyleEntry {
    /// The property name, such as `margin-top`.
    pub name: &'static str,
    /// The computed value as text.
    pub value: String,
    /// Whether the value was inherited from the parent.
    pub inherited: bool,
}

/// An 8-bit RGBA color.
#[derive(Debug, Clone, Copy, PartialEq, Eq, Structural)]
pub struct Color {
    pub r: u8,
    pub g: u8,
    pub b: u8,
    pub a: u8,
}

/// The colors of the box model overlay, all semi-transparent.
pub struct BoxModelColors;

impl BoxModelColors {
    /// The margin area: orange.
    pub fn margin() -> (c: Color)
        ensures
            c == (Color { r: 255, g: 165, b: 0, a: 80 }),
    {
        Color { r: 255, g: 165, b: 0, a: 80 }
    }

    /// The border area: yellow.
    pub fn border() -> (c: Color)
        ensures
            c == (Color { r: 255, g: 255, b: 0, a: 80 }),
    {
        Color { r: 255, g: 255, b: 0, a: 80 }
    }

    /// The padding area: green.
    pub fn padding() -> (c: Color)
        ensures
            c == (Color { r: 0, g: 200, b: 0, a: 80 }),
    {
        Color { r: 0, g: 200, b: 0, a: 80 }
    }

    /// The content area: blue.
    pub fn content() -> (c: Color)
        ensures
            c == (Color { r: 100, g: 150, b: 255, a: 80 }),
    {
        Color { r: 100, g: 150, b: 255, a: 80 }
    }
}

// ── DOM tree view ────────────────────────────────────────────────────────────

/// The state of the DOM tree view.
#[derive(Debug, Clone, Default)]
pub struct DomTreeState {
    expanded: Vec<VexId>,
    selected: Option<VexId>,
    hovered: Option<VexId>,
    scroll_offset: usize,
}

/// The state of the DOM tree view: the expanded nodes, the selected and
/// hovered nodes, and the first visible row.
pub struct DomTreeView {
    pub expanded: Set<VexId>,
    pub selected: Option<VexId>,
    pub hovered: Option<VexId>,
    pub scroll_offset: usize,
}

impl View for DomTreeState {
    type V = DomTreeView;

    closed spec fn view(&self) -> DomTreeView {
        DomTreeView {
            expanded: self.expanded@.to_set(),
            selected: self.selected,
            hovered: self.hovered,
            scroll_offset: self.scroll_offset,
        }
    }
}

/// The first visible row after scrolling by `delta` rows: the offset as an
/// `i32` plus `delta`, kept between 0 and the last row (0 without rows).
pub open spec fn scrolled(offset: usize, delta: i32, max_rows: usize) -> usize {
    let last: i32 = (if max_rows > 0 { (max_rows - 1) as usize } else { 0usize }) as i32;
    let moved: int = (offset as i32) + delta;
    let low: int = if moved < 0 { 0 } else { moved };
    (if low < last { low } else { last as int }) as usize
}

impl DomTreeState {
    /// No node is expanded twice.
    pub closed spec fn wf(&self) -> bool {
        self.expanded@.no_duplicates()
    }

    /// Nothing expanded, selected or hovered, scrolled to the top.
    pub fn new() -> (r: Self)
        ensures
            r.wf(),
            r@.expanded == Set::<VexId>::empty(),
            r@.selected is None,
            r@.hovered is None,
            r@.scroll_offset == 0,
    {
        let r = DomTreeState { expanded: Vec::new(), selected: None, hovered: None, scroll_offset: 0 };
        assert(r@.expanded =~= Set::<VexId>::empty());
        r
    }

    fn position(&self, node_id: VexId) -> (r: Option<usize>)
        ensures
            r matches Some(i) ==> i < self.expanded@.len() && self.expanded@[i as int] == node_id,
            r is None ==> !self.expanded@.contains(node_id),
    {
        let mut i: usize = 0;
        while i < self.expanded.len()
            invariant
                i <= self.expanded@.len(),
                forall|j: int| 0 <= j < i ==> self.expanded@[j] != node_id,
            decreases self.expanded.len() - i,
        {
            if self.expanded[i] == node_id {
                return Some(i);
            }
            i += 1;
        }
        None
    }

    /// Expands a node.
    pub fn expand(&mut self, node_id: VexId)
        requires
            old(self).wf(),
        ensures
            final(self).wf(),
            final(self)@.expanded == old(self)@.expanded.insert(node_id),
            final(self)@.selected == old(self)@.selected,
            final(self)@.hovered == old(self)@.hovered,
            final(self)@.scroll_offset == old(self)@.scroll_offset,
    {
        if self.position(node_id).is_none() {
            let ghost before = self.expanded@;
            self.expanded.push(node_id);
            proof {
                before.lemma_push_to_set_commute(node_id);
            }
            assert(self.expanded@.no_duplicates()) by {
                assert forall|a: int, b: int| 0 <= a < b < self.expanded@.len() implies self.expanded@[a] != self.expanded@[b] by {
                    if b == before.len() {
                        assert(before.contains(before[a]));
                    }
                }
            }
            assert(self@.expanded =~= old(self)@.expanded.insert(node_id));
        } else {
            assert(self@.expanded =~= old(self)@.expanded.insert(node_id));
        }
    }

    /// Collapses a node.
    pub fn collapse(&mut self, node_id: VexId)
        requires
            old(self).wf(),
        ensures
            final(self).wf(),
            final(self)@.expanded == old(self)@.expanded.remove(node_id),
            final(self)@.selected == old(self)@.selected,
            final(self)@.hovered == old(self)@.hovered,
            final(self)@.scroll_offset == old(self)@.scroll_offset,
    {
        match self.position(node_id) {
            Some(i) => {
                let ghost before = self.expanded@;
                self.expanded.remove(i);
                proof {
                    assert(self.expanded@ =~= before.remove(i as int));
                    assert(self.expanded@.no_duplicates()) by {
                        assert forall|a: int, b: int| 0 <= a < b < self.expanded@.len() implies self.expanded@[a] != self.expanded@[b] by {
                            let a2 = if a < i { a } else { a + 1 };
                            let b2 = if b < i { b } else { b + 1 };
                            assert(before[a2] != before[b2]);
                        }
                    }
                    assert forall|x: VexId| #[trigger] self.expanded@.contains(x) == (before.contains(x) && x != node_id) by {
                        if self.expanded@.contains(x) {
                            let c = choose|c: int| 0 <= c < self.expanded@.len() && self.expanded@[c] == x;
                            let c2 = if c < i { c } else { c + 1 };
                            assert(before[c2] == x);
                        }
                        if before.contains(x) && x != node_id {
                            let c = choose|c: int| 0 <= c < before.len() && before[c] == x;
                            assert(c != i);
                            let c2 = if c < i { c } else { c - 1 };
                            assert(self.expanded@[c2] == x);
                        }
                    }
                }
                assert(self@.expanded =~= old(self)@.expanded.remove(node_id));
            },
            None => {
                assert(self@.expanded =~= old(self)@.expanded.remove(node_id));
            },
        }
    }

    /// Expands a collapsed node, collapses an expanded one.
    pub fn toggle_expand(&mut self, node_id: VexId)
        requires
            old(self).wf(),
        ensures
            final(self).wf(),
            final(self)@.expanded == (if old(self)@.expanded.contains(node_id) {
                old(self)@.expanded.remove(node_id)
            } else {
                old(self)@.expanded.insert(node_id)
            }),
            final(self)@.selected == old(self)@.selected,
            final(self)@.hovered == old(self)@.hovered,
            final(self)@.scroll_offset == old(self)@.scroll_offset,
    {
        if self.is_expanded(node_id) {
            self.collapse(node_id);
        } else {
            self.expand(node_id);
        }
    }

    /// Whether a node is expanded.
    pub fn is_expanded(&self, node_id: VexId) -> (r: bool)
        ensures
            r == self@.expanded.contains(node_id),
    {
        self.position(node_id).is_some()
    }

    /// Expands every ancestor of a node, given from its parent up to the
    /// root, so that the node shows.
    pub fn reveal_node(&mut self, ancestors: &[VexId])
        requires
            old(self).wf(),
        ensures
            final(self).wf(),
            final(self)@.expanded == old(self)@.expanded.union(ancestors@.to_set()),
            final(self)@.selected == old(self)@.selected,
            final(self)@.hovered == old(self)@.hovered,
            final(self)@.scroll_offset == old(self)@.scroll_offset,
    {
        let mut i: usize = 0;
        while i < ancestors.len()
            invariant
                i <= ancestors@.len(),
                self.wf(),
                self@.expanded == old(self)@.expanded.union(ancestors@.take(i as int).to_set()),
                self@.selected == old(self)@.selected,
                self@.hovered == old(self)@.hovered,
                self@.scroll_offset == old(self)@.scroll_offset,
            decreases ancestors.len() - i,
        {
            self.expand(ancestors[i]);
            proof {
                assert(ancestors@.take(i + 1) =~= ancestors@.take(i as int).push(ancestors@[i as int]));
                ancestors@.take(i as int).lemma_push_to_set_commute(ancestors@[i as int]);
            }
            assert(self@.expanded =~= old(self)@.expanded.union(ancestors@.take(i + 1).to_set()));
            i += 1;
        }
        assert(ancestors@.take(ancestors@.len() as int) =~= ancestors@);
    }

    /// Selects a node.
    pub fn select(&mut self, node_id: VexId)
        ensures
            final(self)@.selected == Some(node_id),
            final(self)@.expanded == old(self)@.expanded,
            final(self)@.hovered == old(self)@.hovered,
            final(self)@.scroll_offset == old(self)@.scroll_offset,
            final(self).wf() == old(self).wf(),
    {
        self.selected = Some(node_id);
    }

    /// Clears the selection.
    pub fn deselect(&mut self)
        ensures
            final(self)@.selected is None,
            final(self)@.expanded == old(self)@.expanded,
            final(self)@.hovered == old(self)@.hovered,
            final(self)@.scroll_offset == old(self)@.scroll_offset,
            final(self).wf() == old(self).wf(),
    {
        self.selected = None;
    }

    /// The selected node, if any.
    pub fn selected(&self) -> (r: Option<VexId>)
        ensures
            r == self@.selected,
    {
        self.selected
    }

    /// Sets the hovered node.
    pub fn set_hovered(&mut self, node_id: Option<VexId>)
        ensures
            final(self)@.hovered == node_id,
            final(self)@.expanded == old(self)@.expanded,
            final(self)@.selected == old(self)@.selected,
            final(self)@.scroll_offset == old(self)@.scroll_offset,
            final(self).wf() == old(self).wf(),
    {
        self.hovered = node_id;
    }

    /// The hovered node, if any.
    pub fn hovered(&self) -> (r: Option<VexId>)
        ensures
            r == self@.hovered,
    {
        self.hovered
    }

    /// The first visible row.
    pub fn scroll_offset(&self) -> (r: usize)
        ensures
            r == self@.scroll_offset,
    {
        self.scroll_offset
    }

    /// Sets the first visible row.
    pub fn set_scroll_offset(&mut self, offset: usize)
        ensures
            final(self)@.scroll_offset == offset,
            final(self)@.expanded == old(self)@.expanded,
            final(self)@.selected == old(self)@.selected,
            final(self)@.hovered == old(self)@.hovered,
            final(self).wf() == old(self).wf(),
    {
        self.scroll_offset = offset;
    }

    /// Scrolls by `delta` rows, staying between the first and the last row.
    pub fn scroll_by(&mut self, delta: i32, max_rows: usize)
        requires
            i32::MIN <= (old(self)@.scroll_offset as i32) + delta <= i32::MAX,
        ensures
            final(self)@.scroll_offset == scrolled(old(self)@.scroll_offset, delta, max_rows),
            final(self)@.expanded == old(self)@.expanded,
            final(self)@.selected == old(self)@.selected,
            final(self)@.hovered == old(self)@.hovered,
            final(self).wf() == old(self).wf(),
    {
        let new: i32 = self.scroll_offset as i32 + delta;
        let last: i32 = max_rows.saturating_sub(1) as i32;
        let low: i32 = if new < 0 { 0 } else { new };
        let clamped: i32 = if low < last { low } else { last };
        self.scroll_offset = clamped as usize;
    }
}

// ── The DOM tree rows ────────────────────────────────────────────────────────

/// What a DOM node is, as the tree view reads it.
#[derive(Debug, Clone)]
pub enum TreeNodeKind {
    /// The document itself: it has no row, its children stand in its place.
    Document,
    /// An element with its tag name and its attributes (name, value), in
    /// order.
    Element { tag: String, attributes: Vec<(String, String)> },
    /// A text node.
    Text(String),
    /// A comment.
    Comment(String),
    /// A doctype with its name.
    Doctype(String),
}

/// A DOM node as the tree view reads it: its ID, its kind and its
/// children, in order.
#[derive(Debug, Clone)]
pub struct TreeNode {
    pub id: VexId,
    pub kind: TreeNodeKind,
    pub children: Vec<VexId>,
}

/// One row of the DOM tree view.
#[derive(Debug, Clone, PartialEq)]
pub struct DomTreeRow {
    /// The node the row shows.
    pub node_id: VexId,
    /// Indentation depth (0 = top level).
    pub depth: u32,
    /// The text shown, such as `<div class="main" id="app">`.
    pub label: String,
    /// Whether the node is expanded.
    pub expanded: bool,
    /// Whether the node has children.
    pub has_children: bool,
    /// Whether this is the closing tag row of an expanded element.
    pub is_closing_tag: bool,
}

/// A row as plain values.
pub struct RowView {
    pub node_id: VexId,
    pub depth: nat,
    pub label: Seq<char>,
    pub expanded: bool,
    pub has_children: bool,
    pub is_closing_tag: bool,
}

/// The plain values of a row.
pub open spec fn row_view(r: DomTreeRow) -> RowView {
    RowView {
        node_id: r.node_id,
        depth: r.depth as nat,
        label: r.label@,
        expanded: r.expanded,
        has_children: r.has_children,
        is_closing_tag: r.is_closing_tag,
    }
}

/// The index of the first node with an ID.
pub open spec fn find_node(nodes: Seq<TreeNode>, id: VexId) -> Option<int>
    decreases nodes.len(),
{
    if nodes.len() == 0 {
        None
    } else {
        match find_node(nodes.drop_last(), id) {
            Some(i) => Some(i),
            None => if nodes.last().id == id {
                Some(nodes.len() - 1)
            } else {
                None
            },
        }
    }
}

/// The text of the first `n` bytes of a text's UTF-8 encoding.
pub open spec fn utf8_head(t: Seq<char>, n: int) -> Seq<char> {
    decode_utf8(encode_utf8(t).subrange(0, n))
}

/// ` name="value"` for each attribute with the given name, in order.
pub open spec fn attr_part(attrs: Seq<(String, String)>, name: Seq<char>) -> Seq<char>
    decreases attrs.len(),
{
    if attrs.len() == 0 {
        seq![]
    } else {
        attr_part(attrs.drop_last(), name) + if attrs.last().0@ == name {
            seq![' '] + name + "=\""@ + attrs.last().1@ + "\""@
        } else {
            seq![]
        }
    }
}

/// An element's label: the tag, its `id` attributes, then its `class`
/// attributes.
pub open spec fn element_label(tag: Seq<char>, attrs: Seq<(String, String)>) -> Seq<char> {
    seq!['<'] + tag + attr_part(attrs, "id"@) + attr_part(attrs, "class"@) + seq!['>']
}

/// A text node's label: the trimmed text quoted, cut to 60 bytes and
/// marked with `…`; none for white space only.
pub open spec fn text_label(text: Seq<char>) -> Option<Seq<char>> {
    let t = trim_ws(text);
    if t.len() == 0 {
        None
    } else if encode_utf8(t).len() > 60 {
        Some(seq!['"'] + utf8_head(t, 60) + seq!['…', '"'])
    } else {
        Some(seq!['"'] + t + seq!['"'])
    }
}

/// A comment's label, its text cut to 50 bytes and marked with `…`.
pub open spec fn comment_label(text: Seq<char>) -> Seq<char> {
    if encode_utf8(text).len() > 50 {
        "<!--"@ + utf8_head(text, 50) + "…-->"@
    } else {
        "<!--"@ + text + "-->"@
    }
}

/// The label of a node's row; none for the document and for white-space
/// text.
pub open spec fn node_label(k: TreeNodeKind) -> Option<Seq<char>> {
    match k {
        TreeNodeKind::Document => None,
        TreeNodeKind::Element { tag, attributes } => Some(element_label(tag@, attributes@)),
        TreeNodeKind::Text(t) => text_label(t@),
        TreeNodeKind::Comment(c) => Some(comment_label(c@)),
        TreeNodeKind::Doctype(name) => Some("<!DOCTYPE "@ + name@ + seq!['>']),
    }
}

/// The rows of a node at a depth, at most `fuel` levels deep: the
/// document shows its children in its place; another node shows its row,
/// then (when expanded with children) its children one level deeper, then
/// for an element the closing tag row. A node without a label (white-space
/// text) shows nothing.
pub open spec fn rows_of(
    nodes: Seq<TreeNode>,
    id: VexId,
    depth: nat,
    exp: Set<VexId>,
    fuel: nat,
) -> Seq<RowView>
    decreases fuel, 0nat,
{
    if fuel == 0 {
        seq![]
    } else {
        match find_node(nodes, id) {
            None => seq![],
            Some(i) => {
                let n = nodes[i];
                let has_children = n.children@.len() > 0;
                let expanded = exp.contains(id);
                match n.kind {
                    TreeNodeKind::Document => rows_list(nodes, n.children@, depth, exp, (fuel - 1) as nat),
                    _ => match node_label(n.kind) {
                        None => seq![],
                        Some(label) => {
                            let own = RowView {
                                node_id: id,
                                depth,
                                label,
                                expanded,
                                has_children,
                                is_closing_tag: false,
                            };
                            let inner = if expanded && has_children {
                                rows_list(nodes, n.children@, depth + 1, exp, (fuel - 1) as nat)
                            } else {
                                seq![]
                            };
                            let closing = match n.kind {
                                TreeNodeKind::Element { tag, attributes } => if expanded && has_children {
                                    seq![
                                        RowView {
                                            node_id: id,
                                            depth,
                                            label: "</"@ + tag@ + seq!['>'],
                                            expanded: false,
                                            has_children: false,
                                            is_closing_tag: true,
                                        },
                                    ]
                                } else {
                                    seq![]
                                },
                                _ => seq![],
                            };
                            seq![own] + inner + closing
                        },
                    },
                }
            },
        }
    }
}

/// The rows of a list of nodes, one after the other.
pub open spec fn rows_list(
    nodes: Seq<TreeNode>,
    ids: Seq<VexId>,
    depth: nat,
    exp: Set<VexId>,
    fuel: nat,
) -> Seq<RowView>
    decreases fuel, ids.len(),
{
    if ids.len() == 0 {
        seq![]
    } else {
        rows_list(nodes, ids.drop_last(), depth, exp, fuel) + rows_of(nodes, ids.last(), depth, exp, fuel)
    }
}

/// The rows of the tree view from a root node. A tree of `n` nodes is at
/// most `n` levels deep, so the walk sees all of it.
pub open spec fn visible_rows(nodes: Seq<TreeNode>, root: VexId, exp: Set<VexId>) -> Seq<RowView> {
    rows_of(nodes, root, 0, exp, nodes.len() + 1)
}

/// Whether a text or comment is long enough to be cut and the cut falls
/// inside a character (the view cannot show such a node).
pub open spec fn cut_breaks(k: TreeNodeKind) -> bool {
    match k {
        TreeNodeKind::Text(t) => encode_utf8(trim_ws(t@)).len() > 60 && !is_char_boundary(
            encode_utf8(trim_ws(t@)),
            60,
        ),
        TreeNodeKind::Comment(c) => encode_utf8(c@).len() > 50 && !is_char_boundary(encode_utf8(c@), 50),
        _ => false,
    }
}

/// Whether every node the walk reaches exists and can be shown.
pub open spec fn walk_ok(nodes: Seq<TreeNode>, id: VexId, exp: Set<VexId>, fuel: nat) -> bool
    decreases fuel, 0nat,
{
    if fuel == 0 {
        true
    } else {
        match find_node(nodes, id) {
            None => false,
            Some(i) => {
                let n = nodes[i];
                let descend = match n.kind {
                    TreeNodeKind::Document => true,
                    _ => node_label(n.kind) is Some && exp.contains(id) && n.children@.len() > 0,
                };
                &&& !cut_breaks(n.kind)
                &&& (descend ==> list_ok(nodes, n.children@, exp, (fuel - 1) as nat))
            },
        }
    }
}

/// Whether every node of a list can be walked.
pub open spec fn list_ok(nodes: Seq<TreeNode>, ids: Seq<VexId>, exp: Set<VexId>, fuel: nat) -> bool
    decreases fuel, ids.len(),
{
    if ids.len() == 0 {
        true
    } else {
        list_ok(nodes, ids.drop_last(), exp, fuel) && walk_ok(nodes, ids.last(), exp, fuel)
    }
}

/// A prefix of a walkable list is walkable.
proof fn lemma_list_ok_take(nodes: Seq<TreeNode>, ids: Seq<VexId>, exp: Set<VexId>, fuel: nat, k: int)
    requires
        list_ok(nodes, ids, exp, fuel),
        0 <= k <= ids.len(),
    ensures
        list_ok(nodes, ids.take(k), exp, fuel),
        k < ids.len() ==> walk_ok(nodes, ids[k], exp, fuel),
    decreases ids.len(),
{
    if k == ids.len() {
        assert(ids.take(k) =~= ids);
    } else {
        lemma_list_ok_take(nodes, ids.drop_last(), exp, fuel, k);
        assert(ids.drop_last().take(k) =~= ids.take(k));
        if k < ids.len() - 1 {
            assert(ids.drop_last()[k] == ids[k]);
        }
    }
}

/// The first node with an ID, found front to back.
fn node_position(nodes: &[TreeNode], id: VexId) -> (r: Option<usize>)
    ensures
        r matches Some(i) ==> find_node(nodes@, id) == Some(i as int) && i < nodes@.len(),
        r is None ==> find_node(nodes@, id) is None,
{
    let mut i: usize = 0;
    while i < nodes.len()
        invariant
            i <= nodes@.len(),
            find_node(nodes@.take(i as int), id) is None,
        decreases nodes.len() - i,
    {
        assert(nodes@.take(i + 1).drop_last() =~= nodes@.take(i as int));
        if nodes[i].id == id {
            assert(find_node(nodes@.take(i + 1), id) == Some(i as int));
            proof {
                lemma_find_extends(nodes@, id, i + 1);
            }
            return Some(i);
        }
        assert(find_node(nodes@.take(i + 1), id) is None);
        i += 1;
    }
    assert(nodes@.take(nodes@.len() as int) =~= nodes@);
    None
}

/// A node found in a prefix is the node found in the whole sequence.
proof fn lemma_find_extends(nodes: Seq<TreeNode>, id: VexId, k: int)
    requires
        0 <= k <= nodes.len(),
        find_node(nodes.take(k), id) is Some,
    ensures
        find_node(nodes, id) == find_node(nodes.take(k), id),
    decreases nodes.len() - k,
{
    if k == nodes.len() {
        assert(nodes.take(k) =~= nodes);
    } else {
        assert(nodes.take(k + 1).drop_last() =~= nodes.take(k));
        assert(find_node(nodes.take(k + 1), id) == find_node(nodes.take(k), id));
        lemma_find_extends(nodes, id, k + 1);
    }
}

/// The first `n` bytes of a text whose cut falls between characters.
fn utf8_head_exec(t: &str, n: usize) -> (r: String)
    requires
        n <= encode_utf8(t@).len(),
        is_char_boundary(encode_utf8(t@), n as int),
    ensures
        r@ == utf8_head(t@, n as int),
{
    let (head, _tail) = t.split_at(n);
    proof {
        encode_utf8_decode_utf8(head@);
    }
    head.to_owned()
}

fn append_attrs(label: &mut String, attrs: &Vec<(String, String)>, name: &str)
    ensures
        final(label)@ == old(label)@ + attr_part(attrs@, name@),
{
    let mut i: usize = 0;
    while i < attrs.len()
        invariant
            i <= attrs@.len(),
            label@ == old(label)@ + attr_part(attrs@.take(i as int), name@),
        decreases attrs.len() - i,
    {
        assert(attrs@.take(i + 1).drop_last() =~= attrs@.take(i as int));
        assert(attrs@.take(i + 1).last() == attrs@[i as int]);
        let ghost before = label@;
        if str_eq(attrs[i].0.as_str(), name) {
            push_char(label, ' ');
            label.append(name);
            label.append("=\"");
            label.append(attrs[i].1.as_str());
            label.append("\"");
            proof {
                reveal_strlit("=\"");
                reveal_strlit("\"");
            }
            assert(label@ =~= before + (seq![' '] + name@ + "=\""@ + attrs@[i as int].1@ + "\""@));
        }
        assert(label@ =~= old(label)@ + attr_part(attrs@.take(i + 1), name@));
        i += 1;
    }
    assert(attrs@.take(attrs@.len() as int) =~= attrs@);
}

fn label_of(kind: &TreeNodeKind) -> (r: Option<String>)
    requires
        !cut_breaks(*kind),
    ensures
        r matches Some(l) ==> node_label(*kind) == Some(l@),
        r is None ==> node_label(*kind) is None,
{
    match kind {
        TreeNodeKind::Document => None,
        TreeNodeKind::Element { tag, attributes } => {
            let mut label = String::new();
            push_char(&mut label, '<');
            label.append(tag.as_str());
            append_attrs(&mut label, attributes, "id");
            append_attrs(&mut label, attributes, "class");
            push_char(&mut label, '>');
            proof {
                reveal_strlit("id");
                reveal_strlit("class");
            }
            assert(label@ =~= element_label(tag@, attributes@));
            Some(label)
        },
        TreeNodeKind::Text(text) => {
            let cs = chars_of(text.as_str());
            let tr = chars_trim(cs.as_slice());
            if tr.len() == 0 {
                return None;
            }
            let t = string_from_chars(tr.as_slice());
            assert(t@ == trim_ws(text@));
            let mut label = String::new();
            push_char(&mut label, '"');
            if t.as_str().as_bytes().len() > 60 {
                let head = utf8_head_exec(t.as_str(), 60);
                label.append(head.as_str());
                push_char(&mut label, '…');
                push_char(&mut label, '"');
                assert(label@ =~= seq!['"'] + utf8_head(t@, 60) + seq!['…', '"']);
                assert(node_label(*kind) == Some(label@));
            } else {
                label.append(t.as_str());
                push_char(&mut label, '"');
                assert(label@ =~= seq!['"'] + t@ + seq!['"']);
                assert(node_label(*kind) == Some(label@));
            }
            Some(label)
        },
        TreeNodeKind::Comment(c) => {
            proof {
                reveal_strlit("<!--");
                reveal_strlit("…-->");
                reveal_strlit("-->");
            }
            let mut label = "<!--".to_owned();
            if c.as_str().as_bytes().len() > 50 {
                let head = utf8_head_exec(c.as_str(), 50);
                label.append(head.as_str());
                label.append("…-->");
                assert(label@ =~= "<!--"@ + utf8_head(c@, 50) + "…-->"@);
            } else {
                label.append(c.as_str());
                label.append("-->");
                assert(label@ =~= "<!--"@ + c@ + "-->"@);
            }
            Some(label)
        },
        TreeNodeKind::Doctype(name) => {
            let mut label = "<!DOCTYPE ".to_owned();
            label.append(name.as_str());
            push_char(&mut label, '>');
            proof {
                reveal_strlit("<!DOCTYPE ");
            }
            assert(label@ =~= "<!DOCTYPE "@ + name@ + seq!['>']);
            Some(label)
        },
    }
}

impl DomTreeState {
    fn push_rows(
        &self,
        nodes: &[TreeNode],
        id: VexId,
        depth: u32,
        fuel: usize,
        rows: &mut Vec<DomTreeRow>,
    )
        requires
            walk_ok(nodes@, id, self@.expanded, fuel as nat),
            depth + fuel <= u32::MAX,
        ensures
            final(rows)@.map_values(|r: DomTreeRow| row_view(r)) == old(rows)@.map_values(
                |r: DomTreeRow| row_view(r),
            ) + rows_of(nodes@, id, depth as nat, self@.expanded, fuel as nat),
        decreases fuel,
    {
        let ghost exp = self@.expanded;
        let ghost start = old(rows)@.map_values(|r: DomTreeRow| row_view(r));
        if fuel == 0 {
            assert(rows@.map_values(|r: DomTreeRow| row_view(r)) =~= start + seq![]);
            return;
        }
        let i = match node_position(nodes, id) {
            Some(i) => i,
            None => {
                return;
            },
        };
        let node = &nodes[i];
        let has_children = node.children.len() > 0;
        let expanded = self.is_expanded(id);
        let is_doc = match &node.kind {
            TreeNodeKind::Document => true,
            _ => false,
        };
        let label = if is_doc {
            None
        } else {
            label_of(&node.kind)
        };
        if !is_doc && label.is_none() {
            assert(rows@.map_values(|r: DomTreeRow| row_view(r)) =~= start + rows_of(nodes@, id, depth as nat, exp, fuel as nat));
            return;
        }
        let descend = is_doc || (expanded && has_children);
        let child_depth: u32 = if is_doc { depth } else { depth + 1 };
        let ghost n = nodes@[i as int];
        assert(find_node(nodes@, id) == Some(i as int));
        if !is_doc {
            let l = label.unwrap();
            let ghost before = rows@;
            rows.push(DomTreeRow { node_id: id, depth, label: l, expanded, has_children, is_closing_tag: false });
            proof {
                crate::text::lemma_map_push(before, rows@.last(), |r: DomTreeRow| row_view(r));
                assert(rows@.map_values(|r: DomTreeRow| row_view(r)) =~= start + seq![
                    RowView {
                        node_id: id,
                        depth: depth as nat,
                        label: node_label(n.kind)->0,
                        expanded,
                        has_children,
                        is_closing_tag: false,
                    },
                ]);
            }
        } else {
            assert(rows@.map_values(|r: DomTreeRow| row_view(r)) =~= start);
        }
        let ghost mid = rows@.map_values(|r: DomTreeRow| row_view(r));
        if descend {
            let children = &node.children;
            let ghost ch = children@;
            let mut k: usize = 0;
            while k < children.len()
                invariant
                    k <= ch.len(),
                    i < nodes@.len(),
                    ch == nodes@[i as int].children@,
                    children@ == ch,
                    list_ok(nodes@, ch, exp, (fuel - 1) as nat),
                    exp == self@.expanded,
                    fuel > 0,
                    child_depth + fuel - 1 <= u32::MAX,
                    rows@.map_values(|r: DomTreeRow| row_view(r)) == mid + rows_list(
                        nodes@,
                        ch.take(k as int),
                        child_depth as nat,
                        exp,
                        (fuel - 1) as nat,
                    ),
                decreases ch.len() - k,
            {
                proof {
                    lemma_list_ok_take(nodes@, ch, exp, (fuel - 1) as nat, k as int);
                    assert(ch.take(k + 1).drop_last() =~= ch.take(k as int));
                    assert(ch.take(k + 1).last() == ch[k as int]);
                }
                self.push_rows(nodes, children[k], child_depth, fuel - 1, rows);
                proof {
                    assert(rows@.map_values(|r: DomTreeRow| row_view(r)) =~= mid + rows_list(
                        nodes@,
                        ch.take(k + 1),
                        child_depth as nat,
                        exp,
                        (fuel - 1) as nat,
                    ));
                }
                k += 1;
            }
            assert(ch.take(ch.len() as int) =~= ch);
        } else {
            assert(rows@.map_values(|r: DomTreeRow| row_view(r)) =~= mid + seq![]);
        }
        let ghost after_children = rows@.map_values(|r: DomTreeRow| row_view(r));
        match &node.kind {
            TreeNodeKind::Element { tag, attributes } => {
                if expanded && has_children {
                    let mut close = "</".to_owned();
                    close.append(tag.as_str());
                    push_char(&mut close, '>');
                    proof {
                        reveal_strlit("</");
                    }
                    let ghost before = rows@;
                    rows.push(DomTreeRow { node_id: id, depth, label: close, expanded: false, has_children: false, is_closing_tag: true });
                    proof {
                        crate::text::lemma_map_push(before, rows@.last(), |r: DomTreeRow| row_view(r));
                        assert(close@ =~= "</"@ + tag@ + seq!['>']);
                    }
                }
            },
            _ => {},
        }
        assert(rows@.map_values(|r: DomTreeRow| row_view(r)) =~= start + rows_of(nodes@, id, depth as nat, exp, fuel as nat));
    }

    /// The rows of the tree view, walking from the root node: nodes that
    /// are expanded show their children, elements a closing tag row too.
    /// Every node the walk reaches must exist and be showable (a text or
    /// comment cut must fall between characters).
    pub fn build_rows(&self, nodes: &[TreeNode], root: VexId) -> (r: Vec<DomTreeRow>)
        requires
            nodes@.len() < u32::MAX,
            walk_ok(nodes@, root, self@.expanded, (nodes@.len() + 1) as nat),
        ensures
            r@.map_values(|x: DomTreeRow| row_view(x)) == visible_rows(nodes@, root, self@.expanded),
    {
        let mut rows: Vec<DomTreeRow> = Vec::new();
        self.push_rows(nodes, root, 0, nodes.len() + 1, &mut rows);
        assert(Seq::<DomTreeRow>::empty().map_values(|x: DomTreeRow| row_view(x)) =~= Seq::<RowView>::empty());
        rows
    }
}

} // verus!
