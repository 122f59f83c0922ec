//! The element tree: an arena of nodes addressed by stable indices.
//!
//! A node owns no pointers; parent/child relationships are index fields.
//! The `children` lists are the authoritative structure, written when the
//! tree is built. The `parent` and `self_index` fields are non-owning
//! back-references used for upward traversal; they are derived from the
//! structure by [`ElementTree::link_back`] and must be re-established after
//! a subtree is rebuilt in place, before any further traversal.
//!
//! Structural invariants: every child index is strictly greater than its
//! parent's index (so the tree is acyclic and traversals terminate), each
//! `children` list is strictly ascending (list order is visual and
//! traversal order), and no node appears in two `children` lists.

use vstd::prelude::*;

use crate::constraint::SizeBound;
use crate::constraint::resolve_axis;
use crate::constraint::spec_resolve_axis;
use crate::units::MAX_LENGTH;
use crate::units::ScreenClip;

verus! {

/// What kind of node an element is.
#[derive(Clone, Copy, PartialEq, Eq, Structural, Debug)]
pub enum ElementKind {
    /// An ordered sequence of child elements, laid out top to bottom.
    Container,
    /// A leaf widget; its content is opaque to the layout core.
    Leaf,
    /// The synthesized close-button chrome of a closable window.
    CloseButton,
    /// The synthesized drag-handle chrome of a titled window.
    DragButton,
}

/// A change signal returned from a per-frame update, telling the owning
/// window whether anything must be re-resolved before the next render.
#[derive(Clone, Copy, PartialEq, Eq, Structural, Debug)]
pub enum ChangeEvent {
    /// The whole window must re-resolve its layout.
    ResolveWindow,
    /// Only the reporting element must re-resolve.
    ResolveSelf,
}

/// The result of hover-testing a tree against a mouse position.
#[derive(Clone, Copy, PartialEq, Eq, Structural, Debug)]
pub enum HoverInformation {
    /// The topmost element whose clipped rectangle contains the position.
    Element(usize),
    /// No element contains the position.
    Missed,
}

/// One node of the element tree.
pub struct Element {
    pub kind: ElementKind,
    /// The displayed text of a leaf, or the title of a drag handle.
    pub label: String,
    /// Whether focus navigation may stop on this node.
    pub focusable: bool,
    /// Whether the node itself reports a hover when no child is hit.
    pub interactive: bool,
    /// How the node's size resolves within its parent.
    pub size_bound: SizeBound,
    /// Inner inset, in pixels, applied on every side to the children.
    pub padding: u64,
    /// The locally cached copy of an externally observed value, for
    /// change-detection polling; `None` for nodes that observe nothing.
    pub observed: Option<u64>,
    /// The indices of the children, in visual and traversal order.
    pub children: Vec<usize>,
    /// Back-reference to the parent, derived by `link_back`.
    pub parent: Option<usize>,
    /// Back-reference to the node's own index, derived by `link_back`.
    pub self_index: Option<usize>,
    /// Resolved screen position, written by `resolve`.
    pub left: u64,
    pub top: u64,
    /// Resolved screen size, written by `resolve`.
    pub width: u64,
    pub height: u64,
}

impl Element {
    /// Everything but the back-references is equal.
    pub open spec fn same_but_links(self, other: Element) -> bool {
        &&& self.kind == other.kind
        &&& self.label == other.label
        &&& self.focusable == other.focusable
        &&& self.interactive == other.interactive
        &&& self.size_bound == other.size_bound
        &&& self.padding == other.padding
        &&& self.observed == other.observed
        &&& self.children == other.children
        &&& self.left == other.left
        &&& self.top == other.top
        &&& self.width == other.width
        &&& self.height == other.height
    }

    /// Everything but the resolved geometry is equal.
    pub open spec fn same_but_geometry(self, other: Element) -> bool {
        &&& self.kind == other.kind
        &&& self.label == other.label
        &&& self.focusable == other.focusable
        &&& self.interactive == other.interactive
        &&& self.size_bound == other.size_bound
        &&& self.padding == other.padding
        &&& self.observed == other.observed
        &&& self.children == other.children
        &&& self.parent == other.parent
        &&& self.self_index == other.self_index
    }

    /// The stored constraints and the padding are in range.
    pub open spec fn bounds_valid(self) -> bool {
        self.size_bound.valid() && self.padding <= MAX_LENGTH
    }

    /// The resolved geometry is in range.
    pub open spec fn geometry_valid(self) -> bool {
        &&& self.left <= MAX_LENGTH
        &&& self.top <= MAX_LENGTH
        &&& self.width <= MAX_LENGTH
        &&& self.height <= MAX_LENGTH
    }

    /// A fresh node with no children and no wiring.
    pub fn new(
        kind: ElementKind,
        label: String,
        focusable: bool,
        interactive: bool,
        size_bound: SizeBound,
        padding: u64,
        observed: Option<u64>,
    ) -> (r: Element)
        ensures
            r.kind == kind,
            r.label == label,
            r.focusable == focusable,
            r.interactive == interactive,
            r.size_bound == size_bound,
            r.padding == padding,
            r.observed == observed,
            r.children@.len() == 0,
            r.parent is None,
            r.self_index is None,
            r.left == 0 && r.top == 0 && r.width == 0 && r.height == 0,
    {
        Element {
            kind,
            label,
            focusable,
            interactive,
            size_bound,
            padding,
            observed,
            children: Vec::new(),
            parent: Option::None,
            self_index: Option::None,
            left: 0,
            top: 0,
            width: 0,
            height: 0,
        }
    }
}

/// Addition saturating at [`MAX_LENGTH`], the machine bound on lengths.
pub open spec fn sat_add(a: int, b: int) -> int {
    if a + b > MAX_LENGTH { MAX_LENGTH as int } else { a + b }
}

/// Subtraction floored at zero.
pub open spec fn sub_floor(a: int, b: int) -> int {
    if a > b { a - b } else { 0 }
}

/// Caps a resolved length at [`MAX_LENGTH`], the machine bound.
pub open spec fn cap_length(a: int) -> int {
    if a > MAX_LENGTH { MAX_LENGTH as int } else { a }
}

fn sat_add_exec(a: u64, b: u64) -> (r: u64)
    requires
        a <= MAX_LENGTH,
        b <= MAX_LENGTH,
    ensures
        r as int == sat_add(a as int, b as int),
        r <= MAX_LENGTH,
{
    let sum = a + b;
    if sum > MAX_LENGTH {
        MAX_LENGTH
    } else {
        sum
    }
}

fn sub_floor_exec(a: u64, b: u64) -> (r: u64)
    ensures
        r as int == sub_floor(a as int, b as int),
        r <= a,
{
    if a > b {
        a - b
    } else {
        0
    }
}

fn cap_exec(a: u64) -> (r: u64)
    ensures
        r as int == cap_length(a as int),
        r <= MAX_LENGTH,
{
    if a > MAX_LENGTH {
        MAX_LENGTH
    } else {
        a
    }
}

/// The structural well-formedness of an element arena.
pub open spec fn tree_wf(s: Seq<Element>) -> bool {
    &&& forall|i: int, k: int|
        0 <= i < s.len() && 0 <= k < s[i].children@.len()
            ==> i < #[trigger] s[i].children@[k] && s[i].children@[k] < s.len()
    &&& forall|i: int, k1: int, k2: int|
        0 <= i < s.len() && 0 <= k1 < k2 < s[i].children@.len()
            ==> #[trigger] s[i].children@[k1] < #[trigger] s[i].children@[k2]
    &&& forall|i1: int, k1: int, i2: int, k2: int|
        0 <= i1 < s.len() && 0 <= k1 < s[i1].children@.len() && 0 <= i2 < s.len() && 0 <= k2
            < s[i2].children@.len() && (i1 != i2 || k1 != k2)
            ==> #[trigger] s[i1].children@[k1] != #[trigger] s[i2].children@[k2]
}

/// Node `c` appears in some `children` list.
pub open spec fn is_child(s: Seq<Element>, c: int) -> bool {
    exists|i: int, k: int|
        0 <= i < s.len() && 0 <= k < s[i].children@.len() && #[trigger] s[i].children@[k] == c
}

/// The back-references agree with the `children` lists: every node knows
/// its own index, every child points back at its unique parent, and every
/// root carries no parent.
pub open spec fn tree_linked(s: Seq<Element>) -> bool {
    &&& forall|i: int| 0 <= i < s.len() ==> (#[trigger] s[i]).self_index == Option::Some(i as usize)
    &&& forall|i: int, k: int|
        0 <= i < s.len() && 0 <= k < s[i].children@.len()
            ==> s[#[trigger] s[i].children@[k] as int].parent == Option::Some(i as usize)
    &&& forall|c: int| 0 <= c < s.len() && !is_child(s, c) ==> (#[trigger] s[c]).parent is None
}

/// Every node's constraints are in range.
pub open spec fn tree_bounds_valid(s: Seq<Element>) -> bool {
    forall|i: int| 0 <= i < s.len() ==> (#[trigger] s[i]).bounds_valid()
}

/// Every node's resolved geometry is in range.
pub open spec fn tree_geometry_valid(s: Seq<Element>) -> bool {
    forall|i: int| 0 <= i < s.len() ==> (#[trigger] s[i]).geometry_valid()
}

/// The number of roots — nodes that appear in no `children` list — at or
/// after index `i`.
pub open spec fn root_count_from(s: Seq<Element>, i: int) -> int
    decreases s.len() - i,
        when i >= 0
{
    if i >= s.len() {
        0
    } else if !is_child(s, i) {
        1 + root_count_from(s, i + 1)
    } else {
        root_count_from(s, i + 1)
    }
}

/// Node `base + t` of `s` carries node `t` of `src` over: the same
/// content and the same structure, with every child index shifted by
/// `base`. Geometry and back-references are not compared; both are
/// derived afresh in the combined tree.
pub open spec fn appended_matches(s: Seq<Element>, src: Seq<Element>, base: int, t: int) -> bool {
    let node = s[base + t];
    &&& node.kind == src[t].kind
    &&& node.label == src[t].label
    &&& node.focusable == src[t].focusable
    &&& node.interactive == src[t].interactive
    &&& node.size_bound == src[t].size_bound
    &&& node.padding == src[t].padding
    &&& node.observed == src[t].observed
    &&& node.children@.len() == src[t].children@.len()
    &&& forall|k: int|
        0 <= k < src[t].children@.len()
            ==> #[trigger] node.children@[k] as int == base + src[t].children@[k]
}

/// Every node of `src` has been carried over into `s` at offset `base`.
pub open spec fn all_appended(s: Seq<Element>, src: Seq<Element>, base: int) -> bool {
    forall|m: int| 0 <= m < src.len() ==> #[trigger] appended_matches(s, src, base, m)
}

/// The layout cursor: the summed heights of the first `k` children of `p`,
/// the vertical offset at which child `k` starts. Siblings stack top to
/// bottom, in list order, without overlap.
pub open spec fn spec_cursor(s: Seq<Element>, p: int, k: int) -> int
    decreases k,
{
    if k <= 0 {
        0
    } else {
        sat_add(spec_cursor(s, p, k - 1), s[s[p].children@[k - 1] as int].height as int)
    }
}

/// The inner width of a container: its resolved width less the padding on
/// both sides.
pub open spec fn spec_content_width(s: Seq<Element>, p: int) -> int {
    sub_floor(s[p].width as int, sat_add(s[p].padding as int, s[p].padding as int))
}

/// The inner height of a container.
pub open spec fn spec_content_height(s: Seq<Element>, p: int) -> int {
    sub_floor(s[p].height as int, sat_add(s[p].padding as int, s[p].padding as int))
}

/// The resolved geometry of child `k` of node `p`: the child is inset by
/// the parent's padding, pushed down by the heights of its preceding
/// siblings, and sized by its own bound against the parent's content area.
/// A `Flexible` height consumes the content height left over by the
/// preceding siblings, floored at zero — the documented policy when
/// several siblings are flexible at once: each takes what remains at its
/// turn, in declaration order.
pub open spec fn child_geometry_ok(s: Seq<Element>, p: int, k: int, scaling: int) -> bool {
    let c = s[p].children@[k] as int;
    let content_w = spec_content_width(s, p);
    let content_h = spec_content_height(s, p);
    let cursor = spec_cursor(s, p, k);
    &&& s[c].left as int == sat_add(s[p].left as int, s[p].padding as int)
    &&& s[c].top as int == sat_add(sat_add(s[p].top as int, s[p].padding as int), cursor)
    &&& s[c].width as int == cap_length(
        spec_resolve_axis(
            s[c].size_bound.width,
            s[c].size_bound.minimum_width,
            s[c].size_bound.maximum_width,
            content_w,
            s[p].width as int,
            content_w,
            scaling,
        ),
    )
    &&& s[c].height as int == cap_length(
        spec_resolve_axis(
            s[c].size_bound.height,
            s[c].size_bound.minimum_height,
            s[c].size_bound.maximum_height,
            content_h,
            s[p].height as int,
            sub_floor(content_h, cursor),
            scaling,
        ),
    )
}

/// The resolved geometry of a root node: placed at the base offset and
/// sized by its bound against the base area, which stands in for both the
/// available space and the parent's resolved value.
pub open spec fn root_geometry_ok(
    s: Seq<Element>,
    r: int,
    base_left: int,
    base_top: int,
    base_width: int,
    base_height: int,
    scaling: int,
) -> bool {
    &&& s[r].left as int == base_left
    &&& s[r].top as int == base_top
    &&& s[r].width as int == cap_length(
        spec_resolve_axis(
            s[r].size_bound.width,
            s[r].size_bound.minimum_width,
            s[r].size_bound.maximum_width,
            base_width,
            base_width,
            base_width,
            scaling,
        ),
    )
    &&& s[r].height as int == cap_length(
        spec_resolve_axis(
            s[r].size_bound.height,
            s[r].size_bound.minimum_height,
            s[r].size_bound.maximum_height,
            base_height,
            base_height,
            base_height,
            scaling,
        ),
    )
}

/// Every node with index below `upto` carries its resolved geometry:
/// roots against the base rectangle, children against their parents.
pub open spec fn geometry_resolved(
    s: Seq<Element>,
    base_left: int,
    base_top: int,
    base_width: int,
    base_height: int,
    scaling: int,
    upto: int,
) -> bool {
    &&& forall|r: int|
        0 <= r < upto && r < s.len() && (#[trigger] s[r]).parent is None
            ==> root_geometry_ok(s, r, base_left, base_top, base_width, base_height, scaling)
    &&& forall|p: int, k: int|
        0 <= p < s.len() && 0 <= k < s[p].children@.len()
            && (#[trigger] s[p].children@[k] as int) < upto
            ==> child_geometry_ok(s, p, k, scaling)
}

/// The cursor never goes below zero.
proof fn lemma_cursor_nonneg(s: Seq<Element>, p: int, k: int)
    ensures
        spec_cursor(s, p, k) >= 0,
    decreases k,
{
    if k > 0 {
        lemma_cursor_nonneg(s, p, k - 1);
    }
}

/// Siblings stack without overlap: as long as the accumulated offsets
/// stay within the machine bound, each child starts exactly where its
/// preceding sibling ends.
pub proof fn lemma_siblings_stack(s: Seq<Element>, p: int, k: int, scaling: int)
    requires
        0 <= p < s.len(),
        0 <= k,
        k + 1 < s[p].children@.len(),
        child_geometry_ok(s, p, k, scaling),
        child_geometry_ok(s, p, k + 1, scaling),
        s[p].top as int + s[p].padding as int + spec_cursor(s, p, k)
            + s[s[p].children@[k] as int].height as int <= MAX_LENGTH,
    ensures
        s[s[p].children@[k + 1] as int].top as int == s[s[p].children@[k] as int].top as int
            + s[s[p].children@[k] as int].height as int,
{
    lemma_cursor_nonneg(s, p, k);
}

/// The cursor reads only the heights of the first `k` children, so it is
/// unchanged between two states that agree on them.
proof fn lemma_cursor_same(s1: Seq<Element>, s2: Seq<Element>, p: int, k: int)
    requires
        s1[p].children@ == s2[p].children@,
        forall|m: int|
            0 <= m < k
                ==> s1[#[trigger] s1[p].children@[m] as int].height
                    == s2[s1[p].children@[m] as int].height,
    ensures
        spec_cursor(s1, p, k) == spec_cursor(s2, p, k),
    decreases k,
{
    if k > 0 {
        lemma_cursor_same(s1, s2, p, k - 1);
    }
}

/// The clip rectangle a node passes to its children: the incoming clip
/// narrowed by the node's own resolved rectangle.
pub open spec fn node_clip(s: Seq<Element>, i: int, clip: ScreenClip) -> ScreenClip {
    clip.spec_intersect(
        ScreenClip {
            left: s[i].left,
            top: s[i].top,
            right: (s[i].left + s[i].width) as u64,
            bottom: (s[i].top + s[i].height) as u64,
        },
    )
}

/// The hover test on the subtree rooted at `i`: a miss when the position
/// lies outside the node's clipped rectangle; otherwise the topmost hit
/// among the children, tested last-added first; otherwise the node itself
/// when it is interactive.
pub open spec fn spec_hover(s: Seq<Element>, i: int, x: u64, y: u64, clip: ScreenClip) -> Option<
    int,
>
    decreases s.len() - i, 1int, 0int,
        when tree_wf(s) && 0 <= i < s.len()
{
    let inner = node_clip(s, i, clip);
    if !inner.spec_contains(x, y) {
        Option::None
    } else {
        match spec_hover_children(s, i, s[i].children@.len() as int, x, y, inner) {
            Option::Some(c) => Option::Some(c),
            Option::None => if s[i].interactive {
                Option::Some(i)
            } else {
                Option::None
            },
        }
    }
}

/// The hover test over the first `k` children of node `i`, tested in
/// reverse list order: child `k - 1` first, child `0` last.
pub open spec fn spec_hover_children(
    s: Seq<Element>,
    i: int,
    k: int,
    x: u64,
    y: u64,
    clip: ScreenClip,
) -> Option<int>
    decreases s.len() - i, 0int, k,
        when tree_wf(s) && 0 <= i < s.len() && k <= s[i].children@.len()
{
    if k <= 0 {
        Option::None
    } else {
        let c = s[i].children@[k - 1] as int;
        match spec_hover(s, c, x, y, clip) {
            Option::Some(r) => Option::Some(r),
            Option::None => spec_hover_children(s, i, k - 1, x, y, clip),
        }
    }
}

/// Hover occlusion by order: when the clipped rectangles of two sibling
/// leaves both contain the mouse position, the hover test returns the
/// sibling that was added later, the visually topmost one.
pub proof fn lemma_hover_topmost(s: Seq<Element>, p: int, x: u64, y: u64, clip: ScreenClip)
    requires
        tree_wf(s),
        0 <= p < s.len(),
        s[p].children@.len() == 2,
        s[s[p].children@[0] as int].children@.len() == 0,
        s[s[p].children@[1] as int].children@.len() == 0,
        s[s[p].children@[1] as int].interactive,
        node_clip(s, p, clip).spec_contains(x, y),
        node_clip(s, s[p].children@[0] as int, node_clip(s, p, clip)).spec_contains(x, y),
        node_clip(s, s[p].children@[1] as int, node_clip(s, p, clip)).spec_contains(x, y),
    ensures
        spec_hover(s, p, x, y, clip) == Option::Some(s[p].children@[1] as int),
{
    let inner = node_clip(s, p, clip);
    let b = s[p].children@[1] as int;
    assert(spec_hover(s, b, x, y, inner) == Option::Some(b));
    assert(spec_hover_children(s, p, 2, x, y, inner) == Option::Some(b));
}

/// Rewriting the geometry of node `j` disturbs no geometry relation of a
/// node below `j`: those relations read only nodes strictly below `j`.
proof fn lemma_resolve_step_frame(
    before: Seq<Element>,
    after: Seq<Element>,
    orig: Seq<Element>,
    j: int,
    base_left: int,
    base_top: int,
    base_width: int,
    base_height: int,
    scaling: int,
)
    requires
        before.len() == after.len(),
        before.len() == orig.len(),
        0 <= j < orig.len(),
        tree_wf(orig),
        forall|t: int| 0 <= t < orig.len() ==> (#[trigger] before[t]).same_but_geometry(orig[t]),
        forall|t: int| 0 <= t < orig.len() && t != j ==> #[trigger] after[t] == before[t],
        after[j].same_but_geometry(before[j]),
        geometry_resolved(before, base_left, base_top, base_width, base_height, scaling, j),
    ensures
        geometry_resolved(after, base_left, base_top, base_width, base_height, scaling, j),
        forall|t: int| 0 <= t < orig.len() ==> (#[trigger] after[t]).same_but_geometry(orig[t]),
{
    assert forall|t: int| 0 <= t < orig.len() implies (#[trigger] after[t]).same_but_geometry(
        orig[t],
    ) by {
        if t != j {
            assert(after[t] == before[t]);
        }
    }
    assert forall|r: int| 0 <= r < j && r < after.len() && (#[trigger] after[r]).parent is None
        implies root_geometry_ok(after, r, base_left, base_top, base_width, base_height, scaling) by {
        assert(after[r] == before[r]);
        assert(root_geometry_ok(before, r, base_left, base_top, base_width, base_height, scaling));
    }
    assert forall|p: int, k: int|
        0 <= p < after.len() && 0 <= k < after[p].children@.len()
            && (#[trigger] after[p].children@[k] as int) < j
        implies child_geometry_ok(after, p, k, scaling) by {
        assert(after[p].same_but_geometry(before[p]));
        let c = after[p].children@[k] as int;
        assert(before[p].children@[k] as int == c);
        assert(child_geometry_ok(before, p, k, scaling));
        assert(before[p].same_but_geometry(orig[p]));
        assert(orig[p].children@[k] as int == c);
        assert(p < c);
        assert(after[p] == before[p]);
        assert(after[c] == before[c]);
        assert forall|m: int| 0 <= m < k
            implies before[#[trigger] before[p].children@[m] as int].height
                == after[before[p].children@[m] as int].height by {
            let cm = before[p].children@[m] as int;
            assert(orig[p].children@[m] as int == cm);
            assert(orig[p].children@[m] < orig[p].children@[k]);
            assert(cm < c);
        }
        lemma_cursor_same(before, after, p, k);
    }
}

/// An ordered arena of elements. Nodes are appended in depth-first order,
/// so index order is traversal order.
pub struct ElementTree {
    pub nodes: Vec<Element>,
}

impl ElementTree {
    pub open spec fn wf(self) -> bool {
        tree_wf(self.nodes@)
    }

    pub open spec fn linked(self) -> bool {
        tree_linked(self.nodes@)
    }

    /// An empty tree.
    pub fn new() -> (r: ElementTree)
        ensures
            r.nodes@.len() == 0,
            r.wf(),
            r.linked(),
    {
        let tree = ElementTree { nodes: Vec::new() };
        proof {
            assert(tree_wf(tree.nodes@));
            assert forall|c: int| 0 <= c < tree.nodes@.len() && !is_child(tree.nodes@, c)
                implies (#[trigger] tree.nodes@[c]).parent is None by {}
        }
        tree
    }

    /// Appends a fresh element, optionally as the last child of an existing
    /// node. Back-references are not wired here; call
    /// [`Self::link_back`] once the tree is complete.
    pub fn add_element(&mut self, element: Element, parent: Option<usize>) -> (index: usize)
        requires
            old(self).wf(),
            element.children@.len() == 0,
            parent is Some ==> (parent->0 as int) < old(self).nodes@.len(),
        ensures
            final(self).wf(),
            index as int == old(self).nodes@.len(),
            final(self).nodes@.len() == old(self).nodes@.len() + 1,
            final(self).nodes@[index as int] == element,
            parent is None ==> forall|j: int|
                0 <= j < old(self).nodes@.len()
                    ==> final(self).nodes@[j] == old(self).nodes@[j],
            parent is Some ==> {
                let p = parent->0 as int;
                &&& forall|j: int|
                    0 <= j < old(self).nodes@.len() && j != p
                        ==> final(self).nodes@[j] == old(self).nodes@[j]
                &&& final(self).nodes@[p].children@
                    == old(self).nodes@[p].children@.push(index)
                &&& final(self).nodes@[p].kind == old(self).nodes@[p].kind
                &&& final(self).nodes@[p].label == old(self).nodes@[p].label
                &&& final(self).nodes@[p].focusable == old(self).nodes@[p].focusable
                &&& final(self).nodes@[p].interactive == old(self).nodes@[p].interactive
                &&& final(self).nodes@[p].size_bound == old(self).nodes@[p].size_bound
                &&& final(self).nodes@[p].padding == old(self).nodes@[p].padding
                &&& final(self).nodes@[p].observed == old(self).nodes@[p].observed
                &&& final(self).nodes@[p].parent == old(self).nodes@[p].parent
                &&& final(self).nodes@[p].self_index == old(self).nodes@[p].self_index
                &&& final(self).nodes@[p].left == old(self).nodes@[p].left
                &&& final(self).nodes@[p].top == old(self).nodes@[p].top
                &&& final(self).nodes@[p].width == old(self).nodes@[p].width
                &&& final(self).nodes@[p].height == old(self).nodes@[p].height
            },
    {
        let index = self.nodes.len();
        self.nodes.push(element);
        match parent {
            Option::Some(p) => {
                let ghost before = self.nodes@;
                self.nodes[p].children.push(index);
                proof {
                    assert(self.nodes@[p as int].children@
                        == before[p as int].children@.push(index));
                    assert forall|i: int, k: int|
                        0 <= i < self.nodes@.len() && 0 <= k < self.nodes@[i].children@.len()
                        implies i < #[trigger] self.nodes@[i].children@[k]
                            && self.nodes@[i].children@[k] < self.nodes@.len() by {
                        if i == p as int && k == self.nodes@[i].children@.len() - 1 {
                        } else {
                            assert(self.nodes@[i].children@[k]
                                == old(self).nodes@[i].children@[k]);
                        }
                    }
                    assert(tree_wf(self.nodes@)) by {
                        let s = self.nodes@;
                        let olds = old(self).nodes@;
                        assert forall|i: int, k1: int, k2: int|
                            0 <= i < s.len() && 0 <= k1 < k2 < s[i].children@.len()
                            implies #[trigger] s[i].children@[k1]
                                < #[trigger] s[i].children@[k2] by {
                            if i == p as int {
                                if k2 == s[i].children@.len() - 1 {
                                    assert(s[i].children@[k1] == olds[i].children@[k1]);
                                    assert(olds[i].children@[k1] < olds.len());
                                } else {
                                    assert(s[i].children@[k1] == olds[i].children@[k1]);
                                    assert(s[i].children@[k2] == olds[i].children@[k2]);
                                }
                            }
                        }
                        assert forall|i1: int, k1: int, i2: int, k2: int|
                            0 <= i1 < s.len() && 0 <= k1 < s[i1].children@.len() && 0 <= i2
                                < s.len() && 0 <= k2 < s[i2].children@.len() && (i1 != i2 || k1
                                != k2)
                            implies #[trigger] s[i1].children@[k1]
                                != #[trigger] s[i2].children@[k2] by {
                            let new1 = i1 == p as int && k1 == s[i1].children@.len() - 1;
                            let new2 = i2 == p as int && k2 == s[i2].children@.len() - 1;
                            if new1 && !new2 {
                                assert(s[i2].children@[k2] == olds[i2].children@[k2]);
                                assert(olds[i2].children@[k2] < olds.len());
                            } else if !new1 && new2 {
                                assert(s[i1].children@[k1] == olds[i1].children@[k1]);
                                assert(olds[i1].children@[k1] < olds.len());
                            } else if !new1 && !new2 {
                                assert(s[i1].children@[k1] == olds[i1].children@[k1]);
                                assert(s[i2].children@[k2] == olds[i2].children@[k2]);
                            }
                        }
                    }
                }
            },
            Option::None => {
                proof {
                    let s = self.nodes@;
                    let olds = old(self).nodes@;
                    assert forall|i: int, k: int|
                        0 <= i < s.len() && 0 <= k < s[i].children@.len()
                        implies i < #[trigger] s[i].children@[k]
                            && s[i].children@[k] < s.len() by {
                        assert(s[i].children@[k] == olds[i].children@[k]);
                    }
                    assert forall|i: int, k1: int, k2: int|
                        0 <= i < s.len() && 0 <= k1 < k2 < s[i].children@.len()
                        implies #[trigger] s[i].children@[k1]
                            < #[trigger] s[i].children@[k2] by {
                        assert(s[i].children@[k1] == olds[i].children@[k1]);
                        assert(s[i].children@[k2] == olds[i].children@[k2]);
                    }
                    assert forall|i1: int, k1: int, i2: int, k2: int|
                        0 <= i1 < s.len() && 0 <= k1 < s[i1].children@.len() && 0 <= i2 < s.len()
                            && 0 <= k2 < s[i2].children@.len() && (i1 != i2 || k1 != k2)
                        implies #[trigger] s[i1].children@[k1]
                            != #[trigger] s[i2].children@[k2] by {
                        assert(s[i1].children@[k1] == olds[i1].children@[k1]);
                        assert(s[i2].children@[k2] == olds[i2].children@[k2]);
                    }
                }
            },
        }
        index
    }

    /// Appends a whole tree below an existing node: every node of `other`
    /// is carried over with its child indices shifted past this tree's
    /// nodes, and each root of `other` becomes a further child of
    /// `parent`, in order. Back-references are not wired here; call
    /// [`Self::link_back`] once the tree is complete.
    #[verifier::rlimit(60)]
    pub fn append_tree(&mut self, other: &ElementTree, parent: usize)
        requires
            old(self).wf(),
            other.wf(),
            parent < old(self).nodes@.len(),
            old(self).nodes@.len() + other.nodes@.len() <= usize::MAX,
        ensures
            final(self).wf(),
            final(self).nodes@.len() == old(self).nodes@.len() + other.nodes@.len(),
            forall|j: int|
                0 <= j < old(self).nodes@.len() && j != parent
                    ==> #[trigger] final(self).nodes@[j] == old(self).nodes@[j],
            forall|t: int|
                0 <= t < other.nodes@.len()
                    ==> appended_matches(
                        final(self).nodes@,
                        other.nodes@,
                        old(self).nodes@.len() as int,
                        t,
                    ),
            final(self).nodes@[parent as int].kind == old(self).nodes@[parent as int].kind,
            final(self).nodes@[parent as int].label == old(self).nodes@[parent as int].label,
            final(self).nodes@[parent as int].focusable == old(self).nodes@[parent as int].focusable,
            final(self).nodes@[parent as int].interactive == old(self).nodes@[parent as int].interactive,
            final(self).nodes@[parent as int].size_bound == old(self).nodes@[parent as int].size_bound,
            final(self).nodes@[parent as int].padding == old(self).nodes@[parent as int].padding,
            final(self).nodes@[parent as int].observed == old(self).nodes@[parent as int].observed,
            final(self).nodes@[parent as int].parent == old(self).nodes@[parent as int].parent,
            final(self).nodes@[parent as int].self_index == old(self).nodes@[parent as int].self_index,
            final(self).nodes@[parent as int].left == old(self).nodes@[parent as int].left,
            final(self).nodes@[parent as int].top == old(self).nodes@[parent as int].top,
            final(self).nodes@[parent as int].width == old(self).nodes@[parent as int].width,
            final(self).nodes@[parent as int].height == old(self).nodes@[parent as int].height,
            final(self).nodes@[parent as int].children@.len()
                == old(self).nodes@[parent as int].children@.len()
                + root_count_from(other.nodes@, 0),
            forall|k: int|
                0 <= k < old(self).nodes@[parent as int].children@.len()
                    ==> #[trigger] final(self).nodes@[parent as int].children@[k]
                        == old(self).nodes@[parent as int].children@[k],
            forall|k: int|
                old(self).nodes@[parent as int].children@.len() <= k
                    < final(self).nodes@[parent as int].children@.len() ==> {
                    let c = #[trigger] final(self).nodes@[parent as int].children@[k] as int;
                    &&& old(self).nodes@.len() <= c
                    &&& c < final(self).nodes@.len()
                    &&& !is_child(other.nodes@, c - old(self).nodes@.len())
                },
            forall|q: int|
                0 <= q < other.nodes@.len() && !is_child(other.nodes@, q)
                    ==> exists|k: int|
                        old(self).nodes@[parent as int].children@.len() <= k
                            < final(self).nodes@[parent as int].children@.len()
                            && #[trigger] final(self).nodes@[parent as int].children@[k] as int
                                == old(self).nodes@.len() + q,
    {
        let ghost olds = old(self).nodes@;
        let ghost src = other.nodes@;
        let base = self.nodes.len();
        let count = other.nodes.len();
        let ghost oldc = olds[parent as int].children@.len() as int;
        let mut t: usize = 0;
        while t < count
            invariant
                base == olds.len(),
                count == src.len(),
                src == other.nodes@,
                parent < base,
                base + count <= usize::MAX,
                t <= count,
                tree_wf(olds),
                tree_wf(src),
                self.nodes@.len() == base + t,
                forall|j: int| 0 <= j < base ==> #[trigger] self.nodes@[j] == olds[j],
                forall|q: int|
                    0 <= q < t ==> appended_matches(self.nodes@, src, base as int, q),
            decreases count - t,
        {
            let source = &other.nodes[t];
            let mut children: Vec<usize> = Vec::new();
            let child_count = source.children.len();
            let mut k: usize = 0;
            while k < child_count
                invariant
                    base + count <= usize::MAX,
                    count == src.len(),
                    src == other.nodes@,
                    t < count,
                    tree_wf(src),
                    source == &other.nodes[t as int],
                    child_count == src[t as int].children@.len(),
                    k <= child_count,
                    children@.len() == k,
                    forall|m: int|
                        0 <= m < k
                            ==> #[trigger] children@[m] as int == base + src[t as int].children@[m],
                decreases child_count - k,
            {
                let c = source.children[k];
                proof {
                    assert(src[t as int].children@[k as int] == c);
                    assert((c as int) < count as int);
                }
                children.push(base + c);
                k += 1;
            }
            let element = Element {
                kind: source.kind,
                label: source.label.clone(),
                focusable: source.focusable,
                interactive: source.interactive,
                size_bound: source.size_bound,
                padding: source.padding,
                observed: source.observed,
                children,
                parent: Option::None,
                self_index: Option::None,
                left: source.left,
                top: source.top,
                width: source.width,
                height: source.height,
            };
            let ghost pre = self.nodes@;
            self.nodes.push(element);
            proof {
                assert forall|q: int| 0 <= q < t + 1 implies appended_matches(
                    self.nodes@,
                    src,
                    base as int,
                    q,
                ) by {
                    if q < t {
                        assert(self.nodes@[base + q] == pre[base + q]);
                        assert(appended_matches(pre, src, base as int, q));
                        assert forall|m: int| 0 <= m < src[q].children@.len()
                            implies #[trigger] self.nodes@[base + q].children@[m] as int
                                == base + src[q].children@[m] by {
                            assert(pre[base + q].children@[m] as int == base + src[q].children@[m]);
                        }
                    } else {
                        assert(self.nodes@[base + q] == element);
                    }
                }
            }
            t += 1;
        }
        let mut attach: usize = 0;
        while attach < count
            invariant
                base == olds.len(),
                count == src.len(),
                src == other.nodes@,
                parent < base,
                base + count <= usize::MAX,
                attach <= count,
                tree_wf(olds),
                tree_wf(src),
                oldc == olds[parent as int].children@.len(),
                self.nodes@.len() == base + count,
                forall|j: int|
                    0 <= j < base && j != parent ==> #[trigger] self.nodes@[j] == olds[j],
                forall|q: int|
                    0 <= q < count ==> appended_matches(self.nodes@, src, base as int, q),
                self.nodes@[parent as int].kind == olds[parent as int].kind,
                self.nodes@[parent as int].label == olds[parent as int].label,
                self.nodes@[parent as int].focusable == olds[parent as int].focusable,
                self.nodes@[parent as int].interactive == olds[parent as int].interactive,
                self.nodes@[parent as int].size_bound == olds[parent as int].size_bound,
                self.nodes@[parent as int].padding == olds[parent as int].padding,
                self.nodes@[parent as int].observed == olds[parent as int].observed,
                self.nodes@[parent as int].parent == olds[parent as int].parent,
                self.nodes@[parent as int].self_index == olds[parent as int].self_index,
                self.nodes@[parent as int].left == olds[parent as int].left,
                self.nodes@[parent as int].top == olds[parent as int].top,
                self.nodes@[parent as int].width == olds[parent as int].width,
                self.nodes@[parent as int].height == olds[parent as int].height,
                self.nodes@[parent as int].children@.len() == oldc
                    + root_count_from(src, 0) - root_count_from(src, attach as int),
                forall|k: int|
                    0 <= k < oldc
                        ==> #[trigger] self.nodes@[parent as int].children@[k]
                            == olds[parent as int].children@[k],
                forall|k: int|
                    oldc <= k < self.nodes@[parent as int].children@.len() ==> {
                        let c = #[trigger] self.nodes@[parent as int].children@[k] as int;
                        &&& base <= c
                        &&& c < base + attach
                        &&& !is_child(src, c - base)
                    },
                forall|q: int|
                    0 <= q < attach && !is_child(src, q)
                        ==> exists|k: int|
                            oldc <= k < self.nodes@[parent as int].children@.len()
                                && #[trigger] self.nodes@[parent as int].children@[k] as int
                                    == base + q,
                forall|k1: int, k2: int|
                    oldc <= k1 < k2 < self.nodes@[parent as int].children@.len()
                        ==> #[trigger] self.nodes@[parent as int].children@[k1]
                            < #[trigger] self.nodes@[parent as int].children@[k2],
            decreases count - attach,
        {
            let found = other.find_parent(attach);
            match found {
                Option::None => {
                    proof {
                        assert(!is_child(src, attach as int));
                        assert(root_count_from(src, attach as int)
                            == 1 + root_count_from(src, attach as int + 1));
                    }
                    let ghost pre = self.nodes@;
                    self.nodes[parent].children.push(base + attach);
                    proof {
                        let s = self.nodes@;
                        let plist = s[parent as int].children@;
                        assert(plist == pre[parent as int].children@.push((base + attach) as usize));
                        assert forall|q: int| 0 <= q < count implies appended_matches(
                            s,
                            src,
                            base as int,
                            q,
                        ) by {
                            assert(s[base + q] == pre[base + q]);
                            assert(appended_matches(pre, src, base as int, q));
                            assert forall|m: int| 0 <= m < src[q].children@.len()
                                implies #[trigger] s[base + q].children@[m] as int
                                    == base + src[q].children@[m] by {
                                assert(pre[base + q].children@[m] as int
                                    == base + src[q].children@[m]);
                            }
                        }
                        assert forall|q: int| 0 <= q < attach + 1 && !is_child(src, q)
                            implies exists|k: int|
                                oldc <= k < plist.len() && #[trigger] plist[k] as int
                                    == base + q by {
                            if q < attach {
                                let k = choose|k: int|
                                    oldc <= k < pre[parent as int].children@.len()
                                        && #[trigger] pre[parent as int].children@[k] as int
                                            == base + q;
                                assert(plist[k] as int == base + q);
                            } else {
                                assert(plist[plist.len() - 1] as int == base + q);
                            }
                        }
                    }
                },
                Option::Some(a) => {
                    proof {
                        let k = choose|k: int|
                            0 <= k < src[a as int].children@.len()
                                && #[trigger] src[a as int].children@[k] == attach;
                        assert(src[a as int].children@[k] == attach as int);
                        assert(is_child(src, attach as int));
                        assert(root_count_from(src, attach as int)
                            == root_count_from(src, attach as int + 1));
                    }
                },
            }
            attach += 1;
        }
        proof {
            let s = self.nodes@;
            assert(root_count_from(src, count as int) == 0);
            assert forall|k: int|
                oldc <= k < s[parent as int].children@.len()
                implies base <= #[trigger] s[parent as int].children@[k] as int by {}
            assert(tree_wf(s)) by {
                assert forall|i: int, k: int|
                    0 <= i < s.len() && 0 <= k < s[i].children@.len()
                    implies i < #[trigger] s[i].children@[k] && s[i].children@[k] < s.len() by {
                    if i < base && i != parent {
                        assert(s[i] == olds[i]);
                        assert(i < olds[i].children@[k] && olds[i].children@[k] < olds.len());
                    } else if i == parent {
                        if k < oldc {
                            assert(s[i].children@[k] == olds[parent as int].children@[k]);
                            assert(parent < olds[parent as int].children@[k]
                                && olds[parent as int].children@[k] < olds.len());
                        }
                    } else {
                        let q = i - base;
                        assert(appended_matches(s, src, base as int, q));
                        assert(s[i].children@[k] as int == base + src[q].children@[k]);
                        assert(q < src[q].children@[k] && src[q].children@[k] < src.len());
                    }
                }
                assert forall|i: int, k1: int, k2: int|
                    0 <= i < s.len() && 0 <= k1 < k2 < s[i].children@.len()
                    implies #[trigger] s[i].children@[k1] < #[trigger] s[i].children@[k2] by {
                    if i < base && i != parent {
                        assert(s[i] == olds[i]);
                        assert(olds[i].children@[k1] < olds[i].children@[k2]);
                    } else if i == parent {
                        if k2 < oldc {
                            assert(s[i].children@[k1] == olds[parent as int].children@[k1]);
                            assert(s[i].children@[k2] == olds[parent as int].children@[k2]);
                            assert(olds[parent as int].children@[k1]
                                < olds[parent as int].children@[k2]);
                        } else if k1 < oldc {
                            assert(s[i].children@[k1] == olds[parent as int].children@[k1]);
                            assert(parent < olds[parent as int].children@[k1]
                                && olds[parent as int].children@[k1] < olds.len());
                        }
                    } else {
                        let q = i - base;
                        assert(appended_matches(s, src, base as int, q));
                        assert(s[i].children@[k1] as int == base + src[q].children@[k1]);
                        assert(s[i].children@[k2] as int == base + src[q].children@[k2]);
                        assert(src[q].children@[k1] < src[q].children@[k2]);
                    }
                }
                assert forall|i1: int, k1: int, i2: int, k2: int|
                    0 <= i1 < s.len() && 0 <= k1 < s[i1].children@.len() && 0 <= i2 < s.len()
                        && 0 <= k2 < s[i2].children@.len() && (i1 != i2 || k1 != k2)
                    implies #[trigger] s[i1].children@[k1] != #[trigger] s[i2].children@[k2] by {
                    let old1 = (i1 < base && i1 != parent) || (i1 == parent && k1 < oldc);
                    let old2 = (i2 < base && i2 != parent) || (i2 == parent && k2 < oldc);
                    let app1 = i1 >= base;
                    let app2 = i2 >= base;
                    if old1 {
                        assert(s[i1].children@[k1] == olds[i1].children@[k1]);
                        assert(olds[i1].children@[k1] < olds.len());
                    }
                    if old2 {
                        assert(s[i2].children@[k2] == olds[i2].children@[k2]);
                        assert(olds[i2].children@[k2] < olds.len());
                    }
                    if app1 {
                        assert(appended_matches(s, src, base as int, i1 - base));
                        assert(s[i1].children@[k1] as int == base + src[i1 - base].children@[k1]);
                    }
                    if app2 {
                        assert(appended_matches(s, src, base as int, i2 - base));
                        assert(s[i2].children@[k2] as int == base + src[i2 - base].children@[k2]);
                    }
                    if old1 && old2 {
                        assert(olds[i1].children@[k1] != olds[i2].children@[k2]);
                    } else if app1 && app2 {
                        if s[i1].children@[k1] == s[i2].children@[k2] {
                            assert(src[i1 - base].children@[k1] == src[i2 - base].children@[k2]);
                            assert(i1 - base == i2 - base && k1 == k2);
                        }
                    } else if app1 && !old2 && !app2 {
                        if s[i1].children@[k1] == s[i2].children@[k2] {
                            let c = src[i1 - base].children@[k1] as int;
                            assert(is_child(src, c));
                            assert(!is_child(src, s[i2].children@[k2] as int - base));
                        }
                    } else if app2 && !old1 && !app1 {
                        if s[i1].children@[k1] == s[i2].children@[k2] {
                            let c = src[i2 - base].children@[k2] as int;
                            assert(is_child(src, c));
                            assert(!is_child(src, s[i1].children@[k1] as int - base));
                        }
                    }
                }
            }
        }
    }

    /// Finds the parent of a node by scanning the `children` lists.
    fn find_parent(&self, target: usize) -> (r: Option<usize>)
        requires
            target < self.nodes@.len(),
        ensures
            match r {
                Option::Some(a) => 0 <= a < self.nodes@.len() && exists|k: int|
                    0 <= k < self.nodes@[a as int].children@.len()
                        && #[trigger] self.nodes@[a as int].children@[k] == target,
                Option::None => !is_child(self.nodes@, target as int),
            },
    {
        let mut i: usize = 0;
        while i < self.nodes.len()
            invariant
                i <= self.nodes@.len(),
                target < self.nodes@.len(),
                forall|a: int, k: int|
                    0 <= a < i && 0 <= k < self.nodes@[a].children@.len()
                        ==> #[trigger] self.nodes@[a].children@[k] != target,
            decreases self.nodes@.len() - i,
        {
            let mut k: usize = 0;
            while k < self.nodes[i].children.len()
                invariant
                    i < self.nodes@.len(),
                    k <= self.nodes@[i as int].children@.len(),
                    target < self.nodes@.len(),
                    forall|kk: int|
                        0 <= kk < k
                            ==> #[trigger] self.nodes@[i as int].children@[kk] != target,
                decreases self.nodes@[i as int].children@.len() - k,
            {
                if self.nodes[i].children[k] == target {
                    return Option::Some(i);
                }
                k += 1;
            }
            i += 1;
        }
        Option::None
    }

    /// Derives the back-references (`self_index` and `parent`) from the
    /// `children` lists. Must be called after the tree is built or after a
    /// subtree was rebuilt in place, before any traversal that bubbles
    /// events upward.
    pub fn link_back(&mut self)
        requires
            old(self).wf(),
        ensures
            final(self).wf(),
            final(self).linked(),
            final(self).nodes@.len() == old(self).nodes@.len(),
            forall|j: int|
                0 <= j < old(self).nodes@.len()
                    ==> (#[trigger] final(self).nodes@[j]).same_but_links(old(self).nodes@[j]),
    {
        let ghost orig = self.nodes@;
        let mut j: usize = 0;
        while j < self.nodes.len()
            invariant
                j <= self.nodes@.len(),
                self.nodes@.len() == orig.len(),
                tree_wf(orig),
                forall|t: int|
                    0 <= t < orig.len()
                        ==> (#[trigger] self.nodes@[t]).same_but_links(orig[t]),
                forall|t: int| j <= t < orig.len() ==> #[trigger] self.nodes@[t] == orig[t],
                forall|t: int|
                    0 <= t < j
                        ==> (#[trigger] self.nodes@[t]).self_index == Option::Some(t as usize),
                forall|t: int|
                    0 <= t < j && is_child(orig, t)
                        ==> exists|a: int, k: int|
                            0 <= a < orig.len() && 0 <= k < orig[a].children@.len()
                                && #[trigger] orig[a].children@[k] == t
                                && self.nodes@[t].parent == Option::Some(a as usize),
                forall|t: int|
                    0 <= t < j && !is_child(orig, t)
                        ==> (#[trigger] self.nodes@[t]).parent is None,
            decreases self.nodes@.len() - j,
        {
            let ghost pre = self.nodes@;
            let parent = self.find_parent(j);
            proof {
                assert forall|a: int, k: int|
                    0 <= a < pre.len() && 0 <= k < pre[a].children@.len()
                    implies #[trigger] pre[a].children@[k] == orig[a].children@[k] by {
                    assert(pre[a].same_but_links(orig[a]));
                }
            }
            self.nodes[j].parent = parent;
            self.nodes[j].self_index = Option::Some(j);
            proof {
                match parent {
                    Option::Some(a) => {
                        let k = choose|k: int|
                            0 <= k < pre[a as int].children@.len()
                                && #[trigger] pre[a as int].children@[k] == j;
                        assert(orig[a as int].children@[k] == j as int);
                        assert(self.nodes@[j as int].parent == Option::Some(a));
                    },
                    Option::None => {
                        if is_child(orig, j as int) {
                            let (a, k): (int, int) = choose|a: int, k: int|
                                0 <= a < orig.len() && 0 <= k < orig[a].children@.len()
                                    && #[trigger] orig[a].children@[k] == j;
                            assert(pre[a].children@[k] == j as int);
                            assert(is_child(pre, j as int));
                        }
                    },
                }
            }
            j += 1;
        }
        proof {
            let s = self.nodes@;
            assert forall|i: int, k: int|
                0 <= i < s.len() && 0 <= k < s[i].children@.len()
                implies s[#[trigger] s[i].children@[k] as int].parent
                    == Option::Some(i as usize) by {
                let c = s[i].children@[k] as int;
                assert(orig[i].children@[k] == s[i].children@[k]);
                assert(is_child(orig, c));
                let (a, kk): (int, int) = choose|a: int, kk: int|
                    0 <= a < orig.len() && 0 <= kk < orig[a].children@.len()
                        && #[trigger] orig[a].children@[kk] == c
                        && s[c].parent == Option::Some(a as usize);
                assert(orig[a].children@[kk] == c && orig[i].children@[k] == c);
                assert(a == i && kk == k);
            }
            assert forall|c: int| 0 <= c < s.len() && !is_child(s, c)
                implies (#[trigger] s[c]).parent is None by {
                assert forall|a: int, k: int|
                    0 <= a < orig.len() && 0 <= k < orig[a].children@.len()
                    implies #[trigger] orig[a].children@[k] == s[a].children@[k] by {
                    assert(s[a].same_but_links(orig[a]));
                }
                assert(!is_child(orig, c));
            }
            assert(tree_wf(s)) by {
                assert forall|i: int, k: int|
                    0 <= i < s.len() && 0 <= k < s[i].children@.len()
                    implies i < #[trigger] s[i].children@[k]
                        && s[i].children@[k] < s.len() by {
                    assert(s[i].children@[k] == orig[i].children@[k]);
                }
                assert forall|i: int, k1: int, k2: int|
                    0 <= i < s.len() && 0 <= k1 < k2 < s[i].children@.len()
                    implies #[trigger] s[i].children@[k1] < #[trigger] s[i].children@[k2] by {
                    assert(s[i].children@[k1] == orig[i].children@[k1]);
                    assert(s[i].children@[k2] == orig[i].children@[k2]);
                }
                assert forall|i1: int, k1: int, i2: int, k2: int|
                    0 <= i1 < s.len() && 0 <= k1 < s[i1].children@.len() && 0 <= i2 < s.len()
                        && 0 <= k2 < s[i2].children@.len() && (i1 != i2 || k1 != k2)
                    implies #[trigger] s[i1].children@[k1] != #[trigger] s[i2].children@[k2] by {
                    assert(s[i1].children@[k1] == orig[i1].children@[k1]);
                    assert(s[i2].children@[k2] == orig[i2].children@[k2]);
                }
            }
        }
    }

    /// Recursively resolves the geometry of every node, in place: roots are
    /// placed at the base offset and sized against the base area; each
    /// child is inset by its parent's padding, stacked below its preceding
    /// siblings, and sized by its own bound against the parent's content
    /// area. See [`child_geometry_ok`] and [`root_geometry_ok`] for the
    /// exact result. Requires the back-references to be wired (see
    /// [`Self::link_back`]).
    #[verifier::rlimit(100)]
    pub fn resolve(
        &mut self,
        base_left: u64,
        base_top: u64,
        base_width: u64,
        base_height: u64,
        scaling: u64,
    )
        requires
            old(self).wf(),
            old(self).linked(),
            tree_bounds_valid(old(self).nodes@),
            base_left <= MAX_LENGTH,
            base_top <= MAX_LENGTH,
            base_width <= MAX_LENGTH,
            base_height <= MAX_LENGTH,
            scaling <= MAX_LENGTH,
        ensures
            final(self).wf(),
            final(self).linked(),
            final(self).nodes@.len() == old(self).nodes@.len(),
            forall|t: int|
                0 <= t < old(self).nodes@.len()
                    ==> (#[trigger] final(self).nodes@[t]).same_but_geometry(
                        old(self).nodes@[t],
                    ),
            tree_geometry_valid(final(self).nodes@),
            geometry_resolved(
                final(self).nodes@,
                base_left as int,
                base_top as int,
                base_width as int,
                base_height as int,
                scaling as int,
                final(self).nodes@.len() as int,
            ),
    {
        let ghost orig = self.nodes@;
        let n = self.nodes.len();
        let mut j: usize = 0;
        while j < n
            invariant
                n == self.nodes@.len(),
                self.nodes@.len() == orig.len(),
                j <= n,
                tree_wf(orig),
                tree_linked(orig),
                tree_bounds_valid(orig),
                base_left <= MAX_LENGTH,
                base_top <= MAX_LENGTH,
                base_width <= MAX_LENGTH,
                base_height <= MAX_LENGTH,
                scaling <= MAX_LENGTH,
                forall|t: int|
                    0 <= t < orig.len()
                        ==> (#[trigger] self.nodes@[t]).same_but_geometry(orig[t]),
                forall|t: int| j <= t < orig.len() ==> #[trigger] self.nodes@[t] == orig[t],
                forall|t: int| 0 <= t < j ==> (#[trigger] self.nodes@[t]).geometry_valid(),
                geometry_resolved(
                    self.nodes@,
                    base_left as int,
                    base_top as int,
                    base_width as int,
                    base_height as int,
                    scaling as int,
                    j as int,
                ),
            decreases n - j,
        {
            let parent_opt = self.nodes[j].parent;
            proof {
                assert(self.nodes@[j as int].same_but_geometry(orig[j as int]));
                assert(orig[j as int].bounds_valid());
            }
            let bound = self.nodes[j].size_bound;
            match parent_opt {
                Option::None => {
                    let w = cap_exec(
                        resolve_axis(
                            bound.width,
                            bound.minimum_width,
                            bound.maximum_width,
                            base_width,
                            base_width,
                            base_width,
                            scaling,
                        ),
                    );
                    let h = cap_exec(
                        resolve_axis(
                            bound.height,
                            bound.minimum_height,
                            bound.maximum_height,
                            base_height,
                            base_height,
                            base_height,
                            scaling,
                        ),
                    );
                    let ghost before = self.nodes@;
                    self.nodes[j].left = base_left;
                    self.nodes[j].top = base_top;
                    self.nodes[j].width = w;
                    self.nodes[j].height = h;
                    proof {
                        lemma_resolve_step_frame(
                            before,
                            self.nodes@,
                            orig,
                            j as int,
                            base_left as int,
                            base_top as int,
                            base_width as int,
                            base_height as int,
                            scaling as int,
                        );
                        assert(root_geometry_ok(
                            self.nodes@,
                            j as int,
                            base_left as int,
                            base_top as int,
                            base_width as int,
                            base_height as int,
                            scaling as int,
                        ));
                        assert forall|pp: int, kk: int|
                            0 <= pp < self.nodes@.len() && 0 <= kk
                                < self.nodes@[pp].children@.len()
                                && (#[trigger] self.nodes@[pp].children@[kk] as int) == j as int
                            implies false by {
                            assert(self.nodes@[pp].same_but_geometry(orig[pp]));
                            assert(orig[pp].children@[kk] == j as usize);
                            assert(is_child(orig, j as int));
                            assert(orig[j as int].parent is Some);
                        }
                    }
                },
                Option::Some(p) => {
                    proof {
                        if !is_child(orig, j as int) {
                            assert(orig[j as int].parent is None);
                        }
                        let (a, kk): (int, int) = choose|a: int, kk: int|
                            0 <= a < orig.len() && 0 <= kk < orig[a].children@.len()
                                && #[trigger] orig[a].children@[kk] == j as int;
                        assert(orig[(orig[a].children@[kk]) as int].parent
                            == Option::Some(a as usize));
                        assert(a == p as int);
                        assert(p < j);
                    }
                    let pl = self.nodes[p].left;
                    let pt = self.nodes[p].top;
                    let pw = self.nodes[p].width;
                    let ph = self.nodes[p].height;
                    let pad = self.nodes[p].padding;
                    proof {
                        assert(self.nodes@[p as int].geometry_valid());
                        assert(self.nodes@[p as int].same_but_geometry(orig[p as int]));
                        assert(orig[p as int].bounds_valid());
                    }
                    let pad2 = sat_add_exec(pad, pad);
                    let content_w = sub_floor_exec(pw, pad2);
                    let content_h = sub_floor_exec(ph, pad2);
                    let ghost kj = choose|kk: int|
                        0 <= kk < self.nodes@[p as int].children@.len()
                            && #[trigger] self.nodes@[p as int].children@[kk] == j as usize;
                    proof {
                        let (a, kk): (int, int) = choose|a: int, kk: int|
                            0 <= a < orig.len() && 0 <= kk < orig[a].children@.len()
                                && #[trigger] orig[a].children@[kk] == j as int;
                        assert(orig[(orig[a].children@[kk]) as int].parent
                            == Option::Some(a as usize));
                        assert(a == p as int);
                        assert(self.nodes@[p as int].children@[kk] == j as usize);
                    }
                    let mut k: usize = 0;
                    let mut cursor: u64 = 0;
                    let mut found = false;
                    while !found
                        invariant
                            n == self.nodes@.len(),
                            self.nodes@.len() == orig.len(),
                            j < n,
                            (p as int) < j as int,
                            tree_wf(orig),
                            forall|t: int|
                                0 <= t < orig.len()
                                    ==> (#[trigger] self.nodes@[t]).same_but_geometry(orig[t]),
                            forall|t: int|
                                j as int <= t < orig.len()
                                    ==> #[trigger] self.nodes@[t] == orig[t],
                            forall|t: int|
                                0 <= t < j ==> (#[trigger] self.nodes@[t]).geometry_valid(),
                            0 <= kj < self.nodes@[p as int].children@.len(),
                            self.nodes@[p as int].children@[kj] == j as usize,
                            !found ==> k as int <= kj,
                            found ==> k as int == kj,
                            cursor as int == spec_cursor(self.nodes@, p as int, k as int),
                            cursor <= MAX_LENGTH,
                        decreases self.nodes@[p as int].children@.len() - k, (if found {
                            0int
                        } else {
                            1int
                        }),
                    {
                        let c = self.nodes[p].children[k];
                        if c == j {
                            proof {
                                assert forall|m1: int, m2: int|
                                    0 <= m1 < m2 < orig[p as int].children@.len()
                                    implies #[trigger] orig[p as int].children@[m1]
                                        < #[trigger] orig[p as int].children@[m2] by {}
                                assert(self.nodes@[p as int].children@ == orig[p as int].children@);
                                if (k as int) < kj {
                                    assert(orig[p as int].children@[k as int]
                                        < orig[p as int].children@[kj]);
                                }
                            }
                            found = true;
                        } else {
                            proof {
                                assert(self.nodes@[p as int].children@ == orig[p as int].children@);
                                assert((k as int) < kj);
                                assert(orig[p as int].children@[k as int]
                                    < orig[p as int].children@[kj]);
                                assert((c as int) < j as int);
                                assert(self.nodes@[c as int].geometry_valid());
                            }
                            let child_height = self.nodes[c].height;
                            cursor = sat_add_exec(cursor, child_height);
                            let child_count = self.nodes[p].children.len();
                            proof {
                                assert(kj < child_count as int);
                            }
                            k += 1;
                        }
                    }
                    let rem = sub_floor_exec(content_h, cursor);
                    let w = cap_exec(
                        resolve_axis(
                            bound.width,
                            bound.minimum_width,
                            bound.maximum_width,
                            content_w,
                            pw,
                            content_w,
                            scaling,
                        ),
                    );
                    let h = cap_exec(
                        resolve_axis(
                            bound.height,
                            bound.minimum_height,
                            bound.maximum_height,
                            content_h,
                            ph,
                            rem,
                            scaling,
                        ),
                    );
                    let left = sat_add_exec(pl, pad);
                    let top = sat_add_exec(sat_add_exec(pt, pad), cursor);
                    let ghost before = self.nodes@;
                    self.nodes[j].left = left;
                    self.nodes[j].top = top;
                    self.nodes[j].width = w;
                    self.nodes[j].height = h;
                    proof {
                        lemma_resolve_step_frame(
                            before,
                            self.nodes@,
                            orig,
                            j as int,
                            base_left as int,
                            base_top as int,
                            base_width as int,
                            base_height as int,
                            scaling as int,
                        );
                        let s = self.nodes@;
                        assert(s[p as int] == before[p as int]);
                        lemma_cursor_same(before, s, p as int, k as int);
                        assert(child_geometry_ok(s, p as int, k as int, scaling as int));
                        assert forall|pp: int, kk2: int|
                            0 <= pp < s.len() && 0 <= kk2 < s[pp].children@.len()
                                && (#[trigger] s[pp].children@[kk2] as int) == j as int
                            implies child_geometry_ok(s, pp, kk2, scaling as int) by {
                            assert(s[pp].same_but_geometry(orig[pp]));
                            assert(orig[pp].children@[kk2] == j as usize);
                            assert(s[p as int].same_but_geometry(orig[p as int]));
                            assert(orig[p as int].children@[k as int] == j as usize);
                            assert(pp == p as int && kk2 == k as int);
                        }
                    }
                },
            }
            j += 1;
        }
        proof {
            let s = self.nodes@;
            assert forall|i: int| 0 <= i < s.len() implies (#[trigger] s[i]).self_index
                == Option::Some(i as usize) by {
                assert(s[i].same_but_geometry(orig[i]));
            }
            assert forall|i: int, k: int|
                0 <= i < s.len() && 0 <= k < s[i].children@.len()
                implies s[#[trigger] s[i].children@[k] as int].parent
                    == Option::Some(i as usize) by {
                assert(s[i].same_but_geometry(orig[i]));
                assert(orig[i].children@[k] == s[i].children@[k]);
                let c = s[i].children@[k] as int;
                assert(s[c].same_but_geometry(orig[c]));
            }
            assert forall|c: int| 0 <= c < s.len() && !is_child(s, c)
                implies (#[trigger] s[c]).parent is None by {
                if is_child(orig, c) {
                    let (a, k): (int, int) = choose|a: int, k: int|
                        0 <= a < orig.len() && 0 <= k < orig[a].children@.len()
                            && #[trigger] orig[a].children@[k] == c;
                    assert(s[a].same_but_geometry(orig[a]));
                    assert(s[a].children@[k] == c as usize);
                    assert(is_child(s, c));
                }
                assert(s[c].same_but_geometry(orig[c]));
            }
            assert(tree_wf(s)) by {
                assert forall|i: int, k: int|
                    0 <= i < s.len() && 0 <= k < s[i].children@.len()
                    implies i < #[trigger] s[i].children@[k] && s[i].children@[k] < s.len() by {
                    assert(s[i].same_but_geometry(orig[i]));
                    assert(s[i].children@[k] == orig[i].children@[k]);
                }
                assert forall|i: int, k1: int, k2: int|
                    0 <= i < s.len() && 0 <= k1 < k2 < s[i].children@.len()
                    implies #[trigger] s[i].children@[k1] < #[trigger] s[i].children@[k2] by {
                    assert(s[i].same_but_geometry(orig[i]));
                    assert(s[i].children@[k1] == orig[i].children@[k1]);
                    assert(s[i].children@[k2] == orig[i].children@[k2]);
                }
                assert forall|i1: int, k1: int, i2: int, k2: int|
                    0 <= i1 < s.len() && 0 <= k1 < s[i1].children@.len() && 0 <= i2 < s.len()
                        && 0 <= k2 < s[i2].children@.len() && (i1 != i2 || k1 != k2)
                    implies #[trigger] s[i1].children@[k1] != #[trigger] s[i2].children@[k2] by {
                    assert(s[i1].same_but_geometry(orig[i1]));
                    assert(s[i2].same_but_geometry(orig[i2]));
                    assert(s[i1].children@[k1] == orig[i1].children@[k1]);
                    assert(s[i2].children@[k2] == orig[i2].children@[k2]);
                }
            }
        }
    }

    /// Hover-tests the subtree rooted at `index` against a mouse position.
    /// Children are tested in reverse visual order, so of two overlapping
    /// siblings the one added later wins; each child is tested against the
    /// clip rectangle narrowed by its ancestors' rectangles. The result is
    /// the topmost hit, the node itself if it is interactive and no child
    /// was hit, or a miss.
    ///
    /// Some widgets take part in hover testing only under particular mouse
    /// input modes (while an item is dragged, say). That gate is client
    /// policy, not a tree rule: the `interactive` flag carries the static
    /// part, and a client applies its mode before acting on the result or
    /// before making the call.
    pub fn hovered_element_at(&self, index: usize, x: u64, y: u64, clip: ScreenClip) -> (r:
        HoverInformation)
        requires
            self.wf(),
            tree_geometry_valid(self.nodes@),
            index < self.nodes@.len(),
        ensures
            match r {
                HoverInformation::Element(e) => spec_hover(self.nodes@, index as int, x, y, clip)
                    == Option::Some(e as int),
                HoverInformation::Missed => spec_hover(self.nodes@, index as int, x, y, clip)
                    is None,
            },
        decreases self.nodes@.len() - index,
    {
        proof {
            assert(self.nodes@[index as int].geometry_valid());
        }
        let node_left = self.nodes[index].left;
        let node_top = self.nodes[index].top;
        let node_width = self.nodes[index].width;
        let node_height = self.nodes[index].height;
        let rect = ScreenClip {
            left: node_left,
            top: node_top,
            right: node_left + node_width,
            bottom: node_top + node_height,
        };
        let inner = clip.intersect(rect);
        proof {
            assert(inner == node_clip(self.nodes@, index as int, clip));
        }
        if !inner.contains(x, y) {
            return HoverInformation::Missed;
        }
        let child_count = self.nodes[index].children.len();
        let mut k: usize = child_count;
        while k > 0
            invariant
                self.wf(),
                tree_geometry_valid(self.nodes@),
                index < self.nodes@.len(),
                k <= child_count,
                child_count == self.nodes@[index as int].children@.len(),
                inner == node_clip(self.nodes@, index as int, clip),
                inner.spec_contains(x, y),
                spec_hover_children(self.nodes@, index as int, child_count as int, x, y, inner)
                    == spec_hover_children(self.nodes@, index as int, k as int, x, y, inner),
            decreases k,
        {
            let c = self.nodes[index].children[k - 1];
            let result = self.hovered_element_at(c, x, y, inner);
            match result {
                HoverInformation::Element(e) => {
                    return HoverInformation::Element(e);
                },
                HoverInformation::Missed => {},
            }
            k -= 1;
        }
        if self.nodes[index].interactive {
            HoverInformation::Element(index)
        } else {
            HoverInformation::Missed
        }
    }

    /// Change-detection polling: compares the externally observed value
    /// against the locally cached copy and refreshes the copy on change.
    /// Returns the change signal that bubbles to the owning window: a full
    /// re-resolve is required exactly when an observer saw a new value.
    pub fn update(&mut self, index: usize, observed_value: u64) -> (r: Option<ChangeEvent>)
        requires
            index < old(self).nodes@.len(),
        ensures
            final(self).nodes@.len() == old(self).nodes@.len(),
            forall|j: int|
                0 <= j < old(self).nodes@.len() && j != index as int
                    ==> final(self).nodes@[j] == old(self).nodes@[j],
            match old(self).nodes@[index as int].observed {
                Option::Some(cached) => {
                    if cached != observed_value {
                        &&& r == Option::Some(ChangeEvent::ResolveWindow)
                        &&& final(self).nodes@[index as int] == (Element {
                            observed: Option::Some(observed_value),
                            ..old(self).nodes@[index as int]
                        })
                    } else {
                        r is None && final(self).nodes@[index as int]
                            == old(self).nodes@[index as int]
                    }
                },
                Option::None => r is None && final(self).nodes@[index as int]
                    == old(self).nodes@[index as int],
            },
    {
        let cached = self.nodes[index].observed;
        match cached {
            Option::Some(value) => {
                if value != observed_value {
                    self.nodes[index].observed = Option::Some(observed_value);
                    Option::Some(ChangeEvent::ResolveWindow)
                } else {
                    Option::None
                }
            },
            Option::None => Option::None,
        }
    }
}

} // verus!
