//! The document state: content nodes and the selection, what keys do to
//! them, and how they are rendered.

use vstd::prelude::*;
use virtual_dom_rs::VirtualNode;
use crate::document::{
    apply_key, at_most, empty_document, lemma_motion_target_bounds, splice, splice_units,
    target_of, Document, Unit,
};
use crate::keys::{Key, Motion};
use crate::nodes::{
    canonical, flatten, group_units, lemma_canonical_unique, lemma_width_before_monotone,
    lemma_width_before_next, units_of, views, width_before, Node, NodeView,
};
use crate::vdom::{line_break, line_break_tree, node_tree, text_node, trees, VTree};

verus! {

/// The tree that a node is rendered to: a text node for a text, a `br`
/// element for a line break.
pub open spec fn render_node(node: NodeView) -> VTree {
    match node {
        NodeView::Text(text) => VTree::Text(text),
        NodeView::Break => line_break_tree(),
    }
}

/// The trees that a sequence of nodes is rendered to: one for each node, in
/// order, and behind them the anchor, a `br` element that gives the caret a
/// place at the end of the document.
pub open spec fn render_nodes(nodes: Seq<NodeView>) -> Seq<VTree> {
    Seq::new(nodes.len() + 1, |i: int| if i < nodes.len() {
        render_node(nodes[i])
    } else {
        line_break_tree()
    })
}

/// Which of two neighbouring nodes a caret between them belongs to.
#[derive(Clone, Copy, Debug, PartialEq, Eq)]
pub enum Direction {
    /// The node that ends at the caret.
    Before,
    /// The node that begins at the caret.
    After,
}

/// A place inside a node.
#[derive(Clone, Copy, Debug, PartialEq, Eq)]
pub struct NodeIndexOffset {
    /// The node's index.
    pub index: usize,
    /// The offset from the node's start, in caret steps.
    pub offset: usize,
}

/// Whether the node at `index` ends far enough to hold a caret at offset
/// `caret`: behind the caret for `After`, at or behind it for `Before`.
pub open spec fn reaches(
    nodes: Seq<NodeView>,
    caret: nat,
    direction: Direction,
    index: int,
) -> bool {
    match direction {
        Direction::Before => caret <= width_before(nodes, index + 1),
        Direction::After => caret < width_before(nodes, index + 1),
    }
}

/// The first node that reaches the caret, with the caret's offset in it, or
/// `None` where no node does.
pub open spec fn is_start_node(
    nodes: Seq<NodeView>,
    caret: nat,
    direction: Direction,
    found: Option<NodeIndexOffset>,
) -> bool {
    match found {
        Some(place) => {
            &&& place.index < nodes.len()
            &&& reaches(nodes, caret, direction, place.index as int)
            &&& forall|j: int| 0 <= j < place.index ==> !reaches(nodes, caret, direction, j)
            &&& place.offset == caret - width_before(nodes, place.index as int)
        },
        None => forall|j: int| 0 <= j < nodes.len() ==> !reaches(nodes, caret, direction, j),
    }
}

/// At most one answer names the start node: the first node that reaches the
/// caret is one node, and the caret has one offset in it.
pub proof fn lemma_start_node_unique(
    nodes: Seq<NodeView>,
    caret: nat,
    direction: Direction,
    first: Option<NodeIndexOffset>,
    second: Option<NodeIndexOffset>,
)
    requires
        is_start_node(nodes, caret, direction, first),
        is_start_node(nodes, caret, direction, second),
    ensures
        first == second,
{
    match (first, second) {
        (Some(a), Some(b)) => {
            if a.index < b.index {
                assert(!reaches(nodes, caret, direction, a.index as int));
            }
            if b.index < a.index {
                assert(!reaches(nodes, caret, direction, b.index as int));
            }
        },
        (Some(a), None) => {
            assert(!reaches(nodes, caret, direction, a.index as int));
        },
        (None, Some(b)) => {
            assert(!reaches(nodes, caret, direction, b.index as int));
        },
        (None, None) => {},
    }
}

/// The content of the editing area and the selection in it.
#[derive(Debug)]
pub struct State {
    nodes: Vec<Node>,
    caret_start: usize,
    caret_end: usize,
    backward: bool,
}

impl View for State {
    type V = Document;

    closed spec fn view(&self) -> Document {
        Document {
            content: flatten(views(self.nodes@)),
            start: self.caret_start as nat,
            end: self.caret_end as nat,
            backward: self.backward,
        }
    }
}

impl State {
    /// What the state's nodes hold, in order.
    pub closed spec fn nodes_view(&self) -> Seq<NodeView> {
        views(self.nodes@)
    }

    /// The nodes are canonical and spell the document's content, and the
    /// selection is ordered and lies within the content.
    pub open spec fn wf(&self) -> bool {
        &&& canonical(self.nodes_view())
        &&& flatten(self.nodes_view()) == self@.content
        &&& self@.valid()
    }

    /// A well-formed state is determined by its document: two such states
    /// with the same content hold the same nodes.
    pub proof fn lemma_nodes_determined(&self, other: &State)
        requires
            self.wf(),
            other.wf(),
            self@.content == other@.content,
        ensures
            self.nodes_view() == other.nodes_view(),
    {
        lemma_canonical_unique(self.nodes_view(), other.nodes_view());
    }

    /// An empty document with the caret at its start.
    pub fn new() -> (state: State)
        ensures
            state.wf(),
            state.nodes_view() == Seq::<NodeView>::empty(),
            state@ == empty_document(),
    {
        let state = State { nodes: Vec::new(), caret_start: 0, caret_end: 0, backward: false };
        assert(views(state.nodes@) =~= Seq::<NodeView>::empty());
        state
    }

    /// The content nodes, in order.
    pub fn nodes(&self) -> (nodes: &Vec<Node>)
        ensures
            views(nodes@) == self.nodes_view(),
    {
        &self.nodes
    }

    /// The number of content nodes.
    pub fn node_count(&self) -> (count: usize)
        ensures
            count == self.nodes_view().len(),
    {
        self.nodes.len()
    }

    /// Where the selection starts.
    pub fn caret_start(&self) -> (start: usize)
        ensures
            start == self@.start,
    {
        self.caret_start
    }

    /// Where the selection ends.
    pub fn caret_end(&self) -> (end: usize)
        ensures
            end == self@.end,
    {
        self.caret_end
    }

    /// Whether the selection's active end is its start.
    pub fn is_backward(&self) -> (backward: bool)
        ensures
            backward == self@.backward,
    {
        self.backward
    }

    /// The offset, or the content's length where the offset lies behind it.
    fn clamp(&self, offset: usize) -> (clamped: usize)
        ensures
            clamped == at_most(offset as int, self@.content.len() as int),
    {
        let mut rest: usize = offset;
        let mut i: usize = 0;
        while i < self.nodes.len()
            invariant
                i <= self.nodes.len(),
                rest == offset - width_before(views(self.nodes@), i as int),
            decreases self.nodes.len() - i,
        {
            let width: usize = self.nodes[i].width();
            proof {
                lemma_width_before_next(views(self.nodes@), i as int);
                lemma_width_before_monotone(views(self.nodes@), i + 1, self.nodes.len() as int);
                assert(views(self.nodes@).take(self.nodes.len() as int) == views(self.nodes@));
            }
            if rest <= width {
                return offset;
            }
            rest -= width;
            i += 1;
        }
        assert(views(self.nodes@).take(self.nodes.len() as int) == views(self.nodes@));
        offset - rest
    }

    /// Set the selection.
    ///
    /// A request whose end lies before its start is rejected: it changes
    /// nothing. Offsets behind the end of the content are taken to mean the
    /// end of the content. The selection's active end is its end.
    pub fn set_caret_position(&mut self, start: usize, end: usize)
        requires
            old(self).wf(),
        ensures
            final(self).wf(),
            final(self).nodes_view() == old(self).nodes_view(),
            final(self)@.content == old(self)@.content,
            end < start ==> *final(self) == *old(self),
            start <= end ==> final(self)@.start == at_most(
                start as int,
                old(self)@.content.len() as int,
            ),
            start <= end ==> final(self)@.end == at_most(
                end as int,
                old(self)@.content.len() as int,
            ),
            start <= end ==> !final(self)@.backward,
    {
        if end < start {
            return;
        }
        let clamped_start: usize = self.clamp(start);
        let clamped_end: usize = self.clamp(end);
        self.caret_start = clamped_start;
        self.caret_end = clamped_end;
        self.backward = false;
    }

    /// Find the node where the selection starts, and the caret's offset in
    /// it.
    ///
    /// Where the caret stands between two nodes, the direction says which of
    /// them is meant. `None` means that no node holds the caret: it stands
    /// behind all content, or, for `Before`, the document is empty.
    pub fn find_start_node(&self, direction: Direction) -> (found: Option<NodeIndexOffset>)
        ensures
            is_start_node(self.nodes_view(), self@.start, direction, found),
    {
        let mut offset: usize = self.caret_start;
        let mut index: usize = 0;
        while index < self.nodes.len()
            invariant
                index <= self.nodes.len(),
                offset == self.caret_start - width_before(views(self.nodes@), index as int),
                forall|j: int|
                    0 <= j < index ==> !reaches(
                        views(self.nodes@),
                        self.caret_start as nat,
                        direction,
                        j,
                    ),
            decreases self.nodes.len() - index,
        {
            let width: usize = self.nodes[index].width();
            proof {
                lemma_width_before_next(views(self.nodes@), index as int);
            }
            let inside: bool = match direction {
                Direction::Before => offset <= width,
                Direction::After => offset < width,
            };
            if inside {
                return Some(NodeIndexOffset { index, offset });
            }
            offset -= width;
            index += 1;
        }
        None
    }

    /// Replace the units from `from` up to `to` by `inserted`, and put the
    /// caret behind what was inserted.
    fn replace_units(&mut self, from: usize, to: usize, inserted: Option<Unit>)
        requires
            old(self).wf(),
            from <= to <= old(self)@.content.len(),
        ensures
            final(self).wf(),
            final(self)@.content == splice(
                old(self)@.content,
                from as int,
                to as int,
                inserted,
            ),
            final(self)@.start == from + (if inserted is Some {
                1nat
            } else {
                0nat
            }),
            final(self)@.end == final(self)@.start,
            !final(self)@.backward,
    {
        let units = units_of(&self.nodes);
        let spliced = splice_units(&units, from, to, inserted);
        // The caret goes behind what was inserted: in front of what was behind `to`.
        let caret: usize = spliced.len() - (units.len() - to);
        self.nodes = group_units(&spliced);
        self.caret_start = caret;
        self.caret_end = caret;
        self.backward = false;
    }

    /// Apply the action of a key to the document.
    pub fn handle_key(&mut self, key: Key)
        requires
            old(self).wf(),
        ensures
            final(self).wf(),
            final(self)@ == apply_key(old(self)@, key),
            final(self)@.start <= final(self)@.end <= final(self)@.content.len(),
            key is Move || key is Extend ==> final(self).nodes_view() == old(self).nodes_view(),
    {
        let start: usize = self.caret_start;
        let end: usize = self.caret_end;
        match key {
            Key::Character(c) => {
                self.replace_units(start, end, Some(Unit::Char(c)));
            },
            Key::Enter => {
                self.replace_units(start, end, Some(Unit::Break));
            },
            Key::Backspace => {
                if start < end {
                    self.replace_units(start, end, None);
                } else if start > 0 {
                    self.replace_units(start - 1, start, None);
                }
            },
            Key::Delete => {
                if start < end {
                    self.replace_units(start, end, None);
                } else {
                    let units = units_of(&self.nodes);
                    if start < units.len() {
                        self.replace_units(start, start + 1, None);
                    }
                }
            },
            Key::Move(motion) => {
                let caret: usize = if start < end && matches!(motion, Motion::Left) {
                    start
                } else if start < end && matches!(motion, Motion::Right) {
                    end
                } else {
                    let units = units_of(&self.nodes);
                    if motion.backward() {
                        target_of(&units, motion, start)
                    } else {
                        target_of(&units, motion, end)
                    }
                };
                self.caret_start = caret;
                self.caret_end = caret;
                self.backward = false;
            },
            Key::Extend(motion) => {
                let units = units_of(&self.nodes);
                let (anchor, active): (usize, usize) = if self.backward {
                    (end, start)
                } else {
                    (start, end)
                };
                let target: usize = target_of(&units, motion, active);
                if target < anchor {
                    self.caret_start = target;
                    self.caret_end = anchor;
                    self.backward = true;
                } else {
                    self.caret_start = anchor;
                    self.caret_end = target;
                    self.backward = false;
                }
            },
        }
    }

    /// Render the content: one virtual node for each content node, and the
    /// anchor behind them.
    pub fn to_virtual_nodes(&self) -> (rendered: Vec<VirtualNode>)
        ensures
            trees(rendered@) == render_nodes(self.nodes_view()),
            rendered@.len() == self.nodes_view().len() + 1,
    {
        let mut rendered: Vec<VirtualNode> = Vec::new();
        let mut i: usize = 0;
        while i < self.nodes.len()
            invariant
                i <= self.nodes.len(),
                rendered@.len() == i,
                forall|j: int| 0 <= j < i ==> node_tree(rendered@[j]) == render_node(self.nodes@[j]@),
            decreases self.nodes.len() - i,
        {
            let node = match &self.nodes[i] {
                Node::Text(text) => text_node(text),
                Node::Break => line_break(),
            };
            rendered.push(node);
            i += 1;
        }
        rendered.push(line_break());
        assert(trees(rendered@) =~= render_nodes(views(self.nodes@)));
        rendered
    }
}

} // verus!
