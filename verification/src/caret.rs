//! Where the browser's caret goes: from the selection's start to a place
//! among the children of the rendered wrapper.

use vstd::prelude::*;
use crate::nodes::{lemma_width_before_next, NodeView};
use crate::state::{is_start_node, lemma_start_node_unique, Direction, NodeIndexOffset, State};

verus! {

/// A place for the caret among the wrapper's children, each named by its
/// index.
#[derive(Clone, Copy, Debug, PartialEq, Eq)]
pub enum RangeRequest {
    /// Directly before the child.
    Before(u32),
    /// Inside the child, which is a text, behind `offset` of its characters.
    Offset(u32, usize),
    /// Directly behind the child.
    After(u32),
}

impl RangeRequest {
    /// The index of the child that the request names.
    pub open spec fn child(self) -> u32 {
        match self {
            RangeRequest::Before(index) => index,
            RangeRequest::Offset(index, _) => index,
            RangeRequest::After(index) => index,
        }
    }

    /// The index of the child that the request names.
    pub fn index(&self) -> (index: u32)
        ensures
            index == self.child(),
    {
        match self {
            RangeRequest::Before(index) => *index,
            RangeRequest::Offset(index, _) => *index,
            RangeRequest::After(index) => *index,
        }
    }
}

/// The start node that a request stands for: `None` for a request behind the
/// last child.
pub open spec fn start_node_of(request: RangeRequest) -> Option<NodeIndexOffset> {
    match request {
        RangeRequest::Before(index) => Some(NodeIndexOffset { index: index as usize, offset: 0 }),
        RangeRequest::Offset(index, offset) => Some(
            NodeIndexOffset { index: index as usize, offset },
        ),
        RangeRequest::After(_) => None,
    }
}

/// The request for a caret at offset `caret` in a document of the given
/// nodes, rendered to `live_children` children.
///
/// The caret goes into the node that begins at it or holds it. At the node's
/// very start the request is for the place before the node, since not every
/// child can hold a caret inside. A caret behind all content goes behind the
/// last child.
pub open spec fn is_request_for(
    nodes: Seq<NodeView>,
    caret: nat,
    live_children: u32,
    request: RangeRequest,
) -> bool {
    &&& is_start_node(nodes, caret, Direction::After, start_node_of(request))
    &&& request matches RangeRequest::Offset(_, offset) ==> offset > 0
    &&& request matches RangeRequest::After(index) ==> index == live_children - 1
}

/// At most one request fits a caret.
pub proof fn lemma_request_unique(
    nodes: Seq<NodeView>,
    caret: nat,
    live_children: u32,
    first: RangeRequest,
    second: RangeRequest,
)
    requires
        is_request_for(nodes, caret, live_children, first),
        is_request_for(nodes, caret, live_children, second),
    ensures
        first == second,
{
    lemma_start_node_unique(
        nodes,
        caret,
        Direction::After,
        start_node_of(first),
        start_node_of(second),
    );
}

impl State {
    /// The place among the wrapper's children where the browser's caret
    /// belongs.
    ///
    /// The wrapper must hold one child for each node and the anchor behind
    /// them. The request then always names a child that exists, and asks for
    /// a place inside a child only where that child is a text.
    pub fn caret_request(&self, live_children: u32) -> (request: RangeRequest)
        requires
            live_children == self.nodes_view().len() + 1,
        ensures
            is_request_for(self.nodes_view(), self@.start, live_children, request),
            request.child() < live_children,
            request matches RangeRequest::Offset(index, offset) ==> {
                &&& self.nodes_view()[index as int] matches NodeView::Text(text)
                &&& 0 < offset < text.len()
            },
    {
        match self.find_start_node(Direction::After) {
            Some(place) => {
                proof {
                    lemma_width_before_next(self.nodes_view(), place.index as int);
                }
                if place.offset == 0 {
                    RangeRequest::Before(place.index as u32)
                } else {
                    RangeRequest::Offset(place.index as u32, place.offset)
                }
            },
            None => RangeRequest::After(live_children - 1),
        }
    }
}

} // verus!
