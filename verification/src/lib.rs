//! An editing area for plain text with line breaks.
//!
//! The area keeps a document and a selection, turns key presses into edits,
//! renders the document to a virtual tree, and says where the browser's
//! caret belongs once the page shows that tree. Touching the page itself is
//! left to the caller, who for each key press
//!
//! 1. hands the key's name to [`process_key`],
//! 2. applies the patches of [`diff_update`] to the page, and
//! 3. puts the caret where [`state::State::caret_request`] says.

use vstd::prelude::*;
use virtual_dom_rs::{Patch, VirtualNode};
use crate::document::{apply_key, at_most, empty_document};
use crate::keys::{parse_key, Key};
use crate::state::{render_nodes, State};
use crate::vdom::{diff_nodes, node_tree, patches_hold, tree_diff, wrap, wrapper_tree, VTree};

pub mod caret;
pub mod document;
pub mod keys;
pub mod nodes;
pub mod state;
pub mod vdom;

verus! {

/// An editing area bound to the element of a page.
pub struct Context {
    pub state: State,
    pub wrapper_id: String,
}

/// The rendered trees on both sides of a key press.
pub struct Update {
    /// The tree before the key was handled.
    pub before: VirtualNode,
    /// The tree after it.
    pub after: VirtualNode,
}

impl Context {
    /// The tree that the area is rendered to: the wrapper element around the
    /// rendered nodes and the anchor.
    pub open spec fn tree(&self) -> VTree {
        wrapper_tree(render_nodes(self.state.nodes_view()), self.wrapper_id@)
    }

    /// Two areas with the same id render to the same root: the element's
    /// tag and attributes depend on the id alone, so that only the children
    /// can differ from one rendering to the next.
    pub proof fn lemma_same_root(&self, other: &Context)
        requires
            self.wrapper_id@ == other.wrapper_id@,
        ensures
            self.tree() matches VTree::Element(mine) && other.tree() matches VTree::Element(theirs)
                && mine.tag == theirs.tag && mine.attrs == theirs.attrs,
    {
    }

    /// Rendering depends on the content and the id alone: two areas with the
    /// same id whose documents have the same content render to the same tree,
    /// wherever their carets stand.
    pub proof fn lemma_tree_determined(&self, other: &Context)
        requires
            self.state.wf(),
            other.state.wf(),
            self.state@.content == other.state@.content,
            self.wrapper_id@ == other.wrapper_id@,
        ensures
            self.tree() == other.tree(),
    {
        self.state.lemma_nodes_determined(&other.state);
    }

    /// Render the area. The wrapper gets one child for each node of the
    /// document, and the anchor.
    pub fn render(&self) -> (rendered: VirtualNode)
        ensures
            node_tree(rendered) == self.tree(),
            node_tree(rendered) matches VTree::Element(wrapper) && wrapper.children.len()
                == self.state.nodes_view().len() + 1,
    {
        wrap(self.state.to_virtual_nodes(), self.wrapper_id.as_str())
    }
}

/// Initialize a new compose area for the wrapper with the specified `id`.
pub fn bind_to(id: &str) -> (ctx: Context)
    ensures
        ctx.state.wf(),
        ctx.state@ == empty_document(),
        ctx.state.nodes_view().len() == 0,
        ctx.wrapper_id@ == id@,
{
    Context { state: State::new(), wrapper_id: id.to_owned() }
}

/// Handle a key press.
///
/// Input that stands for no action changes nothing and gives `None`; the key
/// is then left to the platform. Any other input is applied to the document,
/// and the result holds the area as rendered before and after. The tree
/// after has one child for each node of the document, and the anchor. A key
/// that only moves the caret leaves the tree as it was.
pub fn process_key(ctx: &mut Context, key_val: &str) -> (update: Option<Update>)
    requires
        old(ctx).state.wf(),
    ensures
        final(ctx).state.wf(),
        final(ctx).wrapper_id == old(ctx).wrapper_id,
        match parse_key(key_val@) {
            None => update is None && *final(ctx) == *old(ctx),
            Some(key) => {
                &&& final(ctx).state@ == apply_key(old(ctx).state@, key)
                &&& update matches Some(trees)
                &&& node_tree(trees.before) == old(ctx).tree()
                &&& node_tree(trees.after) == final(ctx).tree()
                &&& node_tree(trees.after) matches VTree::Element(wrapper)
                &&& wrapper.children.len() == final(ctx).state.nodes_view().len() + 1
                &&& key is Move || key is Extend ==> node_tree(trees.before) == node_tree(
                    trees.after,
                )
            },
        },
{
    let key = match Key::from_str(key_val) {
        Some(key) => key,
        None => {
            return None;
        },
    };
    let before = ctx.render();
    ctx.state.handle_key(key);
    let after = ctx.render();
    Some(Update { before, after })
}

/// The changes that turn the tree before a key press into the tree after it.
/// Where the two are the same there are none.
pub fn diff_update<'a>(update: &'a Update) -> (patches: Vec<Patch<'a>>)
    ensures
        patches_hold(patches@, tree_diff(node_tree(update.before), node_tree(update.after))),
        node_tree(update.before) == node_tree(update.after) ==> patches@.len() == 0,
{
    diff_nodes(&update.before, &update.after)
}

/// Set the start and end of the selection.
///
/// A request whose end lies before its start changes nothing. Offsets behind
/// the end of the content are taken to mean the end of the content.
pub fn update_caret_position(ctx: &mut Context, start: usize, end: usize)
    requires
        old(ctx).state.wf(),
    ensures
        final(ctx).state.wf(),
        end < start ==> *final(ctx) == *old(ctx),
        final(ctx).wrapper_id == old(ctx).wrapper_id,
        final(ctx).state.nodes_view() == old(ctx).state.nodes_view(),
        final(ctx).state@.content == old(ctx).state@.content,
        start <= end ==> final(ctx).state@.start == at_most(
            start as int,
            old(ctx).state@.content.len() as int,
        ),
        start <= end ==> final(ctx).state@.end == at_most(
            end as int,
            old(ctx).state@.content.len() as int,
        ),
        start <= end ==> !final(ctx).state@.backward,
{
    ctx.state.set_caret_position(start, end);
}

} // verus!
