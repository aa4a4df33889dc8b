//! The virtual tree that a document is rendered to, and the calls into the
//! virtual DOM crate that build and compare such trees.
//!
//! The crate's nodes are opaque here. What a node holds is named by
//! [`node_tree`], and the few functions below that call into the crate are
//! believed, not proved: each says in its comment what it claims.

use vstd::prelude::*;
use virtual_dom_rs::{Patch, VElement, VirtualNode};

verus! {

/// `virtual_dom_rs::VirtualNode`, carried through as an opaque value.
#[verifier::external_type_specification]
#[verifier::external_body]
pub struct ExVirtualNode(VirtualNode);

/// `virtual_dom_rs::VElement`, carried through as an opaque value.
#[verifier::external_type_specification]
#[verifier::external_body]
pub struct ExVElement(VElement);

/// `virtual_dom_rs::Patch`, carried through as an opaque value.
#[verifier::external_type_specification]
#[verifier::external_body]
pub struct ExPatch<'a>(Patch<'a>);

/// What an element of a virtual tree holds: its tag, its attributes and its
/// children in order. Event handlers are left out; this library sets none.
pub struct ElementTree {
    pub tag: Seq<char>,
    pub attrs: Map<Seq<char>, Seq<char>>,
    pub children: Seq<VTree>,
}

/// What a virtual node holds.
pub enum VTree {
    Text(Seq<char>),
    Element(ElementTree),
}

/// The tree that a virtual node holds.
pub uninterp spec fn node_tree(node: VirtualNode) -> VTree;

/// What a virtual element holds.
pub uninterp spec fn element_tree(element: VElement) -> ElementTree;

/// What a patch holds: the index of the node that it changes, counted depth
/// first from the root, and what changes there.
pub enum PatchView {
    /// Append children with the given trees.
    AppendChildren(nat, Seq<VTree>),
    /// Keep only the given number of children.
    TruncateChildren(nat, nat),
    /// Replace the node by one with the given tree.
    Replace(nat, VTree),
    /// Set the given attributes.
    AddAttributes(nat, Map<Seq<char>, Seq<char>>),
    /// Remove the attributes of the given names.
    RemoveAttributes(nat, Set<Seq<char>>),
    /// Change the node's text to the given one.
    ChangeText(nat, Seq<char>),
}

/// What a patch holds.
pub uninterp spec fn patch_view(patch: Patch) -> PatchView;

/// The patches that `virtual_dom_rs::diff` lists between a node with the first
/// tree and a node with the second.
pub uninterp spec fn tree_diff(old_tree: VTree, new_tree: VTree) -> Seq<PatchView>;

/// Whether the patches hold, one by one, what the views say.
pub open spec fn patches_hold(patches: Seq<Patch>, views: Seq<PatchView>) -> bool {
    &&& patches.len() == views.len()
    &&& forall|i: int| 0 <= i < patches.len() ==> patch_view(#[trigger] patches[i]) == views[i]
}

/// The trees of a sequence of virtual nodes.
pub open spec fn trees(nodes: Seq<VirtualNode>) -> Seq<VTree> {
    Seq::new(nodes.len(), |i: int| node_tree(nodes[i]))
}

/// Calls `VirtualNode::text`, which makes a text node of the given string.
/// Claimed: the node holds exactly the given characters.
#[verifier::external_body]
pub(crate) fn text_node(text: &Vec<char>) -> (node: VirtualNode)
    ensures
        node_tree(node) == VTree::Text(text@),
{
    VirtualNode::text(text.iter().collect::<String>())
}

/// Calls `VElement::new`. Claimed: the element has the given tag, no
/// attributes and no children.
#[verifier::external_body]
pub(crate) fn new_element(tag: &str) -> (element: VElement)
    ensures
        element_tree(element) == (ElementTree {
            tag: tag@,
            attrs: Map::empty(),
            children: Seq::empty(),
        }),
{
    VElement::new(tag)
}

/// Inserts into the element's public attribute map. Claimed: the attribute
/// is set to the value, replacing an earlier value of that name, and nothing
/// else about the element changes.
#[verifier::external_body]
pub(crate) fn set_attribute(element: &mut VElement, name: &str, value: &str)
    ensures
        element_tree(*final(element)) == (ElementTree {
            attrs: element_tree(*old(element)).attrs.insert(name@, value@),
            ..element_tree(*old(element))
        }),
{
    element.attrs.insert(name.into(), value.to_string());
}

/// Assigns the element's public list of children. Claimed: the element's
/// children are the given nodes, in order, and nothing else about it changes.
#[verifier::external_body]
pub(crate) fn set_children(element: &mut VElement, children: Vec<VirtualNode>)
    ensures
        element_tree(*final(element)) == (ElementTree {
            children: trees(children@),
            ..element_tree(*old(element))
        }),
{
    element.children = children;
}

/// Calls the conversion from `VElement` to `VirtualNode`. Claimed: the node
/// is an element node that holds what the element held.
#[verifier::external_body]
pub(crate) fn into_node(element: VElement) -> (node: VirtualNode)
    ensures
        node_tree(node) == VTree::Element(element_tree(element)),
{
    element.into()
}

/// Calls `virtual_dom_rs::diff`, which lists the changes that turn the old
/// node into the new one. Claimed: what the patches hold depends on the two
/// trees alone, and between two nodes that hold the same tree there is
/// nothing to change. The function compares variants, tags, attributes,
/// texts and children, pair by pair, and looks at nothing else.
#[verifier::external_body]
pub(crate) fn diff_nodes<'a>(old_node: &'a VirtualNode, new_node: &'a VirtualNode) -> (patches: Vec<
    Patch<'a>,
>)
    ensures
        patches@.len() == tree_diff(node_tree(*old_node), node_tree(*new_node)).len(),
        forall|i: int|
            0 <= i < patches@.len() ==> patch_view(#[trigger] patches@[i]) == tree_diff(
                node_tree(*old_node),
                node_tree(*new_node),
            )[i],
        node_tree(*old_node) == node_tree(*new_node) ==> patches@.len() == 0,
{
    virtual_dom_rs::diff(old_node, new_node)
}

/// The tree of a line break: an empty `br` element.
pub open spec fn line_break_tree() -> VTree {
    VTree::Element(ElementTree { tag: "br"@, attrs: Map::empty(), children: Seq::empty() })
}

/// The attributes of the wrapper element: its id, its marker classes, and the
/// flag that makes it editable.
pub open spec fn wrapper_attrs(wrapper_id: Seq<char>) -> Map<Seq<char>, Seq<char>> {
    Map::empty().insert("id"@, wrapper_id).insert("class"@, "cawrapper initialized"@).insert(
        "contenteditable"@,
        "true"@,
    )
}

/// The tree of the wrapper element around the given children.
pub open spec fn wrapper_tree(children: Seq<VTree>, wrapper_id: Seq<char>) -> VTree {
    VTree::Element(ElementTree { tag: "div"@, attrs: wrapper_attrs(wrapper_id), children })
}

/// A line break element.
pub fn line_break() -> (node: VirtualNode)
    ensures
        node_tree(node) == line_break_tree(),
{
    into_node(new_element("br"))
}

/// Wrap the list of virtual nodes in a content editable wrapper element.
pub fn wrap(virtual_nodes: Vec<VirtualNode>, wrapper_id: &str) -> (wrapper: VirtualNode)
    ensures
        node_tree(wrapper) == wrapper_tree(trees(virtual_nodes@), wrapper_id@),
{
    let mut wrapper = new_element("div");
    set_attribute(&mut wrapper, "id", wrapper_id);
    set_attribute(&mut wrapper, "class", "cawrapper initialized");
    set_attribute(&mut wrapper, "contenteditable", "true");
    set_children(&mut wrapper, virtual_nodes);
    into_node(wrapper)
}

} // verus!
