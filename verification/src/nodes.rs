//! Content nodes, the units they spell, and the one canonical way to cut a
//! sequence of units into nodes.

use vstd::prelude::*;
use crate::document::Unit;

verus! {

/// How many caret steps a line break takes up.
pub const BREAK_WIDTH: usize = 1;

/// A piece of content: a run of text or a line break.
#[derive(Debug, PartialEq, Eq)]
pub enum Node {
    Text(Vec<char>),
    Break,
}

/// What a content node holds.
pub enum NodeView {
    Text(Seq<char>),
    Break,
}

impl View for Node {
    type V = NodeView;

    open spec fn view(&self) -> NodeView {
        match self {
            Node::Text(text) => NodeView::Text(text@),
            Node::Break => NodeView::Break,
        }
    }
}

/// What each node of a sequence holds.
pub open spec fn views(nodes: Seq<Node>) -> Seq<NodeView> {
    Seq::new(nodes.len(), |i: int| nodes[i]@)
}

/// The character at `index` of a text as a unit.
pub open spec fn unit_at(text: Seq<char>, index: int) -> Unit {
    Unit::Char(text[index])
}

/// The characters of a text as units.
pub open spec fn text_units(text: Seq<char>) -> Seq<Unit> {
    Seq::new(text.len(), |i: int| unit_at(text, i))
}

/// The units that a node contributes to the document.
pub open spec fn node_units(node: NodeView) -> Seq<Unit> {
    match node {
        NodeView::Text(text) => text_units(text),
        NodeView::Break => seq![Unit::Break],
    }
}

/// How many caret steps a node takes up: one for each character of a text,
/// and `BREAK_WIDTH` for a line break.
pub open spec fn node_width(node: NodeView) -> nat {
    match node {
        NodeView::Text(text) => text.len(),
        NodeView::Break => BREAK_WIDTH as nat,
    }
}

/// The units of all nodes, in order.
pub open spec fn flatten(nodes: Seq<NodeView>) -> Seq<Unit>
    decreases nodes.len(),
{
    if nodes.len() == 0 {
        Seq::empty()
    } else {
        flatten(nodes.drop_last()) + node_units(nodes.last())
    }
}

/// How many caret steps lie before the node at `index`.
pub open spec fn width_before(nodes: Seq<NodeView>, index: int) -> nat {
    flatten(nodes.take(index)).len()
}

/// Whether the nodes at `index` and behind it are both texts.
pub open spec fn text_pair(nodes: Seq<NodeView>, index: int) -> bool {
    nodes[index] is Text && nodes[index + 1] is Text
}

/// No text is empty and no two texts are neighbours, so that each document
/// has one sequence of nodes.
pub open spec fn canonical(nodes: Seq<NodeView>) -> bool {
    &&& forall|i: int| 0 <= i < nodes.len() ==> node_width(#[trigger] nodes[i]) > 0
    &&& forall|i: int| 0 <= i < nodes.len() - 1 ==> !#[trigger] text_pair(nodes, i)
}

/// Appending a node appends its units.
proof fn lemma_flatten_push(nodes: Seq<NodeView>, node: NodeView)
    ensures
        flatten(nodes.push(node)) == flatten(nodes) + node_units(node),
{
    assert(nodes.push(node).drop_last() =~= nodes);
}

/// A node takes up as many caret steps as it has units.
proof fn lemma_node_units_len(node: NodeView)
    ensures
        node_units(node).len() == node_width(node),
{
    match node {
        NodeView::Text(text) => {
            assert(text_units(text).len() == text.len());
        },
        NodeView::Break => {
            assert(seq![Unit::Break].len() == 1);
        },
    }
}

/// Appending to the second of two joined sequences appends to the whole.
proof fn lemma_concat_push(head: Seq<Unit>, tail: Seq<Unit>, unit: Unit)
    ensures
        head + tail.push(unit) == (head + tail).push(unit),
{
    assert(head + tail.push(unit) =~= (head + tail).push(unit));
}

/// Appending a character to a text appends its unit.
proof fn lemma_text_units_push(text: Seq<char>, c: char)
    ensures
        text_units(text.push(c)) == text_units(text).push(Unit::Char(c)),
{
    assert(text_units(text.push(c)) =~= text_units(text).push(Unit::Char(c)));
}

/// Appending a node to canonical nodes keeps them canonical where the new
/// node is not empty and does not put two texts side by side.
proof fn lemma_canonical_push(nodes: Seq<NodeView>, node: NodeView)
    requires
        canonical(nodes),
        node_width(node) > 0,
        nodes.len() == 0 || !(nodes.last() is Text && node is Text),
    ensures
        canonical(nodes.push(node)),
{
    let pushed = nodes.push(node);
    assert forall|i: int| 0 <= i < pushed.len() implies node_width(#[trigger] pushed[i]) > 0 by {
        if i < nodes.len() {
            assert(pushed[i] == nodes[i]);
        }
    }
    assert forall|i: int| 0 <= i < pushed.len() - 1 implies !#[trigger] text_pair(pushed, i) by {
        if i < nodes.len() - 1 {
            assert(!text_pair(nodes, i));
        }
    }
}

/// The steps before a node and the node's own steps are the steps before the
/// next node.
pub proof fn lemma_width_before_next(nodes: Seq<NodeView>, index: int)
    requires
        0 <= index < nodes.len(),
    ensures
        width_before(nodes, index + 1) == width_before(nodes, index) + node_width(nodes[index]),
        flatten(nodes.take(index + 1)) == flatten(nodes.take(index)) + node_units(nodes[index]),
{
    assert(nodes.take(index + 1).drop_last() =~= nodes.take(index));
    lemma_node_units_len(nodes[index]);
}

/// The steps before a node never exceed the steps before a later one.
pub proof fn lemma_width_before_monotone(nodes: Seq<NodeView>, i: int, j: int)
    requires
        0 <= i <= j <= nodes.len(),
    ensures
        width_before(nodes, i) <= width_before(nodes, j),
    decreases j - i,
{
    if i < j {
        lemma_width_before_monotone(nodes, i, j - 1);
        lemma_width_before_next(nodes, j - 1);
    }
}

/// The units of canonical nodes that are not empty end in the last node's
/// last unit: a line break for a line break, a character for a text.
proof fn lemma_flatten_last(nodes: Seq<NodeView>)
    requires
        canonical(nodes),
        nodes.len() > 0,
    ensures
        flatten(nodes).len() >= node_width(nodes.last()) > 0,
        nodes.last() is Break <==> flatten(nodes).last() is Break,
        canonical(nodes.drop_last()),
        flatten(nodes.drop_last()) == flatten(nodes).take(
            flatten(nodes).len() - node_width(nodes.last()),
        ),
        node_units(nodes.last()) == flatten(nodes).skip(
            flatten(nodes).len() - node_width(nodes.last()),
        ),
        forall|i: int|
            flatten(nodes).len() - node_width(nodes.last()) <= i < flatten(nodes).len() ==> (
            flatten(nodes)[i] is Break <==> nodes.last() is Break),
{
    let rest = nodes.drop_last();
    let units = node_units(nodes.last());
    lemma_node_units_len(nodes.last());
    assert(nodes[nodes.len() - 1] == nodes.last());
    assert(flatten(nodes) == flatten(rest) + units);
    assert(flatten(rest) =~= flatten(nodes).take(flatten(nodes).len() - units.len()));
    assert(units =~= flatten(nodes).skip(flatten(nodes).len() - units.len()));
    assert forall|i: int| 0 <= i < rest.len() implies node_width(#[trigger] rest[i]) > 0 by {
        assert(rest[i] == nodes[i]);
    }
    assert forall|i: int| 0 <= i < rest.len() - 1 implies !#[trigger] text_pair(rest, i) by {
        assert(!text_pair(nodes, i));
    }
    assert forall|i: int| flatten(nodes).len() - units.len() <= i < flatten(nodes).len() implies (
    flatten(nodes)[i] is Break <==> nodes.last() is Break) by {
        assert(flatten(nodes)[i] == units[i - flatten(rest).len()]);
    }
}

/// Canonical nodes are determined by the units they spell: a document has
/// one sequence of nodes.
pub proof fn lemma_canonical_unique(a: Seq<NodeView>, b: Seq<NodeView>)
    requires
        canonical(a),
        canonical(b),
        flatten(a) == flatten(b),
    ensures
        a == b,
    decreases a.len(),
{
    let units = flatten(a);
    if a.len() == 0 {
        if b.len() > 0 {
            lemma_flatten_last(b);
        }
        assert(a =~= b);
    } else {
        lemma_flatten_last(a);
        assert(b.len() > 0);
        lemma_flatten_last(b);
        let wa = node_width(a.last());
        let wb = node_width(b.last());
        assert(a.last() is Break <==> b.last() is Break);
        // The last nodes are equally wide. Were `a`'s narrower, the unit in
        // front of it would be a line break, yet lie inside `b`'s last node,
        // which is a text. The same holds the other way round.
        if wa < wb {
            assert(b.last() is Text);
            lemma_flatten_last(a.drop_last());
            assert(!text_pair(a, a.len() - 2));
            assert(a.drop_last().last() == a[a.len() - 2]);
            assert(flatten(a.drop_last()).last() == units[units.len() - wa - 1]);
            assert(false);
        }
        if wb < wa {
            assert(a.last() is Text);
            lemma_flatten_last(b.drop_last());
            assert(!text_pair(b, b.len() - 2));
            assert(b.drop_last().last() == b[b.len() - 2]);
            assert(flatten(b.drop_last()).last() == units[units.len() - wb - 1]);
            assert(false);
        }
        assert(node_units(a.last()) == node_units(b.last()));
        assert(a.last() == b.last()) by {
            match (a.last(), b.last()) {
                (NodeView::Text(s), NodeView::Text(t)) => {
                    assert forall|i: int| 0 <= i < s.len() implies s[i] == t[i] by {
                        assert(text_units(s)[i] == text_units(t)[i]);
                    }
                    assert(s =~= t);
                },
                _ => {},
            }
        }
        lemma_canonical_unique(a.drop_last(), b.drop_last());
        assert(a =~= a.drop_last().push(a.last()));
        assert(b =~= b.drop_last().push(b.last()));
    }
}

impl Clone for Node {
    fn clone(&self) -> (copy: Node)
        ensures
            copy@ == self@,
    {
        match self {
            Node::Text(text) => {
                let copy = text.clone();
                assert(copy@ =~= text@);
                Node::Text(copy)
            },
            Node::Break => Node::Break,
        }
    }
}

impl Node {
    /// How many caret steps the node takes up.
    pub fn width(&self) -> (width: usize)
        ensures
            width == node_width(self@),
    {
        match self {
            Node::Text(text) => text.len(),
            Node::Break => BREAK_WIDTH,
        }
    }
}

/// The character at `index` of a text.
fn char_at(text: &Vec<char>, index: usize) -> (c: char)
    requires
        index < text.len(),
    ensures
        c == text@[index as int],
{
    text[index]
}

/// The units of the nodes, in order.
pub fn units_of(nodes: &Vec<Node>) -> (units: Vec<Unit>)
    ensures
        units@ == flatten(views(nodes@)),
{
    let mut units: Vec<Unit> = Vec::new();
    let mut i: usize = 0;
    while i < nodes.len()
        invariant
            i <= nodes.len(),
            units@ == flatten(views(nodes@).take(i as int)),
        decreases nodes.len() - i,
    {
        let ghost before = units@;
        match &nodes[i] {
            Node::Text(text) => {
                let mut j: usize = 0;
                assert(before + text_units(text@.take(0)) =~= before);
                while j < text.len()
                    invariant
                        j <= text.len(),
                        units@ == before + text_units(text@.take(j as int)),
                    decreases text.len() - j,
                {
                    let c: char = char_at(text, j);
                    proof {
                        let ghost prefix = text@.take(j as int);
                        lemma_text_units_push(prefix, c);
                        assert(text@.take(j + 1) =~= prefix.push(c));
                        lemma_concat_push(before, text_units(prefix), Unit::Char(c));
                    }
                    units.push(Unit::Char(c));
                    j += 1;
                }
                assert(text@.take(text.len() as int) == text@);
            },
            Node::Break => {
                units.push(Unit::Break);
            },
        }
        proof {
            lemma_width_before_next(views(nodes@), i as int);
        }
        i += 1;
    }
    assert(views(nodes@).take(nodes.len() as int) == views(nodes@));
    units
}

/// The one canonical sequence of nodes with the given units: each run of
/// characters becomes one text, each line break a node of its own.
pub fn group_units(units: &Vec<Unit>) -> (nodes: Vec<Node>)
    ensures
        canonical(views(nodes@)),
        flatten(views(nodes@)) == units@,
{
    let mut nodes: Vec<Node> = Vec::new();
    let mut run: Vec<char> = Vec::new();
    let mut i: usize = 0;
    assert(views(nodes@) =~= Seq::<NodeView>::empty());
    assert(flatten(views(nodes@)) + text_units(run@) =~= units@.take(0));
    while i < units.len()
        invariant
            i <= units.len(),
            canonical(views(nodes@)),
            nodes@.len() == 0 || views(nodes@).last() is Break,
            flatten(views(nodes@)) + text_units(run@) == units@.take(i as int),
        decreases units.len() - i,
    {
        let ghost done = units@.take(i as int);
        assert(units@.take(i + 1) =~= done.push(units@[i as int]));
        match units[i] {
            Unit::Char(c) => {
                proof {
                    lemma_text_units_push(run@, c);
                    assert(flatten(views(nodes@)) + text_units(run@.push(c)) =~= done.push(
                        Unit::Char(c),
                    ));
                }
                run.push(c);
            },
            Unit::Break => {
                if run.len() > 0 {
                    proof {
                        lemma_push_text(nodes@, run);
                    }
                    nodes.push(Node::Text(run));
                    run = Vec::new();
                }
                assert(flatten(views(nodes@)) =~= done) by {
                    assert(text_units(Seq::<char>::empty()) =~= Seq::<Unit>::empty());
                }
                proof {
                    lemma_push_break(nodes@);
                    assert(flatten(views(nodes@)) + seq![Unit::Break] =~= done.push(Unit::Break));
                    assert(flatten(views(nodes@.push(Node::Break))) + text_units(
                        Seq::<char>::empty(),
                    ) =~= done.push(Unit::Break));
                }
                nodes.push(Node::Break);
            },
        }
        i += 1;
    }
    assert(units@.take(units.len() as int) == units@);
    if run.len() > 0 {
        proof {
            lemma_push_text(nodes@, run);
        }
        nodes.push(Node::Text(run));
    } else {
        assert(flatten(views(nodes@)) + text_units(run@) =~= flatten(views(nodes@)));
    }
    nodes
}

/// What appending a text node does to canonical nodes that do not end in a
/// text.
proof fn lemma_push_text(nodes: Seq<Node>, run: Vec<char>)
    requires
        canonical(views(nodes)),
        nodes.len() == 0 || views(nodes).last() is Break,
        run@.len() > 0,
    ensures
        canonical(views(nodes.push(Node::Text(run)))),
        flatten(views(nodes.push(Node::Text(run)))) == flatten(views(nodes)) + text_units(run@),
        views(nodes.push(Node::Text(run))).last() is Text,
{
    assert(views(nodes.push(Node::Text(run))) =~= views(nodes).push(NodeView::Text(run@)));
    lemma_flatten_push(views(nodes), NodeView::Text(run@));
    lemma_canonical_push(views(nodes), NodeView::Text(run@));
}

/// What appending a line break does to canonical nodes.
proof fn lemma_push_break(nodes: Seq<Node>)
    requires
        canonical(views(nodes)),
    ensures
        canonical(views(nodes.push(Node::Break))),
        flatten(views(nodes.push(Node::Break))) == flatten(views(nodes)) + seq![Unit::Break],
        views(nodes.push(Node::Break)).last() is Break,
{
    assert(views(nodes.push(Node::Break)) =~= views(nodes).push(NodeView::Break));
    lemma_flatten_push(views(nodes), NodeView::Break);
    lemma_canonical_push(views(nodes), NodeView::Break);
}

} // verus!
