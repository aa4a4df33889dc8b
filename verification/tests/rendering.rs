use compose_area::keys::Key;
use compose_area::state::State;
use compose_area::vdom::{line_break, wrap};
use compose_area::{bind_to, diff_update, process_key, update_caret_position, Context, Update};
use virtual_dom_rs::{Patch, VElement, VText, VirtualNode};

fn area(keys: &[&str]) -> Context {
    let mut ctx = bind_to("area");
    for key in keys {
        assert!(process_key(&mut ctx, key).is_some());
    }
    ctx
}

fn br() -> VirtualNode {
    VirtualNode::Element(VElement::new("br"))
}

fn text(s: &str) -> VirtualNode {
    VirtualNode::Text(VText::new(s))
}

fn wrapper(id: &str, children: Vec<VirtualNode>) -> VirtualNode {
    let mut element = VElement::new("div");
    element.attrs.insert("id".to_string(), id.to_string());
    element.attrs.insert("class".to_string(), "cawrapper initialized".to_string());
    element.attrs.insert("contenteditable".to_string(), "true".to_string());
    element.children = children;
    VirtualNode::Element(element)
}

fn children(node: &VirtualNode) -> &Vec<VirtualNode> {
    &node.as_velement_ref().expect("an element").children
}

#[test]
fn an_empty_document_renders_to_the_anchor() {
    let state = State::new();
    assert_eq!(state.to_virtual_nodes(), vec![br()]);
}

#[test]
fn each_node_renders_to_one_virtual_node() {
    let mut state = State::new();
    for key in [Key::Character('a'), Key::Character('b'), Key::Enter, Key::Enter, Key::Character('c')] {
        state.handle_key(key);
    }
    assert_eq!(state.to_virtual_nodes(), vec![text("ab"), br(), br(), text("c"), br()]);
}

#[test]
fn text_is_rendered_character_for_character() {
    let mut state = State::new();
    for c in "a <b> é😀".chars() {
        state.handle_key(Key::Character(c));
    }
    assert_eq!(state.to_virtual_nodes(), vec![text("a <b> é😀"), br()]);
}

#[test]
fn a_line_break_is_an_empty_br_element() {
    let node = line_break();
    let element = node.as_velement_ref().expect("an element");
    assert_eq!(element.tag, "br");
    assert!(element.attrs.is_empty());
    assert!(element.children.is_empty());
}

#[test]
fn the_wrapper_is_an_editable_div() {
    let node = wrap(vec![text("x"), br()], "compose");
    let element = node.as_velement_ref().expect("an element");
    assert_eq!(element.tag, "div");
    assert_eq!(element.attrs.len(), 3);
    assert_eq!(element.attrs.get("id").map(String::as_str), Some("compose"));
    assert_eq!(element.attrs.get("class").map(String::as_str), Some("cawrapper initialized"));
    assert_eq!(element.attrs.get("contenteditable").map(String::as_str), Some("true"));
    assert_eq!(element.children, vec![text("x"), br()]);
}

#[test]
fn the_wrapper_of_nothing_has_no_children() {
    assert_eq!(wrap(Vec::new(), "w"), wrapper("w", Vec::new()));
}

#[test]
fn a_bound_area_is_empty() {
    let ctx = bind_to("editor");
    assert_eq!(ctx.wrapper_id, "editor");
    assert_eq!(ctx.state.node_count(), 0);
    assert_eq!(ctx.state.caret_start(), 0);
    assert_eq!(ctx.state.caret_end(), 0);
    assert_eq!(ctx.render(), wrapper("editor", vec![br()]));
}

#[test]
fn the_area_renders_inside_its_wrapper() {
    let ctx = area(&["h", "i", "Enter", "!"]);
    assert_eq!(ctx.render(), wrapper("area", vec![text("hi"), br(), text("!"), br()]));
}

#[test]
fn a_key_gives_the_trees_before_and_after() {
    let mut ctx = area(&["a"]);
    let update = process_key(&mut ctx, "b").expect("handled");
    assert_eq!(update.before, wrapper("area", vec![text("a"), br()]));
    assert_eq!(update.after, wrapper("area", vec![text("ab"), br()]));
}

#[test]
fn an_unknown_key_is_not_handled() {
    let mut ctx = area(&["a", "b"]);
    update_caret_position(&mut ctx, 1, 1);
    for key in ["", "F5", "ab", "Shift+", "Escape"] {
        assert!(process_key(&mut ctx, key).is_none());
        assert_eq!(ctx.render(), wrapper("area", vec![text("ab"), br()]));
        assert_eq!((ctx.state.caret_start(), ctx.state.caret_end()), (1, 1));
        assert_eq!(ctx.wrapper_id, "area");
    }
}

#[test]
fn the_wrapper_holds_one_child_for_each_node_and_the_anchor() {
    let mut ctx = bind_to("area");
    assert_eq!(children(&ctx.render()).len(), 1);
    let keys = ["a", "b", "Enter", "Enter", "c", "Backspace", "Backspace", "ArrowUp", "x", "Shift+End", "Delete", "Enter"];
    for key in keys {
        let update = process_key(&mut ctx, key).expect("handled");
        assert_eq!(children(&update.after).len(), ctx.state.node_count() + 1);
        assert_eq!(children(&ctx.render()).len(), ctx.state.node_count() + 1);
    }
}

#[test]
fn a_tree_differs_from_itself_in_nothing() {
    for keys in [&[][..], &["a"][..], &["a", "Enter", "b"][..], &["Enter", "Enter"][..]] {
        let ctx = area(keys);
        let update = Update { before: ctx.render(), after: ctx.render() };
        assert_eq!(diff_update(&update), Vec::<Patch>::new());
    }
}

#[test]
fn moving_the_caret_changes_nothing_on_the_page() {
    let mut ctx = area(&["a", "Enter", "b"]);
    for key in ["ArrowLeft", "ArrowUp", "Home", "End", "ArrowDown", "ArrowRight", "Shift+ArrowLeft", "Shift+Home"] {
        let update = process_key(&mut ctx, key).expect("handled");
        assert_eq!(update.before, update.after);
        assert!(diff_update(&update).is_empty());
    }
}

#[test]
fn the_first_character_replaces_the_anchor_and_appends_a_new_one() {
    let mut ctx = bind_to("area");
    let update = process_key(&mut ctx, "a").expect("handled");
    assert_eq!(update.before, wrapper("area", vec![br()]));
    assert_eq!(update.after, wrapper("area", vec![text("a"), br()]));
    let anchor = br();
    let first = text("a");
    assert_eq!(diff_update(&update), vec![Patch::AppendChildren(0, vec![&anchor]), Patch::Replace(1, &first)]);
}

#[test]
fn typing_into_a_text_changes_that_text() {
    let mut ctx = area(&["a"]);
    let update = process_key(&mut ctx, "b").expect("handled");
    let changed = VText::new("ab");
    assert_eq!(diff_update(&update), vec![Patch::ChangeText(1, &changed)]);
}

#[test]
fn removing_the_last_node_truncates_the_children() {
    let mut ctx = area(&["a", "Enter"]);
    let update = process_key(&mut ctx, "Backspace").expect("handled");
    assert_eq!(update.before, wrapper("area", vec![text("a"), br(), br()]));
    assert_eq!(update.after, wrapper("area", vec![text("a"), br()]));
    assert_eq!(diff_update(&update), vec![Patch::TruncateChildren(0, 2)]);
}
