use compose_area::caret::RangeRequest;
use compose_area::keys::Key;
use compose_area::nodes::Node;
use compose_area::{bind_to, process_key, update_caret_position, Context};
use virtual_dom_rs::VirtualNode;

fn text(s: &str) -> Node {
    Node::Text(s.chars().collect())
}

fn caret(ctx: &Context) -> (usize, usize) {
    (ctx.state.caret_start(), ctx.state.caret_end())
}

fn child_count(node: &VirtualNode) -> usize {
    node.as_velement_ref().expect("an element").children.len()
}

fn typed(keys: &[&str]) -> Context {
    let mut ctx = bind_to("area");
    for key in keys {
        assert!(process_key(&mut ctx, key).is_some());
    }
    ctx
}

#[test]
fn typing_into_an_empty_document() {
    let mut ctx = bind_to("area");
    let update = process_key(&mut ctx, "a").expect("handled");
    assert_eq!(ctx.state.nodes(), &vec![text("a")]);
    assert_eq!(caret(&ctx), (1, 1));
    assert_eq!(child_count(&update.before), 1);
    assert_eq!(child_count(&update.after), 2);
    let children = &update.after.as_velement_ref().expect("an element").children;
    assert_eq!(children[0], VirtualNode::text("a"));
    assert_eq!(children[1], VirtualNode::element("br"));
}

#[test]
fn backspace_at_the_end_of_a_text() {
    let mut ctx = typed(&["a", "b"]);
    assert_eq!(ctx.state.nodes(), &vec![text("ab")]);
    assert_eq!(caret(&ctx), (2, 2));
    assert!(process_key(&mut ctx, "Backspace").is_some());
    assert_eq!(ctx.state.nodes(), &vec![text("a")]);
    assert_eq!(caret(&ctx), (1, 1));
}

#[test]
fn arrow_right_inside_a_text() {
    let mut ctx = typed(&["a", "b"]);
    update_caret_position(&mut ctx, 1, 1);
    assert_eq!(caret(&ctx), (1, 1));
    assert!(process_key(&mut ctx, "ArrowRight").is_some());
    assert_eq!(caret(&ctx), (2, 2));
    assert_eq!(ctx.state.nodes(), &vec![text("ab")]);
}

#[test]
fn a_reversed_caret_update_is_ignored() {
    let mut ctx = typed(&["a", "b", "c", "d"]);
    update_caret_position(&mut ctx, 1, 2);
    let nodes = ctx.state.nodes().clone();
    update_caret_position(&mut ctx, 3, 1);
    assert_eq!(caret(&ctx), (1, 2));
    assert_eq!(ctx.state.nodes(), &nodes);
    assert_eq!(ctx.wrapper_id, "area");
}

#[test]
fn a_caret_update_sets_the_selection() {
    let mut ctx = typed(&["a", "b", "c", "d"]);
    update_caret_position(&mut ctx, 1, 3);
    assert_eq!(caret(&ctx), (1, 3));
    update_caret_position(&mut ctx, 2, 2);
    assert_eq!(caret(&ctx), (2, 2));
    update_caret_position(&mut ctx, 3, 10);
    assert_eq!(caret(&ctx), (3, 4));
    assert_eq!(ctx.state.nodes(), &vec![text("abcd")]);
}

#[test]
fn a_key_press_from_input_to_caret() {
    let mut ctx = typed(&["h", "i", "Enter"]);
    let update = process_key(&mut ctx, "ArrowLeft").expect("handled");
    let live_children = child_count(&update.after) as u32;
    assert_eq!(live_children, 3);
    assert_eq!(ctx.state.caret_request(live_children), RangeRequest::Before(1));
    let update = process_key(&mut ctx, "ArrowLeft").expect("handled");
    assert_eq!(ctx.state.caret_request(child_count(&update.after) as u32), RangeRequest::Offset(0, 1));
    let update = process_key(&mut ctx, "End").expect("handled");
    assert_eq!(ctx.state.caret_request(child_count(&update.after) as u32), RangeRequest::Before(1));
    let update = process_key(&mut ctx, "ArrowDown").expect("handled");
    assert_eq!(ctx.state.caret_request(child_count(&update.after) as u32), RangeRequest::After(2));
}

#[test]
fn keys_by_name_and_by_value_do_the_same() {
    let mut by_name = bind_to("area");
    let mut by_value = bind_to("area");
    let names = ["x", "Enter", "y", "Shift+ArrowUp", "Delete", "z", "Home", "Backspace"];
    for name in names {
        assert!(process_key(&mut by_name, name).is_some());
        by_value.state.handle_key(Key::from_str(name).expect("a key"));
        assert_eq!(by_name.state.nodes(), by_value.state.nodes());
        assert_eq!(caret(&by_name), caret(&by_value));
    }
}
