use compose_area::caret::RangeRequest;
use compose_area::keys::Key;
use compose_area::state::{Direction, NodeIndexOffset, State};

fn state_at(content: &str, caret: usize) -> State {
    let mut state = State::new();
    for c in content.chars() {
        state.handle_key(if c == '\n' { Key::Enter } else { Key::Character(c) });
    }
    state.set_caret_position(caret, caret);
    state
}

fn place(index: usize, offset: usize) -> Option<NodeIndexOffset> {
    Some(NodeIndexOffset { index, offset })
}

#[test]
fn the_node_after_the_caret() {
    assert_eq!(state_at("ab\nc", 0).find_start_node(Direction::After), place(0, 0));
    assert_eq!(state_at("ab\nc", 1).find_start_node(Direction::After), place(0, 1));
    assert_eq!(state_at("ab\nc", 2).find_start_node(Direction::After), place(1, 0));
    assert_eq!(state_at("ab\nc", 3).find_start_node(Direction::After), place(2, 0));
    assert_eq!(state_at("ab\nc", 4).find_start_node(Direction::After), None);
}

#[test]
fn the_node_before_the_caret() {
    assert_eq!(state_at("ab\nc", 0).find_start_node(Direction::Before), place(0, 0));
    assert_eq!(state_at("ab\nc", 1).find_start_node(Direction::Before), place(0, 1));
    assert_eq!(state_at("ab\nc", 2).find_start_node(Direction::Before), place(0, 2));
    assert_eq!(state_at("ab\nc", 3).find_start_node(Direction::Before), place(1, 1));
    assert_eq!(state_at("ab\nc", 4).find_start_node(Direction::Before), place(2, 1));
}

#[test]
fn no_node_in_an_empty_document() {
    assert_eq!(State::new().find_start_node(Direction::After), None);
    assert_eq!(State::new().find_start_node(Direction::Before), None);
}

#[test]
fn the_start_node_is_that_of_the_selections_start() {
    let mut state = state_at("ab\nc", 0);
    state.set_caret_position(1, 4);
    assert_eq!(state.find_start_node(Direction::After), place(0, 1));
    state.set_caret_position(3, 4);
    assert_eq!(state.find_start_node(Direction::After), place(2, 0));
}

#[test]
fn a_caret_inside_a_text_is_requested_by_offset() {
    assert_eq!(state_at("ab\nc", 1).caret_request(4), RangeRequest::Offset(0, 1));
    assert_eq!(state_at("abc", 2).caret_request(2), RangeRequest::Offset(0, 2));
    assert_eq!(state_at("a\nbcd", 4).caret_request(4), RangeRequest::Offset(2, 2));
}

#[test]
fn a_caret_at_the_start_of_a_node_is_requested_before_it() {
    assert_eq!(state_at("ab\nc", 0).caret_request(4), RangeRequest::Before(0));
    assert_eq!(state_at("ab\nc", 2).caret_request(4), RangeRequest::Before(1));
    assert_eq!(state_at("ab\nc", 3).caret_request(4), RangeRequest::Before(2));
    assert_eq!(state_at("\n\n", 1).caret_request(3), RangeRequest::Before(1));
}

#[test]
fn a_caret_at_the_end_is_requested_behind_the_anchor() {
    assert_eq!(state_at("ab\nc", 4).caret_request(4), RangeRequest::After(3));
    assert_eq!(state_at("a", 1).caret_request(2), RangeRequest::After(1));
    assert_eq!(state_at("\n", 1).caret_request(2), RangeRequest::After(1));
}

#[test]
fn the_request_in_an_empty_document() {
    assert_eq!(State::new().caret_request(1), RangeRequest::After(0));
}

#[test]
fn no_request_asks_for_offset_zero_inside_a_node() {
    let content = "ab\n\ncde\nf\n";
    let length = content.chars().count();
    for caret in 0..=length {
        let state = state_at(content, caret);
        let live_children = state.node_count() as u32 + 1;
        match state.caret_request(live_children) {
            RangeRequest::Offset(index, offset) => {
                assert!(offset > 0);
                assert!(index < live_children);
            },
            RangeRequest::Before(index) => assert!(index < live_children - 1),
            RangeRequest::After(index) => {
                assert_eq!(index, live_children - 1);
                assert_eq!(caret, length);
            },
        }
    }
}

#[test]
fn a_request_names_its_child() {
    assert_eq!(RangeRequest::Before(3).index(), 3);
    assert_eq!(RangeRequest::Offset(1, 7).index(), 1);
    assert_eq!(RangeRequest::After(0).index(), 0);
}
