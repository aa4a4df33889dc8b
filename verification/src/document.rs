//! The mathematical model of a document: a flat sequence of units with a
//! selection, and what each key does to it.

use vstd::prelude::*;
use crate::keys::{Key, Motion};

verus! {

/// One position's worth of content: a character or a line break.
///
/// Caret offsets count units, so a line break is one step wide, whatever the
/// text around it holds.
#[derive(Clone, Copy, Debug, PartialEq, Eq)]
pub enum Unit {
    Char(char),
    Break,
}

/// A document as the editing rules see it.
pub struct Document {
    /// The content, in reading order.
    pub content: Seq<Unit>,
    /// Where the selection starts.
    pub start: nat,
    /// Where the selection ends. Equal to `start` for a plain caret.
    pub end: nat,
    /// Whether the selection's active end is its start. The active end is the
    /// one that an extending movement moves; the other end is the anchor.
    pub backward: bool,
}

impl Document {
    /// The selection is ordered and lies within the content, and a plain
    /// caret has no direction.
    pub open spec fn valid(self) -> bool {
        &&& self.start <= self.end <= self.content.len()
        &&& self.start == self.end ==> !self.backward
    }

    /// The end of the selection that an extending movement moves.
    pub open spec fn active(self) -> nat {
        if self.backward {
            self.start
        } else {
            self.end
        }
    }

    /// The end of the selection that an extending movement leaves alone.
    pub open spec fn anchor(self) -> nat {
        if self.backward {
            self.end
        } else {
            self.start
        }
    }
}

/// The empty document with the caret at its start.
pub open spec fn empty_document() -> Document {
    Document { content: Seq::empty(), start: 0, end: 0, backward: false }
}

/// The offset at which the line around `pos` begins: the nearest offset at or
/// before `pos` that is 0 or directly behind a line break.
pub open spec fn line_start(content: Seq<Unit>, pos: int) -> int
    decreases pos,
{
    if pos <= 0 {
        0
    } else if content[pos - 1] is Break {
        pos
    } else {
        line_start(content, pos - 1)
    }
}

/// The offset at which the line around `pos` ends: the nearest offset at or
/// after `pos` that is the content's length or directly before a line break.
pub open spec fn line_end(content: Seq<Unit>, pos: int) -> int
    decreases content.len() - pos,
{
    if pos >= content.len() {
        content.len() as int
    } else if content[pos] is Break {
        pos
    } else {
        line_end(content, pos + 1)
    }
}

/// The smaller of two offsets.
pub open spec fn at_most(a: int, b: int) -> int {
    if a <= b {
        a
    } else {
        b
    }
}

/// Where a caret at `pos` lands when it travels by `motion`.
///
/// Left and right step by one unit and stop at the document's ends. Home and
/// end go to the ends of the line. Up and down keep the column where the
/// neighbouring line is long enough and stop at its end where it is not; on
/// the first line up goes to the document's start, on the last line down
/// goes to its end.
pub open spec fn motion_target(content: Seq<Unit>, motion: Motion, pos: int) -> int {
    match motion {
        Motion::Left => if pos > 0 {
            pos - 1
        } else {
            0
        },
        Motion::Right => if pos < content.len() {
            pos + 1
        } else {
            content.len() as int
        },
        Motion::Home => line_start(content, pos),
        Motion::End => line_end(content, pos),
        Motion::Up => {
            let first = line_start(content, pos);
            if first == 0 {
                0
            } else {
                let above_end = first - 1;
                let above_start = line_start(content, above_end);
                at_most(above_start + (pos - first), above_end)
            }
        },
        Motion::Down => {
            let last = line_end(content, pos);
            if last == content.len() {
                last
            } else {
                let below_start = last + 1;
                let below_end = line_end(content, below_start);
                at_most(below_start + (pos - line_start(content, pos)), below_end)
            }
        },
    }
}

/// The content with the units from `from` up to `to` replaced by `inserted`.
pub open spec fn splice(content: Seq<Unit>, from: int, to: int, inserted: Option<Unit>) -> Seq<Unit> {
    content.take(from) + match inserted {
        Some(unit) => seq![unit],
        None => Seq::empty(),
    } + content.skip(to)
}

/// The document with its selection replaced by one unit, and the caret
/// directly behind that unit.
pub open spec fn insert_unit(doc: Document, unit: Unit) -> Document {
    Document {
        content: splice(doc.content, doc.start as int, doc.end as int, Some(unit)),
        start: doc.start + 1,
        end: doc.start + 1,
        backward: false,
    }
}

/// The document without the units from `from` up to `to`, and the caret at
/// `from`.
pub open spec fn remove_units(doc: Document, from: nat, to: nat) -> Document {
    Document {
        content: splice(doc.content, from as int, to as int, None),
        start: from,
        end: from,
        backward: false,
    }
}

/// The document after a deletion towards the start.
pub open spec fn delete_backward(doc: Document) -> Document {
    if doc.start < doc.end {
        remove_units(doc, doc.start, doc.end)
    } else if doc.start == 0 {
        doc
    } else {
        remove_units(doc, (doc.start - 1) as nat, doc.start)
    }
}

/// The document after a deletion towards the end.
pub open spec fn delete_forward(doc: Document) -> Document {
    if doc.start < doc.end {
        remove_units(doc, doc.start, doc.end)
    } else if doc.start == doc.content.len() {
        doc
    } else {
        remove_units(doc, doc.start, doc.start + 1)
    }
}

/// Where the caret stands after a plain movement.
///
/// Left and right on a selection collapse it onto the end they point to.
/// Every other movement starts from the selection's start when it goes
/// backward and from its end when it goes forward.
pub open spec fn caret_after_move(doc: Document, motion: Motion) -> int {
    if doc.start < doc.end && motion is Left {
        doc.start as int
    } else if doc.start < doc.end && motion is Right {
        doc.end as int
    } else if motion.is_backward() {
        motion_target(doc.content, motion, doc.start as int)
    } else {
        motion_target(doc.content, motion, doc.end as int)
    }
}

/// The document after a plain movement: same content, collapsed selection.
pub open spec fn move_caret(doc: Document, motion: Motion) -> Document {
    let pos = caret_after_move(doc, motion) as nat;
    Document { content: doc.content, start: pos, end: pos, backward: false }
}

/// The larger of two offsets.
pub open spec fn at_least(a: int, b: int) -> int {
    if a >= b {
        a
    } else {
        b
    }
}

/// The document after a movement that extends the selection: the active end
/// travels by the motion and the anchor stays where it is. Where the active
/// end passes the anchor the two change sides.
pub open spec fn extend_selection(doc: Document, motion: Motion) -> Document {
    let anchor = doc.anchor() as int;
    let target = motion_target(doc.content, motion, doc.active() as int);
    Document {
        content: doc.content,
        start: at_most(anchor, target) as nat,
        end: at_least(anchor, target) as nat,
        backward: target < anchor,
    }
}

/// The document after `key`.
pub open spec fn apply_key(doc: Document, key: Key) -> Document {
    match key {
        Key::Character(c) => insert_unit(doc, Unit::Char(c)),
        Key::Enter => insert_unit(doc, Unit::Break),
        Key::Backspace => delete_backward(doc),
        Key::Delete => delete_forward(doc),
        Key::Move(motion) => move_caret(doc, motion),
        Key::Extend(motion) => extend_selection(doc, motion),
    }
}

/// The line's start lies at or before the position, and no line break stands
/// between the two.
pub proof fn lemma_line_start_bounds(content: Seq<Unit>, pos: int)
    requires
        0 <= pos <= content.len(),
    ensures
        0 <= line_start(content, pos) <= pos,
        line_start(content, pos) == 0 || content[line_start(content, pos) - 1] is Break,
        forall|i: int| line_start(content, pos) <= i < pos ==> content[i] is Char,
    decreases pos,
{
    if pos > 0 && !(content[pos - 1] is Break) {
        lemma_line_start_bounds(content, pos - 1);
    }
}

/// The line's end lies at or after the position, and no line break stands
/// between the two.
pub proof fn lemma_line_end_bounds(content: Seq<Unit>, pos: int)
    requires
        0 <= pos <= content.len(),
    ensures
        pos <= line_end(content, pos) <= content.len(),
        line_end(content, pos) == content.len() || content[line_end(content, pos)] is Break,
        forall|i: int| pos <= i < line_end(content, pos) ==> content[i] is Char,
    decreases content.len() - pos,
{
    if pos < content.len() && !(content[pos] is Break) {
        lemma_line_end_bounds(content, pos + 1);
    }
}

/// A motion lands inside the document, at or before where it began when it
/// goes backward and at or after it when it goes forward.
pub proof fn lemma_motion_target_bounds(content: Seq<Unit>, motion: Motion, pos: int)
    requires
        0 <= pos <= content.len(),
    ensures
        0 <= motion_target(content, motion, pos) <= content.len(),
        motion.is_backward() ==> motion_target(content, motion, pos) <= pos,
        !motion.is_backward() ==> pos <= motion_target(content, motion, pos),
{
    lemma_line_start_bounds(content, pos);
    lemma_line_end_bounds(content, pos);
    let first = line_start(content, pos);
    let last = line_end(content, pos);
    if first > 0 {
        lemma_line_start_bounds(content, first - 1);
    }
    if last < content.len() {
        lemma_line_end_bounds(content, last + 1);
    }
}

/// Every key takes a valid document to a valid document: the selection stays
/// ordered and inside the content.
pub proof fn lemma_apply_key_valid(doc: Document, key: Key)
    requires
        doc.valid(),
    ensures
        apply_key(doc, key).valid(),
{
    match key {
        Key::Move(motion) => {
            lemma_motion_target_bounds(doc.content, motion, doc.start as int);
            lemma_motion_target_bounds(doc.content, motion, doc.end as int);
        },
        Key::Extend(motion) => {
            lemma_motion_target_bounds(doc.content, motion, doc.active() as int);
        },
        _ => {},
    }
}

/// A movement key changes no content.
pub proof fn lemma_movement_keeps_content(doc: Document, motion: Motion)
    ensures
        apply_key(doc, Key::Move(motion)).content == doc.content,
        apply_key(doc, Key::Extend(motion)).content == doc.content,
{
}

/// At offset 0 a backward action goes no further: a backward movement, with
/// or without extending, and a backward deletion leave the selection's start
/// at 0, and with a plain caret there they leave the whole document as it was.
pub proof fn lemma_backward_at_start(doc: Document, motion: Motion)
    requires
        doc.valid(),
        doc.start == 0,
        motion.is_backward(),
    ensures
        apply_key(doc, Key::Move(motion)).start == 0,
        apply_key(doc, Key::Extend(motion)).start == 0,
        apply_key(doc, Key::Backspace).start == 0,
        doc.end == 0 ==> apply_key(doc, Key::Move(motion)) == doc,
        doc.end == 0 ==> apply_key(doc, Key::Extend(motion)) == doc,
        doc.end == 0 ==> apply_key(doc, Key::Backspace) == doc,
{
    lemma_motion_target_bounds(doc.content, motion, doc.active() as int);
}

/// At the document's end a forward action goes no further: a forward
/// movement, with or without extending, and a forward deletion leave the
/// selection's end at the end of the content, and with a plain caret there
/// they leave the whole document as it was.
pub proof fn lemma_forward_at_end(doc: Document, motion: Motion)
    requires
        doc.valid(),
        doc.end == doc.content.len(),
        !motion.is_backward(),
    ensures
        apply_key(doc, Key::Move(motion)).end == doc.content.len(),
        apply_key(doc, Key::Extend(motion)).end == doc.content.len(),
        apply_key(doc, Key::Delete).end == apply_key(doc, Key::Delete).content.len(),
        doc.start == doc.end ==> apply_key(doc, Key::Move(motion)) == doc,
        doc.start == doc.end ==> apply_key(doc, Key::Extend(motion)) == doc,
        doc.start == doc.end ==> apply_key(doc, Key::Delete) == doc,
{
    lemma_motion_target_bounds(doc.content, motion, doc.active() as int);
}

/// In an empty document both deletions do nothing.
pub proof fn lemma_delete_in_empty(doc: Document)
    requires
        doc.valid(),
        doc.content.len() == 0,
    ensures
        apply_key(doc, Key::Backspace) == doc,
        apply_key(doc, Key::Delete) == doc,
{
}

fn is_break(unit: Unit) -> (b: bool)
    ensures
        b == (unit is Break),
{
    match unit {
        Unit::Break => true,
        Unit::Char(_) => false,
    }
}

fn line_start_of(units: &Vec<Unit>, pos: usize) -> (first: usize)
    requires
        pos <= units.len(),
    ensures
        first == line_start(units@, pos as int),
{
    let mut i: usize = pos;
    while i > 0 && !is_break(units[i - 1])
        invariant
            i <= pos <= units.len(),
            line_start(units@, i as int) == line_start(units@, pos as int),
        decreases i,
    {
        i -= 1;
    }
    i
}

fn line_end_of(units: &Vec<Unit>, pos: usize) -> (last: usize)
    requires
        pos <= units.len(),
    ensures
        last == line_end(units@, pos as int),
{
    let mut i: usize = pos;
    while i < units.len() && !is_break(units[i])
        invariant
            pos <= i <= units.len(),
            line_end(units@, i as int) == line_end(units@, pos as int),
        decreases units.len() - i,
    {
        i += 1;
    }
    i
}

/// Where a caret at `pos` lands when it travels by `motion`.
pub fn target_of(units: &Vec<Unit>, motion: Motion, pos: usize) -> (target: usize)
    requires
        pos <= units.len(),
    ensures
        target == motion_target(units@, motion, pos as int),
        target <= units.len(),
{
    proof {
        lemma_motion_target_bounds(units@, motion, pos as int);
        lemma_line_start_bounds(units@, pos as int);
        lemma_line_end_bounds(units@, pos as int);
    }
    match motion {
        Motion::Left => if pos > 0 {
            pos - 1
        } else {
            0
        },
        Motion::Right => if pos < units.len() {
            pos + 1
        } else {
            units.len()
        },
        Motion::Home => line_start_of(units, pos),
        Motion::End => line_end_of(units, pos),
        Motion::Up => {
            let first: usize = line_start_of(units, pos);
            if first == 0 {
                0
            } else {
                let above_end: usize = first - 1;
                let above_start: usize = line_start_of(units, above_end);
                proof {
                    lemma_line_start_bounds(units@, above_end as int);
                }
                let column: usize = pos - first;
                if column <= above_end - above_start {
                    above_start + column
                } else {
                    above_end
                }
            }
        },
        Motion::Down => {
            let last: usize = line_end_of(units, pos);
            if last == units.len() {
                last
            } else {
                let below_start: usize = last + 1;
                let below_end: usize = line_end_of(units, below_start);
                proof {
                    lemma_line_end_bounds(units@, below_start as int);
                }
                let column: usize = pos - line_start_of(units, pos);
                if column <= below_end - below_start {
                    below_start + column
                } else {
                    below_end
                }
            }
        },
    }
}

/// The units with those from `from` up to `to` replaced by `inserted`.
pub fn splice_units(units: &Vec<Unit>, from: usize, to: usize, inserted: Option<Unit>) -> (out: Vec<
    Unit,
>)
    requires
        from <= to <= units.len(),
    ensures
        out@ == splice(units@, from as int, to as int, inserted),
{
    let mut out: Vec<Unit> = Vec::new();
    let mut i: usize = 0;
    while i < from
        invariant
            i <= from <= units.len(),
            out@ == units@.take(i as int),
        decreases from - i,
    {
        out.push(units[i]);
        i += 1;
    }
    match inserted {
        Some(unit) => {
            out.push(unit);
        },
        None => {},
    }
    let ghost head = out@;
    let mut j: usize = to;
    while j < units.len()
        invariant
            to <= j <= units.len(),
            out@ == head + units@.subrange(to as int, j as int),
        decreases units.len() - j,
    {
        out.push(units[j]);
        j += 1;
    }
    assert(units@.subrange(to as int, units.len() as int) == units@.skip(to as int));
    out
}

} // verus!
