//! Text cursor transform implementation.

use vstd::prelude::*;
use crate::text::line_end;
use crate::text::Location;
use crate::text::location_of;
use crate::text::offset_of;
use crate::text::Selection;
use crate::text::Shape;
use crate::text::ViewBuffer;
use crate::word::boundary_at;
use crate::word::ends_selection;
use crate::word::starts_selection;
use crate::word::WordCursor;

verus! {

/// Selection transformation patterns. Used for the needs of keyboard and
/// mouse interaction.
#[derive(Clone, Copy, Debug, PartialEq, Eq, Structural)]
pub enum Transform {
    /// Select all text.
    All,
    /// Move to the left by one grapheme cluster.
    Left,
    /// Move to the right by one grapheme cluster.
    Right,
    /// Move to the left selection border. Cursors will not be modified.
    LeftSelectionBorder,
    /// Move to the right selection border. Cursors will not be modified.
    RightSelectionBorder,
    /// Move to the left by one word.
    LeftWord,
    /// Move to the right by one word.
    RightWord,
    /// Select the word at every cursor.
    Word,
    /// Move to left end of visible line.
    LeftOfLine,
    /// Move to right end of visible line.
    RightOfLine,
    /// Move up one visible line.
    Up,
    /// Move down one visible line.
    Down,
    /// Move to the start of the document.
    StartOfDocument,
    /// Move to the end of the document
    EndOfDocument,
}

/// The place from which a vertical movement of a region starts: the caret
/// if the region is modified, else the end of the region that lies in the
/// direction of the movement.
pub open spec fn vertical_start(selection: Selection, move_up: bool, modify: bool) -> Location {
    if modify {
        selection.end
    } else if move_up {
        selection.spec_min()
    } else {
        selection.spec_max()
    }
}

/// The region after a vertical movement by `line_delta` lines in a text
/// whose last line is `max_line`. The caret keeps its column. From a line
/// before the text it goes to the line one step from line 0; from a line
/// behind the text it goes to the line one step from the last line.
pub open spec fn vertical_shape(selection: Selection, line_delta: int, modify: bool, max_line: int) -> Shape {
    let move_up = line_delta < 0;
    let location = vertical_start(selection, move_up, modify);
    let border_step: int = if move_up {
        -1
    } else {
        1
    };
    let line = if location.line < 0 {
        border_step
    } else if location.line > max_line {
        max_line + border_step
    } else {
        location.line + line_delta
    };
    Shape { start: selection.start, end: Location { line: line as i32, column: location.column } }
}

/// The place one character before the given place, if the given place is
/// in the text and not at its beginning.
pub open spec fn prev_location(text: Seq<char>, starts: Seq<usize>, location: Location) -> Option<Location> {
    match offset_of(text, starts, location) {
        Some(o) => if 0 < o <= text.len() {
            Some(location_of(text, starts, o - 1))
        } else {
            None
        },
        None => None,
    }
}

/// The place one character behind the given place, if there is a character
/// at the given place.
pub open spec fn next_location(text: Seq<char>, starts: Seq<usize>, location: Location) -> Option<Location> {
    match offset_of(text, starts, location) {
        Some(o) => if o < text.len() {
            Some(location_of(text, starts, o + 1))
        } else {
            None
        },
        None => None,
    }
}

/// The place of a location in the text, or the beginning of the text if
/// the location has none.
pub open spec fn offset_or_start(text: Seq<char>, starts: Seq<usize>, location: Location) -> int {
    match offset_of(text, starts, location) {
        Some(o) => o,
        None => 0,
    }
}

/// The place `p` is where a movement to the left by one word ends, starting
/// at the place `from`: the nearest beginning of a word before `from`, or
/// the beginning of the text.
pub open spec fn is_word_left(text: Seq<char>, from: int, p: int) -> bool {
    if from <= 0 {
        p == 0
    } else {
        &&& 0 <= p < from
        &&& p == 0 || boundary_at(text, p).spec_is_start()
        &&& forall|q: int| p < q < from ==> !(#[trigger] boundary_at(text, q)).spec_is_start()
    }
}

/// The place `p` is where a movement to the right by one word ends,
/// starting at the place `from`: the nearest end of a word behind `from`,
/// or the end of the text.
pub open spec fn is_word_right(text: Seq<char>, from: int, p: int) -> bool {
    if from >= text.len() {
        p == text.len()
    } else {
        &&& from < p <= text.len()
        &&& p == text.len() || boundary_at(text, p).spec_is_end()
        &&& forall|q: int| from < q < p ==> !(#[trigger] boundary_at(text, q)).spec_is_end()
    }
}

/// The places `a` and `b` are the ends of the word around the place `at`.
pub open spec fn is_word_around(text: Seq<char>, at: int, a: int, b: int) -> bool {
    &&& 0 <= a <= at <= b <= text.len()
    &&& starts_selection(text, at, a)
    &&& forall|q: int| a < q <= at ==> !starts_selection(text, at, q)
    &&& ends_selection(text, at, b)
    &&& forall|q: int| at <= q < b ==> !ends_selection(text, at, q)
}

/// The two ends of the region `region` after the movement, before it is
/// decided whether the region is modified or becomes a caret.
pub open spec fn moved_shape(
    text: Seq<char>,
    starts: Seq<usize>,
    movement: Transform,
    region: Selection,
    modify: bool,
    shape: Shape,
) -> bool {
    let origin = Location { line: 0, column: 0 };
    let end_of_text = location_of(text, starts, text.len() as int);
    let max_line = starts.len() - 1;
    let do_move = region.start == region.end || modify;
    match movement {
        Transform::All => shape == (Shape { start: origin, end: end_of_text }),
        Transform::Up => shape == vertical_shape(region, -1, modify, max_line),
        Transform::Down => shape == vertical_shape(region, 1, modify, max_line),
        Transform::StartOfDocument => shape == (Shape { start: region.start, end: origin }),
        Transform::EndOfDocument => shape == (Shape { start: region.start, end: end_of_text }),
        Transform::Left => shape == (Shape {
            start: region.start,
            end: if do_move {
                match prev_location(text, starts, region.end) {
                    Some(t) => t,
                    None => origin,
                }
            } else {
                region.spec_min()
            },
        }),
        Transform::Right => shape == (Shape {
            start: region.start,
            end: if do_move {
                match next_location(text, starts, region.end) {
                    Some(t) => t,
                    None => region.end,
                }
            } else {
                region.spec_max()
            },
        }),
        Transform::LeftSelectionBorder => shape == (Shape { start: region.start, end: region.spec_min() }),
        Transform::RightSelectionBorder => shape == (Shape { start: region.start, end: region.spec_max() }),
        Transform::LeftOfLine => shape == (Shape {
            start: region.start,
            end: Location { line: region.end.line, column: 0 },
        }),
        Transform::RightOfLine => shape == (Shape {
            start: region.start,
            end: location_of(text, starts, line_end(text, starts, region.end.line as int)),
        }),
        Transform::LeftWord => shape.start == region.start && exists|p: int|
            #![auto]
            is_word_left(text, offset_or_start(text, starts, region.end), p) && shape.end == location_of(
                text,
                starts,
                p,
            ),
        Transform::RightWord => shape.start == region.start && exists|p: int|
            #![auto]
            is_word_right(text, offset_or_start(text, starts, region.end), p) && shape.end == location_of(
                text,
                starts,
                p,
            ),
        Transform::Word => exists|a: int, b: int|
            #![auto]
            is_word_around(text, offset_or_start(text, starts, region.end), a, b) && shape == (Shape {
                start: location_of(text, starts, a),
                end: location_of(text, starts, b),
            }),
    }
}

/// The region after the movement: a region that is modified keeps the
/// place where the selecting began; a region that is not modified becomes
/// a caret at the place that the movement leads to.
pub open spec fn moved_region(
    text: Seq<char>,
    starts: Seq<usize>,
    movement: Transform,
    region: Selection,
    modify: bool,
    moved: Selection,
) -> bool {
    exists|shape: Shape|
        #![auto]
        {
            &&& moved_shape(text, starts, movement, region, modify, shape)
            &&& moved == (Selection {
                start: if modify {
                    shape.start
                } else {
                    shape.end
                },
                end: shape.end,
                id: region.id,
            })
        }
}

impl ViewBuffer {
    /// Convert selection to caret location after a vertical movement.
    pub fn vertical_motion_selection_to_location(&self, selection: Selection, move_up: bool, modify: bool) -> (r:
        Location)
        ensures
            r == vertical_start(selection, move_up, modify),
    {
        let end = selection.end;
        if modify {
            end
        } else if move_up {
            selection.min()
        } else {
            selection.max()
        }
    }

    /// Compute movement based on vertical motion by the given number of
    /// lines. The line that is reached has to be a number that can be
    /// represented.
    pub fn vertical_motion(&self, selection: Selection, line_delta: i32, modify: bool) -> (r: Shape)
        requires
            self.wf(),
            i32::MIN <= vertical_start(selection, line_delta < 0, modify).line + line_delta <= i32::MAX,
        ensures
            r == vertical_shape(selection, line_delta as int, modify, self.starts().len() - 1),
    {
        let move_up = line_delta < 0;
        let location = self.vertical_motion_selection_to_location(selection, move_up, modify);
        let min_line: i32 = 0;
        let max_line = self.last_line_index();
        proof {
            self.lemma_line_count();
        }
        let border_step: i32 = if move_up {
            -1
        } else {
            1
        };
        let snap_top = location.line < min_line;
        let snap_bottom = location.line > max_line;
        let line = if snap_top {
            border_step
        } else if snap_bottom {
            max_line + border_step
        } else {
            location.line + line_delta
        };
        let tgt_location = location.with_line(line);
        Shape { start: selection.start, end: tgt_location }
    }

    /// The place of a line and a column in the text, found by going from
    /// the beginning of the line one character at a time.
    #[allow(non_snake_case)]
    pub fn line_offset_of_location_X2(&self, location: Location) -> (r: Option<usize>)
        requires
            self.wf(),
        ensures
            match offset_of(self.text(), self.starts(), location) {
                Some(o) => r == Some(o as usize),
                None => r is None,
            },
    {
        if location.line < 0 {
            return Some(0);
        }
        let mut column: i32 = 0;
        let mut offset = match self.byte_offset_from_line_index(location.line) {
            Some(offset) => offset,
            None => {
                return None;
            },
        };
        let max_offset = match self.end_byte_offset_from_line_index(location.line) {
            Some(offset) => offset,
            None => {
                return None;
            },
        };
        let ghost begin = offset;
        proof {
            self.lemma_line_bounds(location.line as int);
        }
        let mut going = true;
        while going && column < location.column
            invariant
                self.wf(),
                0 <= column,
                offset == begin + column,
                going ==> offset <= self.text().len(),
                !going ==> offset == self.text().len() && column < location.column,
                column <= location.column || location.column < 0,
                location.column < 0 ==> column == 0,
                0 <= location.line < self.starts().len(),
                begin == self.starts()[location.line as int],
                max_offset == line_end(self.text(), self.starts(), location.line as int),
                begin <= max_offset <= self.text().len(),
                self.text().len() < i32::MAX,
            decreases (location.column - column) + (if going { 1int } else { 0int }),
        {
            match self.next_grapheme_offset(offset) {
                None => {
                    going = false;
                },
                Some(off) => {
                    column = column + 1;
                    offset = off;
                },
            }
        }
        if offset < max_offset {
            Some(offset)
        } else {
            Some(max_offset)
        }
    }

    /// Apply the movement to each region in the selection, and returns the
    /// results, in the order of the regions.
    ///
    /// If `modify` is `true`, the selections are modified, otherwise the
    /// results of individual region movements become carets. Modify is often
    /// mapped to the `shift` button in text editors.
    pub fn moved_selection(&self, movement: Transform, modify: bool) -> (r: Vec<Selection>)
        requires
            self.wf(),
            forall|k: int|
                0 <= k < self.selections().len() ==> self.can_move(movement, #[trigger] self.selections()[k]),
        ensures
            r@.len() == self.selections().len(),
            forall|k: int|
                0 <= k < r@.len() ==> moved_region(
                    self.text(),
                    self.starts(),
                    movement,
                    self.selections()[k],
                    modify,
                    #[trigger] r@[k],
                ),
    {
        let mut result: Vec<Selection> = Vec::new();
        let regions = self.selection();
        let mut i: usize = 0;
        while i < regions.len()
            invariant
                self.wf(),
                regions@ == self.selections(),
                i <= regions.len(),
                result@.len() == i,
                forall|k: int|
                    0 <= k < self.selections().len() ==> self.can_move(movement, #[trigger] self.selections()[k]),
                forall|k: int|
                    0 <= k < i ==> moved_region(
                        self.text(),
                        self.starts(),
                        movement,
                        self.selections()[k],
                        modify,
                        #[trigger] result@[k],
                    ),
            decreases regions.len() - i,
        {
            let selection = regions[i];
            assert(self.can_move(movement, self.selections()[i as int]));
            let new_selection = self.moved_selection_region(movement, selection, modify);
            result.push(new_selection);
            i = i + 1;
        }
        result
    }

    /// The place one character before the given place.
    pub fn prev_grapheme_location(&self, location: Location) -> (r: Option<Location>)
        requires
            self.wf(),
        ensures
            r == prev_location(self.text(), self.starts(), location),
    {
        let offset = match self.line_col_to_offset(location) {
            Some(offset) => offset,
            None => {
                return None;
            },
        };
        match self.prev_grapheme_offset(offset) {
            Some(off) => Some(self.offset_to_location(off)),
            None => None,
        }
    }

    /// The place one character behind the given place.
    pub fn next_grapheme_location(&self, location: Location) -> (r: Option<Location>)
        requires
            self.wf(),
        ensures
            r == next_location(self.text(), self.starts(), location),
    {
        let offset = match self.line_col_to_offset(location) {
            Some(offset) => offset,
            None => {
                return None;
            },
        };
        match self.next_grapheme_offset(offset) {
            Some(off) => Some(self.offset_to_location(off)),
            None => None,
        }
    }

    /// The movement can be applied to the region: a movement to the right
    /// end of the line needs a caret on a line of the text, and a vertical
    /// movement needs a line that can be stepped from.
    pub open spec fn can_move(&self, movement: Transform, region: Selection) -> bool {
        &&& movement is RightOfLine ==> 0 <= region.end.line < self.starts().len()
        &&& movement is Up ==> i32::MIN < region.end.line && i32::MIN < region.spec_min().line
        &&& movement is Down ==> region.end.line < i32::MAX && region.spec_max().line < i32::MAX
    }

    /// Compute the result of movement on one selection region.
    pub fn moved_selection_region(&self, movement: Transform, region: Selection, modify: bool) -> (r: Selection)
        requires
            self.wf(),
            self.can_move(movement, region),
        ensures
            moved_region(self.text(), self.starts(), movement, region, modify, r),
    {
        let origin = Location { line: 0, column: 0 };
        let shape: Shape = match movement {
            Transform::All => Shape { start: origin, end: self.offset_to_location(self.byte_size()) },
            Transform::Up => self.vertical_motion(region, -1, modify),
            Transform::Down => self.vertical_motion(region, 1, modify),
            Transform::StartOfDocument => Shape { start: region.start, end: origin },
            Transform::EndOfDocument => Shape { start: region.start, end: self.offset_to_location(self.byte_size()) },
            Transform::Left => {
                let def = Shape { start: region.start, end: origin };
                let do_move = region.is_caret() || modify;
                if do_move {
                    match self.prev_grapheme_location(region.end) {
                        Some(t) => Shape { start: region.start, end: t },
                        None => def,
                    }
                } else {
                    Shape { start: region.start, end: region.min() }
                }
            },
            Transform::Right => {
                let def = Shape { start: region.start, end: region.end };
                let do_move = region.is_caret() || modify;
                if do_move {
                    match self.next_grapheme_location(region.end) {
                        Some(t) => Shape { start: region.start, end: t },
                        None => def,
                    }
                } else {
                    Shape { start: region.start, end: region.max() }
                }
            },
            Transform::LeftSelectionBorder => Shape { start: region.start, end: region.min() },
            Transform::RightSelectionBorder => Shape { start: region.start, end: region.max() },
            Transform::LeftOfLine => {
                let end = Location { line: region.end.line, column: 0 };
                Shape { start: region.start, end }
            },
            Transform::RightOfLine => {
                let line = region.end.line;
                let text_byte_size = self.byte_size();
                let is_last_line = line == self.last_line_index();
                let offset = if is_last_line {
                    text_byte_size
                } else {
                    match self.byte_offset_from_line_index(line + 1) {
                        Some(next_line_offset) => match self.prev_grapheme_offset(next_line_offset) {
                            Some(offset) => offset,
                            None => text_byte_size,
                        },
                        None => text_byte_size,
                    }
                };
                proof {
                    self.lemma_line_bounds(line as int);
                }
                let end = self.offset_to_location(offset);
                Shape { start: region.start, end }
            },
            Transform::LeftWord => {
                let end_offset = match self.line_col_to_offset(region.end) {
                    Some(offset) => offset,
                    None => 0,
                };
                let mut word_cursor = WordCursor::new(self, end_offset);
                let offset = match word_cursor.prev_boundary() {
                    Some(offset) => offset,
                    None => 0,
                };
                assert(is_word_left(
                    self.text(),
                    offset_or_start(self.text(), self.starts(), region.end),
                    offset as int,
                ));
                let end = self.offset_to_location(offset);
                Shape { start: region.start, end }
            },
            Transform::RightWord => {
                let end_offset = match self.line_col_to_offset(region.end) {
                    Some(offset) => offset,
                    None => 0,
                };
                let mut word_cursor = WordCursor::new(self, end_offset);
                let offset = match word_cursor.next_boundary() {
                    Some(offset) => offset,
                    None => self.byte_size(),
                };
                assert(is_word_right(
                    self.text(),
                    offset_or_start(self.text(), self.starts(), region.end),
                    offset as int,
                ));
                let end = self.offset_to_location(offset);
                Shape { start: region.start, end }
            },
            Transform::Word => {
                let end_offset = match self.line_col_to_offset(region.end) {
                    Some(offset) => offset,
                    None => 0,
                };
                let mut word_cursor = WordCursor::new(self, end_offset);
                let offsets = word_cursor.select_word();
                assert(is_word_around(
                    self.text(),
                    offset_or_start(self.text(), self.starts(), region.end),
                    offsets.0 as int,
                    offsets.1 as int,
                ));
                let start = self.offset_to_location(offsets.0);
                let end = self.offset_to_location(offsets.1);
                Shape { start, end }
            },
        };
        assert(moved_shape(self.text(), self.starts(), movement, region, modify, shape));
        let start = if modify {
            shape.start
        } else {
            shape.end
        };
        let end = shape.end;
        Selection { start, end, id: region.id }
    }
}

} // verus!
