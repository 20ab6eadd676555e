//! A buffer of text with its lines, and the places in it.

use vstd::prelude::*;

verus! {

/// A place in a text: a line and a column in it, both counted from 0. The
/// line of a place may lie outside the text.
#[derive(Clone, Copy, Debug, Default, PartialEq, Eq, Structural)]
pub struct Location {
    pub line: i32,
    pub column: i32,
}

/// The two ends of a selection.
#[derive(Clone, Copy, Debug, PartialEq, Eq, Structural)]
pub struct Shape {
    pub start: Location,
    pub end: Location,
}

/// A selected region of a text. It begins where the selecting began and
/// ends at the caret; a region whose ends are one place is a caret alone.
#[derive(Clone, Copy, Debug, PartialEq, Eq, Structural)]
pub struct Selection {
    pub start: Location,
    pub end: Location,
    pub id: usize,
}

impl Location {
    /// This place stands before the other in the text.
    pub open spec fn spec_before(self, other: Location) -> bool {
        self.line < other.line || (self.line == other.line && self.column < other.column)
    }

    /// Whether this place stands before the other in the text.
    pub fn before(&self, other: &Location) -> (r: bool)
        ensures
            r == self.spec_before(*other),
    {
        self.line < other.line || (self.line == other.line && self.column < other.column)
    }

    /// This place, but on another line.
    pub fn with_line(&self, line: i32) -> (r: Location)
        ensures
            r == (Location { line, column: self.column }),
    {
        Location { line, column: self.column }
    }
}

impl Selection {
    /// The end of the region that stands first in the text.
    pub open spec fn spec_min(self) -> Location {
        if self.end.spec_before(self.start) {
            self.end
        } else {
            self.start
        }
    }

    /// The end of the region that stands last in the text.
    pub open spec fn spec_max(self) -> Location {
        if self.start.spec_before(self.end) {
            self.end
        } else {
            self.start
        }
    }

    /// The end of the region that stands first in the text.
    pub fn min(&self) -> (r: Location)
        ensures
            r == self.spec_min(),
    {
        if self.end.before(&self.start) {
            self.end
        } else {
            self.start
        }
    }

    /// The end of the region that stands last in the text.
    pub fn max(&self) -> (r: Location)
        ensures
            r == self.spec_max(),
    {
        if self.start.before(&self.end) {
            self.end
        } else {
            self.start
        }
    }

    /// Whether the region is a caret alone.
    pub fn is_caret(&self) -> (r: bool)
        ensures
            r == (self.start == self.end),
    {
        self.start.line == self.end.line && self.start.column == self.end.column
    }
}

/// A text with the places at which its lines begin, and the regions that
/// are selected in it. Places in the text are counted in characters.
pub struct ViewBuffer {
    text: Vec<char>,
    line_starts: Vec<usize>,
    selection: Vec<Selection>,
}

/// The places at which lines begin fit the text: the first line begins at
/// 0, every other line begins behind a line feed, the lines stand in their
/// order, and behind every line feed a line begins.
pub open spec fn lines_fit(text: Seq<char>, starts: Seq<usize>) -> bool {
    &&& starts.len() >= 1
    &&& starts[0] == 0
    &&& text.len() < i32::MAX
    &&& forall|i: int| 1 <= i < starts.len() ==> 0 < #[trigger] starts[i] <= text.len() && text[starts[i] - 1] == '\n'
    &&& forall|i: int, j: int| 0 <= i < j < starts.len() ==> #[trigger] starts[i] < #[trigger] starts[j]
    &&& forall|p: int|
        0 <= p < text.len() && #[trigger] text[p] == '\n' ==> exists|i: int|
            1 <= i < starts.len() && #[trigger] starts[i] == p + 1
}

/// The place at which the line ends: before its line feed, or at the end
/// of the text.
pub open spec fn line_end(text: Seq<char>, starts: Seq<usize>, line: int) -> int {
    if line + 1 < starts.len() {
        starts[line + 1] - 1
    } else {
        text.len() as int
    }
}

/// The last among the first `n` lines that begins at or before the place
/// `offset`.
pub open spec fn line_of(starts: Seq<usize>, offset: int, n: int) -> int
    decreases n,
{
    if n <= 1 {
        0
    } else if starts[n - 1] <= offset {
        n - 1
    } else {
        line_of(starts, offset, n - 1)
    }
}

/// The line and the column of the place `offset`. A place behind the end
/// of the text counts as the end of the text.
pub open spec fn location_of(text: Seq<char>, starts: Seq<usize>, offset: int) -> Location {
    let o = if offset > text.len() {
        text.len() as int
    } else {
        offset
    };
    let line = line_of(starts, o, starts.len() as int);
    Location { line: line as i32, column: (o - starts[line]) as i32 }
}

/// The place of a line and a column in the text: as many characters behind
/// the beginning of the line as the column says, but not behind the end of
/// the line. A line before the text gives the beginning of the text, a line
/// behind it gives nothing.
pub open spec fn offset_of(text: Seq<char>, starts: Seq<usize>, location: Location) -> Option<int> {
    if location.line < 0 {
        Some(0)
    } else if location.line >= starts.len() {
        None
    } else {
        let begin = starts[location.line as int] as int;
        let end = line_end(text, starts, location.line as int);
        let column = if location.column < 0 {
            0
        } else {
            location.column as int
        };
        Some(if begin + column < end {
            begin + column
        } else {
            end
        })
    }
}

/// The line of a place is the one line that begins at or before the place
/// and whose successor begins behind it.
pub proof fn lemma_line_of(starts: Seq<usize>, offset: int, n: int)
    requires
        1 <= n <= starts.len(),
        starts[0] == 0,
        0 <= offset,
        forall|i: int, j: int| 0 <= i < j < starts.len() ==> #[trigger] starts[i] < #[trigger] starts[j],
    ensures
        0 <= line_of(starts, offset, n) < n,
        starts[line_of(starts, offset, n)] <= offset,
        forall|i: int| line_of(starts, offset, n) < i < n ==> offset < #[trigger] starts[i],
    decreases n,
{
    if n > 1 && starts[n - 1] > offset {
        lemma_line_of(starts, offset, n - 1);
    }
}

impl ViewBuffer {
    /// The characters of the text.
    pub closed spec fn text(&self) -> Seq<char> {
        self.text@
    }

    /// The places at which the lines of the text begin.
    pub closed spec fn starts(&self) -> Seq<usize> {
        self.line_starts@
    }

    /// The regions that are selected.
    pub closed spec fn selections(&self) -> Seq<Selection> {
        self.selection@
    }

    /// The regions that are selected.
    pub fn selection(&self) -> (r: &Vec<Selection>)
        ensures
            r@ == self.selections(),
    {
        &self.selection
    }

    /// Selects the given regions in place of those that were selected.
    pub fn set_selection(&mut self, selection: Vec<Selection>)
        ensures
            final(self).selections() == selection@,
            final(self).text() == old(self).text(),
            final(self).starts() == old(self).starts(),
    {
        self.selection = selection;
    }

    /// The places at which lines begin fit the text.
    pub open spec fn wf(&self) -> bool {
        lines_fit(self.text(), self.starts())
    }

    /// A buffer for the given text, with nothing selected. The text has to
    /// be shorter than `i32::MAX` characters.
    pub fn new(text: Vec<char>) -> (r: Self)
        requires
            text@.len() < i32::MAX,
        ensures
            r.wf(),
            r.text() == text@,
            r.selections().len() == 0,
    {
        let mut line_starts: Vec<usize> = Vec::new();
        line_starts.push(0);
        let mut p: usize = 0;
        while p < text.len()
            invariant
                p <= text.len(),
                text@.len() < i32::MAX,
                line_starts@.len() >= 1,
                line_starts@[0] == 0,
                forall|i: int|
                    1 <= i < line_starts@.len() ==> 0 < #[trigger] line_starts@[i] <= p && text@[line_starts@[i]
                        - 1] == '\n',
                forall|i: int, j: int|
                    0 <= i < j < line_starts@.len() ==> #[trigger] line_starts@[i] < #[trigger] line_starts@[j],
                forall|q: int|
                    0 <= q < p && #[trigger] text@[q] == '\n' ==> exists|i: int|
                        1 <= i < line_starts@.len() && #[trigger] line_starts@[i] == q + 1,
            decreases text.len() - p,
        {
            if text[p] == '\n' {
                let ghost before = line_starts@;
                line_starts.push(p + 1);
                proof {
                    assert forall|q: int| 0 <= q < p + 1 && #[trigger] text@[q] == '\n' implies exists|i: int|
                        1 <= i < line_starts@.len() && #[trigger] line_starts@[i] == q + 1 by {
                        if q < p {
                            let i = choose|i: int| 1 <= i < before.len() && #[trigger] before[i] == q + 1;
                            assert(line_starts@[i] == q + 1);
                        } else {
                            assert(line_starts@[before.len() as int] == q + 1);
                        }
                    }
                }
            }
            p = p + 1;
        }
        ViewBuffer { text, line_starts, selection: Vec::new() }
    }

    /// The number of characters of the text.
    pub fn byte_size(&self) -> (r: usize)
        ensures
            r == self.text().len(),
    {
        self.text.len()
    }

    /// The number of the last line.
    pub fn last_line_index(&self) -> (r: i32)
        requires
            self.wf(),
        ensures
            r == self.starts().len() - 1,
            0 <= r,
    {
        proof {
            self.lemma_line_count();
        }
        (self.line_starts.len() - 1) as i32
    }

    /// A text has at most one line more than it has characters.
    pub proof fn lemma_line_count(&self)
        requires
            self.wf(),
        ensures
            self.starts().len() <= self.text().len() + 1,
    {
        lemma_rising_bound(self.starts(), self.starts().len() as int - 1);
    }

    /// The place at which the line begins, if the text has the line.
    pub fn byte_offset_from_line_index(&self, line: i32) -> (r: Option<usize>)
        requires
            self.wf(),
        ensures
            r == (if 0 <= line < self.starts().len() {
                Some(self.starts()[line as int])
            } else {
                None
            }),
    {
        if line < 0 || line as usize >= self.line_starts.len() {
            None
        } else {
            Some(self.line_starts[line as usize])
        }
    }

    /// The place at which the line ends, if the text has the line.
    pub fn end_byte_offset_from_line_index(&self, line: i32) -> (r: Option<usize>)
        requires
            self.wf(),
        ensures
            r == (if 0 <= line < self.starts().len() {
                Some(line_end(self.text(), self.starts(), line as int) as usize)
            } else {
                None
            }),
    {
        if line < 0 || line as usize >= self.line_starts.len() {
            None
        } else if (line as usize) + 1 < self.line_starts.len() {
            Some(self.line_starts[line as usize + 1] - 1)
        } else {
            Some(self.text.len())
        }
    }

    /// The place one character further, if there is a character at the
    /// place.
    pub fn next_grapheme_offset(&self, offset: usize) -> (r: Option<usize>)
        ensures
            r == (if offset < self.text().len() {
                Some((offset + 1) as usize)
            } else {
                None
            }),
    {
        if offset < self.text.len() {
            Some(offset + 1)
        } else {
            None
        }
    }

    /// The place one character back, if the place is in the text and not at
    /// its beginning.
    pub fn prev_grapheme_offset(&self, offset: usize) -> (r: Option<usize>)
        ensures
            r == (if 0 < offset <= self.text().len() {
                Some((offset - 1) as usize)
            } else {
                None
            }),
    {
        if 0 < offset && offset <= self.text.len() {
            Some(offset - 1)
        } else {
            None
        }
    }

    /// The character at the place.
    pub fn char_at(&self, offset: usize) -> (r: char)
        requires
            offset < self.text().len(),
        ensures
            r == self.text()[offset as int],
    {
        self.text[offset]
    }

    /// The line and the column of a place.
    pub fn offset_to_location(&self, offset: usize) -> (r: Location)
        requires
            self.wf(),
        ensures
            r == location_of(self.text(), self.starts(), offset as int),
            0 <= r.line < self.starts().len(),
            0 <= r.column,
            self.starts()[r.line as int] + r.column <= line_end(self.text(), self.starts(), r.line as int),
    {
        let o = if offset > self.text.len() {
            self.text.len()
        } else {
            offset
        };
        let mut n: usize = self.line_starts.len();
        while n > 1 && self.line_starts[n - 1] > o
            invariant
                1 <= n <= self.line_starts.len(),
                line_of(self.starts(), o as int, self.starts().len() as int) == line_of(
                    self.starts(),
                    o as int,
                    n as int,
                ),
            decreases n,
        {
            n = n - 1;
        }
        proof {
            lemma_line_of(self.starts(), o as int, self.starts().len() as int);
            self.lemma_line_count();
            let line = line_of(self.starts(), o as int, self.starts().len() as int);
            if line + 1 < self.starts().len() {
                assert(o < self.starts()[line + 1]);
            }
        }
        Location { line: (n - 1) as i32, column: (o - self.line_starts[n - 1]) as i32 }
    }

    /// The place of a line and a column in the text.
    pub fn line_col_to_offset(&self, location: Location) -> (r: Option<usize>)
        requires
            self.wf(),
        ensures
            match offset_of(self.text(), self.starts(), location) {
                Some(o) => r == Some(o as usize) && 0 <= o <= self.text().len(),
                None => r is None,
            },
    {
        if location.line < 0 {
            return Some(0);
        }
        let begin = match self.byte_offset_from_line_index(location.line) {
            Some(begin) => begin,
            None => {
                return None;
            },
        };
        let end = match self.end_byte_offset_from_line_index(location.line) {
            Some(end) => end,
            None => {
                return None;
            },
        };
        proof {
            self.lemma_line_bounds(location.line as int);
        }
        let column: usize = if location.column < 0 {
            0
        } else {
            location.column as usize
        };
        if column < end - begin {
            Some(begin + column)
        } else {
            Some(end)
        }
    }

    /// A line begins at or before its end, and ends in the text.
    pub proof fn lemma_line_bounds(&self, line: int)
        requires
            self.wf(),
            0 <= line < self.starts().len(),
        ensures
            self.starts()[line] <= line_end(self.text(), self.starts(), line) <= self.text().len(),
    {
        if line + 1 < self.starts().len() {
            assert(self.starts()[line] < self.starts()[line + 1]);
        } else if line > 0 {
            assert(self.starts()[line] <= self.text().len());
        }
    }
}

/// Numbers that rise from 0 are at least as great as their positions.
pub proof fn lemma_rising_bound(starts: Seq<usize>, k: int)
    requires
        0 <= k < starts.len(),
        forall|i: int, j: int| 0 <= i < j < starts.len() ==> #[trigger] starts[i] < #[trigger] starts[j],
    ensures
        starts[k] >= k,
    decreases k,
{
    if k > 0 {
        lemma_rising_bound(starts, k - 1);
        assert(starts[k - 1] < starts[k]);
    }
}

} // verus!
