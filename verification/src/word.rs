//! The borders of the words of a text.

use vstd::prelude::*;
use crate::text::ViewBuffer;

verus! {

/// The kind of a character, as far as the borders of words go.
#[derive(Clone, Copy, Debug, PartialEq, Eq, Structural)]
pub enum WordProperty {
    /// The line feed.
    Lf,
    /// A blank or another control character.
    Space,
    /// A punctuation mark of ASCII but the underscore.
    Punctuation,
    /// Any other character.
    Other,
}

/// What lies between two neighbouring characters.
#[derive(Clone, Copy, Debug, PartialEq, Eq, Structural)]
pub enum WordBoundary {
    /// The inside of a word or of a run of blanks.
    Interior,
    /// The beginning of a word.
    Start,
    /// The end of a word.
    End,
    /// The end of one word and the beginning of the next.
    Both,
}

impl WordBoundary {
    /// A word begins here.
    pub open spec fn spec_is_start(self) -> bool {
        self is Start || self is Both
    }

    /// A word ends here.
    pub open spec fn spec_is_end(self) -> bool {
        self is End || self is Both
    }

    /// A word begins or ends here.
    pub open spec fn spec_is_boundary(self) -> bool {
        !(self is Interior)
    }

    /// Whether a word begins here.
    pub fn is_start(&self) -> (r: bool)
        ensures
            r == self.spec_is_start(),
    {
        match self {
            WordBoundary::Start => true,
            WordBoundary::Both => true,
            _ => false,
        }
    }

    /// Whether a word ends here.
    pub fn is_end(&self) -> (r: bool)
        ensures
            r == self.spec_is_end(),
    {
        match self {
            WordBoundary::End => true,
            WordBoundary::Both => true,
            _ => false,
        }
    }

    /// Whether a word begins or ends here.
    pub fn is_boundary(&self) -> (r: bool)
        ensures
            r == self.spec_is_boundary(),
    {
        match self {
            WordBoundary::Interior => false,
            _ => true,
        }
    }
}

/// The kind of the character.
pub open spec fn spec_word_property(c: char) -> WordProperty {
    let code = c as u32;
    if code == 0x0A {
        WordProperty::Lf
    } else if code <= 0x20 {
        WordProperty::Space
    } else if (0x21 <= code <= 0x2F) || (0x3A <= code <= 0x40) || (0x5B <= code <= 0x5E) || code == 0x60 || (
    0x7B <= code <= 0x7E) {
        WordProperty::Punctuation
    } else {
        WordProperty::Other
    }
}

/// The kind of the character.
pub fn get_word_property(c: char) -> (r: WordProperty)
    ensures
        r == spec_word_property(c),
{
    let code = c as u32;
    if code == 0x0A {
        WordProperty::Lf
    } else if code <= 0x20 {
        WordProperty::Space
    } else if (0x21 <= code && code <= 0x2F) || (0x3A <= code && code <= 0x40) || (0x5B <= code && code
        <= 0x5E) || code == 0x60 || (0x7B <= code && code <= 0x7E) {
        WordProperty::Punctuation
    } else {
        WordProperty::Other
    }
}

/// What lies between a character of the kind `prev` and a following
/// character of the kind `next`.
pub open spec fn spec_classify_boundary(prev: WordProperty, next: WordProperty) -> WordBoundary {
    match (prev, next) {
        (WordProperty::Lf, WordProperty::Lf) => WordBoundary::Start,
        (WordProperty::Lf, WordProperty::Space) => WordBoundary::Interior,
        (_, WordProperty::Lf) => WordBoundary::End,
        (WordProperty::Lf, _) => WordBoundary::Start,
        (WordProperty::Space, WordProperty::Space) => WordBoundary::Interior,
        (_, WordProperty::Space) => WordBoundary::End,
        (WordProperty::Space, _) => WordBoundary::Start,
        (WordProperty::Punctuation, WordProperty::Other) => WordBoundary::Both,
        (WordProperty::Other, WordProperty::Punctuation) => WordBoundary::Both,
        _ => WordBoundary::Interior,
    }
}

/// What lies between two neighbouring characters of the given kinds.
pub fn classify_boundary(prev: WordProperty, next: WordProperty) -> (r: WordBoundary)
    ensures
        r == spec_classify_boundary(prev, next),
{
    match (prev, next) {
        (WordProperty::Lf, WordProperty::Lf) => WordBoundary::Start,
        (WordProperty::Lf, WordProperty::Space) => WordBoundary::Interior,
        (_, WordProperty::Lf) => WordBoundary::End,
        (WordProperty::Lf, _) => WordBoundary::Start,
        (WordProperty::Space, WordProperty::Space) => WordBoundary::Interior,
        (_, WordProperty::Space) => WordBoundary::End,
        (WordProperty::Space, _) => WordBoundary::Start,
        (WordProperty::Punctuation, WordProperty::Other) => WordBoundary::Both,
        (WordProperty::Other, WordProperty::Punctuation) => WordBoundary::Both,
        _ => WordBoundary::Interior,
    }
}

/// What lies at the place `p` of the text, between the character before it
/// and the character at it. The two ends of the text are borders of both
/// kinds.
pub open spec fn boundary_at(text: Seq<char>, p: int) -> WordBoundary {
    if p <= 0 || p >= text.len() {
        WordBoundary::Both
    } else {
        spec_classify_boundary(spec_word_property(text[p - 1]), spec_word_property(text[p]))
    }
}

/// The place `p` can be the beginning of the word that is selected around
/// the place `pos`. At `pos` itself a word has to begin. Elsewhere, if `pos`
/// lies inside a word, any border will do; if `pos` lies at a border, only
/// the beginning of a word will.
pub open spec fn starts_selection(text: Seq<char>, pos: int, p: int) -> bool {
    p <= 0 || if p == pos {
        boundary_at(text, pos).spec_is_start()
    } else if !boundary_at(text, pos).spec_is_boundary() {
        boundary_at(text, p).spec_is_boundary()
    } else {
        boundary_at(text, p).spec_is_start()
    }
}

/// The place `p` can be the end of the word that is selected around the
/// place `pos`.
pub open spec fn ends_selection(text: Seq<char>, pos: int, p: int) -> bool {
    p >= text.len() || if p == pos {
        boundary_at(text, pos).spec_is_end()
    } else if !boundary_at(text, pos).spec_is_boundary() {
        boundary_at(text, p).spec_is_boundary()
    } else {
        boundary_at(text, p).spec_is_end()
    }
}

/// A cursor that goes over a text from one border of a word to the next.
pub struct WordCursor<'a> {
    text: &'a ViewBuffer,
    position: usize,
}

impl<'a> WordCursor<'a> {
    /// The text that the cursor goes over.
    pub closed spec fn text(&self) -> Seq<char> {
        self.text.text()
    }

    /// The place of the cursor.
    pub closed spec fn spec_position(&self) -> usize {
        self.position
    }

    /// A cursor at the given place of the text. A place behind the end of
    /// the text counts as the end of the text.
    pub fn new(text: &'a ViewBuffer, position: usize) -> (r: Self)
        ensures
            r.text() == text.text(),
            r.spec_position() == (if position > text.text().len() {
                text.text().len() as usize
            } else {
                position
            }),
            r.spec_position() <= r.text().len(),
    {
        let size = text.byte_size();
        WordCursor {
            text,
            position: if position > size {
                size
            } else {
                position
            },
        }
    }

    /// The place of the cursor.
    pub fn position(&self) -> (r: usize)
        ensures
            r == self.spec_position(),
    {
        self.position
    }

    /// What lies at the place `p`.
    fn boundary(&self, p: usize) -> (r: WordBoundary)
        ensures
            r == boundary_at(self.text(), p as int),
    {
        if p == 0 || p >= self.text.byte_size() {
            WordBoundary::Both
        } else {
            classify_boundary(
                get_word_property(self.text.char_at(p - 1)),
                get_word_property(self.text.char_at(p)),
            )
        }
    }

    /// Whether the word around the place `pos` can begin at the place `p`.
    fn can_start(&self, pos: usize, p: usize) -> (r: bool)
        ensures
            r == starts_selection(self.text(), pos as int, p as int),
    {
        if p == 0 {
            true
        } else if p == pos {
            self.boundary(pos).is_start()
        } else if !self.boundary(pos).is_boundary() {
            self.boundary(p).is_boundary()
        } else {
            self.boundary(p).is_start()
        }
    }

    /// Whether the word around the place `pos` can end at the place `p`.
    fn can_end(&self, pos: usize, p: usize) -> (r: bool)
        ensures
            r == ends_selection(self.text(), pos as int, p as int),
    {
        if p >= self.text.byte_size() {
            true
        } else if p == pos {
            self.boundary(pos).is_end()
        } else if !self.boundary(pos).is_boundary() {
            self.boundary(p).is_boundary()
        } else {
            self.boundary(p).is_end()
        }
    }

    /// Moves the cursor back to the nearest beginning of a word before it,
    /// or to the beginning of the text, and returns the place. At the
    /// beginning of the text the cursor stays and nothing is returned.
    pub fn prev_boundary(&mut self) -> (r: Option<usize>)
        requires
            old(self).spec_position() <= old(self).text().len(),
        ensures
            final(self).text() == old(self).text(),
            final(self).spec_position() <= final(self).text().len(),
            old(self).spec_position() == 0 ==> r is None && final(self).spec_position() == 0,
            old(self).spec_position() > 0 ==> r == Some(final(self).spec_position()) && {
                let p = final(self).spec_position();
                &&& p < old(self).spec_position()
                &&& p == 0 || boundary_at(old(self).text(), p as int).spec_is_start()
                &&& forall|q: int|
                    p < q < old(self).spec_position() ==> !(#[trigger] boundary_at(
                        old(self).text(),
                        q,
                    )).spec_is_start()
            },
    {
        if self.position == 0 {
            return None;
        }
        let mut candidate: usize = self.position - 1;
        while candidate > 0 && !self.boundary(candidate).is_start()
            invariant
                candidate < self.position,
                self.position <= self.text().len(),
                forall|q: int|
                    candidate < q < self.position ==> !(#[trigger] boundary_at(self.text(), q)).spec_is_start(),
            decreases candidate,
        {
            candidate = candidate - 1;
        }
        self.position = candidate;
        Some(candidate)
    }

    /// Moves the cursor on to the nearest end of a word behind it, or to
    /// the end of the text, and returns the place. At the end of the text
    /// the cursor stays and nothing is returned.
    pub fn next_boundary(&mut self) -> (r: Option<usize>)
        requires
            old(self).spec_position() <= old(self).text().len(),
        ensures
            final(self).text() == old(self).text(),
            final(self).spec_position() <= final(self).text().len(),
            old(self).spec_position() == old(self).text().len() ==> r is None && final(self).spec_position()
                == old(self).spec_position(),
            old(self).spec_position() < old(self).text().len() ==> r == Some(final(self).spec_position()) && {
                let p = final(self).spec_position();
                &&& p > old(self).spec_position()
                &&& p == old(self).text().len() || boundary_at(old(self).text(), p as int).spec_is_end()
                &&& forall|q: int|
                    old(self).spec_position() < q < p ==> !(#[trigger] boundary_at(old(self).text(), q)).spec_is_end()
            },
    {
        let size = self.text.byte_size();
        if self.position >= size {
            return None;
        }
        let start = self.position;
        let mut candidate: usize = self.position + 1;
        while candidate < size && !self.boundary(candidate).is_end()
            invariant
                start < candidate <= size,
                size == self.text().len(),
                self.position == start,
                forall|q: int| start < q < candidate ==> !(#[trigger] boundary_at(self.text(), q)).spec_is_end(),
            decreases size - candidate,
        {
            candidate = candidate + 1;
        }
        self.position = candidate;
        Some(candidate)
    }

    /// The two ends of the word around the cursor: the nearest place at or
    /// before the cursor at which the word can begin, and the nearest place
    /// at or behind it at which the word can end. The cursor moves to the
    /// end of the word.
    pub fn select_word(&mut self) -> (r: (usize, usize))
        requires
            old(self).spec_position() <= old(self).text().len(),
        ensures
            final(self).text() == old(self).text(),
            final(self).spec_position() == r.1,
            r.0 <= old(self).spec_position() <= r.1 <= old(self).text().len(),
            starts_selection(old(self).text(), old(self).spec_position() as int, r.0 as int),
            forall|q: int|
                r.0 < q <= old(self).spec_position() ==> !starts_selection(
                    old(self).text(),
                    old(self).spec_position() as int,
                    q,
                ),
            ends_selection(old(self).text(), old(self).spec_position() as int, r.1 as int),
            forall|q: int|
                old(self).spec_position() <= q < r.1 ==> !ends_selection(
                    old(self).text(),
                    old(self).spec_position() as int,
                    q,
                ),
    {
        let size = self.text.byte_size();
        let initial = self.position;
        let mut start: usize = initial;
        while start > 0 && !self.can_start(initial, start)
            invariant
                start <= initial <= size,
                size == self.text().len(),
                self.position == initial,
                forall|q: int| start < q <= initial ==> !starts_selection(self.text(), initial as int, q),
            decreases start,
        {
            start = start - 1;
        }
        let mut end: usize = initial;
        while end < size && !self.can_end(initial, end)
            invariant
                initial <= end <= size,
                size == self.text().len(),
                self.position == initial,
                forall|q: int| initial <= q < end ==> !ends_selection(self.text(), initial as int, q),
            decreases size - end,
        {
            end = end + 1;
        }
        self.position = end;
        (start, end)
    }
}

} // verus!
