use reactive_core::movement::Transform;
use reactive_core::text::Location;
use reactive_core::text::Selection;
use reactive_core::text::Shape;
use reactive_core::text::ViewBuffer;
use reactive_core::word::classify_boundary;
use reactive_core::word::get_word_property;
use reactive_core::word::WordBoundary;
use reactive_core::word::WordCursor;
use reactive_core::word::WordProperty;

fn buffer(text: &str) -> ViewBuffer {
    ViewBuffer::new(text.chars().collect())
}

fn at(line: i32, column: i32) -> Location {
    Location { line, column }
}

fn caret(line: i32, column: i32) -> Selection {
    Selection { start: at(line, column), end: at(line, column), id: 7 }
}

fn region(start: Location, end: Location) -> Selection {
    Selection { start, end, id: 7 }
}

const TEXT: &str = "first line\nsecond\n\nlast one";

#[test]
fn lines_and_offsets() {
    let b = buffer(TEXT);
    assert_eq!(b.byte_size(), 27);
    assert_eq!(b.last_line_index(), 3);
    assert_eq!(b.byte_offset_from_line_index(0), Some(0));
    assert_eq!(b.byte_offset_from_line_index(1), Some(11));
    assert_eq!(b.byte_offset_from_line_index(2), Some(18));
    assert_eq!(b.byte_offset_from_line_index(3), Some(19));
    assert_eq!(b.byte_offset_from_line_index(4), None);
    assert_eq!(b.byte_offset_from_line_index(-1), None);
    assert_eq!(b.end_byte_offset_from_line_index(0), Some(10));
    assert_eq!(b.end_byte_offset_from_line_index(2), Some(18));
    assert_eq!(b.end_byte_offset_from_line_index(3), Some(27));
    assert_eq!(b.end_byte_offset_from_line_index(4), None);
    assert_eq!(b.next_grapheme_offset(26), Some(27));
    assert_eq!(b.next_grapheme_offset(27), None);
    assert_eq!(b.prev_grapheme_offset(0), None);
    assert_eq!(b.prev_grapheme_offset(1), Some(0));
    assert_eq!(b.prev_grapheme_offset(28), None);
    assert_eq!(b.char_at(11), 's');
}

#[test]
fn empty_text_has_one_line() {
    let b = buffer("");
    assert_eq!(b.last_line_index(), 0);
    assert_eq!(b.offset_to_location(0), at(0, 0));
    assert_eq!(b.offset_to_location(5), at(0, 0));
    assert_eq!(b.line_col_to_offset(at(0, 3)), Some(0));
    assert_eq!(b.moved_selection_region(Transform::Right, caret(0, 0), false), caret(0, 0));
}

#[test]
fn locations_and_offsets() {
    let b = buffer(TEXT);
    assert_eq!(b.offset_to_location(0), at(0, 0));
    assert_eq!(b.offset_to_location(10), at(0, 10));
    assert_eq!(b.offset_to_location(11), at(1, 0));
    assert_eq!(b.offset_to_location(18), at(2, 0));
    assert_eq!(b.offset_to_location(27), at(3, 8));
    assert_eq!(b.offset_to_location(99), at(3, 8));
    for location in [at(0, 4), at(1, 0), at(1, 6), at(2, 0), at(3, 8), at(1, 99), at(-2, 5), at(4, 0), at(0, -3)] {
        assert_eq!(b.line_col_to_offset(location), b.line_offset_of_location_X2(location));
    }
    assert_eq!(b.line_col_to_offset(at(1, 3)), Some(14));
    assert_eq!(b.line_col_to_offset(at(1, 99)), Some(17));
    assert_eq!(b.line_col_to_offset(at(-2, 5)), Some(0));
    assert_eq!(b.line_col_to_offset(at(4, 0)), None);
    assert_eq!(b.line_col_to_offset(at(3, 100)), Some(27));
}

#[test]
fn grapheme_locations() {
    let b = buffer(TEXT);
    assert_eq!(b.prev_grapheme_location(at(1, 0)), Some(at(0, 10)));
    assert_eq!(b.prev_grapheme_location(at(0, 0)), None);
    assert_eq!(b.prev_grapheme_location(at(9, 0)), None);
    assert_eq!(b.next_grapheme_location(at(0, 10)), Some(at(1, 0)));
    assert_eq!(b.next_grapheme_location(at(3, 8)), None);
    assert_eq!(b.next_grapheme_location(at(2, 0)), Some(at(3, 0)));
}

#[test]
fn selection_borders() {
    let forward = region(at(0, 2), at(1, 1));
    let backward = region(at(1, 1), at(0, 2));
    assert_eq!(forward.min(), at(0, 2));
    assert_eq!(forward.max(), at(1, 1));
    assert_eq!(backward.min(), at(0, 2));
    assert_eq!(backward.max(), at(1, 1));
    assert!(caret(1, 1).is_caret());
    assert!(!forward.is_caret());
}

#[test]
fn vertical_motion() {
    let b = buffer(TEXT);
    assert_eq!(b.vertical_motion_selection_to_location(region(at(0, 2), at(1, 1)), true, false), at(0, 2));
    assert_eq!(b.vertical_motion_selection_to_location(region(at(0, 2), at(1, 1)), false, false), at(1, 1));
    assert_eq!(b.vertical_motion_selection_to_location(region(at(1, 1), at(0, 2)), false, true), at(0, 2));
    assert_eq!(b.vertical_motion(caret(1, 4), 1, false), Shape { start: at(1, 4), end: at(2, 4) });
    assert_eq!(b.vertical_motion(caret(1, 4), -1, false), Shape { start: at(1, 4), end: at(0, 4) });
    // from a line before the text, and from a line behind it
    assert_eq!(b.vertical_motion(caret(-5, 1), -1, true).end, at(-1, 1));
    assert_eq!(b.vertical_motion(caret(-5, 1), 1, true).end, at(1, 1));
    assert_eq!(b.vertical_motion(caret(9, 1), 1, true).end, at(4, 1));
    assert_eq!(b.vertical_motion(caret(9, 1), -1, true).end, at(2, 1));
    assert_eq!(b.vertical_motion(caret(3, 1), 1, true).end, at(4, 1));
}

#[test]
fn moved_selection_region_for_each_transform() {
    let b = buffer(TEXT);
    let r = region(at(1, 2), at(1, 5));
    let moved = |movement, region, modify| b.moved_selection_region(movement, region, modify);
    assert_eq!(moved(Transform::All, r, true), region(at(0, 0), at(3, 8)));
    assert_eq!(moved(Transform::All, r, false), caret(3, 8));
    assert_eq!(moved(Transform::Up, r, false), caret(0, 2));
    assert_eq!(moved(Transform::Up, r, true), region(at(1, 2), at(0, 5)));
    assert_eq!(moved(Transform::Down, r, false), caret(2, 5));
    assert_eq!(moved(Transform::StartOfDocument, r, true), region(at(1, 2), at(0, 0)));
    assert_eq!(moved(Transform::EndOfDocument, r, true), region(at(1, 2), at(3, 8)));
    assert_eq!(moved(Transform::Left, r, false), caret(1, 2));
    assert_eq!(moved(Transform::Left, r, true), region(at(1, 2), at(1, 4)));
    assert_eq!(moved(Transform::Left, caret(1, 0), false), caret(0, 10));
    assert_eq!(moved(Transform::Left, caret(0, 0), false), caret(0, 0));
    assert_eq!(moved(Transform::Right, r, false), caret(1, 5));
    assert_eq!(moved(Transform::Right, r, true), region(at(1, 2), at(1, 6)));
    assert_eq!(moved(Transform::Right, caret(1, 6), false), caret(2, 0));
    assert_eq!(moved(Transform::Right, caret(3, 8), false), caret(3, 8));
    assert_eq!(moved(Transform::LeftSelectionBorder, r, false), caret(1, 2));
    assert_eq!(moved(Transform::RightSelectionBorder, r, false), caret(1, 5));
    assert_eq!(moved(Transform::LeftOfLine, r, true), region(at(1, 2), at(1, 0)));
    assert_eq!(moved(Transform::RightOfLine, r, true), region(at(1, 2), at(1, 6)));
    assert_eq!(moved(Transform::RightOfLine, caret(3, 0), false), caret(3, 8));
    assert_eq!(moved(Transform::RightOfLine, caret(2, 0), false), caret(2, 0));
    assert_eq!(moved(Transform::LeftWord, caret(0, 8), false), caret(0, 6));
    assert_eq!(moved(Transform::LeftWord, caret(0, 6), false), caret(0, 0));
    assert_eq!(moved(Transform::LeftWord, caret(0, 0), false), caret(0, 0));
    assert_eq!(moved(Transform::RightWord, caret(0, 1), false), caret(0, 5));
    assert_eq!(moved(Transform::RightWord, caret(0, 5), false), caret(0, 10));
    assert_eq!(moved(Transform::RightWord, caret(3, 8), false), caret(3, 8));
    assert_eq!(moved(Transform::Word, caret(0, 2), true), region(at(0, 0), at(0, 5)));
    assert_eq!(moved(Transform::Word, caret(0, 5), true), region(at(0, 0), at(0, 5)));
    assert_eq!(moved(Transform::Word, caret(0, 6), true), region(at(0, 6), at(0, 10)));
    assert_eq!(moved(Transform::Word, caret(0, 2), false), caret(0, 5));
    assert_eq!(moved(Transform::Left, r, false).id, 7);
}

#[test]
fn moved_selection_moves_every_region() {
    let mut b = buffer(TEXT);
    b.set_selection(vec![caret(0, 1), region(at(1, 0), at(1, 3))]);
    assert_eq!(b.selection().len(), 2);
    assert_eq!(b.moved_selection(Transform::Right, false), vec![caret(0, 2), caret(1, 3)]);
    assert_eq!(
        b.moved_selection(Transform::Right, true),
        vec![region(at(0, 1), at(0, 2)), region(at(1, 0), at(1, 4))]
    );
    assert_eq!(b.moved_selection(Transform::Down, false), vec![caret(1, 1), caret(2, 3)]);
}

#[test]
fn word_properties_and_boundaries() {
    assert_eq!(get_word_property('\n'), WordProperty::Lf);
    assert_eq!(get_word_property(' '), WordProperty::Space);
    assert_eq!(get_word_property('\t'), WordProperty::Space);
    assert_eq!(get_word_property('.'), WordProperty::Punctuation);
    assert_eq!(get_word_property('_'), WordProperty::Other);
    assert_eq!(get_word_property('a'), WordProperty::Other);
    assert_eq!(get_word_property('é'), WordProperty::Other);
    assert_eq!(classify_boundary(WordProperty::Space, WordProperty::Other), WordBoundary::Start);
    assert_eq!(classify_boundary(WordProperty::Other, WordProperty::Space), WordBoundary::End);
    assert_eq!(classify_boundary(WordProperty::Other, WordProperty::Punctuation), WordBoundary::Both);
    assert_eq!(classify_boundary(WordProperty::Other, WordProperty::Other), WordBoundary::Interior);
    assert_eq!(classify_boundary(WordProperty::Lf, WordProperty::Lf), WordBoundary::Start);
    assert_eq!(classify_boundary(WordProperty::Lf, WordProperty::Space), WordBoundary::Interior);
    assert!(WordBoundary::Both.is_start() && WordBoundary::Both.is_end() && WordBoundary::Both.is_boundary());
    assert!(!WordBoundary::Interior.is_boundary());
}

#[test]
fn word_cursor_walks_over_borders() {
    let b = buffer("foo.bar  baz");
    let mut cursor = WordCursor::new(&b, 0);
    let mut ends = Vec::new();
    while let Some(p) = cursor.next_boundary() {
        ends.push(p);
    }
    assert_eq!(ends, vec![3, 4, 7, 12]);
    assert_eq!(cursor.position(), 12);
    let mut starts = Vec::new();
    while let Some(p) = cursor.prev_boundary() {
        starts.push(p);
    }
    assert_eq!(starts, vec![9, 4, 3, 0]);
    let mut cursor = WordCursor::new(&b, 5);
    assert_eq!(cursor.select_word(), (4, 7));
    let mut cursor = WordCursor::new(&b, 8);
    assert_eq!(cursor.select_word(), (7, 9));
    let mut cursor = WordCursor::new(&b, 99);
    assert_eq!(cursor.position(), 12);
    assert_eq!(cursor.select_word(), (12, 12));
}
