use owned_diff::error::ParseError;
use owned_diff::hunk::{Hunk, HunkBuilder, HunkHeader, LineRecord};

fn header(old_start: u32, old_lines: u32, new_start: u32, new_lines: u32) -> HunkHeader {
    HunkHeader { old_start, old_lines, new_start, new_lines }
}

fn add(content: &[u8], lineno: u32) -> LineRecord {
    LineRecord {
        origin: '+',
        old_lineno: None,
        new_lineno: Some(lineno),
        num_lines: 1,
        content: content.to_vec(),
    }
}

fn remove(content: &[u8], lineno: u32) -> LineRecord {
    LineRecord {
        origin: '-',
        old_lineno: Some(lineno),
        new_lineno: None,
        num_lines: 1,
        content: content.to_vec(),
    }
}

fn marker(origin: char) -> LineRecord {
    LineRecord {
        origin,
        old_lineno: None,
        new_lineno: None,
        num_lines: 1,
        content: b"\\ No newline at end of file\n".to_vec(),
    }
}

fn lines(b: &owned_diff::hunk::Block) -> Vec<Vec<u8>> {
    b.lines.as_ref().clone()
}

#[test]
fn added_block_from_two_adds() {
    let h = Hunk::from_records(header(0, 0, 10, 2), &vec![add(b"foo", 10), add(b"bar", 11)])
        .unwrap();
    assert_eq!(h.added.start, 10);
    assert_eq!(lines(&h.added), vec![b"foo".to_vec(), b"bar".to_vec()]);
    assert!(h.added.trailing_newline);
    assert_eq!(h.removed.start, 0);
    assert!(lines(&h.removed).is_empty());
    assert!(h.removed.trailing_newline);
}

#[test]
fn removed_block_without_trailing_newline() {
    let h = Hunk::from_records(header(5, 1, 0, 0), &vec![remove(b"baz", 5), marker('>')]).unwrap();
    assert_eq!(h.removed.start, 5);
    assert_eq!(lines(&h.removed), vec![b"baz".to_vec()]);
    assert!(!h.removed.trailing_newline);
    assert!(h.added.trailing_newline);
}

#[test]
fn added_side_marker_clears_added_flag() {
    let h = Hunk::from_records(header(3, 1, 3, 1), &vec![remove(b"a\n", 3), add(b"b", 3), marker('<')])
        .unwrap();
    assert!(!h.added.trailing_newline);
    assert!(h.removed.trailing_newline);
    assert_eq!(lines(&h.added), vec![b"b".to_vec()]);
    assert_eq!(lines(&h.removed), vec![b"a\n".to_vec()]);
}

#[test]
fn both_markers_once_each_are_accepted() {
    let h = Hunk::from_records(
        header(1, 1, 1, 1),
        &vec![remove(b"x", 1), marker('>'), add(b"y", 1), marker('<')],
    )
    .unwrap();
    assert!(!h.added.trailing_newline);
    assert!(!h.removed.trailing_newline);
}

#[test]
fn marker_before_content_is_accepted() {
    let h = Hunk::from_records(header(0, 0, 4, 1), &vec![marker('<'), add(b"z", 4)]).unwrap();
    assert!(!h.added.trailing_newline);
    assert_eq!(lines(&h.added), vec![b"z".to_vec()]);
}

#[test]
fn interleaved_sides_keep_their_own_numbering() {
    let h = Hunk::from_records(
        header(7, 2, 20, 2),
        &vec![remove(b"r1", 7), add(b"a1", 20), remove(b"r2", 8), add(b"a2", 21)],
    )
    .unwrap();
    assert_eq!(h.added.start, 20);
    assert_eq!(h.removed.start, 7);
    assert_eq!(lines(&h.added), vec![b"a1".to_vec(), b"a2".to_vec()]);
    assert_eq!(lines(&h.removed), vec![b"r1".to_vec(), b"r2".to_vec()]);
}

#[test]
fn empty_hunk_with_zero_counts() {
    let h = Hunk::from_records(header(0, 0, 0, 0), &vec![]).unwrap();
    assert!(lines(&h.added).is_empty());
    assert!(lines(&h.removed).is_empty());
    assert!(h.added.trailing_newline && h.removed.trailing_newline);
}

#[test]
fn content_bytes_are_kept_as_they_are() {
    let raw = vec![0xffu8, 0x00, b'\r', b'\n'];
    let h = Hunk::from_records(header(0, 0, 1, 1), &vec![add(&raw, 1)]).unwrap();
    assert_eq!(lines(&h.added), vec![raw]);
}

#[test]
fn repeated_added_marker_is_rejected() {
    let r = Hunk::from_records(header(0, 0, 1, 1), &vec![add(b"a", 1), marker('<'), marker('<')]);
    assert!(matches!(r, Err(ParseError::DuplicateNoNewlineMarker)));
}

#[test]
fn repeated_removed_marker_is_rejected() {
    let r = Hunk::from_records(header(1, 1, 0, 0), &vec![marker('>'), remove(b"a", 1), marker('>')]);
    assert!(matches!(r, Err(ParseError::DuplicateNoNewlineMarker)));
}

#[test]
fn context_line_is_unknown_type() {
    let mut ctx = add(b"same", 1);
    ctx.origin = ' ';
    ctx.old_lineno = Some(1);
    let r = Hunk::from_records(header(1, 0, 1, 0), &vec![ctx]);
    assert!(matches!(r, Err(ParseError::UnknownLineType(' '))));
}

#[test]
fn other_origin_is_unknown_type() {
    let r = Hunk::from_records(header(0, 0, 1, 1), &vec![add(b"a", 1), marker('B')]);
    assert!(matches!(r, Err(ParseError::UnknownLineType('B'))));
}

#[test]
fn multi_line_add_is_rejected() {
    let mut rec = add(b"a\nb\n", 1);
    rec.num_lines = 2;
    let r = Hunk::from_records(header(0, 0, 1, 2), &vec![rec]);
    assert!(matches!(r, Err(ParseError::MultiLineRecord)));
}

#[test]
fn multi_line_remove_is_rejected() {
    let mut rec = remove(b"a\nb\n", 1);
    rec.num_lines = 3;
    let r = Hunk::from_records(header(1, 2, 0, 0), &vec![rec]);
    assert!(matches!(r, Err(ParseError::MultiLineRecord)));
}

#[test]
fn gap_in_added_numbers_is_rejected() {
    let r = Hunk::from_records(header(0, 0, 10, 2), &vec![add(b"foo", 10), add(b"bar", 12)]);
    assert!(matches!(r, Err(ParseError::LineNumberMismatch)));
}

#[test]
fn wrong_first_removed_number_is_rejected() {
    let r = Hunk::from_records(header(5, 1, 0, 0), &vec![remove(b"baz", 4)]);
    assert!(matches!(r, Err(ParseError::LineNumberMismatch)));
}

#[test]
fn added_record_without_number_is_rejected() {
    let mut rec = add(b"a", 1);
    rec.new_lineno = None;
    let r = Hunk::from_records(header(0, 0, 1, 1), &vec![rec]);
    assert!(matches!(r, Err(ParseError::LineNumberMismatch)));
}

#[test]
fn removed_record_without_number_is_rejected() {
    let mut rec = remove(b"a", 1);
    rec.old_lineno = None;
    let r = Hunk::from_records(header(1, 1, 0, 0), &vec![rec]);
    assert!(matches!(r, Err(ParseError::LineNumberMismatch)));
}

#[test]
fn fewer_added_lines_than_declared_is_size_mismatch() {
    let r = Hunk::from_records(header(0, 0, 10, 3), &vec![add(b"foo", 10), add(b"bar", 11)]);
    assert!(matches!(r, Err(ParseError::SizeMismatch)));
}

#[test]
fn more_removed_lines_than_declared_is_size_mismatch() {
    let r = Hunk::from_records(header(5, 1, 0, 0), &vec![remove(b"a", 5), remove(b"b", 6)]);
    assert!(matches!(r, Err(ParseError::SizeMismatch)));
}

#[test]
fn first_failure_wins() {
    let r = Hunk::from_records(header(0, 0, 1, 5), &vec![marker('?'), add(b"a", 9)]);
    assert!(matches!(r, Err(ParseError::UnknownLineType('?'))));
}

#[test]
fn builder_reads_one_record_at_a_time() {
    let mut b = HunkBuilder::new(header(5, 1, 0, 0));
    assert!(b.push(&remove(b"baz", 5)).is_ok());
    assert!(b.push(&marker('>')).is_ok());
    assert!(matches!(b.push(&marker('>')), Err(ParseError::DuplicateNoNewlineMarker)));
    let h = b.finish().unwrap();
    assert_eq!(lines(&h.removed), vec![b"baz".to_vec()]);
    assert!(!h.removed.trailing_newline);
}

#[test]
fn builder_finish_checks_declared_sizes() {
    let mut b = HunkBuilder::new(header(0, 0, 1, 2));
    assert!(b.push(&add(b"only", 1)).is_ok());
    assert!(matches!(b.finish(), Err(ParseError::SizeMismatch)));
}

#[test]
fn cloned_block_shares_its_lines() {
    let h = Hunk::from_records(header(0, 0, 1, 1), &vec![add(b"a", 1)]).unwrap();
    let c = h.clone();
    assert!(std::rc::Rc::ptr_eq(&h.added.lines, &c.added.lines));
}
