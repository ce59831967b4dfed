use vstd::prelude::*;

use crate::error::ParseError;
use crate::hunk::{
    hunk_of, lemma_run_stops_at_error, run, HunkHeader, HunkModel, LineRecord, ORIGIN_ADD,
    ORIGIN_ADDED_NO_NEWLINE, ORIGIN_REMOVE, ORIGIN_REMOVED_NO_NEWLINE,
};

verus! {

/// The records of `recs` whose origin marker is `origin`, in their order.
pub open spec fn records_with_origin(recs: Seq<LineRecord>, origin: char) -> Seq<LineRecord>
    decreases recs.len(),
{
    if recs.len() == 0 {
        Seq::empty()
    } else if recs.last().origin == origin {
        records_with_origin(recs.drop_last(), origin).push(recs.last())
    } else {
        records_with_origin(recs.drop_last(), origin)
    }
}

/// Whether a content record is one physical line numbered `lineno` on its
/// side (the new side when `new_side`) and holds the bytes `content`.
pub open spec fn record_matches(r: LineRecord, new_side: bool, lineno: int, content: Seq<u8>) -> bool {
    let n = if new_side {
        r.new_lineno
    } else {
        r.old_lineno
    };
    &&& n is Some
    &&& n->Some_0 as int == lineno
    &&& r.num_lines <= 1
    &&& r.content@ == content
}

/// Whether the content records `recs` of one side give, in their order, the
/// lines `lines` of a block that starts at `start`: the `k`-th record is
/// numbered `start + k` and holds `lines[k]`.
pub open spec fn numbered_in_order(
    recs: Seq<LineRecord>,
    new_side: bool,
    start: int,
    lines: Seq<Seq<u8>>,
) -> bool {
    &&& recs.len() == lines.len()
    &&& forall|k: int|
        #![trigger recs[k]]
        0 <= k < recs.len() ==> record_matches(recs[k], new_side, start + k, lines[k])
}

/// What a run that succeeded has read: each block holds the content records
/// of its side, numbered without gaps, and each side's newline flag is
/// cleared by exactly the one marker of that side, if there was one.
proof fn lemma_run_ok(h: HunkHeader, recs: Seq<LineRecord>)
    requires
        run(h, recs) is Ok,
    ensures
        ({
            let st = run(h, recs)->Ok_0;
            &&& numbered_in_order(
                records_with_origin(recs, ORIGIN_ADD),
                true,
                h.new_start as int,
                st.added,
            )
            &&& numbered_in_order(
                records_with_origin(recs, ORIGIN_REMOVE),
                false,
                h.old_start as int,
                st.removed,
            )
            &&& records_with_origin(recs, ORIGIN_ADDED_NO_NEWLINE).len() <= 1
            &&& records_with_origin(recs, ORIGIN_REMOVED_NO_NEWLINE).len() <= 1
            &&& st.added_trailing_newline == (records_with_origin(
                recs,
                ORIGIN_ADDED_NO_NEWLINE,
            ).len() == 0)
            &&& st.removed_trailing_newline == (records_with_origin(
                recs,
                ORIGIN_REMOVED_NO_NEWLINE,
            ).len() == 0)
        }),
    decreases recs.len(),
{
    if recs.len() > 0 {
        let prev = recs.drop_last();
        assert(run(h, prev) is Ok);
        lemma_run_ok(h, prev);
        let adds = records_with_origin(recs, ORIGIN_ADD);
        let removes = records_with_origin(recs, ORIGIN_REMOVE);
        let st = run(h, recs)->Ok_0;
        assert(numbered_in_order(adds, true, h.new_start as int, st.added)) by {
            if recs.last().origin == ORIGIN_ADD {
                assert(adds.drop_last() == records_with_origin(prev, ORIGIN_ADD));
                assert forall|k: int| 0 <= k < adds.len() - 1 implies adds[k] == records_with_origin(
                    prev,
                    ORIGIN_ADD,
                )[k] by {}
            }
        }
        assert(numbered_in_order(removes, false, h.old_start as int, st.removed)) by {
            if recs.last().origin == ORIGIN_REMOVE {
                assert(removes.drop_last() == records_with_origin(prev, ORIGIN_REMOVE));
                assert forall|k: int|
                    0 <= k < removes.len() - 1 implies removes[k] == records_with_origin(
                    prev,
                    ORIGIN_REMOVE,
                )[k] by {}
            }
        }
    }
}

/// A record with marker `origin` at position `i` puts at least one record
/// in the records with that marker.
proof fn lemma_origin_present(recs: Seq<LineRecord>, origin: char, i: int)
    requires
        0 <= i < recs.len(),
        recs[i].origin == origin,
    ensures
        records_with_origin(recs, origin).len() > 0,
    decreases recs.len(),
{
    if i < recs.len() - 1 {
        lemma_origin_present(recs.drop_last(), origin, i);
    }
}

/// A hunk that was read has as many added lines as its header declares on
/// the new side, and as many removed lines as it declares on the old side.
pub proof fn lemma_block_lengths_match_header(h: HunkHeader, recs: Seq<LineRecord>)
    requires
        hunk_of(h, recs) is Ok,
    ensures
        hunk_of(h, recs)->Ok_0.added.lines.len() == h.new_lines as int,
        hunk_of(h, recs)->Ok_0.removed.lines.len() == h.old_lines as int,
{
}

/// In a hunk that was read, the added records are numbered `added.start`,
/// `added.start + 1`, ... in the order in which they came, each gives the
/// added line at its position, and the same holds of the removed records
/// against `removed.start`.
pub proof fn lemma_line_numbers_contiguous(h: HunkHeader, recs: Seq<LineRecord>)
    requires
        hunk_of(h, recs) is Ok,
    ensures
        ({
            let m = hunk_of(h, recs)->Ok_0;
            &&& numbered_in_order(
                records_with_origin(recs, ORIGIN_ADD),
                true,
                m.added.start,
                m.added.lines,
            )
            &&& numbered_in_order(
                records_with_origin(recs, ORIGIN_REMOVE),
                false,
                m.removed.start,
                m.removed.lines,
            )
        }),
{
    lemma_run_ok(h, recs);
}

/// In a hunk that was read, each side's no-newline marker came at most once,
/// and a block keeps its trailing newline exactly when its side's marker did
/// not come.
pub proof fn lemma_trailing_newline_flips_once(h: HunkHeader, recs: Seq<LineRecord>)
    requires
        hunk_of(h, recs) is Ok,
    ensures
        ({
            let m = hunk_of(h, recs)->Ok_0;
            let added_markers = records_with_origin(recs, ORIGIN_ADDED_NO_NEWLINE);
            let removed_markers = records_with_origin(recs, ORIGIN_REMOVED_NO_NEWLINE);
            &&& added_markers.len() <= 1
            &&& removed_markers.len() <= 1
            &&& m.added.trailing_newline == (added_markers.len() == 0)
            &&& m.removed.trailing_newline == (removed_markers.len() == 0)
        }),
{
    lemma_run_ok(h, recs);
}

/// A no-newline marker that repeats one met earlier in the same hunk makes
/// the hunk fail with `DuplicateNoNewlineMarker`, when no record before it
/// has failed.
pub proof fn lemma_repeated_marker_rejected(h: HunkHeader, recs: Seq<LineRecord>, i: int, j: int)
    requires
        0 <= i < j < recs.len(),
        recs[j].origin == recs[i].origin,
        recs[j].origin == ORIGIN_ADDED_NO_NEWLINE || recs[j].origin == ORIGIN_REMOVED_NO_NEWLINE,
        run(h, recs.take(j)) is Ok,
    ensures
        hunk_of(h, recs) == Err::<HunkModel, ParseError>(
            ParseError::DuplicateNoNewlineMarker,
        ),
{
    let before = recs.take(j);
    lemma_run_ok(h, before);
    lemma_origin_present(before, recs[j].origin, i);
    assert(recs.take(j + 1).drop_last() =~= before);
    assert(recs.take(j + 1).last() == recs[j]);
    lemma_run_stops_at_error(h, recs, j + 1);
}

/// A record whose origin marker is none of the four accepted ones makes the
/// hunk fail with `UnknownLineType`, naming that marker, when no record
/// before it has failed.
pub proof fn lemma_unknown_origin_rejected(h: HunkHeader, recs: Seq<LineRecord>, j: int)
    requires
        0 <= j < recs.len(),
        recs[j].origin != ORIGIN_ADD,
        recs[j].origin != ORIGIN_REMOVE,
        recs[j].origin != ORIGIN_REMOVED_NO_NEWLINE,
        recs[j].origin != ORIGIN_ADDED_NO_NEWLINE,
        run(h, recs.take(j)) is Ok,
    ensures
        hunk_of(h, recs) == Err::<HunkModel, ParseError>(
            ParseError::UnknownLineType(recs[j].origin),
        ),
{
    assert(recs.take(j + 1).drop_last() =~= recs.take(j));
    assert(recs.take(j + 1).last() == recs[j]);
    lemma_run_stops_at_error(h, recs, j + 1);
}

} // verus!
