use std::rc::Rc;
use vstd::prelude::*;

use crate::error::ParseError;

verus! {

/// Origin marker of a line added on the new side.
pub const ORIGIN_ADD: char = '+';

/// Origin marker of a line removed from the old side.
pub const ORIGIN_REMOVE: char = '-';

/// Origin marker telling that the old side has no newline at end of file.
pub const ORIGIN_REMOVED_NO_NEWLINE: char = '>';

/// Origin marker telling that the new side has no newline at end of file.
pub const ORIGIN_ADDED_NO_NEWLINE: char = '<';

/// One contiguous run of lines on one side of a hunk.
#[derive(Debug, Clone)]
pub struct Block {
    /// 1-based number, in its side's file, of the block's first line.
    pub start: usize,
    /// The raw bytes of each line, shared between the clones of the block.
    pub lines: Rc<Vec<Vec<u8>>>,
    /// False when the file side is known to end without a newline after
    /// this block's last line.
    pub trailing_newline: bool,
}

/// One region of change: the new-side lines and the old-side lines.
#[derive(Debug, Clone)]
pub struct Hunk {
    pub added: Block,
    pub removed: Block,
}

/// The numbers in a hunk header.
#[derive(Debug, Clone, Copy, PartialEq, Eq)]
pub struct HunkHeader {
    pub old_start: u32,
    pub old_lines: u32,
    pub new_start: u32,
    pub new_lines: u32,
}

/// One line record of a hunk, as the diff engine reports it.
#[derive(Debug, Clone)]
pub struct LineRecord {
    pub origin: char,
    pub old_lineno: Option<u32>,
    pub new_lineno: Option<u32>,
    /// How many physical lines the record spans.
    pub num_lines: u32,
    pub content: Vec<u8>,
}

/// Mathematical value of a `Block`.
pub ghost struct BlockModel {
    pub start: int,
    pub lines: Seq<Seq<u8>>,
    pub trailing_newline: bool,
}

/// Mathematical value of a `Hunk`.
pub ghost struct HunkModel {
    pub added: BlockModel,
    pub removed: BlockModel,
}

/// The bytes of each line.
pub open spec fn lines_view(lines: Seq<Vec<u8>>) -> Seq<Seq<u8>> {
    lines.map_values(|l: Vec<u8>| l@)
}

impl View for Block {
    type V = BlockModel;

    open spec fn view(&self) -> BlockModel {
        BlockModel {
            start: self.start as int,
            lines: lines_view(self.lines@),
            trailing_newline: self.trailing_newline,
        }
    }
}

impl View for Hunk {
    type V = HunkModel;

    open spec fn view(&self) -> HunkModel {
        HunkModel { added: self.added@, removed: self.removed@ }
    }
}

/// What has been read of a hunk so far.
pub ghost struct HunkState {
    pub added: Seq<Seq<u8>>,
    pub removed: Seq<Seq<u8>>,
    pub added_trailing_newline: bool,
    pub removed_trailing_newline: bool,
}

/// The state before the first record of a hunk.
pub open spec fn initial_state() -> HunkState {
    HunkState {
        added: Seq::empty(),
        removed: Seq::empty(),
        added_trailing_newline: true,
        removed_trailing_newline: true,
    }
}

/// Whether a content record's line number continues a block of `len` lines
/// that starts at `start`.
pub open spec fn continues(lineno: Option<u32>, start: u32, len: nat) -> bool {
    lineno is Some && lineno->Some_0 as int == start as int + len
}

/// The effect of one line record on the state of a hunk.
pub open spec fn step(h: HunkHeader, st: HunkState, r: LineRecord) -> Result<HunkState, ParseError> {
    if r.origin == ORIGIN_ADD {
        if r.num_lines > 1 {
            Err(ParseError::MultiLineRecord)
        } else if !continues(r.new_lineno, h.new_start, st.added.len()) {
            Err(ParseError::LineNumberMismatch)
        } else {
            Ok(HunkState { added: st.added.push(r.content@), ..st })
        }
    } else if r.origin == ORIGIN_REMOVE {
        if r.num_lines > 1 {
            Err(ParseError::MultiLineRecord)
        } else if !continues(r.old_lineno, h.old_start, st.removed.len()) {
            Err(ParseError::LineNumberMismatch)
        } else {
            Ok(HunkState { removed: st.removed.push(r.content@), ..st })
        }
    } else if r.origin == ORIGIN_REMOVED_NO_NEWLINE {
        if !st.removed_trailing_newline {
            Err(ParseError::DuplicateNoNewlineMarker)
        } else {
            Ok(HunkState { removed_trailing_newline: false, ..st })
        }
    } else if r.origin == ORIGIN_ADDED_NO_NEWLINE {
        if !st.added_trailing_newline {
            Err(ParseError::DuplicateNoNewlineMarker)
        } else {
            Ok(HunkState { added_trailing_newline: false, ..st })
        }
    } else {
        Err(ParseError::UnknownLineType(r.origin))
    }
}

/// The state after a sequence of records; the first failure stops the run.
pub open spec fn run(h: HunkHeader, recs: Seq<LineRecord>) -> Result<HunkState, ParseError>
    decreases recs.len(),
{
    if recs.len() == 0 {
        Ok(initial_state())
    } else {
        match run(h, recs.drop_last()) {
            Ok(st) => step(h, st, recs.last()),
            Err(e) => Err(e),
        }
    }
}

/// The hunk that a final state gives, once both block lengths are checked
/// against the header.
pub open spec fn complete(h: HunkHeader, st: HunkState) -> Result<HunkModel, ParseError> {
    if st.added.len() != h.new_lines as nat || st.removed.len() != h.old_lines as nat {
        Err(ParseError::SizeMismatch)
    } else {
        Ok(
            HunkModel {
                added: BlockModel {
                    start: h.new_start as int,
                    lines: st.added,
                    trailing_newline: st.added_trailing_newline,
                },
                removed: BlockModel {
                    start: h.old_start as int,
                    lines: st.removed,
                    trailing_newline: st.removed_trailing_newline,
                },
            },
        )
    }
}

/// The hunk that a header and its records describe, or why there is none.
pub open spec fn hunk_of(h: HunkHeader, recs: Seq<LineRecord>) -> Result<HunkModel, ParseError> {
    match run(h, recs) {
        Err(e) => Err(e),
        Ok(st) => complete(h, st),
    }
}

/// The mathematical value of a result that holds a hunk.
pub open spec fn hunk_result_view(r: Result<Hunk, ParseError>) -> Result<HunkModel, ParseError> {
    match r {
        Ok(h) => Ok(h@),
        Err(e) => Err(e),
    }
}

/// Reads the line records of one hunk, one at a time, into its two blocks.
pub struct HunkBuilder {
    header: HunkHeader,
    added_lines: Vec<Vec<u8>>,
    removed_lines: Vec<Vec<u8>>,
    added_trailing_newline: bool,
    removed_trailing_newline: bool,
}

impl HunkBuilder {
    /// The header of the hunk being read.
    pub closed spec fn header(&self) -> HunkHeader {
        self.header
    }

    /// What has been read so far.
    pub closed spec fn state(&self) -> HunkState {
        HunkState {
            added: lines_view(self.added_lines@),
            removed: lines_view(self.removed_lines@),
            added_trailing_newline: self.added_trailing_newline,
            removed_trailing_newline: self.removed_trailing_newline,
        }
    }

    /// A builder for the hunk with this header, before any record.
    pub fn new(header: HunkHeader) -> (b: HunkBuilder)
        ensures
            b.header() == header,
            b.state() == initial_state(),
    {
        let b = HunkBuilder {
            header,
            added_lines: Vec::with_capacity(header.new_lines as usize),
            removed_lines: Vec::with_capacity(header.old_lines as usize),
            added_trailing_newline: true,
            removed_trailing_newline: true,
        };
        assert(b.state().added =~= Seq::<Seq<u8>>::empty());
        assert(b.state().removed =~= Seq::<Seq<u8>>::empty());
        b
    }

    /// Takes in the next record of the hunk.
    pub fn push(&mut self, rec: &LineRecord) -> (r: Result<(), ParseError>)
        ensures
            final(self).header() == old(self).header(),
            match step(old(self).header(), old(self).state(), *rec) {
                Ok(st) => r is Ok && final(self).state() == st,
                Err(e) => r == Err::<(), ParseError>(e),
            },
    {
        if rec.origin == ORIGIN_ADD {
            if rec.num_lines > 1 {
                return Err(ParseError::MultiLineRecord);
            }
            match rec.new_lineno {
                Some(n) => {
                    let start = self.header.new_start as usize;
                    if (n as usize) < start || (n as usize) - start != self.added_lines.len() {
                        return Err(ParseError::LineNumberMismatch);
                    }
                },
                None => {
                    return Err(ParseError::LineNumberMismatch);
                },
            }
            let line = rec.content.clone();
            assert(line@ =~= rec.content@);
            self.added_lines.push(line);
            assert(lines_view(self.added_lines@) =~= lines_view(old(self).added_lines@).push(rec.content@));
            Ok(())
        } else if rec.origin == ORIGIN_REMOVE {
            if rec.num_lines > 1 {
                return Err(ParseError::MultiLineRecord);
            }
            match rec.old_lineno {
                Some(n) => {
                    let start = self.header.old_start as usize;
                    if (n as usize) < start || (n as usize) - start != self.removed_lines.len() {
                        return Err(ParseError::LineNumberMismatch);
                    }
                },
                None => {
                    return Err(ParseError::LineNumberMismatch);
                },
            }
            let line = rec.content.clone();
            assert(line@ =~= rec.content@);
            self.removed_lines.push(line);
            assert(lines_view(self.removed_lines@) =~= lines_view(old(self).removed_lines@).push(rec.content@));
            Ok(())
        } else if rec.origin == ORIGIN_REMOVED_NO_NEWLINE {
            if !self.removed_trailing_newline {
                return Err(ParseError::DuplicateNoNewlineMarker);
            }
            self.removed_trailing_newline = false;
            Ok(())
        } else if rec.origin == ORIGIN_ADDED_NO_NEWLINE {
            if !self.added_trailing_newline {
                return Err(ParseError::DuplicateNoNewlineMarker);
            }
            self.added_trailing_newline = false;
            Ok(())
        } else {
            Err(ParseError::UnknownLineType(rec.origin))
        }
    }

    /// Checks both block lengths against the header and yields the hunk.
    pub fn finish(self) -> (r: Result<Hunk, ParseError>)
        ensures
            hunk_result_view(r) == complete(self.header(), self.state()),
    {
        if self.added_lines.len() != self.header.new_lines as usize
            || self.removed_lines.len() != self.header.old_lines as usize {
            return Err(ParseError::SizeMismatch);
        }
        Ok(
            Hunk {
                added: Block {
                    start: self.header.new_start as usize,
                    lines: Rc::new(self.added_lines),
                    trailing_newline: self.added_trailing_newline,
                },
                removed: Block {
                    start: self.header.old_start as usize,
                    lines: Rc::new(self.removed_lines),
                    trailing_newline: self.removed_trailing_newline,
                },
            },
        )
    }
}

/// Once a prefix of the records has failed, the run over all of them fails
/// with the same error.
pub proof fn lemma_run_stops_at_error(h: HunkHeader, recs: Seq<LineRecord>, n: int)
    requires
        0 <= n <= recs.len(),
        run(h, recs.take(n)) is Err,
    ensures
        run(h, recs) == run(h, recs.take(n)),
    decreases recs.len(),
{
    if n == recs.len() {
        assert(recs.take(n) =~= recs);
    } else {
        assert(recs.drop_last().take(n) =~= recs.take(n));
        lemma_run_stops_at_error(h, recs.drop_last(), n);
    }
}

impl Hunk {
    /// Reads one hunk from its header and its ordered line records.
    pub fn from_records(header: HunkHeader, records: &Vec<LineRecord>) -> (r: Result<Hunk, ParseError>)
        ensures
            hunk_result_view(r) == hunk_of(header, records@),
    {
        let mut builder = HunkBuilder::new(header);
        let mut i: usize = 0;
        assert(records@.take(0) =~= Seq::<LineRecord>::empty());
        while i < records.len()
            invariant
                i <= records.len(),
                builder.header() == header,
                run(header, records@.take(i as int)) == Ok::<HunkState, ParseError>(builder.state()),
            decreases records.len() - i,
        {
            assert(records@.take(i + 1).drop_last() =~= records@.take(i as int));
            let pushed = builder.push(&records[i]);
            match pushed {
                Ok(()) => {},
                Err(e) => {
                    proof {
                        lemma_run_stops_at_error(header, records@, i + 1);
                    }
                    return Err(e);
                },
            }
            i = i + 1;
        }
        assert(records@.take(i as int) =~= records@);
        builder.finish()
    }
}

} // verus!
