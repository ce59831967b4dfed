use vstd::prelude::*;

use crate::error::ParseError;
use crate::hunk::{hunk_of, Hunk, HunkHeader, HunkModel, LineRecord};

verus! {

/// What a delta says of the file pair it changes.
#[derive(Debug)]
pub struct DeltaInfo {
    /// Absent when there is no file on the old side.
    pub old_path: Option<Vec<u8>>,
    pub old_id: git2::Oid,
    /// Absent when there is no file on the new side.
    pub new_path: Option<Vec<u8>>,
    pub new_id: git2::Oid,
    pub status: git2::Delta,
    /// How many files the delta refers to.
    pub nfiles: u16,
}

/// The header and the ordered line records of one hunk.
#[derive(Debug, Clone)]
pub struct HunkRecord {
    pub header: HunkHeader,
    pub lines: Vec<LineRecord>,
}

/// All that is known of one file's change: its identity, its status and
/// its hunks in order.
#[derive(Debug)]
pub struct Patch {
    pub old_path: Option<Vec<u8>>,
    pub old_id: git2::Oid,
    pub new_path: Option<Vec<u8>>,
    pub new_id: git2::Oid,
    pub status: git2::Delta,
    pub hunks: Vec<Hunk>,
}

/// Mathematical value of a `Patch`.
pub ghost struct PatchModel {
    pub old_path: Option<Seq<u8>>,
    pub old_id: git2::Oid,
    pub new_path: Option<Seq<u8>>,
    pub new_id: git2::Oid,
    pub status: git2::Delta,
    pub hunks: Seq<HunkModel>,
}

/// The bytes of a path, if there is one.
pub open spec fn path_view(p: Option<Vec<u8>>) -> Option<Seq<u8>> {
    match p {
        Some(v) => Some(v@),
        None => None,
    }
}

/// The value of each hunk.
pub open spec fn hunks_view(hs: Seq<Hunk>) -> Seq<HunkModel> {
    hs.map_values(|h: Hunk| h@)
}

impl View for Patch {
    type V = PatchModel;

    open spec fn view(&self) -> PatchModel {
        PatchModel {
            old_path: path_view(self.old_path),
            old_id: self.old_id,
            new_path: path_view(self.new_path),
            new_id: self.new_id,
            status: self.status,
            hunks: hunks_view(self.hunks@),
        }
    }
}

/// The header and records of each hunk, as values.
pub open spec fn hunk_records_view(rs: Seq<HunkRecord>) -> Seq<(HunkHeader, Seq<LineRecord>)> {
    rs.map_values(|r: HunkRecord| (r.header, r.lines@))
}

/// Whether a delta refers to one or two files, the only counts accepted.
pub open spec fn file_count_ok(nfiles: u16) -> bool {
    1 <= nfiles <= 2
}

/// The hunks that a sequence of headers and records describes; the first
/// hunk that fails stops the reading.
pub open spec fn hunks_of(hs: Seq<(HunkHeader, Seq<LineRecord>)>) -> Result<Seq<HunkModel>, ParseError>
    decreases hs.len(),
{
    if hs.len() == 0 {
        Ok(Seq::empty())
    } else {
        match hunks_of(hs.drop_last()) {
            Err(e) => Err(e),
            Ok(done) => match hunk_of(hs.last().0, hs.last().1) {
                Ok(m) => Ok(done.push(m)),
                Err(e) => Err(e),
            },
        }
    }
}

/// The patch that a delta and its hunks describe, or why there is none.
pub open spec fn patch_of(d: DeltaInfo, hs: Seq<(HunkHeader, Seq<LineRecord>)>) -> Result<PatchModel, ParseError> {
    if !file_count_ok(d.nfiles) {
        Err(ParseError::MultiFileDelta)
    } else {
        match hunks_of(hs) {
            Err(e) => Err(e),
            Ok(ms) => Ok(
                PatchModel {
                    old_path: path_view(d.old_path),
                    old_id: d.old_id,
                    new_path: path_view(d.new_path),
                    new_id: d.new_id,
                    status: d.status,
                    hunks: ms,
                },
            ),
        }
    }
}

/// The mathematical value of a result that holds a patch.
pub open spec fn patch_result_view(r: Result<Patch, ParseError>) -> Result<PatchModel, ParseError> {
    match r {
        Ok(p) => Ok(p@),
        Err(e) => Err(e),
    }
}

/// Once a prefix of the hunks has failed, reading all of them fails with the
/// same error.
pub proof fn lemma_hunks_stop_at_error(hs: Seq<(HunkHeader, Seq<LineRecord>)>, n: int)
    requires
        0 <= n <= hs.len(),
        hunks_of(hs.take(n)) is Err,
    ensures
        hunks_of(hs) == hunks_of(hs.take(n)),
    decreases hs.len(),
{
    if n == hs.len() {
        assert(hs.take(n) =~= hs);
    } else {
        assert(hs.drop_last().take(n) =~= hs.take(n));
        lemma_hunks_stop_at_error(hs.drop_last(), n);
    }
}

/// A delta that refers to no file or to three or more files gives no patch,
/// whatever its hunks, but `MultiFileDelta`.
pub proof fn lemma_file_count_rejected(d: DeltaInfo, hs: Seq<(HunkHeader, Seq<LineRecord>)>)
    requires
        d.nfiles == 0 || d.nfiles >= 3,
    ensures
        patch_of(d, hs) == Err::<PatchModel, ParseError>(ParseError::MultiFileDelta),
{
}

/// Accepts a delta's file count when it is one or two.
pub fn check_file_count(nfiles: u16) -> (r: Result<(), ParseError>)
    ensures
        r is Ok <==> file_count_ok(nfiles),
        r is Err ==> r == Err::<(), ParseError>(ParseError::MultiFileDelta),
{
    if nfiles < 1 || nfiles > 2 {
        Err(ParseError::MultiFileDelta)
    } else {
        Ok(())
    }
}

impl Patch {
    /// Reads one patch from a delta's description and its hunks' records.
    pub fn from_parts(delta: DeltaInfo, hunks: &Vec<HunkRecord>) -> (r: Result<Patch, ParseError>)
        ensures
            patch_result_view(r) == patch_of(delta, hunk_records_view(hunks@)),
    {
        let ghost hs = hunk_records_view(hunks@);
        match check_file_count(delta.nfiles) {
            Ok(()) => {},
            Err(e) => {
                return Err(e);
            },
        }
        let mut out: Vec<Hunk> = Vec::with_capacity(hunks.len());
        let mut i: usize = 0;
        assert(hs.take(0) =~= Seq::<(HunkHeader, Seq<LineRecord>)>::empty());
        assert(hunks_view(out@) =~= Seq::<HunkModel>::empty());
        while i < hunks.len()
            invariant
                i <= hunks.len(),
                file_count_ok(delta.nfiles),
                hs == hunk_records_view(hunks@),
                hunks_of(hs.take(i as int)) == Ok::<Seq<HunkModel>, ParseError>(hunks_view(out@)),
            decreases hunks.len() - i,
        {
            assert(hs.take(i + 1).drop_last() =~= hs.take(i as int));
            assert(hs.take(i + 1).last() == (hunks@[i as int].header, hunks@[i as int].lines@));
            let h = Hunk::from_records(hunks[i].header, &hunks[i].lines);
            match h {
                Ok(h) => {
                    let ghost before = out@;
                    out.push(h);
                    assert(hunks_view(out@) =~= hunks_view(before).push(h@));
                },
                Err(e) => {
                    proof {
                        assert(hunks_of(hs.take(i + 1)) == Err::<Seq<HunkModel>, ParseError>(e));
                        lemma_hunks_stop_at_error(hs, i + 1);
                    }
                    return Err(e);
                },
            }
            i = i + 1;
        }
        assert(hs.take(i as int) =~= hs);
        Ok(
            Patch {
                old_path: delta.old_path,
                old_id: delta.old_id,
                new_path: delta.new_path,
                new_id: delta.new_id,
                status: delta.status,
                hunks: out,
            },
        )
    }
}

} // verus!
