use git2::Patch as GitPatch;
use vstd::prelude::*;

use crate::error::ParseError;
use crate::git::{
    delta_count, delta_in, deltas_in, diff_delta_at, same_file_pair, hunk_count, hunk_line_count, hunks_in, patch_from_diff,
    read_delta, read_hunk_header, read_line,
};
use crate::hunk::{hunk_of, hunk_result_view, Hunk, LineRecord};
use crate::patch::{
    file_count_ok, hunk_records_view, path_view, patch_of, patch_result_view, DeltaInfo, HunkRecord,
    Patch,
    PatchModel,
};

verus! {

/// Copies hunk `idx` of a git2 patch: its header and its line records.
fn read_hunk_record(patch: &GitPatch<'_>, idx: usize) -> (r: Result<HunkRecord, git2::Error>)
    ensures
        r is Ok <==> idx < hunks_in(*patch).len(),
        r is Ok ==> (r->Ok_0.header, r->Ok_0.lines@) == hunks_in(*patch)[idx as int],
{
    let header = read_hunk_header(patch, idx)?;
    let n = match hunk_line_count(patch, idx) {
        Ok(n) => n,
        Err(e) => {
            return Err(e);
        },
    };
    let ghost recs = hunks_in(*patch)[idx as int].1;
    let mut lines: Vec<LineRecord> = Vec::with_capacity(n);
    let mut i: usize = 0;
    while i < n
        invariant
            idx < hunks_in(*patch).len(),
            recs == hunks_in(*patch)[idx as int].1,
            n == recs.len(),
            i <= n,
            lines@ == recs.take(i as int),
        decreases n - i,
    {
        match read_line(patch, idx, i) {
            Ok(l) => {
                lines.push(l);
                assert(lines@ =~= recs.take(i + 1));
            },
            Err(e) => {
                return Err(e);
            },
        }
        i = i + 1;
    }
    assert(recs.take(n as int) =~= recs);
    Ok(HunkRecord { header, lines })
}

impl Hunk {
    /// Reads hunk `idx` of a git2 patch: the hunk that its header and line
    /// records describe; an index out of range is a git2 error.
    pub fn new(patch: &mut GitPatch<'_>, idx: usize) -> (r: Result<Hunk, ParseError>)
        ensures
            *final(patch) == *old(patch),
            idx < hunks_in(*old(patch)).len() ==> hunk_result_view(r) == hunk_of(
                hunks_in(*old(patch))[idx as int].0,
                hunks_in(*old(patch))[idx as int].1,
            ),
            idx >= hunks_in(*old(patch)).len() ==> r is Err && r->Err_0 is Git,
    {
        match read_hunk_record(patch, idx) {
            Ok(rec) => Hunk::from_records(rec.header, &rec.lines),
            Err(e) => Err(ParseError::Git(e)),
        }
    }
}

impl Patch {
    /// Reads one patch of a git2 diff: the patch that its delta and hunks
    /// describe.
    pub fn new(patch: &mut GitPatch<'_>) -> (r: Result<Patch, ParseError>)
        ensures
            *final(patch) == *old(patch),
            patch_result_view(r) == patch_of(delta_in(*old(patch)), hunks_in(*old(patch))),
    {
        let delta = read_delta(patch);
        let n = hunk_count(patch);
        let ghost hs = hunks_in(*patch);
        let mut hunks: Vec<HunkRecord> = Vec::with_capacity(n);
        let mut i: usize = 0;
        assert(hunk_records_view(hunks@) =~= hs.take(0));
        while i < n
            invariant
                *patch == *old(patch),
                hs == hunks_in(*patch),
                n == hs.len(),
                i <= n,
                hunk_records_view(hunks@) == hs.take(i as int),
            decreases n - i,
        {
            match read_hunk_record(patch, i) {
                Ok(h) => {
                    let ghost before = hunks@;
                    hunks.push(h);
                    assert(hunk_records_view(hunks@) =~= hunk_records_view(before).push(hs[i as int]));
                    assert(hs.take(i + 1) =~= hs.take(i as int).push(hs[i as int]));
                },
                Err(e) => {
                    return Err(ParseError::Git(e));
                },
            }
            i = i + 1;
        }
        assert(hs.take(n as int) =~= hs);
        Patch::from_parts(delta, &hunks)
    }
}

/// What one delta's patch record gives: a git2 error as it came, no record
/// as `MissingPatchRecord`, and a record as the patch that it describes.
pub fn patch_from_record(rec: Result<Option<GitPatch<'_>>, git2::Error>) -> (r: Result<Patch, ParseError>)
    ensures
        match rec {
            Err(e) => r == Err::<Patch, ParseError>(ParseError::Git(e)),
            Ok(None) => r == Err::<Patch, ParseError>(ParseError::MissingPatchRecord),
            Ok(Some(p)) => patch_result_view(r) == patch_of(delta_in(p), hunks_in(p)),
        },
{
    match rec {
        Err(e) => Err(ParseError::Git(e)),
        Ok(None) => Err(ParseError::MissingPatchRecord),
        Ok(Some(p)) => {
            let mut p = p;
            Patch::new(&mut p)
        },
    }
}

/// What one delta's patch record gives, as values.
pub open spec fn record_result<'a>(rec: Result<Option<GitPatch<'a>>, git2::Error>) -> Result<PatchModel, ParseError> {
    match rec {
        Err(e) => Err(ParseError::Git(e)),
        Ok(None) => Err(ParseError::MissingPatchRecord),
        Ok(Some(p)) => patch_of(delta_in(p), hunks_in(p)),
    }
}

/// The patches that a sequence of patch records gives, in order; the first
/// record that fails stops the reading, and its error is the result.
pub open spec fn records_result<'a>(recs: Seq<Result<Option<GitPatch<'a>>, git2::Error>>) -> Result<Seq<PatchModel>, ParseError>
    decreases recs.len(),
{
    if recs.len() == 0 {
        Ok(Seq::empty())
    } else {
        match records_result(recs.drop_last()) {
            Err(e) => Err(e),
            Ok(done) => match record_result(recs.last()) {
                Ok(m) => Ok(done.push(m)),
                Err(e) => Err(e),
            },
        }
    }
}

/// Whether each record of `recs` is one that git2 may give for the delta of
/// the diff `d` at the same position.
pub open spec fn records_fit<'a>(d: git2::Diff<'a>, recs: Seq<Result<Option<GitPatch<'a>>, git2::Error>>) -> bool {
    forall|k: int|
        #![trigger recs[k]]
        0 <= k < recs.len() ==> (recs[k] is Ok && recs[k]->Ok_0 is Some ==> same_file_pair(
            delta_in(recs[k]->Ok_0->Some_0),
            diff_delta_at(d, k as nat),
        ))
}

/// Whether a patch has the paths and status of a delta whose file count
/// is accepted.
pub open spec fn follows_delta(m: PatchModel, d: DeltaInfo) -> bool {
    &&& file_count_ok(d.nfiles)
    &&& m.old_path == path_view(d.old_path)
    &&& m.new_path == path_view(d.new_path)
    &&& m.status == d.status
}

/// The value of a result that holds patches.
pub open spec fn patches_result_view(r: Result<Vec<Patch>, ParseError>) -> Result<Seq<PatchModel>, ParseError> {
    match r {
        Ok(v) => Ok(v@.map_values(|p: Patch| p@)),
        Err(e) => Err(e),
    }
}

/// Reads every delta of a git2 diff into a patch, one patch per delta in
/// the diff's order: the record of delta `k` is asked of git2 with index
/// `k` and read by `patch_from_record`. The first record that fails stops
/// the reading; its error is the result, and no patch is returned.
pub fn parse_diff<'a>(diff: &git2::Diff<'a>) -> (r: Result<Vec<Patch>, ParseError>)
    ensures
        exists|recs: Seq<Result<Option<GitPatch<'a>>, git2::Error>>|
            {
                &&& recs.len() <= deltas_in(*diff)
                &&& (r is Ok ==> recs.len() == deltas_in(*diff))
                &&& records_fit(*diff, recs)
                &&& patches_result_view(r) == records_result(recs)
            },
        deltas_in(*diff) == 0 ==> r is Ok,
        r is Ok ==> r->Ok_0.len() == deltas_in(*diff),
        r is Ok ==> forall|k: int|
            0 <= k < r->Ok_0.len() ==> follows_delta(#[trigger] r->Ok_0@[k]@, diff_delta_at(*diff, k as nat)),
{
    let n = delta_count(diff);
    let mut ret: Vec<Patch> = Vec::new();
    let ghost mut seen: Seq<Result<Option<GitPatch<'a>>, git2::Error>> = Seq::empty();
    let mut i: usize = 0;
    assert(ret@.map_values(|p: Patch| p@) =~= Seq::<PatchModel>::empty());
    while i < n
        invariant
            n == deltas_in(*diff),
            i <= n,
            ret.len() == i,
            seen.len() == i,
            records_fit(*diff, seen),
            records_result(seen) == Ok::<Seq<PatchModel>, ParseError>(ret@.map_values(|p: Patch| p@)),
            forall|k: int| 0 <= k < ret.len() ==> follows_delta(#[trigger] ret@[k]@, diff_delta_at(*diff, k as nat)),
        decreases n - i,
    {
        let rec = patch_from_diff(diff, i);
        let ghost g = rec;
        let ghost next = seen.push(g);
        assert(next.drop_last() =~= seen);
        assert(records_fit(*diff, next)) by {
            assert forall|k: int| 0 <= k < next.len() implies (next[k] is Ok && next[k]->Ok_0 is Some ==> same_file_pair(
                delta_in(next[k]->Ok_0->Some_0),
                diff_delta_at(*diff, k as nat),
            )) by {
                if k < seen.len() {
                    assert(next[k] == seen[k]);
                }
            }
        }
        match patch_from_record(rec) {
            Ok(p) => {
                let ghost before = ret@;
                ret.push(p);
                proof {
                    assert(ret@.map_values(|p: Patch| p@) =~= before.map_values(|p: Patch| p@).push(p@));
                    seen = next;
                }
            },
            Err(e) => {
                proof {
                    assert(records_result(next) == Err::<Seq<PatchModel>, ParseError>(e));
                }
                return Err(e);
            },
        }
        i = i + 1;
    }
    Ok(ret)
}

} // verus!
