use git2::Patch as GitPatch;
use vstd::prelude::*;

use crate::hunk::{HunkHeader, LineRecord};
use crate::patch::DeltaInfo;

verus! {

/// An error reported by libgit2 through git2; carried through unread.
#[verifier::external_type_specification]
#[verifier::external_body]
pub struct ExGitError(git2::Error);

/// A content identifier of git2; carried through unread.
#[verifier::external_type_specification]
#[verifier::external_body]
pub struct ExOid(git2::Oid);

/// The status of a delta, git2's closed enumeration; carried through unread.
#[verifier::external_type_specification]
#[verifier::external_body]
pub struct ExDelta(git2::Delta);

/// A diff computed by git2, read through the wrappers below.
#[verifier::external_type_specification]
#[verifier::external_body]
pub struct ExDiff<'repo>(git2::Diff<'repo>);

/// The patch of one delta of a git2 diff, read through the wrappers below.
#[verifier::external_type_specification]
#[verifier::external_body]
pub struct ExPatch<'buffers>(GitPatch<'buffers>);

/// The number of deltas in a git2 diff.
pub uninterp spec fn deltas_in(d: git2::Diff<'_>) -> nat;

/// What a git2 diff says of the file pair of its delta `idx`.
pub uninterp spec fn diff_delta_at(d: git2::Diff<'_>, idx: nat) -> DeltaInfo;

/// What a git2 patch says of its file pair.
pub uninterp spec fn delta_in(p: GitPatch<'_>) -> DeltaInfo;

/// The hunks that a git2 patch holds, in order: each one's header and line
/// records.
pub uninterp spec fn hunks_in(p: GitPatch<'_>) -> Seq<(HunkHeader, Seq<LineRecord>)>;

/// Whether two delta descriptions agree on paths, status and file count.
pub open spec fn same_file_pair(a: DeltaInfo, b: DeltaInfo) -> bool {
    &&& a.old_path == b.old_path
    &&& a.new_path == b.new_path
    &&& a.status == b.status
    &&& a.nfiles == b.nfiles
}

/// Relies on git2's `Diff::deltas`: the length of its iterator is the number
/// of deltas in the diff.
#[verifier::external_body]
pub(crate) fn delta_count(diff: &git2::Diff<'_>) -> (r: usize)
    ensures
        r == deltas_in(*diff),
{
    diff.deltas().len()
}

/// Relies on git2's `Patch::from_diff`: the patch of the delta at `idx`, or
/// none for an unchanged or binary file; an index out of range is an error.
/// The patch shares the diff's delta, whose paths, status and file count it
/// reports (its ids may be filled in while the content is loaded).
#[verifier::external_body]
pub(crate) fn patch_from_diff<'a>(diff: &git2::Diff<'a>, idx: usize) -> (r: Result<Option<GitPatch<'a>>, git2::Error>)
    ensures
        idx >= deltas_in(*diff) ==> r is Err,
        (r is Ok && r->Ok_0 is Some) ==> same_file_pair(
            delta_in(r->Ok_0->Some_0),
            diff_delta_at(*diff, idx as nat),
        ),
{
    GitPatch::from_diff(diff, idx)
}

/// Relies on git2's `Patch::delta` and the accessors of `DiffDelta` and
/// `DiffFile` (`old_file`, `new_file`, `path_bytes`, `id`, `status`,
/// `nfiles`): copies what the delta says of its file pair.
#[verifier::external_body]
pub(crate) fn read_delta(patch: &GitPatch<'_>) -> (r: DeltaInfo)
    ensures
        r == delta_in(*patch),
{
    let delta = patch.delta();
    DeltaInfo {
        old_path: delta.old_file().path_bytes().map(Vec::from),
        old_id: delta.old_file().id(),
        new_path: delta.new_file().path_bytes().map(Vec::from),
        new_id: delta.new_file().id(),
        status: delta.status(),
        nfiles: delta.nfiles(),
    }
}

/// Relies on git2's `Patch::num_hunks`: the number of hunks in the patch.
#[verifier::external_body]
pub(crate) fn hunk_count(patch: &GitPatch<'_>) -> (r: usize)
    ensures
        r == hunks_in(*patch).len(),
{
    patch.num_hunks()
}

/// Relies on git2's `Patch::hunk` and the accessors of `DiffHunk`: copies
/// the four numbers of the header of hunk `idx`; an index out of range is
/// an error.
#[verifier::external_body]
pub(crate) fn read_hunk_header(patch: &GitPatch<'_>, idx: usize) -> (r: Result<HunkHeader, git2::Error>)
    ensures
        r is Ok <==> idx < hunks_in(*patch).len(),
        r is Ok ==> r->Ok_0 == hunks_in(*patch)[idx as int].0,
{
    let (hunk, _size) = patch.hunk(idx)?;
    Ok(HunkHeader {
        old_start: hunk.old_start(),
        old_lines: hunk.old_lines(),
        new_start: hunk.new_start(),
        new_lines: hunk.new_lines(),
    })
}

/// Relies on git2's `Patch::num_lines_in_hunk`: the number of line records
/// in hunk `idx`; an index out of range is an error.
#[verifier::external_body]
pub(crate) fn hunk_line_count(patch: &GitPatch<'_>, idx: usize) -> (r: Result<usize, git2::Error>)
    ensures
        r is Ok <==> idx < hunks_in(*patch).len(),
        r is Ok ==> r->Ok_0 == hunks_in(*patch)[idx as int].1.len(),
{
    patch.num_lines_in_hunk(idx)
}

/// Relies on git2's `Patch::line_in_hunk` and the accessors of `DiffLine`
/// (`origin`, `old_lineno`, `new_lineno`, `num_lines`, `content`): copies
/// record `line` of hunk `idx`; an index out of range is an error.
#[verifier::external_body]
pub(crate) fn read_line(patch: &GitPatch<'_>, idx: usize, line: usize) -> (r: Result<LineRecord, git2::Error>)
    ensures
        r is Ok <==> (hunks_in(*patch).len() > idx && hunks_in(*patch)[idx as int].1.len() > line),
        r is Ok ==> r->Ok_0 == hunks_in(*patch)[idx as int].1[line as int],
{
    let l = patch.line_in_hunk(idx, line)?;
    Ok(LineRecord {
        origin: l.origin(),
        old_lineno: l.old_lineno(),
        new_lineno: l.new_lineno(),
        num_lines: l.num_lines(),
        content: Vec::from(l.content()),
    })
}

} // verus!
