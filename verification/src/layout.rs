//! Where things lie in a workspace, and how its paths are put together.
//!
//! Paths are strings with `/` between their parts. They are only ever built
//! here, never looked up: whether a path exists is for the caller to find out.

use vstd::prelude::*;
use vstd::string::StrSliceExecFns;
use vstd::string::StringExecFns;

verus! {

/// The directory whose presence marks a workspace root.
pub const CIEL_MARKER_DIR: &'static str = ".ciel";

/// The base image, relative to the workspace root.
pub const CIEL_DIST_DIR: &'static str = ".ciel/container/dist";

/// The overlays of the instances, relative to the workspace root.
pub const CIEL_INST_DIR: &'static str = ".ciel/container/instances";

/// The persistent data, relative to the workspace root.
pub const CIEL_DATA_DIR: &'static str = ".ciel/data";

/// The file that holds the workspace's schema version.
pub const CIEL_VERSION_FILE: &'static str = ".ciel/version";

/// The step from a directory to its parent.
pub const PARENT_DIR: &'static str = "..";

/// `rel` seen from `base`.
///
/// A `rel` that starts at the root stands for itself. Otherwise it is put
/// behind `base`, with one `/` between the two unless `base` is empty or ends
/// in one already.
pub open spec fn joined(base: Seq<char>, rel: Seq<char>) -> Seq<char> {
    if rel.len() > 0 && rel[0] == '/' {
        rel
    } else if base.len() == 0 || base.last() == '/' {
        base + rel
    } else {
        base + seq!['/'] + rel
    }
}

/// The three directories that make up an empty workspace, in the order in
/// which they are created.
pub open spec fn skeleton() -> Seq<Seq<char>> {
    seq![CIEL_DIST_DIR@, CIEL_INST_DIR@, CIEL_DATA_DIR@]
}

/// Joins two paths as `joined` says.
pub fn join_path(base: &str, rel: &str) -> (path: String)
    ensures
        path@ == joined(base@, rel@),
{
    let rel_len = rel.unicode_len();
    if rel_len > 0 && rel.get_char(0) == '/' {
        return String::from_str(rel);
    }
    let base_len = base.unicode_len();
    let mut path = String::from_str(base);
    if base_len > 0 && base.get_char(base_len - 1) != '/' {
        proof {
            reveal_strlit("/");
            assert("/"@ =~= seq!['/']);
        }
        path.append("/");
    }
    path.append(rel);
    path
}

/// The directories of `skeleton()`.
pub fn skeleton_dirs() -> (dirs: Vec<&'static str>)
    ensures
        dirs@.len() == skeleton().len(),
        forall|i: int| 0 <= i < dirs@.len() ==> (#[trigger] dirs@[i])@ == skeleton()[i],
{
    vec![CIEL_DIST_DIR, CIEL_INST_DIR, CIEL_DATA_DIR]
}

/// The directory of the instance called `instance`.
pub fn instance_path(instance: &str) -> (path: String)
    ensures
        path@ == joined(CIEL_INST_DIR@, instance@),
{
    join_path(CIEL_INST_DIR, instance)
}

/// The marker directory that `dir` has if it is a workspace root.
pub fn marker_path(dir: &str) -> (path: String)
    ensures
        path@ == joined(dir@, CIEL_MARKER_DIR@),
{
    join_path(dir, CIEL_MARKER_DIR)
}

/// The parent of `dir`, written as a step up from it.
pub fn parent_path(dir: &str) -> (path: String)
    ensures
        path@ == joined(dir@, PARENT_DIR@),
{
    join_path(dir, PARENT_DIR)
}

/// All of a workspace lies in its marker directory: the skeleton and the
/// version stamp are paths below it, so that a directory which was set up has
/// the marker.
pub proof fn lemma_skeleton_under_marker()
    ensures
        forall|i: int|
            0 <= i < skeleton().len() ==> (CIEL_MARKER_DIR@ + seq!['/']).is_prefix_of(
                #[trigger] skeleton()[i],
            ),
        (CIEL_MARKER_DIR@ + seq!['/']).is_prefix_of(CIEL_VERSION_FILE@),
{
    reveal_strlit(".ciel");
    reveal_strlit(".ciel/container/dist");
    reveal_strlit(".ciel/container/instances");
    reveal_strlit(".ciel/data");
    reveal_strlit(".ciel/version");
    let marker = CIEL_MARKER_DIR@ + seq!['/'];
    assert(marker.len() == 6);
    assert(marker =~= CIEL_DIST_DIR@.subrange(0, 6));
    assert(marker =~= CIEL_INST_DIR@.subrange(0, 6));
    assert(marker =~= CIEL_DATA_DIR@.subrange(0, 6));
    assert(marker =~= CIEL_VERSION_FILE@.subrange(0, 6));
}

} // verus!
