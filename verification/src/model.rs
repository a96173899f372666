//! The records that the build listing returns.

use vstd::prelude::*;

verus! {

/// A file that a build has published.
#[derive(Debug, Clone, PartialEq, Eq, PartialOrd, Ord, Hash)]
pub struct Artifact {
    /// The artifact name.
    pub name: String,
    /// The artifact url.
    pub url: String,
}

/// The result of one job run.
///
/// Both timestamps count whole seconds since 1970-01-01T00:00:00 UTC.
#[derive(Debug, Clone, PartialEq, Eq, PartialOrd, Ord, Hash)]
pub struct Build {
    /// The build unique id.
    pub uuid: String,
    /// The job name.
    pub job_name: String,
    /// The job result.
    pub result: String,
    /// The start time.
    pub start_time: i64,
    /// The end time.
    pub end_time: i64,
    /// The job duration in seconds.
    pub duration: u32,
    /// The job voting status.
    pub voting: bool,
    /// The log url.
    pub log_url: Option<String>,
    /// The build artifacts.
    pub artifacts: Vec<Artifact>,
    /// The change's project name.
    pub project: String,
    /// The change's branch name.
    pub branch: String,
    /// The build pipeline.
    pub pipeline: String,
    /// The change (or PR) number.
    pub change: Option<u64>,
    /// The patchset number (or PR commit).
    pub patchset: Option<String>,
    /// The change ref.
    pub change_ref: String,
    /// The internal event id.
    pub event_id: String,
}

/// Why a piece of a page was not understood.
#[derive(Debug, Clone, PartialEq, Eq)]
pub struct DecodeError {
    /// What the decoder said of the piece.
    pub message: String,
    /// The piece itself, as it was received.
    pub payload: String,
}

/// The uuids that occur in `builds`.
pub open spec fn uuids(builds: Seq<Build>) -> Set<Seq<char>> {
    Set::new(|u: Seq<char>| exists|i: int| 0 <= i < builds.len() && #[trigger] builds[i].uuid@ == u)
}

/// No two builds of `builds` share a uuid.
pub open spec fn distinct_uuids(builds: Seq<Build>) -> bool {
    forall|i: int, j: int|
        0 <= i < j < builds.len() ==> #[trigger] builds[i].uuid@ != #[trigger] builds[j].uuid@
}

} // verus!
