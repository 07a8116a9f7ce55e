//! The catalog of published versions.

use vstd::prelude::*;

verus! {

#[derive(Debug, Clone, Copy, PartialEq, Eq, Structural)]
pub enum ReleaseType {
    Release,
    Snapshot,
    OldBeta,
    OldAlpha,
}

/// A catalog entry: a version and where its descriptor is published.
#[derive(Debug, Clone)]
pub struct VersionInfo {
    pub id: String,
    pub release_type: ReleaseType,
    pub url: String,
    pub time: String,
    pub release_time: String,
    pub sha1: String,
    pub compliance_level: i32,
}

/// The newest release and snapshot.
#[derive(Debug, Clone)]
pub struct VersionLatestInfo {
    pub release: String,
    pub snapshot: String,
}

/// The catalog of versions.
#[derive(Debug, Clone)]
pub struct VersionManifest {
    pub latest: VersionLatestInfo,
    pub versions: Vec<VersionInfo>,
}

impl VersionManifest {
    /// The position of the first entry with the given id.
    pub fn find(&self, id: &str) -> (r: Option<usize>)
        ensures
            r matches Some(i) ==> i < self.versions@.len() && self.versions@[i as int].id@ == id@
                && forall|j: int| 0 <= j < i ==> (#[trigger] self.versions@[j]).id@ != id@,
            r is None ==> forall|j: int|
                0 <= j < self.versions@.len() ==> (#[trigger] self.versions@[j]).id@ != id@,
    {
        let wanted = id.to_owned();
        let mut i: usize = 0;
        while i < self.versions.len()
            invariant
                i <= self.versions@.len(),
                wanted@ == id@,
                forall|j: int| 0 <= j < i ==> (#[trigger] self.versions@[j]).id@ != id@,
            decreases self.versions@.len() - i,
        {
            if self.versions[i].id == wanted {
                return Some(i);
            }
            i = i + 1;
        }
        None
    }
}

} // verus!
