//! The decisions of the installer: which file each artifact goes to, whether
//! fetched bytes may be written, and how the outcomes add up.

use crate::checksum::{check_digest, digest_matches, ChecksumError};
use crate::digest::{hex_encoded, is_hex_text, sha1_digest, sha1_of};
use crate::resource::{artifact_views, views, Artifact, ArtifactView, Resource, ResourceView};
use crate::resource::ResolutionError;
use crate::asset_index::AssetIndex;
use crate::version::{OSName, Version};
use vstd::prelude::*;

verus! {

/// A failed retrieval: the URL, the HTTP status when a response came, and
/// what went wrong.
#[derive(Debug, Clone)]
pub struct FetchError {
    pub url: String,
    pub status: Option<u16>,
    pub message: String,
}

/// Retrieves the bytes behind a URL.
pub trait Fetch {
    fn fetch(&self, url: &str) -> Result<Vec<u8>, FetchError>;
}

/// What went wrong with one artifact.
#[derive(Debug, Clone)]
pub enum InstallErrorKind {
    Fetch(FetchError),
    Checksum(ChecksumError),
    Filesystem(String),
}

/// A failed artifact, with the resource it belongs to and where it was going.
#[derive(Debug, Clone)]
pub struct InstallError {
    pub resource: String,
    pub path: String,
    pub kind: InstallErrorKind,
}

/// One artifact to install: its resource, where it comes from, its expected
/// digest, and its path relative to the destination.
#[derive(Debug, Clone)]
pub struct InstallTask {
    pub resource: String,
    pub url: String,
    pub sha1: String,
    pub path: String,
}

pub struct TaskView {
    pub resource: Seq<char>,
    pub url: Seq<char>,
    pub sha1: Seq<char>,
    pub path: Seq<char>,
}

impl View for InstallTask {
    type V = TaskView;

    open spec fn view(&self) -> TaskView {
        TaskView { resource: self.resource@, url: self.url@, sha1: self.sha1@, path: self.path@ }
    }
}

/// The views of a list of tasks.
pub open spec fn task_views(s: Seq<InstallTask>) -> Seq<TaskView> {
    s.map_values(|t: InstallTask| t@)
}

/// The task of an artifact: it goes to its own path, or else to a file
/// named after its resource.
pub open spec fn task_of(name: Seq<char>, a: ArtifactView) -> TaskView {
    TaskView {
        resource: name,
        url: a.url,
        sha1: a.sha1,
        path: match a.path {
            Some(p) => p,
            None => name,
        },
    }
}

/// The tasks of one resource, in the order of its artifacts.
pub open spec fn resource_tasks(r: ResourceView) -> Seq<TaskView> {
    r.artifacts.map_values(|a: ArtifactView| task_of(r.name, a))
}

/// The tasks of all resources, resource by resource.
pub open spec fn plan_of(rs: Seq<ResourceView>) -> Seq<TaskView>
    decreases rs.len(),
{
    if rs.len() == 0 {
        seq![]
    } else {
        plan_of(rs.drop_last()) + resource_tasks(rs.last())
    }
}

/// The errors among the outcomes, in order.
pub open spec fn errors_of(s: Seq<Result<(), InstallError>>) -> Seq<InstallError>
    decreases s.len(),
{
    if s.len() == 0 {
        seq![]
    } else {
        match s[0] {
            Err(e) => seq![e] + errors_of(s.drop_first()),
            Ok(_) => errors_of(s.drop_first()),
        }
    }
}

/// The task for every artifact of every resource.
pub fn plan_install(resources: &Vec<Resource>) -> (r: Vec<InstallTask>)
    ensures
        task_views(r@) == plan_of(views(resources@)),
{
    let mut out: Vec<InstallTask> = Vec::new();
    let mut i: usize = 0;
    while i < resources.len()
        invariant
            i <= resources@.len(),
            task_views(out@) == plan_of(views(resources@.subrange(0, i as int))),
        decreases resources@.len() - i,
    {
        let res = &resources[i];
        let ghost start = task_views(out@);
        let mut j: usize = 0;
        while j < res.artifacts.len()
            invariant
                j <= res.artifacts@.len(),
                task_views(out@) == start + artifact_views(res.artifacts@).subrange(
                    0,
                    j as int,
                ).map_values(|a: ArtifactView| task_of(res.name@, a)),
            decreases res.artifacts@.len() - j,
        {
            let a: &Artifact = &res.artifacts[j];
            let path = match &a.path {
                Some(p) => p.clone(),
                None => res.name.clone(),
            };
            let t = InstallTask {
                resource: res.name.clone(),
                url: a.url.clone(),
                sha1: a.sha1.clone(),
                path,
            };
            let ghost before = out@;
            out.push(t);
            assert(task_views(out@) =~= task_views(before).push(t@));
            assert(artifact_views(res.artifacts@).subrange(0, j + 1) =~= artifact_views(
                res.artifacts@,
            ).subrange(0, j as int).push(res.artifacts@[j as int]@));
            j = j + 1;
        }
        proof {
            let done = views(resources@.subrange(0, i + 1));
            assert(done.drop_last() =~= views(resources@.subrange(0, i as int)));
            assert(done.last() == res@);
            assert(artifact_views(res.artifacts@).subrange(0, res.artifacts@.len() as int)
                =~= artifact_views(res.artifacts@));
        }
        i = i + 1;
    }
    assert(resources@.subrange(0, resources@.len() as int) =~= resources@);
    out
}

/// What to do with the result of fetching a task's artifact: bytes whose
/// digest is the expected one are handed back for writing; a failed fetch
/// or a digest mismatch becomes an error naming the task.
pub fn check_fetched(task: &InstallTask, fetched: Result<Vec<u8>, FetchError>) -> (r: Result<
    Vec<u8>,
    InstallError,
>)
    ensures
        r matches Ok(b) ==> fetched matches Ok(f) && b == f && digest_matches(task.sha1@, sha1_of(b@)),
        fetched matches Ok(f) ==> (r is Ok <==> digest_matches(task.sha1@, sha1_of(f@))),
        fetched matches Err(fe) ==> r matches Err(e) && e.kind == InstallErrorKind::Fetch(fe),
        fetched is Ok && r is Err ==> r->Err_0.kind is Checksum,
        fetched is Ok && r is Err ==> (r->Err_0.kind->Checksum_0 is InvalidDigest <==> !is_hex_text(
            task.sha1@,
        )),
        fetched is Ok && r is Err && r->Err_0.kind->Checksum_0 is Mismatch ==> ({
            let m = r->Err_0.kind->Checksum_0->Mismatch_0;
            m.expected@ == task.sha1@ && m.actual@ == hex_encoded(sha1_of(fetched->Ok_0@))
        }),
        r matches Err(e) ==> e.resource@ == task.resource@ && e.path@ == task.path@,
{
    match fetched {
        Err(fe) => Err(
            InstallError {
                resource: task.resource.clone(),
                path: task.path.clone(),
                kind: InstallErrorKind::Fetch(fe),
            },
        ),
        Ok(bytes) => {
            let computed = sha1_digest(bytes.as_slice());
            match check_digest(task.sha1.as_str(), &computed) {
                Ok(()) => Ok(bytes),
                Err(ce) => Err(
                    InstallError {
                        resource: task.resource.clone(),
                        path: task.path.clone(),
                        kind: InstallErrorKind::Checksum(ce),
                    },
                ),
            }
        },
    }
}

/// Fetches a task's artifact through the client and checks it; bytes come
/// back only when their digest is the expected one.
pub fn fetch_checked<F: Fetch>(client: &F, task: &InstallTask) -> (r: Result<Vec<u8>, InstallError>)
    ensures
        r matches Ok(b) ==> digest_matches(task.sha1@, sha1_of(b@)),
        r matches Err(e) ==> e.resource@ == task.resource@ && e.path@ == task.path@,
{
    let fetched = client.fetch(task.url.as_str());
    check_fetched(task, fetched)
}

/// The outcome of an installation: success when every artifact succeeded,
/// else every error, in the order of the artifacts.
pub fn collect_outcomes(outcomes: Vec<Result<(), InstallError>>) -> (r: Result<(), Vec<InstallError>>)
    ensures
        r is Ok <==> errors_of(outcomes@).len() == 0,
        r matches Err(es) ==> es@ == errors_of(outcomes@) && es@.len() > 0,
{
    let mut rest = outcomes;
    let mut errors: Vec<InstallError> = Vec::new();
    while rest.len() > 0
        invariant
            errors@ + errors_of(rest@) == errors_of(outcomes@),
        decreases rest@.len(),
    {
        let ghost before = rest@;
        let o = rest.remove(0);
        assert(rest@ =~= before.drop_first());
        match o {
            Err(e) => {
                let ghost prev = errors@;
                errors.push(e);
                assert(prev + (seq![e] + errors_of(rest@)) =~= errors@ + errors_of(rest@));
            },
            Ok(()) => {},
        }
    }
    assert(errors@ + seq![] =~= errors@);
    if errors.len() == 0 {
        Ok(())
    } else {
        Err(errors)
    }
}

/// Whether no outcome is an error.
pub open spec fn all_ok(s: Seq<Result<(), InstallError>>) -> bool {
    forall|i: int| 0 <= i < s.len() ==> (#[trigger] s[i]) is Ok
}

/// When an artifact failed, the collected outcome is an error, and the
/// error of that artifact is among those reported.
pub proof fn lemma_failure_is_reported(outcomes: Seq<Result<(), InstallError>>, k: int)
    requires
        0 <= k < outcomes.len(),
        outcomes[k] is Err,
    ensures
        errors_of(outcomes).len() > 0,
        errors_of(outcomes).contains(outcomes[k]->Err_0),
    decreases outcomes.len(),
{
    if k == 0 {
        assert(errors_of(outcomes)[0] == outcomes[0]->Err_0);
    } else {
        let tail = outcomes.drop_first();
        assert(tail[k - 1] == outcomes[k]);
        lemma_failure_is_reported(tail, k - 1);
        let j = choose|j: int| 0 <= j < errors_of(tail).len() && errors_of(tail)[j] == outcomes[k]->Err_0;
        match outcomes[0] {
            Err(e) => {
                assert(errors_of(outcomes)[j + 1] == outcomes[k]->Err_0);
            },
            Ok(_) => {},
        }
    }
}

/// When no artifact failed there is no error to report.
pub proof fn lemma_success_has_no_errors(outcomes: Seq<Result<(), InstallError>>)
    requires
        all_ok(outcomes),
    ensures
        errors_of(outcomes).len() == 0,
    decreases outcomes.len(),
{
    if outcomes.len() > 0 {
        let tail = outcomes.drop_first();
        assert forall|i: int| 0 <= i < tail.len() implies (#[trigger] tail[i]) is Ok by {
            assert(tail[i] == outcomes[i + 1]);
        }
        assert(outcomes[0] is Ok);
        lemma_success_has_no_errors(tail);
    }
}

/// Two byte strings accepted for the same planned task, say on a first and on
/// a second run over the same resources, have the same SHA-1 digest: the one
/// that the task expects.
pub proof fn lemma_rerun_writes_same_digest(
    rs: Seq<ResourceView>,
    k: int,
    first: Seq<u8>,
    second: Seq<u8>,
)
    requires
        0 <= k < plan_of(rs).len(),
        digest_matches(plan_of(rs)[k].sha1, sha1_of(first)),
        digest_matches(plan_of(rs)[k].sha1, sha1_of(second)),
    ensures
        sha1_of(first) == sha1_of(second),
{
}

/// An installation to perform: a version and its asset index, under a
/// destination directory.
pub struct InstallOperation {
    pub version: Version,
    pub asset_index: AssetIndex,
    pub dir: String,
}

impl InstallOperation {
    pub fn new(ver: Version, asset_index: AssetIndex, dir: String) -> (r: InstallOperation)
        ensures
            r.version == ver,
            r.asset_index == asset_index,
            r.dir == dir,
    {
        InstallOperation { version: ver, asset_index, dir }
    }

    /// The tasks of the libraries and those of the assets, resolved before
    /// anything is fetched.
    pub fn plan(&self, os: OSName) -> (r: Result<(Vec<InstallTask>, Vec<InstallTask>), ResolutionError>)
        ensures
            r is Ok <==> crate::version::version_resolves(self.version, os)
                && crate::asset_index::index_digests_valid(self.asset_index.objects@),
            r matches Ok((libs, assets)) ==> task_views(libs@) == plan_of(
                crate::version::version_resources(self.version, os),
            ) && task_views(assets@) == plan_of(
                crate::asset_index::index_resources(self.asset_index.objects@),
            ),
    {
        let libs = match self.version.resolve(os) {
            Ok(rs) => rs,
            Err(e) => {
                return Err(e);
            },
        };
        let assets = match self.asset_index.resolve() {
            Ok(rs) => rs,
            Err(e) => {
                return Err(e);
            },
        };
        Ok((plan_install(&libs), plan_install(&assets)))
    }
}

} // verus!
