//! Version descriptors and the resolution of their libraries into resources.

use crate::resource::{
    artifact_views, views, Artifact, ArtifactView, Resource, ResourceType, ResourceView,
    ResolutionError, Resources,
};
use crate::version_manifest::ReleaseType;
use vstd::prelude::*;
use vstd::string::*;

verus! {

/// A host OS string that names none of the known systems.
#[derive(Debug, Clone)]
pub struct UnknownOSError;

#[derive(Debug, Clone, Copy, PartialEq, Eq, Structural)]
pub enum RuleAction {
    Allow,
    Disallow,
}

/// The operating systems that native libraries are published for.
#[derive(Debug, Clone, Copy, PartialEq, Eq, Structural, Hash)]
pub enum OSName {
    Osx,
    Linux,
    Windows,
}

/// The OS that a host OS string names, if any.
pub open spec fn os_named(s: Seq<char>) -> Option<OSName> {
    if s == "osx"@ || s == "macos"@ {
        Some(OSName::Osx)
    } else if s == "linux"@ {
        Some(OSName::Linux)
    } else if s == "windows"@ {
        Some(OSName::Windows)
    } else {
        None
    }
}

impl OSName {
    /// Reads a host OS string: "osx" or "macos", "linux", "windows".
    pub fn from_str(s: &str) -> (r: Result<OSName, UnknownOSError>)
        ensures
            r is Ok <==> os_named(s@) is Some,
            r matches Ok(os) ==> os_named(s@) == Some(os),
    {
        let t = s.to_owned();
        if t == "osx".to_owned() || t == "macos".to_owned() {
            Ok(OSName::Osx)
        } else if t == "linux".to_owned() {
            Ok(OSName::Linux)
        } else if t == "windows".to_owned() {
            Ok(OSName::Windows)
        } else {
            Err(UnknownOSError)
        }
    }
}

#[derive(Debug, Clone, Copy)]
pub struct RuleOS {
    pub name: OSName,
}

#[derive(Debug, Clone, Copy)]
pub struct Rule {
    pub action: RuleAction,
    pub os: RuleOS,
}

/// A library's main artifact and its per-classifier variants.
#[derive(Debug, Clone)]
pub struct LibraryDownloads {
    pub artifact: Option<Artifact>,
    pub classifiers: Option<Vec<(String, Artifact)>>,
}

#[derive(Debug, Clone)]
pub struct LibraryExtract {
    pub exclude: Vec<String>,
}

/// A runtime library; `natives` maps a host OS to the classifier of its
/// native bundle.
#[derive(Debug, Clone)]
pub struct Library {
    pub name: String,
    pub downloads: LibraryDownloads,
    pub extract: Option<LibraryExtract>,
    pub natives: Option<Vec<(OSName, String)>>,
}

/// The remote asset index of a version.
#[derive(Debug, Clone)]
pub struct AssetIndexArtifact {
    pub id: String,
    pub sha1: String,
    pub size: u32,
    pub url: String,
    pub total_size: u32,
}

#[derive(Debug, Clone)]
pub struct JavaVersion {
    pub component: String,
    pub major_version: u32,
}

/// A version descriptor.
#[derive(Debug, Clone)]
pub struct Version {
    pub id: String,
    pub asset_index: AssetIndexArtifact,
    pub assets: String,
    pub compliance_level: u32,
    pub downloads: Vec<(String, Artifact)>,
    pub java_version: JavaVersion,
    pub libraries: Vec<Library>,
    pub main_class: String,
    pub release_time: String,
    pub time: String,
    pub release_type: ReleaseType,
}

/// The classifier of the first entry for the OS.
pub open spec fn native_key(natives: Seq<(OSName, String)>, os: OSName) -> Option<Seq<char>>
    decreases natives.len(),
{
    if natives.len() == 0 {
        None
    } else if natives[0].0 == os {
        Some(natives[0].1@)
    } else {
        native_key(natives.drop_first(), os)
    }
}

/// The artifact of the first entry under the classifier.
pub open spec fn classifier_entry(classifiers: Seq<(String, Artifact)>, key: Seq<char>) -> Option<
    Artifact,
>
    decreases classifiers.len(),
{
    if classifiers.len() == 0 {
        None
    } else if classifiers[0].0@ == key {
        Some(classifiers[0].1)
    } else {
        classifier_entry(classifiers.drop_first(), key)
    }
}

/// The classifier that the library names for the OS, if it names one.
pub open spec fn library_classifier(lib: Library, os: OSName) -> Option<Seq<char>> {
    match lib.natives {
        Some(n) => native_key(n@, os),
        None => None,
    }
}

/// The artifact that the library stores under a classifier.
pub open spec fn classified_artifact(lib: Library, key: Seq<char>) -> Option<Artifact> {
    match lib.downloads.classifiers {
        Some(c) => classifier_entry(c@, key),
        None => None,
    }
}

/// The library names a classifier for the OS that it holds no artifact for.
pub open spec fn missing_classifier(lib: Library, os: OSName) -> bool {
    match library_classifier(lib, os) {
        Some(k) => classified_artifact(lib, k) is None,
        None => false,
    }
}

/// The main artifact, if the library has one.
pub open spec fn main_artifacts(lib: Library) -> Seq<ArtifactView> {
    match lib.downloads.artifact {
        Some(a) => seq![a@],
        None => seq![],
    }
}

/// The native artifact for the OS, if the library names one and has it.
pub open spec fn native_artifacts(lib: Library, os: OSName) -> Seq<ArtifactView> {
    match library_classifier(lib, os) {
        Some(k) => match classified_artifact(lib, k) {
            Some(a) => seq![a@],
            None => seq![],
        },
        None => seq![],
    }
}

/// The resource of a library: its main artifact, then its native one.
pub open spec fn library_resource(lib: Library, os: OSName) -> ResourceView {
    ResourceView {
        resource_type: ResourceType::Library,
        name: lib.name@,
        artifacts: main_artifacts(lib) + native_artifacts(lib, os),
    }
}

/// The resource of a top-level download, named after its key with ".jar".
pub open spec fn download_resource(d: (String, Artifact)) -> ResourceView {
    ResourceView {
        resource_type: ResourceType::Library,
        name: d.0@ + ".jar"@,
        artifacts: seq![d.1@],
    }
}

/// Every library of the version resolves on the OS.
pub open spec fn version_resolves(v: Version, os: OSName) -> bool {
    forall|i: int| 0 <= i < v.libraries@.len() ==> !missing_classifier(#[trigger] v.libraries@[i], os)
}

/// The resources of a version: one per download, then one per library.
pub open spec fn version_resources(v: Version, os: OSName) -> Seq<ResourceView> {
    v.downloads@.map_values(|d: (String, Artifact)| download_resource(d)) + v.libraries@.map_values(
        |l: Library| library_resource(l, os),
    )
}

/// No OS has two entries.
pub open spec fn natives_unique(natives: Seq<(OSName, String)>) -> bool {
    forall|i: int, j: int|
        0 <= i < natives.len() && 0 <= j < natives.len() && i != j ==> #[trigger] natives[i].0
            != #[trigger] natives[j].0
}

/// No classifier has two entries.
pub open spec fn classifiers_unique(classifiers: Seq<(String, Artifact)>) -> bool {
    forall|i: int, j: int|
        0 <= i < classifiers.len() && 0 <= j < classifiers.len() && i != j
            ==> #[trigger] classifiers[i].0@ != #[trigger] classifiers[j].0@
}

/// No download key has two entries.
pub open spec fn downloads_unique(downloads: Seq<(String, Artifact)>) -> bool {
    classifiers_unique(downloads)
}

impl Library {
    /// Its OS and classifier lists are maps: every key occurs once.
    pub open spec fn wf(&self) -> bool {
        &&& (self.natives matches Some(n) ==> natives_unique(n@))
        &&& (self.downloads.classifiers matches Some(c) ==> classifiers_unique(c@))
    }
}

impl Version {
    /// Its downloads and each library's lists are maps: every key occurs once.
    pub open spec fn wf(&self) -> bool {
        &&& downloads_unique(self.downloads@)
        &&& forall|i: int| 0 <= i < self.libraries@.len() ==> (#[trigger] self.libraries@[i]).wf()
    }
}

/// Where every OS occurs once, the classifier for an OS is that of its entry.
pub proof fn lemma_native_key_is_entry(natives: Seq<(OSName, String)>, i: int)
    requires
        natives_unique(natives),
        0 <= i < natives.len(),
    ensures
        native_key(natives, natives[i].0) == Some(natives[i].1@),
    decreases natives.len(),
{
    if i > 0 {
        let tail = natives.drop_first();
        assert(natives[0].0 != natives[i].0);
        assert(tail[i - 1] == natives[i]);
        assert forall|a: int, b: int|
            0 <= a < tail.len() && 0 <= b < tail.len() && a != b implies #[trigger] tail[a].0
            != #[trigger] tail[b].0 by {
            assert(tail[a] == natives[a + 1] && tail[b] == natives[b + 1]);
        }
        lemma_native_key_is_entry(tail, i - 1);
    }
}

/// Where every classifier occurs once, the artifact under a classifier is
/// that of its entry.
pub proof fn lemma_classifier_entry_is_entry(classifiers: Seq<(String, Artifact)>, i: int)
    requires
        classifiers_unique(classifiers),
        0 <= i < classifiers.len(),
    ensures
        classifier_entry(classifiers, classifiers[i].0@) == Some(classifiers[i].1),
    decreases classifiers.len(),
{
    if i > 0 {
        let tail = classifiers.drop_first();
        assert(classifiers[0].0@ != classifiers[i].0@);
        assert(tail[i - 1] == classifiers[i]);
        assert forall|a: int, b: int|
            0 <= a < tail.len() && 0 <= b < tail.len() && a != b implies #[trigger] tail[a].0@
            != #[trigger] tail[b].0@ by {
            assert(tail[a] == classifiers[a + 1] && tail[b] == classifiers[b + 1]);
        }
        lemma_classifier_entry_is_entry(tail, i - 1);
    }
}

/// A library that resolves on the OS carries its main artifact and then the
/// native artifact of the classifier it names for the OS; when it names none,
/// it carries its main artifact alone, or nothing.
pub proof fn lemma_library_artifacts(lib: Library, os: OSName)
    requires
        !missing_classifier(lib, os),
    ensures
        library_classifier(lib, os) is Some ==> classified_artifact(
            lib,
            library_classifier(lib, os)->Some_0,
        ) is Some,
        library_classifier(lib, os) is Some ==> library_resource(lib, os).artifacts
            == main_artifacts(lib) + seq![
            classified_artifact(lib, library_classifier(lib, os)->Some_0)->Some_0@,
        ],
        lib.downloads.artifact is Some && library_classifier(lib, os) is Some
            ==> library_resource(lib, os).artifacts == seq![
            lib.downloads.artifact->Some_0@,
            classified_artifact(lib, library_classifier(lib, os)->Some_0)->Some_0@,
        ],
        library_classifier(lib, os) is None ==> library_resource(lib, os).artifacts
            == main_artifacts(lib),
        library_resource(lib, os).artifacts.len() == (if lib.downloads.artifact is Some {
            1int
        } else {
            0int
        }) + (if library_classifier(lib, os) is Some {
            1int
        } else {
            0int
        }),
{
    match lib.downloads.artifact {
        Some(m) => {
            match library_classifier(lib, os) {
                Some(k) => {
                    let n = classified_artifact(lib, k)->Some_0;
                    assert(seq![m@] + seq![n@] =~= seq![m@, n@]);
                },
                None => {
                    assert(seq![m@] + Seq::<ArtifactView>::empty() =~= seq![m@]);
                },
            }
        },
        None => {
            assert(Seq::<ArtifactView>::empty() + native_artifacts(lib, os) =~= native_artifacts(lib, os));
        },
    }
}

/// Index of the first entry for the OS.
fn find_native(natives: &Vec<(OSName, String)>, os: OSName) -> (r: Option<usize>)
    ensures
        r is None <==> native_key(natives@, os) is None,
        r matches Some(i) ==> i < natives@.len() && native_key(natives@, os) == Some(
            natives@[i as int].1@,
        ),
{
    let mut i: usize = 0;
    assert(natives@.subrange(0, natives@.len() as int) =~= natives@);
    while i < natives.len()
        invariant
            i <= natives@.len(),
            native_key(natives@, os) == native_key(natives@.subrange(i as int, natives@.len() as int), os),
        decreases natives@.len() - i,
    {
        let ghost rest = natives@.subrange(i as int, natives@.len() as int);
        assert(rest.drop_first() =~= natives@.subrange(i + 1, natives@.len() as int));
        if natives[i].0 == os {
            return Some(i);
        }
        i = i + 1;
    }
    None
}

/// Index of the first entry under the classifier.
fn find_classifier(classifiers: &Vec<(String, Artifact)>, key: &String) -> (r: Option<usize>)
    ensures
        r is None <==> classifier_entry(classifiers@, key@) is None,
        r matches Some(i) ==> i < classifiers@.len() && classifier_entry(classifiers@, key@) == Some(
            classifiers@[i as int].1,
        ),
{
    let mut i: usize = 0;
    assert(classifiers@.subrange(0, classifiers@.len() as int) =~= classifiers@);
    while i < classifiers.len()
        invariant
            i <= classifiers@.len(),
            classifier_entry(classifiers@, key@) == classifier_entry(
                classifiers@.subrange(i as int, classifiers@.len() as int),
                key@,
            ),
        decreases classifiers@.len() - i,
    {
        let ghost rest = classifiers@.subrange(i as int, classifiers@.len() as int);
        assert(rest.drop_first() =~= classifiers@.subrange(i + 1, classifiers@.len() as int));
        if classifiers[i].0 == *key {
            return Some(i);
        }
        i = i + 1;
    }
    None
}

impl Resource {
    /// The resource of a library on the host OS: its main artifact if it has
    /// one, then the native artifact of the classifier named for the OS.
    /// Fails when that classifier has no artifact.
    pub fn from_library(lib: &Library, os: OSName) -> (r: Result<Resource, ResolutionError>)
        ensures
            r is Err <==> missing_classifier(*lib, os),
            r matches Ok(res) ==> res@ == library_resource(*lib, os),
            r matches Err(ResolutionError::MissingClassifier { library, classifier }) ==> library@
                == lib.name@ && library_classifier(*lib, os) == Some(classifier@),
            !(r matches Err(ResolutionError::InvalidDigest { .. })),
    {
        let mut artifacts: Vec<Artifact> = Vec::new();
        match &lib.downloads.artifact {
            Some(a) => artifacts.push(a.duplicate()),
            None => {},
        }
        assert(artifact_views(artifacts@) =~= main_artifacts(*lib));
        match &lib.natives {
            Some(natives) => match find_native(natives, os) {
                Some(i) => {
                    let key = &natives[i].1;
                    let found = match &lib.downloads.classifiers {
                        Some(c) => match find_classifier(c, key) {
                            Some(j) => Some(c[j].1.duplicate()),
                            None => None,
                        },
                        None => None,
                    };
                    match found {
                        Some(a) => {
                            let ghost before = artifacts@;
                            artifacts.push(a);
                            assert(artifact_views(artifacts@) =~= artifact_views(before) + seq![
                                a@,
                            ]);
                        },
                        None => {
                            return Err(
                                ResolutionError::MissingClassifier {
                                    library: lib.name.clone(),
                                    classifier: key.clone(),
                                },
                            );
                        },
                    }
                },
                None => {},
            },
            None => {},
        }
        assert(artifact_views(artifacts@) =~= main_artifacts(*lib) + native_artifacts(*lib, os));
        Ok(Resource { resource_type: ResourceType::Library, name: lib.name.clone(), artifacts })
    }
}

impl Version {
    /// The resources to install on the host OS: one per top-level download,
    /// named after its key with ".jar", then one per library. Fails on the
    /// first library that cannot be resolved.
    pub fn resolve(&self, os: OSName) -> (r: Result<Vec<Resource>, ResolutionError>)
        ensures
            r is Ok <==> version_resolves(*self, os),
            r matches Ok(rs) ==> views(rs@) == version_resources(*self, os),
            r matches Err(ResolutionError::MissingClassifier { library, classifier }) ==> exists|
                i: int,
            |
                0 <= i < self.libraries@.len() && missing_classifier(self.libraries@[i], os)
                    && #[trigger] self.libraries@[i].name@ == library@,
            !(r matches Err(ResolutionError::InvalidDigest { .. })),
    {
        let mut out: Vec<Resource> = Vec::new();
        let mut i: usize = 0;
        while i < self.downloads.len()
            invariant
                i <= self.downloads@.len(),
                views(out@) == self.downloads@.subrange(0, i as int).map_values(
                    |d: (String, Artifact)| download_resource(d),
                ),
            decreases self.downloads@.len() - i,
        {
            let entry = &self.downloads[i];
            let mut name = entry.0.clone();
            name.append(".jar");
            let artifacts = vec![entry.1.duplicate()];
            assert(artifact_views(artifacts@) =~= seq![entry.1@]);
            let res = Resource { resource_type: ResourceType::Library, name, artifacts };
            let ghost before = out@;
            out.push(res);
            assert(views(out@) =~= views(before).push(res@));
            assert(self.downloads@.subrange(0, i + 1) =~= self.downloads@.subrange(
                0,
                i as int,
            ).push(self.downloads@[i as int]));
            i = i + 1;
        }
        assert(self.downloads@.subrange(0, self.downloads@.len() as int) =~= self.downloads@);
        let ghost head = views(out@);
        let mut j: usize = 0;
        while j < self.libraries.len()
            invariant
                j <= self.libraries@.len(),
                head == self.downloads@.map_values(|d: (String, Artifact)| download_resource(d)),
                views(out@) == head + self.libraries@.subrange(0, j as int).map_values(
                    |l: Library| library_resource(l, os),
                ),
                forall|k: int| 0 <= k < j ==> !missing_classifier(#[trigger] self.libraries@[k], os),
            decreases self.libraries@.len() - j,
        {
            match Resource::from_library(&self.libraries[j], os) {
                Ok(res) => {
                    let ghost before = out@;
                    out.push(res);
                    assert(views(out@) =~= views(before).push(res@));
                    assert(self.libraries@.subrange(0, j + 1) =~= self.libraries@.subrange(
                        0,
                        j as int,
                    ).push(self.libraries@[j as int]));
                },
                Err(e) => {
                    return Err(e);
                },
            }
            j = j + 1;
        }
        assert(self.libraries@.subrange(0, self.libraries@.len() as int) =~= self.libraries@);
        Ok(out)
    }
}

impl Resources for Version {
    fn resources(&self, os: OSName) -> (r: Result<Vec<Resource>, ResolutionError>)
        ensures
            r is Ok <==> version_resolves(*self, os),
            r matches Ok(rs) ==> views(rs@) == version_resources(*self, os),
            r matches Err(ResolutionError::MissingClassifier { library, classifier }) ==> exists|
                i: int,
            |
                0 <= i < self.libraries@.len() && missing_classifier(self.libraries@[i], os)
                    && #[trigger] self.libraries@[i].name@ == library@,
            !(r matches Err(ResolutionError::InvalidDigest { .. })),
    {
        self.resolve(os)
    }
}

} // verus!
