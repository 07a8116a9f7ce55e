use mc_installer::checksum::ChecksumError;
use mc_installer::config::Config;
use mc_installer::install::{
    check_fetched, collect_outcomes, fetch_checked, plan_install, Fetch, FetchError,
    InstallErrorKind, InstallOperation,
};
use mc_installer::asset_index::AssetIndex;
use mc_installer::resource::{Artifact, Asset, Resource, ResourceType};
use mc_installer::version::{AssetIndexArtifact, JavaVersion, OSName, Version};
use mc_installer::version_manifest::{ReleaseType, VersionInfo, VersionLatestInfo, VersionManifest};

const HELLO_SHA1: &str = "aaf4c61ddcc5e8a2dabede0f3b482cd9aea9434d";
const EMPTY_SHA1: &str = "da39a3ee5e6b4b0d3255bfef95601890afd80709";

struct FakeClient {
    failing_url: Option<String>,
}

impl Fetch for FakeClient {
    fn fetch(&self, url: &str) -> Result<Vec<u8>, FetchError> {
        if self.failing_url.as_deref() == Some(url) {
            Err(FetchError { url: url.to_string(), status: Some(404), message: "not found".to_string() })
        } else {
            Ok(b"hello".to_vec())
        }
    }
}

fn artifact(sha1: &str, url: &str, path: Option<&str>) -> Artifact {
    Artifact { sha1: sha1.to_string(), size: 5, url: url.to_string(), path: path.map(|p| p.to_string()) }
}

fn client_version() -> Version {
    Version {
        id: "1.12".to_string(),
        asset_index: AssetIndexArtifact {
            id: "1.12".to_string(),
            sha1: HELLO_SHA1.to_string(),
            size: 1,
            url: "https://example.com/index.json".to_string(),
            total_size: 1,
        },
        assets: "1.12".to_string(),
        compliance_level: 0,
        downloads: vec![("client".to_string(), artifact(HELLO_SHA1, "https://example.com/client", None))],
        java_version: JavaVersion { component: "jre".to_string(), major_version: 8 },
        libraries: vec![],
        main_class: "Main".to_string(),
        release_time: "t".to_string(),
        time: "t".to_string(),
        release_type: ReleaseType::Release,
    }
}

#[test]
fn verify_accepts_matching_digest() {
    let a = artifact(HELLO_SHA1, "u", None);
    assert!(a.verify_checksum(b"hello").is_ok());
    let upper = artifact(&HELLO_SHA1.to_uppercase(), "u", None);
    assert!(upper.verify_checksum(b"hello").is_ok());
    assert!(artifact(EMPTY_SHA1, "u", None).verify_checksum(b"").is_ok());
}

#[test]
fn verify_rejects_flipped_byte() {
    let a = artifact(HELLO_SHA1, "u", None);
    match a.verify_checksum(b"hellp") {
        Err(ChecksumError::Mismatch(e)) => {
            assert_eq!(e.expected, HELLO_SHA1);
            assert_ne!(e.actual, HELLO_SHA1);
            assert_eq!(e.actual.len(), 40);
        }
        other => panic!("unexpected {:?}", other),
    }
}

#[test]
fn verify_reports_digest_of_bytes() {
    let a = artifact(HELLO_SHA1, "u", None);
    match a.verify_checksum(b"") {
        Err(ChecksumError::Mismatch(e)) => assert_eq!(e.actual, EMPTY_SHA1),
        other => panic!("unexpected {:?}", other),
    }
}

#[test]
fn verify_rejects_malformed_digest() {
    let a = artifact("xyz", "u", None);
    assert!(matches!(a.verify_checksum(b"hello"), Err(ChecksumError::InvalidDigest)));
}

#[test]
fn client_jar_installs_to_its_name() {
    let rs = client_version().resolve(OSName::Linux).unwrap();
    let tasks = plan_install(&rs);
    assert_eq!(tasks.len(), 1);
    assert_eq!(tasks[0].path, "client.jar");
    assert_eq!(tasks[0].resource, "client.jar");
    let client = FakeClient { failing_url: None };
    let bytes = fetch_checked(&client, &tasks[0]).unwrap();
    assert_eq!(bytes, b"hello".to_vec());
}

#[test]
fn plan_prefers_artifact_path() {
    let rs = vec![
        Resource {
            resource_type: ResourceType::Library,
            name: "lib".to_string(),
            artifacts: vec![artifact(HELLO_SHA1, "a", Some("org/a.jar")), artifact(HELLO_SHA1, "b", None)],
        },
        Resource::from_asset(Asset { hash: HELLO_SHA1.to_string(), size: 5 }),
    ];
    let tasks = plan_install(&rs);
    assert_eq!(tasks.len(), 3);
    assert_eq!(tasks[0].path, "org/a.jar");
    assert_eq!(tasks[1].path, "lib");
    assert_eq!(tasks[2].path, format!(".minecraft/assets/objects/aa/{}", HELLO_SHA1));
}

#[test]
fn second_run_yields_same_bytes() {
    let rs = client_version().resolve(OSName::Linux).unwrap();
    let tasks = plan_install(&rs);
    let again = plan_install(&client_version().resolve(OSName::Linux).unwrap());
    assert_eq!(tasks[0].path, again[0].path);
    let client = FakeClient { failing_url: None };
    let first = fetch_checked(&client, &tasks[0]).unwrap();
    let second = fetch_checked(&client, &again[0]).unwrap();
    assert_eq!(first, second);
}

#[test]
fn corrupt_bytes_are_never_accepted() {
    let task = &plan_install(&client_version().resolve(OSName::Linux).unwrap())[0];
    let r = check_fetched(task, Ok(b"hellO".to_vec()));
    match r {
        Err(e) => {
            assert_eq!(e.path, "client.jar");
            assert!(matches!(e.kind, InstallErrorKind::Checksum(ChecksumError::Mismatch(_))));
        }
        Ok(_) => panic!("corrupt bytes accepted"),
    }
}

#[test]
fn failed_fetch_is_attributed_to_its_artifact() {
    let rs: Vec<Resource> = (0..4)
        .map(|i| Resource {
            resource_type: ResourceType::Library,
            name: format!("lib{}", i),
            artifacts: vec![artifact(HELLO_SHA1, &format!("https://example.com/{}", i), None)],
        })
        .collect();
    let tasks = plan_install(&rs);
    let client = FakeClient { failing_url: Some("https://example.com/2".to_string()) };
    let outcomes = tasks.iter().map(|t| fetch_checked(&client, t).map(|_| ())).collect();
    match collect_outcomes(outcomes) {
        Err(es) => {
            assert_eq!(es.len(), 1);
            assert_eq!(es[0].resource, "lib2");
            match &es[0].kind {
                InstallErrorKind::Fetch(fe) => assert_eq!(fe.status, Some(404)),
                other => panic!("unexpected {:?}", other),
            }
        }
        Ok(()) => panic!("failure not reported"),
    }
}

#[test]
fn all_successes_collect_to_ok() {
    assert!(collect_outcomes(vec![Ok(()), Ok(())]).is_ok());
    assert!(collect_outcomes(vec![]).is_ok());
}

#[test]
fn operation_plans_libraries_and_assets() {
    let index = AssetIndex {
        objects: vec![("foo.png".to_string(), Asset { hash: HELLO_SHA1.to_string(), size: 5 })],
    };
    let op = InstallOperation::new(client_version(), index, "/tmp/x".to_string());
    let (libs, assets) = op.plan(OSName::Linux).unwrap();
    assert_eq!(libs.len(), 1);
    assert_eq!(assets.len(), 1);
    assert_eq!(assets[0].resource, HELLO_SHA1);
    assert_eq!(op.dir, "/tmp/x");
}

#[test]
fn manifest_finds_first_matching_id() {
    let info = |id: &str| VersionInfo {
        id: id.to_string(),
        release_type: ReleaseType::Release,
        url: "u".to_string(),
        time: "t".to_string(),
        release_time: "t".to_string(),
        sha1: HELLO_SHA1.to_string(),
        compliance_level: 0,
    };
    let m = VersionManifest {
        latest: VersionLatestInfo { release: "1.12".to_string(), snapshot: "1.13".to_string() },
        versions: vec![info("1.11"), info("1.12"), info("1.12")],
    };
    assert_eq!(m.find("1.12"), Some(1));
    assert_eq!(m.find("1.11"), Some(0));
    assert_eq!(m.find("1.2"), None);
}

#[test]
fn cached_manifest_expires_after_five_days() {
    let c = Config::with_paths("db".to_string(), "cache".to_string());
    assert_eq!(c.cache_expiry_days, 5);
    assert!(!c.manifest_is_stale(432000, 0));
    assert!(c.manifest_is_stale(432000, 1));
    assert!(c.manifest_is_stale(432001, 0));
    assert!(!c.manifest_is_stale(0, 0));
}
