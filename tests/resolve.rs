use mc_installer::asset_index::AssetIndex;
use mc_installer::resource::{is_sha1_digest, Artifact, Asset, Resource, ResourceType, ResolutionError, Resources};
use mc_installer::version::{
    AssetIndexArtifact, JavaVersion, Library, LibraryDownloads, OSName, Version,
};
use mc_installer::version_manifest::ReleaseType;

const HASH: &str = "aabbccddeeff00112233445566778899aabbccdd";

fn artifact(sha1: &str, url: &str, path: Option<&str>) -> Artifact {
    Artifact {
        sha1: sha1.to_string(),
        size: 5,
        url: url.to_string(),
        path: path.map(|p| p.to_string()),
    }
}

fn version(downloads: Vec<(String, Artifact)>, libraries: Vec<Library>) -> Version {
    Version {
        id: "1.12".to_string(),
        asset_index: AssetIndexArtifact {
            id: "1.12".to_string(),
            sha1: HASH.to_string(),
            size: 1,
            url: "https://example.com/index.json".to_string(),
            total_size: 1,
        },
        assets: "1.12".to_string(),
        compliance_level: 0,
        downloads,
        java_version: JavaVersion { component: "jre".to_string(), major_version: 8 },
        libraries,
        main_class: "Main".to_string(),
        release_time: "t".to_string(),
        time: "t".to_string(),
        release_type: ReleaseType::Release,
    }
}

fn native_library(main: bool, natives: Vec<(OSName, &str)>, classifiers: Vec<(&str, Artifact)>) -> Library {
    Library {
        name: "org.lwjgl:lwjgl:3.2.2".to_string(),
        downloads: LibraryDownloads {
            artifact: if main { Some(artifact(HASH, "https://example.com/main.jar", Some("main.jar"))) } else { None },
            classifiers: Some(classifiers.into_iter().map(|(k, a)| (k.to_string(), a)).collect()),
        },
        extract: None,
        natives: Some(natives.into_iter().map(|(o, k)| (o, k.to_string())).collect()),
    }
}

#[test]
fn download_becomes_jar_resource() {
    let v = version(vec![("client".to_string(), artifact(HASH, "https://example.com/c", None))], vec![]);
    let rs = v.resources(OSName::Linux).unwrap();
    assert_eq!(rs.len(), 1);
    assert_eq!(rs[0].name, "client.jar");
    assert_eq!(rs[0].resource_type, ResourceType::Library);
    assert_eq!(rs[0].artifacts.len(), 1);
    assert_eq!(rs[0].artifacts[0].url, "https://example.com/c");
}

#[test]
fn downloads_come_before_libraries() {
    let lib = native_library(true, vec![], vec![]);
    let v = version(vec![("server".to_string(), artifact(HASH, "https://example.com/s", None))], vec![lib]);
    let rs = v.resolve(OSName::Windows).unwrap();
    assert_eq!(rs.len(), 2);
    assert_eq!(rs[0].name, "server.jar");
    assert_eq!(rs[1].name, "org.lwjgl:lwjgl:3.2.2");
}

#[test]
fn library_with_matching_native_has_main_then_native() {
    let lib = native_library(
        true,
        vec![(OSName::Linux, "natives-linux"), (OSName::Windows, "natives-windows")],
        vec![
            ("natives-windows", artifact(HASH, "https://example.com/win.jar", None)),
            ("natives-linux", artifact(HASH, "https://example.com/linux.jar", None)),
        ],
    );
    let r = Resource::from_library(&lib, OSName::Linux).unwrap();
    assert_eq!(r.artifacts.len(), 2);
    assert_eq!(r.artifacts[0].url, "https://example.com/main.jar");
    assert_eq!(r.artifacts[1].url, "https://example.com/linux.jar");
}

#[test]
fn library_without_matching_native_has_main_only() {
    let lib = native_library(
        true,
        vec![(OSName::Linux, "natives-linux")],
        vec![("natives-linux", artifact(HASH, "https://example.com/linux.jar", None))],
    );
    let r = Resource::from_library(&lib, OSName::Osx).unwrap();
    assert_eq!(r.artifacts.len(), 1);
    assert_eq!(r.artifacts[0].url, "https://example.com/main.jar");
}

#[test]
fn library_without_main_or_native_is_empty() {
    let lib = native_library(false, vec![(OSName::Linux, "natives-linux")], vec![]);
    let r = Resource::from_library(&lib, OSName::Windows).unwrap();
    assert_eq!(r.artifacts.len(), 0);
    assert_eq!(r.resource_type, ResourceType::Library);
}

#[test]
fn library_naming_absent_classifier_fails() {
    let lib = native_library(true, vec![(OSName::Linux, "natives-linux")], vec![]);
    match Resource::from_library(&lib, OSName::Linux) {
        Err(ResolutionError::MissingClassifier { library, classifier }) => {
            assert_eq!(library, "org.lwjgl:lwjgl:3.2.2");
            assert_eq!(classifier, "natives-linux");
        }
        other => panic!("unexpected {:?}", other),
    }
    let v = version(vec![], vec![lib]);
    assert!(v.resolve(OSName::Linux).is_err());
    assert!(v.resolve(OSName::Windows).is_ok());
}

#[test]
fn asset_is_sharded_by_digest() {
    let a = Artifact::from_asset(Asset { hash: HASH.to_string(), size: 10 });
    assert_eq!(a.url, format!("https://resources.download.minecraft.net/aa/{}", HASH));
    assert_eq!(a.path, Some(format!(".minecraft/assets/objects/aa/{}", HASH)));
    assert_eq!(a.sha1, HASH);
    assert_eq!(a.size, 10);
}

#[test]
fn asset_index_resource_named_by_digest() {
    let index = AssetIndex {
        objects: vec![("foo.png".to_string(), Asset { hash: HASH.to_string(), size: 10 })],
    };
    let rs = index.resources(OSName::Linux).unwrap();
    assert_eq!(rs.len(), 1);
    assert_eq!(rs[0].name, HASH);
    assert_eq!(rs[0].resource_type, ResourceType::Asset);
    assert_eq!(rs[0].artifacts.len(), 1);
    let path = rs[0].artifacts[0].path.clone().unwrap();
    assert!(path.ends_with(&format!("aa/{}", HASH)));
}

#[test]
fn asset_index_with_bad_digest_fails() {
    let index = AssetIndex {
        objects: vec![
            ("ok.png".to_string(), Asset { hash: HASH.to_string(), size: 1 }),
            ("bad.png".to_string(), Asset { hash: "a".to_string(), size: 1 }),
        ],
    };
    match index.resolve() {
        Err(ResolutionError::InvalidDigest { name }) => assert_eq!(name, "bad.png"),
        other => panic!("unexpected {:?}", other),
    }
}

#[test]
fn sha1_digest_text_is_recognised() {
    assert!(is_sha1_digest(HASH));
    assert!(is_sha1_digest("AABBCCDDEEFF00112233445566778899AABBCCDD"));
    assert!(!is_sha1_digest("aabb"));
    assert!(!is_sha1_digest("zabbccddeeff00112233445566778899aabbccdd"));
    assert!(!is_sha1_digest(""));
}

#[test]
fn host_os_names_are_read() {
    assert_eq!(OSName::from_str("osx").unwrap(), OSName::Osx);
    assert_eq!(OSName::from_str("macos").unwrap(), OSName::Osx);
    assert_eq!(OSName::from_str("linux").unwrap(), OSName::Linux);
    assert_eq!(OSName::from_str("windows").unwrap(), OSName::Windows);
    assert!(OSName::from_str("freebsd").is_err());
    assert!(OSName::from_str("Linux").is_err());
}
