//! Downloadable artifacts, the resources that group them, and the
//! content-addressed layout of assets.

use crate::digest::{decode_hex, hex_decoded, is_hex_char};
use vstd::prelude::*;
use vstd::string::*;
use vstd::utf8::*;

verus! {

/// Where asset objects are served from.
pub const RESOURCE_URL: &'static str = "https://resources.download.minecraft.net/";

/// Where asset objects are placed, relative to an installation.
pub const RESOURCE_PATH: &'static str = ".minecraft/assets/objects/";

/// The origin of a resource.
#[derive(Debug, Clone, Copy, PartialEq, Eq, Structural)]
pub enum ResourceType {
    Asset,
    Library,
}

/// One downloadable file: where it comes from, its expected SHA-1 digest as
/// hex text, its size, and where it goes relative to the destination.
#[derive(Debug, Clone)]
pub struct Artifact {
    pub sha1: String,
    pub size: u32,
    pub url: String,
    pub path: Option<String>,
}

/// An entry of an asset index: the object's digest and size.
#[derive(Debug, Clone)]
pub struct Asset {
    pub hash: String,
    pub size: u32,
}

/// A named unit of installation made of artifacts.
#[derive(Debug)]
pub struct Resource {
    pub resource_type: ResourceType,
    pub name: String,
    pub artifacts: Vec<Artifact>,
}

/// What an artifact holds, as values.
pub struct ArtifactView {
    pub sha1: Seq<char>,
    pub size: u32,
    pub url: Seq<char>,
    pub path: Option<Seq<char>>,
}

impl View for Artifact {
    type V = ArtifactView;

    open spec fn view(&self) -> ArtifactView {
        ArtifactView {
            sha1: self.sha1@,
            size: self.size,
            url: self.url@,
            path: match self.path {
                Some(p) => Some(p@),
                None => None,
            },
        }
    }
}

/// The views of a list of artifacts.
pub open spec fn artifact_views(s: Seq<Artifact>) -> Seq<ArtifactView> {
    s.map_values(|a: Artifact| a@)
}

/// What a resource holds, as values.
pub struct ResourceView {
    pub resource_type: ResourceType,
    pub name: Seq<char>,
    pub artifacts: Seq<ArtifactView>,
}

impl View for Resource {
    type V = ResourceView;

    open spec fn view(&self) -> ResourceView {
        ResourceView {
            resource_type: self.resource_type,
            name: self.name@,
            artifacts: artifact_views(self.artifacts@),
        }
    }
}

/// Why version or asset metadata could not be turned into resources.
#[derive(Debug, Clone)]
pub enum ResolutionError {
    /// A library names, for the host OS, a classifier it has no artifact for.
    MissingClassifier { library: String, classifier: String },
    /// An asset's digest is not 40 hex digits.
    InvalidDigest { name: String },
}

/// Metadata that resolves into the resources to install on a host OS.
pub trait Resources {
    fn resources(&self, os: crate::version::OSName) -> Result<Vec<Resource>, ResolutionError>;
}

/// The views of a list of resources.
pub open spec fn views(rs: Seq<Resource>) -> Seq<ResourceView> {
    rs.map_values(|r: Resource| r@)
}

/// A SHA-1 digest written as 40 hex digits.
pub open spec fn is_sha1_hex(s: Seq<char>) -> bool {
    s.len() == 40 && forall|i: int| 0 <= i < s.len() ==> is_hex_char(#[trigger] s[i])
}

/// The two leading digits of a digest, which name its shard directory.
pub open spec fn shard_of(hash: Seq<char>) -> Seq<char> {
    hash.subrange(0, 2)
}

/// The URL of an asset object: the shard directory, then the digest.
pub open spec fn asset_url(hash: Seq<char>) -> Seq<char> {
    RESOURCE_URL@ + shard_of(hash) + "/"@ + hash
}

/// The relative path of an asset object: the shard directory, then the digest.
pub open spec fn asset_path(hash: Seq<char>) -> Seq<char> {
    RESOURCE_PATH@ + shard_of(hash) + "/"@ + hash
}

/// The artifact of an asset object.
pub open spec fn asset_artifact(a: Asset) -> ArtifactView {
    ArtifactView {
        sha1: a.hash@,
        size: a.size,
        url: asset_url(a.hash@),
        path: Some(asset_path(a.hash@)),
    }
}

/// The resource of an asset object, named by its digest.
pub open spec fn asset_resource(a: Asset) -> ResourceView {
    ResourceView {
        resource_type: ResourceType::Asset,
        name: a.hash@,
        artifacts: seq![asset_artifact(a)],
    }
}

/// The URL and the relative path of an asset's artifact both end with the
/// shard directory (the digest's first two digits), a '/', and the digest;
/// the artifact expects that same digest.
pub proof fn lemma_asset_addressing(a: Asset)
    requires
        is_sha1_hex(a.hash@),
    ensures
        asset_artifact(a).sha1 == a.hash@,
        asset_artifact(a).url == asset_url(a.hash@),
        asset_artifact(a).path == Some(asset_path(a.hash@)),
        ({
            let u = asset_url(a.hash@);
            &&& u.len() >= 43
            &&& u.subrange(u.len() - 40, u.len() as int) == a.hash@
            &&& u[u.len() - 41] == '/'
            &&& u.subrange(u.len() - 43, u.len() - 41) == a.hash@.subrange(0, 2)
        }),
        ({
            let p = asset_path(a.hash@);
            &&& p.len() >= 43
            &&& p.subrange(p.len() - 40, p.len() as int) == a.hash@
            &&& p[p.len() - 41] == '/'
            &&& p.subrange(p.len() - 43, p.len() - 41) == a.hash@.subrange(0, 2)
        }),
{
    reveal_strlit("/");
    let h = a.hash@;
    let u = asset_url(h);
    let p = asset_path(h);
    let n = u.len();
    let m = p.len();
    assert(u.subrange(n - 40, n as int) =~= h);
    assert(u.subrange(n - 43, n - 41) =~= h.subrange(0, 2));
    assert(p.subrange(m - 40, m as int) =~= h);
    assert(p.subrange(m - 43, m - 41) =~= h.subrange(0, 2));
}

/// Whether text is a SHA-1 digest written as 40 hex digits.
pub fn is_sha1_digest(s: &str) -> (r: bool)
    ensures
        r == is_sha1_hex(s@),
{
    match decode_hex(s) {
        Ok(v) => {
            assert(hex_decoded(s@).len() == s@.len() / 2);
            v.len() == 20
        },
        Err(_) => false,
    }
}

/// An ASCII letter or digit.
pub open spec fn is_alnum_char(c: char) -> bool {
    ('0' <= c && c <= '9') || ('a' <= c && c <= 'z') || ('A' <= c && c <= 'Z')
}

/// A URL path segment that needs no percent-encoding and is not `.` or `..`.
pub open spec fn is_plain_segment(s: Seq<char>) -> bool {
    s.len() > 0 && forall|i: int| 0 <= i < s.len() ==> is_alnum_char(#[trigger] s[i])
}

/// Relies on url::Url::parse and url::PathSegmentsMut::push: the base parses
/// as an https URL whose path is "/", and pushing segments made of ASCII
/// letters and digits appends them unencoded, with a '/' before every
/// segment but the first (the path was "/").
#[verifier::external_body]
fn url_with_segments(base: &str, first: &str, second: &str) -> (r: String)
    requires
        base@ == RESOURCE_URL@,
        is_plain_segment(first@),
        is_plain_segment(second@),
    ensures
        r@ == base@ + first@ + "/"@ + second@,
{
    let mut u = url::Url::parse(base).unwrap();
    u.path_segments_mut().unwrap().push(first).push(second);
    u.to_string()
}

proof fn lemma_hex_is_plain(s: Seq<char>)
    requires
        s.len() > 0,
        forall|i: int| 0 <= i < s.len() ==> is_hex_char(#[trigger] s[i]),
    ensures
        is_plain_segment(s),
        is_ascii_chars(s),
{
}

/// The first two characters of an ASCII string.
fn ascii_prefix2(s: &str) -> (r: String)
    requires
        is_ascii_chars(s@),
        s@.len() >= 2,
    ensures
        r@ == s@.subrange(0, 2),
{
    let ghost bytes = encode_utf8(s@);
    proof {
        is_ascii_chars_encode_utf8(s@);
        encode_utf8_valid_utf8(s@);
        if s@.len() == 2 {
            is_char_boundary_start_end_of_seq(bytes);
        } else {
            assert(bytes[2] == s@[2] as u8);
            assert(!is_continuation_byte(bytes[2]));
            is_char_boundary_iff_not_is_continuation_byte(bytes, 2);
        }
    }
    let (a, _rest) = s.split_at(2);
    proof {
        let sub = s@.subrange(0, 2);
        assert(is_ascii_chars(sub));
        is_ascii_chars_encode_utf8(sub);
        assert(encode_utf8(a@) =~= encode_utf8(sub));
        encode_utf8_decode_utf8(a@);
        encode_utf8_decode_utf8(sub);
    }
    a.to_owned()
}

impl Asset {
    /// A copy of this asset.
    pub fn duplicate(&self) -> (r: Asset)
        ensures
            r == *self,
    {
        Asset { hash: self.hash.clone(), size: self.size }
    }
}

impl Artifact {
    /// A copy of this artifact.
    pub fn duplicate(&self) -> (r: Artifact)
        ensures
            r == *self,
    {
        let path = match &self.path {
            Some(p) => Some(p.clone()),
            None => None,
        };
        Artifact { sha1: self.sha1.clone(), size: self.size, url: self.url.clone(), path }
    }

    /// The artifact of an asset object: its URL and its relative path both
    /// go through the shard directory named by the digest's first two digits.
    pub fn from_asset(asset: Asset) -> (r: Artifact)
        requires
            is_sha1_hex(asset.hash@),
        ensures
            r@ == asset_artifact(asset),
    {
        proof {
            lemma_hex_is_plain(asset.hash@);
            lemma_hex_is_plain(asset.hash@.subrange(0, 2));
        }
        let shard = ascii_prefix2(asset.hash.as_str());
        let url = url_with_segments(RESOURCE_URL, shard.as_str(), asset.hash.as_str());
        let mut path = String::from_str(RESOURCE_PATH);
        path.append(shard.as_str());
        path.append("/");
        path.append(asset.hash.as_str());
        Artifact { sha1: asset.hash, size: asset.size, url, path: Some(path) }
    }
}

impl Resource {
    /// The resource of an asset object: named by its digest, with the one
    /// artifact that the digest addresses.
    pub fn from_asset(asset: Asset) -> (r: Resource)
        requires
            is_sha1_hex(asset.hash@),
        ensures
            r@ == asset_resource(asset),
    {
        let name = asset.hash.clone();
        let artifact = Artifact::from_asset(asset);
        let artifacts = vec![artifact];
        assert(artifact_views(artifacts@) =~= seq![artifact@]);
        Resource { resource_type: ResourceType::Asset, name, artifacts }
    }
}

} // verus!
