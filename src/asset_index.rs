//! Asset indexes and their resolution into content-addressed resources.

use crate::resource::{
    asset_resource, is_sha1_digest, is_sha1_hex, views, Asset, Resource, ResolutionError,
    Resources,
};
use crate::version::OSName;
use vstd::prelude::*;

verus! {

/// The objects of an asset index, each under its asset name.
#[derive(Debug, Clone)]
pub struct AssetIndex {
    pub objects: Vec<(String, Asset)>,
}

impl AssetIndex {
    /// Its objects form a map: every asset name occurs once.
    pub open spec fn wf(&self) -> bool {
        forall|i: int, j: int|
            0 <= i < self.objects@.len() && 0 <= j < self.objects@.len() && i != j
                ==> #[trigger] self.objects@[i].0@ != #[trigger] self.objects@[j].0@
    }
}

/// Every object of the index has a well-formed digest.
pub open spec fn index_digests_valid(objects: Seq<(String, Asset)>) -> bool {
    forall|i: int| 0 <= i < objects.len() ==> is_sha1_hex(#[trigger] objects[i].1.hash@)
}

/// One resource per object, in the order of the index.
pub open spec fn index_resources(objects: Seq<(String, Asset)>) -> Seq<crate::resource::ResourceView> {
    objects.map_values(|e: (String, Asset)| asset_resource(e.1))
}

impl AssetIndex {
    /// One asset resource per object, named by the object's digest. Fails on
    /// the first object whose digest is not 40 hex digits.
    pub fn resolve(&self) -> (r: Result<Vec<Resource>, ResolutionError>)
        ensures
            r is Ok <==> index_digests_valid(self.objects@),
            r matches Ok(rs) ==> views(rs@) == index_resources(self.objects@),
            r matches Err(ResolutionError::InvalidDigest { name }) ==> exists|i: int|
                0 <= i < self.objects@.len() && !is_sha1_hex(self.objects@[i].1.hash@)
                    && #[trigger] self.objects@[i].0@ == name@,
            !(r matches Err(ResolutionError::MissingClassifier { .. })),
    {
        let mut out: Vec<Resource> = Vec::new();
        let mut i: usize = 0;
        while i < self.objects.len()
            invariant
                i <= self.objects@.len(),
                index_digests_valid(self.objects@.subrange(0, i as int)),
                views(out@) == index_resources(self.objects@.subrange(0, i as int)),
            decreases self.objects@.len() - i,
        {
            let entry = &self.objects[i];
            if !is_sha1_digest(entry.1.hash.as_str()) {
                let name = entry.0.clone();
                assert(self.objects@[i as int].0@ == name@);
                return Err(ResolutionError::InvalidDigest { name });
            }
            let res = Resource::from_asset(entry.1.duplicate());
            let ghost before = out@;
            out.push(res);
            assert(views(out@) =~= views(before).push(res@));
            assert(self.objects@.subrange(0, i + 1) =~= self.objects@.subrange(0, i as int).push(
                self.objects@[i as int],
            ));
            i = i + 1;
        }
        assert(self.objects@.subrange(0, self.objects@.len() as int) =~= self.objects@);
        Ok(out)
    }
}

impl Resources for AssetIndex {
    fn resources(&self, _os: OSName) -> (r: Result<Vec<Resource>, ResolutionError>)
        ensures
            r is Ok <==> index_digests_valid(self.objects@),
            r matches Ok(rs) ==> views(rs@) == index_resources(self.objects@),
            r matches Err(ResolutionError::InvalidDigest { name }) ==> exists|i: int|
                0 <= i < self.objects@.len() && !is_sha1_hex(self.objects@[i].1.hash@)
                    && #[trigger] self.objects@[i].0@ == name@,
            !(r matches Err(ResolutionError::MissingClassifier { .. })),
    {
        self.resolve()
    }
}

} // verus!
