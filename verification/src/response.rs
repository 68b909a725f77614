//! Bodies of the API answers.
use vstd::prelude::*;

use crate::types::SizeResult;

verus! {

/// 200: the result is ready.
pub struct ReadyResponse {
    pub status: &'static str,
    pub result: SizeResult,
}

/// 202: the analysis is queued or running.
pub struct QueuedResponse {
    pub status: &'static str,
    pub name: String,
    pub version: String,
    pub retry_after: u32,
}

/// 422: the analysis failed.
pub struct FailedResponse {
    pub status: &'static str,
    pub name: String,
    pub version: String,
    pub error: String,
}

/// The subset of a result that the Bundlephobia-compatible endpoint answers.
pub struct BundlephobiaResponse {
    pub name: String,
    pub version: String,
    pub size: u64,
    pub gzip: u64,
}

/// The Bundlephobia view of a result: name, version, size and gzip size.
pub open spec fn bundlephobia_of(r: SizeResult) -> BundlephobiaResponse {
    BundlephobiaResponse { name: r.name, version: r.version, size: r.size, gzip: r.gzip }
}

impl From<SizeResult> for BundlephobiaResponse {
    fn from(r: SizeResult) -> (b: Self) {
        BundlephobiaResponse { name: r.name, version: r.version, size: r.size, gzip: r.gzip }
    }
}

impl vstd::std_specs::convert::FromSpecImpl<SizeResult> for BundlephobiaResponse {
    open spec fn obeys_from_spec() -> bool {
        true
    }

    open spec fn from_spec(r: SizeResult) -> Self {
        bundlephobia_of(r)
    }
}

} // verus!
