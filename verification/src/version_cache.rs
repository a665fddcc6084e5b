//! The version of the real server, as it is kept between runs.

use vstd::prelude::*;

verus! {

/// Where the version is kept.
pub const CACHE_PATH: &'static str = "/var/cache/redoxide/version.json";

/// The version that was last seen.
#[derive(Debug, Clone)]
pub struct VersionCache {
    pub protocol: i32,
    pub version: String,
}

pub struct CacheView {
    pub protocol: int,
    pub version: Seq<char>,
}

impl View for VersionCache {
    type V = CacheView;

    open spec fn view(&self) -> CacheView {
        CacheView { protocol: self.protocol as int, version: self.version@ }
    }
}

} // verus!
