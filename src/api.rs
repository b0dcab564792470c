use vstd::prelude::*;

verus! {

/// One application as the App Store lookup service describes it.
#[derive(Debug, Clone)]
pub struct AppInfo {
    pub artist_id: u64,
    pub artist_name: String,
    pub artwork_url_512: String,
}

/// The body of an App Store lookup answer.
#[derive(Debug, Clone)]
pub struct ApiResponse {
    pub result_count: usize,
    pub results: Vec<AppInfo>,
}

} // verus!
