//! Candidate runs of the legacy coupon generator.
use vstd::prelude::*;

verus! {

/// A candidate run to be stored.
#[derive(Clone, Debug)]
pub struct NewCandidateRun<'a> {
    pub target_date: &'a str,
    pub coupon_type: &'a str,
    pub generated_at: &'a str,
    pub model_version_id: i64,
    pub status: &'a str,
    pub target_candidate_count: i64,
    pub qualified_candidate_count: i64,
    pub generation_config_json: Option<&'a str>,
}

} // verus!
