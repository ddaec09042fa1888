//! The production flow over the current bulletin: what becomes of each
//! upcoming supported match before the daily candidates are generated.
use vstd::prelude::*;

use crate::text::owned;

verus! {

/// What became of one upcoming match.
#[derive(Debug)]
pub struct MatchOutcome {
    pub match_id: i64,
    pub state: String,
    pub reason: Option<String>,
}

/// What the flow does with a match.
#[derive(Clone, Copy, Debug, PartialEq, Eq, Structural)]
pub enum MatchPlan {
    /// The match is outside the model's coverage and is reported as such.
    ReportCoverage,
    /// Its stored base prediction is reused.
    Reuse,
    /// Its features are refreshed and the model is run.
    Infer,
}

/// A match outside the model's support is only reported; a ready match with
/// a stored base prediction keeps it unless history changed; any other match
/// is predicted afresh.
pub fn plan_match(supported: bool, ready: bool, prediction_exists: bool, history_changed: bool) -> (r: MatchPlan)
    ensures
        r == (if !supported {
            MatchPlan::ReportCoverage
        } else if prediction_exists && !history_changed && ready {
            MatchPlan::Reuse
        } else {
            MatchPlan::Infer
        }),
{
    if !supported {
        MatchPlan::ReportCoverage
    } else if prediction_exists && !history_changed && ready {
        MatchPlan::Reuse
    } else {
        MatchPlan::Infer
    }
}

/// The outcome of a match after the flow: its coverage state, reuse, or the
/// result of inference with the error that stopped it.
pub fn match_outcome(match_id: i64, plan: MatchPlan, coverage: &str, inference: &Result<(), String>) -> (r: MatchOutcome)
    ensures
        r.match_id == match_id,
        r.state@ == (match plan {
            MatchPlan::ReportCoverage => coverage@,
            MatchPlan::Reuse => "MODEL_READY_REUSED"@,
            MatchPlan::Infer => if inference is Ok { "MODEL_READY"@ } else { "MODEL_INPUT_MISSING"@ },
        }),
        (match r.reason {
            Some(e) => Some(e@),
            None => None,
        }) == (match (plan, inference) {
            (MatchPlan::Infer, Err(e)) => Some(e@),
            _ => None,
        }),
{
    match plan {
        MatchPlan::ReportCoverage => MatchOutcome { match_id, state: owned(coverage), reason: None },
        MatchPlan::Reuse => MatchOutcome { match_id, state: owned("MODEL_READY_REUSED"), reason: None },
        MatchPlan::Infer => match inference {
            Ok(()) => MatchOutcome { match_id, state: owned("MODEL_READY"), reason: None },
            Err(e) => MatchOutcome { match_id, state: owned("MODEL_INPUT_MISSING"), reason: Some(owned(e.as_str())) },
        },
    }
}

/// The number of coupons with at least one selection.
pub open spec fn usable_spec(selection_counts: Seq<usize>) -> nat
    decreases selection_counts.len(),
{
    if selection_counts.len() == 0 {
        0
    } else {
        usable_spec(selection_counts.drop_last()) + if selection_counts.last() > 0 { 1nat } else { 0nat }
    }
}

pub fn usable_coupons(selection_counts: &Vec<usize>) -> (r: usize)
    ensures
        r == usable_spec(selection_counts@),
{
    let n = selection_counts.len();
    let mut count: usize = 0;
    let mut i: usize = 0;
    while i < n
        invariant
            n == selection_counts@.len(),
            i <= n,
            count == usable_spec(selection_counts@.subrange(0, i as int)),
            count <= i,
        decreases n - i,
    {
        proof {
            assert(selection_counts@.subrange(0, i as int + 1).drop_last() =~= selection_counts@.subrange(0, i as int));
        }
        if selection_counts[i] > 0 {
            count = count + 1;
        }
        i = i + 1;
    }
    proof {
        assert(selection_counts@.subrange(0, n as int) =~= selection_counts@);
    }
    count
}

} // verus!
