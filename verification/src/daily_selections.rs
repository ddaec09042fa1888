//! The daily publication: one manifest of the candidate runs that the day's
//! screens show, category by category, and the provenance of each selection.
use vstd::prelude::*;

use crate::text::{decimal, decimal_text, owned, text_eq};

verus! {

pub open spec fn selection_status_spec(category: Seq<char>) -> Seq<char> {
    if category == "OVER_25"@ || category == "BTTS_YES"@ {
        "DAILY_RANKED"@
    } else if category == "HIGH_CONFIDENCE"@ {
        "HIGH_CONFIDENCE"@
    } else if category == "COMPOUND"@ {
        "KATLAMA_ELIGIBLE"@
    } else {
        "STRICT_QUALIFIED"@
    }
}

/// How a category's selections were chosen: the daily goal pools are
/// ranked, the others pass a strict policy.
pub fn selection_status(category: &str) -> (r: &'static str)
    ensures
        r@ == selection_status_spec(category@),
{
    if text_eq(category, "OVER_25") || text_eq(category, "BTTS_YES") {
        "DAILY_RANKED"
    } else if text_eq(category, "HIGH_CONFIDENCE") {
        "HIGH_CONFIDENCE"
    } else if text_eq(category, "COMPOUND") {
        "KATLAMA_ELIGIBLE"
    } else {
        "STRICT_QUALIFIED"
    }
}

pub open spec fn source_status_spec(category: Seq<char>, source_policy_version: Seq<char>) -> Seq<char> {
    if (category == "OVER_25"@ || category == "BTTS_YES"@) && source_policy_version == "candidate_policy_v1"@ {
        "STRICT_QUALIFIED"@
    } else {
        selection_status_spec(category)
    }
}

/// The selection status shown for a published selection: goal selections
/// frozen under the former strict policy keep that provenance.
pub fn source_selection_status(category: &str, source_policy_version: &str) -> (r: &'static str)
    ensures
        r@ == source_status_spec(category@, source_policy_version@),
{
    if (text_eq(category, "OVER_25") || text_eq(category, "BTTS_YES")) && text_eq(
        source_policy_version,
        "candidate_policy_v1",
    ) {
        "STRICT_QUALIFIED"
    } else {
        selection_status(category)
    }
}

/// Whether a selection with this status passed a strict policy.
pub fn strict_qualified(status: &str) -> (r: bool)
    ensures
        r == (status@ != "DAILY_RANKED"@),
{
    !text_eq(status, "DAILY_RANKED")
}

/// The runs that make up a day's publication. The category runs are listed
/// by category name in ascending order.
#[derive(Debug)]
pub struct Publication {
    pub id: String,
    pub business_date: String,
    pub candidate_run_id: i64,
    pub category_run_ids: Vec<(String, i64)>,
}

/// No run can be published for the day.
#[derive(Clone, Copy, Debug, PartialEq, Eq, Structural)]
pub enum PublicationError {
    NoCandidateRun,
}

impl PublicationError {
    pub fn as_str(&self) -> (r: &'static str)
        ensures
            r@ == "no candidate run"@,
    {
        "no candidate run"
    }
}

/// The category names in ascending order.
pub open spec fn sorted_categories() -> Seq<Seq<char>> {
    seq!["BTTS_YES"@, "COMPOUND"@, "CORNERS"@, "HIGH_CONFIDENCE"@, "OVER_25"@, "OVER_35"@, "SURPRISE"@]
}

pub open spec fn publication_id_spec(date: Seq<char>, base: i64, btts: i64) -> Seq<char> {
    date + ":base:"@ + decimal_text(base) + ":btts:"@ + decimal_text(btts)
}

/// The manifest of a day: the base run (or the BTTS run when there is no
/// base run) serves every category, except that a BTTS run, when there is
/// one, serves the BTTS category.
pub fn publication(date: &str, base: Option<i64>, btts: Option<i64>) -> (r: Result<Publication, PublicationError>)
    ensures
        (base is None && btts is None) <==> r is Err,
        r matches Ok(p) ==> {
            let run = match base {
                Some(b) => b,
                None => btts->0,
            };
            &&& p.candidate_run_id == run
            &&& p.business_date@ == date@
            &&& p.id@ == publication_id_spec(
                date@,
                run,
                match btts {
                    Some(b) => b,
                    None => run,
                },
            )
            &&& p.category_run_ids@.len() == 7
            &&& forall|i: int|
                0 <= i < 7 ==> {
                    &&& (#[trigger] p.category_run_ids@[i]).0@ == sorted_categories()[i]
                    &&& p.category_run_ids@[i].1 == (if i == 0 && btts is Some {
                        btts->0
                    } else {
                        run
                    })
                }
        },
{
    let run = match base {
        Some(b) => b,
        None => match btts {
            Some(b) => b,
            None => return Err(PublicationError::NoCandidateRun),
        },
    };
    let btts_run = match btts {
        Some(b) => b,
        None => run,
    };
    let mut id = owned(date);
    id.append(":base:");
    let run_text = decimal(run);
    id.append(run_text.as_str());
    id.append(":btts:");
    let btts_text = decimal(btts_run);
    id.append(btts_text.as_str());
    proof {
        assert(id@ =~= publication_id_spec(date@, run, btts_run));
    }
    let mut category_run_ids: Vec<(String, i64)> = Vec::new();
    category_run_ids.push((owned("BTTS_YES"), btts_run));
    category_run_ids.push((owned("COMPOUND"), run));
    category_run_ids.push((owned("CORNERS"), run));
    category_run_ids.push((owned("HIGH_CONFIDENCE"), run));
    category_run_ids.push((owned("OVER_25"), run));
    category_run_ids.push((owned("OVER_35"), run));
    category_run_ids.push((owned("SURPRISE"), run));
    Ok(Publication { id, business_date: owned(date), candidate_run_id: run, category_run_ids })
}

} // verus!
