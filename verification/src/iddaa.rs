//! The live bulletin: the inputs it is imported from, how a competition name
//! and its resolution are kept, and what the bulletin holds.
use vstd::prelude::*;

use crate::text::{text_eq, trim, trimmed};

verus! {

/// A competition as the bulletin names it.
#[derive(Clone, Debug)]
pub struct CompetitionInput<'a> {
    pub external_id: &'a str,
    pub name: Option<&'a str>,
    pub country: Option<&'a str>,
    pub season: Option<&'a str>,
}

/// An identity resolved against the canonical tables.
#[derive(Clone, Copy, Debug)]
pub struct Resolution {
    pub id: i64,
    pub created: bool,
}

/// An event of the bulletin with its resolved identities.
#[derive(Clone, Debug)]
pub struct MatchInput<'a> {
    pub external_event_id: &'a str,
    pub competition_id: i64,
    pub season: &'a str,
    pub home_team_id: i64,
    pub away_team_id: i64,
    pub kickoff_at: &'a str,
    pub local_date: &'a str,
}

/// An upcoming match of the bulletin.
#[derive(Clone, Debug)]
pub struct UpcomingMatch {
    pub match_id: i64,
    pub provider_event_id: String,
    pub competition_id: i64,
    pub competition: String,
    pub kickoff_at: String,
    pub home_team_id: i64,
    pub home_team: String,
    pub away_team_id: i64,
    pub away_team: String,
    pub available_markets: i64,
}

/// What the bulletin holds.
#[derive(Clone, Debug)]
pub struct BulletinStatus {
    pub last_successful_refresh: Option<String>,
    pub upcoming_match_count: i64,
    pub competition_count: i64,
    pub team_count: i64,
    pub latest_odds_snapshot_time: Option<String>,
    pub odds_snapshot_count: i64,
    pub unresolved_competition_count: i64,
}

/// The name a new competition is created under: the bulletin's name without
/// surrounding white space, when anything is left of it.
pub open spec fn usable_name_spec(name: Option<Seq<char>>) -> Option<Seq<char>> {
    match name {
        Some(n) => if trimmed(n).len() > 0 { Some(trimmed(n)) } else { None },
        None => None,
    }
}

pub fn usable_competition_name<'a>(name: Option<&'a str>) -> (r: Option<&'a str>)
    ensures
        (match r {
            Some(x) => Some(x@),
            None => None,
        }) == usable_name_spec(
            match name {
                Some(n) => Some(n@),
                None => None,
            },
        ),
{
    match name {
        Some(n) => {
            let t = trim(n);
            if t.unicode_len() > 0 {
                Some(t)
            } else {
                None
            }
        },
        None => None,
    }
}

/// The resolution a competition's metadata keeps: once resolved, a
/// competition stays resolved.
pub fn resolution_status_after(stored: &str, resolved_now: bool) -> (r: &str)
    ensures
        r@ == (if resolved_now { "resolved"@ } else { stored@ }),
{
    if resolved_now {
        "resolved"
    } else {
        stored
    }
}

/// A new odds observation is stored only when it differs from the latest one
/// of the same selection: the odds are compared as their bits.
pub fn odds_changed(latest: Option<(u64, Option<u64>)>, odd: u64, alternative: Option<u64>) -> (r: bool)
    ensures
        r == (latest != Some((odd, alternative))),
{
    match latest {
        Some((o, a)) => {
            let same_alternative = match (a, alternative) {
                (Some(x), Some(y)) => x == y,
                (None, None) => true,
                _ => false,
            };
            !(o == odd && same_alternative)
        },
        None => true,
    }
}

} // verus!
