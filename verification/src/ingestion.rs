//! Imported historical matches and statistics.
use vstd::prelude::*;

verus! {

/// Match statistics as imported; every figure may be missing.
#[derive(Clone, Copy, Debug, Default)]
pub struct ImportedStatistics {
    pub home_shots: Option<i64>,
    pub away_shots: Option<i64>,
    pub home_shots_on_target: Option<i64>,
    pub away_shots_on_target: Option<i64>,
    pub home_corners: Option<i64>,
    pub away_corners: Option<i64>,
    pub home_fouls: Option<i64>,
    pub away_fouls: Option<i64>,
    pub home_yellow_cards: Option<i64>,
    pub away_yellow_cards: Option<i64>,
    pub home_red_cards: Option<i64>,
    pub away_red_cards: Option<i64>,
}

impl ImportedStatistics {
    /// The figures, in a fixed order.
    pub open spec fn figures(self) -> Seq<Option<i64>> {
        seq![
            self.home_shots,
            self.away_shots,
            self.home_shots_on_target,
            self.away_shots_on_target,
            self.home_corners,
            self.away_corners,
            self.home_fouls,
            self.away_fouls,
            self.home_yellow_cards,
            self.away_yellow_cards,
            self.home_red_cards,
            self.away_red_cards,
        ]
    }

    /// Whether at least one figure is present; statistics without any figure
    /// are not stored.
    pub fn has_any_value(&self) -> (r: bool)
        ensures
            r == exists|i: int| 0 <= i < 12 && (#[trigger] self.figures()[i]) is Some,
    {
        let r = self.home_shots.is_some() || self.away_shots.is_some() || self.home_shots_on_target.is_some()
            || self.away_shots_on_target.is_some() || self.home_corners.is_some() || self.away_corners.is_some()
            || self.home_fouls.is_some() || self.away_fouls.is_some() || self.home_yellow_cards.is_some()
            || self.away_yellow_cards.is_some() || self.home_red_cards.is_some() || self.away_red_cards.is_some();
        proof {
            let f = self.figures();
            if r {
                if self.home_shots.is_some() { assert(f[0] is Some); }
                else if self.away_shots.is_some() { assert(f[1] is Some); }
                else if self.home_shots_on_target.is_some() { assert(f[2] is Some); }
                else if self.away_shots_on_target.is_some() { assert(f[3] is Some); }
                else if self.home_corners.is_some() { assert(f[4] is Some); }
                else if self.away_corners.is_some() { assert(f[5] is Some); }
                else if self.home_fouls.is_some() { assert(f[6] is Some); }
                else if self.away_fouls.is_some() { assert(f[7] is Some); }
                else if self.home_yellow_cards.is_some() { assert(f[8] is Some); }
                else if self.away_yellow_cards.is_some() { assert(f[9] is Some); }
                else if self.home_red_cards.is_some() { assert(f[10] is Some); }
                else { assert(f[11] is Some); }
            }
        }
        r
    }

    /// Statistics re-imported over stored ones, as a value.
    pub open spec fn merged_spec(self, stored: ImportedStatistics) -> ImportedStatistics {
        ImportedStatistics {
            home_shots: figure_over(self.home_shots, stored.home_shots),
            away_shots: figure_over(self.away_shots, stored.away_shots),
            home_shots_on_target: figure_over(self.home_shots_on_target, stored.home_shots_on_target),
            away_shots_on_target: figure_over(self.away_shots_on_target, stored.away_shots_on_target),
            home_corners: figure_over(self.home_corners, stored.home_corners),
            away_corners: figure_over(self.away_corners, stored.away_corners),
            home_fouls: figure_over(self.home_fouls, stored.home_fouls),
            away_fouls: figure_over(self.away_fouls, stored.away_fouls),
            home_yellow_cards: figure_over(self.home_yellow_cards, stored.home_yellow_cards),
            away_yellow_cards: figure_over(self.away_yellow_cards, stored.away_yellow_cards),
            home_red_cards: figure_over(self.home_red_cards, stored.home_red_cards),
            away_red_cards: figure_over(self.away_red_cards, stored.away_red_cards),
        }
    }

    /// Statistics re-imported over stored ones: every figure of the import
    /// replaces the stored one; a figure missing from the import keeps the
    /// stored value.
    pub fn merged_over(&self, stored: &ImportedStatistics) -> (r: ImportedStatistics)
        ensures
            r == self.merged_spec(*stored),
    {
        ImportedStatistics {
            home_shots: merge_figure(self.home_shots, stored.home_shots),
            away_shots: merge_figure(self.away_shots, stored.away_shots),
            home_shots_on_target: merge_figure(self.home_shots_on_target, stored.home_shots_on_target),
            away_shots_on_target: merge_figure(self.away_shots_on_target, stored.away_shots_on_target),
            home_corners: merge_figure(self.home_corners, stored.home_corners),
            away_corners: merge_figure(self.away_corners, stored.away_corners),
            home_fouls: merge_figure(self.home_fouls, stored.home_fouls),
            away_fouls: merge_figure(self.away_fouls, stored.away_fouls),
            home_yellow_cards: merge_figure(self.home_yellow_cards, stored.home_yellow_cards),
            away_yellow_cards: merge_figure(self.away_yellow_cards, stored.away_yellow_cards),
            home_red_cards: merge_figure(self.home_red_cards, stored.home_red_cards),
            away_red_cards: merge_figure(self.away_red_cards, stored.away_red_cards),
        }
    }
}

/// A figure of a new import over a stored figure: the new one wins when present.
pub open spec fn figure_over(new: Option<i64>, old: Option<i64>) -> Option<i64> {
    match new {
        Some(v) => Some(v),
        None => old,
    }
}

fn merge_figure(new: Option<i64>, old: Option<i64>) -> (r: Option<i64>)
    ensures
        r == figure_over(new, old),
{
    match new {
        Some(v) => Some(v),
        None => old,
    }
}

/// Whether an import stores a statistics row, and whether that row is new:
/// `None` when the import holds no figure, else `Some(true)` when no row
/// existed for the match.
pub fn statistics_upsert_outcome(statistics: &ImportedStatistics, row_exists: bool) -> (r: Option<bool>)
    ensures
        r == (if exists|i: int| 0 <= i < 12 && (#[trigger] statistics.figures()[i]) is Some {
            Some(!row_exists)
        } else {
            None::<bool>
        }),
{
    if !statistics.has_any_value() {
        return None;
    }
    Some(!row_exists)
}

/// Re-importing the same statistics changes nothing: merging an import
/// over a row that already holds it gives that row back.
pub proof fn law_statistics_merge_idempotent(import: ImportedStatistics, stored: ImportedStatistics)
    ensures
        import.merged_spec(import.merged_spec(stored)) == import.merged_spec(stored),
{
}

/// A merge never loses a figure: every figure present in the stored row or
/// in the import is present afterwards.
pub proof fn law_statistics_merge_keeps_figures(import: ImportedStatistics, stored: ImportedStatistics)
    ensures
        forall|i: int| 0 <= i < 12 ==> (stored.figures()[i] is Some || import.figures()[i] is Some)
            ==> (#[trigger] import.merged_spec(stored).figures()[i]) is Some,
{
}

/// A historical match as read from a provider file.
pub struct ImportedMatch<'a> {
    pub competition_id: i64,
    pub season: &'a str,
    pub home_team_id: i64,
    pub away_team_id: i64,
    pub kickoff_at: &'a str,
    pub scheduled_local_date: &'a str,
    pub kickoff_time_known: bool,
    pub status: &'a str,
    pub final_home_goals: Option<i64>,
    pub final_away_goals: Option<i64>,
    pub halftime_home_goals: Option<i64>,
    pub halftime_away_goals: Option<i64>,
}

/// An identity resolved against the canonical tables.
pub struct Resolution {
    pub id: i64,
    pub created: bool,
}

/// The outcome of inserting or updating a match.
pub struct MatchUpsert {
    pub match_id: i64,
    pub inserted: bool,
}

} // verus!
