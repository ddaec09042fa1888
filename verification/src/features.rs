//! Pre-match features and training labels: which history a match may use,
//! the tallies of a team's recent results, and the labels of a finished match.
use vstd::prelude::*;

use crate::clock::{elapsed_whole_seconds, parse_rfc3339, rfc3339_instant, whole_seconds_between, Instant};
use crate::text::{decimal, decimal_text, owned, text_eq};

verus! {

pub const FEATURE_ENGINE_VERSION: &'static str = "fe_v1";

pub const LABEL_VERSION: &'static str = "label_v1";

/// The fewest matches from which an average or a rate is reported.
pub const MIN_SAMPLE: usize = 3;

pub const STRONG_SAMPLE: usize = 5;

/// The labels of a finished match.
#[derive(Debug)]
pub struct TrainingLabel {
    pub match_id: i64,
    pub match_result: String,
    pub total_goals: i64,
    pub over_1_5: bool,
    pub over_2_5: bool,
    pub over_3_5: bool,
    pub btts: bool,
    pub home_over_0_5: bool,
    pub home_over_1_5: bool,
    pub away_over_0_5: bool,
    pub away_over_1_5: bool,
    pub total_corners: Option<i64>,
    /// `over_N_5` for the corner lines, by key in ascending text order.
    pub corner_thresholds: Option<Vec<(String, bool)>>,
    pub total_yellow_cards: Option<i64>,
    /// `over_N_5` for the card lines, by key in ascending text order.
    pub card_thresholds: Option<Vec<(String, bool)>>,
}

/// The corner lines, in the ascending text order of their keys.
pub open spec fn corner_lines() -> Seq<i64> {
    seq![10i64, 11i64, 7i64, 8i64, 9i64]
}

/// The card lines, in the ascending text order of their keys.
pub open spec fn card_lines() -> Seq<i64> {
    seq![2i64, 3i64, 4i64, 5i64, 6i64]
}

/// The key of the threshold above a whole number.
pub open spec fn threshold_key(line: i64) -> Seq<char> {
    "over_"@ + decimal_text(line) + "_5"@
}

/// Named flags with their names as texts.
pub open spec fn flag_texts(v: Seq<(String, bool)>) -> Seq<(Seq<char>, bool)> {
    v.map_values(|e: (String, bool)| (e.0@, e.1))
}

/// The thresholds of a total as (key, total above the line), line by line.
pub open spec fn thresholds_spec(total: i64, lines: Seq<i64>) -> Seq<(Seq<char>, bool)> {
    lines.map_values(|line: i64| (threshold_key(line), total > line))
}

fn thresholds(total: i64, lines: &[i64; 5]) -> (r: Vec<(String, bool)>)
    ensures
        flag_texts(r@) == thresholds_spec(total, lines@),
{
    let mut out: Vec<(String, bool)> = Vec::new();
    let mut i: usize = 0;
    while i < 5
        invariant
            i <= 5,
            lines@.len() == 5,
            out@.len() == i,
            flag_texts(out@) == thresholds_spec(total, lines@.subrange(0, i as int)),
        decreases 5 - i,
    {
        let line = lines[i];
        let mut key = owned("over_");
        let digits = decimal(line);
        key.append(digits.as_str());
        key.append("_5");
        assert(key@ =~= threshold_key(line));
        let ghost before = out@;
        let ghost key_view = key@;
        out.push((key, total > line));
        proof {
            let now = flag_texts(out@);
            let want = thresholds_spec(total, lines@.subrange(0, i as int + 1));
            let had = thresholds_spec(total, lines@.subrange(0, i as int));
            assert(flag_texts(before) == had);
            assert forall|k: int| 0 <= k < i implies now[k] == want[k] by {
                assert(out@[k] == before[k]);
                assert(had[k] == want[k]);
            }
            assert(out@[i as int].0@ == key_view);
            assert(line == lines@[i as int]);
            assert(lines@.subrange(0, i as int + 1)[i as int] == line);
            assert(now[i as int] == want[i as int]);
            assert(now =~= want);
        }
        i = i + 1;
    }
    proof {
        assert(lines@.subrange(0, 5) =~= lines@);
    }
    out
}

/// The sum of a pair of figures when both are present.
pub open spec fn pair_total(a: Option<i64>, b: Option<i64>) -> Option<i64> {
    match (a, b) {
        (Some(x), Some(y)) => Some((x + y) as i64),
        _ => None,
    }
}

pub open spec fn match_result_spec(home_goals: i64, away_goals: i64) -> Seq<char> {
    if home_goals > away_goals {
        "HOME"@
    } else if home_goals == away_goals {
        "DRAW"@
    } else {
        "AWAY"@
    }
}

/// The figures a label is made from, as stored for a match.
#[derive(Clone, Debug)]
pub struct LabelSource {
    pub status: String,
    pub home_goals: Option<i64>,
    pub away_goals: Option<i64>,
    pub home_corners: Option<i64>,
    pub away_corners: Option<i64>,
    pub home_yellow_cards: Option<i64>,
    pub away_yellow_cards: Option<i64>,
}

impl LabelSource {
    /// Every figure is a count that sums without overflow.
    pub open spec fn wf(self) -> bool {
        &&& (self.home_goals matches Some(h) ==> 0 <= h <= i32::MAX)
        &&& (self.away_goals matches Some(a) ==> 0 <= a <= i32::MAX)
        &&& (self.home_corners matches Some(h) ==> 0 <= h <= i32::MAX)
        &&& (self.away_corners matches Some(a) ==> 0 <= a <= i32::MAX)
        &&& (self.home_yellow_cards matches Some(h) ==> 0 <= h <= i32::MAX)
        &&& (self.away_yellow_cards matches Some(a) ==> 0 <= a <= i32::MAX)
    }
}

/// The labels of a match: none unless it is finished with a final score;
/// corner and card labels only where both teams' figures are known.
pub fn training_label(match_id: i64, source: &LabelSource) -> (r: Option<TrainingLabel>)
    requires
        source.wf(),
    ensures
        r is Some <==> (source.status@ == "finished"@ && source.home_goals is Some && source.away_goals is Some),
        r matches Some(l) ==> {
            let h = source.home_goals->0;
            let a = source.away_goals->0;
            let corners = pair_total(source.home_corners, source.away_corners);
            let yellow = pair_total(source.home_yellow_cards, source.away_yellow_cards);
            &&& l.match_id == match_id
            &&& l.match_result@ == match_result_spec(h, a)
            &&& l.total_goals == h + a
            &&& l.over_1_5 == (h + a > 1)
            &&& l.over_2_5 == (h + a > 2)
            &&& l.over_3_5 == (h + a > 3)
            &&& l.btts == (h > 0 && a > 0)
            &&& l.home_over_0_5 == (h > 0)
            &&& l.home_over_1_5 == (h > 1)
            &&& l.away_over_0_5 == (a > 0)
            &&& l.away_over_1_5 == (a > 1)
            &&& l.total_corners == corners
            &&& (match l.corner_thresholds {
                Some(t) => corners is Some && flag_texts(t@) == thresholds_spec(
                    corners->0,
                    corner_lines(),
                ),
                None => corners is None,
            })
            &&& l.total_yellow_cards == yellow
            &&& (match l.card_thresholds {
                Some(t) => yellow is Some && flag_texts(t@) == thresholds_spec(
                    yellow->0,
                    card_lines(),
                ),
                None => yellow is None,
            })
        },
{
    let (h, a) = match (source.home_goals, source.away_goals) {
        (Some(h), Some(a)) => (h, a),
        _ => return None,
    };
    if !text_eq(source.status.as_str(), "finished") {
        return None;
    }
    let total = h + a;
    let corners = match (source.home_corners, source.away_corners) {
        (Some(x), Some(y)) => Some(x + y),
        _ => None,
    };
    let yellow = match (source.home_yellow_cards, source.away_yellow_cards) {
        (Some(x), Some(y)) => Some(x + y),
        _ => None,
    };
    let corner_lines_exec: [i64; 5] = [10, 11, 7, 8, 9];
    let card_lines_exec: [i64; 5] = [2, 3, 4, 5, 6];
    proof {
        assert(corner_lines_exec@ =~= corner_lines());
        assert(card_lines_exec@ =~= card_lines());
    }
    let corner_thresholds = match corners {
        Some(v) => Some(thresholds(v, &corner_lines_exec)),
        None => None,
    };
    let card_thresholds = match yellow {
        Some(v) => Some(thresholds(v, &card_lines_exec)),
        None => None,
    };
    let match_result = if h > a {
        owned("HOME")
    } else if h == a {
        owned("DRAW")
    } else {
        owned("AWAY")
    };
    Some(TrainingLabel {
        match_id,
        match_result,
        total_goals: total,
        over_1_5: total > 1,
        over_2_5: total > 2,
        over_3_5: total > 3,
        btts: h > 0 && a > 0,
        home_over_0_5: h > 0,
        home_over_1_5: h > 1,
        away_over_0_5: a > 0,
        away_over_1_5: a > 1,
        total_corners: corners,
        corner_thresholds,
        total_yellow_cards: yellow,
        card_thresholds,
    })
}

/// The goal labels of a match are consistent with one another: a higher
/// total line implies the lower ones, both teams scoring implies each
/// scored, and the result agrees with the score.
pub proof fn law_goal_labels_are_consistent(h: i64, a: i64)
    requires
        0 <= h,
        0 <= a,
    ensures
        (h + a > 3) ==> (h + a > 2),
        (h + a > 2) ==> (h + a > 1),
        (h > 0 && a > 0) ==> (h + a > 1),
        (h > 1) ==> (h > 0),
        (match_result_spec(h, a) == "HOME"@) == (h > a),
        (match_result_spec(h, a) == "AWAY"@) == (h < a),
{
    reveal_strlit("HOME");
    reveal_strlit("DRAW");
    reveal_strlit("AWAY");
    assert("HOME"@[0] != "DRAW"@[0]);
    assert("HOME"@[0] != "AWAY"@[0]);
    assert("AWAY"@[0] != "DRAW"@[0]);
}

/// When a match was played or is to be played, as the history reads it.
#[derive(Clone, Debug)]
pub struct MatchTiming {
    pub id: i64,
    pub kickoff_at: String,
    pub scheduled_local_date: Option<String>,
    pub kickoff_time_known: bool,
}

/// The day number of a calendar date in the form `YYYY-MM-DD`, counted from
/// the first day of the common era, or `None` when the text is not one.
pub uninterp spec fn calendar_day_number(text: Seq<char>) -> Option<i32>;

/// Reads a calendar date with `chrono::NaiveDate::parse_from_str` (`%Y-%m-%d`)
/// and `Datelike::num_days_from_ce`. Trusted: the number is chrono's day
/// count for the date, so that earlier dates have smaller numbers.
#[verifier::external_body]
pub(crate) fn day_number(text: &str) -> (r: Option<i32>)
    ensures
        r == calendar_day_number(text@),
{
    match chrono::NaiveDate::parse_from_str(text, "%Y-%m-%d") {
        Ok(d) => Some(chrono::Datelike::num_days_from_ce(&d)),
        Err(_) => None,
    }
}

/// One instant comes strictly before another on the time line.
pub open spec fn instant_before(a: Instant, b: Instant) -> bool {
    a.seconds < b.seconds || (a.seconds == b.seconds && a.nanos < b.nanos)
}

pub open spec fn date_before(a: Option<String>, b: Option<String>) -> bool {
    match (a, b) {
        (Some(x), Some(y)) => match (calendar_day_number(x@), calendar_day_number(y@)) {
            (Some(p), Some(q)) => p < q,
            _ => false,
        },
        _ => false,
    }
}

/// A finished match may feed the features of a target match only when it is
/// another match and was played strictly before it: by kickoff instant when
/// both kickoff times are known, and by calendar date otherwise.
pub open spec fn eligible_spec(target: MatchTiming, h: MatchTiming) -> bool {
    if h.id == target.id {
        false
    } else if target.kickoff_time_known && h.kickoff_time_known {
        match (rfc3339_instant(h.kickoff_at@), rfc3339_instant(target.kickoff_at@)) {
            (Some(a), Some(b)) => instant_before(a, b),
            _ => false,
        }
    } else {
        date_before(h.scheduled_local_date, target.scheduled_local_date)
    }
}

fn dates_before(a: &Option<String>, b: &Option<String>) -> (r: bool)
    ensures
        r == date_before(*a, *b),
{
    match (a, b) {
        (Some(x), Some(y)) => match (day_number(x.as_str()), day_number(y.as_str())) {
            (Some(p), Some(q)) => p < q,
            _ => false,
        },
        _ => false,
    }
}

pub fn eligible(target: &MatchTiming, h: &MatchTiming) -> (r: bool)
    ensures
        r == eligible_spec(*target, *h),
{
    if h.id == target.id {
        return false;
    }
    if target.kickoff_time_known && h.kickoff_time_known {
        match (parse_rfc3339(h.kickoff_at.as_str()), parse_rfc3339(target.kickoff_at.as_str())) {
            (Some(a), Some(b)) => a.seconds < b.seconds || (a.seconds == b.seconds && a.nanos < b.nanos),
            _ => false,
        }
    } else {
        dates_before(&h.scheduled_local_date, &target.scheduled_local_date)
    }
}

/// No match ever feeds its own features.
pub proof fn law_no_match_feeds_itself(target: MatchTiming)
    ensures
        !eligible_spec(target, target),
{
}

/// History flows one way in time: when one match may feed another, the other
/// never feeds it back, and a match that feeds a target with a known kickoff
/// kicked off strictly before it.
pub proof fn law_history_flows_forward(target: MatchTiming, h: MatchTiming)
    ensures
        eligible_spec(target, h) ==> !eligible_spec(h, target),
        eligible_spec(target, h) && target.kickoff_time_known && h.kickoff_time_known ==> (rfc3339_instant(h.kickoff_at@)
            matches Some(a) && (rfc3339_instant(target.kickoff_at@) matches Some(b) && (a.seconds < b.seconds || (
        a.seconds == b.seconds && a.nanos < b.nanos)))),
        eligible_spec(target, h) ==> h.id != target.id,
{
}

/// A team's results over a window: wins, draws, losses and the counts behind
/// every rate.
#[derive(Clone, Copy, Debug, PartialEq, Eq, Structural)]
pub struct FormTally {
    pub sample_size: usize,
    pub wins: usize,
    pub draws: usize,
    pub losses: usize,
    pub goals_for: i64,
    pub goals_against: i64,
    pub clean_sheets: usize,
    pub failed_to_score: usize,
    pub over_1_5: usize,
    pub over_2_5: usize,
    pub over_3_5: usize,
    pub btts: usize,
}

pub open spec fn one(b: bool) -> nat {
    if b {
        1
    } else {
        0
    }
}

/// The tally of a list of scores (goals for, goals against).
pub open spec fn tally_spec(scores: Seq<(i64, i64)>) -> FormTally
    decreases scores.len(),
{
    if scores.len() == 0 {
        FormTally {
            sample_size: 0,
            wins: 0,
            draws: 0,
            losses: 0,
            goals_for: 0,
            goals_against: 0,
            clean_sheets: 0,
            failed_to_score: 0,
            over_1_5: 0,
            over_2_5: 0,
            over_3_5: 0,
            btts: 0,
        }
    } else {
        let t = tally_spec(scores.drop_last());
        let (f, a) = scores.last();
        FormTally {
            sample_size: (t.sample_size + 1) as usize,
            wins: (t.wins + one(f > a)) as usize,
            draws: (t.draws + one(f == a)) as usize,
            losses: (t.losses + one(f < a)) as usize,
            goals_for: (t.goals_for + f) as i64,
            goals_against: (t.goals_against + a) as i64,
            clean_sheets: (t.clean_sheets + one(a == 0)) as usize,
            failed_to_score: (t.failed_to_score + one(f == 0)) as usize,
            over_1_5: (t.over_1_5 + one(f + a > 1)) as usize,
            over_2_5: (t.over_2_5 + one(f + a > 2)) as usize,
            over_3_5: (t.over_3_5 + one(f + a > 3)) as usize,
            btts: (t.btts + one(f > 0 && a > 0)) as usize,
        }
    }
}

/// Scores small enough to be summed.
pub open spec fn countable_scores(scores: Seq<(i64, i64)>) -> bool {
    &&& scores.len() <= u32::MAX
    &&& forall|i: int| 0 <= i < scores.len() ==> 0 <= (#[trigger] scores[i]).0 <= i32::MAX && 0 <= scores[i].1 <= i32::MAX
}

proof fn lemma_tally_bounds(scores: Seq<(i64, i64)>)
    requires
        countable_scores(scores),
    ensures
        tally_spec(scores).sample_size == scores.len(),
        0 <= tally_spec(scores).goals_for <= scores.len() * (i32::MAX as int),
        0 <= tally_spec(scores).goals_against <= scores.len() * (i32::MAX as int),
        tally_spec(scores).wins <= scores.len(),
        tally_spec(scores).draws <= scores.len(),
        tally_spec(scores).losses <= scores.len(),
        tally_spec(scores).clean_sheets <= scores.len(),
        tally_spec(scores).failed_to_score <= scores.len(),
        tally_spec(scores).over_1_5 <= scores.len(),
        tally_spec(scores).over_2_5 <= scores.len(),
        tally_spec(scores).over_3_5 <= scores.len(),
        tally_spec(scores).btts <= scores.len(),
    decreases scores.len(),
{
    if scores.len() > 0 {
        let rest = scores.drop_last();
        assert forall|i: int| 0 <= i < rest.len() implies 0 <= (#[trigger] rest[i]).0 <= i32::MAX && 0 <= rest[i].1
            <= i32::MAX by {
            assert(rest[i] == scores[i]);
        }
        lemma_tally_bounds(rest);
        assert(0 <= scores.last().0 <= i32::MAX);
        assert(0 <= scores.last().1 <= i32::MAX);
        assert((rest.len() as int) * (i32::MAX as int) + (i32::MAX as int) == (scores.len() as int) * (i32::MAX as int)) by (nonlinear_arith)
            requires
                rest.len() + 1 == scores.len(),
        ;
    }
}

/// Tallies a team's scores over a window.
pub fn form_tally(scores: &Vec<(i64, i64)>) -> (r: FormTally)
    requires
        countable_scores(scores@),
    ensures
        r == tally_spec(scores@),
{
    let n = scores.len();
    let mut t = FormTally {
        sample_size: 0,
        wins: 0,
        draws: 0,
        losses: 0,
        goals_for: 0,
        goals_against: 0,
        clean_sheets: 0,
        failed_to_score: 0,
        over_1_5: 0,
        over_2_5: 0,
        over_3_5: 0,
        btts: 0,
    };
    let mut i: usize = 0;
    while i < n
        invariant
            n == scores@.len(),
            i <= n,
            countable_scores(scores@),
            t == tally_spec(scores@.subrange(0, i as int)),
        decreases n - i,
    {
        let ghost prefix = scores@.subrange(0, i as int + 1);
        proof {
            assert(prefix.drop_last() =~= scores@.subrange(0, i as int));
            assert forall|k: int| 0 <= k < prefix.len() implies 0 <= (#[trigger] prefix[k]).0 <= i32::MAX && 0
                <= prefix[k].1 <= i32::MAX by {
                assert(prefix[k] == scores@[k]);
            }
            lemma_tally_bounds(scores@.subrange(0, i as int));
            assert((i as int) * (i32::MAX as int) <= (u32::MAX as int) * (i32::MAX as int)) by (nonlinear_arith)
                requires
                    i <= u32::MAX,
            ;
        }
        let (f, a) = scores[i];
        t = FormTally {
            sample_size: t.sample_size + 1,
            wins: t.wins + if f > a { 1 } else { 0 },
            draws: t.draws + if f == a { 1 } else { 0 },
            losses: t.losses + if f < a { 1 } else { 0 },
            goals_for: t.goals_for + f,
            goals_against: t.goals_against + a,
            clean_sheets: t.clean_sheets + if a == 0 { 1 } else { 0 },
            failed_to_score: t.failed_to_score + if f == 0 { 1 } else { 0 },
            over_1_5: t.over_1_5 + if f + a > 1 { 1 } else { 0 },
            over_2_5: t.over_2_5 + if f + a > 2 { 1 } else { 0 },
            over_3_5: t.over_3_5 + if f + a > 3 { 1 } else { 0 },
            btts: t.btts + if f > 0 && a > 0 { 1 } else { 0 },
        };
        i = i + 1;
    }
    proof {
        assert(scores@.subrange(0, n as int) =~= scores@);
    }
    t
}

/// Every match of a window is a win, a draw or a loss.
pub proof fn law_results_partition_the_window(scores: Seq<(i64, i64)>)
    requires
        countable_scores(scores),
    ensures
        tally_spec(scores).wins + tally_spec(scores).draws + tally_spec(scores).losses == tally_spec(scores).sample_size,
    decreases scores.len(),
{
    if scores.len() > 0 {
        let rest = scores.drop_last();
        assert forall|i: int| 0 <= i < rest.len() implies 0 <= (#[trigger] rest[i]).0 <= i32::MAX && 0 <= rest[i].1
            <= i32::MAX by {
            assert(rest[i] == scores[i]);
        }
        law_results_partition_the_window(rest);
        lemma_tally_bounds(rest);
    }
}

/// A team's goals in a match it played, seen from its side: (for, against,
/// played at home).
pub fn perspective(home_team: i64, home_goals: i64, away_goals: i64, team: i64) -> (r: (i64, i64, bool))
    ensures
        r == (if home_team == team { (home_goals, away_goals, true) } else { (away_goals, home_goals, false) }),
{
    if home_team == team {
        (home_goals, away_goals, true)
    } else {
        (away_goals, home_goals, false)
    }
}

/// The most recent `n` entries of a history listed oldest first, most recent
/// first.
pub open spec fn recent_spec<T>(items: Seq<T>, n: nat) -> Seq<T> {
    let k = if n < items.len() { n } else { items.len() };
    Seq::new(k, |i: int| items[items.len() - 1 - i])
}

pub fn recent(items: &Vec<(i64, i64)>, n: usize) -> (r: Vec<(i64, i64)>)
    ensures
        r@ == recent_spec(items@, n as nat),
{
    let len = items.len();
    let k = if n < len { n } else { len };
    let mut out: Vec<(i64, i64)> = Vec::new();
    let mut i: usize = 0;
    while i < k
        invariant
            len == items@.len(),
            k <= len,
            i <= k,
            out@.len() == i,
            forall|j: int| 0 <= j < i ==> out@[j] == items@[len - 1 - j],
        decreases k - i,
    {
        out.push(items[len - 1 - i]);
        i = i + 1;
    }
    proof {
        assert(out@ =~= recent_spec(items@, n as nat));
    }
    out
}

/// How many totals are above a line.
pub open spec fn count_above(totals: Seq<i64>, line: i64) -> nat
    decreases totals.len(),
{
    if totals.len() == 0 {
        0
    } else {
        count_above(totals.drop_last(), line) + one(totals.last() > line)
    }
}

pub fn above_count(totals: &Vec<i64>, line: i64) -> (r: usize)
    ensures
        r == count_above(totals@, line),
{
    let n = totals.len();
    let mut count: usize = 0;
    let mut i: usize = 0;
    while i < n
        invariant
            n == totals@.len(),
            i <= n,
            count == count_above(totals@.subrange(0, i as int), line),
            count <= i,
        decreases n - i,
    {
        proof {
            assert(totals@.subrange(0, i as int + 1).drop_last() =~= totals@.subrange(0, i as int));
        }
        if totals[i] > line {
            count = count + 1;
        }
        i = i + 1;
    }
    proof {
        assert(totals@.subrange(0, n as int) =~= totals@);
    }
    count
}

/// A higher line is cleared by no more totals than a lower one.
pub proof fn law_higher_lines_are_rarer(totals: Seq<i64>, low: i64, high: i64)
    requires
        low <= high,
    ensures
        count_above(totals, high) <= count_above(totals, low),
    decreases totals.len(),
{
    if totals.len() > 0 {
        law_higher_lines_are_rarer(totals.drop_last(), low, high);
    }
}

/// Whether a window holds enough matches for its averages and rates.
pub fn reportable(sample_size: usize) -> (r: bool)
    ensures
        r == (sample_size >= MIN_SAMPLE),
{
    sample_size >= MIN_SAMPLE
}

/// Matches of a team played before a target time and no more than `days`
/// whole days before it.
pub open spec fn within_days_spec(times: Seq<Instant>, target: Instant, days: i64) -> nat
    decreases times.len(),
{
    if times.len() == 0 {
        0
    } else {
        within_days_spec(times.drop_last(), target, days) + one(
            instant_before(times.last(), target) && whole_seconds_between(target, times.last()) / 86_400 <= days,
        )
    }
}

pub fn matches_within_days(times: &Vec<Instant>, target: Instant, days: i64) -> (r: usize)
    requires
        target.wf(),
        target.in_calendar_range(),
        forall|i: int| 0 <= i < times@.len() ==> (#[trigger] times@[i]).wf() && times@[i].in_calendar_range(),
    ensures
        r == within_days_spec(times@, target, days),
{
    let n = times.len();
    let mut count: usize = 0;
    let mut i: usize = 0;
    while i < n
        invariant
            n == times@.len(),
            i <= n,
            target.wf(),
            target.in_calendar_range(),
            forall|k: int| 0 <= k < times@.len() ==> (#[trigger] times@[k]).wf() && times@[k].in_calendar_range(),
            count == within_days_spec(times@.subrange(0, i as int), target, days),
            count <= i,
        decreases n - i,
    {
        proof {
            assert(times@.subrange(0, i as int + 1).drop_last() =~= times@.subrange(0, i as int));
        }
        let x = times[i];
        let before = x.seconds < target.seconds || (x.seconds == target.seconds && x.nanos < target.nanos);
        if before {
            let seconds = elapsed_whole_seconds(target, x);
            if seconds / 86_400 <= days {
                count = count + 1;
            }
        }
        i = i + 1;
    }
    proof {
        assert(times@.subrange(0, n as int) =~= times@);
    }
    count
}

/// How far history supports a market.
pub open spec fn market_state_spec(usable_matches: i64, source_available: bool) -> Seq<char> {
    if !source_available {
        "SOURCE_NOT_AVAILABLE"@
    } else if usable_matches >= 10 {
        "SUPPORTED"@
    } else if usable_matches >= 3 {
        "PARTIAL"@
    } else {
        "INSUFFICIENT_HISTORY"@
    }
}

pub fn market_state(usable_matches: i64, source_available: bool) -> (r: &'static str)
    ensures
        r@ == market_state_spec(usable_matches, source_available),
{
    if !source_available {
        "SOURCE_NOT_AVAILABLE"
    } else if usable_matches >= 10 {
        "SUPPORTED"
    } else if usable_matches >= 3 {
        "PARTIAL"
    } else {
        "INSUFFICIENT_HISTORY"
    }
}

} // verus!
