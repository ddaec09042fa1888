//! Walk-forward evaluation and calibration: how rows are split into folds and
//! partitions, which market family a market belongs to, and what a market
//! prediction turned out to be.
use vstd::prelude::*;

use crate::coupons::LineKey;
use crate::features::match_result_spec;
use crate::settlement::{outcome_spec, won, MarketLine};
use crate::text::{owned, text_eq};

verus! {

pub const MIN_INITIAL_TRAINING_ROWS: usize = 100;

pub const TEST_WINDOW: usize = 10;

pub const MIN_CALIBRATION_SAMPLES: usize = 20;

pub const MIN_BUCKET_SAMPLE: usize = 20;

pub const MIN_PERFORMANCE_GROUP_SAMPLE: usize = 20;

/// One text occurs in another at a position.
pub open spec fn occurs_at(s: Seq<char>, pattern: Seq<char>, i: int) -> bool {
    0 <= i && i + pattern.len() <= s.len() && s.subrange(i, i + pattern.len()) == pattern
}

/// One text occurs somewhere in another.
pub open spec fn contains_text(s: Seq<char>, pattern: Seq<char>) -> bool {
    exists|i: int| occurs_at(s, pattern, i)
}

/// Whether `pattern` occurs in `s`.
pub fn contains(s: &str, pattern: &str) -> (r: bool)
    ensures
        r == contains_text(s@, pattern@),
{
    let n = s.unicode_len();
    let m = pattern.unicode_len();
    if m > n {
        proof {
            assert forall|i: int| !occurs_at(s@, pattern@, i) by {}
        }
        return false;
    }
    let mut i: usize = 0;
    while i <= n - m
        invariant
            n == s@.len(),
            m == pattern@.len(),
            m <= n,
            i <= n - m + 1,
            forall|k: int| 0 <= k < i ==> !occurs_at(s@, pattern@, k),
        decreases n - m + 1 - i,
    {
        let mut j: usize = 0;
        let mut matched = true;
        while j < m
            invariant
                n == s@.len(),
                m == pattern@.len(),
                i + m <= n,
                j <= m,
                matched == (forall|x: int| 0 <= x < j ==> s@[i + x] == pattern@[x]),
            decreases m - j,
        {
            if s.get_char(i + j) != pattern.get_char(j) {
                matched = false;
            }
            j = j + 1;
        }
        if matched {
            proof {
                assert(s@.subrange(i as int, i + m) =~= pattern@);
                assert(occurs_at(s@, pattern@, i as int));
            }
            return true;
        }
        proof {
            assert(!occurs_at(s@, pattern@, i as int)) by {
                if occurs_at(s@, pattern@, i as int) {
                    assert forall|x: int| 0 <= x < m implies s@[i + x] == pattern@[x] by {
                        assert(s@.subrange(i as int, i + m)[x] == s@[i + x]);
                    }
                }
            }
        }
        i = i + 1;
    }
    proof {
        assert forall|k: int| !occurs_at(s@, pattern@, k) by {
            if 0 <= k && k + m <= n {
                assert(k < i);
            }
        }
    }
    false
}

pub open spec fn family_spec(market: Seq<char>) -> Seq<char> {
    if market == "MATCH_RESULT"@ {
        "MATCH_RESULT"@
    } else if market == "BTTS"@ {
        "BTTS"@
    } else if market == "TOTAL_GOALS"@ {
        "TOTAL_GOALS"@
    } else if contains_text(market, "TOTAL_GOALS"@) {
        "TEAM_TOTAL_GOALS"@
    } else if contains_text(market, "CORNERS"@) {
        if contains_text(market, "TEAM"@) {
            "TEAM_CORNERS"@
        } else {
            "TOTAL_CORNERS"@
        }
    } else if contains_text(market, "CARDS"@) {
        "TOTAL_CARDS"@
    } else {
        "OTHER"@
    }
}

/// The calibration family of a market.
pub fn family(market: &str) -> (r: &'static str)
    ensures
        r@ == family_spec(market@),
{
    if text_eq(market, "MATCH_RESULT") {
        "MATCH_RESULT"
    } else if text_eq(market, "BTTS") {
        "BTTS"
    } else if text_eq(market, "TOTAL_GOALS") {
        "TOTAL_GOALS"
    } else if contains(market, "TOTAL_GOALS") {
        "TEAM_TOTAL_GOALS"
    } else if contains(market, "CORNERS") {
        if contains(market, "TEAM") {
            "TEAM_CORNERS"
        } else {
            "TOTAL_CORNERS"
        }
    } else if contains(market, "CARDS") {
        "TOTAL_CARDS"
    } else {
        "OTHER"
    }
}

/// A walk-forward fold: the model is trained on the rows before `start` and
/// tested on the rows from `start` up to `end`.
#[derive(Clone, Copy, Debug, PartialEq, Eq, Structural)]
pub struct Fold {
    pub start: usize,
    pub end: usize,
}

/// Why no backtest can be run.
#[derive(Clone, Copy, Debug, PartialEq, Eq, Structural)]
pub enum BacktestError {
    InsufficientBacktestData,
}

/// The end of the test window that starts at `start`.
pub open spec fn window_end(start: int, rows: int) -> int {
    if start + TEST_WINDOW <= rows {
        start + TEST_WINDOW
    } else {
        rows
    }
}

/// The folds are consecutive test windows of at most ten rows, starting
/// after the initial training rows and ending at the last row.
pub open spec fn folds_wf(folds: Seq<Fold>, rows: nat) -> bool {
    &&& folds.len() > 0
    &&& folds[0].start == MIN_INITIAL_TRAINING_ROWS
    &&& folds.last().end == rows
    &&& forall|k: int| 0 <= k < folds.len() ==> {
        let f = #[trigger] folds[k];
        &&& f.start < f.end
        &&& f.end == window_end(f.start as int, rows as int)
    }
    &&& forall|k: int| 0 < k < folds.len() ==> #[trigger] chained(folds, k)
}

/// A fold starts where the one before it ends.
pub open spec fn chained(folds: Seq<Fold>, k: int) -> bool {
    folds[k].start == folds[k - 1].end
}

/// Plans the walk-forward folds over rows in chronological order: at least
/// the initial training rows and one test window are needed.
pub fn walk_forward_folds(rows: usize) -> (r: Result<Vec<Fold>, BacktestError>)
    ensures
        r is Err <==> rows < MIN_INITIAL_TRAINING_ROWS + TEST_WINDOW,
        r matches Ok(folds) ==> folds_wf(folds@, rows as nat),
{
    if rows < MIN_INITIAL_TRAINING_ROWS + TEST_WINDOW {
        return Err(BacktestError::InsufficientBacktestData);
    }
    let mut folds: Vec<Fold> = Vec::new();
    let mut start: usize = MIN_INITIAL_TRAINING_ROWS;
    while start < rows
        invariant
            MIN_INITIAL_TRAINING_ROWS + TEST_WINDOW <= rows,
            MIN_INITIAL_TRAINING_ROWS <= start <= rows,
            folds@.len() == 0 ==> start == MIN_INITIAL_TRAINING_ROWS,
            folds@.len() > 0 ==> folds@[0].start == MIN_INITIAL_TRAINING_ROWS,
            folds@.len() > 0 ==> folds@[folds@.len() - 1].end == start,
            forall|k: int| 0 <= k < folds@.len() ==> {
                let f = #[trigger] folds@[k];
                &&& f.start < f.end
                &&& f.end == window_end(f.start as int, rows as int)
            },
            forall|k: int| 0 < k < folds@.len() ==> #[trigger] chained(folds@, k),
        decreases rows - start,
    {
        let end = if rows - start >= TEST_WINDOW { start + TEST_WINDOW } else { rows };
        let ghost old_folds = folds@;
        folds.push(Fold { start, end });
        proof {
            assert(folds@[folds@.len() - 1] == Fold { start, end });
            assert forall|k: int| 0 <= k < old_folds.len() implies #[trigger] folds@[k] == old_folds[k] by {}
            assert forall|k: int| 0 < k < folds@.len() implies #[trigger] chained(folds@, k) by {
                if k < old_folds.len() {
                    assert(chained(old_folds, k));
                }
            }
        }
        start = end;
    }
    Ok(folds)
}

/// Walk-forward evaluation never tests on a row it trained on: every test row
/// of a fold comes after all of that fold's training rows, and each row is
/// tested in exactly one fold.
pub proof fn law_walk_forward_is_out_of_sample(folds: Seq<Fold>, rows: nat, row: int)
    requires
        folds_wf(folds, rows),
        MIN_INITIAL_TRAINING_ROWS <= row < rows,
    ensures
        forall|k: int| 0 <= k < folds.len() && (#[trigger] folds[k]).start <= row < folds[k].end ==> row
            >= folds[k].start,
        exists|k: int| 0 <= k < folds.len() && (#[trigger] folds[k]).start <= row < folds[k].end,
        forall|k: int, l: int|
            0 <= k < l < folds.len() ==> #[trigger] folds[k].end <= #[trigger] folds[l].start,
{
    assert forall|k: int, l: int| 0 <= k < l < folds.len() implies #[trigger] folds[k].end <= #[trigger] folds[l].start by {
        lemma_folds_ordered(folds, rows, k, l);
    }
    lemma_row_in_some_fold(folds, rows, row, folds.len() as int);
}

proof fn lemma_folds_ordered(folds: Seq<Fold>, rows: nat, k: int, l: int)
    requires
        folds_wf(folds, rows),
        0 <= k < l < folds.len(),
    ensures
        folds[k].end <= folds[l].start,
    decreases l - k,
{
    assert(chained(folds, l));
    if k < l - 1 {
        lemma_folds_ordered(folds, rows, k, l - 1);
        assert(folds[l - 1].start < folds[l - 1].end);
    }
}

proof fn lemma_row_in_some_fold(folds: Seq<Fold>, rows: nat, row: int, upto: int)
    requires
        folds_wf(folds, rows),
        0 < upto <= folds.len(),
        MIN_INITIAL_TRAINING_ROWS <= row < folds[upto - 1].end,
    ensures
        exists|k: int| 0 <= k < upto && (#[trigger] folds[k]).start <= row < folds[k].end,
    decreases upto,
{
    let f = folds[upto - 1];
    if f.start <= row {
        assert(folds[upto - 1].start <= row < folds[upto - 1].end);
    } else {
        assert(upto - 1 > 0) by {
            if upto - 1 == 0 {
                assert(folds[0].start == MIN_INITIAL_TRAINING_ROWS);
            }
        }
        assert(chained(folds, upto - 1));
        lemma_row_in_some_fold(folds, rows, row, upto - 1);
        let k = choose|k: int| 0 <= k < upto - 1 && (#[trigger] folds[k]).start <= row < folds[k].end;
        assert(0 <= k < upto && folds[k].start <= row < folds[k].end);
    }
}

/// The distinct values of a list below a value.
pub open spec fn distinct_below(ids: Seq<i64>, x: i64) -> Set<i64> {
    Set::new(|y: i64| ids.contains(y) && y < x)
}

/// The distinct values of a list.
pub open spec fn distinct_ids(ids: Seq<i64>) -> Set<i64> {
    Set::new(|y: i64| ids.contains(y))
}

/// An observation goes to the fitting half when its match is among the first
/// half (rounded down) of the distinct matches in ascending order.
pub open spec fn in_fit_half(ids: Seq<i64>, x: i64) -> bool {
    distinct_below(ids, x).len() < distinct_ids(ids).len() / 2
}

proof fn lemma_distinct_finite(ids: Seq<i64>, x: i64)
    ensures
        distinct_ids(ids).finite(),
        distinct_below(ids, x).finite(),
        distinct_below(ids, x).subset_of(distinct_ids(ids)),
        distinct_ids(ids) == ids.to_set(),
{
    assert(distinct_ids(ids) =~= ids.to_set());
    vstd::seq_lib::seq_to_set_is_finite(ids);
    assert(distinct_below(ids, x).subset_of(distinct_ids(ids)));
    vstd::set_lib::lemma_set_subset_finite(distinct_ids(ids), distinct_below(ids, x));
}

/// Fitting and evaluation split by match in ascending order: every match of
/// the fitting half comes before every match of the evaluation half.
pub proof fn law_fit_half_precedes_evaluation(ids: Seq<i64>, a: i64, b: i64)
    requires
        ids.contains(a),
        ids.contains(b),
        in_fit_half(ids, a),
        !in_fit_half(ids, b),
    ensures
        a < b,
{
    lemma_distinct_finite(ids, a);
    lemma_distinct_finite(ids, b);
    if b <= a {
        assert(distinct_below(ids, b).subset_of(distinct_below(ids, a)));
        vstd::set_lib::lemma_len_subset(distinct_below(ids, b), distinct_below(ids, a));
    }
}

/// The distinct values of a list below a bound, or all of them.
pub(crate) fn distinct_values(ids: &Vec<i64>, bound: Option<i64>) -> (r: Vec<i64>)
    ensures
        r@.no_duplicates(),
        forall|z: i64| r@.contains(z) <==> (ids@.contains(z) && (bound matches Some(x) ==> z < x)),
{
    let mut seen: Vec<i64> = Vec::new();
    let n = ids.len();
    let mut i: usize = 0;
    while i < n
        invariant
            n == ids@.len(),
            i <= n,
            seen@.no_duplicates(),
            forall|z: i64|
                seen@.contains(z) <==> ((exists|w: int| 0 <= w < i && ids@[w] == z) && (bound matches Some(x) ==> z
                    < x)),
        decreases n - i,
    {
        let y = ids[i];
        let wanted = match bound {
            Some(x) => y < x,
            None => true,
        };
        let ghost before = seen@;
        if wanted {
            let mut found = false;
            let mut k: usize = 0;
            while k < seen.len()
                invariant
                    k <= seen@.len(),
                    found == (exists|w: int| 0 <= w < k && seen@[w] == y),
                decreases seen@.len() - k,
            {
                if seen[k] == y {
                    found = true;
                }
                k = k + 1;
            }
            if !found {
                let ghost old_seen = seen@;
                seen.push(y);
                proof {
                    assert forall|p: int, q: int| 0 <= p < seen@.len() && 0 <= q < seen@.len() && p != q implies seen@[p]
                        != seen@[q] by {
                        if p < old_seen.len() && q < old_seen.len() {
                            assert(old_seen[p] != old_seen[q]);
                        } else if p == old_seen.len() {
                            assert(seen@[q] == old_seen[q]);
                        } else {
                            assert(seen@[p] == old_seen[p]);
                        }
                    }
                    assert forall|z: i64| seen@.contains(z) <==> (old_seen.contains(z) || z == y) by {
                        if seen@.contains(z) {
                            let w = choose|w: int| 0 <= w < seen@.len() && seen@[w] == z;
                            if w < old_seen.len() {
                                assert(old_seen[w] == z);
                            }
                        }
                        if old_seen.contains(z) {
                            let w = choose|w: int| 0 <= w < old_seen.len() && old_seen[w] == z;
                            assert(seen@[w] == z);
                        }
                        if z == y {
                            assert(seen@[old_seen.len() as int] == y);
                        }
                    }
                }
            } else {
                proof {
                    let w = choose|w: int| 0 <= w < seen@.len() && seen@[w] == y;
                    assert(seen@.contains(y));
                }
            }
        }
        assert(wanted == (bound matches Some(x) ==> y < x));
        assert(forall|z: i64| #[trigger] seen@.contains(z) <==> (before.contains(z) || (wanted && z == y)));
        proof {
            assert forall|z: i64|
                seen@.contains(z) <==> ((exists|w: int| 0 <= w < i + 1 && ids@[w] == z) && (bound matches Some(x) ==> z
                    < x)) by {
                if exists|w: int| 0 <= w < i + 1 && ids@[w] == z {
                    let w = choose|w: int| 0 <= w < i + 1 && ids@[w] == z;
                    if w < i {
                        assert(exists|v: int| 0 <= v < i && ids@[v] == z);
                    } else {
                        assert(z == y);
                    }
                }
                if before.contains(z) {
                    assert(exists|v: int| 0 <= v < i && ids@[v] == z);
                    let v = choose|v: int| 0 <= v < i && ids@[v] == z;
                    assert(0 <= v < i + 1 && ids@[v] == z);
                }
                if wanted && z == y {
                    assert(ids@[i as int] == z);
                }
            }
        }
        i = i + 1;
    }
    proof {
        assert forall|z: i64| seen@.contains(z) <==> (ids@.contains(z) && (bound matches Some(x) ==> z < x)) by {
            if ids@.contains(z) {
                let w = choose|w: int| 0 <= w < ids@.len() && ids@[w] == z;
                assert(exists|v: int| 0 <= v < n && ids@[v] == z);
            }
        }
    }
    seen
}

pub(crate) proof fn lemma_distinct_count(ids: Seq<i64>, seen: Seq<i64>, target: Set<i64>)
    requires
        seen.no_duplicates(),
        forall|z: i64| seen.contains(z) <==> #[trigger] target.contains(z),
    ensures
        seen.len() == target.len(),
{
    assert(seen.to_set() =~= target);
    seen.unique_seq_to_set();
}

/// For each observation, whether its match falls in the fitting half.
pub fn fit_partition(ids: &Vec<i64>) -> (r: Vec<bool>)
    ensures
        r@.len() == ids@.len(),
        forall|i: int| 0 <= i < ids@.len() ==> #[trigger] r@[i] == in_fit_half(ids@, ids@[i]),
{
    let all = distinct_values(ids, None);
    proof {
        lemma_distinct_count(ids@, all@, distinct_ids(ids@));
    }
    let half = all.len() / 2;
    let mut out: Vec<bool> = Vec::new();
    let n = ids.len();
    let mut i: usize = 0;
    while i < n
        invariant
            n == ids@.len(),
            i <= n,
            half == distinct_ids(ids@).len() / 2,
            out@.len() == i,
            forall|k: int| 0 <= k < i ==> #[trigger] out@[k] == in_fit_half(ids@, ids@[k]),
        decreases n - i,
    {
        let below = distinct_values(ids, Some(ids[i]));
        proof {
            lemma_distinct_count(ids@, below@, distinct_below(ids@, ids@[i as int]));
        }
        out.push(below.len() < half);
        i = i + 1;
    }
    out
}

/// What becomes of a calibration family.
#[derive(Clone, Copy, Debug, PartialEq, Eq, Structural)]
pub enum FamilyPlan {
    Fit,
    SkippedInsufficientData,
}

/// A family is fitted from at least the minimum number of samples.
pub fn family_plan(samples: usize) -> (r: FamilyPlan)
    ensures
        r == (if samples >= MIN_CALIBRATION_SAMPLES { FamilyPlan::Fit } else { FamilyPlan::SkippedInsufficientData }),
{
    if samples >= MIN_CALIBRATION_SAMPLES {
        FamilyPlan::Fit
    } else {
        FamilyPlan::SkippedInsufficientData
    }
}

/// The position of a match-result selection among home, draw and away; any
/// other selection counts as away.
pub fn result_index(selection: &str) -> (r: usize)
    ensures
        r == (if selection@ == "HOME"@ { 0usize } else if selection@ == "DRAW"@ { 1usize } else { 2usize }),
{
    if text_eq(selection, "HOME") {
        0
    } else if text_eq(selection, "DRAW") {
        1
    } else {
        2
    }
}

/// The version of a fitted calibration: the requested one, or the parent
/// model's version with a `_cal1` suffix.
pub fn calibration_version(requested: Option<&str>, model_version: &str) -> (r: String)
    ensures
        r@ == (match requested {
            Some(v) => v@,
            None => model_version@ + "_cal1"@,
        }),
{
    match requested {
        Some(v) => owned(v),
        None => {
            let mut name = owned(model_version);
            name.append("_cal1");
            name
        },
    }
}

/// The predicted and actual match results of a backtest, row by predicted
/// outcome and column by actual outcome.
#[derive(Clone, Copy, Debug)]
pub struct ConfusionMatrix {
    pub home: [usize; 3],
    pub draw: [usize; 3],
    pub away: [usize; 3],
}

impl Default for ConfusionMatrix {
    /// No result counted.
    fn default() -> (r: Self)
        ensures
            r.home@ == seq![0usize, 0usize, 0usize],
            r.draw@ == seq![0usize, 0usize, 0usize],
            r.away@ == seq![0usize, 0usize, 0usize],
    {
        let r = ConfusionMatrix { home: [0, 0, 0], draw: [0, 0, 0], away: [0, 0, 0] };
        proof {
            assert(r.home@ =~= seq![0usize, 0usize, 0usize]);
            assert(r.draw@ =~= seq![0usize, 0usize, 0usize]);
            assert(r.away@ =~= seq![0usize, 0usize, 0usize]);
        }
        r
    }
}

/// A line as the threshold markets compare counts against it: a count is
/// above a finite line exactly when it is above the line's floor, and no
/// count is above or at a NaN line.
#[derive(Clone, Copy, Debug, PartialEq, Eq, Structural)]
pub enum ThresholdLine {
    Absent,
    NotANumber,
    Floor(i64),
}

/// The labels of a finished match that market outcomes are read from.
#[derive(Clone, Copy, Debug)]
pub struct OutcomeLabels {
    pub over_1_5: bool,
    pub over_2_5: bool,
    pub over_3_5: bool,
    pub btts: bool,
    pub home_over_0_5: bool,
    pub home_over_1_5: bool,
    pub away_over_0_5: bool,
    pub away_over_1_5: bool,
    pub total_corners: Option<i64>,
    pub total_yellow_cards: Option<i64>,
    pub home_corners: Option<i64>,
    pub away_corners: Option<i64>,
}

pub open spec fn threshold_spec(v: Option<i64>, line: ThresholdLine, over: bool) -> Option<bool> {
    match (v, line) {
        (Some(x), ThresholdLine::Floor(k)) => Some(if over { x > k } else { x <= k }),
        (Some(_), ThresholdLine::NotANumber) => Some(false),
        _ => None,
    }
}

fn threshold(v: Option<i64>, line: ThresholdLine, over: bool) -> (r: Option<bool>)
    ensures
        r == threshold_spec(v, line, over),
{
    match (v, line) {
        (Some(x), ThresholdLine::Floor(k)) => Some(if over { x > k } else { x <= k }),
        (Some(_), ThresholdLine::NotANumber) => Some(false),
        _ => None,
    }
}

pub open spec fn side_of(flag: bool, over: bool) -> bool {
    if over {
        flag
    } else {
        !flag
    }
}

/// The bits of the lines 0.5, 1.5, 2.5 and 3.5.
pub const LINE_0_5: u64 = 0x3FE0_0000_0000_0000;

pub const LINE_1_5: u64 = 0x3FF8_0000_0000_0000;

pub const LINE_2_5: u64 = 0x4004_0000_0000_0000;

pub const LINE_3_5: u64 = 0x400C_0000_0000_0000;

pub open spec fn actual_spec(
    labels: OutcomeLabels,
    match_result: Seq<char>,
    market: Seq<char>,
    selection: Seq<char>,
    line: LineKey,
    threshold_line: ThresholdLine,
) -> Option<bool> {
    let over = selection == "OVER"@;
    if market == "MATCH_RESULT"@ {
        Some(match_result == selection)
    } else if market == "BTTS"@ {
        Some(if selection == "YES"@ { labels.btts } else { !labels.btts })
    } else if market == "TOTAL_GOALS"@ {
        if line == LineKey::Number(LINE_1_5) {
            Some(side_of(labels.over_1_5, over))
        } else if line == LineKey::Number(LINE_2_5) {
            Some(side_of(labels.over_2_5, over))
        } else if line == LineKey::Number(LINE_3_5) {
            Some(side_of(labels.over_3_5, over))
        } else {
            None
        }
    } else if market == "HOME_TEAM_TOTAL_GOALS"@ {
        Some(
            if line == LineKey::Number(LINE_0_5) {
                side_of(labels.home_over_0_5, over)
            } else {
                side_of(labels.home_over_1_5, over)
            },
        )
    } else if market == "AWAY_TEAM_TOTAL_GOALS"@ {
        Some(
            if line == LineKey::Number(LINE_0_5) {
                side_of(labels.away_over_0_5, over)
            } else {
                side_of(labels.away_over_1_5, over)
            },
        )
    } else if market == "FULL_TIME_TOTAL_CORNERS"@ {
        threshold_spec(labels.total_corners, threshold_line, over)
    } else if market == "FULL_TIME_TOTAL_CARDS"@ {
        threshold_spec(labels.total_yellow_cards, threshold_line, over)
    } else if market == "HOME_TEAM_CORNERS"@ {
        threshold_spec(labels.home_corners, threshold_line, over)
    } else if market == "AWAY_TEAM_CORNERS"@ {
        threshold_spec(labels.away_corners, threshold_line, over)
    } else {
        None
    }
}

fn line_is(line: LineKey, bits: u64) -> (r: bool)
    ensures
        r == (line == LineKey::Number(bits)),
{
    match line {
        LineKey::Number(b) => b == bits,
        _ => false,
    }
}

/// Whether a market prediction came true, from the match's labels; `None`
/// where the market or line has no label.
pub fn actual(
    labels: &OutcomeLabels,
    match_result: &str,
    market: &str,
    selection: &str,
    line: LineKey,
    threshold_line: ThresholdLine,
) -> (r: Option<bool>)
    ensures
        r == actual_spec(*labels, match_result@, market@, selection@, line, threshold_line),
{
    let over = text_eq(selection, "OVER");
    if text_eq(market, "MATCH_RESULT") {
        Some(text_eq(match_result, selection))
    } else if text_eq(market, "BTTS") {
        Some(if text_eq(selection, "YES") { labels.btts } else { !labels.btts })
    } else if text_eq(market, "TOTAL_GOALS") {
        if line_is(line, LINE_1_5) {
            Some(if over { labels.over_1_5 } else { !labels.over_1_5 })
        } else if line_is(line, LINE_2_5) {
            Some(if over { labels.over_2_5 } else { !labels.over_2_5 })
        } else if line_is(line, LINE_3_5) {
            Some(if over { labels.over_3_5 } else { !labels.over_3_5 })
        } else {
            None
        }
    } else if text_eq(market, "HOME_TEAM_TOTAL_GOALS") {
        Some(
            if line_is(line, LINE_0_5) {
                if over { labels.home_over_0_5 } else { !labels.home_over_0_5 }
            } else {
                if over { labels.home_over_1_5 } else { !labels.home_over_1_5 }
            },
        )
    } else if text_eq(market, "AWAY_TEAM_TOTAL_GOALS") {
        Some(
            if line_is(line, LINE_0_5) {
                if over { labels.away_over_0_5 } else { !labels.away_over_0_5 }
            } else {
                if over { labels.away_over_1_5 } else { !labels.away_over_1_5 }
            },
        )
    } else if text_eq(market, "FULL_TIME_TOTAL_CORNERS") {
        threshold(labels.total_corners, threshold_line, over)
    } else if text_eq(market, "FULL_TIME_TOTAL_CARDS") {
        threshold(labels.total_yellow_cards, threshold_line, over)
    } else if text_eq(market, "HOME_TEAM_CORNERS") {
        threshold(labels.home_corners, threshold_line, over)
    } else if text_eq(market, "AWAY_TEAM_CORNERS") {
        threshold(labels.away_corners, threshold_line, over)
    } else {
        None
    }
}

/// Over and under on the same finite line are complementary: exactly one of
/// them comes true.
pub proof fn law_over_and_under_are_complementary(v: i64, k: i64)
    ensures
        threshold_spec(Some(v), ThresholdLine::Floor(k), true)->0 != threshold_spec(
            Some(v),
            ThresholdLine::Floor(k),
            false,
        )->0,
{
}

proof fn lemma_market_names_differ()
    ensures
        "TOTAL_GOALS"@ != "MATCH_RESULT"@,
        "TOTAL_GOALS"@ != "BTTS"@,
        "MATCH_RESULT"@ != "BTTS"@,
        "OVER"@ != "UNDER"@,
        "HOME"@ != "DRAW"@,
        "HOME"@ != "AWAY"@,
        "DRAW"@ != "AWAY"@,
        "YES"@ != "NO"@,
{
    reveal_strlit("TOTAL_GOALS");
    reveal_strlit("MATCH_RESULT");
    reveal_strlit("BTTS");
    reveal_strlit("OVER");
    reveal_strlit("UNDER");
    reveal_strlit("HOME");
    reveal_strlit("DRAW");
    reveal_strlit("AWAY");
    reveal_strlit("YES");
    reveal_strlit("NO");
    assert("TOTAL_GOALS"@[0] != "MATCH_RESULT"@[0]);
    assert("TOTAL_GOALS"@[0] != "BTTS"@[0]);
    assert("MATCH_RESULT"@[0] != "BTTS"@[0]);
    assert("OVER"@[0] != "UNDER"@[0]);
    assert("HOME"@[0] != "DRAW"@[0]);
    assert("HOME"@[0] != "AWAY"@[0]);
    assert("DRAW"@[0] != "AWAY"@[0]);
    assert("YES"@[0] != "NO"@[0]);
}

/// The labels of a finished match with the given score.
pub open spec fn labels_of_score(labels: OutcomeLabels, home: i64, away: i64) -> bool {
    &&& labels.over_1_5 == (home + away > 1)
    &&& labels.over_2_5 == (home + away > 2)
    &&& labels.over_3_5 == (home + away > 3)
    &&& labels.btts == (home > 0 && away > 0)
}

/// A backtest judges a goal market the way the final score settles it: over
/// 1.5, 2.5 and 3.5 goals come true exactly when the match had more than
/// one, two and three goals, under exactly when it did not, both-teams-to-
/// score YES exactly when both sides scored, and each of these, as well as
/// each match-result pick, comes true exactly when its settlement from the
/// same score is a win.
pub proof fn law_backtest_outcomes_follow_the_score(
    labels: OutcomeLabels,
    home: i64,
    away: i64,
    threshold_line: ThresholdLine,
)
    requires
        labels_of_score(labels, home, away),
        0 <= home <= i32::MAX,
        0 <= away <= i32::MAX,
    ensures
        ({
            let mr = match_result_spec(home, away);
            let total = home + away;
            &&& actual_spec(labels, mr, "TOTAL_GOALS"@, "OVER"@, LineKey::Number(LINE_1_5), threshold_line)
                == Some(total > 1)
            &&& actual_spec(labels, mr, "TOTAL_GOALS"@, "UNDER"@, LineKey::Number(LINE_1_5), threshold_line)
                == Some(total <= 1)
            &&& actual_spec(labels, mr, "TOTAL_GOALS"@, "OVER"@, LineKey::Number(LINE_2_5), threshold_line)
                == Some(total > 2)
            &&& actual_spec(labels, mr, "TOTAL_GOALS"@, "UNDER"@, LineKey::Number(LINE_2_5), threshold_line)
                == Some(total <= 2)
            &&& actual_spec(labels, mr, "TOTAL_GOALS"@, "OVER"@, LineKey::Number(LINE_3_5), threshold_line)
                == Some(total > 3)
            &&& actual_spec(labels, mr, "TOTAL_GOALS"@, "UNDER"@, LineKey::Number(LINE_3_5), threshold_line)
                == Some(total <= 3)
            &&& actual_spec(labels, mr, "BTTS"@, "YES"@, LineKey::Absent, threshold_line) == Some(home > 0 && away > 0)
            &&& actual_spec(labels, mr, "TOTAL_GOALS"@, "OVER"@, LineKey::Number(LINE_1_5), threshold_line) == Some(
                won(outcome_spec("TOTAL_GOALS"@, "OVER"@, MarketLine::HalfPoints(3), home as int, away as int, None)),
            )
            &&& actual_spec(labels, mr, "TOTAL_GOALS"@, "OVER"@, LineKey::Number(LINE_2_5), threshold_line) == Some(
                won(outcome_spec("TOTAL_GOALS"@, "OVER"@, MarketLine::HalfPoints(5), home as int, away as int, None)),
            )
            &&& actual_spec(labels, mr, "TOTAL_GOALS"@, "UNDER"@, LineKey::Number(LINE_3_5), threshold_line) == Some(
                won(outcome_spec("TOTAL_GOALS"@, "UNDER"@, MarketLine::HalfPoints(7), home as int, away as int, None)),
            )
            &&& actual_spec(labels, mr, "MATCH_RESULT"@, "HOME"@, LineKey::Absent, threshold_line) == Some(
                won(outcome_spec("MATCH_RESULT"@, "HOME"@, MarketLine::Missing, home as int, away as int, None)),
            )
            &&& actual_spec(labels, mr, "MATCH_RESULT"@, "DRAW"@, LineKey::Absent, threshold_line) == Some(
                won(outcome_spec("MATCH_RESULT"@, "DRAW"@, MarketLine::Missing, home as int, away as int, None)),
            )
            &&& actual_spec(labels, mr, "MATCH_RESULT"@, "AWAY"@, LineKey::Absent, threshold_line) == Some(
                won(outcome_spec("MATCH_RESULT"@, "AWAY"@, MarketLine::Missing, home as int, away as int, None)),
            )
        }),
{
    lemma_market_names_differ();
    crate::settlement::law_match_result_picks_exactly_one_winner(home as int, away as int, MarketLine::Missing, None);
    crate::settlement::law_goal_totals_split_at_the_line(home as int, away as int, 3, None);
    crate::settlement::law_goal_totals_split_at_the_line(home as int, away as int, 5, None);
    crate::settlement::law_goal_totals_split_at_the_line(home as int, away as int, 7, None);
}

} // verus!
