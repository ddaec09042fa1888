//! Realized coupon economics: which coupons a report counts, how a settled
//! coupon counts, and the sequences of the compound (katlama) series.
use vstd::prelude::*;

use crate::series::KATLAMA_MAX_STEP;
use crate::settlement::LegState;
use crate::text::text_eq;

verus! {

/// How money is reported: only realized results count.
#[derive(Clone, Copy, Debug, PartialEq, Eq, Structural)]
pub enum FinancialMode {
    Realized,
}

impl FinancialMode {
    pub fn as_str(&self) -> (r: &'static str)
        ensures
            r@ == "REALIZED"@,
    {
        "REALIZED"
    }
}

/// The period a performance report covers.
#[derive(Clone, Copy, Debug, PartialEq, Eq, Structural)]
pub enum PerformanceWindow {
    Last7Days,
    Last30Days,
    Season,
    AllTime,
}

/// A request for realized coupon performance.
#[derive(Clone, Debug)]
pub struct CouponPerformanceRequest {
    pub window: PerformanceWindow,
    pub coupon_type: Option<String>,
    pub as_of: Option<String>,
    pub include_system: Option<bool>,
    pub include_katlama: Option<bool>,
}

/// Day numbers of the calendar, counted from the first day of the common era.
pub type DayNumber = i32;

/// The first day a window covers, up to and including `to`; the season
/// starts on the first of July of the season's first year, whose day number
/// is given as `season_start`.
pub open spec fn window_start_spec(window: PerformanceWindow, to: int, season_start: int) -> Option<int> {
    match window {
        PerformanceWindow::Last7Days => Some(to - 6),
        PerformanceWindow::Last30Days => Some(to - 29),
        PerformanceWindow::Season => Some(season_start),
        PerformanceWindow::AllTime => None,
    }
}

pub fn window_start(window: PerformanceWindow, to: DayNumber, season_start: DayNumber) -> (r: Option<DayNumber>)
    requires
        to >= i32::MIN + 29,
    ensures
        match r {
            Some(d) => window_start_spec(window, to as int, season_start as int) == Some(d as int),
            None => window_start_spec(window, to as int, season_start as int) is None,
        },
{
    match window {
        PerformanceWindow::Last7Days => Some(to - 6),
        PerformanceWindow::Last30Days => Some(to - 29),
        PerformanceWindow::Season => Some(season_start),
        PerformanceWindow::AllTime => None,
    }
}

/// The year a season that contains a date starts in: seasons run from July.
pub fn season_start_year(year: i32, month: u32) -> (r: i32)
    requires
        year > i32::MIN,
    ensures
        r == (if month >= 7 { year as int } else { year - 1 }),
{
    if month >= 7 {
        year
    } else {
        year - 1
    }
}

/// Whether a coupon enters the portfolio figures: within the window, of the
/// requested type, never a compound coupon (those count as sequences), and a
/// system coupon only when systems are included.
pub open spec fn row_included_spec(
    coupon_type: Seq<char>,
    day: int,
    from: Option<int>,
    to: int,
    requested_type: Option<Seq<char>>,
    include_system: bool,
) -> bool {
    &&& day <= to
    &&& (from matches Some(f) ==> day >= f)
    &&& (requested_type matches Some(k) ==> coupon_type == k)
    &&& coupon_type != "DAILY_COMPOUND"@
    &&& (include_system || coupon_type != "DAILY_SURPRISE_SYSTEM"@)
}

pub fn row_included(
    coupon_type: &str,
    day: DayNumber,
    from: Option<DayNumber>,
    to: DayNumber,
    requested_type: Option<&str>,
    include_system: bool,
) -> (r: bool)
    ensures
        r == row_included_spec(
            coupon_type@,
            day as int,
            match from {
                Some(f) => Some(f as int),
                None => None,
            },
            to as int,
            match requested_type {
                Some(k) => Some(k@),
                None => None,
            },
            include_system,
        ),
{
    let in_window = day <= to && match from {
        Some(f) => day >= f,
        None => true,
    };
    let of_type = match requested_type {
        Some(k) => text_eq(coupon_type, k),
        None => true,
    };
    in_window && of_type && !text_eq(coupon_type, "DAILY_COMPOUND") && (include_system || !text_eq(
        coupon_type,
        "DAILY_SURPRISE_SYSTEM",
    ))
}

/// Whether a report includes a summary of the given kind of coupon: it must
/// be included and the request must not ask for another type.
pub fn wants_summary(enabled: Option<bool>, requested_type: Option<&str>, kind: &str) -> (r: bool)
    ensures
        r == ((match enabled {
            Some(b) => b,
            None => true,
        }) && (requested_type matches Some(k) ==> k@ == kind@)),
{
    let included = match enabled {
        Some(b) => b,
        None => true,
    };
    included && match requested_type {
        Some(k) => text_eq(k, kind),
        None => true,
    }
}

/// What a settled coupon's settlement says, as the summary reads it.
#[derive(Clone, Copy, Debug)]
pub struct SettledFigures {
    pub status: LegState,
    pub total_columns: usize,
    pub winning_columns: usize,
    pub losing_columns: usize,
    pub void_columns: usize,
    pub total_stake_cents: i64,
    pub gross_return_cents: i64,
}

/// The outcome a settled coupon counts as: a system coupon wins with any
/// winning column and loses with losing columns only; others count as their
/// settlement says.
pub open spec fn counted_outcome_spec(is_system: bool, s: SettledFigures) -> LegState {
    if is_system {
        if s.winning_columns > 0 {
            LegState::Won
        } else if s.losing_columns > 0 {
            LegState::Lost
        } else {
            LegState::Void
        }
    } else {
        s.status
    }
}

pub fn counted_outcome(coupon_type: &str, s: &SettledFigures) -> (r: LegState)
    ensures
        r == counted_outcome_spec(coupon_type@ == "DAILY_SURPRISE_SYSTEM"@, *s),
{
    if text_eq(coupon_type, "DAILY_SURPRISE_SYSTEM") {
        if s.winning_columns > 0 {
            LegState::Won
        } else if s.losing_columns > 0 {
            LegState::Lost
        } else {
            LegState::Void
        }
    } else {
        s.status
    }
}

/// One step of a compound series, as stored.
#[derive(Clone, Copy, Debug)]
pub struct SeriesStepRow {
    pub series_id: i64,
    pub step: usize,
    pub day: DayNumber,
    pub stake_cents: i64,
    pub result: LegState,
    pub gross_return_cents: i64,
}

/// A step opens a new sequence when it is a first step or belongs to another
/// series than the step before it.
pub open spec fn opens_sequence(steps: Seq<SeriesStepRow>, i: int) -> bool {
    steps[i].step == 1 || i == 0 || steps[i - 1].series_id != steps[i].series_id
}

/// The integer figures of the compound series over a report window.
#[derive(Clone, Copy, Debug, PartialEq, Eq, Structural)]
pub struct KatlamaTotals {
    pub sequences_started: usize,
    pub active_sequences: usize,
    pub failed_sequences: usize,
    pub completed_sequences: usize,
    pub highest_reached_step: Option<usize>,
    pub reached_step_sum: usize,
    pub total_initial_stake_cents: i64,
    pub realized_initial_stake_cents: i64,
    pub total_realized_return_cents: i64,
}

/// A sequence as (first step's index, last step's index) in the step list.
pub open spec fn sequence_bounds(steps: Seq<SeriesStepRow>, first: int) -> int
    decreases steps.len() - first,
{
    if first + 1 >= steps.len() || opens_sequence(steps, first + 1) {
        first
    } else {
        sequence_bounds(steps, first + 1)
    }
}

/// A sequence fails on a lost last step and completes on a won final step;
/// any other sequence is still active.
pub open spec fn sequence_class(last: SeriesStepRow) -> int {
    if last.result == LegState::Lost {
        1
    } else if last.step == KATLAMA_MAX_STEP && last.result == LegState::Won {
        2
    } else {
        0
    }
}

/// The running figures of the sequences that start at or before position
/// `i`, closing each at its last step; `open` is the sequence in progress.
pub open spec fn fold_steps(steps: Seq<SeriesStepRow>, from: Option<int>, i: int) -> (KatlamaTotals, Option<(SeriesStepRow, usize)>)
    decreases i,
{
    if i <= 0 {
        (
            KatlamaTotals {
                sequences_started: 0,
                active_sequences: 0,
                failed_sequences: 0,
                completed_sequences: 0,
                highest_reached_step: None,
                reached_step_sum: 0,
                total_initial_stake_cents: 0,
                realized_initial_stake_cents: 0,
                total_realized_return_cents: 0,
            },
            None,
        )
    } else {
        let (t, open) = fold_steps(steps, from, i - 1);
        let s = steps[i - 1];
        let closed = if opens_sequence(steps, i - 1) { close_sequence(t, open, steps[i - 2]) } else { t };
        let next_open = if opens_sequence(steps, i - 1) {
            if from matches Some(f) && (s.day as int) < f {
                None
            } else {
                Some((s, s.step))
            }
        } else {
            match open {
                Some((first, high)) => Some((first, if s.step > high { s.step } else { high })),
                None => None,
            }
        };
        (closed, next_open)
    }
}

/// Adds a finished sequence, given its first step, its highest step and its
/// last step, to the figures.
pub open spec fn close_sequence(t: KatlamaTotals, open: Option<(SeriesStepRow, usize)>, last: SeriesStepRow) -> KatlamaTotals {
    match open {
        None => t,
        Some((first, high)) => {
            let class = sequence_class(last);
            KatlamaTotals {
                sequences_started: (t.sequences_started + 1) as usize,
                active_sequences: (t.active_sequences + if class == 0 { 1int } else { 0int }) as usize,
                failed_sequences: (t.failed_sequences + if class == 1 { 1int } else { 0int }) as usize,
                completed_sequences: (t.completed_sequences + if class == 2 { 1int } else { 0int }) as usize,
                highest_reached_step: match t.highest_reached_step {
                    Some(h) => Some(if high > h { high } else { h }),
                    None => Some(high),
                },
                reached_step_sum: (t.reached_step_sum + high) as usize,
                total_initial_stake_cents: (t.total_initial_stake_cents + first.stake_cents) as i64,
                realized_initial_stake_cents: (t.realized_initial_stake_cents + if class != 0 {
                    first.stake_cents as int
                } else {
                    0int
                }) as i64,
                total_realized_return_cents: (t.total_realized_return_cents + if class == 2 {
                    last.gross_return_cents as int
                } else {
                    0int
                }) as i64,
            }
        },
    }
}

/// The figures of all sequences of a step list.
pub open spec fn katlama_spec(steps: Seq<SeriesStepRow>, from: Option<int>) -> KatlamaTotals {
    let (t, open) = fold_steps(steps, from, steps.len() as int);
    if steps.len() == 0 {
        t
    } else {
        close_sequence(t, open, steps.last())
    }
}

/// A bound on the steps one report sums.
pub const MAX_STEPS: usize = 0x1000_0000;

/// Step lists whose figures can be summed.
pub open spec fn countable_steps(steps: Seq<SeriesStepRow>) -> bool {
    &&& steps.len() < MAX_STEPS
    &&& forall|i: int|
        0 <= i < steps.len() ==> {
            let s = #[trigger] steps[i];
            &&& 0 <= s.stake_cents <= i32::MAX
            &&& 0 <= s.gross_return_cents <= i32::MAX
            &&& s.step <= KATLAMA_MAX_STEP
        }
}

/// The sum figures stay within the count of sequences times the largest figure.
pub open spec fn totals_bounded(t: KatlamaTotals, n: int) -> bool {
    &&& t.sequences_started <= n
    &&& t.active_sequences + t.failed_sequences + t.completed_sequences == t.sequences_started
    &&& t.reached_step_sum <= n * (KATLAMA_MAX_STEP as int)
    &&& 0 <= t.total_initial_stake_cents <= n * (i32::MAX as int)
    &&& 0 <= t.realized_initial_stake_cents <= t.total_initial_stake_cents
    &&& 0 <= t.total_realized_return_cents <= n * (i32::MAX as int)
    &&& (t.highest_reached_step matches Some(h) ==> h <= KATLAMA_MAX_STEP)
}

proof fn lemma_close_bounded(t: KatlamaTotals, open: Option<(SeriesStepRow, usize)>, last: SeriesStepRow, n: int)
    requires
        totals_bounded(t, n),
        0 <= n < MAX_STEPS,
        open matches Some((first, high)) ==> 0 <= first.stake_cents <= i32::MAX && high <= KATLAMA_MAX_STEP,
        0 <= last.gross_return_cents <= i32::MAX,
    ensures
        totals_bounded(close_sequence(t, open, last), n + 1),
{
    assert((n + 1) * (KATLAMA_MAX_STEP as int) == n * (KATLAMA_MAX_STEP as int) + KATLAMA_MAX_STEP) by (nonlinear_arith);
    assert((n + 1) * (i32::MAX as int) == n * (i32::MAX as int) + i32::MAX) by (nonlinear_arith);
    assert(n * (i32::MAX as int) < (MAX_STEPS as int) * (i32::MAX as int)) by (nonlinear_arith)
        requires
            0 <= n < MAX_STEPS,
    ;
    assert(n * (KATLAMA_MAX_STEP as int) < (MAX_STEPS as int) * (KATLAMA_MAX_STEP as int)) by (nonlinear_arith)
        requires
            0 <= n < MAX_STEPS,
    ;
}

proof fn lemma_fold_bounded(steps: Seq<SeriesStepRow>, from: Option<int>, i: int)
    requires
        countable_steps(steps),
        0 <= i <= steps.len(),
    ensures
        totals_bounded(fold_steps(steps, from, i).0, i),
        fold_steps(steps, from, i).1 matches Some((first, high)) ==> 0 <= first.stake_cents <= i32::MAX && high
            <= KATLAMA_MAX_STEP,
    decreases i,
{
    if i > 0 {
        lemma_fold_bounded(steps, from, i - 1);
        let (t, open) = fold_steps(steps, from, i - 1);
        let s = steps[i - 1];
        assert(0 <= s.stake_cents <= i32::MAX && s.step <= KATLAMA_MAX_STEP);
        if opens_sequence(steps, i - 1) && i >= 2 {
            let last = steps[i - 2];
            assert(0 <= last.gross_return_cents <= i32::MAX);
            lemma_close_bounded(t, open, last, i - 1);
        }
        if opens_sequence(steps, i - 1) && i < 2 {
            assert(open is None);
        }
        assert((i - 1) * (KATLAMA_MAX_STEP as int) <= i * (KATLAMA_MAX_STEP as int)) by (nonlinear_arith)
            requires
                i >= 1,
        ;
        assert((i - 1) * (i32::MAX as int) <= i * (i32::MAX as int)) by (nonlinear_arith)
            requires
                i >= 1,
        ;
    }
}

fn close_exec(t: &mut KatlamaTotals, open: Option<(SeriesStepRow, usize)>, last: SeriesStepRow, Ghost(n): Ghost<int>)
    requires
        totals_bounded(*old(t), n),
        0 <= n < MAX_STEPS,
        open matches Some((first, high)) ==> 0 <= first.stake_cents <= i32::MAX && high <= KATLAMA_MAX_STEP,
        0 <= last.gross_return_cents <= i32::MAX,
    ensures
        *final(t) == close_sequence(*old(t), open, last),
{
    proof {
        lemma_close_bounded(*t, open, last, n);
        assert(n * (i32::MAX as int) < (MAX_STEPS as int) * (i32::MAX as int)) by (nonlinear_arith)
            requires
                0 <= n < MAX_STEPS,
        ;
        assert(n * (KATLAMA_MAX_STEP as int) < (MAX_STEPS as int) * (KATLAMA_MAX_STEP as int)) by (nonlinear_arith)
            requires
                0 <= n < MAX_STEPS,
        ;
    }
    match open {
        None => {},
        Some((first, high)) => {
            let failed = last.result == LegState::Lost;
            let completed = !failed && last.step == KATLAMA_MAX_STEP && last.result == LegState::Won;
            t.sequences_started = t.sequences_started + 1;
            if failed {
                t.failed_sequences = t.failed_sequences + 1;
            } else if completed {
                t.completed_sequences = t.completed_sequences + 1;
            } else {
                t.active_sequences = t.active_sequences + 1;
            }
            t.highest_reached_step = match t.highest_reached_step {
                Some(h) => Some(if high > h { high } else { h }),
                None => Some(high),
            };
            t.reached_step_sum = t.reached_step_sum + high;
            t.total_initial_stake_cents = t.total_initial_stake_cents + first.stake_cents;
            if failed || completed {
                t.realized_initial_stake_cents = t.realized_initial_stake_cents + first.stake_cents;
            }
            if completed {
                t.total_realized_return_cents = t.total_realized_return_cents + last.gross_return_cents;
            }
        },
    }
}

/// Groups the steps of the compound series (listed by series, then in order)
/// into sequences: a first step or a change of series starts one. Sequences
/// that start before `from` are left out. A sequence fails when its last step
/// was lost and completes when its last step was the won final step; only
/// first-step stakes count as invested, and only completed sequences return.
pub fn katlama_totals(steps: &Vec<SeriesStepRow>, from: Option<DayNumber>) -> (r: KatlamaTotals)
    requires
        countable_steps(steps@),
    ensures
        r == katlama_spec(
            steps@,
            match from {
                Some(f) => Some(f as int),
                None => None,
            },
        ),
{
    let ghost gfrom: Option<int> = match from {
        Some(f) => Some(f as int),
        None => None,
    };
    let mut t = KatlamaTotals {
        sequences_started: 0,
        active_sequences: 0,
        failed_sequences: 0,
        completed_sequences: 0,
        highest_reached_step: None,
        reached_step_sum: 0,
        total_initial_stake_cents: 0,
        realized_initial_stake_cents: 0,
        total_realized_return_cents: 0,
    };
    let mut open: Option<(SeriesStepRow, usize)> = None;
    let n = steps.len();
    let mut i: usize = 0;
    while i < n
        invariant
            n == steps@.len(),
            i <= n,
            countable_steps(steps@),
            gfrom == match from {
                Some(f) => Some(f as int),
                None => None,
            },
            (t, open) == fold_steps(steps@, gfrom, i as int),
        decreases n - i,
    {
        proof {
            lemma_fold_bounded(steps@, gfrom, i as int);
        }
        let s = steps[i];
        let opens = s.step == 1 || i == 0 || steps[i - 1].series_id != s.series_id;
        if opens {
            if i > 0 {
                proof {
                    assert(0 <= steps@[i - 1].gross_return_cents <= i32::MAX);
                }
                close_exec(&mut t, open, steps[i - 1], Ghost(i as int));
            }
            let skip = match from {
                Some(f) => s.day < f,
                None => false,
            };
            open = if skip { None } else { Some((s, s.step)) };
        } else {
            open = match open {
                Some((first, high)) => Some((first, if s.step > high { s.step } else { high })),
                None => None,
            };
        }
        i = i + 1;
    }
    proof {
        lemma_fold_bounded(steps@, gfrom, n as int);
    }
    if n > 0 {
        proof {
            assert(0 <= steps@[n - 1].gross_return_cents <= i32::MAX);
        }
        close_exec(&mut t, open, steps[n - 1], Ghost(n as int));
    }
    t
}

/// Every counted sequence is active, failed or completed, and no more initial
/// stake is realized than was invested.
pub proof fn law_sequences_partition(steps: Seq<SeriesStepRow>, from: Option<int>)
    requires
        countable_steps(steps),
    ensures
        ({
            let t = katlama_spec(steps, from);
            &&& t.active_sequences + t.failed_sequences + t.completed_sequences == t.sequences_started
            &&& t.realized_initial_stake_cents <= t.total_initial_stake_cents
        }),
{
    lemma_fold_bounded(steps, from, steps.len() as int);
    if steps.len() > 0 {
        let (t, open) = fold_steps(steps, from, steps.len() as int);
        assert(0 <= steps.last().gross_return_cents <= i32::MAX);
        lemma_close_bounded(t, open, steps.last(), steps.len() as int);
    }
}

/// The results of one step number across sequences.
#[derive(Clone, Copy, Debug, PartialEq, Eq, Structural)]
pub struct StepTally {
    pub attempts: usize,
    pub wins: usize,
    pub losses: usize,
    pub voids: usize,
}

pub open spec fn step_tally_spec(results: Seq<LegState>) -> StepTally
    decreases results.len(),
{
    if results.len() == 0 {
        StepTally { attempts: 0, wins: 0, losses: 0, voids: 0 }
    } else {
        let t = step_tally_spec(results.drop_last());
        let r = results.last();
        StepTally {
            attempts: (t.attempts + 1) as usize,
            wins: (t.wins + if r == LegState::Won { 1int } else { 0int }) as usize,
            losses: (t.losses + if r == LegState::Lost { 1int } else { 0int }) as usize,
            voids: (t.voids + if r == LegState::Void { 1int } else { 0int }) as usize,
        }
    }
}

/// Tallies the results of the attempts at one step.
pub fn step_tally(results: &Vec<LegState>) -> (r: StepTally)
    ensures
        r == step_tally_spec(results@),
{
    let n = results.len();
    let mut t = StepTally { attempts: 0, wins: 0, losses: 0, voids: 0 };
    let mut i: usize = 0;
    while i < n
        invariant
            n == results@.len(),
            i <= n,
            t == step_tally_spec(results@.subrange(0, i as int)),
            t.wins <= t.attempts,
            t.losses <= t.attempts,
            t.voids <= t.attempts,
            t.attempts == i,
        decreases n - i,
    {
        proof {
            assert(results@.subrange(0, i as int + 1).drop_last() =~= results@.subrange(0, i as int));
        }
        let r = results[i];
        t = StepTally {
            attempts: t.attempts + 1,
            wins: t.wins + if r == LegState::Won { 1 } else { 0 },
            losses: t.losses + if r == LegState::Lost { 1 } else { 0 },
            voids: t.voids + if r == LegState::Void { 1 } else { 0 },
        };
        i = i + 1;
    }
    proof {
        assert(results@.subrange(0, n as int) =~= results@);
    }
    t
}

/// The steps played on or before a day, in their order.
pub open spec fn steps_through_spec(steps: Seq<SeriesStepRow>, to: int) -> Seq<SeriesStepRow>
    decreases steps.len(),
{
    if steps.len() == 0 {
        Seq::empty()
    } else {
        let rest = steps_through_spec(steps.drop_last(), to);
        if steps.last().day as int <= to {
            rest.push(steps.last())
        } else {
            rest
        }
    }
}

/// Keeps the steps played on or before the report's last day.
pub fn steps_through(steps: &Vec<SeriesStepRow>, to: DayNumber) -> (r: Vec<SeriesStepRow>)
    ensures
        r@ == steps_through_spec(steps@, to as int),
        r@.len() <= steps@.len(),
{
    let mut out: Vec<SeriesStepRow> = Vec::new();
    let n = steps.len();
    let mut i: usize = 0;
    while i < n
        invariant
            n == steps@.len(),
            i <= n,
            out@ == steps_through_spec(steps@.subrange(0, i as int), to as int),
            out@.len() <= i,
        decreases n - i,
    {
        proof {
            assert(steps@.subrange(0, i as int + 1).drop_last() =~= steps@.subrange(0, i as int));
        }
        if steps[i].day <= to {
            out.push(steps[i]);
        }
        i = i + 1;
    }
    proof {
        assert(steps@.subrange(0, n as int) =~= steps@);
    }
    out
}

/// A coupon of the report window: its type, whether it is settled, and its
/// stored settlement when one can be read.
#[derive(Clone, Debug)]
pub struct CouponRow {
    pub coupon_type: String,
    pub settled: bool,
    pub settlement: Option<SettledFigures>,
}

/// The integer figures of a portfolio summary.
#[derive(Clone, Copy, Debug, PartialEq, Eq, Structural)]
pub struct FinancialTotals {
    pub coupon_count: usize,
    pub settled_count: usize,
    pub won_count: usize,
    pub lost_count: usize,
    pub void_count: usize,
    pub total_stake_cents: i64,
    pub total_gross_return_cents: i64,
}

/// A coupon counts in the money figures when it is settled and its
/// settlement can be read.
pub open spec fn counts_money(row: CouponRow) -> bool {
    row.settled && row.settlement is Some
}

pub open spec fn outcome_of(row: CouponRow) -> LegState {
    counted_outcome_spec(row.coupon_type@ == "DAILY_SURPRISE_SYSTEM"@, row.settlement->0)
}

pub open spec fn financial_spec(rows: Seq<CouponRow>) -> FinancialTotals
    decreases rows.len(),
{
    if rows.len() == 0 {
        FinancialTotals {
            coupon_count: 0,
            settled_count: 0,
            won_count: 0,
            lost_count: 0,
            void_count: 0,
            total_stake_cents: 0,
            total_gross_return_cents: 0,
        }
    } else {
        let t = financial_spec(rows.drop_last());
        let r = rows.last();
        let counted = counts_money(r);
        let o = outcome_of(r);
        FinancialTotals {
            coupon_count: (t.coupon_count + 1) as usize,
            settled_count: (t.settled_count + if counted { 1int } else { 0int }) as usize,
            won_count: (t.won_count + if counted && o == LegState::Won { 1int } else { 0int }) as usize,
            lost_count: (t.lost_count + if counted && o == LegState::Lost { 1int } else { 0int }) as usize,
            void_count: (t.void_count + if counted && o == LegState::Void { 1int } else { 0int }) as usize,
            total_stake_cents: (t.total_stake_cents + if counted {
                r.settlement->0.total_stake_cents as int
            } else {
                0int
            }) as i64,
            total_gross_return_cents: (t.total_gross_return_cents + if counted {
                r.settlement->0.gross_return_cents as int
            } else {
                0int
            }) as i64,
        }
    }
}

/// Coupon lists whose figures can be summed: money figures within zero and
/// `i32::MAX`, column counts within `u32::MAX`, and fewer than `MAX_STEPS`
/// coupons.
pub open spec fn countable_rows(rows: Seq<CouponRow>) -> bool {
    &&& rows.len() < MAX_STEPS
    &&& forall|i: int|
        0 <= i < rows.len() ==> ((#[trigger] rows[i]).settlement matches Some(f) ==> {
            &&& 0 <= f.total_stake_cents <= i32::MAX
            &&& 0 <= f.gross_return_cents <= i32::MAX
            &&& f.total_columns <= u32::MAX
            &&& f.winning_columns <= u32::MAX
            &&& f.losing_columns <= u32::MAX
            &&& f.void_columns <= u32::MAX
        })
}

proof fn lemma_money_bound(k: int)
    requires
        0 <= k <= MAX_STEPS,
    ensures
        k * (i32::MAX as int) <= i64::MAX,
        k * (u32::MAX as int) <= u64::MAX,
{
    assert(k * (i32::MAX as int) <= (MAX_STEPS as int) * (i32::MAX as int)) by (nonlinear_arith)
        requires
            0 <= k <= MAX_STEPS,
    ;
    assert(k * (u32::MAX as int) <= (MAX_STEPS as int) * (u32::MAX as int)) by (nonlinear_arith)
        requires
            0 <= k <= MAX_STEPS,
    ;
}

/// The portfolio figures of the report's coupons: how many there are, how many
/// settled with a readable settlement, how those count (a system coupon by
/// its columns), and their summed stakes and returns.
pub fn financial_totals(rows: &Vec<CouponRow>) -> (r: FinancialTotals)
    requires
        countable_rows(rows@),
    ensures
        r == financial_spec(rows@),
        r.won_count + r.lost_count + r.void_count <= r.settled_count,
        r.settled_count <= r.coupon_count,
{
    let n = rows.len();
    let mut t = FinancialTotals {
        coupon_count: 0,
        settled_count: 0,
        won_count: 0,
        lost_count: 0,
        void_count: 0,
        total_stake_cents: 0,
        total_gross_return_cents: 0,
    };
    let mut i: usize = 0;
    while i < n
        invariant
            n == rows@.len(),
            countable_rows(rows@),
            i <= n,
            t == financial_spec(rows@.subrange(0, i as int)),
            t.coupon_count == i,
            t.settled_count <= i,
            t.won_count + t.lost_count + t.void_count <= t.settled_count,
            0 <= t.total_stake_cents <= i * (i32::MAX as int),
            0 <= t.total_gross_return_cents <= i * (i32::MAX as int),
        decreases n - i,
    {
        proof {
            assert(rows@.subrange(0, i as int + 1).drop_last() =~= rows@.subrange(0, i as int));
            lemma_money_bound(i as int + 1);
            assert((i as int + 1) * (i32::MAX as int) == i * (i32::MAX as int) + i32::MAX) by (nonlinear_arith);
        }
        let row = &rows[i];
        let counted = row.settled && row.settlement.is_some();
        if counted {
            let f = row.settlement.unwrap();
            assert(rows@[i as int] == *row);
            let o = counted_outcome(row.coupon_type.as_str(), &f);
            t = FinancialTotals {
                coupon_count: t.coupon_count + 1,
                settled_count: t.settled_count + 1,
                won_count: t.won_count + if o == LegState::Won { 1 } else { 0 },
                lost_count: t.lost_count + if o == LegState::Lost { 1 } else { 0 },
                void_count: t.void_count + if o == LegState::Void { 1 } else { 0 },
                total_stake_cents: t.total_stake_cents + f.total_stake_cents,
                total_gross_return_cents: t.total_gross_return_cents + f.gross_return_cents,
            };
        } else {
            t = FinancialTotals { coupon_count: t.coupon_count + 1, ..t };
        }
        i = i + 1;
    }
    proof {
        assert(rows@.subrange(0, n as int) =~= rows@);
    }
    t
}

/// The figures of the system coupons; column totals are summed in 64 bits.
#[derive(Clone, Copy, Debug, PartialEq, Eq, Structural)]
pub struct SystemTotals {
    pub system_coupon_count: usize,
    pub settled_system_coupon_count: usize,
    pub total_columns: u64,
    pub winning_columns: u64,
    pub losing_columns: u64,
    pub void_columns: u64,
    pub total_stake_cents: i64,
    pub total_gross_return_cents: i64,
}

pub open spec fn system_spec(rows: Seq<CouponRow>) -> SystemTotals
    decreases rows.len(),
{
    if rows.len() == 0 {
        SystemTotals {
            system_coupon_count: 0,
            settled_system_coupon_count: 0,
            total_columns: 0,
            winning_columns: 0,
            losing_columns: 0,
            void_columns: 0,
            total_stake_cents: 0,
            total_gross_return_cents: 0,
        }
    } else {
        let t = system_spec(rows.drop_last());
        let r = rows.last();
        if r.coupon_type@ != "DAILY_SURPRISE_SYSTEM"@ {
            t
        } else {
            match r.settlement {
                None => SystemTotals { system_coupon_count: (t.system_coupon_count + 1) as usize, ..t },
                Some(f) => SystemTotals {
                    system_coupon_count: (t.system_coupon_count + 1) as usize,
                    settled_system_coupon_count: (t.settled_system_coupon_count + 1) as usize,
                    total_columns: (t.total_columns + f.total_columns) as u64,
                    winning_columns: (t.winning_columns + f.winning_columns) as u64,
                    losing_columns: (t.losing_columns + f.losing_columns) as u64,
                    void_columns: (t.void_columns + f.void_columns) as u64,
                    total_stake_cents: (t.total_stake_cents + f.total_stake_cents) as i64,
                    total_gross_return_cents: (t.total_gross_return_cents + f.gross_return_cents) as i64,
                },
            }
        }
    }
}

/// The figures of the system coupons among the report's coupons: every one
/// counts, and those with a readable settlement add their columns, stakes and
/// returns, settled or not.
pub fn system_totals(rows: &Vec<CouponRow>) -> (r: SystemTotals)
    requires
        countable_rows(rows@),
    ensures
        r == system_spec(rows@),
        r.settled_system_coupon_count <= r.system_coupon_count,
{
    let n = rows.len();
    let mut t = SystemTotals {
        system_coupon_count: 0,
        settled_system_coupon_count: 0,
        total_columns: 0,
        winning_columns: 0,
        losing_columns: 0,
        void_columns: 0,
        total_stake_cents: 0,
        total_gross_return_cents: 0,
    };
    let mut i: usize = 0;
    while i < n
        invariant
            n == rows@.len(),
            countable_rows(rows@),
            i <= n,
            t == system_spec(rows@.subrange(0, i as int)),
            t.system_coupon_count <= i,
            t.settled_system_coupon_count <= t.system_coupon_count,
            t.total_columns <= i * (u32::MAX as int),
            t.winning_columns <= i * (u32::MAX as int),
            t.losing_columns <= i * (u32::MAX as int),
            t.void_columns <= i * (u32::MAX as int),
            0 <= t.total_stake_cents <= i * (i32::MAX as int),
            0 <= t.total_gross_return_cents <= i * (i32::MAX as int),
        decreases n - i,
    {
        proof {
            assert(rows@.subrange(0, i as int + 1).drop_last() =~= rows@.subrange(0, i as int));
            lemma_money_bound(i as int + 1);
            assert((i as int + 1) * (i32::MAX as int) == i * (i32::MAX as int) + i32::MAX) by (nonlinear_arith);
            assert((i as int + 1) * (u32::MAX as int) == i * (u32::MAX as int) + u32::MAX) by (nonlinear_arith);
            assert(i * (i32::MAX as int) <= (i as int + 1) * (i32::MAX as int)) by (nonlinear_arith);
            assert(i * (u32::MAX as int) <= (i as int + 1) * (u32::MAX as int)) by (nonlinear_arith);
        }
        let row = &rows[i];
        assert(rows@[i as int] == *row);
        if text_eq(row.coupon_type.as_str(), "DAILY_SURPRISE_SYSTEM") {
            match row.settlement {
                None => {
                    t = SystemTotals { system_coupon_count: t.system_coupon_count + 1, ..t };
                },
                Some(f) => {
                    t = SystemTotals {
                        system_coupon_count: t.system_coupon_count + 1,
                        settled_system_coupon_count: t.settled_system_coupon_count + 1,
                        total_columns: t.total_columns + f.total_columns as u64,
                        winning_columns: t.winning_columns + f.winning_columns as u64,
                        losing_columns: t.losing_columns + f.losing_columns as u64,
                        void_columns: t.void_columns + f.void_columns as u64,
                        total_stake_cents: t.total_stake_cents + f.total_stake_cents,
                        total_gross_return_cents: t.total_gross_return_cents + f.gross_return_cents,
                    };
                },
            }
        }
        i = i + 1;
    }
    proof {
        assert(rows@.subrange(0, n as int) =~= rows@);
    }
    t
}

/// The portfolio never counts a compound coupon (its stakes roll over inside
/// the series), counts a system coupon only when systems are asked for, and
/// only counts coupons of the window's days; a system coupon with a winning
/// column counts as won, one with only losing columns as lost.
pub proof fn law_portfolio_rows_and_outcomes(
    coupon_type: Seq<char>,
    day: int,
    from: Option<int>,
    to: int,
    requested_type: Option<Seq<char>>,
    include_system: bool,
    s: SettledFigures,
)
    ensures
        row_included_spec("DAILY_COMPOUND"@, day, from, to, requested_type, include_system) == false,
        row_included_spec("DAILY_SURPRISE_SYSTEM"@, day, from, to, requested_type, false) == false,
        row_included_spec(coupon_type, day, from, to, requested_type, include_system) ==> day <= to && (from matches Some(
            f,
        ) ==> f <= day),
        s.winning_columns > 0 ==> counted_outcome_spec(true, s) == LegState::Won,
        s.winning_columns == 0 && s.losing_columns > 0 ==> counted_outcome_spec(true, s) == LegState::Lost,
{
}

} // verus!
