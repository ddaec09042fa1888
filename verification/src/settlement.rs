//! Settlement of single selections from confirmed final results, and of
//! whole coupons (accumulators and system coupons) from their legs.
use vstd::prelude::*;
use crate::text::{text_eq, owned};
use crate::coupons::SelectionOutcome;

verus! {

/// The line of a total market, as the settlement rules see it.
/// `HalfPoints(k)` is the line `k / 2`; `Fractional` is a finite line that is
/// not a multiple of one half (an Asian quarter line); `Missing` is an absent
/// or non-finite line.
#[derive(Clone, Copy, Debug, PartialEq, Eq, Structural)]
pub enum MarketLine {
    Missing,
    Fractional,
    HalfPoints(i64),
}

/// Outcome of one settled selection.
#[derive(Clone, Copy, Debug, PartialEq, Eq, Structural)]
pub enum LegResult {
    Won,
    Lost,
    Void,
}

/// Why a selection cannot be settled from the available result.
#[derive(Clone, Copy, Debug, PartialEq, Eq, Structural)]
pub enum SettleError {
    UnsupportedSelection,
    FinalCornersUnavailable,
    SelectionLineMissing,
    UnsupportedAsianLine,
    UnsupportedMarket,
}

impl LegResult {
    pub fn as_str(&self) -> (r: &'static str)
        ensures
            r@ == leg_result_name(*self),
    {
        match self {
            LegResult::Won => "WON",
            LegResult::Lost => "LOST",
            LegResult::Void => "VOID",
        }
    }
}

impl SettleError {
    pub fn as_str(&self) -> (r: &'static str)
        ensures
            r@ == settle_error_name(*self),
    {
        match self {
            SettleError::UnsupportedSelection => "UNSUPPORTED_SELECTION",
            SettleError::FinalCornersUnavailable => "FINAL_CORNERS_UNAVAILABLE",
            SettleError::SelectionLineMissing => "SELECTION_LINE_MISSING",
            SettleError::UnsupportedAsianLine => "UNSUPPORTED_ASIAN_LINE",
            SettleError::UnsupportedMarket => "UNSUPPORTED_MARKET",
        }
    }
}

pub open spec fn leg_result_name(r: LegResult) -> Seq<char> {
    match r {
        LegResult::Won => "WON"@,
        LegResult::Lost => "LOST"@,
        LegResult::Void => "VOID"@,
    }
}

pub open spec fn settle_error_name(e: SettleError) -> Seq<char> {
    match e {
        SettleError::UnsupportedSelection => "UNSUPPORTED_SELECTION"@,
        SettleError::FinalCornersUnavailable => "FINAL_CORNERS_UNAVAILABLE"@,
        SettleError::SelectionLineMissing => "SELECTION_LINE_MISSING"@,
        SettleError::UnsupportedAsianLine => "UNSUPPORTED_ASIAN_LINE"@,
        SettleError::UnsupportedMarket => "UNSUPPORTED_MARKET"@,
    }
}

pub open spec fn win_or_loss(win: bool) -> LegResult {
    if win { LegResult::Won } else { LegResult::Lost }
}

/// Settlement of a total market: `total` against the line `k / 2`.
pub open spec fn total_market_spec(selection: Seq<char>, line: MarketLine, total: int) -> Result<LegResult, SettleError> {
    match line {
        MarketLine::Missing => Err(SettleError::SelectionLineMissing),
        _ => if selection != "OVER"@ && selection != "UNDER"@ {
            Err(SettleError::UnsupportedSelection)
        } else {
            match line {
                MarketLine::HalfPoints(k) => if 2 * total == k {
                    Ok(LegResult::Void)
                } else if selection == "OVER"@ {
                    Ok(win_or_loss(2 * total > k))
                } else {
                    Ok(win_or_loss(2 * total < k))
                },
                _ => Err(SettleError::UnsupportedAsianLine),
            }
        },
    }
}

/// The settlement of one selection from the final score (and final corner
/// total, where known).
pub open spec fn outcome_spec(
    market: Seq<char>,
    selection: Seq<char>,
    line: MarketLine,
    home: int,
    away: int,
    corners: Option<int>,
) -> Result<LegResult, SettleError> {
    if market == "MATCH_RESULT"@ {
        if selection == "HOME"@ {
            Ok(win_or_loss(home > away))
        } else if selection == "DRAW"@ {
            Ok(win_or_loss(home == away))
        } else if selection == "AWAY"@ {
            Ok(win_or_loss(away > home))
        } else {
            Err(SettleError::UnsupportedSelection)
        }
    } else if market == "BTTS"@ || market == "BOTH_TEAMS_TO_SCORE"@ {
        if selection == "YES"@ {
            Ok(win_or_loss(home > 0 && away > 0))
        } else if selection == "NO"@ {
            Ok(win_or_loss(home == 0 || away == 0))
        } else {
            Err(SettleError::UnsupportedSelection)
        }
    } else if market == "TOTAL_GOALS"@ {
        total_market_spec(selection, line, home + away)
    } else if market == "FULL_TIME_TOTAL_CORNERS"@ || market == "CORNERS_TOTAL"@ {
        match corners {
            None => Err(SettleError::FinalCornersUnavailable),
            Some(c) => total_market_spec(selection, line, c),
        }
    } else {
        Err(SettleError::UnsupportedMarket)
    }
}

fn total_market(selection: &str, line: MarketLine, total: i128) -> (r: Result<LegResult, SettleError>)
    requires
        -0x1_0000_0000_0000_0000_0000 < total < 0x1_0000_0000_0000_0000_0000,
    ensures
        r == total_market_spec(selection@, line, total as int),
{
    let over = text_eq(selection, "OVER");
    let under = text_eq(selection, "UNDER");
    match line {
        MarketLine::Missing => Err(SettleError::SelectionLineMissing),
        _ => {
            if !over && !under {
                return Err(SettleError::UnsupportedSelection);
            }
            match line {
                MarketLine::HalfPoints(k) => {
                    let doubled = 2 * total;
                    let k = k as i128;
                    if doubled == k {
                        Ok(LegResult::Void)
                    } else if over {
                        Ok(if doubled > k { LegResult::Won } else { LegResult::Lost })
                    } else {
                        Ok(if doubled < k { LegResult::Won } else { LegResult::Lost })
                    }
                },
                _ => Err(SettleError::UnsupportedAsianLine),
            }
        },
    }
}

/// Settles one selection from the confirmed final score. Total markets are
/// settled against their line: equal totals are void, quarter lines are not
/// settled, and corner markets wait for the final corner total.
pub fn outcome(
    market: &str,
    selection: &str,
    line: MarketLine,
    home: i64,
    away: i64,
    corners: Option<i64>,
) -> (r: Result<LegResult, SettleError>)
    ensures
        r == outcome_spec(market@, selection@, line, home as int, away as int, match corners {
            Some(c) => Some(c as int),
            None => None,
        }),
{
    if text_eq(market, "MATCH_RESULT") {
        if text_eq(selection, "HOME") {
            Ok(if home > away { LegResult::Won } else { LegResult::Lost })
        } else if text_eq(selection, "DRAW") {
            Ok(if home == away { LegResult::Won } else { LegResult::Lost })
        } else if text_eq(selection, "AWAY") {
            Ok(if away > home { LegResult::Won } else { LegResult::Lost })
        } else {
            Err(SettleError::UnsupportedSelection)
        }
    } else if text_eq(market, "BTTS") || text_eq(market, "BOTH_TEAMS_TO_SCORE") {
        if text_eq(selection, "YES") {
            Ok(if home > 0 && away > 0 { LegResult::Won } else { LegResult::Lost })
        } else if text_eq(selection, "NO") {
            Ok(if home == 0 || away == 0 { LegResult::Won } else { LegResult::Lost })
        } else {
            Err(SettleError::UnsupportedSelection)
        }
    } else if text_eq(market, "TOTAL_GOALS") {
        total_market(selection, line, home as i128 + away as i128)
    } else if text_eq(market, "FULL_TIME_TOTAL_CORNERS") || text_eq(market, "CORNERS_TOTAL") {
        match corners {
            None => Err(SettleError::FinalCornersUnavailable),
            Some(c) => total_market(selection, line, c as i128),
        }
    } else {
        Err(SettleError::UnsupportedMarket)
    }
}


/// State of a leg, or of a whole column, while a coupon is being settled.
#[derive(Clone, Copy, Debug, PartialEq, Eq, Structural)]
pub enum LegState {
    Won,
    Lost,
    Void,
    Unsettled,
}

pub open spec fn leg_state_name(s: LegState) -> Seq<char> {
    match s {
        LegState::Won => "WON"@,
        LegState::Lost => "LOST"@,
        LegState::Void => "VOID"@,
        LegState::Unsettled => "UNSETTLED"@,
    }
}

impl LegState {
    pub fn as_str(&self) -> (r: &'static str)
        ensures
            r@ == leg_state_name(*self),
    {
        match self {
            LegState::Won => "WON",
            LegState::Lost => "LOST",
            LegState::Void => "VOID",
            LegState::Unsettled => "UNSETTLED",
        }
    }
}

/// Reads a reported leg result; only `WON`, `LOST`, `VOID` and `UNSETTLED`
/// are accepted.
/// The state a result text names.
pub open spec fn parsed_leg_state(s: Seq<char>) -> Option<LegState> {
    if s == "WON"@ {
        Some(LegState::Won)
    } else if s == "LOST"@ {
        Some(LegState::Lost)
    } else if s == "VOID"@ {
        Some(LegState::Void)
    } else if s == "UNSETTLED"@ {
        Some(LegState::Unsettled)
    } else {
        None
    }
}

pub fn parse_leg_state(s: &str) -> (r: Option<LegState>)
    ensures
        r == parsed_leg_state(s@),
        r matches Some(x) ==> leg_state_name(x) == s@,
        r is None <==> (s@ != "WON"@ && s@ != "LOST"@ && s@ != "VOID"@ && s@ != "UNSETTLED"@),
{
    if text_eq(s, "WON") {
        Some(LegState::Won)
    } else if text_eq(s, "LOST") {
        Some(LegState::Lost)
    } else if text_eq(s, "VOID") {
        Some(LegState::Void)
    } else if text_eq(s, "UNSETTLED") {
        Some(LegState::Unsettled)
    } else {
        None
    }
}

/// The state reported last for `id` among `outcomes` (a later report replaces
/// an earlier one); a leg without a report is unsettled.
pub open spec fn reported_state(outcomes: Seq<(i64, LegState)>, id: i64) -> LegState
    decreases outcomes.len(),
{
    if outcomes.len() == 0 {
        LegState::Unsettled
    } else if outcomes.last().0 == id {
        outcomes.last().1
    } else {
        reported_state(outcomes.drop_last(), id)
    }
}

fn reported(outcomes: &Vec<(i64, LegState)>, id: i64) -> (r: LegState)
    ensures
        r == reported_state(outcomes@, id),
{
    let mut i = outcomes.len();
    assert(outcomes@.take(i as int) =~= outcomes@);
    while i > 0
        invariant
            i <= outcomes@.len(),
            reported_state(outcomes@, id) == reported_state(outcomes@.take(i as int), id),
        decreases i,
    {
        let (x, s) = outcomes[i - 1];
        assert(outcomes@.take(i as int).drop_last() =~= outcomes@.take(i - 1));
        if x == id {
            return s;
        }
        i = i - 1;
    }
    assert(outcomes@.take(0).len() == 0);
    LegState::Unsettled
}

/// The state of every leg in `ids`, looked up among the reported outcomes.
pub fn leg_states(ids: &Vec<i64>, outcomes: &Vec<(i64, LegState)>) -> (r: Vec<LegState>)
    ensures
        r@.len() == ids@.len(),
        forall|i: int| 0 <= i < ids@.len() ==> r@[i] == reported_state(outcomes@, ids@[i]),
{
    let mut out: Vec<LegState> = Vec::new();
    let mut i: usize = 0;
    while i < ids.len()
        invariant
            i <= ids@.len(),
            out@.len() == i,
            forall|j: int| 0 <= j < i ==> out@[j] == reported_state(outcomes@, ids@[j]),
        decreases ids@.len() - i,
    {
        out.push(reported(outcomes, ids[i]));
        i = i + 1;
    }
    out
}

/// A column (or an accumulator) is lost as soon as one leg is lost; otherwise
/// it waits while a leg is unsettled; a column whose legs are all void is
/// void; otherwise it is won (void legs count at odds 1).
pub open spec fn column_state_spec(legs: Seq<LegState>) -> LegState {
    if exists|i: int| 0 <= i < legs.len() && legs[i] == LegState::Lost {
        LegState::Lost
    } else if exists|i: int| 0 <= i < legs.len() && legs[i] == LegState::Unsettled {
        LegState::Unsettled
    } else if forall|i: int| 0 <= i < legs.len() ==> legs[i] == LegState::Void {
        LegState::Void
    } else {
        LegState::Won
    }
}

pub fn column_state(legs: &Vec<LegState>) -> (r: LegState)
    ensures
        r == column_state_spec(legs@),
{
    let mut lost = false;
    let mut pending = false;
    let mut all_void = true;
    let mut i: usize = 0;
    while i < legs.len()
        invariant
            i <= legs@.len(),
            lost <==> exists|j: int| 0 <= j < i && legs@[j] == LegState::Lost,
            pending <==> exists|j: int| 0 <= j < i && legs@[j] == LegState::Unsettled,
            all_void <==> forall|j: int| 0 <= j < i ==> legs@[j] != LegState::Won,
        decreases legs@.len() - i,
    {
        match legs[i] {
            LegState::Lost => { lost = true; },
            LegState::Unsettled => { pending = true; },
            LegState::Won => { all_void = false; },
            LegState::Void => {},
        }
        i = i + 1;
    }
    if lost {
        LegState::Lost
    } else if pending {
        LegState::Unsettled
    } else if all_void {
        assert forall|j: int| 0 <= j < legs@.len() implies legs@[j] == LegState::Void by {
            assert(legs@[j] != LegState::Won);
            assert(legs@[j] != LegState::Lost);
            assert(legs@[j] != LegState::Unsettled);
        }
        LegState::Void
    } else {
        LegState::Won
    }
}

/// One settled column: its state and, when won, its gross return (stake
/// times the product of the won legs' odds, rounded to the cent).
#[derive(Clone, Copy, Debug)]
pub struct ColumnSettlement {
    pub state: LegState,
    pub won_return_cents: i64,
}

/// Result of settling a coupon.
#[derive(Clone, Debug)]
pub struct SettlementResult {
    pub coupon_id: i64,
    pub status: String,
    pub winning_columns: usize,
    pub losing_columns: usize,
    pub void_columns: usize,
    pub unsettled_columns: usize,
    pub total_columns: usize,
    pub total_stake_cents: i64,
    pub gross_return_cents: i64,
    pub profit_loss_cents: i64,
}

pub open spec fn count_state(cols: Seq<ColumnSettlement>, s: LegState) -> nat
    decreases cols.len(),
{
    if cols.len() == 0 {
        0
    } else {
        count_state(cols.drop_last(), s) + if cols.last().state == s { 1nat } else { 0nat }
    }
}

/// What a column returns: its won return, its stake back when void, nothing
/// otherwise.
pub open spec fn column_return(c: ColumnSettlement, refund: int) -> int {
    match c.state {
        LegState::Won => c.won_return_cents as int,
        LegState::Void => refund,
        _ => 0,
    }
}

pub open spec fn gross_spec(cols: Seq<ColumnSettlement>, refund: int) -> int
    decreases cols.len(),
{
    if cols.len() == 0 {
        0
    } else {
        gross_spec(cols.drop_last(), refund) + column_return(cols.last(), refund)
    }
}

/// The stake refunded by a void column: the unit stake of a system column,
/// the recorded total stake of an accumulator.
pub open spec fn refund_spec(is_system: bool, total_stake: Option<i64>, unit: Option<i64>) -> int {
    if is_system {
        match unit { Some(u) => u as int, None => 0 }
    } else {
        match total_stake { Some(t) => t as int, None => 0 }
    }
}

pub open spec fn stake_spec(total_stake: Option<i64>, unit: Option<i64>, columns: int) -> int {
    match total_stake {
        Some(t) => t as int,
        None => match unit { Some(u) => u as int * columns, None => 0 },
    }
}

/// Public outcome of a settlement: unsettled while a column is pending; an
/// accumulator with a lost column is lost; a coupon with a won column is
/// won; otherwise void.
pub open spec fn settlement_status(is_system: bool, won: nat, lost: nat, unsettled: nat) -> LegState {
    if unsettled > 0 {
        LegState::Unsettled
    } else if lost > 0 && !is_system {
        LegState::Lost
    } else if won > 0 {
        LegState::Won
    } else {
        LegState::Void
    }
}

proof fn lemma_count_bound(cols: Seq<ColumnSettlement>, s: LegState)
    ensures
        count_state(cols, s) <= cols.len(),
    decreases cols.len(),
{
    if cols.len() > 0 {
        lemma_count_bound(cols.drop_last(), s);
    }
}

/// Every column of a settled coupon is counted exactly once: its won, lost,
/// void and unsettled columns add up to all of its columns.
pub proof fn law_every_column_counted_once(cols: Seq<ColumnSettlement>)
    ensures
        count_state(cols, LegState::Won) + count_state(cols, LegState::Lost) + count_state(cols, LegState::Void)
            + count_state(cols, LegState::Unsettled) == cols.len(),
    decreases cols.len(),
{
    if cols.len() > 0 {
        law_every_column_counted_once(cols.drop_last());
    }
}

/// Settles a coupon from the states of its columns. An accumulator is one
/// column whose stake is the recorded total stake; a system coupon has one
/// column per combination, each staked with the unit stake.
pub fn settle_coupon(
    coupon_id: i64,
    is_system: bool,
    columns: &Vec<ColumnSettlement>,
    total_stake: Option<i64>,
    unit: Option<i64>,
) -> (r: SettlementResult)
    requires
        !is_system ==> columns@.len() == 1,
        forall|k: int| 0 <= k <= columns@.len() ==>
            i64::MIN <= #[trigger] gross_spec(columns@.take(k), refund_spec(is_system, total_stake, unit)) <= i64::MAX,
        i64::MIN <= stake_spec(total_stake, unit, if is_system { columns@.len() as int } else { 1 }) <= i64::MAX,
        i64::MIN <= gross_spec(columns@, refund_spec(is_system, total_stake, unit))
            - stake_spec(total_stake, unit, if is_system { columns@.len() as int } else { 1 }) <= i64::MAX,
    ensures
        r.coupon_id == coupon_id,
        r.winning_columns == count_state(columns@, LegState::Won),
        r.losing_columns == count_state(columns@, LegState::Lost),
        r.void_columns == count_state(columns@, LegState::Void),
        r.unsettled_columns == count_state(columns@, LegState::Unsettled),
        r.total_columns == if is_system { columns@.len() } else { 1 },
        r.gross_return_cents == gross_spec(columns@, refund_spec(is_system, total_stake, unit)),
        r.total_stake_cents == stake_spec(total_stake, unit, r.total_columns as int),
        r.profit_loss_cents == r.gross_return_cents - r.total_stake_cents,
        r.status@ == leg_state_name(settlement_status(is_system, r.winning_columns as nat,
            r.losing_columns as nat, r.unsettled_columns as nat)),
{
    let refund: i64 = if is_system {
        match unit { Some(u) => u, None => 0 }
    } else {
        match total_stake { Some(t) => t, None => 0 }
    };
    let ghost rf = refund_spec(is_system, total_stake, unit);
    let mut wins: usize = 0;
    let mut losses: usize = 0;
    let mut voids: usize = 0;
    let mut unsettled: usize = 0;
    let mut gross: i64 = 0;
    let mut i: usize = 0;
    while i < columns.len()
        invariant
            i <= columns@.len(),
            refund == rf,
            forall|k: int| 0 <= k <= columns@.len() ==>
                i64::MIN <= #[trigger] gross_spec(columns@.take(k), rf) <= i64::MAX,
            wins == count_state(columns@.take(i as int), LegState::Won),
            losses == count_state(columns@.take(i as int), LegState::Lost),
            voids == count_state(columns@.take(i as int), LegState::Void),
            unsettled == count_state(columns@.take(i as int), LegState::Unsettled),
            gross == gross_spec(columns@.take(i as int), rf),
        decreases columns@.len() - i,
    {
        let c = columns[i];
        assert(columns@.take(i + 1).drop_last() =~= columns@.take(i as int));
        assert(columns@.take(i + 1).last() == c);
        proof {
            lemma_count_bound(columns@.take(i as int), LegState::Won);
            lemma_count_bound(columns@.take(i as int), LegState::Lost);
            lemma_count_bound(columns@.take(i as int), LegState::Void);
            lemma_count_bound(columns@.take(i as int), LegState::Unsettled);
        }
        assert(gross_spec(columns@.take(i + 1), rf) == gross + column_return(c, rf));
        match c.state {
            LegState::Won => {
                wins = wins + 1;
                gross = gross + c.won_return_cents;
            },
            LegState::Lost => {
                losses = losses + 1;
            },
            LegState::Void => {
                voids = voids + 1;
                gross = gross + refund;
            },
            LegState::Unsettled => {
                unsettled = unsettled + 1;
            },
        }
        i = i + 1;
    }
    assert(columns@.take(columns@.len() as int) =~= columns@);
    let total_columns: usize = if is_system { columns.len() } else { 1 };
    let stake: i64 = match total_stake {
        Some(t) => t,
        None => match unit {
            Some(u) => {
                let wide = (u as i128) * (total_columns as i128);
                assert(wide == stake_spec(total_stake, unit, total_columns as int));
                wide as i64
            },
            None => 0,
        },
    };
    assert(stake == stake_spec(total_stake, unit, total_columns as int));
    let state = if unsettled > 0 {
        LegState::Unsettled
    } else if losses > 0 && !is_system {
        LegState::Lost
    } else if wins > 0 {
        LegState::Won
    } else {
        LegState::Void
    };
    SettlementResult {
        coupon_id,
        status: owned(state.as_str()),
        winning_columns: wins,
        losing_columns: losses,
        void_columns: voids,
        unsettled_columns: unsettled,
        total_columns,
        total_stake_cents: stake,
        gross_return_cents: gross,
        profit_loss_cents: gross - stake,
    }
}

/// A confirmed final result of a match as the settlement reads it.
#[derive(Clone, Copy, Debug, PartialEq, Eq, Structural)]
pub struct FinalResult {
    pub match_id: i64,
    pub home_goals: i64,
    pub away_goals: i64,
    pub corners: Option<i64>,
}

/// Why a selection is left unsettled.
#[derive(Clone, Copy, Debug, PartialEq, Eq, Structural)]
pub enum PendingReason {
    AmbiguousFinalResult,
    AwaitingMatchCompletion,
    FinalResultUnavailable,
    Unsettleable(SettleError),
}

/// The result a selection is settled from: among the finished matches that
/// share the fixture (the selection's own match listed first), its own match,
/// or the only one when there is just one.
pub open spec fn result_source(match_id: i64, results: Seq<FinalResult>) -> Option<FinalResult> {
    if results.len() > 0 && (results[0].match_id == match_id || results.len() == 1) {
        Some(results[0])
    } else {
        None
    }
}

pub open spec fn selection_decision_spec(
    match_id: i64,
    results: Seq<FinalResult>,
    kickoff_in_future: bool,
    market: Seq<char>,
    selection: Seq<char>,
    line: MarketLine,
) -> Result<LegResult, PendingReason> {
    match result_source(match_id, results) {
        Some(r) => match outcome_spec(market, selection, line, r.home_goals as int, r.away_goals as int, match r.corners {
            Some(c) => Some(c as int),
            None => None,
        }) {
            Ok(x) => Ok(x),
            Err(e) => Err(PendingReason::Unsettleable(e)),
        },
        None => Err(
            if results.len() > 1 {
                PendingReason::AmbiguousFinalResult
            } else if kickoff_in_future {
                PendingReason::AwaitingMatchCompletion
            } else {
                PendingReason::FinalResultUnavailable
            },
        ),
    }
}

/// Settles a pending selection from the finished results found for its
/// fixture: a unique or own result settles it; several candidate results
/// keep it pending as ambiguous, and without one it waits for the match or
/// for its data.
pub fn selection_decision(
    match_id: i64,
    results: &Vec<FinalResult>,
    kickoff_in_future: bool,
    market: &str,
    selection: &str,
    line: MarketLine,
) -> (r: Result<LegResult, PendingReason>)
    ensures
        r == selection_decision_spec(match_id, results@, kickoff_in_future, market@, selection@, line),
{
    let n = results.len();
    if n > 0 && (results[0].match_id == match_id || n == 1) {
        let r = results[0];
        match outcome(market, selection, line, r.home_goals, r.away_goals, r.corners) {
            Ok(x) => Ok(x),
            Err(e) => Err(PendingReason::Unsettleable(e)),
        }
    } else if n > 1 {
        Err(PendingReason::AmbiguousFinalResult)
    } else if kickoff_in_future {
        Err(PendingReason::AwaitingMatchCompletion)
    } else {
        Err(PendingReason::FinalResultUnavailable)
    }
}

/// The audit state of a selection after a check: its result when settled,
/// pending while the match is still to come, and pending data otherwise.
pub fn audit_state(decision: &Result<LegResult, PendingReason>) -> (r: &'static str)
    ensures
        r@ == (match *decision {
            Ok(x) => leg_result_name(x),
            Err(PendingReason::AwaitingMatchCompletion) => "PENDING"@,
            Err(_) => "PENDING_DATA"@,
        }),
{
    match decision {
        Ok(x) => x.as_str(),
        Err(PendingReason::AwaitingMatchCompletion) => "PENDING",
        Err(_) => "PENDING_DATA",
    }
}

/// The reason recorded with a selection left pending.
pub fn pending_reason_text(reason: PendingReason) -> (r: &'static str)
    ensures
        r@ == (match reason {
            PendingReason::AmbiguousFinalResult => "AMBIGUOUS_FINAL_RESULT"@,
            PendingReason::AwaitingMatchCompletion => "AWAITING_MATCH_COMPLETION"@,
            PendingReason::FinalResultUnavailable => "FINAL_RESULT_UNAVAILABLE"@,
            PendingReason::Unsettleable(e) => settle_error_name(e),
        }),
{
    match reason {
        PendingReason::AmbiguousFinalResult => "AMBIGUOUS_FINAL_RESULT",
        PendingReason::AwaitingMatchCompletion => "AWAITING_MATCH_COMPLETION",
        PendingReason::FinalResultUnavailable => "FINAL_RESULT_UNAVAILABLE",
        PendingReason::Unsettleable(e) => e.as_str(),
    }
}

/// Why a settlement request is refused.
#[derive(Clone, Copy, Debug, PartialEq, Eq, Structural)]
pub enum SettleRequestError {
    CouponNotFinalized,
    InvalidSettlementResult,
}

impl SettleRequestError {
    pub fn as_str(&self) -> (r: &'static str)
        ensures
            r@ == (match *self {
                SettleRequestError::CouponNotFinalized => "COUPON_NOT_FINALIZED"@,
                SettleRequestError::InvalidSettlementResult => "INVALID_SETTLEMENT_RESULT"@,
            }),
    {
        match self {
            SettleRequestError::CouponNotFinalized => "COUPON_NOT_FINALIZED",
            SettleRequestError::InvalidSettlementResult => "INVALID_SETTLEMENT_RESULT",
        }
    }
}

/// What a settlement request does with a coupon.
#[derive(Clone, Copy, Debug, PartialEq, Eq, Structural)]
pub enum SettlementGate {
    /// The coupon is settled already: its stored settlement is returned.
    ReturnStored,
    /// The coupon is final and is settled now.
    Settle,
}

pub open spec fn gate_spec(status: Seq<char>) -> Result<SettlementGate, SettleRequestError> {
    if status == "SETTLED"@ {
        Ok(SettlementGate::ReturnStored)
    } else if status == "FINALIZED"@ {
        Ok(SettlementGate::Settle)
    } else {
        Err(SettleRequestError::CouponNotFinalized)
    }
}

/// A settled coupon is answered with its stored settlement, so settling
/// twice changes nothing; only a finalized coupon is settled.
pub fn settlement_gate(status: &str) -> (r: Result<SettlementGate, SettleRequestError>)
    ensures
        r == gate_spec(status@),
{
    if text_eq(status, "SETTLED") {
        Ok(SettlementGate::ReturnStored)
    } else if text_eq(status, "FINALIZED") {
        Ok(SettlementGate::Settle)
    } else {
        Err(SettleRequestError::CouponNotFinalized)
    }
}

/// The coupon's status once a settlement is stored: settled when no column
/// is pending, still finalized otherwise.
pub open spec fn status_after_spec(unsettled_columns: usize) -> Seq<char> {
    if unsettled_columns == 0 {
        "SETTLED"@
    } else {
        "FINALIZED"@
    }
}

pub fn status_after_settlement(result: &SettlementResult) -> (r: &'static str)
    ensures
        r@ == status_after_spec(result.unsettled_columns),
{
    if result.unsettled_columns == 0 {
        "SETTLED"
    } else {
        "FINALIZED"
    }
}

/// Settlement is idempotent: once a settlement with no pending column is
/// stored, the coupon is settled, and any later request for it is answered
/// with the stored settlement, whatever outcomes it carries; a settlement
/// with a pending column leaves the coupon open to be settled again.
pub proof fn law_settled_coupon_answers_with_its_stored_settlement(result: SettlementResult)
    ensures
        result.unsettled_columns == 0 ==> gate_spec(status_after_spec(result.unsettled_columns)) == Ok::<
            SettlementGate,
            SettleRequestError,
        >(SettlementGate::ReturnStored),
        result.unsettled_columns > 0 ==> gate_spec(status_after_spec(result.unsettled_columns)) == Ok::<
            SettlementGate,
            SettleRequestError,
        >(SettlementGate::Settle),
{
    reveal_strlit("SETTLED");
    reveal_strlit("FINALIZED");
    assert("SETTLED"@[0] != "FINALIZED"@[0]);
}

/// The reported outcomes of a settlement request, each read as a state, or
/// the refusal when one of them names no state.
pub open spec fn outcomes_spec(o: Seq<SelectionOutcome>) -> Result<Seq<(i64, LegState)>, SettleRequestError> {
    if forall|i: int| 0 <= i < o.len() ==> (#[trigger] parsed_leg_state(o[i].result@)) is Some {
        Ok(Seq::new(o.len(), |i: int| (o[i].candidate_id, parsed_leg_state(o[i].result@)->0)))
    } else {
        Err(SettleRequestError::InvalidSettlementResult)
    }
}

pub fn reported_outcomes(o: &Vec<SelectionOutcome>) -> (r: Result<Vec<(i64, LegState)>, SettleRequestError>)
    ensures
        match r {
            Ok(v) => outcomes_spec(o@) == Ok::<Seq<(i64, LegState)>, SettleRequestError>(v@),
            Err(e) => outcomes_spec(o@) == Err::<Seq<(i64, LegState)>, SettleRequestError>(e),
        },
{
    let mut out: Vec<(i64, LegState)> = Vec::new();
    let n = o.len();
    let mut i: usize = 0;
    while i < n
        invariant
            n == o@.len(),
            i <= n,
            out@.len() == i,
            forall|k: int| 0 <= k < i ==> (#[trigger] parsed_leg_state(o@[k].result@)) is Some,
            forall|k: int|
                0 <= k < i ==> #[trigger] out@[k] == (o@[k].candidate_id, parsed_leg_state(o@[k].result@)->0),
        decreases n - i,
    {
        match parse_leg_state(o[i].result.as_str()) {
            Some(state) => {
                out.push((o[i].candidate_id, state));
            },
            None => {
                return Err(SettleRequestError::InvalidSettlementResult);
            },
        }
        i = i + 1;
    }
    proof {
        assert(out@ =~= Seq::new(o@.len(), |k: int| (o@[k].candidate_id, parsed_leg_state(o@[k].result@)->0)));
    }
    Ok(out)
}

/// What is kept of an automatic settlement.
#[derive(Clone, Debug)]
pub enum RecordedSettlement {
    /// The coupon had a recorded stake: the whole settlement is kept.
    Money(SettlementResult),
    /// No stake was recorded: only the outcome is kept, and no money.
    StakeNotRecorded { status: String },
}

/// An automatic settlement never invents realized money: a coupon without a
/// recorded stake keeps its outcome and no monetary settlement.
pub fn recorded_settlement(stake: Option<i64>, result: SettlementResult) -> (r: RecordedSettlement)
    ensures
        match r {
            RecordedSettlement::Money(x) => stake is Some && x == result,
            RecordedSettlement::StakeNotRecorded { status } => stake is None && status@ == result.status@,
        },
{
    match stake {
        Some(_) => RecordedSettlement::Money(result),
        None => RecordedSettlement::StakeNotRecorded { status: result.status },
    }
}

proof fn lemma_selection_names_differ()
    ensures
        "HOME"@ != "DRAW"@,
        "HOME"@ != "AWAY"@,
        "DRAW"@ != "AWAY"@,
        "YES"@ != "NO"@,
        "OVER"@ != "UNDER"@,
        "MATCH_RESULT"@ != "BTTS"@,
        "MATCH_RESULT"@ != "BOTH_TEAMS_TO_SCORE"@,
        "MATCH_RESULT"@ != "TOTAL_GOALS"@,
        "TOTAL_GOALS"@ != "BTTS"@,
        "TOTAL_GOALS"@ != "BOTH_TEAMS_TO_SCORE"@,
        "BTTS"@ != "BOTH_TEAMS_TO_SCORE"@,
{
    reveal_strlit("HOME");
    reveal_strlit("DRAW");
    reveal_strlit("AWAY");
    reveal_strlit("YES");
    reveal_strlit("NO");
    reveal_strlit("OVER");
    reveal_strlit("UNDER");
    reveal_strlit("MATCH_RESULT");
    reveal_strlit("BTTS");
    reveal_strlit("BOTH_TEAMS_TO_SCORE");
    reveal_strlit("TOTAL_GOALS");
    assert("HOME"@[0] != "DRAW"@[0]);
    assert("HOME"@[0] != "AWAY"@[0]);
    assert("DRAW"@[0] != "AWAY"@[0]);
    assert("YES"@[0] != "NO"@[0]);
    assert("OVER"@[0] != "UNDER"@[0]);
    assert("MATCH_RESULT"@[0] != "BTTS"@[0]);
    assert("MATCH_RESULT"@[0] != "BOTH_TEAMS_TO_SCORE"@[0]);
    assert("MATCH_RESULT"@[0] != "TOTAL_GOALS"@[0]);
    assert("TOTAL_GOALS"@[0] != "BTTS"@[0]);
    assert("TOTAL_GOALS"@[0] != "BOTH_TEAMS_TO_SCORE"@[0]);
    assert("BTTS"@.len() != "BOTH_TEAMS_TO_SCORE"@.len());
}

pub open spec fn won(r: Result<LegResult, SettleError>) -> bool {
    r == Ok::<LegResult, SettleError>(LegResult::Won)
}

pub open spec fn one_if(b: bool) -> int {
    if b {
        1
    } else {
        0
    }
}

/// The three match-result picks split every score: exactly one of home, draw
/// and away wins, the others lose (none is void); away wins exactly when the
/// away side scored more, home exactly when the home side did, and a home
/// pick on a score reads as an away pick on the mirrored score.
pub proof fn law_match_result_picks_exactly_one_winner(home: int, away: int, line: MarketLine, corners: Option<int>)
    ensures
        ({
            let h = outcome_spec("MATCH_RESULT"@, "HOME"@, line, home, away, corners);
            let d = outcome_spec("MATCH_RESULT"@, "DRAW"@, line, home, away, corners);
            let a = outcome_spec("MATCH_RESULT"@, "AWAY"@, line, home, away, corners);
            &&& one_if(won(h)) + one_if(won(d)) + one_if(won(a)) == 1
            &&& (h == Ok::<LegResult, SettleError>(LegResult::Won) || h == Ok::<LegResult, SettleError>(LegResult::Lost))
            &&& (d == Ok::<LegResult, SettleError>(LegResult::Won) || d == Ok::<LegResult, SettleError>(LegResult::Lost))
            &&& (a == Ok::<LegResult, SettleError>(LegResult::Won) || a == Ok::<LegResult, SettleError>(LegResult::Lost))
            &&& (won(a) <==> away > home)
            &&& (won(h) <==> home > away)
            &&& (won(d) <==> home == away)
            &&& h == outcome_spec("MATCH_RESULT"@, "AWAY"@, line, away, home, corners)
        }),
{
    lemma_selection_names_differ();
}

/// Both-teams-to-score YES and NO split every score: exactly one of them
/// wins, and YES wins exactly when both sides scored.
pub proof fn law_btts_picks_are_complementary(home: int, away: int, line: MarketLine, corners: Option<int>)
    requires
        home >= 0,
        away >= 0,
    ensures
        ({
            let y = outcome_spec("BTTS"@, "YES"@, line, home, away, corners);
            let n = outcome_spec("BTTS"@, "NO"@, line, home, away, corners);
            &&& y is Ok && n is Ok
            &&& one_if(won(y)) + one_if(won(n)) == 1
            &&& (won(y) <==> home > 0 && away > 0)
        }),
{
    lemma_selection_names_differ();
}

/// On a half line (such as 2.5) over and under split every score, and over
/// wins exactly when the goals exceed the line; on a whole line a total equal
/// to the line voids both.
pub proof fn law_goal_totals_split_at_the_line(home: int, away: int, k: i64, corners: Option<int>)
    ensures
        ({
            let o = outcome_spec("TOTAL_GOALS"@, "OVER"@, MarketLine::HalfPoints(k), home, away, corners);
            let u = outcome_spec("TOTAL_GOALS"@, "UNDER"@, MarketLine::HalfPoints(k), home, away, corners);
            &&& o is Ok && u is Ok
            &&& (won(o) <==> 2 * (home + away) > k)
            &&& (won(u) <==> 2 * (home + away) < k)
            &&& (2 * (home + away) == k ==> o == Ok::<LegResult, SettleError>(LegResult::Void) && u == o)
            &&& (k % 2 == 1 ==> one_if(won(o)) + one_if(won(u)) == 1)
        }),
{
    lemma_selection_names_differ();
}

/// One lost leg loses its column, whatever the other legs are.
pub proof fn law_a_lost_leg_loses_the_column(legs: Seq<LegState>, i: int)
    requires
        0 <= i < legs.len(),
        legs[i] == LegState::Lost,
    ensures
        column_state_spec(legs) == LegState::Lost,
        column_state_spec(legs.push(LegState::Unsettled)) == LegState::Lost,
{
    assert(legs.push(LegState::Unsettled)[i] == LegState::Lost);
}

/// A column waits only while no leg has lost and some leg is unsettled; it
/// is won only when every leg is won or void and one is won; it is void only
/// when every leg is void.
pub proof fn law_column_states_follow_their_legs(legs: Seq<LegState>)
    ensures
        column_state_spec(legs) == LegState::Unsettled ==> (forall|i: int| 0 <= i < legs.len() ==> legs[i]
            != LegState::Lost) && exists|i: int| 0 <= i < legs.len() && legs[i] == LegState::Unsettled,
        column_state_spec(legs) == LegState::Won ==> (forall|i: int|
            0 <= i < legs.len() ==> legs[i] == LegState::Won || legs[i] == LegState::Void) && exists|i: int|
            0 <= i < legs.len() && legs[i] == LegState::Won,
        column_state_spec(legs) == LegState::Void ==> forall|i: int| 0 <= i < legs.len() ==> legs[i] == LegState::Void,
        column_state_spec(legs) == LegState::Lost ==> exists|i: int| 0 <= i < legs.len() && legs[i] == LegState::Lost,
{
    if column_state_spec(legs) == LegState::Won {
        assert forall|i: int| 0 <= i < legs.len() implies legs[i] == LegState::Won || legs[i] == LegState::Void by {
            if legs[i] == LegState::Lost {
                assert(exists|j: int| 0 <= j < legs.len() && legs[j] == LegState::Lost);
            }
            if legs[i] == LegState::Unsettled {
                assert(exists|j: int| 0 <= j < legs.len() && legs[j] == LegState::Unsettled);
            }
        }
        assert(!forall|i: int| 0 <= i < legs.len() ==> legs[i] == LegState::Void);
        let w = choose|i: int| 0 <= i < legs.len() && legs[i] != LegState::Void;
        assert(legs[w] == LegState::Won);
    }
    if column_state_spec(legs) == LegState::Unsettled {
        assert forall|i: int| 0 <= i < legs.len() implies legs[i] != LegState::Lost by {
            if legs[i] == LegState::Lost {
                assert(exists|j: int| 0 <= j < legs.len() && legs[j] == LegState::Lost);
            }
        }
    }
}

/// An accumulator with a lost leg is settled lost at once: its single column
/// is lost, nothing waits, and it returns nothing.
pub proof fn law_accumulator_with_a_lost_leg_is_lost(legs: Seq<LegState>, i: int, won_return_cents: i64, refund: int)
    requires
        0 <= i < legs.len(),
        legs[i] == LegState::Lost,
    ensures
        ({
            let cols = seq![ColumnSettlement { state: column_state_spec(legs), won_return_cents }];
            &&& count_state(cols, LegState::Unsettled) == 0
            &&& count_state(cols, LegState::Lost) == 1
            &&& settlement_status(
                false,
                count_state(cols, LegState::Won),
                count_state(cols, LegState::Lost),
                count_state(cols, LegState::Unsettled),
            ) == LegState::Lost
            &&& gross_spec(cols, refund) == 0
        }),
{
    law_a_lost_leg_loses_the_column(legs, i);
    let cols = seq![ColumnSettlement { state: column_state_spec(legs), won_return_cents }];
    assert(cols.drop_last() =~= Seq::<ColumnSettlement>::empty());
    assert(cols.last().state == LegState::Lost);
    assert(count_state(cols.drop_last(), LegState::Unsettled) == 0);
    assert(count_state(cols.drop_last(), LegState::Lost) == 0);
    assert(count_state(cols.drop_last(), LegState::Won) == 0);
    assert(gross_spec(cols.drop_last(), refund) == 0);
    assert(count_state(cols, LegState::Unsettled) == 0);
    assert(count_state(cols, LegState::Lost) == 1);
    assert(count_state(cols, LegState::Won) == 0);
    assert(gross_spec(cols, refund) == 0);
}

} // verus!
