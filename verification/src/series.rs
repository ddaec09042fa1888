//! The compound ("katlama") series: a stake rolled over up to seven steps.
//! A won step rolls its return into the next step, a lost step starts the
//! series again from step one with the starting stake, a void step is
//! retried at the same step and stake.
use vstd::prelude::*;
use crate::text::text_eq;
use crate::settlement::{LegResult, leg_result_name};

verus! {

/// The last step of a series.
pub const KATLAMA_MAX_STEP: usize = 7;

#[derive(Clone, Copy, Debug, PartialEq, Eq, Structural)]
pub enum SeriesStatus {
    Active,
    Completed,
    Cancelled,
}

pub open spec fn series_status_name(s: SeriesStatus) -> Seq<char> {
    match s {
        SeriesStatus::Active => "ACTIVE"@,
        SeriesStatus::Completed => "COMPLETED"@,
        SeriesStatus::Cancelled => "CANCELLED"@,
    }
}

impl SeriesStatus {
    pub fn as_str(&self) -> (r: &'static str)
        ensures
            r@ == series_status_name(*self),
    {
        match self {
            SeriesStatus::Active => "ACTIVE",
            SeriesStatus::Completed => "COMPLETED",
            SeriesStatus::Cancelled => "CANCELLED",
        }
    }

    pub fn parse(s: &str) -> (r: Option<SeriesStatus>)
        ensures
            r matches Some(x) ==> series_status_name(x) == s@,
            r is None ==> s@ != "ACTIVE"@ && s@ != "COMPLETED"@ && s@ != "CANCELLED"@,
    {
        if text_eq(s, "ACTIVE") {
            Some(SeriesStatus::Active)
        } else if text_eq(s, "COMPLETED") {
            Some(SeriesStatus::Completed)
        } else if text_eq(s, "CANCELLED") {
            Some(SeriesStatus::Cancelled)
        } else {
            None
        }
    }
}

/// The rolling state of a series.
#[derive(Clone, Copy, Debug, PartialEq, Eq, Structural)]
pub struct SeriesState {
    pub status: SeriesStatus,
    pub current_step: usize,
    pub starting_stake_cents: i64,
    pub current_stake_cents: i64,
    pub completed_steps: usize,
    pub reset_count: usize,
}

impl SeriesState {
    /// A series is always at a step between one and seven.
    pub open spec fn wf(self) -> bool {
        1 <= self.current_step <= KATLAMA_MAX_STEP
    }
}

#[derive(Clone, Copy, Debug, PartialEq, Eq, Structural)]
pub enum SeriesError {
    InvalidStartingStake,
    ActiveSeriesExists,
    SeriesCompleted,
    SeriesNotActive,
    InvalidSeriesResult,
    NoStepCoupon,
    StepAlreadySettled,
    StepCouponNotSettled,
}

pub open spec fn series_error_name(e: SeriesError) -> Seq<char> {
    match e {
        SeriesError::InvalidStartingStake => "INVALID_STARTING_STAKE"@,
        SeriesError::ActiveSeriesExists => "ACTIVE_SERIES_EXISTS"@,
        SeriesError::SeriesCompleted => "SERIES_COMPLETED"@,
        SeriesError::SeriesNotActive => "SERIES_NOT_ACTIVE"@,
        SeriesError::InvalidSeriesResult => "INVALID_SERIES_RESULT"@,
        SeriesError::NoStepCoupon => "NO_STEP_COUPON"@,
        SeriesError::StepAlreadySettled => "STEP_ALREADY_SETTLED"@,
        SeriesError::StepCouponNotSettled => "STEP_COUPON_NOT_SETTLED"@,
    }
}

impl SeriesError {
    pub fn as_str(&self) -> (r: &'static str)
        ensures
            r@ == series_error_name(*self),
    {
        match self {
            SeriesError::InvalidStartingStake => "INVALID_STARTING_STAKE",
            SeriesError::ActiveSeriesExists => "ACTIVE_SERIES_EXISTS",
            SeriesError::SeriesCompleted => "SERIES_COMPLETED",
            SeriesError::SeriesNotActive => "SERIES_NOT_ACTIVE",
            SeriesError::InvalidSeriesResult => "INVALID_SERIES_RESULT",
            SeriesError::NoStepCoupon => "NO_STEP_COUPON",
            SeriesError::StepAlreadySettled => "STEP_ALREADY_SETTLED",
            SeriesError::StepCouponNotSettled => "STEP_COUPON_NOT_SETTLED",
        }
    }
}

pub open spec fn start_spec(stake: i64, active_exists: bool) -> Result<SeriesState, SeriesError> {
    if stake <= 0 {
        Err(SeriesError::InvalidStartingStake)
    } else if active_exists {
        Err(SeriesError::ActiveSeriesExists)
    } else {
        Ok(SeriesState {
            status: SeriesStatus::Active,
            current_step: 1,
            starting_stake_cents: stake,
            current_stake_cents: stake,
            completed_steps: 0,
            reset_count: 0,
        })
    }
}

/// Starts a series at step one with a positive stake, unless another series
/// is still active.
pub fn start_series(stake: i64, active_exists: bool) -> (r: Result<SeriesState, SeriesError>)
    ensures
        r == start_spec(stake, active_exists),
        r matches Ok(s) ==> s.wf(),
{
    if stake <= 0 {
        Err(SeriesError::InvalidStartingStake)
    } else if active_exists {
        Err(SeriesError::ActiveSeriesExists)
    } else {
        Ok(SeriesState {
            status: SeriesStatus::Active,
            current_step: 1,
            starting_stake_cents: stake,
            current_stake_cents: stake,
            completed_steps: 0,
            reset_count: 0,
        })
    }
}

/// What settling the latest step does: the new series state and the result
/// to record on the latest step, if any.
#[derive(Clone, Copy, Debug, PartialEq, Eq, Structural)]
pub struct SeriesAction {
    pub state: SeriesState,
    pub mark_latest_step: Option<LegResult>,
}

/// Why an active series refuses to settle: it has no step coupon, its latest
/// step is settled already, or the result does not come from the settlement
/// of that step's coupon.
pub open spec fn step_refusal(latest_step: Option<Seq<char>>, coupon_settled: bool) -> Option<SeriesError> {
    match latest_step {
        None => Some(SeriesError::NoStepCoupon),
        Some(r) => if r != "UNSETTLED"@ {
            Some(SeriesError::StepAlreadySettled)
        } else if !coupon_settled {
            Some(SeriesError::StepCouponNotSettled)
        } else {
            None
        },
    }
}

pub open spec fn unchanged(s: SeriesState) -> SeriesAction {
    SeriesAction { state: s, mark_latest_step: None }
}

pub open spec fn settle_series_spec(
    s: SeriesState,
    latest_step: Option<Seq<char>>,
    coupon_settled: bool,
    result: Seq<char>,
    gross: i64,
) -> Result<SeriesAction, SeriesError> {
    if s.status != SeriesStatus::Active {
        Ok(unchanged(s))
    } else if step_refusal(latest_step, coupon_settled) is Some {
        Err(step_refusal(latest_step, coupon_settled)->0)
    } else if result == "WON"@ {
        if s.current_step >= KATLAMA_MAX_STEP {
            Ok(SeriesAction {
                state: SeriesState { status: SeriesStatus::Completed, completed_steps: KATLAMA_MAX_STEP, ..s },
                mark_latest_step: Some(LegResult::Won),
            })
        } else {
            Ok(SeriesAction {
                state: SeriesState {
                    current_step: (s.current_step + 1) as usize,
                    completed_steps: (s.completed_steps + 1) as usize,
                    current_stake_cents: gross,
                    ..s
                },
                mark_latest_step: Some(LegResult::Won),
            })
        }
    } else if result == "LOST"@ {
        Ok(SeriesAction {
            state: SeriesState {
                status: SeriesStatus::Active,
                current_step: 1,
                current_stake_cents: s.starting_stake_cents,
                reset_count: (s.reset_count + 1) as usize,
                ..s
            },
            mark_latest_step: Some(LegResult::Lost),
        })
    } else if result == "VOID"@ {
        Ok(SeriesAction { state: s, mark_latest_step: Some(LegResult::Void) })
    } else {
        Err(SeriesError::InvalidSeriesResult)
    }
}

/// Settles the latest step of a series with the result of its coupon.
/// `latest_step` is the recorded result of the latest step coupon's step
/// (`None` when the series has no step coupon), and `coupon_settled` says
/// whether this result comes from settling that coupon. A series that is not
/// active is left as it is; an active one moves only when its open step is
/// settled through its coupon, and refuses otherwise, keeping its state.
pub fn settle_series_result(
    s: &SeriesState,
    latest_step: Option<&str>,
    coupon_settled: bool,
    result: &str,
    gross_return_cents: i64,
) -> (r: Result<SeriesAction, SeriesError>)
    requires
        s.completed_steps < usize::MAX,
        s.reset_count < usize::MAX,
    ensures
        r == settle_series_spec(
            *s,
            match latest_step {
                Some(x) => Some(x@),
                None => None,
            },
            coupon_settled,
            result@,
            gross_return_cents,
        ),
{
    if s.status != SeriesStatus::Active {
        return Ok(SeriesAction { state: *s, mark_latest_step: None });
    }
    match latest_step {
        None => {
            return Err(SeriesError::NoStepCoupon);
        },
        Some(x) => {
            if !text_eq(x, "UNSETTLED") {
                return Err(SeriesError::StepAlreadySettled);
            }
            if !coupon_settled {
                return Err(SeriesError::StepCouponNotSettled);
            }
        },
    }
    if text_eq(result, "WON") {
        if s.current_step >= KATLAMA_MAX_STEP {
            Ok(SeriesAction {
                state: SeriesState { status: SeriesStatus::Completed, completed_steps: KATLAMA_MAX_STEP, ..*s },
                mark_latest_step: Some(LegResult::Won),
            })
        } else {
            Ok(SeriesAction {
                state: SeriesState {
                    current_step: s.current_step + 1,
                    completed_steps: s.completed_steps + 1,
                    current_stake_cents: gross_return_cents,
                    ..*s
                },
                mark_latest_step: Some(LegResult::Won),
            })
        }
    } else if text_eq(result, "LOST") {
        Ok(SeriesAction {
            state: SeriesState {
                status: SeriesStatus::Active,
                current_step: 1,
                current_stake_cents: s.starting_stake_cents,
                reset_count: s.reset_count + 1,
                ..*s
            },
            mark_latest_step: Some(LegResult::Lost),
        })
    } else if text_eq(result, "VOID") {
        Ok(SeriesAction { state: *s, mark_latest_step: Some(LegResult::Void) })
    } else {
        Err(SeriesError::InvalidSeriesResult)
    }
}

pub open spec fn compound_step_gate_spec(status: SeriesStatus) -> Result<(), SeriesError> {
    match status {
        SeriesStatus::Completed => Err(SeriesError::SeriesCompleted),
        SeriesStatus::Active => Ok(()),
        SeriesStatus::Cancelled => Err(SeriesError::SeriesNotActive),
    }
}

/// A new step can only be generated for an active series.
pub fn compound_step_gate(status: SeriesStatus) -> (r: Result<(), SeriesError>)
    ensures
        r == compound_step_gate_spec(status),
{
    match status {
        SeriesStatus::Completed => Err(SeriesError::SeriesCompleted),
        SeriesStatus::Active => Ok(()),
        SeriesStatus::Cancelled => Err(SeriesError::SeriesNotActive),
    }
}

/// Cancelling stops an active series; any other series is left as it is.
pub fn cancel_series(s: &SeriesState) -> (r: SeriesState)
    ensures
        r == (if s.status == SeriesStatus::Active { SeriesState { status: SeriesStatus::Cancelled, ..*s } } else { *s }),
{
    if s.status == SeriesStatus::Active {
        SeriesState { status: SeriesStatus::Cancelled, ..*s }
    } else {
        *s
    }
}


proof fn lemma_result_names_differ()
    ensures
        "WON"@ != "LOST"@,
        "WON"@ != "VOID"@,
        "LOST"@ != "VOID"@,
        "UNSETTLED"@ != "WON"@,
        "UNSETTLED"@ != "LOST"@,
        "UNSETTLED"@ != "VOID"@,
{
    reveal_strlit("VOID");
    reveal_strlit("WON");
    reveal_strlit("LOST");
    reveal_strlit("UNSETTLED");
    assert("WON"@[0] != "LOST"@[0]);
    assert("WON"@[0] != "VOID"@[0]);
    assert("LOST"@[0] != "VOID"@[0]);
    assert("UNSETTLED"@[0] != "WON"@[0]);
    assert("UNSETTLED"@[0] != "LOST"@[0]);
    assert("UNSETTLED"@[0] != "VOID"@[0]);
}

/// The open latest step of a series, settled through its coupon.
pub open spec fn step_settles(latest_step: Option<Seq<char>>, coupon_settled: bool) -> bool {
    latest_step == Some("UNSETTLED"@) && coupon_settled
}

/// A lost step of an active series, settled through its coupon, starts the
/// series again: back to step one, with the starting stake, one more reset.
pub proof fn law_loss_restarts(s: SeriesState, latest_step: Option<Seq<char>>, coupon_settled: bool, gross: i64)
    requires
        s.status == SeriesStatus::Active,
        step_settles(latest_step, coupon_settled),
        s.reset_count < usize::MAX,
    ensures
        settle_series_spec(s, latest_step, coupon_settled, "LOST"@, gross) matches Ok(a) && {
            &&& a.state.status == SeriesStatus::Active
            &&& a.state.current_step == 1
            &&& a.state.current_stake_cents == s.starting_stake_cents
            &&& a.state.reset_count == s.reset_count + 1
            &&& a.mark_latest_step == Some(LegResult::Lost)
        },
{
    lemma_result_names_differ();
}

/// A won step before the last one advances the series by exactly one step
/// and rolls the gross return into the next stake; a won last step
/// completes the series.
pub proof fn law_win_rolls_over(s: SeriesState, latest_step: Option<Seq<char>>, coupon_settled: bool, gross: i64)
    requires
        s.status == SeriesStatus::Active,
        step_settles(latest_step, coupon_settled),
    ensures
        settle_series_spec(s, latest_step, coupon_settled, "WON"@, gross) matches Ok(a) && if s.current_step
            < KATLAMA_MAX_STEP {
            &&& a.state.status == SeriesStatus::Active
            &&& a.state.current_step == s.current_step + 1
            &&& a.state.current_stake_cents == gross
        } else {
            &&& a.state.status == SeriesStatus::Completed
            &&& a.state.completed_steps == KATLAMA_MAX_STEP
        },
{
    lemma_result_names_differ();
}

/// A void step is retried: the series keeps its step and its stake, and an
/// open step settled through its coupon is marked void.
pub proof fn law_void_retries(s: SeriesState, latest_step: Option<Seq<char>>, coupon_settled: bool, gross: i64)
    ensures
        settle_series_spec(s, latest_step, coupon_settled, "VOID"@, gross) matches Ok(a) ==> a.state == s,
        s.status == SeriesStatus::Active && step_settles(latest_step, coupon_settled) ==> settle_series_spec(
            s,
            latest_step,
            coupon_settled,
            "VOID"@,
            gross,
        ) == Ok::<SeriesAction, SeriesError>(SeriesAction { state: s, mark_latest_step: Some(LegResult::Void) }),
{
    lemma_result_names_differ();
}

/// A step is settled once: after a step has been settled with a result, a
/// second settlement of the same step (with any result) is refused as
/// already settled.
pub proof fn law_step_settles_once(
    s: SeriesState,
    first: Seq<char>,
    second: Seq<char>,
    again_from_coupon: bool,
    g1: i64,
    g2: i64,
)
    requires
        s.status == SeriesStatus::Active,
        first == "WON"@ || first == "LOST"@ || first == "VOID"@,
        s.current_step < KATLAMA_MAX_STEP || first != "WON"@,
    ensures
        settle_series_spec(s, Some("UNSETTLED"@), true, first, g1) matches Ok(a) && a.mark_latest_step matches Some(m)
            && settle_series_spec(a.state, Some(leg_result_name(m)), again_from_coupon, second, g2)
            == Err::<SeriesAction, SeriesError>(SeriesError::StepAlreadySettled),
{
    lemma_result_names_differ();
}

/// An active series moves only through the settlement of its open step
/// coupon: without a step coupon, with a settled latest step, or with a
/// result that does not come from that coupon, it refuses and keeps its
/// state.
pub proof fn law_series_moves_only_through_its_step_coupon(
    s: SeriesState,
    latest_step: Option<Seq<char>>,
    coupon_settled: bool,
    result: Seq<char>,
    gross: i64,
)
    requires
        s.status == SeriesStatus::Active,
        !step_settles(latest_step, coupon_settled),
    ensures
        settle_series_spec(s, latest_step, coupon_settled, result, gross) is Err,
        latest_step is None ==> settle_series_spec(s, latest_step, coupon_settled, result, gross)
            == Err::<SeriesAction, SeriesError>(SeriesError::NoStepCoupon),
        (latest_step matches Some(x) && x != "UNSETTLED"@) ==> settle_series_spec(
            s,
            latest_step,
            coupon_settled,
            result,
            gross,
        ) == Err::<SeriesAction, SeriesError>(SeriesError::StepAlreadySettled),
{
}

/// A series that is not active is never changed by a settlement.
pub proof fn law_inactive_is_frozen(
    s: SeriesState,
    latest_step: Option<Seq<char>>,
    coupon_settled: bool,
    result: Seq<char>,
    gross: i64,
)
    requires
        s.status != SeriesStatus::Active,
    ensures
        settle_series_spec(s, latest_step, coupon_settled, result, gross) == Ok::<SeriesAction, SeriesError>(
            unchanged(s),
        ),
{
}

/// Every settlement keeps a series between step one and step seven.
pub proof fn law_steps_stay_in_range(
    s: SeriesState,
    latest_step: Option<Seq<char>>,
    coupon_settled: bool,
    result: Seq<char>,
    gross: i64,
)
    requires
        s.wf(),
    ensures
        settle_series_spec(s, latest_step, coupon_settled, result, gross) matches Ok(a) ==> a.state.wf(),
{
}

} // verus!
