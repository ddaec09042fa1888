//! Operational readiness: the verdict on every subsystem, the capabilities
//! they enable, and the ten core checks that decide the overall state.
use vstd::prelude::*;

use crate::clock::{elapsed_whole_hours, parse_rfc3339, rfc3339_instant, whole_hours_between, Instant};
use crate::text::{counted, decimal_text, join_with_spaces, joined_with_spaces, owned, text_eq};

verus! {

/// The state of a subsystem, a capability or a core check.
#[derive(Clone, Copy, Debug, PartialEq, Eq, Structural)]
pub enum ReadinessState {
    Ready,
    Partial,
    ActionRequired,
    Updating,
    Unavailable,
    Error,
    Optional,
    Background,
}

/// Whether a capability is available, and the reasons why it is not.
#[derive(Debug)]
pub struct CapabilityReadiness {
    pub ready: bool,
    pub reasons: Vec<String>,
}

/// One of the core checks that the overall state is scored on.
#[derive(Debug)]
pub struct CoreCheck {
    pub id: String,
    pub title: String,
    pub status: ReadinessState,
    pub reasons: Vec<String>,
}

/// Facts about background work that the running application knows and the
/// store does not.
#[derive(Debug)]
pub struct RuntimeReadiness {
    pub historical_dataset_count: usize,
    pub historical_cached_count: usize,
    pub historical_imported_count: usize,
    pub historical_missing_count: usize,
    pub historical_failed_count: usize,
    pub historical_cached_bytes: u64,
    pub asset_state: String,
    pub asset_bytes_this_run: i64,
    pub lineup_provider_configured: bool,
}

impl Default for RuntimeReadiness {
    /// Nothing imported, nothing cached, asset work idle, no lineup provider.
    fn default() -> (r: Self)
        ensures
            r.historical_dataset_count == 0,
            r.historical_cached_count == 0,
            r.historical_imported_count == 0,
            r.historical_missing_count == 0,
            r.historical_failed_count == 0,
            r.historical_cached_bytes == 0,
            r.asset_state@ == "IDLE"@,
            r.asset_bytes_this_run == 0,
            !r.lineup_provider_configured,
    {
        RuntimeReadiness {
            historical_dataset_count: 0,
            historical_cached_count: 0,
            historical_imported_count: 0,
            historical_missing_count: 0,
            historical_failed_count: 0,
            historical_cached_bytes: 0,
            asset_state: owned("IDLE"),
            asset_bytes_this_run: 0,
            lineup_provider_configured: false,
        }
    }
}

/// The texts of a list of strings.
pub open spec fn texts(v: Seq<String>) -> Seq<Seq<char>> {
    v.map_values(|s: String| s@)
}

/// The number of core checks that the overall state is scored on.
pub const CORE_CHECK_COUNT: usize = 10;

/// A core check: a check that is not ready carries its reason.
pub fn core_check(id: &str, title: &str, status: ReadinessState, reason: &str) -> (r: CoreCheck)
    ensures
        r.id@ == id@,
        r.title@ == title@,
        r.status == status,
        texts(r.reasons@) == (if status == ReadinessState::Ready { Seq::<Seq<char>>::empty() } else { seq![reason@] }),
{
    let mut reasons: Vec<String> = Vec::new();
    if status != ReadinessState::Ready {
        reasons.push(owned(reason));
    }
    proof {
        if status == ReadinessState::Ready {
            assert(texts(reasons@) =~= Seq::<Seq<char>>::empty());
        } else {
            assert(texts(reasons@) =~= seq![reason@]);
        }
    }
    CoreCheck { id: owned(id), title: owned(title), status, reasons }
}

/// Every check is ready.
pub open spec fn all_ready(checks: Seq<CoreCheck>) -> bool {
    forall|i: int| 0 <= i < checks.len() ==> (#[trigger] checks[i]).status == ReadinessState::Ready
}

/// Some check is in the given state.
pub open spec fn some_in_state(checks: Seq<CoreCheck>, state: ReadinessState) -> bool {
    exists|i: int| 0 <= i < checks.len() && (#[trigger] checks[i]).status == state
}

/// The base model check is present and ready.
pub open spec fn base_model_ready(checks: Seq<CoreCheck>) -> bool {
    exists|i: int|
        0 <= i < checks.len() && (#[trigger] checks[i]).status == ReadinessState::Ready && checks[i].id@
            == "base_model"@
}

/// The overall state of a list of core checks: ready only when all ten are
/// ready; otherwise an error dominates, a ready base model makes the state
/// partial, and anything else asks for action.
pub open spec fn core_overall_spec(checks: Seq<CoreCheck>) -> ReadinessState {
    if checks.len() == CORE_CHECK_COUNT && all_ready(checks) {
        ReadinessState::Ready
    } else if some_in_state(checks, ReadinessState::Error) {
        ReadinessState::Error
    } else if base_model_ready(checks) {
        ReadinessState::Partial
    } else {
        ReadinessState::ActionRequired
    }
}

/// The overall state of the core checks.
pub fn core_overall(checks: &[CoreCheck]) -> (r: ReadinessState)
    ensures
        r == core_overall_spec(checks@),
{
    let n = checks.len();
    let mut every_ready = true;
    let mut any_error = false;
    let mut base_ready = false;
    let mut i: usize = 0;
    while i < n
        invariant
            n == checks@.len(),
            i <= n,
            every_ready == (forall|j: int| 0 <= j < i ==> (#[trigger] checks@[j]).status == ReadinessState::Ready),
            any_error == (exists|j: int| 0 <= j < i && (#[trigger] checks@[j]).status == ReadinessState::Error),
            base_ready == (exists|j: int|
                0 <= j < i && (#[trigger] checks@[j]).status == ReadinessState::Ready && checks@[j].id@
                    == "base_model"@),
        decreases n - i,
    {
        let check = &checks[i];
        if check.status != ReadinessState::Ready {
            every_ready = false;
        }
        if check.status == ReadinessState::Error {
            any_error = true;
        }
        if check.status == ReadinessState::Ready && text_eq(check.id.as_str(), "base_model") {
            base_ready = true;
        }
        i = i + 1;
    }
    if n == CORE_CHECK_COUNT && every_ready {
        ReadinessState::Ready
    } else if any_error {
        ReadinessState::Error
    } else if base_ready {
        ReadinessState::Partial
    } else {
        ReadinessState::ActionRequired
    }
}

/// A single check that is not ready keeps the overall state from being ready,
/// and so does any list that is not exactly the ten core checks.
pub proof fn law_every_blocker_drops_ready(checks: Seq<CoreCheck>, i: int)
    requires
        0 <= i < checks.len(),
        checks[i].status != ReadinessState::Ready,
    ensures
        core_overall_spec(checks) != ReadinessState::Ready,
{
}

/// The overall state is ready exactly when all ten core checks are ready.
pub proof fn law_ready_iff_all_ten_ready(checks: Seq<CoreCheck>)
    ensures
        (core_overall_spec(checks) == ReadinessState::Ready) == (checks.len() == CORE_CHECK_COUNT && all_ready(
            checks,
        )),
{
}

/// Short of full readiness, a check in error makes the overall state an error.
pub proof fn law_error_dominates(checks: Seq<CoreCheck>, i: int)
    requires
        0 <= i < checks.len(),
        checks[i].status == ReadinessState::Error,
    ensures
        core_overall_spec(checks) == ReadinessState::Error,
{
}

/// The reasons of the gates that are not ready, in order.
pub open spec fn blocked_reasons(gates: Seq<(ReadinessState, &str)>) -> Seq<Seq<char>>
    decreases gates.len(),
{
    if gates.len() == 0 {
        Seq::empty()
    } else {
        let rest = blocked_reasons(gates.drop_last());
        if gates.last().0 != ReadinessState::Ready {
            rest.push(gates.last().1@)
        } else {
            rest
        }
    }
}

/// A capability is ready when every gate it depends on is ready; the reasons
/// of the gates that are not ready are listed in order.
pub fn capable(gates: &[(ReadinessState, &str)]) -> (r: CapabilityReadiness)
    ensures
        texts(r.reasons@) == blocked_reasons(gates@),
        r.ready == (r.reasons@.len() == 0),
{
    let mut reasons: Vec<String> = Vec::new();
    let n = gates.len();
    let mut i: usize = 0;
    while i < n
        invariant
            n == gates@.len(),
            i <= n,
            texts(reasons@) == blocked_reasons(gates@.subrange(0, i as int)),
        decreases n - i,
    {
        let gate = gates[i];
        proof {
            assert(gates@.subrange(0, i as int + 1).drop_last() =~= gates@.subrange(0, i as int));
        }
        if gate.0 != ReadinessState::Ready {
            reasons.push(owned(gate.1));
            proof {
                assert(texts(reasons@) =~= texts(reasons@.drop_last()).push(gate.1@));
            }
        }
        i = i + 1;
    }
    proof {
        assert(gates@.subrange(0, n as int) =~= gates@);
    }
    let ready = reasons.len() == 0;
    CapabilityReadiness { ready, reasons }
}

/// A capability that a single unready gate names is not ready.
pub proof fn law_unready_gate_blocks(gates: Seq<(ReadinessState, &str)>, i: int)
    requires
        0 <= i < gates.len(),
        gates[i].0 != ReadinessState::Ready,
    ensures
        blocked_reasons(gates).len() > 0,
    decreases gates.len(),
{
    if i < gates.len() - 1 {
        law_unready_gate_blocks(gates.drop_last(), i);
    }
}


/// The oldest odds snapshot, in whole hours, that still counts as current.
pub const MAX_DAILY_ODDS_AGE_HOURS: i64 = 24;

/// The oldest popularity snapshot, in whole hours, that still counts as current.
pub const MAX_POPULARITY_AGE_HOURS: i64 = 24;

/// The verdict on one subsystem: its state, the message shown for it and an
/// optional machine-readable reason.
#[derive(Debug)]
pub struct SubsystemVerdict {
    pub status: ReadinessState,
    pub message: String,
    pub technical_reason: Option<String>,
}

/// The text of an optional string.
pub open spec fn opt_text(o: Option<String>) -> Option<Seq<char>> {
    match o {
        Some(s) => Some(s@),
        None => None,
    }
}

impl View for SubsystemVerdict {
    type V = (ReadinessState, Seq<char>, Option<Seq<char>>);

    open spec fn view(&self) -> Self::V {
        (self.status, self.message@, opt_text(self.technical_reason))
    }
}

fn verdict(status: ReadinessState, message: &str, technical_reason: Option<String>) -> (r: SubsystemVerdict)
    ensures
        r@ == (status, message@, opt_text(technical_reason)),
{
    SubsystemVerdict { status, message: owned(message), technical_reason }
}

fn some_text(s: &str) -> (r: Option<String>)
    ensures
        opt_text(r) == Some(s@),
{
    Some(owned(s))
}

pub(crate) fn clone_text(o: &Option<String>) -> (r: Option<String>)
    ensures
        opt_text(r) == opt_text(*o),
{
    match o {
        Some(s) => Some(owned(s.as_str())),
        None => None,
    }
}

/// The identity of the active prediction model.
#[derive(Debug)]
pub struct ModelIdentity {
    pub version: String,
    pub artifact_hash: Option<String>,
}

/// The identity of the active calibration and of the model it was fitted on.
#[derive(Debug)]
pub struct CalibrationIdentity {
    pub version: String,
    pub parent_model_version: String,
    pub parent_artifact_hash: String,
}

/// The identity of the active lineup adjustment model and of the base model
/// it adjusts.
#[derive(Debug)]
pub struct LineupModelIdentity {
    pub version: String,
    pub artifact_hash: String,
    pub parent_model_version: String,
    pub parent_model_hash: String,
    pub feature_version: String,
}

/// What the store and the running application report, as plain values.
#[derive(Debug)]
pub struct ReadinessFacts {
    pub scope_ready: bool,
    pub finished_matches: i64,
    pub min_training_samples: i64,
    pub upcoming_match_count: i64,
    pub odds_snapshot_count: i64,
    pub latest_odds_snapshot_time: Option<String>,
    pub latest_iddaa_error: Option<String>,
    pub popularity_selection_count: i64,
    pub popularity_snapshot_time: Option<String>,
    pub known_teams: i64,
    pub cached_logos: i64,
    pub logos_in_progress: i64,
    pub global_matches: i64,
    pub global_resolved: i64,
    pub current_matches: i64,
    pub current_resolved: i64,
    pub pending_resolution_diagnostics: i64,
    pub upcoming_supported: i64,
    pub upcoming_resolved: i64,
    pub production_events: i64,
    pub production_features_missing: i64,
    pub features_generated: i64,
    pub insufficient_history: i64,
    pub active_model: Option<ModelIdentity>,
    pub artifact_valid: bool,
    pub feature_compatible: bool,
    pub calibration: Option<CalibrationIdentity>,
    pub calibration_loads: bool,
    pub lineup_model: Option<LineupModelIdentity>,
    pub lineup_model_loads: bool,
    pub official_complete_lineups: i64,
    pub lineup_provider_availability: String,
    pub missing_predictions: i64,
    pub publication_error: Option<String>,
    pub pipeline_failure: Option<String>,
}

impl ReadinessFacts {
    /// The counts are row counts: none is negative.
    pub open spec fn wf(self) -> bool {
        &&& self.global_resolved >= 0
        &&& self.current_resolved >= 0
        &&& self.upcoming_resolved >= 0
        &&& self.global_matches >= 0
        &&& self.current_matches >= 0
        &&& self.upcoming_supported >= 0
    }
}

/// The age in whole hours of a snapshot taken at the given time, when the
/// time can be read.
pub open spec fn snapshot_age(time: Option<String>, now: Instant) -> Option<int> {
    match time {
        Some(t) => match rfc3339_instant(t@) {
            Some(taken) => Some(whole_hours_between(now, taken)),
            None => None,
        },
        None => None,
    }
}

fn snapshot_age_hours(time: &Option<String>, now: Instant) -> (r: Option<i64>)
    requires
        now.wf(),
    ensures
        match snapshot_age(*time, now) {
            Some(h) => r == Some(h as i64) && h == r->0,
            None => r is None,
        },
{
    match time {
        Some(t) => match parse_rfc3339(t.as_str()) {
            Some(taken) => Some(elapsed_whole_hours(now, taken)),
            None => None,
        },
        None => None,
    }
}

/// Odds are fresh when snapshots exist and the latest is between zero and
/// the maximum age, inclusive.
pub open spec fn odds_fresh(f: ReadinessFacts, now: Instant) -> bool {
    f.odds_snapshot_count > 0 && match snapshot_age(f.latest_odds_snapshot_time, now) {
        Some(h) => 0 <= h <= MAX_DAILY_ODDS_AGE_HOURS,
        None => false,
    }
}

/// Settled history suffices for the model.
pub open spec fn historical_ok(f: ReadinessFacts, runtime: RuntimeReadiness) -> bool {
    f.scope_ready && f.finished_matches >= f.min_training_samples && runtime.historical_imported_count > 0
}

pub open spec fn historical_spec(f: ReadinessFacts, runtime: RuntimeReadiness) -> (ReadinessState, Seq<char>, Option<Seq<char>>) {
    if !f.scope_ready {
        (
            ReadinessState::ActionRequired,
            "Üretim kapsamı hazırlanıyor; desteklenen lig kayıtları ve geçmiş bağlantıları henüz tamamlanmadı."@,
            Some("PRODUCTION_SCOPE_BOOTSTRAP_INCOMPLETE"@),
        )
    } else {
        let status = if historical_ok(f, runtime) {
            ReadinessState::Ready
        } else if runtime.historical_failed_count > 0 && f.finished_matches == 0 && runtime.historical_cached_count == 0 {
            ReadinessState::Error
        } else if f.finished_matches > 0 || runtime.historical_cached_count > 0 {
            ReadinessState::Partial
        } else {
            ReadinessState::ActionRequired
        };
        let message = if historical_ok(f, runtime) {
            "Model için yeterli sonuçlanmış geçmiş mevcut."@
        } else if f.finished_matches > 0 {
            "Geçmiş veri var ancak model hazırlığı için eksik."@
        } else {
            "Geçmiş futbol verisi henüz içe aktarılmadı."@
        };
        let reason = if runtime.historical_failed_count > 0 {
            Some("HISTORICAL_IMPORT_FAILED"@)
        } else {
            None
        };
        (status, message, reason)
    }
}

fn historical_verdict(f: &ReadinessFacts, runtime: &RuntimeReadiness) -> (r: SubsystemVerdict)
    ensures
        r@ == historical_spec(*f, *runtime),
{
    if !f.scope_ready {
        return verdict(
            ReadinessState::ActionRequired,
            "Üretim kapsamı hazırlanıyor; desteklenen lig kayıtları ve geçmiş bağlantıları henüz tamamlanmadı.",
            some_text("PRODUCTION_SCOPE_BOOTSTRAP_INCOMPLETE"),
        );
    }
    let ok = f.finished_matches >= f.min_training_samples && runtime.historical_imported_count > 0;
    let status = if ok {
        ReadinessState::Ready
    } else if runtime.historical_failed_count > 0 && f.finished_matches == 0 && runtime.historical_cached_count == 0 {
        ReadinessState::Error
    } else if f.finished_matches > 0 || runtime.historical_cached_count > 0 {
        ReadinessState::Partial
    } else {
        ReadinessState::ActionRequired
    };
    let reason = if runtime.historical_failed_count > 0 {
        some_text("HISTORICAL_IMPORT_FAILED")
    } else {
        None
    };
    if ok {
        verdict(status, "Model için yeterli sonuçlanmış geçmiş mevcut.", reason)
    } else if f.finished_matches > 0 {
        verdict(status, "Geçmiş veri var ancak model hazırlığı için eksik.", reason)
    } else {
        verdict(status, "Geçmiş futbol verisi henüz içe aktarılmadı.", reason)
    }
}

pub open spec fn iddaa_spec(f: ReadinessFacts, now: Instant) -> (ReadinessState, Seq<char>, Option<Seq<char>>) {
    let status = if f.upcoming_match_count > 0 {
        if odds_fresh(f, now) {
            ReadinessState::Ready
        } else {
            ReadinessState::Partial
        }
    } else if f.latest_iddaa_error is Some {
        ReadinessState::Error
    } else {
        ReadinessState::ActionRequired
    };
    let message = if f.upcoming_match_count > 0 {
        "Güncel bülten kullanılabilir."@
    } else if f.latest_iddaa_error is Some {
        "Son canlı veri yenilemesi başarısız; yerel veriler korunuyor."@
    } else {
        "Güncel İddaa bülteni bulunamadı."@
    };
    (status, message, opt_text(f.latest_iddaa_error))
}

fn iddaa_verdict(f: &ReadinessFacts, fresh: bool, Ghost(now): Ghost<Instant>) -> (r: SubsystemVerdict)
    requires
        fresh == odds_fresh(*f, now),
    ensures
        r@ == iddaa_spec(*f, now),
{
    let reason = clone_text(&f.latest_iddaa_error);
    if f.upcoming_match_count > 0 {
        let status = if fresh { ReadinessState::Ready } else { ReadinessState::Partial };
        verdict(status, "Güncel bülten kullanılabilir.", reason)
    } else if f.latest_iddaa_error.is_some() {
        verdict(ReadinessState::Error, "Son canlı veri yenilemesi başarısız; yerel veriler korunuyor.", reason)
    } else {
        verdict(ReadinessState::ActionRequired, "Güncel İddaa bülteni bulunamadı.", reason)
    }
}

pub open spec fn odds_spec(f: ReadinessFacts, now: Instant) -> (ReadinessState, Seq<char>, Option<Seq<char>>) {
    if odds_fresh(f, now) {
        (ReadinessState::Ready, "Oran snapshot’ları güncel."@, None)
    } else if f.odds_snapshot_count > 0 {
        (ReadinessState::Partial, "Oran snapshot’ları eskimiş."@, Some("STALE_ODDS"@))
    } else {
        (ReadinessState::ActionRequired, "Oran verisi bulunamadı."@, None)
    }
}

fn odds_verdict(f: &ReadinessFacts, fresh: bool, Ghost(now): Ghost<Instant>) -> (r: SubsystemVerdict)
    requires
        fresh == odds_fresh(*f, now),
    ensures
        r@ == odds_spec(*f, now),
{
    if fresh {
        verdict(ReadinessState::Ready, "Oran snapshot’ları güncel.", None)
    } else if f.odds_snapshot_count > 0 {
        verdict(ReadinessState::Partial, "Oran snapshot’ları eskimiş.", some_text("STALE_ODDS"))
    } else {
        verdict(ReadinessState::ActionRequired, "Oran verisi bulunamadı.", None)
    }
}

pub open spec fn popularity_spec(f: ReadinessFacts, now: Instant) -> (ReadinessState, Seq<char>, Option<Seq<char>>) {
    if f.popularity_selection_count > 0 {
        let current = match snapshot_age(f.popularity_snapshot_time, now) {
            Some(h) => h <= MAX_POPULARITY_AGE_HOURS,
            None => false,
        };
        (
            if current { ReadinessState::Ready } else { ReadinessState::Partial },
            "Popüler seçim snapshot’ı kullanılabilir."@,
            None,
        )
    } else {
        (ReadinessState::Unavailable, "Popülerlik verisi yok; tahminler etkilenmez."@, None)
    }
}

fn popularity_verdict(f: &ReadinessFacts, now: Instant) -> (r: SubsystemVerdict)
    requires
        now.wf(),
    ensures
        r@ == popularity_spec(*f, now),
{
    if f.popularity_selection_count > 0 {
        let age = snapshot_age_hours(&f.popularity_snapshot_time, now);
        let current = match age {
            Some(h) => h <= MAX_POPULARITY_AGE_HOURS,
            None => false,
        };
        let status = if current { ReadinessState::Ready } else { ReadinessState::Partial };
        verdict(status, "Popüler seçim snapshot’ı kullanılabilir.", None)
    } else {
        verdict(ReadinessState::Unavailable, "Popülerlik verisi yok; tahminler etkilenmez.", None)
    }
}

pub open spec fn logos_spec(f: ReadinessFacts, runtime: RuntimeReadiness) -> (ReadinessState, Seq<char>, Option<Seq<char>>) {
    let idle = runtime.asset_state@ == "IDLE"@;
    let reason = Some("Kaynak bazında denemeler: logo_attempts; kalıcı eşlemeler ve yeniden deneme: logo_sources."@);
    if f.logos_in_progress > 0 {
        (
            ReadinessState::Background,
            "Kaynak keşfi ve logo indirmeleri arka planda sürüyor; üretim hazırlığını etkilemez."@,
            reason,
        )
    } else {
        let status = if f.known_teams > 0 && f.cached_logos == f.known_teams {
            ReadinessState::Ready
        } else if !idle {
            ReadinessState::Background
        } else {
            ReadinessState::Optional
        };
        let message = if !idle {
            "Eksik logolar arka planda kontrol ediliyor."@
        } else if f.known_teams == 0 {
            "Henüz bilinen takım yok; tahmin hazırlığı etkilenmez."@
        } else if f.cached_logos == f.known_teams {
            "Tüm bilinen takım logoları hazır."@
        } else {
            "Bazı logolar eksik; tahminler etkilenmez."@
        };
        (status, message, reason)
    }
}

fn logos_verdict(f: &ReadinessFacts, runtime: &RuntimeReadiness) -> (r: SubsystemVerdict)
    ensures
        r@ == logos_spec(*f, *runtime),
{
    let reason = some_text("Kaynak bazında denemeler: logo_attempts; kalıcı eşlemeler ve yeniden deneme: logo_sources.");
    if f.logos_in_progress > 0 {
        return verdict(
            ReadinessState::Background,
            "Kaynak keşfi ve logo indirmeleri arka planda sürüyor; üretim hazırlığını etkilemez.",
            reason,
        );
    }
    let idle = text_eq(runtime.asset_state.as_str(), "IDLE");
    let status = if f.known_teams > 0 && f.cached_logos == f.known_teams {
        ReadinessState::Ready
    } else if !idle {
        ReadinessState::Background
    } else {
        ReadinessState::Optional
    };
    if !idle {
        verdict(status, "Eksik logolar arka planda kontrol ediliyor.", reason)
    } else if f.known_teams == 0 {
        verdict(status, "Henüz bilinen takım yok; tahmin hazırlığı etkilenmez.", reason)
    } else if f.cached_logos == f.known_teams {
        verdict(status, "Tüm bilinen takım logoları hazır.", reason)
    } else {
        verdict(status, "Bazı logolar eksik; tahminler etkilenmez.", reason)
    }
}


/// Upcoming supported matches whose canonical identities are still missing.
pub open spec fn blocking_unresolved(f: ReadinessFacts) -> int {
    f.upcoming_supported - f.upcoming_resolved
}

pub open spec fn resolution_spec(f: ReadinessFacts) -> (ReadinessState, Seq<char>, Option<Seq<char>>) {
    let blocking = blocking_unresolved(f);
    let status = if f.scope_ready && blocking == 0 {
        ReadinessState::Ready
    } else {
        ReadinessState::ActionRequired
    };
    if !f.scope_ready {
        (
            status,
            "Desteklenen üretim kapsamı ve lig bağlantıları otomatik hazırlanıyor."@,
            Some("PRODUCTION_SCOPE_BOOTSTRAP_INCOMPLETE"@),
        )
    } else {
        let message = if blocking == 0 {
            "Güncel ve gelecek üretim kapsamındaki maçların kanonik eşleştirmeleri hazır."@
        } else {
            decimal_text(blocking as i64) + " gelecek desteklenen maç eşleştirme bekliyor."@
        };
        let reason = decimal_text(blocking as i64) + " PRODUCTION_UNRESOLVED; "@ + decimal_text(
            (f.global_matches - f.global_resolved) as i64,
        ) + " REGISTRY_UNRESOLVED; "@ + decimal_text((f.current_matches - f.current_resolved) as i64)
            + " TODAY_UNRESOLVED; "@ + decimal_text(f.pending_resolution_diagnostics) + " PENDING_DIAGNOSTICS"@;
        (status, message, Some(reason))
    }
}

fn resolution_verdict(f: &ReadinessFacts) -> (r: SubsystemVerdict)
    requires
        f.wf(),
    ensures
        r@ == resolution_spec(*f),
{
    let blocking = f.upcoming_supported - f.upcoming_resolved;
    let status = if f.scope_ready && blocking == 0 {
        ReadinessState::Ready
    } else {
        ReadinessState::ActionRequired
    };
    if !f.scope_ready {
        return verdict(
            status,
            "Desteklenen üretim kapsamı ve lig bağlantıları otomatik hazırlanıyor.",
            some_text("PRODUCTION_SCOPE_BOOTSTRAP_INCOMPLETE"),
        );
    }
    let message = if blocking == 0 {
        owned("Güncel ve gelecek üretim kapsamındaki maçların kanonik eşleştirmeleri hazır.")
    } else {
        counted(blocking, " gelecek desteklenen maç eşleştirme bekliyor.")
    };
    let mut reason = counted(blocking, " PRODUCTION_UNRESOLVED; ");
    let registry = counted(f.global_matches - f.global_resolved, " REGISTRY_UNRESOLVED; ");
    reason.append(registry.as_str());
    let today = counted(f.current_matches - f.current_resolved, " TODAY_UNRESOLVED; ");
    reason.append(today.as_str());
    let pending = counted(f.pending_resolution_diagnostics, " PENDING_DIAGNOSTICS");
    reason.append(pending.as_str());
    proof {
        assert(reason@ =~= resolution_spec(*f).2->0);
    }
    SubsystemVerdict { status, message, technical_reason: Some(reason) }
}

pub open spec fn features_spec(f: ReadinessFacts) -> (ReadinessState, Seq<char>, Option<Seq<char>>) {
    let status = if f.scope_ready && f.production_features_missing == 0 {
        ReadinessState::Ready
    } else if f.features_generated > 0 {
        ReadinessState::Partial
    } else {
        ReadinessState::ActionRequired
    };
    if f.production_features_missing > 0 {
        (
            status,
            decimal_text(f.production_features_missing) + " gelecek desteklenen maç için özellik snapshot’ı eksik."@,
            Some("PRODUCTION_FEATURES_MISSING"@),
        )
    } else {
        let message = if f.production_events == 0 {
            "Hazırlanacak güncel desteklenen maç yok; özellik motoru hazır."@
        } else if f.features_generated > 0 {
            "Model özellik snapshot’ları mevcut."@
        } else {
            "Henüz özellik snapshot’ı oluşturulmadı."@
        };
        let reason = if f.insufficient_history > 0 {
            Some(decimal_text(f.insufficient_history) + " INSUFFICIENT_HISTORY"@)
        } else {
            None
        };
        (status, message, reason)
    }
}

fn features_verdict(f: &ReadinessFacts) -> (r: SubsystemVerdict)
    ensures
        r@ == features_spec(*f),
{
    let status = if f.scope_ready && f.production_features_missing == 0 {
        ReadinessState::Ready
    } else if f.features_generated > 0 {
        ReadinessState::Partial
    } else {
        ReadinessState::ActionRequired
    };
    if f.production_features_missing > 0 {
        let message = counted(f.production_features_missing, " gelecek desteklenen maç için özellik snapshot’ı eksik.");
        return SubsystemVerdict { status, message, technical_reason: some_text("PRODUCTION_FEATURES_MISSING") };
    }
    let reason = if f.insufficient_history > 0 {
        Some(counted(f.insufficient_history, " INSUFFICIENT_HISTORY"))
    } else {
        None
    };
    if f.production_events == 0 {
        verdict(status, "Hazırlanacak güncel desteklenen maç yok; özellik motoru hazır.", reason)
    } else if f.features_generated > 0 {
        verdict(status, "Model özellik snapshot’ları mevcut.", reason)
    } else {
        verdict(status, "Henüz özellik snapshot’ı oluşturulmadı.", reason)
    }
}

/// The active model is present, its artifact is valid and its features fit.
pub open spec fn model_ok(f: ReadinessFacts) -> bool {
    f.active_model is Some && f.artifact_valid && f.feature_compatible
}

pub open spec fn model_spec(f: ReadinessFacts) -> (ReadinessState, Seq<char>, Option<Seq<char>>) {
    if model_ok(f) {
        (ReadinessState::Ready, "Aktif model doğrulandı ve uyumlu."@, None)
    } else if f.active_model is Some {
        (ReadinessState::ActionRequired, "Aktif model artefaktı geçersiz veya uyumsuz."@, Some("MODEL_NOT_READY"@))
    } else {
        (ReadinessState::ActionRequired, "Aktif tahmin modeli bulunamadı."@, Some("MODEL_NOT_READY"@))
    }
}

fn model_verdict(f: &ReadinessFacts) -> (r: SubsystemVerdict)
    ensures
        r@ == model_spec(*f),
{
    if f.active_model.is_some() && f.artifact_valid && f.feature_compatible {
        verdict(ReadinessState::Ready, "Aktif model doğrulandı ve uyumlu.", None)
    } else if f.active_model.is_some() {
        verdict(ReadinessState::ActionRequired, "Aktif model artefaktı geçersiz veya uyumsuz.", some_text("MODEL_NOT_READY"))
    } else {
        verdict(ReadinessState::ActionRequired, "Aktif tahmin modeli bulunamadı.", some_text("MODEL_NOT_READY"))
    }
}

/// The active calibration was fitted on the active model's artifact and loads.
pub open spec fn calibration_ok(f: ReadinessFacts) -> bool {
    match (f.active_model, f.calibration) {
        (Some(model), Some(cal)) => model.version@ == cal.parent_model_version@ && opt_text(model.artifact_hash)
            == Some(cal.parent_artifact_hash@) && f.calibration_loads,
        _ => false,
    }
}

fn opt_text_eq(a: &Option<String>, b: &str) -> (r: bool)
    ensures
        r == (opt_text(*a) == Some(b@)),
{
    match a {
        Some(s) => text_eq(s.as_str(), b),
        None => false,
    }
}

fn calibration_compatible(f: &ReadinessFacts) -> (r: bool)
    ensures
        r == calibration_ok(*f),
{
    match (&f.active_model, &f.calibration) {
        (Some(model), Some(cal)) => text_eq(model.version.as_str(), cal.parent_model_version.as_str())
            && opt_text_eq(&model.artifact_hash, cal.parent_artifact_hash.as_str()) && f.calibration_loads,
        _ => false,
    }
}

pub open spec fn calibration_spec(f: ReadinessFacts) -> (ReadinessState, Seq<char>, Option<Seq<char>>) {
    if calibration_ok(f) {
        (ReadinessState::Ready, "Aktif kalibrasyon model artefaktıyla uyumlu."@, None)
    } else {
        (
            ReadinessState::ActionRequired,
            "Aktif ve uyumlu kalibrasyon bulunamadı."@,
            Some("CALIBRATION_INCOMPATIBLE_OR_MISSING"@),
        )
    }
}

fn calibration_verdict(f: &ReadinessFacts) -> (r: SubsystemVerdict)
    ensures
        r@ == calibration_spec(*f),
{
    if calibration_compatible(f) {
        verdict(ReadinessState::Ready, "Aktif kalibrasyon model artefaktıyla uyumlu.", None)
    } else {
        verdict(
            ReadinessState::ActionRequired,
            "Aktif ve uyumlu kalibrasyon bulunamadı.",
            some_text("CALIBRATION_INCOMPATIBLE_OR_MISSING"),
        )
    }
}

/// The lineup model loads, uses the current lineup features and adjusts the
/// active base model's artifact.
pub open spec fn lineup_model_valid(f: ReadinessFacts) -> bool {
    match f.lineup_model {
        Some(row) => f.lineup_model_loads && row.feature_version@ == "lineup_features_v1"@ && match f.active_model {
            Some(model) => row.parent_model_version@ == model.version@ && opt_text(model.artifact_hash) == Some(
                row.parent_model_hash@,
            ),
            None => false,
        },
        None => false,
    }
}

pub(crate) fn lineup_model_compatible(f: &ReadinessFacts) -> (r: bool)
    ensures
        r == lineup_model_valid(*f),
{
    match &f.lineup_model {
        Some(row) => f.lineup_model_loads && text_eq(row.feature_version.as_str(), "lineup_features_v1")
            && match &f.active_model {
            Some(model) => text_eq(row.parent_model_version.as_str(), model.version.as_str()) && opt_text_eq(
                &model.artifact_hash,
                row.parent_model_hash.as_str(),
            ),
            None => false,
        },
        None => false,
    }
}

pub open spec fn lineup_model_spec(f: ReadinessFacts) -> (ReadinessState, Seq<char>, Option<Seq<char>>) {
    if lineup_model_valid(f) {
        (ReadinessState::Ready, "Üretim 11 modeli doğrulandı ve BASE modelle uyumlu."@, None)
    } else if f.lineup_model is Some {
        (
            ReadinessState::Error,
            "Aktif 11 modeli artefaktı geçersiz veya BASE modelle uyumsuz."@,
            Some("LINEUP_MODEL_ARTIFACT_INVALID_OR_INCOMPATIBLE"@),
        )
    } else if model_ok(f) {
        (
            ReadinessState::Optional,
            "BASE tahmin modeli aktif. 11 verisi ve doğrulanmış 11 modeli mevcut olduğunda LINEUP_AWARE revizyon kullanılabilir. Eğitilmiş 11 artefaktı yok."@,
            Some("LINEUP_MODEL_NOT_TRAINED_ON_PRODUCTION_DATA"@),
        )
    } else {
        (
            ReadinessState::Optional,
            "11 modeli isteğe bağlıdır; eğitilmiş 11 artefaktı yok. BASE model hazırlığını ayrıca kontrol edin."@,
            Some("LINEUP_MODEL_NOT_TRAINED_ON_PRODUCTION_DATA"@),
        )
    }
}

fn lineup_model_verdict(f: &ReadinessFacts) -> (r: SubsystemVerdict)
    ensures
        r@ == lineup_model_spec(*f),
{
    if lineup_model_compatible(f) {
        verdict(ReadinessState::Ready, "Üretim 11 modeli doğrulandı ve BASE modelle uyumlu.", None)
    } else if f.lineup_model.is_some() {
        verdict(
            ReadinessState::Error,
            "Aktif 11 modeli artefaktı geçersiz veya BASE modelle uyumsuz.",
            some_text("LINEUP_MODEL_ARTIFACT_INVALID_OR_INCOMPATIBLE"),
        )
    } else if f.active_model.is_some() && f.artifact_valid && f.feature_compatible {
        verdict(
            ReadinessState::Optional,
            "BASE tahmin modeli aktif. 11 verisi ve doğrulanmış 11 modeli mevcut olduğunda LINEUP_AWARE revizyon kullanılabilir. Eğitilmiş 11 artefaktı yok.",
            some_text("LINEUP_MODEL_NOT_TRAINED_ON_PRODUCTION_DATA"),
        )
    } else {
        verdict(
            ReadinessState::Optional,
            "11 modeli isteğe bağlıdır; eğitilmiş 11 artefaktı yok. BASE model hazırlığını ayrıca kontrol edin.",
            some_text("LINEUP_MODEL_NOT_TRAINED_ON_PRODUCTION_DATA"),
        )
    }
}

pub open spec fn lineup_provider_spec(f: ReadinessFacts, runtime: RuntimeReadiness) -> (ReadinessState, Seq<char>, Option<Seq<char>>) {
    let configured = runtime.lineup_provider_configured;
    let reason = if !configured {
        Some(f.lineup_provider_availability@)
    } else {
        None
    };
    if configured && f.official_complete_lineups > 0 {
        (ReadinessState::Ready, "Canlı 11 veri sağlayıcısı hazır."@, reason)
    } else if configured {
        (
            ReadinessState::Optional,
            "11 sağlayıcısı yapılandırılmış; doğrulanmış tam kadro verisi henüz yok. BASE tahminler etkilenmez."@,
            reason,
        )
    } else {
        (ReadinessState::Optional, "Canlı 11 sağlayıcısı yapılandırılmamış; BASE tahminler etkilenmez."@, reason)
    }
}

fn lineup_provider_verdict(f: &ReadinessFacts, runtime: &RuntimeReadiness) -> (r: SubsystemVerdict)
    ensures
        r@ == lineup_provider_spec(*f, *runtime),
{
    let configured = runtime.lineup_provider_configured;
    let reason = if !configured {
        Some(owned(f.lineup_provider_availability.as_str()))
    } else {
        None
    };
    if configured && f.official_complete_lineups > 0 {
        verdict(ReadinessState::Ready, "Canlı 11 veri sağlayıcısı hazır.", reason)
    } else if configured {
        verdict(
            ReadinessState::Optional,
            "11 sağlayıcısı yapılandırılmış; doğrulanmış tam kadro verisi henüz yok. BASE tahminler etkilenmez.",
            reason,
        )
    } else {
        verdict(ReadinessState::Optional, "Canlı 11 sağlayıcısı yapılandırılmamış; BASE tahminler etkilenmez.", reason)
    }
}


pub open spec fn database_spec() -> (ReadinessState, Seq<char>, Option<Seq<char>>) {
    (ReadinessState::Ready, "Yerel veritabanı erişilebilir."@, None)
}

/// A capability as a value: whether it is ready and its reasons.
pub open spec fn capability_view(c: CapabilityReadiness) -> (bool, Seq<Seq<char>>) {
    (c.ready, texts(c.reasons@))
}

/// Predictions need the store, history, identities, the bulletin, features,
/// the model and its calibration.
pub open spec fn predictions_spec(
    database: ReadinessState,
    history: ReadinessState,
    resolution: ReadinessState,
    iddaa: ReadinessState,
    features: ReadinessState,
    model: ReadinessState,
    calibration: ReadinessState,
) -> (bool, Seq<Seq<char>>) {
    let reasons = blocked_reasons(
        seq![
            (database, "Veritabanı hazır değil."),
            (history, "Yeterli geçmiş veri yok."),
            (resolution, "Veri eşleştirme eksik."),
            (iddaa, "Güncel bülten yok."),
            (features, "Özellik verisi hazır değil."),
            (model, "Aktif model hazır değil."),
            (calibration, "Kalibrasyon hazır değil."),
        ],
    );
    (reasons.len() == 0, reasons)
}

/// Candidates before the daily publication is consulted.
pub open spec fn candidates_base_spec(
    predictions: (bool, Seq<Seq<char>>),
    iddaa: ReadinessState,
    odds: ReadinessState,
    missing_predictions: i64,
) -> (bool, Seq<Seq<char>>) {
    if predictions.0 {
        let reasons = blocked_reasons(seq![(iddaa, "Güncel bülten yok."), (odds, "Güncel oran yok.")]);
        if missing_predictions > 0 {
            (false, reasons.push("Henüz kalıcı tahmin bulunmuyor."@))
        } else {
            (reasons.len() == 0, reasons)
        }
    } else {
        (false, seq!["Önce tahmin hazırlığı tamamlanmalı."@])
    }
}

/// Candidates once an unreadable publication is taken into account.
pub open spec fn candidates_published_spec(base: (bool, Seq<Seq<char>>), f: ReadinessFacts) -> (bool, Seq<Seq<char>>) {
    match f.publication_error {
        Some(e) => (false, base.1.push("Günlük aday yayını okunamıyor: "@ + e@)),
        None => base,
    }
}

/// Candidates, last of all with a failed daily production awaiting retry.
pub open spec fn candidates_spec(
    predictions: (bool, Seq<Seq<char>>),
    iddaa: ReadinessState,
    odds: ReadinessState,
    f: ReadinessFacts,
) -> (bool, Seq<Seq<char>>) {
    let published = candidates_published_spec(candidates_base_spec(predictions, iddaa, odds, f.missing_predictions), f);
    match (f.pipeline_failure, f.publication_error) {
        (Some(e), Some(_)) => (false, published.1.push("Günlük üretim yeniden denenecek: "@ + e@)),
        _ => published,
    }
}

/// Coupons follow the candidates.
pub open spec fn coupons_spec(
    predictions: (bool, Seq<Seq<char>>),
    iddaa: ReadinessState,
    odds: ReadinessState,
    f: ReadinessFacts,
) -> (bool, Seq<Seq<char>>) {
    let base = candidates_base_spec(predictions, iddaa, odds, f.missing_predictions);
    let published = candidates_published_spec(base, f);
    let coupons = if base.0 {
        (true, Seq::<Seq<char>>::empty())
    } else {
        (false, seq!["Önce aday hazırlığı tamamlanmalı."@])
    };
    let checked = if !published.0 || f.publication_error is Some {
        (false, coupons.1.push("Aday/kupon kaynağı doğrulanamadı."@))
    } else {
        coupons
    };
    match (f.pipeline_failure, f.publication_error) {
        (Some(_), Some(_)) => (false, checked.1.push("Son günlük üretim tamamlanamadı; otomatik yeniden deneme bekleniyor."@)),
        _ => checked,
    }
}

fn push_reason(c: &mut CapabilityReadiness, reason: String)
    ensures
        final(c).ready == false,
        texts(final(c).reasons@) == texts(old(c).reasons@).push(reason@),
{
    c.ready = false;
    c.reasons.push(reason);
    proof {
        assert(texts(c.reasons@) =~= texts(old(c).reasons@).push(reason@));
    }
}

fn fixed_capability(ready: bool, reason: &str) -> (r: CapabilityReadiness)
    ensures
        capability_view(r) == (if ready { (true, Seq::<Seq<char>>::empty()) } else { (false, seq![reason@]) }),
{
    let mut reasons: Vec<String> = Vec::new();
    if !ready {
        reasons.push(owned(reason));
    }
    let r = CapabilityReadiness { ready, reasons };
    proof {
        if ready {
            assert(texts(r.reasons@) =~= Seq::<Seq<char>>::empty());
        } else {
            assert(texts(r.reasons@) =~= seq![reason@]);
        }
    }
    r
}

/// The identifier, title, state and reason of each core check, in order.
pub open spec fn core_plan(
    database: (ReadinessState, Seq<char>, Option<Seq<char>>),
    iddaa: (ReadinessState, Seq<char>, Option<Seq<char>>),
    odds: (ReadinessState, Seq<char>, Option<Seq<char>>),
    history: (ReadinessState, Seq<char>, Option<Seq<char>>),
    model: (ReadinessState, Seq<char>, Option<Seq<char>>),
    calibration: (ReadinessState, Seq<char>, Option<Seq<char>>),
    features: (ReadinessState, Seq<char>, Option<Seq<char>>),
    resolution: (ReadinessState, Seq<char>, Option<Seq<char>>),
    candidates: (bool, Seq<Seq<char>>),
    coupons: (bool, Seq<Seq<char>>),
    popularity: (ReadinessState, Seq<char>, Option<Seq<char>>),
) -> Seq<(Seq<char>, Seq<char>, ReadinessState, Seq<char>)> {
    seq![
        ("database"@, "Yerel veritabanı"@, database.0, database.1),
        (
            "live_iddaa"@,
            "Canlı İddaa ve oranlar"@,
            if iddaa.0 == ReadinessState::Ready { odds.0 } else { iddaa.0 },
            "Güncel bülten ve geçerli oranlar gerekli."@,
        ),
        ("history"@, "Üretim geçmiş verisi"@, history.0, history.1),
        ("base_model"@, "BASE tahmin modeli"@, model.0, model.1),
        ("calibration"@, "Kalibrasyon"@, calibration.0, calibration.1),
        ("features"@, "Özellik verisi"@, features.0, features.1),
        ("resolution"@, "Güncel/gelecek eşleştirme"@, resolution.0, resolution.1),
        (
            "candidates"@,
            "Aday üretimi"@,
            if candidates.0 { ReadinessState::Ready } else { ReadinessState::ActionRequired },
            joined_with_spaces(candidates.1),
        ),
        (
            "coupons"@,
            "Kupon üretimi"@,
            if coupons.0 { ReadinessState::Ready } else { ReadinessState::ActionRequired },
            joined_with_spaces(coupons.1),
        ),
        ("popularity"@, "Popülerlik verisi"@, popularity.0, popularity.1),
    ]
}

/// A core check built as planned.
pub open spec fn check_matches(c: CoreCheck, plan: (Seq<char>, Seq<char>, ReadinessState, Seq<char>)) -> bool {
    &&& c.id@ == plan.0
    &&& c.title@ == plan.1
    &&& c.status == plan.2
    &&& texts(c.reasons@) == (if plan.2 == ReadinessState::Ready { Seq::<Seq<char>>::empty() } else { seq![plan.3] })
}

/// The number of ready checks.
pub open spec fn ready_count(checks: Seq<CoreCheck>) -> nat
    decreases checks.len(),
{
    if checks.len() == 0 {
        0
    } else {
        ready_count(checks.drop_last()) + if checks.last().status == ReadinessState::Ready { 1nat } else { 0nat }
    }
}

fn count_ready(checks: &Vec<CoreCheck>) -> (r: usize)
    ensures
        r == ready_count(checks@),
{
    let n = checks.len();
    let mut count: usize = 0;
    let mut i: usize = 0;
    while i < n
        invariant
            n == checks@.len(),
            i <= n,
            count == ready_count(checks@.subrange(0, i as int)),
            count <= i,
        decreases n - i,
    {
        proof {
            assert(checks@.subrange(0, i as int + 1).drop_last() =~= checks@.subrange(0, i as int));
        }
        if checks[i].status == ReadinessState::Ready {
            count = count + 1;
        }
        i = i + 1;
    }
    proof {
        assert(checks@.subrange(0, n as int) =~= checks@);
    }
    count
}

/// The capabilities that the verdicts allow, in the order predictions,
/// candidates, coupons.
fn capabilities(
    database: ReadinessState,
    history: ReadinessState,
    resolution: ReadinessState,
    iddaa: ReadinessState,
    features: ReadinessState,
    model: ReadinessState,
    calibration: ReadinessState,
    odds: ReadinessState,
    f: &ReadinessFacts,
) -> (r: (CapabilityReadiness, CapabilityReadiness, CapabilityReadiness))
    ensures
        capability_view(r.0) == predictions_spec(database, history, resolution, iddaa, features, model, calibration),
        capability_view(r.1) == candidates_spec(capability_view(r.0), iddaa, odds, *f),
        capability_view(r.2) == coupons_spec(capability_view(r.0), iddaa, odds, *f),
{
    let prediction_gates = [
        (database, "Veritabanı hazır değil."),
        (history, "Yeterli geçmiş veri yok."),
        (resolution, "Veri eşleştirme eksik."),
        (iddaa, "Güncel bülten yok."),
        (features, "Özellik verisi hazır değil."),
        (model, "Aktif model hazır değil."),
        (calibration, "Kalibrasyon hazır değil."),
    ];
    let can_generate_predictions = capable(&prediction_gates);
    proof {
        assert(prediction_gates@ =~= seq![
            (database, "Veritabanı hazır değil."),
            (history, "Yeterli geçmiş veri yok."),
            (resolution, "Veri eşleştirme eksik."),
            (iddaa, "Güncel bülten yok."),
            (features, "Özellik verisi hazır değil."),
            (model, "Aktif model hazır değil."),
            (calibration, "Kalibrasyon hazır değil."),
        ]);
    }
    let mut can_generate_candidates = if can_generate_predictions.ready {
        let candidate_gates = [(iddaa, "Güncel bülten yok."), (odds, "Güncel oran yok.")];
        let mut gate = capable(&candidate_gates);
        proof {
            assert(candidate_gates@ =~= seq![(iddaa, "Güncel bülten yok."), (odds, "Güncel oran yok.")]);
        }
        if f.missing_predictions > 0 {
            push_reason(&mut gate, owned("Henüz kalıcı tahmin bulunmuyor."));
        }
        gate
    } else {
        fixed_capability(false, "Önce tahmin hazırlığı tamamlanmalı.")
    };
    let mut can_generate_coupons = fixed_capability(can_generate_candidates.ready, "Önce aday hazırlığı tamamlanmalı.");
    match &f.publication_error {
        Some(error) => {
            let mut reason = owned("Günlük aday yayını okunamıyor: ");
            reason.append(error.as_str());
            push_reason(&mut can_generate_candidates, reason);
        },
        None => {},
    }
    if !can_generate_candidates.ready || f.publication_error.is_some() {
        push_reason(&mut can_generate_coupons, owned("Aday/kupon kaynağı doğrulanamadı."));
    }
    match (&f.pipeline_failure, &f.publication_error) {
        (Some(error), Some(_)) => {
            let mut reason = owned("Günlük üretim yeniden denenecek: ");
            reason.append(error.as_str());
            push_reason(&mut can_generate_candidates, reason);
            push_reason(
                &mut can_generate_coupons,
                owned("Son günlük üretim tamamlanamadı; otomatik yeniden deneme bekleniyor."),
            );
        },
        _ => {},
    }
    (can_generate_predictions, can_generate_candidates, can_generate_coupons)
}

/// The ten core checks, built from the verdicts and capabilities.
fn build_core_checks(
    database: &SubsystemVerdict,
    iddaa: &SubsystemVerdict,
    odds: &SubsystemVerdict,
    historical_data: &SubsystemVerdict,
    prediction_model: &SubsystemVerdict,
    calibration: &SubsystemVerdict,
    features: &SubsystemVerdict,
    entity_resolution: &SubsystemVerdict,
    can_generate_candidates: &CapabilityReadiness,
    can_generate_coupons: &CapabilityReadiness,
    popularity: &SubsystemVerdict,
) -> (r: Vec<CoreCheck>)
    ensures
        r@.len() == CORE_CHECK_COUNT,
        forall|i: int|
            0 <= i < CORE_CHECK_COUNT ==> check_matches(
                #[trigger] r@[i],
                core_plan(
                    database@,
                    iddaa@,
                    odds@,
                    historical_data@,
                    prediction_model@,
                    calibration@,
                    features@,
                    entity_resolution@,
                    capability_view(*can_generate_candidates),
                    capability_view(*can_generate_coupons),
                    popularity@,
                )[i],
            ),
{
    let live_status = if iddaa.status == ReadinessState::Ready { odds.status } else { iddaa.status };
    let candidates_reason = join_with_spaces(&can_generate_candidates.reasons);
    let coupons_reason = join_with_spaces(&can_generate_coupons.reasons);
    let mut core_checks: Vec<CoreCheck> = Vec::new();
    core_checks.push(core_check("database", "Yerel veritabanı", database.status, database.message.as_str()));
    core_checks.push(
        core_check("live_iddaa", "Canlı İddaa ve oranlar", live_status, "Güncel bülten ve geçerli oranlar gerekli."),
    );
    core_checks.push(
        core_check("history", "Üretim geçmiş verisi", historical_data.status, historical_data.message.as_str()),
    );
    core_checks.push(
        core_check("base_model", "BASE tahmin modeli", prediction_model.status, prediction_model.message.as_str()),
    );
    core_checks.push(core_check("calibration", "Kalibrasyon", calibration.status, calibration.message.as_str()));
    core_checks.push(core_check("features", "Özellik verisi", features.status, features.message.as_str()));
    core_checks.push(
        core_check(
            "resolution",
            "Güncel/gelecek eşleştirme",
            entity_resolution.status,
            entity_resolution.message.as_str(),
        ),
    );
    let candidates_status = if can_generate_candidates.ready {
        ReadinessState::Ready
    } else {
        ReadinessState::ActionRequired
    };
    core_checks.push(core_check("candidates", "Aday üretimi", candidates_status, candidates_reason.as_str()));
    let coupons_status = if can_generate_coupons.ready {
        ReadinessState::Ready
    } else {
        ReadinessState::ActionRequired
    };
    core_checks.push(core_check("coupons", "Kupon üretimi", coupons_status, coupons_reason.as_str()));
    core_checks.push(core_check("popularity", "Popülerlik verisi", popularity.status, popularity.message.as_str()));
    proof {
        let plan = core_plan(
            database@,
            iddaa@,
            odds@,
            historical_data@,
            prediction_model@,
            calibration@,
            features@,
            entity_resolution@,
            capability_view(*can_generate_candidates),
            capability_view(*can_generate_coupons),
            popularity@,
        );
        assert(check_matches(core_checks@[0], plan[0]));
        assert(check_matches(core_checks@[1], plan[1]));
        assert(check_matches(core_checks@[2], plan[2]));
        assert(check_matches(core_checks@[3], plan[3]));
        assert(check_matches(core_checks@[4], plan[4]));
        assert(check_matches(core_checks@[5], plan[5]));
        assert(check_matches(core_checks@[6], plan[6]));
        assert(check_matches(core_checks@[7], plan[7]));
        assert(check_matches(core_checks@[8], plan[8]));
        assert(check_matches(core_checks@[9], plan[9]));
    }
    core_checks
}

/// The verdicts, capabilities and core checks that make up operational
/// readiness.
#[derive(Debug)]
pub struct ReadinessAssessment {
    pub database: SubsystemVerdict,
    pub historical_data: SubsystemVerdict,
    pub iddaa: SubsystemVerdict,
    pub odds: SubsystemVerdict,
    pub popularity: SubsystemVerdict,
    pub team_logos: SubsystemVerdict,
    pub entity_resolution: SubsystemVerdict,
    pub features: SubsystemVerdict,
    pub prediction_model: SubsystemVerdict,
    pub calibration: SubsystemVerdict,
    pub lineup_model: SubsystemVerdict,
    pub lineup_provider: SubsystemVerdict,
    pub can_generate_predictions: CapabilityReadiness,
    pub can_generate_candidates: CapabilityReadiness,
    pub can_generate_coupons: CapabilityReadiness,
    pub core_checks: Vec<CoreCheck>,
    pub core_ready_count: usize,
    pub core_check_count: usize,
    pub overall_status: ReadinessState,
}

/// Judges every subsystem from the reported facts at the given instant,
/// derives the capabilities from the verdicts and scores the core checks.
/// Outside the production scope the overall state always asks for action.
pub fn assess(f: &ReadinessFacts, runtime: &RuntimeReadiness, now: Instant) -> (r: ReadinessAssessment)
    requires
        f.wf(),
        now.wf(),
    ensures
        r.database@ == database_spec(),
        r.historical_data@ == historical_spec(*f, *runtime),
        r.iddaa@ == iddaa_spec(*f, now),
        r.odds@ == odds_spec(*f, now),
        r.popularity@ == popularity_spec(*f, now),
        r.team_logos@ == logos_spec(*f, *runtime),
        r.entity_resolution@ == resolution_spec(*f),
        r.features@ == features_spec(*f),
        r.prediction_model@ == model_spec(*f),
        r.calibration@ == calibration_spec(*f),
        r.lineup_model@ == lineup_model_spec(*f),
        r.lineup_provider@ == lineup_provider_spec(*f, *runtime),
        capability_view(r.can_generate_predictions) == predictions_spec(
            r.database.status,
            r.historical_data.status,
            r.entity_resolution.status,
            r.iddaa.status,
            r.features.status,
            r.prediction_model.status,
            r.calibration.status,
        ),
        capability_view(r.can_generate_candidates) == candidates_spec(
            capability_view(r.can_generate_predictions),
            r.iddaa.status,
            r.odds.status,
            *f,
        ),
        capability_view(r.can_generate_coupons) == coupons_spec(
            capability_view(r.can_generate_predictions),
            r.iddaa.status,
            r.odds.status,
            *f,
        ),
        r.core_checks@.len() == CORE_CHECK_COUNT,
        forall|i: int|
            0 <= i < CORE_CHECK_COUNT ==> check_matches(
                #[trigger] r.core_checks@[i],
                core_plan(
                    r.database@,
                    r.iddaa@,
                    r.odds@,
                    r.historical_data@,
                    r.prediction_model@,
                    r.calibration@,
                    r.features@,
                    r.entity_resolution@,
                    capability_view(r.can_generate_candidates),
                    capability_view(r.can_generate_coupons),
                    r.popularity@,
                )[i],
            ),
        r.core_ready_count == ready_count(r.core_checks@),
        r.core_check_count == CORE_CHECK_COUNT,
        r.overall_status == (if f.scope_ready {
            core_overall_spec(r.core_checks@)
        } else {
            ReadinessState::ActionRequired
        }),
{
    let database = verdict(ReadinessState::Ready, "Yerel veritabanı erişilebilir.", None);
    let historical_data = historical_verdict(f, runtime);
    let odds_age = snapshot_age_hours(&f.latest_odds_snapshot_time, now);
    let fresh = f.odds_snapshot_count > 0 && match odds_age {
        Some(h) => 0 <= h && h <= MAX_DAILY_ODDS_AGE_HOURS,
        None => false,
    };
    let iddaa = iddaa_verdict(f, fresh, Ghost(now));
    let odds = odds_verdict(f, fresh, Ghost(now));
    let popularity = popularity_verdict(f, now);
    let team_logos = logos_verdict(f, runtime);
    let entity_resolution = resolution_verdict(f);
    let features = features_verdict(f);
    let prediction_model = model_verdict(f);
    let calibration = calibration_verdict(f);
    let lineup_model = lineup_model_verdict(f);
    let lineup_provider = lineup_provider_verdict(f, runtime);
    let (can_generate_predictions, can_generate_candidates, can_generate_coupons) = capabilities(
        database.status,
        historical_data.status,
        entity_resolution.status,
        iddaa.status,
        features.status,
        prediction_model.status,
        calibration.status,
        odds.status,
        f,
    );
    let core_checks = build_core_checks(
        &database,
        &iddaa,
        &odds,
        &historical_data,
        &prediction_model,
        &calibration,
        &features,
        &entity_resolution,
        &can_generate_candidates,
        &can_generate_coupons,
        &popularity,
    );
    let core_ready_count = count_ready(&core_checks);
    let core_check_count = core_checks.len();
    let overall_status = if !f.scope_ready {
        ReadinessState::ActionRequired
    } else {
        core_overall(core_checks.as_slice())
    };
    ReadinessAssessment {
        database,
        historical_data,
        iddaa,
        odds,
        popularity,
        team_logos,
        entity_resolution,
        features,
        prediction_model,
        calibration,
        lineup_model,
        lineup_provider,
        can_generate_predictions,
        can_generate_candidates,
        can_generate_coupons,
        core_checks,
        core_ready_count,
        core_check_count,
        overall_status,
    }
}

/// Capabilities build on one another: coupons are ready only when candidates
/// are, and candidates only when predictions are.
pub proof fn law_capabilities_chain(
    database: ReadinessState,
    history: ReadinessState,
    resolution: ReadinessState,
    iddaa: ReadinessState,
    features: ReadinessState,
    model: ReadinessState,
    calibration: ReadinessState,
    odds: ReadinessState,
    f: ReadinessFacts,
)
    ensures
        ({
            let predictions = predictions_spec(database, history, resolution, iddaa, features, model, calibration);
            &&& coupons_spec(predictions, iddaa, odds, f).0 ==> candidates_spec(predictions, iddaa, odds, f).0
            &&& candidates_spec(predictions, iddaa, odds, f).0 ==> predictions.0
        }),
{
}

proof fn lemma_blocked_reasons(gates: Seq<(ReadinessState, &str)>)
    ensures
        blocked_reasons(gates).len() == 0 <==> forall|i: int| 0 <= i < gates.len() ==> (#[trigger] gates[i]).0
            == ReadinessState::Ready,
        forall|k: int|
            0 <= k < blocked_reasons(gates).len() ==> exists|i: int|
                0 <= i < gates.len() && (#[trigger] gates[i]).0 != ReadinessState::Ready && gates[i].1@
                    == #[trigger] blocked_reasons(gates)[k],
    decreases gates.len(),
{
    if gates.len() > 0 {
        let rest = gates.drop_last();
        lemma_blocked_reasons(rest);
        assert forall|i: int| 0 <= i < rest.len() implies rest[i] == gates[i] by {}
        let r = blocked_reasons(gates);
        let rr = blocked_reasons(rest);
        assert forall|k: int| 0 <= k < r.len() implies exists|i: int|
            0 <= i < gates.len() && (#[trigger] gates[i]).0 != ReadinessState::Ready && gates[i].1@ == #[trigger] r[k] by {
            if k < rr.len() {
                assert(r[k] == rr[k]);
                let i = choose|i: int| 0 <= i < rest.len() && (#[trigger] rest[i]).0 != ReadinessState::Ready
                    && rest[i].1@ == rr[k];
                assert(gates[i] == rest[i]);
            } else {
                assert(gates[gates.len() - 1].0 != ReadinessState::Ready);
            }
        }
        if r.len() == 0 {
            assert(gates.last().0 == ReadinessState::Ready);
            assert forall|i: int| 0 <= i < gates.len() implies (#[trigger] gates[i]).0 == ReadinessState::Ready by {
                if i < rest.len() {
                    assert(rest[i] == gates[i]);
                }
            }
        } else if forall|i: int| 0 <= i < gates.len() ==> (#[trigger] gates[i]).0 == ReadinessState::Ready {
            assert(gates[gates.len() - 1].0 == ReadinessState::Ready);
            assert forall|i: int| 0 <= i < rest.len() implies (#[trigger] rest[i]).0 == ReadinessState::Ready by {
                assert(rest[i] == gates[i]);
            }
            assert(rr.len() == 0);
            assert(false);
        }
    }
}

/// Prediction readiness is gated by the seven required subsystems alone: it
/// is ready exactly when the store, history, identities, the bulletin,
/// features, the model and its calibration are all ready, and each reason it
/// gives names one of those seven (optional subsystems such as popularity,
/// logos or lineups never gate it).
pub proof fn law_predictions_gated_by_required_subsystems(
    database: ReadinessState,
    history: ReadinessState,
    resolution: ReadinessState,
    iddaa: ReadinessState,
    features: ReadinessState,
    model: ReadinessState,
    calibration: ReadinessState,
)
    ensures
        ({
            let p = predictions_spec(database, history, resolution, iddaa, features, model, calibration);
            &&& p.0 <==> (database == ReadinessState::Ready && history == ReadinessState::Ready && resolution
                == ReadinessState::Ready && iddaa == ReadinessState::Ready && features == ReadinessState::Ready
                && model == ReadinessState::Ready && calibration == ReadinessState::Ready)
            &&& forall|k: int|
                0 <= k < p.1.len() ==> {
                    ||| #[trigger] p.1[k] == "Veritabanı hazır değil."@
                    ||| p.1[k] == "Yeterli geçmiş veri yok."@
                    ||| p.1[k] == "Veri eşleştirme eksik."@
                    ||| p.1[k] == "Güncel bülten yok."@
                    ||| p.1[k] == "Özellik verisi hazır değil."@
                    ||| p.1[k] == "Aktif model hazır değil."@
                    ||| p.1[k] == "Kalibrasyon hazır değil."@
                }
        }),
{
    let gates = seq![
        (database, "Veritabanı hazır değil."),
        (history, "Yeterli geçmiş veri yok."),
        (resolution, "Veri eşleştirme eksik."),
        (iddaa, "Güncel bülten yok."),
        (features, "Özellik verisi hazır değil."),
        (model, "Aktif model hazır değil."),
        (calibration, "Kalibrasyon hazır değil."),
    ];
    lemma_blocked_reasons(gates);
    let p = predictions_spec(database, history, resolution, iddaa, features, model, calibration);
    assert(p.1 == blocked_reasons(gates));
    if database == ReadinessState::Ready && history == ReadinessState::Ready && resolution == ReadinessState::Ready
        && iddaa == ReadinessState::Ready && features == ReadinessState::Ready && model == ReadinessState::Ready
        && calibration == ReadinessState::Ready {
        assert forall|i: int| 0 <= i < gates.len() implies (#[trigger] gates[i]).0 == ReadinessState::Ready by {}
    }
    if p.0 {
        assert(gates[0].0 == ReadinessState::Ready);
        assert(gates[1].0 == ReadinessState::Ready);
        assert(gates[2].0 == ReadinessState::Ready);
        assert(gates[3].0 == ReadinessState::Ready);
        assert(gates[4].0 == ReadinessState::Ready);
        assert(gates[5].0 == ReadinessState::Ready);
        assert(gates[6].0 == ReadinessState::Ready);
    }
    assert forall|k: int| 0 <= k < p.1.len() implies {
        ||| #[trigger] p.1[k] == "Veritabanı hazır değil."@
        ||| p.1[k] == "Yeterli geçmiş veri yok."@
        ||| p.1[k] == "Veri eşleştirme eksik."@
        ||| p.1[k] == "Güncel bülten yok."@
        ||| p.1[k] == "Özellik verisi hazır değil."@
        ||| p.1[k] == "Aktif model hazır değil."@
        ||| p.1[k] == "Kalibrasyon hazır değil."@
    } by {
        let i = choose|i: int| 0 <= i < gates.len() && (#[trigger] gates[i]).0 != ReadinessState::Ready && gates[i].1@
            == blocked_reasons(gates)[k];
        assert(0 <= i < 7);
    }
}

/// History is ready only with the production scope in place, at least the
/// model's minimum of settled matches and an imported dataset; short of the
/// minimum it is never ready, and prediction readiness then fails on history
/// whatever the other subsystems say.
pub proof fn law_history_ready_needs_training_samples(
    f: ReadinessFacts,
    runtime: RuntimeReadiness,
    database: ReadinessState,
    resolution: ReadinessState,
    iddaa: ReadinessState,
    features: ReadinessState,
    model: ReadinessState,
    calibration: ReadinessState,
)
    ensures
        historical_spec(f, runtime).0 == ReadinessState::Ready ==> f.scope_ready && f.finished_matches
            >= f.min_training_samples && runtime.historical_imported_count > 0,
        f.finished_matches < f.min_training_samples ==> {
            let p = predictions_spec(database, historical_spec(f, runtime).0, resolution, iddaa, features, model, calibration);
            &&& historical_spec(f, runtime).0 != ReadinessState::Ready
            &&& !p.0
            &&& p.1.contains("Yeterli geçmiş veri yok."@)
        },
{
    law_predictions_gated_by_required_subsystems(
        database,
        historical_spec(f, runtime).0,
        resolution,
        iddaa,
        features,
        model,
        calibration,
    );
    if f.finished_matches < f.min_training_samples {
        let history = historical_spec(f, runtime).0;
        let gates = seq![
            (database, "Veritabanı hazır değil."),
            (history, "Yeterli geçmiş veri yok."),
            (resolution, "Veri eşleştirme eksik."),
            (iddaa, "Güncel bülten yok."),
            (features, "Özellik verisi hazır değil."),
            (model, "Aktif model hazır değil."),
            (calibration, "Kalibrasyon hazır değil."),
        ];
        lemma_history_reason_listed(gates);
    }
}

proof fn lemma_history_reason_listed(gates: Seq<(ReadinessState, &str)>)
    requires
        gates.len() == 7,
        gates[1].0 != ReadinessState::Ready,
    ensures
        blocked_reasons(gates).contains(gates[1].1@),
{
    let g2 = gates.subrange(0, 2);
    assert(g2.drop_last() =~= gates.subrange(0, 1));
    assert(blocked_reasons(g2).last() == gates[1].1@);
    lemma_blocked_reasons_prefix(gates, 2);
    let k = blocked_reasons(g2).len() - 1;
    assert(blocked_reasons(gates)[k] == blocked_reasons(g2)[k]);
}

proof fn lemma_blocked_reasons_prefix(gates: Seq<(ReadinessState, &str)>, t: int)
    requires
        0 <= t <= gates.len(),
    ensures
        blocked_reasons(gates.subrange(0, t)).len() <= blocked_reasons(gates).len(),
        forall|k: int|
            0 <= k < blocked_reasons(gates.subrange(0, t)).len() ==> blocked_reasons(gates)[k] == blocked_reasons(
                gates.subrange(0, t),
            )[k],
    decreases gates.len() - t,
{
    if t < gates.len() {
        lemma_blocked_reasons_prefix(gates, t + 1);
        assert(gates.subrange(0, t + 1).drop_last() =~= gates.subrange(0, t));
    } else {
        assert(gates.subrange(0, t) =~= gates);
    }
}

/// Each subsystem reads ready only when what it stands for holds: odds and
/// the bulletin need a snapshot between zero and twenty-four whole hours old
/// (the bulletin also upcoming matches); features need the production scope
/// and no missing production snapshot; the model must be active, valid and
/// compatible; the calibration must be fitted on the active model's very
/// artifact and load; identities need the scope and no blocking match. Odds
/// that exist but are not fresh are reported stale.
pub proof fn law_ready_subsystems_meet_their_requirements(f: ReadinessFacts, now: Instant)
    ensures
        odds_spec(f, now).0 == ReadinessState::Ready ==> f.odds_snapshot_count > 0 && (snapshot_age(
            f.latest_odds_snapshot_time,
            now,
        ) matches Some(h) && 0 <= h <= 24),
        iddaa_spec(f, now).0 == ReadinessState::Ready ==> f.upcoming_match_count > 0 && odds_spec(f, now).0
            == ReadinessState::Ready,
        f.odds_snapshot_count > 0 && odds_spec(f, now).0 != ReadinessState::Ready ==> odds_spec(f, now).2 == Some(
            "STALE_ODDS"@,
        ),
        features_spec(f).0 == ReadinessState::Ready ==> f.scope_ready && f.production_features_missing == 0,
        model_spec(f).0 == ReadinessState::Ready ==> f.active_model is Some && f.artifact_valid && f.feature_compatible,
        calibration_spec(f).0 == ReadinessState::Ready ==> f.calibration_loads && (f.active_model matches Some(m) && (
        f.calibration matches Some(c) && m.version@ == c.parent_model_version@ && opt_text(m.artifact_hash) == Some(
            c.parent_artifact_hash@,
        ))),
        resolution_spec(f).0 == ReadinessState::Ready ==> f.scope_ready && f.upcoming_supported == f.upcoming_resolved,
{
}

} // verus!
