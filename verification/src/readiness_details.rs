//! The titles, sources, counts and counters that the status screen shows
//! for each subsystem beside its readiness verdict.
use vstd::prelude::*;

use crate::data_center::{clone_text, lineup_model_valid, opt_text, ReadinessFacts, RuntimeReadiness};
use crate::text::{owned, text_of_chars};

verus! {

/// Figures of the store that only the subsystem details read.
#[derive(Debug)]
pub struct ReadinessFigures {
    pub match_count: i64,
    pub latest_import: Option<String>,
    pub registered_competitions: i64,
    pub required_competitions: i64,
    pub production_history_matches: i64,
    pub last_bulletin_refresh: Option<String>,
    pub bulletin_competition_count: i64,
    pub queued_logos: i64,
    pub discovering_logos: i64,
    pub downloading_logos: i64,
    pub retry_later_logos: i64,
    pub rate_limited_logos: i64,
    pub source_not_found_logos: i64,
    pub unavailable_logos: i64,
    pub invalid_logos: i64,
    pub cached_logo_bytes: i64,
    pub logos_updated_at: Option<String>,
    pub all_provider_matches: i64,
    pub resolved_team_mappings: i64,
    pub upcoming_model_ready: i64,
    pub features_updated_at: Option<String>,
    pub feature_engine_version: String,
    pub training_cutoff: Option<String>,
    pub lineups_updated_at: Option<String>,
}

/// The details of one subsystem; metrics are (name, value) in ascending
/// order of name.
#[derive(Debug)]
pub struct SubsystemDetail {
    pub title: String,
    pub last_updated: Option<String>,
    pub item_count: Option<i64>,
    pub source: Option<String>,
    pub retryable: bool,
    pub downloaded_bytes: Option<u64>,
    pub artifact_hash: Option<String>,
    pub metrics: Vec<(String, i64)>,
}

/// The details of a subsystem as values.
pub struct DetailView {
    pub title: Seq<char>,
    pub last_updated: Option<Seq<char>>,
    pub item_count: Option<i64>,
    pub source: Option<Seq<char>>,
    pub retryable: bool,
    pub downloaded_bytes: Option<u64>,
    pub artifact_hash: Option<Seq<char>>,
    pub metrics: Seq<(Seq<char>, i64)>,
}

/// Named figures with their names as texts.
pub open spec fn metric_texts(v: Seq<(String, i64)>) -> Seq<(Seq<char>, i64)> {
    v.map_values(|e: (String, i64)| (e.0@, e.1))
}

impl View for SubsystemDetail {
    type V = DetailView;

    open spec fn view(&self) -> DetailView {
        DetailView {
            title: self.title@,
            last_updated: opt_text(self.last_updated),
            item_count: self.item_count,
            source: opt_text(self.source),
            retryable: self.retryable,
            downloaded_bytes: self.downloaded_bytes,
            artifact_hash: opt_text(self.artifact_hash),
            metrics: metric_texts(self.metrics@),
        }
    }
}

/// The first twelve characters of a digest, as the screens show it.
pub open spec fn short_digest(s: Seq<char>) -> Seq<char> {
    if s.len() <= 12 {
        s
    } else {
        s.take(12)
    }
}

fn shortened(s: &str) -> (r: String)
    ensures
        r@ == short_digest(s@),
{
    let n = s.unicode_len();
    let k: usize = if n <= 12 { n } else { 12 };
    let mut chars: Vec<char> = Vec::new();
    let mut i: usize = 0;
    while i < k
        invariant
            n == s@.len(),
            k <= n,
            i <= k,
            chars@ == s@.take(i as int),
        decreases k - i,
    {
        chars.push(s.get_char(i));
        proof {
            assert(s@.take(i as int + 1) =~= s@.take(i as int).push(s@[i as int]));
        }
        i = i + 1;
    }
    proof {
        assert(s@.take(n as int) =~= s@);
    }
    text_of_chars(&chars)
}

fn short_of(s: &Option<String>) -> (r: Option<String>)
    ensures
        opt_text(r) == (match *s {
            Some(x) => Some(short_digest(x@)),
            None => None,
        }),
{
    match s {
        Some(x) => Some(shortened(x.as_str())),
        None => None,
    }
}

fn metric(name: &str, value: i64) -> (r: (String, i64))
    ensures
        r.0@ == name@,
        r.1 == value,
{
    (owned(name), value)
}

fn detail(
    title: &str,
    last_updated: Option<String>,
    item_count: Option<i64>,
    source: Option<String>,
    retryable: bool,
    downloaded_bytes: Option<u64>,
    artifact_hash: Option<String>,
    metrics: Vec<(String, i64)>,
) -> (r: SubsystemDetail)
    ensures
        r@ == (DetailView {
            title: title@,
            last_updated: opt_text(last_updated),
            item_count,
            source: opt_text(source),
            retryable,
            downloaded_bytes,
            artifact_hash: opt_text(artifact_hash),
            metrics: metric_texts(metrics@),
        }),
{
    SubsystemDetail {
        title: owned(title),
        last_updated,
        item_count,
        source,
        retryable,
        downloaded_bytes,
        artifact_hash,
        metrics,
    }
}

fn some_text(s: &str) -> (r: Option<String>)
    ensures
        opt_text(r) == Some(s@),
{
    Some(owned(s))
}

pub open spec fn database_detail(g: ReadinessFigures) -> DetailView {
    DetailView {
        title: "Yerel veritabanı"@,
        last_updated: None,
        item_count: Some(g.match_count),
        source: Some("SQLite"@),
        retryable: false,
        downloaded_bytes: None,
        artifact_hash: None,
        metrics: Seq::empty(),
    }
}

pub open spec fn historical_detail(f: ReadinessFacts, runtime: RuntimeReadiness, g: ReadinessFigures) -> DetailView {
    DetailView {
        title: "Geçmiş veri"@,
        last_updated: opt_text(g.latest_import),
        item_count: Some(f.finished_matches),
        source: Some("football-data.co.uk"@),
        retryable: true,
        downloaded_bytes: Some(runtime.historical_cached_bytes),
        artifact_hash: None,
        metrics: seq![
            ("cached_datasets"@, runtime.historical_cached_count as i64),
            ("failed_datasets"@, runtime.historical_failed_count as i64),
            ("imported_datasets"@, runtime.historical_imported_count as i64),
            ("missing_datasets"@, runtime.historical_missing_count as i64),
            ("production_events"@, f.production_events),
            ("production_history_matches"@, g.production_history_matches),
            ("production_history_missing"@, 0i64),
            ("required_supported_competitions"@, g.required_competitions),
            ("settled_matches"@, f.finished_matches),
            ("supported_competitions"@, g.registered_competitions),
            ("supported_datasets"@, runtime.historical_dataset_count as i64),
        ],
    }
}

pub open spec fn iddaa_detail(f: ReadinessFacts, g: ReadinessFigures) -> DetailView {
    DetailView {
        title: "Canlı İddaa verisi"@,
        last_updated: opt_text(g.last_bulletin_refresh),
        item_count: Some(f.upcoming_match_count),
        source: Some("İddaa"@),
        retryable: true,
        downloaded_bytes: None,
        artifact_hash: None,
        metrics: seq![
            ("competition_count"@, g.bulletin_competition_count),
            ("event_count"@, f.upcoming_match_count),
            ("odds_snapshot_count"@, f.odds_snapshot_count),
        ],
    }
}

pub open spec fn odds_detail(f: ReadinessFacts) -> DetailView {
    DetailView {
        title: "Oranlar"@,
        last_updated: opt_text(f.latest_odds_snapshot_time),
        item_count: Some(f.odds_snapshot_count),
        source: Some("İddaa"@),
        retryable: true,
        downloaded_bytes: None,
        artifact_hash: None,
        metrics: Seq::empty(),
    }
}

pub open spec fn popularity_detail(f: ReadinessFacts) -> DetailView {
    DetailView {
        title: "Popülerlik"@,
        last_updated: opt_text(f.popularity_snapshot_time),
        item_count: Some(f.popularity_selection_count),
        source: Some("İddaa"@),
        retryable: true,
        downloaded_bytes: None,
        artifact_hash: None,
        metrics: seq![("item_count"@, f.popularity_selection_count)],
    }
}

pub open spec fn logos_detail(f: ReadinessFacts, g: ReadinessFigures) -> DetailView {
    DetailView {
        title: "Takım logoları"@,
        last_updated: opt_text(g.logos_updated_at),
        item_count: Some(f.cached_logos),
        source: Some("Yerel önbellek"@),
        retryable: true,
        downloaded_bytes: Some(if g.cached_logo_bytes < 0 { 0u64 } else { g.cached_logo_bytes as u64 }),
        artifact_hash: None,
        metrics: seq![
            ("cached_valid_logos"@, f.cached_logos),
            ("discovering_logos"@, g.discovering_logos),
            ("downloading_logos"@, g.downloading_logos),
            ("invalid_logos"@, g.invalid_logos),
            ("queued_logos"@, g.queued_logos),
            ("rate_limited_logos"@, g.rate_limited_logos),
            ("retry_later_logos"@, g.retry_later_logos),
            ("source_not_found_logos"@, g.source_not_found_logos),
            ("total_known_teams"@, f.known_teams),
            ("unavailable_logos"@, g.unavailable_logos),
        ],
    }
}

/// A whole percentage, zero of nothing.
pub open spec fn percent(part: int, whole: int) -> int {
    if whole > 0 {
        part * 100 / whole
    } else {
        0
    }
}

pub open spec fn resolution_detail(f: ReadinessFacts, g: ReadinessFigures) -> DetailView {
    let blocking = f.upcoming_supported - f.upcoming_resolved;
    let global_unresolved = f.global_matches - f.global_resolved;
    DetailView {
        title: "Veri eşleştirme"@,
        last_updated: None,
        item_count: Some(f.global_resolved),
        source: None,
        retryable: false,
        downloaded_bytes: None,
        artifact_hash: None,
        metrics: seq![
            ("all_provider_match_count"@, g.all_provider_matches),
            ("blocking_unresolved"@, blocking as i64),
            ("current_match_count"@, f.current_matches),
            ("current_resolved_match_count"@, f.current_resolved),
            ("current_unresolved_match_count"@, (f.current_matches - f.current_resolved) as i64),
            ("global_match_count"@, f.global_matches),
            ("nonblocking_unresolved"@, (global_unresolved - blocking) as i64),
            ("resolved_mapping_count"@, f.global_resolved),
            ("resolved_team_mapping_count"@, g.resolved_team_mappings),
            ("supported_resolution_percent"@, percent(f.global_resolved as int, f.global_matches as int) as i64),
            ("unresolved_count"@, global_unresolved as i64),
            ("unsupported_match_count"@, (g.all_provider_matches - f.global_matches) as i64),
            ("upcoming_model_ready"@, g.upcoming_model_ready),
            ("upcoming_resolution_percent"@, percent(f.upcoming_resolved as int, f.upcoming_supported as int) as i64),
            ("upcoming_resolved"@, f.upcoming_resolved),
            ("upcoming_supported"@, f.upcoming_supported),
            ("upcoming_unresolved"@, blocking as i64),
        ],
    }
}

pub open spec fn features_detail(f: ReadinessFacts, g: ReadinessFigures) -> DetailView {
    DetailView {
        title: "Özellik verisi"@,
        last_updated: opt_text(g.features_updated_at),
        item_count: Some(f.features_generated),
        source: Some(g.feature_engine_version@),
        retryable: false,
        downloaded_bytes: None,
        artifact_hash: None,
        metrics: seq![
            ("features_generated"@, f.features_generated),
            ("insufficient_history"@, f.insufficient_history),
            ("production_features_missing"@, f.production_features_missing),
        ],
    }
}

pub open spec fn model_detail(f: ReadinessFacts, g: ReadinessFigures) -> DetailView {
    DetailView {
        title: "Tahmin modeli"@,
        last_updated: opt_text(g.training_cutoff),
        item_count: None,
        source: match f.active_model {
            Some(m) => Some(m.version@),
            None => None,
        },
        retryable: false,
        downloaded_bytes: None,
        artifact_hash: match f.active_model {
            Some(m) => match m.artifact_hash {
                Some(h) => Some(short_digest(h@)),
                None => None,
            },
            None => None,
        },
        metrics: Seq::empty(),
    }
}

pub open spec fn calibration_detail(f: ReadinessFacts) -> DetailView {
    DetailView {
        title: "Kalibrasyon"@,
        last_updated: None,
        item_count: None,
        source: match f.calibration {
            Some(c) => Some(c.version@),
            None => None,
        },
        retryable: false,
        downloaded_bytes: None,
        artifact_hash: match f.calibration {
            Some(c) => Some(short_digest(c.parent_artifact_hash@)),
            None => None,
        },
        metrics: Seq::empty(),
    }
}

pub open spec fn lineup_model_detail(f: ReadinessFacts) -> DetailView {
    DetailView {
        title: "11 modeli \u{2014} isteğe bağlı"@,
        last_updated: None,
        item_count: None,
        source: match f.lineup_model {
            Some(l) => Some(l.version@),
            None => None,
        },
        retryable: false,
        downloaded_bytes: None,
        artifact_hash: match f.lineup_model {
            Some(l) => Some(short_digest(l.artifact_hash@)),
            None => None,
        },
        metrics: seq![
            ("active_artifact_available"@, if lineup_model_valid(f) { 1i64 } else { 0i64 }),
            ("implementation_available"@, 1i64),
        ],
    }
}

pub open spec fn lineup_provider_detail(f: ReadinessFacts, g: ReadinessFigures) -> DetailView {
    DetailView {
        title: "11 veri sağlayıcısı"@,
        last_updated: opt_text(g.lineups_updated_at),
        item_count: Some(f.official_complete_lineups),
        source: None,
        retryable: true,
        downloaded_bytes: None,
        artifact_hash: None,
        metrics: Seq::empty(),
    }
}

/// The counts are row counts, and the computed figures fit in 64 bits.
pub open spec fn figures_fit(f: ReadinessFacts, g: ReadinessFigures) -> bool {
    &&& f.wf()
    &&& 0 <= g.all_provider_matches
    &&& f.global_resolved * 100 <= i64::MAX
    &&& f.upcoming_resolved * 100 <= i64::MAX
    &&& i64::MIN <= (f.global_matches - f.global_resolved) - (f.upcoming_supported - f.upcoming_resolved)
        <= i64::MAX
}

/// The details of every subsystem, in the order of the assessment.
#[derive(Debug)]
pub struct ReadinessDetails {
    pub database: SubsystemDetail,
    pub historical_data: SubsystemDetail,
    pub iddaa: SubsystemDetail,
    pub odds: SubsystemDetail,
    pub popularity: SubsystemDetail,
    pub team_logos: SubsystemDetail,
    pub entity_resolution: SubsystemDetail,
    pub features: SubsystemDetail,
    pub prediction_model: SubsystemDetail,
    pub calibration: SubsystemDetail,
    pub lineup_model: SubsystemDetail,
    pub lineup_provider: SubsystemDetail,
    /// Nothing was ever imported and no model is active.
    pub first_run: bool,
}

fn historical(f: &ReadinessFacts, runtime: &RuntimeReadiness, g: &ReadinessFigures) -> (r: SubsystemDetail)
    ensures
        r@ == historical_detail(*f, *runtime, *g),
{
    let metrics = vec![
        metric("cached_datasets", runtime.historical_cached_count as i64),
        metric("failed_datasets", runtime.historical_failed_count as i64),
        metric("imported_datasets", runtime.historical_imported_count as i64),
        metric("missing_datasets", runtime.historical_missing_count as i64),
        metric("production_events", f.production_events),
        metric("production_history_matches", g.production_history_matches),
        metric("production_history_missing", 0),
        metric("required_supported_competitions", g.required_competitions),
        metric("settled_matches", f.finished_matches),
        metric("supported_competitions", g.registered_competitions),
        metric("supported_datasets", runtime.historical_dataset_count as i64),
    ];
    assert(metric_texts(metrics@) =~= historical_detail(*f, *runtime, *g).metrics);
    detail(
        "Geçmiş veri",
        clone_text(&g.latest_import),
        Some(f.finished_matches),
        some_text("football-data.co.uk"),
        true,
        Some(runtime.historical_cached_bytes),
        None,
        metrics,
    )
}

fn logos(f: &ReadinessFacts, g: &ReadinessFigures) -> (r: SubsystemDetail)
    ensures
        r@ == logos_detail(*f, *g),
{
    let metrics = vec![
        metric("cached_valid_logos", f.cached_logos),
        metric("discovering_logos", g.discovering_logos),
        metric("downloading_logos", g.downloading_logos),
        metric("invalid_logos", g.invalid_logos),
        metric("queued_logos", g.queued_logos),
        metric("rate_limited_logos", g.rate_limited_logos),
        metric("retry_later_logos", g.retry_later_logos),
        metric("source_not_found_logos", g.source_not_found_logos),
        metric("total_known_teams", f.known_teams),
        metric("unavailable_logos", g.unavailable_logos),
    ];
    assert(metric_texts(metrics@) =~= logos_detail(*f, *g).metrics);
    let bytes: u64 = if g.cached_logo_bytes < 0 { 0 } else { g.cached_logo_bytes as u64 };
    detail(
        "Takım logoları",
        clone_text(&g.logos_updated_at),
        Some(f.cached_logos),
        some_text("Yerel önbellek"),
        true,
        Some(bytes),
        None,
        metrics,
    )
}

fn percent_of(part: i64, whole: i64) -> (r: i64)
    requires
        0 <= part,
        part * 100 <= i64::MAX,
    ensures
        r == percent(part as int, whole as int),
{
    if whole > 0 {
        part * 100 / whole
    } else {
        0
    }
}

fn resolution(f: &ReadinessFacts, g: &ReadinessFigures) -> (r: SubsystemDetail)
    requires
        figures_fit(*f, *g),
    ensures
        r@ == resolution_detail(*f, *g),
{
    let blocking = f.upcoming_supported - f.upcoming_resolved;
    let global_unresolved = f.global_matches - f.global_resolved;
    let current_unresolved = f.current_matches - f.current_resolved;
    let nonblocking = global_unresolved - blocking;
    let unsupported = g.all_provider_matches - f.global_matches;
    let metrics = vec![
        metric("all_provider_match_count", g.all_provider_matches),
        metric("blocking_unresolved", blocking),
        metric("current_match_count", f.current_matches),
        metric("current_resolved_match_count", f.current_resolved),
        metric("current_unresolved_match_count", current_unresolved),
        metric("global_match_count", f.global_matches),
        metric("nonblocking_unresolved", nonblocking),
        metric("resolved_mapping_count", f.global_resolved),
        metric("resolved_team_mapping_count", g.resolved_team_mappings),
        metric("supported_resolution_percent", percent_of(f.global_resolved, f.global_matches)),
        metric("unresolved_count", global_unresolved),
        metric("unsupported_match_count", unsupported),
        metric("upcoming_model_ready", g.upcoming_model_ready),
        metric("upcoming_resolution_percent", percent_of(f.upcoming_resolved, f.upcoming_supported)),
        metric("upcoming_resolved", f.upcoming_resolved),
        metric("upcoming_supported", f.upcoming_supported),
        metric("upcoming_unresolved", blocking),
    ];
    assert(metric_texts(metrics@) =~= resolution_detail(*f, *g).metrics);
    detail("Veri eşleştirme", None, Some(f.global_resolved), None, false, None, None, metrics)
}

/// The details shown with every subsystem's verdict, and whether this is a
/// first run.
pub fn details(f: &ReadinessFacts, runtime: &RuntimeReadiness, g: &ReadinessFigures) -> (r: ReadinessDetails)
    requires
        figures_fit(*f, *g),
    ensures
        r.database@ == database_detail(*g),
        r.historical_data@ == historical_detail(*f, *runtime, *g),
        r.iddaa@ == iddaa_detail(*f, *g),
        r.odds@ == odds_detail(*f),
        r.popularity@ == popularity_detail(*f),
        r.team_logos@ == logos_detail(*f, *g),
        r.entity_resolution@ == resolution_detail(*f, *g),
        r.features@ == features_detail(*f, *g),
        r.prediction_model@ == model_detail(*f, *g),
        r.calibration@ == calibration_detail(*f),
        r.lineup_model@ == lineup_model_detail(*f),
        r.lineup_provider@ == lineup_provider_detail(*f, *g),
        r.first_run == (g.match_count == 0 && f.known_teams == 0 && f.active_model is None),
{
    let database = detail(
        "Yerel veritabanı",
        None,
        Some(g.match_count),
        some_text("SQLite"),
        false,
        None,
        None,
        Vec::new(),
    );
    assert(database@.metrics =~= database_detail(*g).metrics);
    let iddaa_metrics = vec![
        metric("competition_count", g.bulletin_competition_count),
        metric("event_count", f.upcoming_match_count),
        metric("odds_snapshot_count", f.odds_snapshot_count),
    ];
    assert(metric_texts(iddaa_metrics@) =~= iddaa_detail(*f, *g).metrics);
    let iddaa = detail(
        "Canlı İddaa verisi",
        clone_text(&g.last_bulletin_refresh),
        Some(f.upcoming_match_count),
        some_text("İddaa"),
        true,
        None,
        None,
        iddaa_metrics,
    );
    let odds = detail(
        "Oranlar",
        clone_text(&f.latest_odds_snapshot_time),
        Some(f.odds_snapshot_count),
        some_text("İddaa"),
        true,
        None,
        None,
        Vec::new(),
    );
    assert(odds@.metrics =~= odds_detail(*f).metrics);
    let popularity_metrics = vec![metric("item_count", f.popularity_selection_count)];
    assert(metric_texts(popularity_metrics@) =~= popularity_detail(*f).metrics);
    let popularity = detail(
        "Popülerlik",
        clone_text(&f.popularity_snapshot_time),
        Some(f.popularity_selection_count),
        some_text("İddaa"),
        true,
        None,
        None,
        popularity_metrics,
    );
    let features_metrics = vec![
        metric("features_generated", f.features_generated),
        metric("insufficient_history", f.insufficient_history),
        metric("production_features_missing", f.production_features_missing),
    ];
    assert(metric_texts(features_metrics@) =~= features_detail(*f, *g).metrics);
    let features = detail(
        "Özellik verisi",
        clone_text(&g.features_updated_at),
        Some(f.features_generated),
        Some(owned(g.feature_engine_version.as_str())),
        false,
        None,
        None,
        features_metrics,
    );
    let (model_source, model_hash) = match &f.active_model {
        Some(m) => (Some(owned(m.version.as_str())), short_of(&m.artifact_hash)),
        None => (None, None),
    };
    let prediction_model = detail(
        "Tahmin modeli",
        clone_text(&g.training_cutoff),
        None,
        model_source,
        false,
        None,
        model_hash,
        Vec::new(),
    );
    assert(prediction_model@.metrics =~= model_detail(*f, *g).metrics);
    let (calibration_source, calibration_hash) = match &f.calibration {
        Some(c) => (Some(owned(c.version.as_str())), Some(shortened(c.parent_artifact_hash.as_str()))),
        None => (None, None),
    };
    let calibration = detail(
        "Kalibrasyon",
        None,
        None,
        calibration_source,
        false,
        None,
        calibration_hash,
        Vec::new(),
    );
    assert(calibration@.metrics =~= calibration_detail(*f).metrics);
    let valid = crate::data_center::lineup_model_compatible(f);
    let (lineup_source, lineup_hash) = match &f.lineup_model {
        Some(l) => (Some(owned(l.version.as_str())), Some(shortened(l.artifact_hash.as_str()))),
        None => (None, None),
    };
    let lineup_metrics = vec![
        metric("active_artifact_available", if valid { 1 } else { 0 }),
        metric("implementation_available", 1),
    ];
    assert(metric_texts(lineup_metrics@) =~= lineup_model_detail(*f).metrics);
    let lineup_model = detail(
        "11 modeli \u{2014} isteğe bağlı",
        None,
        None,
        lineup_source,
        false,
        None,
        lineup_hash,
        lineup_metrics,
    );
    let lineup_provider = detail(
        "11 veri sağlayıcısı",
        clone_text(&g.lineups_updated_at),
        Some(f.official_complete_lineups),
        None,
        true,
        None,
        None,
        Vec::new(),
    );
    assert(lineup_provider@.metrics =~= lineup_provider_detail(*f, *g).metrics);
    ReadinessDetails {
        database,
        historical_data: historical(f, runtime, g),
        iddaa,
        odds,
        popularity,
        team_logos: logos(f, g),
        entity_resolution: resolution(f, g),
        features,
        prediction_model,
        calibration,
        lineup_model,
        lineup_provider,
        first_run: g.match_count == 0 && f.known_teams == 0 && f.active_model.is_none(),
    }
}

} // verus!
