//! Lineup snapshots: player names, completeness of the starting elevens, and
//! when an official lineup is expected for a match.
use vstd::prelude::*;

use crate::clock::{elapsed_nanos, elapsed_nanoseconds, parse_rfc3339, rfc3339_instant};
use crate::text::{is_white_space, owned, text_eq, text_of_chars, trim, trimmed, white_space};

verus! {

pub const LINEUP_FEATURE_VERSION: &'static str = "lineup_features_v1";

pub const ADJUSTMENT_MODEL_STATUS: &'static str = "PENDING_PHASE_8_1B";

pub const LINEUP_CHECK_START_MINUTES_BEFORE_KICKOFF: i64 = 75;

pub const LINEUP_EXPECTED_MINUTES_BEFORE_KICKOFF: i64 = 45;

pub const LINEUP_CHECK_STOP_MINUTES_AFTER_KICKOFF: i64 = 5;

/// The lower-case form of a text under Unicode case mapping.
pub uninterp spec fn lowercase_of(s: Seq<char>) -> Seq<char>;

/// Lower-cases a text with `str::to_lowercase`. Trusted: the result is std's
/// Unicode lower-case mapping of the text, a function of the text alone.
#[verifier::external_body]
fn lowercase(s: &str) -> (r: String)
    ensures
        r@ == lowercase_of(s@),
{
    s.to_lowercase()
}

/// The words of a text joined by single spaces, read left to right: the
/// output so far and whether white space has followed a word since.
pub open spec fn squeeze_state(s: Seq<char>) -> (Seq<char>, bool)
    decreases s.len(),
{
    if s.len() == 0 {
        (Seq::empty(), false)
    } else {
        let (out, gap) = squeeze_state(s.drop_last());
        let c = s.last();
        if is_white_space(c) {
            (out, out.len() > 0)
        } else if gap {
            (out.push(' ').push(c), false)
        } else {
            (out.push(c), false)
        }
    }
}

/// The words of a text joined by single spaces.
pub open spec fn squeezed(s: Seq<char>) -> Seq<char> {
    squeeze_state(s).0
}

fn squeeze(s: &str) -> (r: String)
    ensures
        r@ == squeezed(s@),
{
    let n = s.unicode_len();
    let mut out: Vec<char> = Vec::new();
    let mut gap = false;
    let mut i: usize = 0;
    while i < n
        invariant
            n == s@.len(),
            i <= n,
            (out@, gap) == squeeze_state(s@.subrange(0, i as int)),
        decreases n - i,
    {
        let c = s.get_char(i);
        proof {
            assert(s@.subrange(0, i as int + 1).drop_last() =~= s@.subrange(0, i as int));
        }
        if white_space(c) {
            gap = out.len() > 0;
        } else if gap {
            out.push(' ');
            out.push(c);
            gap = false;
        } else {
            out.push(c);
        }
        i = i + 1;
    }
    proof {
        assert(s@.subrange(0, n as int) =~= s@);
    }
    text_of_chars(&out)
}

/// The comparable form of a player's name: trimmed, lower-cased, with its
/// words joined by single spaces.
pub open spec fn normalized_name(value: Seq<char>) -> Seq<char> {
    squeezed(lowercase_of(trimmed(value)))
}

pub fn normalize_name(value: &str) -> (r: String)
    ensures
        r@ == normalized_name(value@),
{
    let t = trim(value);
    let lower = lowercase(t);
    squeeze(lower.as_str())
}

/// Texts whose only white space is single spaces between words.
pub open spec fn single_spaced(out: Seq<char>) -> bool {
    forall|i: int|
        0 <= i < out.len() && is_white_space(#[trigger] out[i]) ==> out[i] == ' ' && 0 < i < out.len() - 1
            && !is_white_space(out[i - 1]) && !is_white_space(out[i + 1])
}

proof fn lemma_squeeze_state(s: Seq<char>)
    ensures
        single_spaced(squeeze_state(s).0),
        squeeze_state(s).0.len() > 0 ==> !is_white_space(squeeze_state(s).0.last()),
        squeeze_state(s).1 ==> squeeze_state(s).0.len() > 0,
    decreases s.len(),
{
    if s.len() > 0 {
        lemma_squeeze_state(s.drop_last());
        let (out, gap) = squeeze_state(s.drop_last());
        let c = s.last();
        assert(is_white_space(' '));
        if !is_white_space(c) {
            if gap {
                let next = out.push(' ').push(c);
                assert forall|i: int| 0 <= i < next.len() && is_white_space(#[trigger] next[i]) implies next[i]
                    == ' ' && 0 < i < next.len() - 1 && !is_white_space(next[i - 1]) && !is_white_space(
                    next[i + 1],
                ) by {
                    if i < out.len() {
                        assert(next[i] == out[i]);
                    }
                }
            } else {
                let next = out.push(c);
                assert forall|i: int| 0 <= i < next.len() && is_white_space(#[trigger] next[i]) implies next[i]
                    == ' ' && 0 < i < next.len() - 1 && !is_white_space(next[i - 1]) && !is_white_space(
                    next[i + 1],
                ) by {
                    assert(next[i] == out[i]);
                }
            }
        }
    }
}

/// A normalized name never starts or ends with white space, and its only
/// white space is single spaces between words.
pub proof fn law_normalized_names_are_single_spaced(value: Seq<char>)
    ensures
        single_spaced(normalized_name(value)),
        normalized_name(value).len() > 0 ==> !is_white_space(normalized_name(value)[0]) && !is_white_space(
            normalized_name(value).last(),
        ),
{
    lemma_squeeze_state(lowercase_of(trimmed(value)));
    let out = normalized_name(value);
    if out.len() > 0 && is_white_space(out[0]) {
        assert(0 < 0int);
    }
}

/// One player of a lineup as a provider reports it.
#[derive(Clone, Debug)]
pub struct LineupPlayerInput {
    pub team_id: i64,
    pub side: String,
    pub role: String,
    pub provider_player_id: Option<String>,
    pub provider_player_name: String,
    pub position: Option<String>,
    pub shirt_number: Option<i64>,
    pub formation_slot: Option<String>,
    pub captain: Option<bool>,
    pub goalkeeper: Option<bool>,
    pub date_of_birth: Option<String>,
    pub nationality: Option<String>,
}

/// A lineup as imported from a local file.
#[derive(Clone, Debug)]
pub struct LocalLineupPayload {
    pub provider: String,
    pub provider_event_id: String,
    pub match_id: i64,
    pub captured_at: String,
    pub lineup_status: String,
    pub is_official: bool,
    pub players: Vec<LineupPlayerInput>,
}

/// The outcome of importing a lineup.
#[derive(Clone, Debug)]
pub struct LineupImportResult {
    pub snapshot_id: i64,
    pub source_hash: String,
    pub deduplicated: bool,
    pub completeness_status: String,
    pub quality_status: String,
    pub resolved_players: usize,
    pub unresolved_players: usize,
    pub starter_count_home: usize,
    pub starter_count_away: usize,
}

/// A stored lineup snapshot.
#[derive(Clone, Debug)]
pub struct LineupSnapshot {
    pub id: i64,
    pub match_id: i64,
    pub provider: String,
    pub provider_event_id: String,
    pub captured_at: String,
    pub lineup_status: String,
    pub is_official: bool,
    pub source_hash: String,
    pub completeness_status: String,
    pub player_count: usize,
}

/// The lineup state of one match.
#[derive(Clone, Debug)]
pub struct LineupStatus {
    pub match_id: i64,
    pub status: String,
    pub lineup_snapshot_id: Option<i64>,
    pub captured_at: Option<String>,
    pub revision_status: String,
}

/// A source of live lineups. Adapters implement it; without one no live
/// lineup can be fetched.
pub trait LineupProvider {
    /// Whether this provider reaches a live lineup feed. A provider that
    /// fetches lineups says so; any other has no live feed.
    open spec fn has_live_feed(&self) -> bool {
        false
    }

    fn provider_name(&self) -> &str;

    /// Fetches the lineup of a provider event. A provider without a live feed
    /// refuses with `LIVE_LINEUP_PROVIDER_NOT_CONFIGURED`, and that is all a
    /// provider that does not fetch lineups of its own does.
    fn fetch_lineup(&self, provider_event_id: &str) -> (r: Result<LocalLineupPayload, String>)
        ensures
            !self.has_live_feed() ==> (r matches Err(e) && e@ == "LIVE_LINEUP_PROVIDER_NOT_CONFIGURED"@),
    {
        Err(owned("LIVE_LINEUP_PROVIDER_NOT_CONFIGURED"))
    }
}

/// The key that identifies a starter within a side: the provider's player
/// id, or the normalized name where there is none.
pub open spec fn starter_key(p: LineupPlayerInput) -> Seq<char> {
    match p.provider_player_id {
        Some(id) => id@,
        None => normalized_name(p.provider_player_name@),
    }
}

/// The side a starter counts for: the home side when the player is a starter
/// of the home team reported on the home side, likewise away, and none else.
pub open spec fn starter_side(p: LineupPlayerInput, home: i64, away: i64) -> Option<bool> {
    if p.role@ != "STARTER"@ {
        None
    } else if p.team_id == home && p.side@ == "HOME"@ {
        Some(true)
    } else if p.team_id == away && p.side@ == "AWAY"@ {
        Some(false)
    } else {
        None
    }
}

/// The starters that count, as (is home, key), in order.
pub open spec fn starter_entries(players: Seq<LineupPlayerInput>, home: i64, away: i64) -> Seq<(bool, Seq<char>)>
    decreases players.len(),
{
    if players.len() == 0 {
        Seq::empty()
    } else {
        let rest = starter_entries(players.drop_last(), home, away);
        match starter_side(players.last(), home, away) {
            Some(side) => rest.push((side, starter_key(players.last()))),
            None => rest,
        }
    }
}

/// An earlier entry repeats this one.
pub open spec fn repeated(entries: Seq<(bool, Seq<char>)>, k: int) -> bool {
    exists|i: int| 0 <= i < k && entries[i] == entries[k]
}

/// The distinct starters of a side.
pub open spec fn distinct_starters(entries: Seq<(bool, Seq<char>)>, side: bool) -> nat
    decreases entries.len(),
{
    if entries.len() == 0 {
        0
    } else {
        distinct_starters(entries.drop_last(), side) + if entries.last().0 == side && !repeated(
            entries,
            entries.len() - 1,
        ) {
            1nat
        } else {
            0nat
        }
    }
}

/// Some starter is listed twice on its side.
pub open spec fn has_repeat(entries: Seq<(bool, Seq<char>)>) -> bool {
    exists|k: int| 0 <= k < entries.len() && repeated(entries, k)
}

pub open spec fn completeness_spec(payload: LocalLineupPayload, home: i64, away: i64) -> Seq<char> {
    let entries = starter_entries(payload.players@, home, away);
    let h = distinct_starters(entries, true);
    let a = distinct_starters(entries, false);
    if payload.is_official && payload.lineup_status@ == "OFFICIAL"@ && !has_repeat(entries) && h == 11 && a == 11 {
        "COMPLETE_OFFICIAL"@
    } else if h <= 11 && a <= 11 {
        "PARTIAL"@
    } else {
        "INVALID"@
    }
}

fn starter_list(players: &Vec<LineupPlayerInput>, home: i64, away: i64) -> (r: Vec<(bool, String)>)
    ensures
        r@.map_values(|e: (bool, String)| (e.0, e.1@)) == starter_entries(players@, home, away),
{
    let mut out: Vec<(bool, String)> = Vec::new();
    let n = players.len();
    let mut j: usize = 0;
    while j < n
        invariant
            n == players@.len(),
            j <= n,
            out@.map_values(|e: (bool, String)| (e.0, e.1@)) == starter_entries(players@.subrange(0, j as int), home, away),
        decreases n - j,
    {
        let p = &players[j];
        proof {
            assert(players@.subrange(0, j as int + 1).drop_last() =~= players@.subrange(0, j as int));
        }
        let starter = text_eq(p.role.as_str(), "STARTER");
        let side: Option<bool> = if !starter {
            None
        } else if p.team_id == home && text_eq(p.side.as_str(), "HOME") {
            Some(true)
        } else if p.team_id == away && text_eq(p.side.as_str(), "AWAY") {
            Some(false)
        } else {
            None
        };
        match side {
            Some(is_home) => {
                let key = match &p.provider_player_id {
                    Some(id) => owned(id.as_str()),
                    None => normalize_name(p.provider_player_name.as_str()),
                };
                out.push((is_home, key));
                proof {
                    assert(out@.map_values(|e: (bool, String)| (e.0, e.1@)) =~= starter_entries(
                        players@.subrange(0, j as int),
                        home,
                        away,
                    ).push((is_home, starter_key(players@[j as int]))));
                }
            },
            None => {},
        }
        j = j + 1;
    }
    proof {
        assert(players@.subrange(0, n as int) =~= players@);
    }
    out
}

/// Classifies a lineup: complete and official when it is official and both
/// sides list eleven distinct starters with none repeated; partial while no
/// side lists more than eleven; invalid otherwise.
pub fn completeness(payload: &LocalLineupPayload, home: i64, away: i64) -> (r: &'static str)
    ensures
        r@ == completeness_spec(*payload, home, away),
{
    let entries = starter_list(&payload.players, home, away);
    let ghost view = entries@.map_values(|e: (bool, String)| (e.0, e.1@));
    let n = entries.len();
    let mut home_count: usize = 0;
    let mut away_count: usize = 0;
    let mut repeat = false;
    let mut k: usize = 0;
    while k < n
        invariant
            n == entries@.len(),
            view == entries@.map_values(|e: (bool, String)| (e.0, e.1@)),
            k <= n,
            home_count == distinct_starters(view.subrange(0, k as int), true),
            away_count == distinct_starters(view.subrange(0, k as int), false),
            home_count <= k,
            away_count <= k,
            repeat == has_repeat(view.subrange(0, k as int)),
        decreases n - k,
    {
        let mut seen = false;
        let mut i: usize = 0;
        while i < k
            invariant
                k < n,
                n == entries@.len(),
                view == entries@.map_values(|e: (bool, String)| (e.0, e.1@)),
                i <= k,
                seen == (exists|x: int| 0 <= x < i && view[x] == view[k as int]),
            decreases k - i,
        {
            if entries[i].0 == entries[k].0 && text_eq(entries[i].1.as_str(), entries[k].1.as_str()) {
                seen = true;
            }
            proof {
                assert(view[i as int] == (entries@[i as int].0, entries@[i as int].1@));
                assert(view[k as int] == (entries@[k as int].0, entries@[k as int].1@));
            }
            i = i + 1;
        }
        let ghost prefix = view.subrange(0, k as int + 1);
        proof {
            assert(prefix.drop_last() =~= view.subrange(0, k as int));
            assert forall|x: int| 0 <= x < k + 1 implies (#[trigger] prefix[x]) == view[x] by {}
            assert(repeated(prefix, k as int) == seen) by {
                if seen {
                    let x = choose|x: int| 0 <= x < k && view[x] == view[k as int];
                    assert(prefix[x] == prefix[k as int]);
                }
                if repeated(prefix, k as int) {
                    let x = choose|x: int| 0 <= x < k && prefix[x] == prefix[k as int];
                    assert(view[x] == view[k as int]);
                }
            }
            assert forall|y: int| 0 <= y < k implies repeated(prefix, y) == repeated(view.subrange(0, k as int), y) by {
                assert forall|x: int| 0 <= x < y implies prefix[x] == view.subrange(0, k as int)[x] by {}
            }
            assert(has_repeat(prefix) == (has_repeat(view.subrange(0, k as int)) || seen)) by {
                if has_repeat(prefix) && !seen {
                    let y = choose|y: int| 0 <= y < prefix.len() && repeated(prefix, y);
                    assert(y < k);
                    assert(repeated(view.subrange(0, k as int), y));
                }
                if has_repeat(view.subrange(0, k as int)) {
                    let y = choose|y: int| 0 <= y < k && repeated(view.subrange(0, k as int), y);
                    assert(repeated(prefix, y));
                }
                if seen {
                    assert(repeated(prefix, k as int));
                }
            }
        }
        if !seen {
            if entries[k].0 {
                home_count = home_count + 1;
            } else {
                away_count = away_count + 1;
            }
        }
        if seen {
            repeat = true;
        }
        k = k + 1;
    }
    proof {
        assert(view.subrange(0, n as int) =~= view);
    }
    if payload.is_official && text_eq(payload.lineup_status.as_str(), "OFFICIAL") && !repeat && home_count == 11
        && away_count == 11 {
        "COMPLETE_OFFICIAL"
    } else if home_count <= 11 && away_count <= 11 {
        "PARTIAL"
    } else {
        "INVALID"
    }
}

/// When a lineup is or will be available for a match.
#[derive(Clone, Copy, Debug, PartialEq, Eq, Structural)]
pub enum LineupReadiness {
    OfficialLineupReady,
    WaitingForLineup,
    NotExpectedYet,
    LineupRevisionUnavailable,
    PartialLineup,
}

pub open spec fn lineup_readiness_name(r: LineupReadiness) -> Seq<char> {
    match r {
        LineupReadiness::OfficialLineupReady => "OFFICIAL_LINEUP_READY"@,
        LineupReadiness::WaitingForLineup => "WAITING_FOR_LINEUP"@,
        LineupReadiness::NotExpectedYet => "NOT_EXPECTED_YET"@,
        LineupReadiness::LineupRevisionUnavailable => "LINEUP_REVISION_UNAVAILABLE"@,
        LineupReadiness::PartialLineup => "PARTIAL_LINEUP"@,
    }
}

impl LineupReadiness {
    pub fn as_str(&self) -> (r: &'static str)
        ensures
            r@ == lineup_readiness_name(*self),
    {
        match self {
            LineupReadiness::OfficialLineupReady => "OFFICIAL_LINEUP_READY",
            LineupReadiness::WaitingForLineup => "WAITING_FOR_LINEUP",
            LineupReadiness::NotExpectedYet => "NOT_EXPECTED_YET",
            LineupReadiness::LineupRevisionUnavailable => "LINEUP_REVISION_UNAVAILABLE",
            LineupReadiness::PartialLineup => "PARTIAL_LINEUP",
        }
    }
}

pub const NANOS_PER_MINUTE: i128 = 60_000_000_000;

pub open spec fn readiness_spec(kickoff: Seq<char>, known: bool, now: Seq<char>, complete: bool) -> LineupReadiness {
    if complete {
        LineupReadiness::OfficialLineupReady
    } else if !known {
        LineupReadiness::WaitingForLineup
    } else {
        match (rfc3339_instant(kickoff), rfc3339_instant(now)) {
            (Some(k), Some(n)) => {
                let until = elapsed_nanos(k, n);
                if until > LINEUP_CHECK_START_MINUTES_BEFORE_KICKOFF * NANOS_PER_MINUTE {
                    LineupReadiness::NotExpectedYet
                } else if until >= -LINEUP_CHECK_STOP_MINUTES_AFTER_KICKOFF * NANOS_PER_MINUTE {
                    LineupReadiness::WaitingForLineup
                } else {
                    LineupReadiness::LineupRevisionUnavailable
                }
            },
            _ => LineupReadiness::WaitingForLineup,
        }
    }
}

/// The lineup readiness of a match at time `now`: ready with a complete
/// official lineup; otherwise not expected more than 75 minutes before
/// kickoff, awaited until 5 minutes after it, and unavailable later. An
/// unknown kickoff time or an unreadable timestamp keeps the match waiting.
pub fn readiness(kickoff: &str, known: bool, now: &str, complete: bool) -> (r: LineupReadiness)
    ensures
        r == readiness_spec(kickoff@, known, now@, complete),
{
    if complete {
        return LineupReadiness::OfficialLineupReady;
    }
    if !known {
        return LineupReadiness::WaitingForLineup;
    }
    let k = match parse_rfc3339(kickoff) {
        Some(k) => k,
        None => return LineupReadiness::WaitingForLineup,
    };
    let n = match parse_rfc3339(now) {
        Some(n) => n,
        None => return LineupReadiness::WaitingForLineup,
    };
    let until = elapsed_nanoseconds(k, n);
    if until > 75 * NANOS_PER_MINUTE {
        LineupReadiness::NotExpectedYet
    } else if until >= -5 * NANOS_PER_MINUTE {
        LineupReadiness::WaitingForLineup
    } else {
        LineupReadiness::LineupRevisionUnavailable
    }
}

/// What the store holds of a match's latest lineup snapshot.
#[derive(Clone, Debug)]
pub struct LatestLineup {
    pub id: i64,
    pub captured_at: String,
    pub completeness_status: String,
}

/// The lineup status of a match: a latest snapshot that is not complete and
/// official makes the lineup partial; otherwise readiness decides. A revision
/// can follow only a complete official lineup.
pub fn status_for_match(match_id: i64, kickoff: &str, known: bool, now: &str, latest: &Option<LatestLineup>) -> (r: LineupStatus)
    ensures
        r.match_id == match_id,
        ({
            let complete = latest matches Some(s) && s.completeness_status@ == "COMPLETE_OFFICIAL"@;
            &&& r.status@ == (if latest is Some && !complete {
                "PARTIAL_LINEUP"@
            } else {
                lineup_readiness_name(readiness_spec(kickoff@, known, now@, complete))
            })
            &&& r.revision_status@ == (if complete { "REVISION_PENDING_MODEL"@ } else { "UNAVAILABLE"@ })
        }),
        r.lineup_snapshot_id == (match *latest {
            Some(s) => Some(s.id),
            None => None,
        }),
        (match r.captured_at {
            Some(c) => Some(c@),
            None => None,
        }) == (match *latest {
            Some(s) => Some(s.captured_at@),
            None => None,
        }),
{
    let complete = match latest {
        Some(s) => text_eq(s.completeness_status.as_str(), "COMPLETE_OFFICIAL"),
        None => false,
    };
    let status = if latest.is_some() && !complete {
        owned("PARTIAL_LINEUP")
    } else {
        owned(readiness(kickoff, known, now, complete).as_str())
    };
    let (lineup_snapshot_id, captured_at) = match latest {
        Some(s) => (Some(s.id), Some(owned(s.captured_at.as_str()))),
        None => (None, None),
    };
    let revision_status = if complete { owned("REVISION_PENDING_MODEL") } else { owned("UNAVAILABLE") };
    LineupStatus { match_id, status, lineup_snapshot_id, captured_at, revision_status }
}

/// Every player belongs to one of the two teams of the match.
pub open spec fn players_of_match(players: Seq<LineupPlayerInput>, home: i64, away: i64) -> bool {
    forall|i: int| 0 <= i < players.len() ==> (#[trigger] players[i]).team_id == home || players[i].team_id == away
}

/// Refuses a lineup that names a player of another team.
pub fn check_match_mapping(players: &Vec<LineupPlayerInput>, home: i64, away: i64) -> (r: Result<(), &'static str>)
    ensures
        r is Ok <==> players_of_match(players@, home, away),
        r matches Err(e) ==> e@ == "WRONG_MATCH_MAPPING"@,
{
    let n = players.len();
    let mut i: usize = 0;
    while i < n
        invariant
            n == players@.len(),
            i <= n,
            forall|k: int| 0 <= k < i ==> (#[trigger] players@[k]).team_id == home || players@[k].team_id == away,
        decreases n - i,
    {
        if players[i].team_id != home && players[i].team_id != away {
            return Err("WRONG_MATCH_MAPPING");
        }
        i = i + 1;
    }
    Ok(())
}

/// The number of starters reported on a side, whatever their team.
pub open spec fn side_starters(players: Seq<LineupPlayerInput>, side: Seq<char>) -> nat
    decreases players.len(),
{
    if players.len() == 0 {
        0
    } else {
        side_starters(players.drop_last(), side) + if players.last().side@ == side && players.last().role@
            == "STARTER"@ {
            1nat
        } else {
            0nat
        }
    }
}

pub fn starter_count(players: &Vec<LineupPlayerInput>, side: &str) -> (r: usize)
    ensures
        r == side_starters(players@, side@),
{
    let n = players.len();
    let mut count: usize = 0;
    let mut i: usize = 0;
    while i < n
        invariant
            n == players@.len(),
            i <= n,
            count == side_starters(players@.subrange(0, i as int), side@),
            count <= i,
        decreases n - i,
    {
        proof {
            assert(players@.subrange(0, i as int + 1).drop_last() =~= players@.subrange(0, i as int));
        }
        if text_eq(players[i].side.as_str(), side) && text_eq(players[i].role.as_str(), "STARTER") {
            count = count + 1;
        }
        i = i + 1;
    }
    proof {
        assert(players@.subrange(0, n as int) =~= players@);
    }
    count
}

/// The player resolution of an import.
pub fn import_quality(unresolved_players: usize) -> (r: &'static str)
    ensures
        r@ == (if unresolved_players == 0 { "COMPLETE"@ } else { "PARTIAL_PLAYER_RESOLUTION"@ }),
{
    if unresolved_players == 0 {
        "COMPLETE"
    } else {
        "PARTIAL_PLAYER_RESOLUTION"
    }
}

/// The quality of lineup features: complete with both elevens resolved and
/// some prior history, short of history with only the elevens, partial else.
pub fn feature_quality(home_resolved: u64, away_resolved: u64, prior_sample: i64) -> (r: &'static str)
    ensures
        r@ == (if home_resolved == 11 && away_resolved == 11 && prior_sample > 0 {
            "COMPLETE"@
        } else if home_resolved == 11 && away_resolved == 11 {
            "INSUFFICIENT_PLAYER_HISTORY"@
        } else {
            "PARTIAL_PLAYER_RESOLUTION"@
        }),
{
    if home_resolved == 11 && away_resolved == 11 && prior_sample > 0 {
        "COMPLETE"
    } else if home_resolved == 11 && away_resolved == 11 {
        "INSUFFICIENT_PLAYER_HISTORY"
    } else {
        "PARTIAL_PLAYER_RESOLUTION"
    }
}

/// A lineup is complete only when it is the official lineup with exactly
/// eleven distinct starters on each side and no starter listed twice; a side
/// with more than eleven distinct starters makes it invalid, and a lineup
/// that is neither is partial.
pub proof fn law_complete_lineups_have_eleven_a_side(payload: LocalLineupPayload, home: i64, away: i64)
    ensures
        ({
            let entries = starter_entries(payload.players@, home, away);
            let c = completeness_spec(payload, home, away);
            &&& c == "COMPLETE_OFFICIAL"@ ==> payload.is_official && payload.lineup_status@ == "OFFICIAL"@
                && distinct_starters(entries, true) == 11 && distinct_starters(entries, false) == 11 && !has_repeat(
                entries,
            )
            &&& (distinct_starters(entries, true) > 11 || distinct_starters(entries, false) > 11) ==> c == "INVALID"@
            &&& (c == "COMPLETE_OFFICIAL"@ || c == "PARTIAL"@ || c == "INVALID"@)
        }),
{
    reveal_strlit("COMPLETE_OFFICIAL");
    reveal_strlit("PARTIAL");
    reveal_strlit("INVALID");
    assert("COMPLETE_OFFICIAL"@[0] != "PARTIAL"@[0]);
    assert("COMPLETE_OFFICIAL"@[0] != "INVALID"@[0]);
    assert("PARTIAL"@[0] != "INVALID"@[0]);
}

} // verus!
