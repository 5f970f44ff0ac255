//! Mapping of enrichment-service responses into player reports.
//!
//! A stats response is a nested, partially-present structure; every absent
//! numeric field maps to the sentinel `-1` marking "unknown" (experience
//! maps to `0` in the report, while the level computation feeds on the
//! `-1` sentinel — the asymmetry is deliberate and preserved). The rank
//! label derives from the monthly and general tier fields.
//!
//! The report carries the raw final-kill/final-death and win/loss counts;
//! the kill/death and win/loss ratios are plain floating-point divisions
//! of those counts (division by zero giving infinity or not-a-number) and
//! are derived outside the library.

use vstd::prelude::*;

use crate::level::calculate_level;
use crate::level::spec_level;
use crate::text::replace_str;
use crate::text::spec_replace;
use crate::text::str_eq;

verus! {

/// The game-specific statistics block of a stats response.
pub struct ApiBedwarsStats {
    pub winstreak: Option<i32>,
    pub final_kills_bedwars: Option<i32>,
    pub final_deaths_bedwars: Option<i32>,
    pub wins_bedwars: Option<i32>,
    pub losses_bedwars: Option<i32>,
    pub beds_broken_bedwars: Option<i32>,
}

/// The statistics container of a stats response.
pub struct ApiStats {
    pub bedwars: Option<ApiBedwarsStats>,
}

/// The achievements block of a stats response.
pub struct ApiAchievements {
    pub bedwars_level: Option<i32>,
}

/// The player object of a stats response.
pub struct ApiHypixelPlayer {
    pub name: String,
    pub monthly_package_rank: Option<String>,
    pub new_package_rank: Option<String>,
    pub network_xp: Option<i32>,
    pub achievements: Option<ApiAchievements>,
    pub stats: Option<ApiStats>,
}

/// A whole stats response: the player object may be absent, which means
/// the service knows no player under the queried identifier.
pub struct ApiHypixelData {
    pub player: Option<ApiHypixelPlayer>,
}

/// The per-player enrichment report. Absent source fields carry the
/// sentinel `-1` (experience `0`), meaning "unknown", not a real value.
pub struct HypixelPlayer {
    pub name: String,
    pub uuid: String,
    pub rank: String,
    pub network_xp: i32,
    pub network_level: i32,
    pub level: i32,
    pub winstreak: i32,
    pub final_kills: i32,
    pub final_deaths: i32,
    pub wins: i32,
    pub losses: i32,
    pub bed_break: i32,
}

/// The integer carried by `o`, or `default` when absent.
pub open spec fn opt_or(o: Option<i32>, default: i32) -> i32 {
    match o {
        Some(v) => v,
        None => default,
    }
}

/// The game-statistics block of `raw`, if present at both levels.
pub open spec fn spec_bedwars_of(raw: ApiHypixelPlayer) -> Option<ApiBedwarsStats> {
    match raw.stats {
        Some(s) => s.bedwars,
        None => None,
    }
}

/// The announced game level of `raw`, or the `-1` sentinel.
pub open spec fn spec_game_level(raw: ApiHypixelPlayer) -> i32 {
    match raw.achievements {
        Some(a) => opt_or(a.bedwars_level, -1i32),
        None => -1i32,
    }
}

/// A field of the game-statistics block, or the `-1` sentinel when the
/// block or the field is absent.
pub open spec fn spec_bedwars_field(b: Option<ApiBedwarsStats>, f: Option<i32>) -> i32 {
    match b {
        Some(_) => opt_or(f, -1i32),
        None => -1i32,
    }
}

/// The rank label: the elevated label for the elevated monthly tier,
/// otherwise the general tier (defaulting to `Default`) with the `_PLUS`
/// token rewritten to its `+` shorthand.
pub open spec fn spec_rank(monthly: Option<Seq<char>>, general: Option<Seq<char>>) -> Seq<char> {
    if monthly == Some("SUPERSTAR"@) {
        "MVP++"@
    } else {
        spec_replace(
            match general {
                Some(r) => r,
                None => "Default"@,
            },
            "_PLUS"@,
            "+"@,
        )
    }
}

/// The view of an optional string.
pub open spec fn opt_view(o: Option<String>) -> Option<Seq<char>> {
    match o {
        Some(s) => Some(s@),
        None => None,
    }
}

/// `report` is exactly the mapping of `raw` under the sentinel-default
/// policy, keyed by `uuid`.
pub open spec fn spec_report_of(report: HypixelPlayer, raw: ApiHypixelPlayer, uuid: Seq<char>) -> bool {
    let b = spec_bedwars_of(raw);
    &&& report.name@ == raw.name@
    &&& report.uuid@ == uuid
    &&& report.rank@ == spec_rank(opt_view(raw.monthly_package_rank), opt_view(raw.new_package_rank))
    &&& report.network_xp == opt_or(raw.network_xp, 0i32)
    &&& report.network_level == spec_level(opt_or(raw.network_xp, -1i32) as int)
    &&& report.level == spec_game_level(raw)
    &&& report.winstreak == spec_bedwars_field(
        b,
        match b {
            Some(bb) => bb.winstreak,
            None => None,
        },
    )
    &&& report.final_kills == spec_bedwars_field(
        b,
        match b {
            Some(bb) => bb.final_kills_bedwars,
            None => None,
        },
    )
    &&& report.final_deaths == spec_bedwars_field(
        b,
        match b {
            Some(bb) => bb.final_deaths_bedwars,
            None => None,
        },
    )
    &&& report.wins == spec_bedwars_field(
        b,
        match b {
            Some(bb) => bb.wins_bedwars,
            None => None,
        },
    )
    &&& report.losses == spec_bedwars_field(
        b,
        match b {
            Some(bb) => bb.losses_bedwars,
            None => None,
        },
    )
    &&& report.bed_break == spec_bedwars_field(
        b,
        match b {
            Some(bb) => bb.beds_broken_bedwars,
            None => None,
        },
    )
}

impl HypixelPlayer {
    /// Maps a raw player object into the report for `player_uuid`,
    /// substituting the sentinel defaults for absent fields.
    pub fn from_api(raw_info: ApiHypixelPlayer, player_uuid: String) -> (report: HypixelPlayer)
        ensures
            spec_report_of(report, raw_info, player_uuid@),
    {
        let bedwars: Option<&ApiBedwarsStats> = match &raw_info.stats {
            Some(s) => match &s.bedwars {
                Some(b) => Some(b),
                None => None,
            },
            None => None,
        };
        let (winstreak, final_kills, final_deaths, wins, losses, bed_break) = match bedwars {
            Some(b) => (
                unwrap_or(b.winstreak, -1),
                unwrap_or(b.final_kills_bedwars, -1),
                unwrap_or(b.final_deaths_bedwars, -1),
                unwrap_or(b.wins_bedwars, -1),
                unwrap_or(b.losses_bedwars, -1),
                unwrap_or(b.beds_broken_bedwars, -1),
            ),
            None => (-1, -1, -1, -1, -1, -1),
        };
        let level = match &raw_info.achievements {
            Some(a) => unwrap_or(a.bedwars_level, -1),
            None => -1,
        };
        let is_superstar = match &raw_info.monthly_package_rank {
            Some(m) => str_eq(m.as_str(), "SUPERSTAR"),
            None => false,
        };
        let rank = if is_superstar {
            let r = "MVP++".to_owned();
            proof {
                assert(raw_info.monthly_package_rank matches Some(m) && m@ == "SUPERSTAR"@);
            }
            r
        } else {
            proof {
                reveal_strlit("_PLUS");
            }
            let general: &str = match &raw_info.new_package_rank {
                Some(r) => r.as_str(),
                None => "Default",
            };
            replace_str(general, "_PLUS", "+")
        };
        let network_level = match raw_info.network_xp {
            Some(xp) => calculate_level(xp),
            None => calculate_level(-1),
        };
        HypixelPlayer {
            name: raw_info.name,
            uuid: player_uuid,
            rank,
            network_xp: match raw_info.network_xp {
                Some(xp) => xp,
                None => 0,
            },
            network_level,
            level,
            winstreak,
            final_kills,
            final_deaths,
            wins,
            losses,
            bed_break,
        }
    }
}

/// The integer carried by `o`, or `default` when absent.
fn unwrap_or(o: Option<i32>, default: i32) -> (r: i32)
    ensures
        r == opt_or(o, default),
{
    match o {
        Some(v) => v,
        None => default,
    }
}

/// What one call to the enrichment service produced, as the surrounding
/// plumbing hands it in: a transport failure, a non-success status with
/// the raw body, a parsed body, or a declared-successful body that did
/// not parse.
pub enum StatsResponse {
    Transport,
    Http(u16, String),
    Payload(ApiHypixelData),
    Malformed,
}

/// Why one identity's enrichment failed.
#[derive(Debug)]
pub enum StatsError {
    /// The request failed at the transport level.
    Transport,
    /// The service answered with this non-success status and body.
    RemoteService(u16, String),
    /// The declared-successful body did not have the expected shape.
    Deserialization,
    /// The service knows no player under the queried identifier.
    PlayerNotFound,
    /// The queried identifier is not a well-formed 128-bit identifier.
    InvalidUuid,
}

/// Turns the outcome of one enrichment call into the player's report or
/// the error under which that identity is skipped.
pub fn process_stats_response(resp: StatsResponse, uuid: String) -> (r: Result<
    HypixelPlayer,
    StatsError,
>)
    ensures
        match resp {
            StatsResponse::Transport => r matches Err(e) && e is Transport,
            StatsResponse::Http(code, body) => r matches Err(e) && (e matches
                StatsError::RemoteService(c, b) && c == code && b@ == body@),
            StatsResponse::Malformed => r matches Err(e) && e is Deserialization,
            StatsResponse::Payload(data) => match data.player {
                Some(p) => r matches Ok(report) && spec_report_of(report, p, uuid@),
                None => r matches Err(e) && e is PlayerNotFound,
            },
        },
{
    match resp {
        StatsResponse::Transport => Err(StatsError::Transport),
        StatsResponse::Http(code, body) => Err(StatsError::RemoteService(code, body)),
        StatsResponse::Malformed => Err(StatsError::Deserialization),
        StatsResponse::Payload(data) => match data.player {
            Some(p) => Ok(HypixelPlayer::from_api(p, uuid)),
            None => Err(StatsError::PlayerNotFound),
        },
    }
}

/// Whether the identifier parser accepts `s`.
pub uninterp spec fn uuid_parse_ok(s: Seq<char>) -> bool;

/// The canonical hyphenated rendering of the identifier written in `s`.
pub uninterp spec fn uuid_hyphenated_of(s: Seq<char>) -> Seq<char>;

/// Relies on uuid::Uuid::parse_str, which accepts the simple, hyphenated,
/// braced and URN renderings of a 128-bit identifier, and on the
/// Hyphenated formatter, which renders the parsed identifier in its
/// 36-character hyphenated form; both depend on the input text alone.
#[verifier::external_body]
fn normalize_uuid(s: &str) -> (r: Option<String>)
    ensures
        (r is Some) == uuid_parse_ok(s@),
        r matches Some(u) ==> u@ == uuid_hyphenated_of(s@) && u@.len() == 36,
{
    match uuid::Uuid::parse_str(s) {
        Ok(u) => Some(u.hyphenated().to_string()),
        Err(_) => None,
    }
}

/// Canonicalizes the identifier an enrichment request is keyed by: the
/// hyphenated rendering for a well-formed identifier, `InvalidUuid` for
/// anything else.
pub fn prepare_stats_request(uuid: &str) -> (r: Result<String, StatsError>)
    ensures
        (r is Ok) == uuid_parse_ok(uuid@),
        r matches Ok(u) ==> u@ == uuid_hyphenated_of(uuid@) && u@.len() == 36,
        r matches Err(e) ==> e is InvalidUuid,
{
    match normalize_uuid(uuid) {
        Some(u) => Ok(u),
        None => Err(StatsError::InvalidUuid),
    }
}


} // verus!
