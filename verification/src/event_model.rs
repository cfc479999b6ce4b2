//! The event feed's data model: the provider's raw play-by-play records, the
//! normalized domain events, and the mapper between them — including the
//! best-effort parsing of player names and penalty descriptions embedded in
//! free text.

use crate::status::{status_of_period, GameStatus};
use crate::text::{
    comma_str, dec_str, first_match, i32_dec, remove_all, remove_all_str, space_str,
    split_after, split_before, split_once_str, str_eq, trim_spaces, trim_str,
};
use vstd::prelude::*;

verus! {

// ---------------------------------------------------------------------------
// Lexical markers of the feed
// ---------------------------------------------------------------------------

/// The provider's locale-specific marker between the penalized player and the
/// penalty text ("is penalized").
pub open spec fn spec_penalty_marker() -> Seq<char> {
    seq!['u', 't', 'v', 'i', 's', 'a', 's', ' ']
}

fn penalty_marker() -> (r: &'static str)
    ensures
        r@ == spec_penalty_marker(),
{
    let r = "utvisas ";
    proof {
        reveal_strlit("utvisas ");
        assert(r@ =~= spec_penalty_marker());
    }
    r
}

/// The status string that marks a period as started rather than ended.
pub open spec fn spec_playing() -> Seq<char> {
    seq!['P', 'l', 'a', 'y', 'i', 'n', 'g']
}

fn playing_str() -> (r: &'static str)
    ensures
        r@ == spec_playing(),
{
    let r = "Playing";
    proof {
        reveal_strlit("Playing");
        assert(r@ =~= spec_playing());
    }
    r
}

// ---------------------------------------------------------------------------
// Players embedded in provider text
// ---------------------------------------------------------------------------

/// A player as embedded in provider text: `"<jersey> <first> <family ...>"`.
#[derive(Debug, Clone, PartialEq)]
pub struct Player {
    pub first_name: String,
    pub family_name: String,
    pub jersey: String,
}

/// The token before the first space: the jersey label.
pub open spec fn spec_jersey(s: Seq<char>) -> Seq<char> {
    split_before(s, seq![' '])
}

/// The token between the first and second space: the first name.
pub open spec fn spec_first_name(s: Seq<char>) -> Seq<char> {
    if first_match(s, seq![' ']) is Some {
        split_before(split_after(s, seq![' ']), seq![' '])
    } else {
        Seq::empty()
    }
}

/// The rest: `s` with every occurrence of `"<jersey> <first>"` removed and
/// the result trimmed of spaces.
pub open spec fn spec_family_name(s: Seq<char>) -> Seq<char> {
    trim_spaces(remove_all(s, spec_jersey(s) + seq![' '] + spec_first_name(s)))
}

/// All three fields of `p` are exactly what a best-effort parse of `s` gives.
pub open spec fn player_matches(p: Player, s: Seq<char>) -> bool {
    p.jersey@ == spec_jersey(s) && p.first_name@ == spec_first_name(s) && p.family_name@
        == spec_family_name(s)
}

impl Player {
    /// Best-effort parse of a `"<jersey> <first> <family ...>"` string.  The
    /// family name is found by removing the literal `"<jersey> <first>"`
    /// pattern from the whole string, not by position, so a name repeating
    /// that pattern elsewhere loses it too — a known limitation of the feed,
    /// kept as is because downstream identity depends on it.
    pub fn from_str(s: &str) -> (p: Player)
        ensures
            player_matches(p, s@),
    {
        let space = space_str();
        let jersey: String;
        let first_name: String;
        match split_once_str(s, space) {
            None => {
                jersey = s.to_owned();
                first_name = String::new();
            },
            Some((j, rest)) => {
                jersey = j.to_owned();
                first_name = match split_once_str(rest, space) {
                    None => rest.to_owned(),
                    Some((f, _)) => f.to_owned(),
                };
            },
        }
        let mut pat = jersey.clone();
        pat.append(space);
        pat.append(first_name.as_str());
        proof {
            assert(pat@ =~= spec_jersey(s@) + seq![' '] + spec_first_name(s@));
        }
        let removed = remove_all_str(s, pat.as_str());
        let family_name = trim_str(removed.as_str()).to_owned();
        Player { first_name, family_name, jersey }
    }
}

// ---------------------------------------------------------------------------
// Raw provider records
// ---------------------------------------------------------------------------

/// Rink coordinates as the provider sends them, held as the bit patterns of
/// its binary32 values; nothing in this crate reads them, the app layer
/// converts them back to numbers.
#[derive(Debug, Clone, Copy, PartialEq, Eq, Structural)]
pub struct Location {
    pub x_bits: u32,
    pub y_bits: u32,
}

/// Goal payload of a raw play-by-play record.
#[derive(Debug, PartialEq)]
pub struct RawGoal {
    pub team: String,
    pub scorer_long: String,
    pub team_advantage: String,
    pub assist: String,
    pub home_forward: i16,
    pub home_against: i16,
    pub location: Location,
}

/// Shot payload of a raw play-by-play record.
#[derive(Debug, PartialEq)]
pub struct RawShot {
    pub team: String,
    pub location: Location,
}

/// Penalty payload of a raw play-by-play record.
#[derive(Debug, PartialEq)]
pub struct RawPenalty {
    pub team: String,
}

/// Period-marker payload of a raw play-by-play record.
#[derive(Debug, PartialEq)]
pub struct RawPeriodInfo {
    pub game_status: String,
}

/// Subtype tag and payload of a raw play-by-play record, under the
/// provider's own names (spelling included).
#[derive(Debug, PartialEq)]
pub enum PlayByPlayType {
    General,
    Livefeed,
    GoolkeeperEvent,
    Goal(RawGoal),
    Shot(RawShot),
    ShotBlocked(RawShot),
    ShotWide(RawShot),
    ShotIron(RawShot),
    PenaltyShot(RawShot),
    ShootoutPenaltyShot(RawShot),
    Penalty(RawPenalty),
    Timeout,
    Period(RawPeriodInfo),
}

/// One raw play-by-play record of the provider.  Identity is the event id;
/// the revision distinguishes edits to the same event.
#[derive(Debug, PartialEq)]
pub struct RawPlayByPlay {
    pub event_id: i32,
    pub revision: u16,
    pub period: i16,
    pub gametime: String,
    pub description: String,
    pub class: PlayByPlayType,
}

impl Clone for RawGoal {
    fn clone(&self) -> (r: Self)
        ensures
            r == *self,
    {
        RawGoal {
            team: self.team.clone(),
            scorer_long: self.scorer_long.clone(),
            team_advantage: self.team_advantage.clone(),
            assist: self.assist.clone(),
            home_forward: self.home_forward,
            home_against: self.home_against,
            location: self.location,
        }
    }
}

impl Clone for RawShot {
    fn clone(&self) -> (r: Self)
        ensures
            r == *self,
    {
        RawShot { team: self.team.clone(), location: self.location }
    }
}

impl Clone for RawPenalty {
    fn clone(&self) -> (r: Self)
        ensures
            r == *self,
    {
        RawPenalty { team: self.team.clone() }
    }
}

impl Clone for RawPeriodInfo {
    fn clone(&self) -> (r: Self)
        ensures
            r == *self,
    {
        RawPeriodInfo { game_status: self.game_status.clone() }
    }
}

impl Clone for PlayByPlayType {
    fn clone(&self) -> (r: Self)
        ensures
            r == *self,
    {
        match self {
            PlayByPlayType::General => PlayByPlayType::General,
            PlayByPlayType::Livefeed => PlayByPlayType::Livefeed,
            PlayByPlayType::GoolkeeperEvent => PlayByPlayType::GoolkeeperEvent,
            PlayByPlayType::Goal(a) => PlayByPlayType::Goal(a.clone()),
            PlayByPlayType::Shot(a) => PlayByPlayType::Shot(a.clone()),
            PlayByPlayType::ShotBlocked(a) => PlayByPlayType::ShotBlocked(a.clone()),
            PlayByPlayType::ShotWide(a) => PlayByPlayType::ShotWide(a.clone()),
            PlayByPlayType::ShotIron(a) => PlayByPlayType::ShotIron(a.clone()),
            PlayByPlayType::PenaltyShot(a) => PlayByPlayType::PenaltyShot(a.clone()),
            PlayByPlayType::ShootoutPenaltyShot(a) => PlayByPlayType::ShootoutPenaltyShot(
                a.clone(),
            ),
            PlayByPlayType::Penalty(a) => PlayByPlayType::Penalty(a.clone()),
            PlayByPlayType::Timeout => PlayByPlayType::Timeout,
            PlayByPlayType::Period(a) => PlayByPlayType::Period(a.clone()),
        }
    }
}

impl Clone for RawPlayByPlay {
    fn clone(&self) -> (r: Self)
        ensures
            r == *self,
    {
        RawPlayByPlay {
            event_id: self.event_id,
            revision: self.revision,
            period: self.period,
            gametime: self.gametime.clone(),
            description: self.description.clone(),
            class: self.class.clone(),
        }
    }
}

// ---------------------------------------------------------------------------
// Normalized domain events
// ---------------------------------------------------------------------------

/// Goal details of a domain event.
#[derive(Debug, Clone, PartialEq)]
pub struct GoalInfo {
    pub team: String,
    pub player: Option<Player>,
    pub team_advantage: String,
    pub assist: Option<String>,
    pub home_team_result: i16,
    pub away_team_result: i16,
    pub location: Location,
}

/// `r` is the normalization of the raw goal payload `a`.  The provider's
/// `home_against` column is the away side's running score.
pub open spec fn goal_info_matches(r: GoalInfo, a: RawGoal) -> bool {
    &&& r.team@ == a.team@
    &&& r.player matches Some(p) && player_matches(p, a.scorer_long@)
    &&& r.team_advantage@ == a.team_advantage@
    &&& r.assist matches Some(x) && x@ == a.assist@
    &&& r.home_team_result == a.home_forward
    &&& r.away_team_result == a.home_against
    &&& r.location == a.location
}

impl GoalInfo {
    pub fn new(a: &RawGoal) -> (r: GoalInfo)
        ensures
            goal_info_matches(r, *a),
    {
        GoalInfo {
            team: a.team.clone(),
            player: Some(Player::from_str(a.scorer_long.as_str())),
            team_advantage: a.team_advantage.clone(),
            assist: Some(a.assist.clone()),
            home_team_result: a.home_forward,
            away_team_result: a.home_against,
            location: a.location,
        }
    }
}

/// Penalty details of a domain event.
#[derive(Debug, Clone, PartialEq)]
pub struct PenaltyInfo {
    pub team: String,
    pub player: Option<Player>,
    pub reason: Option<String>,
    pub penalty: Option<String>,
}

pub open spec fn spec_has_marker(desc: Seq<char>) -> bool {
    first_match(desc, spec_penalty_marker()) is Some
}

/// Text before the marker: the player.
pub open spec fn spec_player_text(desc: Seq<char>) -> Seq<char> {
    split_before(desc, spec_penalty_marker())
}

/// Text after the marker: penalty label and reason.
pub open spec fn spec_penalty_text(desc: Seq<char>) -> Seq<char> {
    split_after(desc, spec_penalty_marker())
}

pub open spec fn spec_has_comma(t: Seq<char>) -> bool {
    first_match(t, seq![',']) is Some
}

pub open spec fn spec_penalty_label(t: Seq<char>) -> Seq<char> {
    trim_spaces(split_before(t, seq![',']))
}

pub open spec fn spec_penalty_reason(t: Seq<char>) -> Seq<char> {
    trim_spaces(split_after(t, seq![',']))
}

/// `r` is the normalization of a penalty with description `desc`: without
/// the marker every optional field is absent; with it the prefix names the
/// player, and a comma in the rest splits penalty label from reason.
pub open spec fn penalty_info_matches(r: PenaltyInfo, desc: Seq<char>, team: Seq<char>) -> bool {
    &&& r.team@ == team
    &&& if spec_has_marker(desc) {
        &&& r.player matches Some(p) && player_matches(p, spec_player_text(desc))
        &&& if spec_has_comma(spec_penalty_text(desc)) {
            &&& r.penalty matches Some(x) && x@ == spec_penalty_label(spec_penalty_text(desc))
            &&& r.reason matches Some(y) && y@ == spec_penalty_reason(spec_penalty_text(desc))
        } else {
            r.penalty is None && r.reason is None
        }
    } else {
        r.player is None && r.penalty is None && r.reason is None
    }
}

impl PenaltyInfo {
    /// Split the description on the first `"utvisas "`; absence of the marker
    /// yields no player, penalty or reason at all, never a partial record.
    pub fn new(description: &str, p: &RawPenalty) -> (r: PenaltyInfo)
        ensures
            penalty_info_matches(r, description@, p.team@),
    {
        match split_once_str(description, penalty_marker()) {
            None => PenaltyInfo { team: p.team.clone(), player: None, reason: None, penalty: None },
            Some((player_text, rest)) => {
                let player = Player::from_str(player_text);
                let penalty: Option<String>;
                let reason: Option<String>;
                match split_once_str(rest, comma_str()) {
                    None => {
                        penalty = None;
                        reason = None;
                    },
                    Some((a, b)) => {
                        penalty = Some(trim_str(a).to_owned());
                        reason = Some(trim_str(b).to_owned());
                    },
                }
                PenaltyInfo { team: p.team.clone(), player: Some(player), reason, penalty }
            },
        }
    }
}

/// Shot details of a domain event.
#[derive(Debug, Clone, PartialEq)]
pub struct ShotInfo {
    pub team: String,
    pub location: Location,
}

pub open spec fn shot_info_matches(r: ShotInfo, a: RawShot) -> bool {
    r.team@ == a.team@ && r.location == a.location
}

impl ShotInfo {
    pub fn new(info: &RawShot) -> (r: ShotInfo)
        ensures
            shot_info_matches(r, *info),
    {
        ShotInfo { team: info.team.clone(), location: info.location }
    }
}

/// Game-end details of a domain event.
#[derive(Debug, Clone, PartialEq)]
pub struct GameEndInfo {
    pub winner: Option<String>,
}

/// The closed set of domain event variants; exactly one is active per event.
#[derive(Debug, Clone, PartialEq)]
pub enum ApiEventType {
    Goal(GoalInfo),
    PeriodEnd,
    PeriodStart,
    GameEnd(GameEndInfo),
    GameStart,
    Penalty(PenaltyInfo),
    Shot(ShotInfo),
    Timeout,
    General,
}

/// Variant choice is a pure function of the raw subtype: every shot-like
/// subtype collapses to `Shot`, a period marker starts a period exactly when
/// its status string equals `"Playing"`, and informational subtypes map to
/// `General`.
pub open spec fn event_type_matches(t: ApiEventType, c: PlayByPlayType, desc: Seq<char>) -> bool {
    match c {
        PlayByPlayType::General => t == ApiEventType::General,
        PlayByPlayType::Livefeed => t == ApiEventType::General,
        PlayByPlayType::GoolkeeperEvent => t == ApiEventType::General,
        PlayByPlayType::Goal(a) => t matches ApiEventType::Goal(g) && goal_info_matches(g, a),
        PlayByPlayType::Shot(a) => t matches ApiEventType::Shot(s) && shot_info_matches(s, a),
        PlayByPlayType::ShotBlocked(a) => t matches ApiEventType::Shot(s) && shot_info_matches(
            s,
            a,
        ),
        PlayByPlayType::ShotWide(a) => t matches ApiEventType::Shot(s) && shot_info_matches(s, a),
        PlayByPlayType::ShotIron(a) => t matches ApiEventType::Shot(s) && shot_info_matches(s, a),
        PlayByPlayType::PenaltyShot(a) => t matches ApiEventType::Shot(s) && shot_info_matches(
            s,
            a,
        ),
        PlayByPlayType::ShootoutPenaltyShot(a) => t matches ApiEventType::Shot(s)
            && shot_info_matches(s, a),
        PlayByPlayType::Penalty(a) => t matches ApiEventType::Penalty(p) && penalty_info_matches(
            p,
            desc,
            a.team@,
        ),
        PlayByPlayType::Timeout => t == ApiEventType::Timeout,
        PlayByPlayType::Period(a) => t == (if a.game_status@ == spec_playing() {
            ApiEventType::PeriodStart
        } else {
            ApiEventType::PeriodEnd
        }),
    }
}

/// One normalized domain event.  Identity is the event id string.
#[derive(Debug, Clone, PartialEq)]
pub struct ApiGameEvent {
    pub game_uuid: String,
    pub event_id: String,
    pub revision: u16,
    pub status: GameStatus,
    pub gametime: String,
    pub description: String,
    pub info: ApiEventType,
}

impl ApiGameEvent {
    /// Only goals, game starts and game ends warrant external notification;
    /// a pure function of the variant tag.
    pub fn should_publish(&self) -> (r: bool)
        ensures
            r == (self.info matches ApiEventType::Goal(_) || self.info == ApiEventType::GameStart
                || self.info matches ApiEventType::GameEnd(_)),
    {
        match self.info {
            ApiEventType::Goal(_) => true,
            ApiEventType::GameStart => true,
            ApiEventType::GameEnd(_) => true,
            _ => false,
        }
    }
}

/// `r` is the full normalization of the raw record `e` for game `uuid`.
pub open spec fn mapped_event_matches(r: ApiGameEvent, e: RawPlayByPlay, uuid: Seq<char>) -> bool {
    &&& r.game_uuid@ == uuid
    &&& r.event_id@ == dec_str(e.event_id as int)
    &&& r.revision == e.revision
    &&& r.status == status_of_period(e.period as int)
    &&& r.gametime@ == e.gametime@
    &&& r.description@ == e.description@
    &&& event_type_matches(r.info, e.class, e.description@)
}

impl RawPlayByPlay {
    /// Classify this record into its domain variant; total and non-failing.
    pub fn to_type(&self) -> (r: ApiEventType)
        ensures
            event_type_matches(r, self.class, self.description@),
    {
        match &self.class {
            PlayByPlayType::General => ApiEventType::General,
            PlayByPlayType::Livefeed => ApiEventType::General,
            PlayByPlayType::GoolkeeperEvent => ApiEventType::General,
            PlayByPlayType::Goal(a) => ApiEventType::Goal(GoalInfo::new(a)),
            PlayByPlayType::Shot(a) => ApiEventType::Shot(ShotInfo::new(a)),
            PlayByPlayType::ShotBlocked(a) => ApiEventType::Shot(ShotInfo::new(a)),
            PlayByPlayType::ShotWide(a) => ApiEventType::Shot(ShotInfo::new(a)),
            PlayByPlayType::ShotIron(a) => ApiEventType::Shot(ShotInfo::new(a)),
            PlayByPlayType::PenaltyShot(a) => ApiEventType::Shot(ShotInfo::new(a)),
            PlayByPlayType::ShootoutPenaltyShot(a) => ApiEventType::Shot(ShotInfo::new(a)),
            PlayByPlayType::Penalty(a) => ApiEventType::Penalty(
                PenaltyInfo::new(self.description.as_str(), a),
            ),
            PlayByPlayType::Timeout => ApiEventType::Timeout,
            PlayByPlayType::Period(a) => {
                if str_eq(a.game_status.as_str(), playing_str()) {
                    ApiEventType::PeriodStart
                } else {
                    ApiEventType::PeriodEnd
                }
            },
        }
    }

    /// Normalize this record into the domain event for game `game_uuid`.
    pub fn into_mapped_event(&self, game_uuid: &str) -> (r: ApiGameEvent)
        ensures
            mapped_event_matches(r, *self, game_uuid@),
    {
        let info = self.to_type();
        ApiGameEvent {
            game_uuid: game_uuid.to_owned(),
            event_id: i32_dec(self.event_id),
            revision: self.revision,
            status: GameStatus::from_period(self.period),
            gametime: self.gametime.clone(),
            description: self.description.clone(),
            info,
        }
    }
}

// ---------------------------------------------------------------------------
// The raw record under the library's own names
// ---------------------------------------------------------------------------

/// A raw record tagged with its game, as served to readers of the raw cache.
#[derive(Debug, Clone, PartialEq)]
pub struct PlayByPlay {
    pub game_uuid: String,
    pub event_id: i32,
    pub revision: u16,
    pub period: i16,
    pub gametime: String,
    pub description: String,
    pub class: PlayByPlayType,
}

/// `r` carries the raw record `e` unchanged, tagged with `uuid`.
pub open spec fn mirror_matches(r: PlayByPlay, e: RawPlayByPlay, uuid: Seq<char>) -> bool {
    &&& r.game_uuid@ == uuid
    &&& r.event_id == e.event_id
    &&& r.revision == e.revision
    &&& r.period == e.period
    &&& r.gametime@ == e.gametime@
    &&& r.description@ == e.description@
    &&& r.class == e.class
}

impl RawPlayByPlay {
    /// Tag this raw record with its game, without normalizing it.
    pub fn into_mapped(&self, game_uuid: &str) -> (r: PlayByPlay)
        ensures
            mirror_matches(r, *self, game_uuid@),
    {
        PlayByPlay {
            game_uuid: game_uuid.to_owned(),
            event_id: self.event_id,
            revision: self.revision,
            period: self.period,
            gametime: self.gametime.clone(),
            description: self.description.clone(),
            class: self.class.clone(),
        }
    }
}

} // verus!
