//! The player-stats feed: raw per-game skater and goalkeeper rows joined
//! with the provider's id-to-name tables, normalized into athlete records,
//! behind the same staleness-gated cache protocol.

use crate::status::Season;
use crate::store::{find_entry, stale_entries, val_for, write_entry, written_for, Entry};
use crate::text::{
    colon_str, first_match, parse_dec, parse_dec_str, split_after, split_before, split_once_str,
};
use vstd::prelude::*;

verus! {

// ---------------------------------------------------------------------------
// Raw provider records
// ---------------------------------------------------------------------------

/// Name of one player in the provider's per-game lookup table.
#[derive(Debug, Clone, PartialEq)]
pub struct PlayerName {
    pub first_name: String,
    pub last_name: String,
}

/// One row of the provider's id-to-name table.
#[derive(Debug, Clone, PartialEq)]
pub struct IdName {
    pub id: i32,
    pub name: PlayerName,
}

/// Raw skater statistics row.
#[derive(Debug, Clone, PartialEq)]
pub struct RawPlayerStats {
    pub player_id: i32,
    pub team_id: String,
    pub nr: i32,
    pub pos: String,
    pub plus_minus: i32,
    pub a: i32,
    pub fol: i32,
    pub fow: i32,
    pub g: i32,
    pub hits: i32,
    pub pim: i32,
    pub sog: i32,
    pub sw: i32,
    pub toi: String,
}

/// Raw goalkeeper statistics row.
#[derive(Debug, Clone, PartialEq)]
pub struct RawGoalkeeperStats {
    pub player_id: i32,
    pub team_id: String,
    pub nr: i32,
    pub ga: i32,
    pub soga: i32,
    pub spga: i32,
    pub svs: i32,
}

/// The player-stats feed response: skater and goalkeeper rows for each side,
/// with an id-to-name table for each side.
#[derive(Debug, Clone, PartialEq)]
pub struct PlayerStatsRsp {
    pub stats_home: Vec<RawPlayerStats>,
    pub stats_away: Vec<RawPlayerStats>,
    pub players_home: Vec<IdName>,
    pub players_away: Vec<IdName>,
    pub gk_stats_home: Vec<RawGoalkeeperStats>,
    pub gk_stats_away: Vec<RawGoalkeeperStats>,
    pub goalkeepers_home: Vec<IdName>,
    pub goalkeepers_away: Vec<IdName>,
}

/// Every part of the response is empty, as after a failed fetch.
pub open spec fn rsp_empty(v: PlayerStatsRsp) -> bool {
    &&& v.stats_home@.len() == 0
    &&& v.stats_away@.len() == 0
    &&& v.players_home@.len() == 0
    &&& v.players_away@.len() == 0
    &&& v.gk_stats_home@.len() == 0
    &&& v.gk_stats_away@.len() == 0
    &&& v.goalkeepers_home@.len() == 0
    &&& v.goalkeepers_away@.len() == 0
}

// ---------------------------------------------------------------------------
// Time on ice
// ---------------------------------------------------------------------------

/// Seconds a `"MM:SS"` string stands for: without a colon the value is 0;
/// each side is read as decimal digits, anything else counting as 0; the sum
/// of minutes times sixty and seconds is capped at `i32::MAX`.
pub open spec fn spec_toi_seconds(s: Seq<char>) -> int {
    if first_match(s, seq![':']) is Some {
        let v = parse_dec(split_before(s, seq![':'])) * 60 + parse_dec(split_after(s, seq![':']));
        if v > i32::MAX {
            i32::MAX as int
        } else {
            v
        }
    } else {
        0
    }
}

/// Best-effort parse of a `"MM:SS"` time-on-ice string into seconds.
pub fn parse_toi(s: &str) -> (r: i32)
    ensures
        r as int == spec_toi_seconds(s@),
        r >= 0,
{
    match split_once_str(s, colon_str()) {
        None => 0,
        Some((m, sec)) => {
            let mins = parse_dec_str(m);
            let secs = parse_dec_str(sec);
            let total: i64 = (mins as i64) * 60 + (secs as i64);
            if total > (i32::MAX as i64) {
                i32::MAX
            } else {
                total as i32
            }
        },
    }
}

// ---------------------------------------------------------------------------
// Name lookup
// ---------------------------------------------------------------------------

/// The last matching row of an id-to-name table, as a later insertion into
/// the provider's keyed table overrides an earlier one.
pub open spec fn name_last(rows: Seq<IdName>, id: int) -> Option<IdName>
    decreases rows.len(),
{
    if rows.len() == 0 {
        None
    } else if rows[rows.len() - 1].id == id {
        Some(rows[rows.len() - 1])
    } else {
        name_last(rows.take(rows.len() - 1), id)
    }
}

/// Name for `id` with the away table extending (and overriding) the home
/// table.
pub open spec fn spec_name_for(home: Seq<IdName>, away: Seq<IdName>, id: int) -> Option<IdName> {
    match name_last(away, id) {
        Some(n) => Some(n),
        None => name_last(home, id),
    }
}

fn lookup_one(rows: &Vec<IdName>, id: i32) -> (r: Option<(String, String)>)
    ensures
        match name_last(rows@, id as int) {
            Some(n) => r matches Some(p) && p.0@ == n.name.first_name@ && p.1@
                == n.name.last_name@,
            None => r is None,
        },
{
    let mut j: usize = rows.len();
    proof {
        assert(rows@.take(rows@.len() as int) =~= rows@);
    }
    while j > 0
        invariant
            j <= rows@.len(),
            name_last(rows@, id as int) == name_last(rows@.take(j as int), id as int),
        decreases j,
    {
        let row = &rows[j - 1];
        proof {
            assert(rows@.take(j as int)[j - 1] == rows@[j - 1]);
        }
        if row.id == id {
            return Some((row.name.first_name.clone(), row.name.last_name.clone()));
        }
        proof {
            assert(rows@.take(j as int).take(j - 1) =~= rows@.take(j - 1));
        }
        j = j - 1;
    }
    proof {
        assert(rows@.take(0) =~= Seq::<IdName>::empty());
    }
    None
}

fn lookup_name(home: &Vec<IdName>, away: &Vec<IdName>, id: i32) -> (r: Option<(String, String)>)
    ensures
        match spec_name_for(home@, away@, id as int) {
            Some(n) => r matches Some(p) && p.0@ == n.name.first_name@ && p.1@
                == n.name.last_name@,
            None => r is None,
        },
{
    match lookup_one(away, id) {
        Some(p) => Some(p),
        None => lookup_one(home, id),
    }
}

// ---------------------------------------------------------------------------
// Normalized athlete records
// ---------------------------------------------------------------------------

/// Normalized skater statistics.
#[derive(Debug, Clone, PartialEq)]
pub struct ApiPlayerStats {
    pub plus_minus: i32,
    pub a: i32,
    pub fol: i32,
    pub fow: i32,
    pub g: i32,
    pub hits: i32,
    pub pim: i32,
    pub sog: i32,
    pub sw: i32,
    pub toi_s: i32,
    pub gp: i32,
}

/// Normalized goalkeeper statistics.
#[derive(Debug, Clone, PartialEq)]
pub struct ApiGoalkeeperStats {
    pub ga: i32,
    pub soga: i32,
    pub spga: i32,
    pub svs: i32,
    pub gp: i32,
}

/// Either kind of statistics, tagged.
#[derive(Debug, Clone, PartialEq)]
pub enum ApiAthleteStats {
    Player(ApiPlayerStats),
    Goalkeeper(ApiGoalkeeperStats),
}

/// One athlete with identity, name, team and statistics.  Identity is the
/// numeric player id; the season is a fixed tag per deployment.
#[derive(Debug, Clone, PartialEq)]
pub struct ApiAthlete {
    pub id: i32,
    pub first_name: String,
    pub family_name: String,
    pub jersey: i32,
    pub team_code: String,
    pub position: String,
    pub season: Season,
    pub stats: ApiAthleteStats,
}

/// The goalkeeper position label.
pub open spec fn spec_gk() -> Seq<char> {
    seq!['G', 'K']
}

fn gk_str() -> (r: &'static str)
    ensures
        r@ == spec_gk(),
{
    let r = "GK";
    proof {
        reveal_strlit("GK");
        assert(r@ =~= spec_gk());
    }
    r
}

/// `a` is the normalization of the skater row `p` joined with the name
/// tables; a missing name degrades to empty name fields, and a skater row
/// always counts one game played.
pub open spec fn athlete_from_player(
    a: ApiAthlete,
    p: RawPlayerStats,
    home: Seq<IdName>,
    away: Seq<IdName>,
) -> bool {
    &&& a.id == p.player_id
    &&& match spec_name_for(home, away, p.player_id as int) {
        Some(n) => a.first_name@ == n.name.first_name@ && a.family_name@ == n.name.last_name@,
        None => a.first_name@ == Seq::<char>::empty() && a.family_name@ == Seq::<char>::empty(),
    }
    &&& a.jersey == p.nr
    &&& a.team_code@ == p.team_id@
    &&& a.position@ == p.pos@
    &&& a.season == Season::Season2022
    &&& a.stats matches ApiAthleteStats::Player(st) && st == (ApiPlayerStats {
        plus_minus: p.plus_minus,
        a: p.a,
        fol: p.fol,
        fow: p.fow,
        g: p.g,
        hits: p.hits,
        pim: p.pim,
        sog: p.sog,
        sw: p.sw,
        toi_s: (spec_toi_seconds(p.toi@) as i32),
        gp: 1,
    })
}

/// `a` is the normalization of the goalkeeper row `g` joined with the name
/// tables; games played is inferred as 1 exactly when any save was made.
pub open spec fn athlete_from_gk(
    a: ApiAthlete,
    g: RawGoalkeeperStats,
    home: Seq<IdName>,
    away: Seq<IdName>,
) -> bool {
    &&& a.id == g.player_id
    &&& match spec_name_for(home, away, g.player_id as int) {
        Some(n) => a.first_name@ == n.name.first_name@ && a.family_name@ == n.name.last_name@,
        None => a.first_name@ == Seq::<char>::empty() && a.family_name@ == Seq::<char>::empty(),
    }
    &&& a.jersey == g.nr
    &&& a.team_code@ == g.team_id@
    &&& a.position@ == spec_gk()
    &&& a.season == Season::Season2022
    &&& a.stats matches ApiAthleteStats::Goalkeeper(st) && st == (ApiGoalkeeperStats {
        ga: g.ga,
        soga: g.soga,
        spga: g.spga,
        svs: g.svs,
        gp: if g.svs > 0 {
            1
        } else {
            0
        },
    })
}

/// `r` is the normalization of the whole response: skater rows first (home
/// side then away side), then goalkeeper rows (home then away), each joined
/// with its feed's name tables.
pub open spec fn rsp_athletes_match(r: Seq<ApiAthlete>, v: PlayerStatsRsp) -> bool {
    let ps = v.stats_home@ + v.stats_away@;
    let gs = v.gk_stats_home@ + v.gk_stats_away@;
    &&& r.len() == ps.len() + gs.len()
    &&& forall|j: int|
        0 <= j < ps.len() ==> athlete_from_player(
            #[trigger] r[j],
            ps[j],
            v.players_home@,
            v.players_away@,
        )
    &&& forall|j: int|
        ps.len() <= j < r.len() ==> athlete_from_gk(
            #[trigger] r[j],
            gs[j - ps.len()],
            v.goalkeepers_home@,
            v.goalkeepers_away@,
        )
}

fn push_players(
    out: &mut Vec<ApiAthlete>,
    rows: &Vec<RawPlayerStats>,
    home: &Vec<IdName>,
    away: &Vec<IdName>,
)
    ensures
        final(out)@.len() == old(out)@.len() + rows@.len(),
        forall|j: int| 0 <= j < old(out)@.len() ==> final(out)@[j] == old(out)@[j],
        forall|j: int|
            0 <= j < rows@.len() ==> athlete_from_player(
                #[trigger] final(out)@[old(out)@.len() + j],
                rows@[j],
                home@,
                away@,
            ),
{
    let n: usize = rows.len();
    let mut i: usize = 0;
    while i < n
        invariant
            n == rows@.len(),
            i <= n,
            out@.len() == old(out)@.len() + i,
            forall|j: int| 0 <= j < old(out)@.len() ==> out@[j] == old(out)@[j],
            forall|j: int|
                0 <= j < i ==> athlete_from_player(
                    #[trigger] out@[old(out)@.len() + j],
                    rows@[j],
                    home@,
                    away@,
                ),
        decreases n - i,
    {
        let p = &rows[i];
        let first_name: String;
        let family_name: String;
        match lookup_name(home, away, p.player_id) {
            Some(pair) => {
                first_name = pair.0;
                family_name = pair.1;
            },
            None => {
                first_name = String::new();
                family_name = String::new();
            },
        }
        let st = ApiPlayerStats {
            plus_minus: p.plus_minus,
            a: p.a,
            fol: p.fol,
            fow: p.fow,
            g: p.g,
            hits: p.hits,
            pim: p.pim,
            sog: p.sog,
            sw: p.sw,
            toi_s: parse_toi(p.toi.as_str()),
            gp: 1,
        };
        out.push(
            ApiAthlete {
                id: p.player_id,
                first_name,
                family_name,
                jersey: p.nr,
                team_code: p.team_id.clone(),
                position: p.pos.clone(),
                season: Season::Season2022,
                stats: ApiAthleteStats::Player(st),
            },
        );
        i = i + 1;
    }
}

fn push_goalkeepers(
    out: &mut Vec<ApiAthlete>,
    rows: &Vec<RawGoalkeeperStats>,
    home: &Vec<IdName>,
    away: &Vec<IdName>,
)
    ensures
        final(out)@.len() == old(out)@.len() + rows@.len(),
        forall|j: int| 0 <= j < old(out)@.len() ==> final(out)@[j] == old(out)@[j],
        forall|j: int|
            0 <= j < rows@.len() ==> athlete_from_gk(
                #[trigger] final(out)@[old(out)@.len() + j],
                rows@[j],
                home@,
                away@,
            ),
{
    let n: usize = rows.len();
    let mut i: usize = 0;
    while i < n
        invariant
            n == rows@.len(),
            i <= n,
            out@.len() == old(out)@.len() + i,
            forall|j: int| 0 <= j < old(out)@.len() ==> out@[j] == old(out)@[j],
            forall|j: int|
                0 <= j < i ==> athlete_from_gk(
                    #[trigger] out@[old(out)@.len() + j],
                    rows@[j],
                    home@,
                    away@,
                ),
        decreases n - i,
    {
        let g = &rows[i];
        let first_name: String;
        let family_name: String;
        match lookup_name(home, away, g.player_id) {
            Some(pair) => {
                first_name = pair.0;
                family_name = pair.1;
            },
            None => {
                first_name = String::new();
                family_name = String::new();
            },
        }
        let gp: i32 = if g.svs > 0 {
            1
        } else {
            0
        };
        let st = ApiGoalkeeperStats { ga: g.ga, soga: g.soga, spga: g.spga, svs: g.svs, gp };
        out.push(
            ApiAthlete {
                id: g.player_id,
                first_name,
                family_name,
                jersey: g.nr,
                team_code: g.team_id.clone(),
                position: gk_str().to_owned(),
                season: Season::Season2022,
                stats: ApiAthleteStats::Goalkeeper(st),
            },
        );
        i = i + 1;
    }
}

/// Normalize a whole response: skaters first (home then away), then
/// goalkeepers (home then away).
pub fn athletes_from_rsp(v: &PlayerStatsRsp) -> (r: Vec<ApiAthlete>)
    ensures
        rsp_athletes_match(r@, *v),
{
    let mut out: Vec<ApiAthlete> = Vec::new();
    push_players(&mut out, &v.stats_home, &v.players_home, &v.players_away);
    let ghost o1 = out@;
    push_players(&mut out, &v.stats_away, &v.players_home, &v.players_away);
    let ghost o2 = out@;
    push_goalkeepers(&mut out, &v.gk_stats_home, &v.goalkeepers_home, &v.goalkeepers_away);
    let ghost o3 = out@;
    push_goalkeepers(&mut out, &v.gk_stats_away, &v.goalkeepers_home, &v.goalkeepers_away);
    proof {
        let ps = v.stats_home@ + v.stats_away@;
        let gs = v.gk_stats_home@ + v.gk_stats_away@;
        let h = v.stats_home@.len() as int;
        let gh = v.gk_stats_home@.len() as int;
        assert(o1.len() == h);
        assert(o2.len() == ps.len());
        assert(o3.len() == ps.len() + gh);
        assert(out@.len() == ps.len() + gs.len());
        assert forall|j: int| 0 <= j < ps.len() implies athlete_from_player(
            #[trigger] out@[j],
            ps[j],
            v.players_home@,
            v.players_away@,
        ) by {
            assert(out@[j] == o3[j]);
            assert(o3[j] == o2[j]);
            if j < h {
                assert(o2[j] == o1[j]);
                assert(athlete_from_player(o1[0 + j], v.stats_home@[j], v.players_home@,
                    v.players_away@));
                assert(ps[j] == v.stats_home@[j]);
            } else {
                assert(athlete_from_player(o2[o1.len() + (j - h)], v.stats_away@[j - h],
                    v.players_home@, v.players_away@));
                assert(ps[j] == v.stats_away@[j - h]);
            }
        }
        assert forall|j: int| ps.len() <= j < out@.len() implies athlete_from_gk(
            #[trigger] out@[j],
            gs[j - ps.len()],
            v.goalkeepers_home@,
            v.goalkeepers_away@,
        ) by {
            let jj = j - ps.len();
            if jj < gh {
                assert(out@[j] == o3[j]);
                assert(athlete_from_gk(o3[o2.len() + jj], v.gk_stats_home@[jj],
                    v.goalkeepers_home@, v.goalkeepers_away@));
                assert(gs[jj] == v.gk_stats_home@[jj]);
            } else {
                assert(athlete_from_gk(out@[o3.len() + (jj - gh)], v.gk_stats_away@[jj - gh],
                    v.goalkeepers_home@, v.goalkeepers_away@));
                assert(gs[jj] == v.gk_stats_away@[jj - gh]);
            }
        }
    }
    out
}

// ---------------------------------------------------------------------------
// The service
// ---------------------------------------------------------------------------

/// Player-stats feed service: one cached response per key.
pub struct PlayerService {
    entries: Vec<Entry<PlayerStatsRsp>>,
}

impl PlayerService {
    /// The cached response under `k`, if any.
    pub closed spec fn cached(self, k: Seq<char>) -> Option<PlayerStatsRsp> {
        val_for(self.entries@, k)
    }

    /// When the cache under `k` was last written, if ever.
    pub closed spec fn written(self, k: Seq<char>) -> Option<u64> {
        written_for(self.entries@, k)
    }

    /// The staleness rule, as for every feed.
    pub open spec fn stale(self, k: Seq<char>, ttl: Option<u64>, now: u64) -> bool {
        match self.written(k) {
            None => true,
            Some(w) => match ttl {
                None => true,
                Some(t) => now > w + t,
            },
        }
    }

    pub fn new() -> (r: PlayerService)
        ensures
            forall|k: Seq<char>| #[trigger] r.cached(k) is None,
            forall|k: Seq<char>| #[trigger] r.written(k) is None,
    {
        PlayerService { entries: Vec::new() }
    }

    /// Whether the cache under `key` must be refreshed at `now`.
    pub fn is_stale(&self, key: &str, ttl: Option<u64>, now: u64) -> (r: bool)
        ensures
            r == self.stale(key@, ttl, now),
    {
        stale_entries(&self.entries, key, ttl, now)
    }

    /// The staleness-gated fetch-or-serve protocol for this feed: serve the
    /// cached response while fresh; otherwise persist the fetched response —
    /// or an empty one when the fetch failed — and return its athletes.
    pub fn update(
        &mut self,
        key: &str,
        ttl: Option<u64>,
        now: u64,
        fetched: Option<PlayerStatsRsp>,
    ) -> (r: Vec<ApiAthlete>)
        ensures
            ({
                if old(self).stale(key@, ttl, now) {
                    &&& final(self).written(key@) == Some(now)
                    &&& match fetched {
                        Some(f) => final(self).cached(key@) == Some(f) && rsp_athletes_match(
                            r@,
                            f,
                        ),
                        None => (final(self).cached(key@) matches Some(v) && rsp_empty(v))
                            && r@.len() == 0,
                    }
                } else {
                    &&& *final(self) == *old(self)
                    &&& old(self).cached(key@) matches Some(v) && rsp_athletes_match(r@, v)
                }
            }),
            forall|k2: Seq<char>|
                k2 != key@ ==> #[trigger] final(self).cached(k2) == old(self).cached(k2),
            forall|k2: Seq<char>|
                k2 != key@ ==> #[trigger] final(self).written(k2) == old(self).written(k2),
    {
        let stale = stale_entries(&self.entries, key, ttl, now);
        if stale {
            match fetched {
                Some(f) => {
                    let r = athletes_from_rsp(&f);
                    write_entry(&mut self.entries, key, f, now);
                    r
                },
                None => {
                    let empty_rsp = PlayerStatsRsp {
                        stats_home: Vec::new(),
                        stats_away: Vec::new(),
                        players_home: Vec::new(),
                        players_away: Vec::new(),
                        gk_stats_home: Vec::new(),
                        gk_stats_away: Vec::new(),
                        goalkeepers_home: Vec::new(),
                        goalkeepers_away: Vec::new(),
                    };
                    write_entry(&mut self.entries, key, empty_rsp, now);
                    Vec::new()
                },
            }
        } else {
            let idx = find_entry(&self.entries, key).unwrap();
            athletes_from_rsp(&self.entries[idx].val)
        }
    }

    /// Cache-only read: the normalized athletes of the stored response, if
    /// one was ever written; reads never trigger a fetch.
    pub fn read(&self, key: &str) -> (r: Option<Vec<ApiAthlete>>)
        ensures
            match self.cached(key@) {
                Some(v) => r matches Some(a) && rsp_athletes_match(a@, v),
                None => r is None,
            },
    {
        match find_entry(&self.entries, key) {
            None => None,
            Some(i) => Some(athletes_from_rsp(&self.entries[i].val)),
        }
    }
}

} // verus!
