//! The game-stats feed: per-team totals extracted from the provider's
//! period breakdown, behind the same staleness-gated cache protocol.  Only
//! the breakdown entry labeled "Total" is read; each of the four captioned
//! statistics is looked up independently and degrades to zero when missing.

use crate::search::{
    find_first_where, lemma_find_first_where_at, lemma_find_first_where_props,
};
use crate::store::{find_entry, stale_entries, val_for, write_entry, written_for, Entry};
use crate::text::str_eq;
use vstd::prelude::*;

verus! {

// ---------------------------------------------------------------------------
// Raw provider records
// ---------------------------------------------------------------------------

/// One captioned statistic line, with a value for each side.
#[derive(Debug, Clone, PartialEq)]
pub struct RawStatistic {
    pub caption: String,
    pub home_team_value: i32,
    pub away_team_value: i32,
}

/// The statistics of one period, labeled by period name.
#[derive(Debug, Clone, PartialEq)]
pub struct RawPeriodStats {
    pub period: String,
    pub statistics: Vec<RawStatistic>,
}

/// The game-stats feed response: statistics broken down by period label.
#[derive(Debug, Clone, PartialEq)]
pub struct GameStatsV2 {
    pub period_stats_breakdown: Vec<RawPeriodStats>,
}

// ---------------------------------------------------------------------------
// Captions and labels
// ---------------------------------------------------------------------------

/// The breakdown label whose entry holds the whole-game totals.
pub open spec fn spec_total() -> Seq<char> {
    seq!['T', 'o', 't', 'a', 'l']
}

fn total_str() -> (r: &'static str)
    ensures
        r@ == spec_total(),
{
    let r = "Total";
    proof {
        reveal_strlit("Total");
        assert(r@ =~= spec_total());
    }
    r
}

/// Caption of the goals statistic.
pub open spec fn spec_cap_g() -> Seq<char> {
    seq!['G']
}

fn cap_g_str() -> (r: &'static str)
    ensures
        r@ == spec_cap_g(),
{
    let r = "G";
    proof {
        reveal_strlit("G");
        assert(r@ =~= spec_cap_g());
    }
    r
}

/// Caption of the shots-on-goal statistic.
pub open spec fn spec_cap_sog() -> Seq<char> {
    seq!['S', 'O', 'G']
}

fn cap_sog_str() -> (r: &'static str)
    ensures
        r@ == spec_cap_sog(),
{
    let r = "SOG";
    proof {
        reveal_strlit("SOG");
        assert(r@ =~= spec_cap_sog());
    }
    r
}

/// Caption of the faceoffs-won statistic.
pub open spec fn spec_cap_fowon() -> Seq<char> {
    seq!['F', 'O', 'W', 'o', 'n']
}

fn cap_fowon_str() -> (r: &'static str)
    ensures
        r@ == spec_cap_fowon(),
{
    let r = "FOWon";
    proof {
        reveal_strlit("FOWon");
        assert(r@ =~= spec_cap_fowon());
    }
    r
}

/// Caption of the penalty-minutes statistic.
pub open spec fn spec_cap_pim() -> Seq<char> {
    seq!['P', 'I', 'M']
}

fn cap_pim_str() -> (r: &'static str)
    ensures
        r@ == spec_cap_pim(),
{
    let r = "PIM";
    proof {
        reveal_strlit("PIM");
        assert(r@ =~= spec_cap_pim());
    }
    r
}

// ---------------------------------------------------------------------------
// Extraction
// ---------------------------------------------------------------------------

pub open spec fn period_is(label: Seq<char>) -> spec_fn(RawPeriodStats) -> bool {
    |p: RawPeriodStats| p.period@ == label
}

/// Index of the first breakdown entry with the given label, if any.
pub open spec fn find_period(ps: Seq<RawPeriodStats>, label: Seq<char>) -> Option<int> {
    find_first_where(ps, period_is(label))
}

pub open spec fn caption_is(c: Seq<char>) -> spec_fn(RawStatistic) -> bool {
    |s: RawStatistic| s.caption@ == c
}

/// The home-side value of the first statistic captioned `c`; 0 when absent.
pub open spec fn stat_home(stats: Seq<RawStatistic>, c: Seq<char>) -> int {
    match find_first_where(stats, caption_is(c)) {
        Some(i) => stats[i].home_team_value as int,
        None => 0,
    }
}

/// The away-side value of the first statistic captioned `c`; 0 when absent.
pub open spec fn stat_away(stats: Seq<RawStatistic>, c: Seq<char>) -> int {
    match find_first_where(stats, caption_is(c)) {
        Some(i) => stats[i].away_team_value as int,
        None => 0,
    }
}

/// Totals of one team: goals, shots on goal, penalty minutes, faceoffs won.
#[derive(Debug, Clone, Copy, PartialEq, Eq, Structural)]
pub struct GTeamStats {
    pub g: i32,
    pub sog: i32,
    pub pim: i32,
    pub fow: i32,
}

/// Totals for both sides of one game.
#[derive(Debug, Clone, Copy, PartialEq, Eq, Structural)]
pub struct GHomeAwayStats {
    pub home: GTeamStats,
    pub away: GTeamStats,
}

/// `r` holds the four "Total" statistics for each side; without a "Total"
/// entry every statistic of both teams is zero, and each caption missing
/// from the entry yields zero independently of the others.
pub open spec fn stats_match(r: GHomeAwayStats, v: GameStatsV2) -> bool {
    match find_period(v.period_stats_breakdown@, spec_total()) {
        Some(i) => {
            let st = v.period_stats_breakdown@[i].statistics@;
            &&& r.home.g == stat_home(st, spec_cap_g())
            &&& r.home.sog == stat_home(st, spec_cap_sog())
            &&& r.home.pim == stat_home(st, spec_cap_pim())
            &&& r.home.fow == stat_home(st, spec_cap_fowon())
            &&& r.away.g == stat_away(st, spec_cap_g())
            &&& r.away.sog == stat_away(st, spec_cap_sog())
            &&& r.away.pim == stat_away(st, spec_cap_pim())
            &&& r.away.fow == stat_away(st, spec_cap_fowon())
        },
        None => r == (GHomeAwayStats {
            home: GTeamStats { g: 0, sog: 0, pim: 0, fow: 0 },
            away: GTeamStats { g: 0, sog: 0, pim: 0, fow: 0 },
        }),
    }
}

fn find_period_exec(ps: &Vec<RawPeriodStats>, label: &str) -> (r: Option<usize>)
    ensures
        match r {
            Some(i) => i < ps@.len() && find_period(ps@, label@) == Some(i as int),
            None => find_period(ps@, label@) is None,
        },
{
    let n: usize = ps.len();
    let mut i: usize = 0;
    while i < n
        invariant
            n == ps@.len(),
            i <= n,
            forall|j: int| 0 <= j < i ==> ps@[j].period@ != label@,
        decreases n - i,
    {
        let p = &ps[i];
        if str_eq(p.period.as_str(), label) {
            proof {
                lemma_find_first_where_at(ps@, period_is(label@), i as int);
            }
            return Some(i);
        }
        i = i + 1;
    }
    proof {
        lemma_find_first_where_props(ps@, period_is(label@));
    }
    None
}

fn find_stat(stats: &Vec<RawStatistic>, cap: &str) -> (r: Option<usize>)
    ensures
        match r {
            Some(i) => i < stats@.len() && find_first_where(stats@, caption_is(cap@)) == Some(
                i as int,
            ),
            None => find_first_where(stats@, caption_is(cap@)) is None,
        },
{
    let n: usize = stats.len();
    let mut i: usize = 0;
    while i < n
        invariant
            n == stats@.len(),
            i <= n,
            forall|j: int| 0 <= j < i ==> stats@[j].caption@ != cap@,
        decreases n - i,
    {
        let s = &stats[i];
        if str_eq(s.caption.as_str(), cap) {
            proof {
                lemma_find_first_where_at(stats@, caption_is(cap@), i as int);
            }
            return Some(i);
        }
        i = i + 1;
    }
    proof {
        lemma_find_first_where_props(stats@, caption_is(cap@));
    }
    None
}

/// Both sides' values of the first statistic captioned `cap`; zero each when
/// the caption is absent.
fn stat_pair(stats: &Vec<RawStatistic>, cap: &str) -> (r: (i32, i32))
    ensures
        r.0 as int == stat_home(stats@, cap@),
        r.1 as int == stat_away(stats@, cap@),
{
    match find_stat(stats, cap) {
        Some(i) => {
            let s = &stats[i];
            (s.home_team_value, s.away_team_value)
        },
        None => (0, 0),
    }
}

impl GHomeAwayStats {
    /// Extract both teams' totals from a raw response.
    pub fn from_game_stats(v: &GameStatsV2) -> (r: GHomeAwayStats)
        ensures
            stats_match(r, *v),
    {
        match find_period_exec(&v.period_stats_breakdown, total_str()) {
            None => GHomeAwayStats {
                home: GTeamStats { g: 0, sog: 0, pim: 0, fow: 0 },
                away: GTeamStats { g: 0, sog: 0, pim: 0, fow: 0 },
            },
            Some(i) => {
                let st = &v.period_stats_breakdown[i].statistics;
                let g = stat_pair(st, cap_g_str());
                let sog = stat_pair(st, cap_sog_str());
                let pim = stat_pair(st, cap_pim_str());
                let fow = stat_pair(st, cap_fowon_str());
                GHomeAwayStats {
                    home: GTeamStats { g: g.0, sog: sog.0, pim: pim.0, fow: fow.0 },
                    away: GTeamStats { g: g.1, sog: sog.1, pim: pim.1, fow: fow.1 },
                }
            },
        }
    }
}

// ---------------------------------------------------------------------------
// The service
// ---------------------------------------------------------------------------

/// Game-stats feed service: one cached response per key.
pub struct StatsService {
    entries: Vec<Entry<GameStatsV2>>,
}

impl StatsService {
    /// The cached response under `k`, if any.
    pub closed spec fn cached(self, k: Seq<char>) -> Option<GameStatsV2> {
        val_for(self.entries@, k)
    }

    /// When the cache under `k` was last written, if ever.
    pub closed spec fn written(self, k: Seq<char>) -> Option<u64> {
        written_for(self.entries@, k)
    }

    /// The staleness rule, as for every feed.
    pub open spec fn stale(self, k: Seq<char>, ttl: Option<u64>, now: u64) -> bool {
        match self.written(k) {
            None => true,
            Some(w) => match ttl {
                None => true,
                Some(t) => now > w + t,
            },
        }
    }

    pub fn new() -> (r: StatsService)
        ensures
            forall|k: Seq<char>| #[trigger] r.cached(k) is None,
            forall|k: Seq<char>| #[trigger] r.written(k) is None,
    {
        StatsService { entries: Vec::new() }
    }

    /// Whether the cache under `key` must be refreshed at `now`.
    pub fn is_stale(&self, key: &str, ttl: Option<u64>, now: u64) -> (r: bool)
        ensures
            r == self.stale(key@, ttl, now),
    {
        stale_entries(&self.entries, key, ttl, now)
    }

    /// The staleness-gated fetch-or-serve protocol for this feed: serve the
    /// cached response while fresh; otherwise persist the fetched response —
    /// or an empty one when the fetch failed, in which case no totals are
    /// returned — and return its extracted totals.
    pub fn update(
        &mut self,
        key: &str,
        ttl: Option<u64>,
        now: u64,
        fetched: Option<GameStatsV2>,
    ) -> (r: Option<GHomeAwayStats>)
        ensures
            ({
                if old(self).stale(key@, ttl, now) {
                    &&& final(self).written(key@) == Some(now)
                    &&& match fetched {
                        Some(f) => final(self).cached(key@) == Some(f) && (r matches Some(s)
                            && stats_match(s, f)),
                        None => (final(self).cached(key@) matches Some(v)
                            && v.period_stats_breakdown@.len() == 0) && r is None,
                    }
                } else {
                    &&& *final(self) == *old(self)
                    &&& old(self).cached(key@) matches Some(v) && (r matches Some(s)
                        && stats_match(s, v))
                }
            }),
            forall|k2: Seq<char>|
                k2 != key@ ==> #[trigger] final(self).cached(k2) == old(self).cached(k2),
            forall|k2: Seq<char>|
                k2 != key@ ==> #[trigger] final(self).written(k2) == old(self).written(k2),
    {
        let stale = stale_entries(&self.entries, key, ttl, now);
        if stale {
            match fetched {
                Some(f) => {
                    let r = GHomeAwayStats::from_game_stats(&f);
                    write_entry(&mut self.entries, key, f, now);
                    Some(r)
                },
                None => {
                    let empty_rsp = GameStatsV2 { period_stats_breakdown: Vec::new() };
                    write_entry(&mut self.entries, key, empty_rsp, now);
                    None
                },
            }
        } else {
            let idx = find_entry(&self.entries, key).unwrap();
            Some(GHomeAwayStats::from_game_stats(&self.entries[idx].val))
        }
    }
}

} // verus!
