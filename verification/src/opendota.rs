//! Turning what the OpenDota API answered about a player into a `Player`.
//!
//! The answers are JSON objects; what the logic reads of them is held here as
//! plain values. A [`Lookup`] is what reading one key of an answer gives: the
//! key is absent, or present with a value that is (or is not) of the type
//! read.
use vstd::prelude::*;
use crate::decimal::{parse_u64, parse_unsigned, push_decimal, decimal};

verus! {

/// What reading one key of a JSON object gives.
#[derive(Clone, Debug, PartialEq, Eq)]
pub enum Lookup<T> {
    /// The object has no such key.
    Missing,
    /// The key is present; `None` where its value is not of the type read.
    Found(Option<T>),
}

/// The `win` and `lose` counts of `/players/{id}/wl`.
#[derive(Clone, Debug)]
pub struct WinLoss {
    pub win: Lookup<u64>,
    pub lose: Lookup<u64>,
}

/// What `/players/{id}` gave: `profile.personaname` as a string (read
/// through the `profile` key) and `mmr_estimate.estimate` as a `u64` (read
/// through the `mmr_estimate` key).
#[derive(Clone, Debug)]
pub struct PlayerInfo {
    pub persona_name: Lookup<String>,
    pub mmr_estimate: Lookup<u64>,
}

/// One entry of `/players/{id}/heroes`: `hero_id` as a string, `games` and
/// `win` as `u64`.
#[derive(Clone, Debug)]
pub struct HeroStats {
    pub hero_id: Lookup<String>,
    pub games: Lookup<u64>,
    pub win: Lookup<u64>,
}

/// One entry of `/players/{id}/rankings`: `hero_id` as a `u64`, and
/// `percent_rank` as a float, held by its IEEE-754 bits.
#[derive(Clone, Debug)]
pub struct HeroRanking {
    pub hero_id: Lookup<u64>,
    pub percent_rank: Lookup<u64>,
}

/// A hero of a player; `percent_rank_bits` are the IEEE-754 bits of the
/// `f64` percent rank (0 stands for 0.0).
#[derive(Clone, Copy, Debug, PartialEq, Eq)]
pub struct Hero {
    pub hero_id: u64,
    pub games: u64,
    pub win: u64,
    pub percent_rank_bits: u64,
}

/// A stalked player.
#[derive(Clone, Debug)]
pub struct Player {
    pub mmr: usize,
    pub name: String,
    pub heroes: Vec<Hero>,
    pub total_games: u64,
}

/// Which answer of the OpenDota API about a player.
#[derive(Clone, Copy, Debug, PartialEq, Eq)]
pub enum Endpoint {
    Info,
    WinLoss,
    Rankings,
    Heroes,
}

/// The path after the player's id for `endpoint`.
pub open spec fn endpoint_suffix(endpoint: Endpoint) -> Seq<char> {
    match endpoint {
        Endpoint::Info => ""@,
        Endpoint::WinLoss => "/wl"@,
        Endpoint::Rankings => "/rankings"@,
        Endpoint::Heroes => "/heroes"@,
    }
}

/// The URL that asks `endpoint` about the player `steam_id`.
pub open spec fn endpoint_url(steam_id: u32, endpoint: Endpoint) -> Seq<char> {
    "https://api.opendota.com/api/players/"@ + decimal(steam_id as nat) + endpoint_suffix(endpoint)
}

/// The URL that asks `endpoint` about the player `steam_id`.
pub fn player_url(steam_id: u32, endpoint: Endpoint) -> (url: String)
    ensures
        url@ == endpoint_url(steam_id, endpoint),
{
    let mut url = String::from_str("https://api.opendota.com/api/players/");
    push_decimal(&mut url, steam_id as u64);
    let suffix: &str = match endpoint {
        Endpoint::Info => "",
        Endpoint::WinLoss => "/wl",
        Endpoint::Rankings => "/rankings",
        Endpoint::Heroes => "/heroes",
    };
    url.append(suffix);
    url
}

/// The total number of games of a win/loss answer: `win + lose`, where both
/// are present `u64` values whose sum fits.
pub open spec fn spec_total_games(wl: WinLoss) -> Option<u64> {
    match (wl.win, wl.lose) {
        (Lookup::Found(Some(w)), Lookup::Found(Some(l))) => if w + l <= u64::MAX {
            Some((w + l) as u64)
        } else {
            None
        },
        _ => None,
    }
}

/// The win/loss answer has both counts as `u64` values whose sum fits:
/// where it has not, reading it fails.
pub fn win_loss_readable(wl: &WinLoss) -> (r: bool)
    ensures
        r == spec_total_games(*wl) is Some,
{
    match (&wl.win, &wl.lose) {
        (Lookup::Found(Some(w)), Lookup::Found(Some(l))) => *w <= u64::MAX - *l,
        _ => false,
    }
}

/// The number of games of the player, `win + lose`.
pub fn total_games(wl: &WinLoss) -> (t: u64)
    requires
        spec_total_games(*wl) is Some,
    ensures
        spec_total_games(*wl) == Some(t),
{
    match (&wl.win, &wl.lose) {
        (Lookup::Found(Some(w)), Lookup::Found(Some(l))) => *w + *l,
        _ => {
            proof {
                assert(false);
            }
            0
        },
    }
}

/// The hero id of an entry: its `hero_id` string parsed as a `u64`.
pub open spec fn stats_id(h: HeroStats) -> Option<u64> {
    match h.hero_id {
        Lookup::Found(Some(s)) => match parse_unsigned(s@, u64::MAX as nat) {
            Some(v) => Some(v as u64),
            None => None,
        },
        _ => None,
    }
}

/// An entry whose id, games and wins can all be read.
pub open spec fn stats_readable(h: HeroStats) -> bool {
    &&& stats_id(h) is Some
    &&& h.games matches Lookup::Found(Some(_))
    &&& h.win matches Lookup::Found(Some(_))
}

/// The index of the first ranking for the hero `id`, or `r.len()` if none.
pub open spec fn first_ranking(r: Seq<HeroRanking>, id: u64) -> int
    decreases r.len(),
{
    if r.len() == 0 {
        0
    } else {
        let f = first_ranking(r.drop_last(), id);
        if f < r.len() - 1 {
            f
        } else if r.last().hero_id == Lookup::Found(Some(id)) {
            r.len() - 1
        } else {
            r.len() as int
        }
    }
}

/// Some entry of `heroes` has the hero id `id`.
pub open spec fn has_hero(heroes: Seq<HeroStats>, id: u64) -> bool {
    exists|k: int| 0 <= k < heroes.len() && stats_id(#[trigger] heroes[k]) == Some(id)
}

/// The ranking names by a `u64` the hero id of some entry of `heroes`.
pub open spec fn ranking_known(heroes: Seq<HeroStats>, r: HeroRanking) -> bool {
    match r.hero_id {
        Lookup::Found(Some(x)) => has_hero(heroes, x),
        _ => false,
    }
}

/// The answers about the heroes allow the loop over them to run to its end:
/// every entry can be read, every ranking names by a `u64` the id of some
/// entry, and the first ranking of each entry's hero has a `percent_rank`
/// key.
pub open spec fn heroes_readable(heroes: Seq<HeroStats>, rankings: Seq<HeroRanking>) -> bool {
    &&& forall|k: int| 0 <= k < heroes.len() ==> stats_readable(#[trigger] heroes[k])
    &&& forall|i: int| 0 <= i < rankings.len() ==> ranking_known(heroes, #[trigger] rankings[i])
    &&& forall|k: int|
        0 <= k < heroes.len() ==> {
            let f = first_ranking(rankings, stats_id(#[trigger] heroes[k])->0);
            f < rankings.len() ==> !(rankings[f].percent_rank is Missing)
        }
}

/// The index of the entry that is taken at step `j` of `n`: the loop takes
/// the first entry out with `swap_remove(0)`, which moves the last entry to
/// the front, so the entries come as `0, n-1, n-2, ..., 1`.
pub open spec fn taken_at(j: int, n: int) -> int {
    if j == 0 {
        0
    } else {
        n - j
    }
}

/// The percent rank (IEEE-754 bits) of the hero taken at step `j`: taking a
/// hero drains every ranking of its id, so only the first hero of an id gets
/// a ranking, the first one of that id; else, or where the value is not a
/// number, 0.0.
pub open spec fn percent_at(heroes: Seq<HeroStats>, rankings: Seq<HeroRanking>, j: int) -> u64 {
    let n = heroes.len() as int;
    let id = stats_id(heroes[taken_at(j, n)])->0;
    if exists|j2: int| 0 <= j2 < j && stats_id(#[trigger] heroes[taken_at(j2, n)]) == Some(id) {
        0
    } else {
        let f = first_ranking(rankings, id);
        if f < rankings.len() {
            match rankings[f].percent_rank {
                Lookup::Found(Some(b)) => b,
                _ => 0,
            }
        } else {
            0
        }
    }
}

/// The hero made at step `j`.
pub open spec fn hero_at(heroes: Seq<HeroStats>, rankings: Seq<HeroRanking>, j: int) -> Hero {
    let h = heroes[taken_at(j, heroes.len() as int)];
    Hero {
        hero_id: stats_id(h)->0,
        games: h.games->Found_0->0,
        win: h.win->Found_0->0,
        percent_rank_bits: percent_at(heroes, rankings, j),
    }
}

/// The name of the player: `profile.personaname`, or "No name" where it is
/// not a string.
pub open spec fn name_of(info: PlayerInfo) -> Seq<char> {
    match info.persona_name {
        Lookup::Found(Some(s)) => s@,
        _ => "No name"@,
    }
}

/// The MMR estimate, 0 where it is not a `u64`.
pub open spec fn mmr_of(info: PlayerInfo) -> u64 {
    match info.mmr_estimate {
        Lookup::Found(Some(e)) => e,
        _ => 0,
    }
}

/// The answer about the player has both keys that are read.
pub open spec fn info_readable(info: PlayerInfo) -> bool {
    &&& !(info.persona_name is Missing)
    &&& !(info.mmr_estimate is Missing)
}


/// The player made of the answers, where they are readable.
pub open spec fn player_matches(
    p: Player,
    info: PlayerInfo,
    total_games: u64,
    rankings: Seq<HeroRanking>,
    heroes: Seq<HeroStats>,
) -> bool {
    &&& p.name@ == name_of(info)
    &&& p.mmr == mmr_of(info) as usize
    &&& p.total_games == total_games
    &&& p.heroes@ == Seq::new(heroes.len(), |j: int| hero_at(heroes, rankings, j))
}

fn read_stats(h: &HeroStats) -> (r: Option<(u64, u64, u64)>)
    ensures
        r matches Some((i, g, w)) ==> stats_readable(*h) && stats_id(*h) == Some(i) && h.games
            == Lookup::Found(Some(g)) && h.win == Lookup::Found(Some(w)),
        r is None ==> !stats_readable(*h),
{
    let id = match &h.hero_id {
        Lookup::Found(Some(s)) => match parse_u64(s.as_str()) {
            Some(v) => v,
            None => return None,
        },
        _ => return None,
    };
    let games = match &h.games {
        Lookup::Found(Some(g)) => *g,
        _ => return None,
    };
    let win = match &h.win {
        Lookup::Found(Some(w)) => *w,
        _ => return None,
    };
    Some((id, games, win))
}

fn contains_id(v: &Vec<u64>, x: u64) -> (r: bool)
    ensures
        r == v@.contains(x),
{
    let mut i: usize = 0;
    while i < v.len()
        invariant
            i <= v.len(),
            forall|k: int| 0 <= k < i ==> v@[k] != x,
        decreases v.len() - i,
    {
        if v[i] == x {
            assert(v@[i as int] == x);
            return true;
        }
        i = i + 1;
    }
    false
}

proof fn lemma_first_ranking_bound(r: Seq<HeroRanking>, id: u64)
    ensures
        0 <= first_ranking(r, id) <= r.len(),
        first_ranking(r, id) < r.len() ==> r[first_ranking(r, id)].hero_id == Lookup::Found(
            Some(id),
        ),
    decreases r.len(),
{
    if r.len() > 0 {
        lemma_first_ranking_bound(r.drop_last(), id);
    }
}

fn find_first_ranking(r: &Vec<HeroRanking>, id: u64) -> (f: usize)
    ensures
        f == first_ranking(r@, id),
{
    let mut f: usize = 0;
    let mut i: usize = 0;
    proof {
        assert(r@.take(0) =~= Seq::<HeroRanking>::empty());
    }
    while i < r.len()
        invariant
            i <= r.len(),
            f <= i,
            f == first_ranking(r@.take(i as int), id),
        decreases r.len() - i,
    {
        proof {
            assert(r@.take(i + 1).drop_last() =~= r@.take(i as int));
            assert(r@.take(i + 1).last() == r@[i as int]);
        }
        if f == i {
            let m = match &r[i].hero_id {
                Lookup::Found(Some(x)) => *x == id,
                _ => false,
            };
            if !m {
                f = i + 1;
            }
        }
        i = i + 1;
    }
    proof {
        assert(r@.take(r.len() as int) =~= r@);
    }
    f
}

/// The answers about the heroes allow the loop over them to run to its
/// end (`heroes_readable`): where they do not, reading them fails.
pub fn heroes_answers_readable(rankings: &Vec<HeroRanking>, heroes: &Vec<HeroStats>) -> (r: bool)
    ensures
        r == heroes_readable(heroes@, rankings@),
{
    let n = heroes.len();
    // Every entry readable; its id, games and wins.
    let mut ids: Vec<u64> = Vec::new();
    let mut games: Vec<u64> = Vec::new();
    let mut wins: Vec<u64> = Vec::new();
    let mut k: usize = 0;
    while k < n
        invariant
            n == heroes@.len(),
            k <= n,
            ids@.len() == k,
            games@.len() == k,
            wins@.len() == k,
            forall|q: int|
                0 <= q < k ==> stats_readable(#[trigger] heroes@[q]) && stats_id(heroes@[q])
                    == Some(ids@[q]) && heroes@[q].games == Lookup::Found(Some(games@[q]))
                    && heroes@[q].win == Lookup::Found(Some(wins@[q])),
        decreases n - k,
    {
        match read_stats(&heroes[k]) {
            Some((i, g, w)) => {
                ids.push(i);
                games.push(g);
                wins.push(w);
            },
            None => {
                proof {
                    assert(!stats_readable(heroes@[k as int]));
                }
                return false;
            },
        }
        k = k + 1;
    }
    // Every ranking names a known hero.
    let mut i: usize = 0;
    while i < rankings.len()
        invariant
            n == heroes@.len(),
            i <= rankings.len(),
            ids@.len() == n,
            forall|q: int| 0 <= q < n ==> stats_id(#[trigger] heroes@[q]) == Some(ids@[q]),
            forall|q: int| 0 <= q < i ==> ranking_known(heroes@, #[trigger] rankings@[q]),
        decreases rankings.len() - i,
    {
        let known = match &rankings[i].hero_id {
            Lookup::Found(Some(x)) => {
                let c = contains_id(&ids, *x);
                proof {
                    if c {
                        let q = choose|q: int| 0 <= q < ids@.len() && ids@[q] == *x;
                        assert(stats_id(heroes@[q]) == Some(*x));
                    } else {
                        assert forall|q: int| 0 <= q < heroes@.len() implies stats_id(
                            #[trigger] heroes@[q],
                        ) != Some(*x) by {
                            assert(ids@[q] != *x);
                        }
                    }
                }
                c
            },
            _ => false,
        };
        if !known {
            proof {
                assert(!ranking_known(heroes@, rankings@[i as int]));
            }
            return false;
        }
        i = i + 1;
    }
    // The first ranking of each hero has a percent rank key.
    let mut k: usize = 0;
    while k < n
        invariant
            n == heroes@.len(),
            k <= n,
            ids@.len() == n,
            forall|q: int| 0 <= q < n ==> stats_id(#[trigger] heroes@[q]) == Some(ids@[q]),
            forall|q: int|
                0 <= q < k ==> {
                    let f = first_ranking(rankings@, stats_id(#[trigger] heroes@[q])->0);
                    f < rankings@.len() ==> !(rankings@[f].percent_rank is Missing)
                },
        decreases n - k,
    {
        let f = find_first_ranking(rankings, ids[k]);
        proof {
            assert(stats_id(heroes@[k as int]) == Some(ids@[k as int]));
        }
        if f < rankings.len() {
            if let Lookup::Missing = rankings[f].percent_rank {
                proof {
                    let q = k as int;
                    assert(f == first_ranking(rankings@, stats_id(heroes@[q])->0));
                }
                return false;
            }
        }
        k = k + 1;
    }
    assert(heroes_readable(heroes@, rankings@));
    true
}

/// The answer about the player has the `profile` and `mmr_estimate` keys:
/// where it has not, reading it fails.
pub fn profile_readable(info: &PlayerInfo) -> (r: bool)
    ensures
        r == info_readable(*info),
{
    !(matches!(info.persona_name, Lookup::Missing) || matches!(info.mmr_estimate, Lookup::Missing))
}

/// Makes the player of the answers about it, as the loop over its heroes does:
/// the name (or "No name"), the MMR estimate (or 0), the given total of
/// games, and one hero per entry of `heroes`, taken in `swap_remove(0)`
/// order, each with the percent rank of the first ranking of its id that no
/// earlier hero drained. The answers must be readable: the loop stops on an
/// absent key or value.
pub fn build_player(
    info: PlayerInfo,
    total_games: u64,
    rankings: &Vec<HeroRanking>,
    heroes: &Vec<HeroStats>,
) -> (p: Player)
    requires
        info_readable(info),
        heroes_readable(heroes@, rankings@),
    ensures
        player_matches(p, info, total_games, rankings@, heroes@),
{
    let n = heroes.len();
    // The id, games and wins of each entry.
    let mut ids: Vec<u64> = Vec::new();
    let mut games: Vec<u64> = Vec::new();
    let mut wins: Vec<u64> = Vec::new();
    let mut k: usize = 0;
    while k < n
        invariant
            info_readable(info),
            heroes_readable(heroes@, rankings@),
            n == heroes@.len(),
            k <= n,
            ids@.len() == k,
            games@.len() == k,
            wins@.len() == k,
            forall|q: int|
                0 <= q < k ==> stats_id(#[trigger] heroes@[q]) == Some(ids@[q])
                    && heroes@[q].games == Lookup::Found(Some(games@[q])) && heroes@[q].win
                    == Lookup::Found(Some(wins@[q])),
        decreases n - k,
    {
        proof {
            assert(stats_readable(heroes@[k as int]));
        }
        let (i, g, w) = read_stats(&heroes[k]).unwrap();
        ids.push(i);
        games.push(g);
        wins.push(w);
        k = k + 1;
    }
    let ghost hs = heroes@;
    let ghost rs = rankings@;
    assert(heroes_readable(hs, rs));
    // The heroes in the order the loop takes them.
    let mut out: Vec<Hero> = Vec::new();
    let mut seen: Vec<u64> = Vec::new();
    let mut j: usize = 0;
    while j < n
        invariant
            info_readable(info),
            n == hs.len(),
            hs == heroes@,
            rs == rankings@,
            heroes_readable(hs, rs),
            j <= n,
            ids@.len() == n,
            games@.len() == n,
            wins@.len() == n,
            forall|q: int|
                0 <= q < n ==> stats_id(#[trigger] hs[q]) == Some(ids@[q]) && hs[q].games
                    == Lookup::Found(Some(games@[q])) && hs[q].win == Lookup::Found(
                    Some(wins@[q]),
                ),
            seen@.len() == j,
            forall|q: int| 0 <= q < j ==> seen@[q] == ids@[taken_at(q, n as int)],
            out@ =~= Seq::new(j as nat, |q: int| hero_at(hs, rs, q)),
        decreases n - j,
    {
        let t: usize = if j == 0 { 0 } else { n - j };
        let id = ids[t];
        let already = contains_id(&seen, id);
        let pct: u64 = if already {
            0
        } else {
            let f = find_first_ranking(rankings, id);
            if f < rankings.len() {
                match rankings[f].percent_rank {
                    Lookup::Found(Some(b)) => b,
                    _ => 0,
                }
            } else {
                0
            }
        };
        proof {
            assert(stats_id(hs[t as int]) == Some(id));
            if already {
                let q = choose|q: int| 0 <= q < seen@.len() && seen@[q] == id;
                assert(stats_id(hs[taken_at(q, n as int)]) == Some(id));
            } else {
                assert forall|q: int| 0 <= q < j implies stats_id(
                    #[trigger] hs[taken_at(q, n as int)],
                ) != Some(id) by {
                    assert(seen@[q] != id);
                }
            }
            assert(pct == percent_at(hs, rs, j as int));
        }
        out.push(Hero { hero_id: id, games: games[t], win: wins[t], percent_rank_bits: pct });
        seen.push(id);
        j = j + 1;
    }
    let name = match info.persona_name {
        Lookup::Found(Some(s)) => s,
        _ => String::from_str("No name"),
    };
    let mmr = match info.mmr_estimate {
        Lookup::Found(Some(e)) => #[verifier::truncate] (e as usize),
        _ => 0,
    };
    Player { mmr, name, heroes: out, total_games }
}


/// The step at which the loop takes the entry `k` of `n`.
pub open spec fn step_taking(k: int, n: int) -> int {
    if k == 0 {
        0
    } else {
        n - k
    }
}

/// The loop takes every hero entry exactly once: the steps `0..n` take the
/// entries `0..n`, no two steps the same one, and the entry `k` at step
/// `step_taking(k, n)`.
pub proof fn heroes_each_taken_once(n: int)
    requires
        n >= 0,
    ensures
        forall|j: int| 0 <= j < n ==> 0 <= #[trigger] taken_at(j, n) < n,
        forall|j1: int, j2: int|
            0 <= j1 < n && 0 <= j2 < n && j1 != j2 ==> #[trigger] taken_at(j1, n)
                != #[trigger] taken_at(j2, n),
        forall|k: int|
            0 <= k < n ==> 0 <= #[trigger] step_taking(k, n) < n && taken_at(step_taking(k, n), n)
                == k,
{
}

/// Rankings are drained by hero id: of two heroes with the same id, the one
/// taken later gets no ranking (0.0).
pub proof fn later_hero_of_same_id_gets_no_rank(
    heroes: Seq<HeroStats>,
    rankings: Seq<HeroRanking>,
    j1: int,
    j2: int,
)
    requires
        heroes_readable(heroes, rankings),
        0 <= j1 < j2 < heroes.len(),
        stats_id(heroes[taken_at(j1, heroes.len() as int)]) == stats_id(
            heroes[taken_at(j2, heroes.len() as int)],
        ),
    ensures
        percent_at(heroes, rankings, j2) == 0,
{
    let n = heroes.len() as int;
    heroes_each_taken_once(n);
    let k2 = taken_at(j2, n);
    assert(stats_readable(heroes[k2]));
    let id = stats_id(heroes[k2])->0;
    assert(stats_id(heroes[taken_at(j1, n)]) == Some(id));
}

/// A hero's percent rank, where not 0.0, is the percent rank of a ranking
/// of that hero's id.
pub proof fn rank_comes_from_own_ranking(
    heroes: Seq<HeroStats>,
    rankings: Seq<HeroRanking>,
    j: int,
)
    requires
        heroes_readable(heroes, rankings),
        0 <= j < heroes.len(),
        percent_at(heroes, rankings, j) != 0,
    ensures
        exists|i: int|
            0 <= i < rankings.len() && rankings[i].hero_id == Lookup::Found(
                Some(hero_at(heroes, rankings, j).hero_id),
            ) && rankings[i].percent_rank == Lookup::Found(
                Some(hero_at(heroes, rankings, j).percent_rank_bits),
            ),
{
    let n = heroes.len() as int;
    heroes_each_taken_once(n);
    let id = stats_id(heroes[taken_at(j, n)])->0;
    lemma_first_ranking_bound(rankings, id);
    let f = first_ranking(rankings, id);
    assert(0 <= f < rankings.len());
}


/// No ranking names the hero `id`.
pub open spec fn unranked(rankings: Seq<HeroRanking>, id: u64) -> bool {
    forall|i: int| 0 <= i < rankings.len() ==> (#[trigger] rankings[i]).hero_id != Lookup::Found(Some(id))
}

/// Readable hero entries with no rankings at all are readable answers: a
/// hero without a ranking never makes the answers unreadable.
pub proof fn unranked_heroes_are_readable(heroes: Seq<HeroStats>)
    requires
        forall|k: int| 0 <= k < heroes.len() ==> stats_readable(#[trigger] heroes[k]),
    ensures
        heroes_readable(heroes, Seq::<HeroRanking>::empty()),
{
    assert forall|k: int| 0 <= k < heroes.len() implies first_ranking(
        Seq::<HeroRanking>::empty(),
        stats_id(#[trigger] heroes[k])->0,
    ) == 0 by {
        lemma_first_ranking_bound(Seq::<HeroRanking>::empty(), stats_id(heroes[k])->0);
    }
}

/// Adding a readable hero entry whose id no ranking names keeps readable
/// answers readable, and that hero gets the percent rank 0.0.
pub proof fn unranked_hero_keeps_answers_readable(
    heroes: Seq<HeroStats>,
    rankings: Seq<HeroRanking>,
    h: HeroStats,
)
    requires
        heroes_readable(heroes, rankings),
        stats_readable(h),
        unranked(rankings, stats_id(h)->0),
    ensures
        heroes_readable(heroes.push(h), rankings),
        first_ranking(rankings, stats_id(h)->0) == rankings.len(),
{
    let hs = heroes.push(h);
    let id = stats_id(h)->0;
    lemma_first_ranking_bound(rankings, id);
    if first_ranking(rankings, id) < rankings.len() {
        assert(rankings[first_ranking(rankings, id)].hero_id == Lookup::Found(Some(id)));
    }
    assert forall|k: int| 0 <= k < hs.len() implies stats_readable(#[trigger] hs[k]) by {
        if k < heroes.len() {
            assert(hs[k] == heroes[k]);
        }
    }
    assert forall|i: int| 0 <= i < rankings.len() implies ranking_known(hs, #[trigger] rankings[i]) by {
        assert(ranking_known(heroes, rankings[i]));
        if let Lookup::Found(Some(x)) = rankings[i].hero_id {
            let k = choose|k: int| 0 <= k < heroes.len() && stats_id(#[trigger] heroes[k]) == Some(x);
            assert(hs[k] == heroes[k]);
        }
    }
    assert forall|k: int| 0 <= k < hs.len() implies {
        let f = first_ranking(rankings, stats_id(#[trigger] hs[k])->0);
        f < rankings.len() ==> !(rankings[f].percent_rank is Missing)
    } by {
        if k < heroes.len() {
            assert(hs[k] == heroes[k]);
        } else {
            assert(hs[k] == h);
        }
    }
}

} // verus!
