use kaarissou::opendota::{
    build_player, heroes_answers_readable, player_url, profile_readable, total_games,
    win_loss_readable, Endpoint, Hero, HeroRanking, HeroStats, Lookup, PlayerInfo, WinLoss,
};

fn stats(id: &str, games: u64, win: u64) -> HeroStats {
    HeroStats {
        hero_id: Lookup::Found(Some(id.to_string())),
        games: Lookup::Found(Some(games)),
        win: Lookup::Found(Some(win)),
    }
}

fn rank(id: u64, pct: f64) -> HeroRanking {
    HeroRanking { hero_id: Lookup::Found(Some(id)), percent_rank: Lookup::Found(Some(pct.to_bits())) }
}

fn info(name: &str, mmr: u64) -> PlayerInfo {
    PlayerInfo {
        persona_name: Lookup::Found(Some(name.to_string())),
        mmr_estimate: Lookup::Found(Some(mmr)),
    }
}

#[test]
fn urls_of_a_player() {
    assert_eq!(player_url(1143095430, Endpoint::Info), "https://api.opendota.com/api/players/1143095430");
    assert_eq!(player_url(1143095430, Endpoint::WinLoss), "https://api.opendota.com/api/players/1143095430/wl");
    assert_eq!(player_url(7, Endpoint::Rankings), "https://api.opendota.com/api/players/7/rankings");
    assert_eq!(player_url(7, Endpoint::Heroes), "https://api.opendota.com/api/players/7/heroes");
}

#[test]
fn total_games_adds_wins_and_losses() {
    let wl = WinLoss { win: Lookup::Found(Some(30)), lose: Lookup::Found(Some(12)) };
    assert!(win_loss_readable(&wl));
    assert_eq!(total_games(&wl), 42);
}

#[test]
fn unreadable_win_loss() {
    let missing = WinLoss { win: Lookup::Missing, lose: Lookup::Found(Some(1)) };
    assert!(!win_loss_readable(&missing));
    let not_number = WinLoss { win: Lookup::Found(Some(1)), lose: Lookup::Found(None) };
    assert!(!win_loss_readable(&not_number));
    let overflow = WinLoss { win: Lookup::Found(Some(u64::MAX)), lose: Lookup::Found(Some(1)) };
    assert!(!win_loss_readable(&overflow));
}

#[test]
fn heroes_come_in_swap_remove_order() {
    let heroes = vec![stats("1", 10, 5), stats("2", 20, 6), stats("3", 30, 7), stats("4", 40, 8)];
    let rankings = vec![rank(3, 0.5), rank(1, 0.25)];
    let p = build_player(info("Alice", 4000), 100, &rankings, &heroes);
    let ids: Vec<u64> = p.heroes.iter().map(|h| h.hero_id).collect();
    assert_eq!(ids, vec![1, 4, 3, 2]);
    assert_eq!(p.name, "Alice");
    assert_eq!(p.mmr, 4000);
    assert_eq!(p.total_games, 100);
    assert_eq!(p.heroes[0], Hero { hero_id: 1, games: 10, win: 5, percent_rank_bits: 0.25f64.to_bits() });
    assert_eq!(p.heroes[1].percent_rank_bits, 0);
    assert_eq!(f64::from_bits(p.heroes[2].percent_rank_bits), 0.5);
    assert_eq!(p.heroes[3], Hero { hero_id: 2, games: 20, win: 6, percent_rank_bits: 0 });
}

#[test]
fn drained_ranking_goes_to_first_hero_of_its_id() {
    let heroes = vec![stats("9", 1, 1), stats("5", 2, 2), stats("5", 3, 3)];
    let rankings = vec![rank(5, 0.75), rank(5, 0.125), rank(9, 0.5)];
    let p = build_player(info("Bob", 1), 0, &rankings, &heroes);
    // order: entry 0, entry 2, entry 1
    assert_eq!(p.heroes[0].percent_rank_bits, 0.5f64.to_bits());
    assert_eq!(p.heroes[1].games, 3);
    assert_eq!(p.heroes[1].percent_rank_bits, 0.75f64.to_bits());
    assert_eq!(p.heroes[2].games, 2);
    assert_eq!(p.heroes[2].percent_rank_bits, 0);
}

#[test]
fn defaults_for_name_mmr_and_rank() {
    let heroes = vec![stats("+12", 1, 0)];
    let rankings = vec![HeroRanking { hero_id: Lookup::Found(Some(12)), percent_rank: Lookup::Found(None) }];
    let i = PlayerInfo { persona_name: Lookup::Found(None), mmr_estimate: Lookup::Found(None) };
    let p = build_player(i, 0, &rankings, &heroes);
    assert_eq!(p.name, "No name");
    assert_eq!(p.mmr, 0);
    assert_eq!(p.heroes, vec![Hero { hero_id: 12, games: 1, win: 0, percent_rank_bits: 0 }]);
}

#[test]
fn no_heroes_no_rankings() {
    let p = build_player(info("C", 2), 3, &vec![], &vec![]);
    assert!(p.heroes.is_empty());
}

#[test]
fn unreadable_profile() {
    let i = PlayerInfo { persona_name: Lookup::Missing, mmr_estimate: Lookup::Found(Some(1)) };
    assert!(!profile_readable(&i));
    let i = PlayerInfo { persona_name: Lookup::Found(None), mmr_estimate: Lookup::Missing };
    assert!(!profile_readable(&i));
    let i = PlayerInfo { persona_name: Lookup::Found(None), mmr_estimate: Lookup::Found(None) };
    assert!(profile_readable(&i));
}

#[test]
fn unreadable_heroes() {
    assert!(heroes_answers_readable(&vec![rank(1, 0.5)], &vec![stats("1", 1, 1)]));
    assert!(heroes_answers_readable(&vec![], &vec![]));
    assert!(!heroes_answers_readable(&vec![], &vec![stats("x", 1, 1)]));
    let no_games = vec![HeroStats { hero_id: Lookup::Found(Some("1".into())), games: Lookup::Missing, win: Lookup::Found(Some(1)) }];
    assert!(!heroes_answers_readable(&vec![], &no_games));
    // a ranking of a hero the player does not have
    assert!(!heroes_answers_readable(&vec![rank(2, 0.5)], &vec![stats("1", 1, 1)]));
    // rankings but no hero at all
    assert!(!heroes_answers_readable(&vec![rank(2, 0.5)], &vec![]));
    // a ranking whose id is not a number
    let r = vec![HeroRanking { hero_id: Lookup::Found(None), percent_rank: Lookup::Found(None) }];
    assert!(!heroes_answers_readable(&r, &vec![stats("1", 1, 1)]));
    // the first ranking of a hero has no percent rank key
    let r = vec![HeroRanking { hero_id: Lookup::Found(Some(1)), percent_rank: Lookup::Missing }];
    assert!(!heroes_answers_readable(&r, &vec![stats("1", 1, 1)]));
}

#[test]
fn later_rankings_of_an_id_need_no_percent_key() {
    let r = vec![rank(1, 0.5), HeroRanking { hero_id: Lookup::Found(Some(1)), percent_rank: Lookup::Missing }];
    assert!(heroes_answers_readable(&r, &vec![stats("1", 1, 1)]));
    let p = build_player(info("a", 1), 0, &r, &vec![stats("1", 1, 1)]);
    assert_eq!(p.heroes[0].percent_rank_bits, 0.5f64.to_bits());
}
