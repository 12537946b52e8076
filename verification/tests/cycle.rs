use woop::config::Config;
use woop::game::day::reward_for;
use woop::game::game::Game;
use woop::game::geometry::distance;
use woop::game::log::PlayerEvent;
use woop::game::player::Player;
use woop::game::totem::Totem;

fn game_of(names: &[&str]) -> Game {
    let config = Config {
        players: names.iter().map(|s| String::from(*s)).collect(),
        start_of_game: 0,
    };
    Game::new(&config)
}

fn player<'a>(game: &'a Game, name: &str) -> &'a Player {
    game.players.iter().find(|p| p.name == name).unwrap()
}

fn owned(game: &Game, name: &str) -> usize {
    game.zords.iter().filter(|z| z.owner == name).count()
}

fn events(game: &Game) -> Vec<PlayerEvent> {
    let mut all = Vec::new();
    let mut chunk = 0;
    loop {
        let page = game.logged_actions.get_chunk(chunk);
        if page.is_empty() {
            break;
        }
        all.extend(page);
        chunk += 1;
    }
    all.reverse();
    all
}

#[test]
fn reward_is_the_share_of_fifty_rounded_down() {
    assert_eq!(reward_for(0, 0), 0);
    assert_eq!(reward_for(0, 7), 0);
    assert_eq!(reward_for(1, 1), 50);
    assert_eq!(reward_for(5, 5), 50);
    assert_eq!(reward_for(1, 2), 25);
    assert_eq!(reward_for(1, 3), 16);
    assert_eq!(reward_for(2, 3), 33);
    assert_eq!(reward_for(1, 51), 0);
    assert_eq!(reward_for(50, 51), 49);
    assert_eq!(reward_for(usize::MAX, usize::MAX), 50);
    assert_eq!(reward_for(usize::MAX - 1, usize::MAX), 49);
}

#[test]
fn totem_pays_each_owner_their_share_rounded_down() {
    let mut game = game_of(&["a", "b", "c"]);
    game.totems = (Totem::new(10, 10), Totem::new(100, 100));
    game.create_zord("a", 10, 15);
    game.create_zord("b", 5, 10);
    game.create_zord("a", 12, 12);
    game.create_zord("c", 10, 16);
    game.give_out_totem_points_at(42);
    assert_eq!(player(&game, "a").points, 33);
    assert_eq!(player(&game, "b").points, 16);
    assert_eq!(player(&game, "c").points, 0);
    let log = events(&game);
    assert_eq!(log.len(), 2);
    assert!(matches!(
        &log[0],
        PlayerEvent::TotemPoints { player, coord: (10, 10), points: 33, timestamp: 42 }
            if player == "a"
    ));
    assert!(matches!(
        &log[1],
        PlayerEvent::TotemPoints { player, coord: (10, 10), points: 16, timestamp: 42 }
            if player == "b"
    ));
}

#[test]
fn totem_never_pays_more_than_its_reward() {
    let mut game = game_of(&["a", "b", "c"]);
    game.totems = (Totem::new(10, 10), Totem::new(100, 100));
    game.create_zord("a", 10, 11);
    game.create_zord("b", 11, 10);
    game.create_zord("c", 9, 9);
    game.give_out_totem_points_at(1);
    let paid: u16 = game.players.iter().map(|p| p.points).sum();
    assert_eq!(paid, 48);
    assert!(game.players.iter().all(|p| p.points == 16));
}

#[test]
fn totem_with_an_empty_aura_pays_nobody() {
    let mut game = game_of(&["a", "b"]);
    game.totems = (Totem::new(10, 10), Totem::new(100, 100));
    game.create_zord("a", 16, 10);
    game.create_zord("b", 50, 50);
    game.give_out_totem_points_at(1);
    assert!(game.players.iter().all(|p| p.points == 0));
    assert_eq!(game.logged_actions.len(), 0);
}

#[test]
fn zord_in_both_auras_is_paid_by_both_totems() {
    let mut game = game_of(&["a", "b"]);
    game.totems = (Totem::new(10, 10), Totem::new(14, 10));
    game.create_zord("a", 12, 10);
    game.create_zord("b", 19, 10);
    game.give_out_totem_points_at(3);
    assert_eq!(player(&game, "a").points, 75);
    assert_eq!(player(&game, "b").points, 25);
    let log = events(&game);
    assert_eq!(log.len(), 3);
    assert!(matches!(&log[0], PlayerEvent::TotemPoints { coord: (10, 10), points: 50, .. }));
    assert!(matches!(&log[1], PlayerEvent::TotemPoints { coord: (14, 10), points: 25, .. }));
    assert!(matches!(&log[2], PlayerEvent::TotemPoints { coord: (14, 10), points: 25, .. }));
}

#[test]
fn owner_of_one_zord_among_many_is_logged_with_nothing() {
    let mut game = game_of(&["a", "b"]);
    game.totems = (Totem::new(10, 10), Totem::new(100, 100));
    for i in 0..51 {
        game.create_zord("a", 10, 10 - (i % 5) as i16);
    }
    game.create_zord("b", 11, 11);
    game.give_out_totem_points_at(3);
    assert_eq!(player(&game, "a").points, 49);
    assert_eq!(player(&game, "b").points, 0);
    let log = events(&game);
    assert_eq!(log.len(), 2);
    assert!(matches!(&log[1], PlayerEvent::TotemPoints { player, points: 0, .. } if player == "b"));
}

#[test]
fn day_fits_until_the_points_or_the_days_run_out() {
    let mut game = game_of(&["a"]);
    game.totems = (Totem::new(10, 10), Totem::new(12, 10));
    game.create_zord("a", 11, 10);
    game.players[0].points = 65435;
    assert!(game.day_fits());
    game.players[0].points = 65436;
    assert!(!game.day_fits());
    game.players[0].points = 0;
    game.day = 254;
    assert!(game.day_fits());
    game.day = 255;
    assert!(!game.day_fits());
}

#[test]
fn respawn_cell_is_the_first_of_the_farthest() {
    let mut game = game_of(&["a", "b"]);
    assert_eq!(game.clearance_of(139, 0), 139);
    assert_eq!(game.clearance_of(0, 0), 0);
    assert_eq!(game.calculate_respawn_coordinates(), (139, 0));
    game.create_zord("a", 139, 0);
    assert_eq!(game.clearance_of(139, 0), 0);
    assert_eq!(game.clearance_of(70, 138), 138);
    assert_eq!(game.calculate_respawn_coordinates(), (0, 139));
    game.create_zord("b", 0, 139);
    assert_eq!(game.calculate_respawn_coordinates(), (139, 139));
    game.create_zord("b", 139, 139);
    assert_eq!(game.clearance_of(69, 69), 69);
    assert_eq!(game.clearance_of(70, 69), 69);
    assert_eq!(game.clearance_of(70, 70), 69);
    assert_eq!(game.calculate_respawn_coordinates(), (69, 0));
}

#[test]
fn respawn_counts_the_totems_in() {
    let mut game = game_of(&["a"]);
    game.totems = (Totem::new(0, 0), Totem::new(139, 0));
    assert_eq!(game.calculate_respawn_coordinates(), (0, 139));
    game.totems = (Totem::new(139, 139), Totem::new(139, 139));
    assert_eq!(game.calculate_respawn_coordinates(), (0, 0));
}

#[test]
fn respawn_gives_each_player_without_a_zord_exactly_one() {
    let mut game = game_of(&["a", "b", "c", "d"]);
    game.create_zord("b", 30, 30);
    game.create_zord("b", 31, 30);
    game.respawn_players_at(7);
    assert_eq!(game.zords.len(), 5);
    assert_eq!(owned(&game, "a"), 1);
    assert_eq!(owned(&game, "b"), 2);
    assert_eq!(owned(&game, "c"), 1);
    assert_eq!(owned(&game, "d"), 1);
    assert!(game.zords.iter().all(|z| z.hp == 2 && z.shields == 0 && z.range == 5));
    let log = events(&game);
    assert_eq!(log.len(), 3);
    for (k, event) in log.iter().enumerate() {
        let zord = &game.zords[2 + k];
        assert!(matches!(
            event,
            PlayerEvent::Respawn { player, coord, timestamp: 7 }
                if *player == zord.owner && *coord == (zord.x, zord.y)
        ));
    }
    assert_eq!((game.zords[2].x, game.zords[2].y), (0, 139));
    let mut cells: Vec<(i16, i16)> = game.zords.iter().map(|z| (z.x, z.y)).collect();
    cells.sort();
    cells.dedup();
    assert_eq!(cells.len(), 5);
    assert!(game.is_valid());
    game.respawn_players_at(8);
    assert_eq!(game.zords.len(), 5);
}

#[test]
fn respawn_player_uses_the_respawn_cell() {
    let mut game = game_of(&["a", "b"]);
    game.respawn_player(1, 3);
    assert_eq!(game.zords.len(), 1);
    let z = &game.zords[0];
    assert_eq!((z.x, z.y, z.hp, z.shields, z.range), (139, 0, 2, 0, 5));
    assert_eq!(z.owner, "b");
    assert!(matches!(
        &events(&game)[0],
        PlayerEvent::Respawn { player, coord: (139, 0), timestamp: 3 } if player == "b"
    ));
}

#[test]
fn totems_move_only_to_admissible_cells() {
    let mut game = game_of(&["a"]);
    assert!(!game.is_admissible(0, 0));
    assert!(!game.is_admissible(139, 139));
    assert!(game.is_admissible(1, 0));
    assert!(!game.is_admissible(-1, 0));
    assert!(!game.is_admissible(0, 140));
    assert!(!game.is_admissible(69, 69));
    assert!(!game.is_admissible(65, 74));
    assert!(!game.is_admissible(74, 65));
    assert!(game.is_admissible(64, 69));
    assert!(game.is_admissible(69, 75));
    game.create_zord("a", 20, 30);
    assert!(!game.is_admissible(20, 30));
    assert!(!game.is_admissible(119, 109));
    assert!(game.is_admissible(20, 31));
    assert!(!game.relocate_totems(20, 30, 5));
    assert_eq!((game.totems.0.x, game.totems.0.y), (0, 0));
    assert_eq!(game.logged_actions.len(), 0);
    assert!(game.relocate_totems(20, 31, 5));
    assert_eq!((game.totems.0.x, game.totems.0.y), (20, 31));
    assert_eq!((game.totems.1.x, game.totems.1.y), (119, 108));
    let log = events(&game);
    assert_eq!(log.len(), 2);
    assert!(matches!(&log[0], PlayerEvent::TotemSpawned { coord: (20, 31), timestamp: 5 }));
    assert!(matches!(&log[1], PlayerEvent::TotemSpawned { coord: (119, 108), timestamp: 5 }));
    assert!(game.is_admissible(0, 0));
    assert!(!game.is_admissible(20, 31));
    assert!(!game.is_admissible(119, 108));
}

#[test]
fn totem_sites_are_counted_in_the_order_of_the_scan() {
    let mut game = game_of(&["a"]);
    assert_eq!(game.count_totem_sites(), 19498);
    assert_eq!(game.totem_site(0), Some((1, 0)));
    assert_eq!(game.totem_site(138), Some((139, 0)));
    assert_eq!(game.totem_site(139), Some((0, 1)));
    assert_eq!(game.totem_site(19497), Some((138, 139)));
    assert_eq!(game.totem_site(19498), None);
    game.create_zord("a", 1, 0);
    assert_eq!(game.count_totem_sites(), 19496);
    assert_eq!(game.totem_site(0), Some((2, 0)));
}

#[test]
fn totems_spawn_far_apart_and_opposite() {
    for _ in 0..20 {
        let mut game = game_of(&["a"]);
        game.create_zord("a", 5, 5);
        game.spawn_totems();
        let (first, second) = (&game.totems.0, &game.totems.1);
        assert!(0 <= first.x && first.x < 140 && 0 <= first.y && first.y < 140);
        assert_eq!((second.x, second.y), (139 - first.x, 139 - first.y));
        assert!(distance(first.x, first.y, second.x, second.y) > 10);
        assert!((first.x, first.y) != (5, 5) && (second.x, second.y) != (5, 5));
        assert!((first.x, first.y) != (0, 0) && (second.x, second.y) != (0, 0));
        let log = events(&game);
        assert_eq!(log.len(), 2);
        assert!(matches!(
            &log[0],
            PlayerEvent::TotemSpawned { coord, timestamp } if *coord == (first.x, first.y) && *timestamp > 1_600_000_000
        ));
        assert!(matches!(
            &log[1],
            PlayerEvent::TotemSpawned { coord, .. } if *coord == (second.x, second.y)
        ));
    }
}

#[test]
fn rest_resets_actions_ranges_and_shields_and_nothing_else() {
    let mut game = game_of(&["a", "b"]);
    game.create_zord("a", 3, 4);
    game.create_zord("b", 8, 9);
    game.zords[0].shields = 3;
    game.zords[0].range = 9;
    game.zords[0].hp = 1;
    game.players[0].actions = 2;
    game.players[0].points = 17;
    game.players[1].actions = 0;
    game.rest();
    assert!(game.players.iter().all(|p| p.actions == 20));
    assert_eq!(game.players[0].points, 17);
    assert!(game.zords.iter().all(|z| z.range == 5 && z.shields == 0));
    assert_eq!((game.zords[0].x, game.zords[0].y, game.zords[0].hp), (3, 4, 1));
    assert_eq!((game.zords[1].x, game.zords[1].y, game.zords[1].hp), (8, 9, 2));
    game.rest();
    assert!(game.players.iter().all(|p| p.actions == 20));
    assert!(game.zords.iter().all(|z| z.range == 5 && z.shields == 0));
    assert_eq!(game.logged_actions.len(), 0);
}

#[test]
fn new_day_adds_one_day_and_resets() {
    let mut game = game_of(&["a", "b"]);
    game.create_zord("a", 3, 4);
    game.zords[0].shields = 2;
    game.zords[0].range = 7;
    game.players[0].actions = 1;
    game.new_day_at(1000);
    assert_eq!(game.day, 1);
    assert_eq!(game.start_of_day, 1000);
    assert!(game.players.iter().all(|p| p.actions == 20));
    assert!(game.zords.iter().all(|z| z.range == 5 && z.shields == 0));
    assert_eq!((game.zords[0].x, game.zords[0].y, game.zords[0].hp), (3, 4, 2));
    game.new_day_at(2000);
    assert_eq!(game.day, 2);
    assert_eq!(game.start_of_day, 2000);
    assert!(game.players.iter().all(|p| p.actions == 20));
    assert!(game.zords.iter().all(|z| z.range == 5 && z.shields == 0));
}

#[test]
fn new_day_gives_a_player_without_zords_exactly_one() {
    let mut game = game_of(&["a", "b"]);
    game.create_zord("a", 3, 4);
    game.new_day_at(1000);
    assert_eq!(owned(&game, "a"), 1);
    assert_eq!(owned(&game, "b"), 1);
    assert_eq!(game.zords.len(), 2);
    game.new_day_at(2000);
    assert_eq!(game.zords.len(), 2);
}

#[test]
fn new_day_moves_the_totems_on_the_first_day_of_a_week() {
    let mut game = game_of(&["a"]);
    game.create_zord("a", 3, 4);
    for day in 1..=15u8 {
        let before = (game.totems.0.x, game.totems.0.y, game.totems.1.x, game.totems.1.y);
        let logged = game.logged_actions.len();
        game.new_day_at(1000 * day as u64);
        assert_eq!(game.day, day);
        let after = (game.totems.0.x, game.totems.0.y, game.totems.1.x, game.totems.1.y);
        let spawned = events(&game)[logged..]
            .iter()
            .filter(|e| matches!(e, PlayerEvent::TotemSpawned { .. }))
            .count();
        if day % 7 == 1 {
            assert_eq!(spawned, 2);
            assert!(after != before);
            assert_eq!((after.2, after.3), (139 - after.0, 139 - after.1));
        } else {
            assert_eq!(spawned, 0);
            assert_eq!(after, before);
        }
    }
}

#[test]
fn new_day_pays_before_the_totems_move() {
    let mut game = game_of(&["a", "b"]);
    game.totems = (Totem::new(10, 10), Totem::new(100, 100));
    game.create_zord("a", 10, 11);
    game.create_zord("b", 100, 101);
    game.create_zord("b", 100, 102);
    game.new_day_at(500);
    assert_eq!(player(&game, "a").points, 50);
    assert_eq!(player(&game, "b").points, 50);
    let log = events(&game);
    assert!(matches!(&log[0], PlayerEvent::TotemPoints { player, coord: (10, 10), points: 50, timestamp: 500 } if player == "a"));
    assert!(matches!(&log[1], PlayerEvent::TotemPoints { player, coord: (100, 100), points: 50, timestamp: 500 } if player == "b"));
    assert!(matches!(&log[2], PlayerEvent::TotemSpawned { timestamp: 500, .. }));
    assert!(matches!(&log[3], PlayerEvent::TotemSpawned { timestamp: 500, .. }));
    assert_eq!(log.len(), 4);
}
