use woop::config::Config;
use woop::game::board::Board;
use woop::game::clock::{read_clock, timestamp_of, unix_timestamp};
use woop::game::entity::Entity;
use woop::game::error::WoopError;
use woop::game::game::{Game, Phase};
use woop::game::geometry::{distance, in_bounds};
use woop::game::log::{Logger, PlayerEvent};
use woop::game::player::Player;
use woop::game::text::{decimal_text, digits_text};
use woop::game::token::{generate_token, token_from_seed, truncate};
use woop::game::totem::Totem;
use woop::game::zord::Zord;

fn game_of(names: &[&str]) -> Game {
    let config = Config {
        players: names.iter().map(|s| String::from(*s)).collect(),
        start_of_game: 0,
    };
    Game::new(&config)
}

#[test]
fn distance_is_the_larger_gap() {
    assert_eq!(distance(0, 0, 0, 0), 0);
    assert_eq!(distance(0, 0, 3, 3), 3);
    assert_eq!(distance(2, 9, 7, 8), 5);
    assert_eq!(distance(7, 8, 2, 9), 5);
    assert_eq!(distance(-3, 4, 3, 5), 6);
    assert_eq!(distance(1, -10, 2, 10), 20);
    assert_eq!(distance(-32768, 0, 32767, 0), 65535);
    assert_eq!(distance(32767, 32767, -32768, -32768), 65535);
}

#[test]
fn board_runs_from_0_to_139() {
    assert!(in_bounds(0, 0));
    assert!(in_bounds(139, 139));
    assert!(in_bounds(0, 139));
    assert!(!in_bounds(140, 0));
    assert!(!in_bounds(0, 140));
    assert!(!in_bounds(-1, 5));
    assert!(!in_bounds(5, -1));
}

#[test]
fn player_starts_with_twenty_actions() {
    let mut p = Player::new("ciao");
    assert_eq!(p.name, "ciao");
    assert_eq!((p.actions, p.points), (20, 0));
    p.spend_action(4);
    assert_eq!(p.actions, 16);
    p.spend_action(16);
    assert_eq!(p.actions, 0);
    let q = p.clone();
    assert_eq!(q, p);
}

#[test]
fn totem_sits_where_it_is_put() {
    let t = Totem::new(-4, 9);
    assert_eq!((t.x, t.y), (-4, 9));
}

#[test]
fn entity_of_a_zord() {
    let mut e = Entity::Zord(Zord::new("ciao", 2, 3));
    assert!(e.is_zord());
    assert!(e.is_coord(2, 3));
    assert!(!e.is_coord(3, 2));
    assert_eq!(e.distance(7, 4), 5);
    assert!(e.get_totem().is_none());
    assert_eq!(e.get_zord().unwrap().owner, "ciao");
    e.zord_generate_shield();
    assert_eq!(e.get_zord().unwrap().shields, 1);
    assert!(!e.zord_hit());
    assert!(!e.zord_hit());
    assert!(e.zord_hit());
    assert_eq!(e.get_zord().unwrap().hp, 0);
    e.move_zord(-1, 8);
    assert!(e.is_coord(-1, 8));
}

#[test]
fn entity_of_a_totem() {
    let mut e = Entity::Totem(Totem::new(2, 3));
    assert!(!e.is_zord());
    assert!(e.is_coord(2, 3));
    assert_eq!(e.distance(2, -3), 6);
    assert!(e.get_zord().is_none());
    assert_eq!(e.get_totem().unwrap().x, 2);
    assert!(!e.zord_hit());
    e.zord_generate_shield();
    e.move_zord(9, 9);
    assert!(e.is_coord(2, 3));
}

#[test]
fn board_starts_empty() {
    let b = Board::new(140);
    assert_eq!(b.size, 140);
    assert!(b.board.is_empty());
}

#[test]
fn numerals() {
    assert_eq!(digits_text(0), "0");
    assert_eq!(digits_text(7), "7");
    assert_eq!(digits_text(10), "10");
    assert_eq!(digits_text(4294967295), "4294967295");
    assert_eq!(decimal_text(0), "0");
    assert_eq!(decimal_text(-1), "-1");
    assert_eq!(decimal_text(65535), "65535");
    assert_eq!(decimal_text(-32768), "-32768");
    assert_eq!(decimal_text(i32::MIN), "-2147483648");
    assert_eq!(decimal_text(i32::MAX), "2147483647");
    assert_eq!(decimal_text(1234567890), "1234567890");
}

#[test]
fn messages() {
    assert_eq!(WoopError::OutOfActions.message(), "Not enough actions");
    assert_eq!(WoopError::ZordNotFound(1, -2).message(), "Couldn't find zord at (1, -2)");
    assert_eq!(WoopError::NotEnoughPoints(9, 10).message(), "You have 9 points but need 10");
    assert_eq!(WoopError::CellOccupied(139, 0).message(), "The cell (139, 0) is occupied");
    assert_eq!(WoopError::OutOfBounds(-1, 140).message(), "(-1, 140) is out of bounds");
    assert_eq!(
        WoopError::NotInRange(1, 2, 30, 40).message(),
        "(30, 40) is not in range of (1, 2)"
    );
    assert_eq!(
        WoopError::PlayerNotFound(String::from("fin")).message(),
        "Couldn't find player named fin"
    );
    assert_eq!(
        WoopError::WithinGracePeriod.message(),
        "You tried shooting within the grace period"
    );
    assert_eq!(WoopError::NoZordNearby(3, 3).message(), "There's no zord nearby (3, 3)");
    assert_eq!(WoopError::NotOwned(0, 0).message(), "You don't own the zord in (0, 0)");
    assert_eq!(WoopError::AuthError.message(), "Couldn't authenticate");
    assert_eq!(
        WoopError::DonationLimit.message(),
        "You can donate at most 10 points with each action"
    );
    assert_eq!(WoopError::DonationRange.message(), "Out of range for a donation");
    assert_eq!(WoopError::OwnZord.message(), "You can't shoot your own zord");
}

#[test]
fn error_builders() {
    assert!(matches!(WoopError::out_of_actions(), Err(WoopError::OutOfActions)));
    assert!(matches!(WoopError::zord_not_found(1, 2), Err(WoopError::ZordNotFound(1, 2))));
    assert!(matches!(
        WoopError::player_not_found("fin"),
        Err(WoopError::PlayerNotFound(name)) if name == "fin"
    ));
    assert!(matches!(WoopError::not_enough_points(1, 2), Err(WoopError::NotEnoughPoints(1, 2))));
    assert!(matches!(WoopError::cell_occupied(1, 2), Err(WoopError::CellOccupied(1, 2))));
    assert!(matches!(WoopError::not_in_range(1, 2, 3, 4), Err(WoopError::NotInRange(1, 2, 3, 4))));
    assert!(matches!(WoopError::out_of_bounds(1, 2), Err(WoopError::OutOfBounds(1, 2))));
    assert!(matches!(WoopError::within_grace_period(), Err(WoopError::WithinGracePeriod)));
    assert!(matches!(WoopError::no_zord_nearby(1, 2), Err(WoopError::NoZordNearby(1, 2))));
    assert!(matches!(WoopError::not_owned(1, 2), Err(WoopError::NotOwned(1, 2))));
    assert!(matches!(WoopError::donation_limit(), Err(WoopError::DonationLimit)));
    assert!(matches!(WoopError::donation_out_of_range(), Err(WoopError::DonationRange)));
    assert!(matches!(WoopError::own_zord(), Err(WoopError::OwnZord)));
}

#[test]
fn log_pages_run_backwards() {
    let mut log = Logger::new();
    assert!(log.get_chunk(0).is_empty());
    for i in 0..250u64 {
        log.totem_spawned((1, 2), i);
    }
    assert_eq!(log.len(), 250);
    let stamps = |page: Vec<PlayerEvent>| -> Vec<u64> {
        page.iter()
            .map(|e| match e {
                PlayerEvent::TotemSpawned { timestamp, .. } => *timestamp,
                _ => panic!("another event"),
            })
            .collect()
    };
    assert_eq!(stamps(log.get_chunk(0)), (150..250).rev().collect::<Vec<u64>>());
    assert_eq!(stamps(log.get_chunk(1)), (50..150).rev().collect::<Vec<u64>>());
    assert_eq!(stamps(log.get_chunk(2)), (0..50).rev().collect::<Vec<u64>>());
    assert!(log.get_chunk(3).is_empty());
    assert!(log.get_chunk(usize::MAX).is_empty());
    assert!(log.get_chunk(usize::MAX / 100 + 1).is_empty());
}

#[test]
fn log_holds_what_is_recorded() {
    let mut log = Logger::new();
    log.shoot("a", (1, 2), (3, 4), "b", 10);
    log.move_zord("a", (1, 2), (3, 4), 11);
    log.generate_shield("a", (1, 2), 12);
    log.increase_range("a", (1, 2), 13);
    log.donate_points("a", "b", 14);
    log.build_zord("a", (1, 2), 15);
    log.totem_points("a", (1, 2), 33, 16);
    log.respawn("a", (1, 2), 17);
    log.totem_spawned((1, 2), 18);
    log.record(PlayerEvent::TotemSpawned { coord: (5, 6), timestamp: 19 });
    let mut page = log.get_chunk(0);
    page.reverse();
    assert_eq!(page.len(), 10);
    assert!(matches!(&page[0], PlayerEvent::Shoot { shooter, from: (1, 2), to: (3, 4), target, timestamp: 10 } if shooter == "a" && target == "b"));
    assert!(matches!(&page[1], PlayerEvent::Move { player, from: (1, 2), to: (3, 4), timestamp: 11 } if player == "a"));
    assert!(matches!(&page[2], PlayerEvent::GenerateShield { player, zord_coord: (1, 2), timestamp: 12 } if player == "a"));
    assert!(matches!(&page[3], PlayerEvent::IncreaseRange { player, zord_coord: (1, 2), timestamp: 13 } if player == "a"));
    assert!(matches!(&page[4], PlayerEvent::DonatePoints { from, to, timestamp: 14 } if from == "a" && to == "b"));
    assert!(matches!(&page[5], PlayerEvent::BuildZord { player, zord_coord: (1, 2), timestamp: 15 } if player == "a"));
    assert!(matches!(&page[6], PlayerEvent::TotemPoints { player, coord: (1, 2), points: 33, timestamp: 16 } if player == "a"));
    assert!(matches!(&page[7], PlayerEvent::Respawn { player, coord: (1, 2), timestamp: 17 } if player == "a"));
    assert!(matches!(&page[8], PlayerEvent::TotemSpawned { coord: (1, 2), timestamp: 18 }));
    assert!(matches!(&page[9], PlayerEvent::TotemSpawned { coord: (5, 6), timestamp: 19 }));
}

#[test]
fn token_is_the_base64_of_the_digest() {
    assert_eq!(token_from_seed(&[0u8; 32]), "Zmh6rfhivXdsj8GLjp-OIAiXFIVu4jOzkCpZHQ1fKSU=");
    let seed: Vec<u8> = (0u8..32).collect();
    assert_eq!(token_from_seed(&seed), "Yw3NKWbEM2aRElRIu7JbT_QSpJxzLbLIq8G4WBvXEN0=");
    assert_eq!(token_from_seed(&[]), "47DEQpj8HBSa-_TImW-5JCeuQeRkm5NMpJWZG3hSuFU=");
}

#[test]
fn tokens_are_cut_by_characters() {
    assert_eq!(truncate(String::from("abcdef"), 3), "abc");
    assert_eq!(truncate(String::from("abc"), 3), "abc");
    assert_eq!(truncate(String::from("ab"), 3), "ab");
    assert_eq!(truncate(String::from("äöüß"), 2), "äö");
    assert_eq!(truncate(String::from("abc"), 0), "");
}

#[test]
fn tokens_differ() {
    let a = generate_token();
    let b = generate_token();
    assert_eq!(a.chars().count(), 44);
    assert_eq!(b.chars().count(), 44);
    assert!(a != b);
}

#[test]
fn clock_is_past_2020() {
    assert!(unix_timestamp() > 1_600_000_000);
}

#[test]
fn reading_of_the_clock_stands_for_its_seconds() {
    assert_eq!(timestamp_of(Some(0)), 0);
    assert_eq!(timestamp_of(Some(1_700_000_000)), 1_700_000_000);
    assert_eq!(timestamp_of(Some(u64::MAX)), u64::MAX);
    assert_eq!(timestamp_of(None), 0);
    assert!(matches!(read_clock(), Some(seconds) if seconds > 1_600_000_000));
}

#[test]
fn configuration_parts_names_at_the_bar() {
    let names = |text: &str| Config::from_raw(text, 5).players;
    assert_eq!(names("mroik|fin|warden"), vec!["mroik", "fin", "warden"]);
    assert_eq!(names("solo"), vec!["solo"]);
    assert_eq!(names(""), vec![""]);
    assert_eq!(names("a|b||c|"), vec!["a", "b", "", "c", ""]);
    assert_eq!(names("|"), vec!["", ""]);
    assert_eq!(names("zoë|müller"), vec!["zoë", "müller"]);
    assert_eq!(Config::from_raw("a", 1700000000).start_of_game, 1700000000);
}

#[test]
fn game_starts_with_each_name_once() {
    let game = game_of(&["a", "b", "a", "c", "b"]);
    let names: Vec<&str> = game.players.iter().map(|p| p.name.as_str()).collect();
    assert_eq!(names, vec!["a", "b", "c"]);
    assert!(game.players.iter().all(|p| p.actions == 20 && p.points == 0));
    assert!(game.zords.is_empty());
    assert_eq!((game.totems.0.x, game.totems.0.y, game.totems.1.x, game.totems.1.y), (0, 0, 0, 0));
    assert_eq!(game.day, 0);
    assert_eq!(game.logged_actions.len(), 0);
    assert!(game.start_of_day > 1_600_000_000);
    let logins: Vec<&str> = game.auth.iter().map(|a| a.0.as_str()).collect();
    assert_eq!(logins, vec!["a", "b", "c"]);
    assert!(game.auth.iter().all(|a| a.1.chars().count() == 44));
    assert!(game.auth[0].1 != game.auth[1].1);
    assert!(game.is_valid());
}

#[test]
fn token_opens_only_its_own_account() {
    let game = game_of(&["a", "b"]);
    let token_a = game.auth[0].1.clone();
    let token_b = game.auth[1].1.clone();
    assert!(game.authenticate("a", &token_a).is_ok());
    assert!(game.authenticate("b", &token_b).is_ok());
    assert!(matches!(game.authenticate("a", &token_b), Err(WoopError::AuthError)));
    assert!(matches!(game.authenticate("a", ""), Err(WoopError::AuthError)));
    assert!(matches!(game.authenticate("c", &token_a), Err(WoopError::AuthError)));
    assert!(matches!(game.authenticate("", ""), Err(WoopError::AuthError)));
}

#[test]
fn lookups_find_the_first() {
    let mut game = game_of(&["a", "b"]);
    game.create_zord("a", 1, 1);
    game.create_zord("b", 2, 2);
    game.create_zord("b", 1, 1);
    assert_eq!(game.find_zord(1, 1), Some(0));
    assert_eq!(game.find_zord(2, 2), Some(1));
    assert_eq!(game.find_zord(2, 1), None);
    assert_eq!(game.find_player("b"), Some(1));
    assert_eq!(game.find_player("c"), None);
    assert!(game.is_occupied(1, 1) && game.is_occupied(0, 0) && !game.is_occupied(3, 3));
    assert_eq!(game.find_nearby("b", 0, 0), Some(2));
    assert_eq!(game.find_nearby("a", 3, 3), None);
    assert_eq!(game.find_nearby("b", 3, 3), Some(1));
    assert!(game.owns_zord("a") && !game.owns_zord("c"));
    assert!(game.donation_reaches("a", "b") && game.donation_reaches("b", "a"));
    assert!(!game.donation_reaches("a", "c"));
    assert_eq!(game.zordless_players(), Vec::<usize>::new());
    assert_eq!(game.count_in_aura(0, 0), 3);
    assert_eq!(game.count_in_aura_of(0, 0, "b"), 2);
    assert_eq!(game.count_in_aura(8, 8), 0);
    assert_eq!(game.share_of(0, 0, 3, "b"), 33);
    assert_eq!(game.share_of(0, 0, 3, "c"), 0);
}

#[test]
fn leaderboard_falls() {
    let mut game = game_of(&["a", "b", "c", "d"]);
    game.players[0].points = 5;
    game.players[1].points = 50;
    game.players[2].points = 5;
    game.players[3].points = 7;
    let board = game.leaderboard();
    let rows: Vec<(&str, u16)> = board.iter().map(|p| (p.name.as_str(), p.points)).collect();
    assert_eq!(rows, vec![("b", 50), ("d", 7), ("a", 5), ("c", 5)]);
    assert_eq!(game_of(&[]).leaderboard().len(), 0);
}

#[test]
fn game_runs_from_the_first_day_to_the_twenty_eighth() {
    let mut game = game_of(&["a"]);
    game.start_of_day = 1000;
    assert_eq!(game.day_info(), (0, 1000));
    assert_eq!(game.phase(), Phase::NotStarted);
    assert!(!game.day_is_due(999));
    assert!(game.day_is_due(1000));
    game.day = 1;
    assert_eq!(game.phase(), Phase::Running);
    assert!(game.day_is_due(0));
    game.day = 28;
    assert_eq!(game.phase(), Phase::Running);
    assert!(game.day_is_due(0));
    game.day = 29;
    assert_eq!(game.phase(), Phase::Ended);
    assert!(!game.day_is_due(5000));
    game.day = 30;
    assert_eq!(game.phase(), Phase::Running);
    assert!(!game.day_is_due(5000));
}
