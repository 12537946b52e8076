use std::time::{SystemTime, UNIX_EPOCH};
use woop::config::Config;
use woop::game::game::Game;
use woop::game::geometry::BASE_BOARD_SIZE;
use woop::game::player::{Player, BASE_ACTIONS};
use woop::game::state::GRACE_PERIOD;
use woop::game::totem::Totem;
use woop::game::zord::BASE_RANGE;

fn generate_game() -> Game {
    let config = Config {
        players: ["mroik", "fin", "warden"].iter().map(|s| String::from(*s)).collect(),
        start_of_game: SystemTime::now().duration_since(UNIX_EPOCH).unwrap().as_secs(),
    };
    Game::new(&config)
}

fn player<'a>(game: &'a Game, name: &str) -> &'a Player {
    game.players.iter().find(|p| p.name == name).unwrap()
}

fn player_mut<'a>(game: &'a mut Game, name: &str) -> &'a mut Player {
    game.players.iter_mut().find(|p| p.name == name).unwrap()
}

#[test]
fn new_game() {
    let game = generate_game();
    assert_eq!(game.players.len(), 3);
    for x in game.players {
        assert!(["mroik", "fin", "warden"].contains(&x.name.as_str()));
    }
}

#[test]
fn shoot_and_kill() {
    let mut game = generate_game();
    game.start_of_day = game.start_of_day.checked_sub(GRACE_PERIOD + 1).unwrap();
    game.create_zord("mroik", 0, 0);
    game.create_zord("fin", 1, 1);
    player_mut(&mut game, "fin").points = 100;
    let _ = game.player_shoot("mroik", 0, 0, 1, 1);
    let success = game.player_shoot("mroik", 0, 0, 1, 1);

    let points = player(&game, "mroik").points;
    let t_points = player(&game, "fin").points;
    assert!(success.is_ok());
    assert_eq!(game.zords.len(), 1);
    assert_eq!(points, 3);
    assert_eq!(t_points, 100 * 2 / 3);
}

#[test]
fn shoot_during_grace_period() {
    let mut game = generate_game();
    game.create_zord("mroik", 0, 0);
    game.create_zord("fin", 1, 1);
    let _ = game.player_shoot("mroik", 0, 0, 1, 1);
    let success = game.player_shoot("mroik", 0, 0, 1, 1);
    assert!(success.is_err());
    assert_eq!(game.zords.len(), 2);
    assert_eq!(player(&game, "mroik").points, 0);
}

#[test]
fn shoot_and_out_of_range() {
    let mut game = generate_game();
    game.create_zord("mroik", 0, 0);
    game.create_zord("fin", 10, 10);
    let success = game.player_shoot("mroik", 0, 0, 10, 10);
    assert!(success.is_err());
    assert_eq!(player(&game, "mroik").points, 0);
}

#[test]
fn shoot_but_not_found() {
    let mut game = generate_game();
    game.create_zord("mroik", 0, 0);
    game.create_zord("fin", 1, 1);
    let success = game.player_shoot("mroik", 2, 2, 0, 0);
    assert!(success.is_err());
    assert_eq!(player(&game, "mroik").points, 0);
}

#[test]
fn shoot_but_not_owned() {
    let mut game = generate_game();
    game.create_zord("mroik", 0, 0);
    game.create_zord("fin", 1, 1);
    let success = game.player_shoot("fin", 0, 0, 1, 1);
    assert!(success.is_err());
    assert_eq!(player(&game, "fin").points, 0);
}

#[test]
fn game_generate_shield() {
    let mut game = generate_game();
    game.create_zord("mroik", 0, 0);
    let success = game.generate_shield("mroik", 0, 0);
    let zord = game.zords.first().unwrap();
    assert!(success.is_ok());
    assert_eq!(zord.shields, 1);
}

#[test]
fn generate_shield_no_actions() {
    let mut game = generate_game();
    game.create_zord("mroik", 0, 0);
    for _ in 0..5 {
        let _ = game.generate_shield("mroik", 0, 0);
    }
    let success = game.generate_shield("mroik", 0, 0);
    let zord = game.zords.first().unwrap();
    assert!(success.is_err());
    assert_eq!(zord.shields, 5);
}

#[test]
fn game_increase_range() {
    let mut game = generate_game();
    game.create_zord("mroik", 0, 0);
    let _ = game.increase_range("mroik", 0, 0);
    assert_eq!(game.zords.first().unwrap().range, 6);
    assert_eq!(player(&game, "mroik").actions, 18);
}

#[test]
fn new_day() {
    let mut game = generate_game();
    game.create_zord("mroik", 0, 0);
    game.new_day();
    let _ = game.generate_shield("mroik", 0, 0);
    let _ = game.increase_range("mroik", 0, 0);
    game.new_day();
    let zord = game.zords.first().unwrap();
    assert_eq!(game.day, 2);
    assert_eq!(player(&game, "mroik").actions, BASE_ACTIONS);
    assert_eq!(zord.range, BASE_RANGE);
    assert_eq!(zord.shields, 0);
    assert_eq!(game.zords.len(), 3);
}

#[test]
fn move_zord() {
    let mut game = generate_game();
    game.create_zord("mroik", 0, 0);
    let success = game.move_zord("mroik", 0, 0, 1, 1);
    assert!(success.is_ok());
    let z = game.zords.first().unwrap();
    assert_eq!(z.x, 1);
    assert_eq!(z.y, 1);
}

#[test]
fn move_zord_out_of_bounds() {
    let mut game = generate_game();
    game.create_zord("mroik", 0, 0);
    let success = game.move_zord("mroik", 0, 0, -1, -1);
    assert!(success.is_err());
    let z = game.zords.first().unwrap();
    assert_eq!(z.x, 0);
    assert_eq!(z.y, 0);
}

#[test]
fn move_zord_out_of_range() {
    let mut game = generate_game();
    game.create_zord("mroik", 0, 0);
    let success = game.move_zord("mroik", 0, 0, 21, 2);
    assert!(success.is_err());
    let z = game.zords.first().unwrap();
    assert_eq!(z.x, 0);
    assert_eq!(z.y, 0);
}

#[test]
fn move_zord_cell_occupied() {
    let mut game = generate_game();
    game.create_zord("mroik", 0, 0);
    game.create_zord("fin", 1, 1);
    let success = game.move_zord("mroik", 0, 0, 1, 1);
    assert!(success.is_err());
    let z = game.zords.first().unwrap();
    assert_eq!(z.x, 0);
    assert_eq!(z.y, 0);
}

#[test]
fn donate_points() {
    let mut game = generate_game();
    player_mut(&mut game, "mroik").points = 100;
    game.create_zord("mroik", 0, 0);
    game.create_zord("fin", 1, 1);
    let success = game.donate_points("mroik", "fin", 10);
    assert!(success.is_ok());
    assert_eq!(player(&game, "mroik").points, 90);
    assert_eq!(player(&game, "fin").points, 10);
}

#[test]
fn donate_points_amount_too_big() {
    let mut game = generate_game();
    player_mut(&mut game, "mroik").points = 10;
    let success = game.donate_points("mroik", "fin", 30);
    assert!(success.is_err());
    assert_eq!(player(&game, "mroik").points, 10);
    assert_eq!(player(&game, "fin").points, 0);
}

#[test]
fn build_zord() {
    let mut game = generate_game();
    game.create_zord("mroik", 0, 0);
    player_mut(&mut game, "mroik").points = 10;

    let success = game.build_zord("mroik", 1, 1);
    let z = game.zords.iter().find(|z| z.x == 1 && z.y == 1).unwrap();
    let p = player(&game, "mroik");
    assert!(success.is_ok());
    assert_eq!(p.actions, 16);
    assert_eq!(p.points, 0);
    assert_eq!(z.owner, "mroik");
}

#[test]
fn build_zord_out_of_range() {
    let mut game = generate_game();
    game.create_zord("mroik", 0, 0);
    player_mut(&mut game, "mroik").points = 10;

    let success = game.build_zord("mroik", 3, 3);
    let p = player(&game, "mroik");
    assert!(success.is_err());
    assert_eq!(p.actions, 20);
    assert_eq!(p.points, 10);
    assert_eq!(game.zords.iter().len(), 1);
}

#[test]
fn build_zord_not_enough_points() {
    let mut game = generate_game();
    game.create_zord("mroik", 0, 0);
    player_mut(&mut game, "mroik").points = 9;

    let success = game.build_zord("mroik", 1, 1);
    let p = player(&game, "mroik");
    assert!(success.is_err());
    assert_eq!(p.actions, 20);
    assert_eq!(p.points, 9);
    assert_eq!(game.zords.iter().len(), 1);
}

#[test]
fn give_out_points() {
    let mut game = generate_game();
    game.create_zord("mroik", 0, 0);
    game.totems = (Totem::new(0, 1), Totem::new(BASE_BOARD_SIZE - 1, BASE_BOARD_SIZE - 1));
    game.give_out_totem_points();
    assert_eq!(player(&game, "mroik").points, 50);
}

#[test]
fn give_out_points_double() {
    let mut game = generate_game();
    game.create_zord("mroik", 0, 0);
    game.create_zord("fin", 0, 1);
    game.totems = (Totem::new(2, 2), Totem::new(BASE_BOARD_SIZE - 1, BASE_BOARD_SIZE - 1));
    game.give_out_totem_points();
    assert_eq!(player(&game, "mroik").points, 25);
    assert_eq!(player(&game, "fin").points, 25);
}

#[test]
fn give_out_out_of_range() {
    let mut game = generate_game();
    game.create_zord("mroik", 0, 0);
    game.totems = (
        Totem::new(BASE_BOARD_SIZE - 2, BASE_BOARD_SIZE - 2),
        Totem::new(BASE_BOARD_SIZE - 1, BASE_BOARD_SIZE - 1),
    );
    game.give_out_totem_points();
    assert_eq!(player(&game, "mroik").points, 0);
}

#[test]
fn respawn() {
    let mut game = generate_game();
    game.respawn_players();
    assert_eq!(game.zords.len(), 3);
}
