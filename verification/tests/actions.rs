use woop::config::Config;
use woop::game::error::WoopError;
use woop::game::game::Game;
use woop::game::log::PlayerEvent;
use woop::game::player::Player;
use woop::game::state::GRACE_PERIOD;
use woop::game::totem::Totem;

const LATE: u64 = GRACE_PERIOD + 1;

fn game_of(names: &[&str]) -> Game {
    let config = Config {
        players: names.iter().map(|s| String::from(*s)).collect(),
        start_of_game: 0,
    };
    let mut game = Game::new(&config);
    game.start_of_day = 0;
    game.totems = (Totem::new(100, 100), Totem::new(120, 120));
    game
}

fn player<'a>(game: &'a Game, name: &str) -> &'a Player {
    game.players.iter().find(|p| p.name == name).unwrap()
}

fn set_points(game: &mut Game, name: &str, points: u16) {
    game.players.iter_mut().find(|p| p.name == name).unwrap().points = points;
}

fn set_actions(game: &mut Game, name: &str, actions: u8) {
    game.players.iter_mut().find(|p| p.name == name).unwrap().actions = actions;
}

fn last_event(game: &Game) -> PlayerEvent {
    game.logged_actions.get_chunk(0).remove(0)
}

#[test]
fn shot_outside_grace_period_takes_one_hit_point() {
    let mut game = game_of(&["a", "b"]);
    game.create_zord("a", 0, 0);
    game.create_zord("b", 3, 3);
    let result = game.player_shoot_at("a", 0, 0, 3, 3, LATE);
    assert!(result.is_ok());
    assert_eq!(game.zords.len(), 2);
    assert_eq!(game.zords[1].hp, 1);
    assert_eq!(game.zords[0].hp, 2);
    assert_eq!(player(&game, "a").actions, 16);
    assert_eq!(player(&game, "a").points, 0);
    assert!(matches!(
        last_event(&game),
        PlayerEvent::Shoot { shooter, from: (0, 0), to: (3, 3), target, timestamp: LATE }
            if shooter == "a" && target == "b"
    ));
    assert!(game.is_valid());
}

#[test]
fn shots_never_leave_a_zord_without_hit_points() {
    let mut game = game_of(&["a", "b"]);
    game.create_zord("a", 0, 0);
    game.create_zord("b", 1, 0);
    game.create_zord("b", 9, 9);
    game.zords[1].shields = 1;
    assert!(game.player_shoot_at("a", 0, 0, 1, 0, LATE).is_ok());
    assert_eq!((game.zords[1].shields, game.zords[1].hp), (0, 2));
    assert!(game.player_shoot_at("a", 0, 0, 1, 0, LATE).is_ok());
    assert_eq!((game.zords[1].shields, game.zords[1].hp), (0, 1));
    assert_eq!(game.zords.len(), 3);
    assert!(game.player_shoot_at("a", 0, 0, 1, 0, LATE).is_ok());
    assert_eq!(game.zords.len(), 2);
    assert!(game.zords.iter().all(|z| z.hp > 0));
    assert!(game.zords.iter().all(|z| !(z.x == 1 && z.y == 0)));
    assert_eq!(player(&game, "a").points, 3);
    assert!(game.is_valid());
}

#[test]
fn kill_of_a_zord_that_is_not_the_last_costs_its_owner_nothing() {
    let mut game = game_of(&["a", "b"]);
    game.create_zord("a", 0, 0);
    game.create_zord("b", 1, 0);
    game.create_zord("b", 9, 9);
    set_points(&mut game, "b", 100);
    assert!(game.player_shoot_at("a", 0, 0, 1, 0, LATE).is_ok());
    assert!(game.player_shoot_at("a", 0, 0, 1, 0, LATE).is_ok());
    assert_eq!(game.zords.len(), 2);
    assert_eq!(player(&game, "b").points, 100);
    assert_eq!(player(&game, "a").points, 3);
}

#[test]
fn loss_of_the_last_zord_leaves_two_thirds_rounded_down() {
    let mut game = game_of(&["a", "b"]);
    game.create_zord("a", 0, 0);
    game.create_zord("b", 1, 0);
    game.zords[1].hp = 1;
    set_points(&mut game, "b", 65535);
    assert!(game.player_shoot_at("a", 0, 0, 1, 0, LATE).is_ok());
    assert_eq!(player(&game, "b").points, 43690);
    let mut game = game_of(&["a", "b"]);
    game.create_zord("a", 0, 0);
    game.create_zord("b", 1, 0);
    game.zords[1].hp = 1;
    set_points(&mut game, "b", 5);
    assert!(game.player_shoot_at("a", 0, 0, 1, 0, LATE).is_ok());
    assert_eq!(player(&game, "b").points, 3);
}

#[test]
fn shot_at_own_zord_is_refused() {
    let mut game = game_of(&["a", "b"]);
    game.create_zord("a", 0, 0);
    game.create_zord("a", 1, 1);
    let result = game.player_shoot_at("a", 0, 0, 1, 1, LATE);
    assert!(matches!(result, Err(WoopError::OwnZord)));
    assert_eq!(game.zords[1].hp, 2);
    assert_eq!(player(&game, "a").actions, 20);
    assert_eq!(game.logged_actions.len(), 0);
}

#[test]
fn shot_at_own_zord_is_refused_for_an_earlier_reason_where_there_is_one() {
    let mut game = game_of(&["a", "b"]);
    game.create_zord("a", 0, 0);
    game.create_zord("a", 10, 10);
    game.create_zord("a", 1, 1);
    assert!(matches!(
        game.player_shoot_at("a", 0, 0, 10, 10, LATE),
        Err(WoopError::NotInRange(0, 0, 10, 10))
    ));
    assert!(matches!(
        game.player_shoot_at("a", 0, 0, 1, 1, GRACE_PERIOD),
        Err(WoopError::WithinGracePeriod)
    ));
    assert_eq!(game.zords.len(), 3);
}

#[test]
fn shot_at_an_empty_cell_is_refused() {
    let mut game = game_of(&["a", "b"]);
    game.create_zord("a", 0, 0);
    let result = game.player_shoot_at("a", 0, 0, 2, 2, LATE);
    assert!(matches!(result, Err(WoopError::OwnZord)));
    assert_eq!(player(&game, "a").actions, 20);
}

#[test]
fn shot_checks_come_in_order() {
    let mut game = game_of(&["a", "b"]);
    game.create_zord("a", 0, 0);
    game.create_zord("b", 6, 0);
    game.create_zord("b", 5, 5);
    assert!(matches!(
        game.player_shoot_at("a", 7, 7, 6, 0, 0),
        Err(WoopError::ZordNotFound(7, 7))
    ));
    assert!(matches!(game.player_shoot_at("a", 6, 0, 0, 0, 0), Err(WoopError::NotOwned(6, 0))));
    assert!(matches!(
        game.player_shoot_at("a", 0, 0, 6, 0, 0),
        Err(WoopError::NotInRange(0, 0, 6, 0))
    ));
    assert!(matches!(
        game.player_shoot_at("a", 0, 0, 5, 5, GRACE_PERIOD),
        Err(WoopError::WithinGracePeriod)
    ));
    set_actions(&mut game, "a", 3);
    assert!(matches!(
        game.player_shoot_at("a", 0, 0, 5, 5, LATE),
        Err(WoopError::OutOfActions)
    ));
    set_actions(&mut game, "a", 4);
    assert!(game.player_shoot_at("a", 0, 0, 5, 5, LATE).is_ok());
    assert_eq!(player(&game, "a").actions, 0);
}

#[test]
fn shot_before_the_day_began_is_within_the_grace_period() {
    let mut game = game_of(&["a", "b"]);
    game.start_of_day = 50_000;
    game.create_zord("a", 0, 0);
    game.create_zord("b", 1, 1);
    assert!(matches!(
        game.player_shoot_at("a", 0, 0, 1, 1, 10),
        Err(WoopError::WithinGracePeriod)
    ));
    assert!(matches!(
        game.player_shoot_at("a", 0, 0, 1, 1, 50_000 + GRACE_PERIOD),
        Err(WoopError::WithinGracePeriod)
    ));
    assert!(game.player_shoot_at("a", 0, 0, 1, 1, 50_000 + GRACE_PERIOD + 1).is_ok());
}

#[test]
fn move_costs_the_distance_moved() {
    let mut game = game_of(&["a"]);
    game.create_zord("a", 0, 0);
    assert!(game.move_zord_at("a", 0, 0, 3, 2, 77).is_ok());
    assert_eq!(player(&game, "a").actions, 17);
    assert_eq!((game.zords[0].x, game.zords[0].y), (3, 2));
    assert!(game.move_zord_at("a", 3, 2, 3, 19, 78).is_ok());
    assert_eq!(player(&game, "a").actions, 0);
    assert!(matches!(
        last_event(&game),
        PlayerEvent::Move { player, from: (3, 2), to: (3, 19), timestamp: 78 } if player == "a"
    ));
    assert!(matches!(
        game.move_zord_at("a", 3, 19, 3, 18, 79),
        Err(WoopError::NotInRange(3, 19, 3, 18))
    ));
}

#[test]
fn move_never_ends_on_an_occupied_cell_or_off_the_board() {
    let mut game = game_of(&["a", "b"]);
    game.totems = (Totem::new(2, 2), Totem::new(4, 4));
    game.create_zord("a", 3, 3);
    game.create_zord("b", 3, 4);
    assert!(matches!(game.move_zord_at("a", 3, 3, 3, 4, 1), Err(WoopError::CellOccupied(3, 4))));
    assert!(matches!(game.move_zord_at("a", 3, 3, 2, 2, 1), Err(WoopError::CellOccupied(2, 2))));
    assert!(matches!(game.move_zord_at("a", 3, 3, 4, 4, 1), Err(WoopError::CellOccupied(4, 4))));
    assert!(matches!(game.move_zord_at("a", 3, 3, 3, 3, 1), Err(WoopError::CellOccupied(3, 3))));
    game.create_zord("a", 0, 139);
    assert!(matches!(game.move_zord_at("a", 0, 139, -1, 139, 1), Err(WoopError::OutOfBounds(-1, 139))));
    assert!(matches!(game.move_zord_at("a", 0, 139, 0, 140, 1), Err(WoopError::OutOfBounds(0, 140))));
    assert_eq!(player(&game, "a").actions, 20);
    assert_eq!(game.logged_actions.len(), 0);
}

#[test]
fn move_checks_come_in_order() {
    let mut game = game_of(&["a", "b"]);
    game.create_zord("a", 0, 0);
    game.create_zord("b", 5, 5);
    assert!(matches!(game.move_zord_at("a", 9, 9, 5, 5, 1), Err(WoopError::CellOccupied(5, 5))));
    assert!(matches!(game.move_zord_at("a", 9, 9, 8, 8, 1), Err(WoopError::ZordNotFound(9, 9))));
    assert!(matches!(game.move_zord_at("a", 5, 5, 5, 6, 1), Err(WoopError::NotOwned(5, 5))));
    assert!(matches!(
        game.move_zord_at("a", 0, 0, -30, 0, 1),
        Err(WoopError::NotInRange(0, 0, -30, 0))
    ));
    assert!(matches!(game.move_zord_at("a", 0, 0, -1, 0, 1), Err(WoopError::OutOfBounds(-1, 0))));
}

#[test]
fn move_between_the_ends_of_the_coordinate_range_is_out_of_range() {
    let mut game = game_of(&["a"]);
    game.create_zord("a", 32767, 32767);
    assert!(matches!(
        game.move_zord_at("a", 32767, 32767, -32768, -32768, 1),
        Err(WoopError::NotInRange(32767, 32767, -32768, -32768))
    ));
}

#[test]
fn shield_costs_four_actions_and_adds_one_shield() {
    let mut game = game_of(&["a", "b"]);
    game.create_zord("a", 0, 0);
    assert!(game.generate_shield_at("a", 0, 0, 5).is_ok());
    assert_eq!(game.zords[0].shields, 1);
    assert_eq!(player(&game, "a").actions, 16);
    assert!(matches!(
        last_event(&game),
        PlayerEvent::GenerateShield { player, zord_coord: (0, 0), timestamp: 5 } if player == "a"
    ));
    assert!(matches!(game.generate_shield_at("a", 1, 0, 5), Err(WoopError::ZordNotFound(1, 0))));
    assert!(matches!(game.generate_shield_at("b", 0, 0, 5), Err(WoopError::NotOwned(0, 0))));
    set_actions(&mut game, "a", 3);
    assert!(matches!(game.generate_shield_at("a", 0, 0, 5), Err(WoopError::OutOfActions)));
    assert_eq!(game.zords[0].shields, 1);
    assert_eq!(player(&game, "a").actions, 3);
}

#[test]
fn range_costs_two_actions_and_adds_one() {
    let mut game = game_of(&["a", "b"]);
    game.create_zord("a", 0, 0);
    assert!(game.increase_range_at("a", 0, 0, 6).is_ok());
    assert_eq!(game.zords[0].range, 6);
    assert_eq!(player(&game, "a").actions, 18);
    assert!(matches!(
        last_event(&game),
        PlayerEvent::IncreaseRange { player, zord_coord: (0, 0), timestamp: 6 } if player == "a"
    ));
    assert!(matches!(game.increase_range_at("a", 1, 0, 5), Err(WoopError::ZordNotFound(1, 0))));
    assert!(matches!(game.increase_range_at("b", 0, 0, 5), Err(WoopError::NotOwned(0, 0))));
    set_actions(&mut game, "a", 1);
    assert!(matches!(game.increase_range_at("a", 0, 0, 5), Err(WoopError::OutOfActions)));
    set_actions(&mut game, "a", 2);
    assert!(game.increase_range_at("a", 0, 0, 5).is_ok());
    assert_eq!(player(&game, "a").actions, 0);
    assert_eq!(game.zords[0].range, 7);
}

#[test]
fn donation_over_the_cap_is_refused() {
    let mut game = game_of(&["a", "b"]);
    game.create_zord("a", 0, 0);
    game.create_zord("b", 1, 1);
    set_points(&mut game, "a", 100);
    assert!(matches!(game.donate_points_at("a", "b", 11, 1), Err(WoopError::DonationLimit)));
    assert_eq!(player(&game, "a").points, 100);
    assert_eq!(player(&game, "b").points, 0);
    assert!(game.donate_points_at("a", "b", 10, 1).is_ok());
    assert_eq!(player(&game, "a").points, 90);
    assert_eq!(player(&game, "b").points, 10);
    assert_eq!(player(&game, "a").actions, 16);
    assert!(matches!(
        last_event(&game),
        PlayerEvent::DonatePoints { from, to, timestamp: 1 } if from == "a" && to == "b"
    ));
}

#[test]
fn donation_needs_a_zord_of_the_recipient_in_range() {
    let mut game = game_of(&["a", "b"]);
    set_points(&mut game, "a", 100);
    assert!(matches!(game.donate_points_at("a", "b", 5, 1), Err(WoopError::DonationRange)));
    game.create_zord("a", 0, 0);
    assert!(matches!(game.donate_points_at("a", "b", 5, 1), Err(WoopError::DonationRange)));
    game.create_zord("b", 6, 0);
    assert!(matches!(game.donate_points_at("a", "b", 5, 1), Err(WoopError::DonationRange)));
    assert_eq!(player(&game, "a").points, 100);
    assert_eq!(player(&game, "a").actions, 20);
    game.zords[0].range = 6;
    assert!(game.donate_points_at("a", "b", 5, 1).is_ok());
    assert_eq!(player(&game, "b").points, 5);
}

#[test]
fn donation_holds_every_zord_against_every_zord() {
    let mut game = game_of(&["a", "b"]);
    set_points(&mut game, "a", 100);
    game.create_zord("a", 0, 0);
    game.create_zord("b", 100, 100);
    game.create_zord("a", 50, 50);
    game.create_zord("b", 52, 52);
    assert!(game.donate_points_at("a", "b", 1, 1).is_ok());
    assert_eq!(player(&game, "b").points, 1);
}

#[test]
fn donation_goes_by_the_range_of_the_donor() {
    let mut game = game_of(&["a", "b"]);
    set_points(&mut game, "a", 100);
    game.create_zord("a", 0, 0);
    game.create_zord("b", 7, 0);
    game.zords[1].range = 9;
    assert!(matches!(game.donate_points_at("a", "b", 1, 1), Err(WoopError::DonationRange)));
}

#[test]
fn donation_checks_come_in_order() {
    let mut game = game_of(&["a", "b"]);
    game.create_zord("a", 0, 0);
    game.create_zord("b", 1, 1);
    set_points(&mut game, "a", 4);
    assert!(matches!(game.donate_points_at("x", "y", 11, 1), Err(WoopError::DonationLimit)));
    assert!(matches!(
        game.donate_points_at("x", "y", 10, 1),
        Err(WoopError::PlayerNotFound(name)) if name == "y"
    ));
    assert!(matches!(
        game.donate_points_at("x", "b", 10, 1),
        Err(WoopError::PlayerNotFound(name)) if name == "x"
    ));
    assert!(matches!(
        game.donate_points_at("a", "b", 5, 1),
        Err(WoopError::NotEnoughPoints(4, 5))
    ));
    set_actions(&mut game, "a", 3);
    assert!(matches!(game.donate_points_at("a", "b", 4, 1), Err(WoopError::OutOfActions)));
    set_actions(&mut game, "a", 4);
    assert!(game.donate_points_at("a", "b", 4, 1).is_ok());
    assert_eq!(player(&game, "a").points, 0);
    assert_eq!(player(&game, "b").points, 4);
}

#[test]
fn donation_to_oneself_costs_only_the_actions() {
    let mut game = game_of(&["a"]);
    game.create_zord("a", 0, 0);
    set_points(&mut game, "a", 65535);
    assert!(game.donation_fits("a", "a", 10));
    assert!(game.donate_points_at("a", "a", 10, 1).is_ok());
    assert_eq!(player(&game, "a").points, 65535);
    assert_eq!(player(&game, "a").actions, 16);
}

#[test]
fn build_without_points_is_refused() {
    let mut game = game_of(&["a"]);
    game.create_zord("a", 0, 0);
    let result = game.build_zord_at("a", 1, 0, 1);
    assert!(matches!(result, Err(WoopError::NotEnoughPoints(0, 10))));
    assert_eq!(game.zords.len(), 1);
    assert_eq!(player(&game, "a").actions, 20);
}

#[test]
fn built_zord_has_taken_one_hit() {
    let mut game = game_of(&["a"]);
    game.create_zord("a", 0, 0);
    set_points(&mut game, "a", 25);
    assert!(game.build_zord_at("a", -1, 1, 9).is_ok());
    assert_eq!(game.zords.len(), 2);
    let z = &game.zords[1];
    assert_eq!((z.x, z.y, z.hp, z.shields, z.range), (-1, 1, 1, 0, 5));
    assert_eq!(z.owner, "a");
    assert_eq!(player(&game, "a").points, 15);
    assert_eq!(player(&game, "a").actions, 16);
    assert!(matches!(
        last_event(&game),
        PlayerEvent::BuildZord { player, zord_coord: (-1, 1), timestamp: 9 } if player == "a"
    ));
    assert!(game.is_valid());
}

#[test]
fn build_checks_come_in_order() {
    let mut game = game_of(&["a", "b"]);
    game.create_zord("a", 0, 0);
    game.create_zord("b", 1, 1);
    game.create_zord("b", 7, 7);
    assert!(matches!(game.build_zord_at("a", 2, 0, 1), Err(WoopError::NoZordNearby(2, 0))));
    assert!(matches!(game.build_zord_at("a", 7, 7, 1), Err(WoopError::NoZordNearby(7, 7))));
    assert!(matches!(game.build_zord_at("nobody", 0, 1, 1), Err(WoopError::NoZordNearby(0, 1))));
    set_actions(&mut game, "a", 0);
    assert!(matches!(game.build_zord_at("a", 1, 0, 1), Err(WoopError::OutOfActions)));
    set_points(&mut game, "a", 10);
    assert!(matches!(game.build_zord_at("a", 1, 1, 1), Err(WoopError::OutOfActions)));
    set_actions(&mut game, "a", 4);
    set_points(&mut game, "a", 9);
    assert!(matches!(game.build_zord_at("a", 1, 0, 1), Err(WoopError::NotEnoughPoints(9, 10))));
    assert!(matches!(game.build_zord_at("a", 1, 1, 1), Err(WoopError::NotEnoughPoints(9, 10))));
    set_points(&mut game, "a", 10);
    assert!(matches!(game.build_zord_at("a", 1, 1, 1), Err(WoopError::CellOccupied(1, 1))));
    assert!(matches!(game.build_zord_at("a", 0, 0, 1), Err(WoopError::CellOccupied(0, 0))));
    game.totems = (Totem::new(0, 1), Totem::new(1, 0));
    assert!(matches!(game.build_zord_at("a", 0, 1, 1), Err(WoopError::CellOccupied(0, 1))));
    assert!(matches!(game.build_zord_at("a", 1, 0, 1), Err(WoopError::CellOccupied(1, 0))));
    assert_eq!(game.zords.len(), 3);
    assert!(game.build_zord_at("a", -1, -1, 1).is_ok());
    assert_eq!(game.zords.len(), 4);
}

#[test]
fn build_with_one_to_three_actions_is_refused_last_for_the_actions() {
    for actions in 1..=3u8 {
        let mut game = game_of(&["a", "b"]);
        game.create_zord("a", 0, 0);
        game.create_zord("b", 1, 1);
        set_actions(&mut game, "a", actions);
        assert!(matches!(game.build_zord_at("a", 1, 0, 1), Err(WoopError::NotEnoughPoints(0, 10))));
        set_points(&mut game, "a", 9);
        assert!(matches!(game.build_zord_at("a", 1, 0, 1), Err(WoopError::NotEnoughPoints(9, 10))));
        set_points(&mut game, "a", 10);
        assert!(matches!(game.build_zord_at("a", 1, 1, 1), Err(WoopError::CellOccupied(1, 1))));
        assert!(matches!(game.build_zord_at("a", 1, 0, 1), Err(WoopError::OutOfActions)));
        assert_eq!(game.zords.len(), 2);
        assert_eq!(player(&game, "a").actions, actions);
        assert_eq!(player(&game, "a").points, 10);
        assert_eq!(game.logged_actions.len(), 0);
    }
}

#[test]
fn shot_with_one_to_three_actions_at_no_enemy_is_refused_for_the_target() {
    for actions in 1..=3u8 {
        let mut game = game_of(&["a", "b"]);
        game.create_zord("a", 0, 0);
        game.create_zord("a", 1, 1);
        game.create_zord("b", 2, 2);
        set_actions(&mut game, "a", actions);
        assert!(matches!(game.player_shoot_at("a", 0, 0, 1, 1, LATE), Err(WoopError::OwnZord)));
        assert!(matches!(game.player_shoot_at("a", 0, 0, 3, 3, LATE), Err(WoopError::OwnZord)));
        assert!(matches!(game.player_shoot_at("a", 0, 0, 2, 2, LATE), Err(WoopError::OutOfActions)));
        assert!(matches!(
            game.player_shoot_at("a", 0, 0, 1, 1, GRACE_PERIOD),
            Err(WoopError::WithinGracePeriod)
        ));
        assert_eq!(game.zords.len(), 3);
        assert!(game.zords.iter().all(|z| z.hp == 2));
        assert_eq!(player(&game, "a").actions, actions);
        assert_eq!(game.logged_actions.len(), 0);
    }
}

#[test]
fn shot_without_actions_is_refused_for_the_actions_whatever_the_target() {
    let mut game = game_of(&["a", "b"]);
    game.create_zord("a", 0, 0);
    game.create_zord("a", 1, 1);
    game.create_zord("b", 2, 2);
    set_actions(&mut game, "a", 0);
    assert!(matches!(game.player_shoot_at("a", 0, 0, 1, 1, LATE), Err(WoopError::OutOfActions)));
    assert!(matches!(game.player_shoot_at("a", 0, 0, 3, 3, LATE), Err(WoopError::OutOfActions)));
    assert!(matches!(game.player_shoot_at("a", 0, 0, 2, 2, LATE), Err(WoopError::OutOfActions)));
}

#[test]
fn clock_stamps_the_events() {
    let mut game = game_of(&["a"]);
    game.create_zord("a", 0, 0);
    assert!(game.generate_shield("a", 0, 0).is_ok());
    assert!(matches!(
        last_event(&game),
        PlayerEvent::GenerateShield { timestamp, .. } if timestamp > 1_600_000_000
    ));
}

#[test]
fn limits_are_told_before_they_are_met() {
    let mut game = game_of(&["a", "b"]);
    game.create_zord("a", 0, 0);
    game.create_zord("b", 1, 1);
    assert!(game.shield_fits("a", 0, 0) && game.range_fits("a", 0, 0));
    game.zords[0].shields = 255;
    game.zords[0].range = 255;
    assert!(!game.shield_fits("a", 0, 0));
    assert!(!game.range_fits("a", 0, 0));
    game.zords[0].range = 5;
    set_points(&mut game, "a", 65533);
    assert!(game.shot_fits("a", 0, 0, 1, 1));
    game.zords[1].hp = 1;
    assert!(!game.shot_fits("a", 0, 0, 1, 1));
    set_points(&mut game, "a", 65532);
    assert!(game.shot_fits("a", 0, 0, 1, 1));
    set_points(&mut game, "a", 100);
    set_points(&mut game, "b", 65530);
    assert!(!game.donation_fits("a", "b", 6));
    assert!(game.donation_fits("a", "b", 5));
}

#[test]
fn limits_do_not_bind_what_the_rules_refuse() {
    let mut game = game_of(&["a", "b"]);
    game.create_zord("a", 0, 0);
    game.create_zord("b", 1, 1);
    game.create_zord("b", 9, 9);
    game.zords[0].shields = 255;
    game.zords[1].hp = 1;
    set_points(&mut game, "a", 65533);
    set_points(&mut game, "b", 65530);
    assert!(game.shield_fits("a", 5, 5));
    assert!(game.shield_fits("b", 0, 0));
    assert!(game.shot_fits("a", 4, 4, 1, 1));
    assert!(matches!(
        game.player_shoot_at("a", 4, 4, 1, 1, LATE),
        Err(WoopError::ZordNotFound(4, 4))
    ));
    assert!(game.shot_fits("b", 0, 0, 1, 1));
    assert!(game.shot_fits("a", 0, 0, 9, 9));
    assert!(game.shot_fits("a", 0, 0, 0, 0));
    assert!(game.shot_fits("a", 0, 0, 3, 3));
    assert!(game.donation_fits("a", "b", 11));
    assert!(game.donation_fits("a", "nobody", 6));
    assert!(game.donation_fits("nobody", "b", 6));
    set_actions(&mut game, "a", 3);
    assert!(game.shield_fits("a", 0, 0));
    assert!(matches!(game.generate_shield_at("a", 0, 0, 5), Err(WoopError::OutOfActions)));
    assert!(game.shot_fits("a", 0, 0, 1, 1));
    assert!(matches!(game.player_shoot_at("a", 0, 0, 1, 1, LATE), Err(WoopError::OutOfActions)));
    assert!(game.donation_fits("a", "b", 6));
    set_actions(&mut game, "a", 1);
    game.zords[0].range = 255;
    assert!(game.range_fits("a", 0, 0));
    assert!(matches!(game.increase_range_at("a", 0, 0, 5), Err(WoopError::OutOfActions)));
    set_actions(&mut game, "a", 20);
    set_points(&mut game, "a", 5);
    assert!(game.donation_fits("a", "b", 6));
    assert!(matches!(game.donate_points_at("a", "b", 6, 5), Err(WoopError::NotEnoughPoints(5, 6))));
    set_points(&mut game, "a", 50);
    game.zords[0].range = 0;
    assert!(game.donation_fits("a", "b", 6));
    assert!(matches!(game.donate_points_at("a", "b", 6, 5), Err(WoopError::DonationRange)));
}

#[test]
fn validity_is_told() {
    let mut game = game_of(&["a", "b"]);
    assert!(game.is_valid());
    game.create_zord("a", 0, 0);
    assert!(game.is_valid());
    game.create_zord("nobody", 1, 1);
    assert!(!game.is_valid());
    game.zords.pop();
    game.zords[0].hp = 0;
    assert!(!game.is_valid());
    game.clear_dead();
    assert!(game.is_valid());
    assert_eq!(game.zords.len(), 0);
    game.players.push(Player::new("a"));
    assert!(!game.is_valid());
}
