//! The game aggregate: how it starts, how its parts are looked up, and what
//! can be read from it.
use crate::config::{names_view, Config};
use super::clock::unix_timestamp;
use super::error::{refused, Refusal, WoopError};
use super::geometry::distance;
use super::log::Logger;
use super::player::{Player, PlayerView, BASE_ACTIONS};
use super::rules::{next_to, token_matches, zord_nearby};
use super::state::{
    distinct_names, has_name, lemma_player_index, lemma_zord_at, player_index, zord_at,
    GameView,
};
use super::token::{generate_token, token_of};
use super::totem::{Totem, TotemView};
use super::zord::{Zord, ZordView};
use vstd::prelude::*;
use vstd::seq_lib::{to_multiset_build, to_multiset_insert};

verus! {

/// The game: the one owner of every player, zord and totem, of the day
/// counter, the credentials and the log.
#[derive(Debug)]
pub struct Game {
    pub players: Vec<Player>,
    pub zords: Vec<Zord>,
    pub totems: (Totem, Totem),
    /// Unix time in seconds at which the current day began.
    pub start_of_day: u64,
    pub day: u8,
    /// Name and token of each player.
    pub auth: Vec<(String, String)>,
    pub logged_actions: Logger,
}

/// The mathematical content of a list of players.
pub open spec fn players_view(players: Seq<Player>) -> Seq<PlayerView> {
    players.map_values(|p: Player| p@)
}

/// The mathematical content of a list of zords.
pub open spec fn zords_view(zords: Seq<Zord>) -> Seq<ZordView> {
    zords.map_values(|z: Zord| z@)
}

/// The mathematical content of a list of credentials.
pub open spec fn auth_view(auth: Seq<(String, String)>) -> Seq<(Seq<char>, Seq<char>)> {
    auth.map_values(|entry: (String, String)| (entry.0@, entry.1@))
}

impl View for Game {
    type V = GameView;

    open spec fn view(&self) -> GameView {
        GameView {
            players: players_view(self.players@),
            zords: zords_view(self.zords@),
            totems: (self.totems.0@, self.totems.1@),
            start_of_day: self.start_of_day as nat,
            day: self.day as nat,
            auth: auth_view(self.auth@),
            log: self.logged_actions@,
        }
    }
}

/// The names of `names` in the order in which each comes first.
pub open spec fn first_occurrences(names: Seq<Seq<char>>) -> Seq<Seq<char>>
    decreases names.len(),
{
    if names.len() == 0 {
        names
    } else {
        let earlier = first_occurrences(names.drop_last());
        if earlier.contains(names.last()) {
            earlier
        } else {
            earlier.push(names.last())
        }
    }
}

/// The players that a game starts with, for the names `names`: each with
/// the full budget of actions and no points.
pub open spec fn starting_players(names: Seq<Seq<char>>) -> Seq<PlayerView> {
    Seq::new(
        names.len(),
        |j: int| PlayerView { name: names[j], actions: BASE_ACTIONS as nat, points: 0 },
    )
}

/// Whether `players` stand in falling order of their points.
pub open spec fn falling(players: Seq<PlayerView>) -> bool {
    forall|a: int, b: int|
        0 <= a < b < players.len() ==> (#[trigger] players[a]).points >= (
        #[trigger] players[b]).points
}

/// Where a game stands in its course of 28 days.
#[derive(Debug, Clone, Copy, PartialEq, Eq, Structural)]
pub enum Phase {
    /// No day has begun.
    NotStarted,
    /// One of the days of the game is under way.
    Running,
    /// The last day is over.
    Ended,
}

/// The day after the last day of a game.
pub const FINAL_DAY: u8 = 29;

/// Where a game whose day counter is `day` stands.
pub open spec fn phase_of(day: nat) -> Phase {
    if day == 0 {
        Phase::NotStarted
    } else if day == FINAL_DAY {
        Phase::Ended
    } else {
        Phase::Running
    }
}

impl Game {
    /// A game for the players that `config` names, each name once: nobody
    /// has a zord, both totems stand on the corner cell, no day has begun.
    /// Every player gets a token made of fresh random bytes; the day starts
    /// at the time of the system clock.
    pub fn new(config: &Config) -> (game: Game)
        ensures
            game.wf(),
            game@.players == starting_players(first_occurrences(names_view(config.players@))),
            game@.zords.len() == 0,
            game@.totems == (TotemView { x: 0, y: 0 }, TotemView { x: 0, y: 0 }),
            game@.day == 0,
            game@.log.len() == 0,
            game@.auth.len() == game@.players.len(),
            forall|j: int|
                0 <= j < game@.auth.len() ==> (#[trigger] game@.auth[j]).0 == game@.players[j].name
                    && exists|seed: Seq<u8>|
                    seed.len() == 32 && game@.auth[j].1 == #[trigger] token_of(seed),
    {
        let mut game = Game {
            players: Vec::new(),
            zords: Vec::new(),
            totems: (Totem::new(0, 0), Totem::new(0, 0)),
            start_of_day: unix_timestamp(),
            day: 0,
            auth: Vec::new(),
            logged_actions: Logger::new(),
        };
        let ghost names = names_view(config.players@);
        let mut i: usize = 0;
        proof {
            assert(names.take(0) =~= Seq::<Seq<char>>::empty());
            assert(game@.players =~= starting_players(first_occurrences(names.take(0))));
        }
        while i < config.players.len()
            invariant
                i <= config.players.len(),
                names == names_view(config.players@),
                game@.players == starting_players(first_occurrences(names.take(i as int))),
                distinct_names(game@.players),
                game@.zords.len() == 0,
                game@.totems == (TotemView { x: 0, y: 0 }, TotemView { x: 0, y: 0 }),
                game@.day == 0,
                game@.log.len() == 0,
                game@.auth.len() == game@.players.len(),
                forall|j: int|
                    0 <= j < game@.auth.len() ==> (#[trigger] game@.auth[j]).0
                        == game@.players[j].name && exists|seed: Seq<u8>|
                        seed.len() == 32 && game@.auth[j].1 == #[trigger] token_of(seed),
            decreases config.players.len() - i,
        {
            let name = config.players[i].as_str();
            let ghost firsts = first_occurrences(names.take(i as int));
            let ghost before = game@;
            proof {
                assert(names.take(i + 1).drop_last() =~= names.take(i as int));
                lemma_player_index(game@.players, name@);
                if firsts.contains(name@) {
                    let w = choose|w: int| 0 <= w < firsts.len() && firsts[w] == name@;
                    assert(game@.players[w].name == name@);
                }
            }
            if self::absent(&game, name) {
                let token = generate_token();
                game.players.push(Player::new(name));
                game.auth.push((name.to_owned(), token));
                proof {
                    assert(!firsts.contains(name@)) by {
                        if firsts.contains(name@) {
                            let w = choose|w: int| 0 <= w < firsts.len() && firsts[w] == name@;
                            assert(before.players[w].name == name@);
                        }
                    }
                    let fresh = PlayerView { name: name@, actions: BASE_ACTIONS as nat, points: 0 };
                    assert(game@.players =~= before.players.push(fresh));
                    assert forall|j: int| 0 <= j < game@.players.len() implies game@.players[j]
                        == starting_players(firsts.push(name@))[j] by {
                        if j < firsts.len() {
                            assert(before.players[j] == starting_players(firsts)[j]);
                        }
                    }
                    assert forall|j: int| 0 <= j < game@.auth.len() implies (
                    #[trigger] game@.auth[j]).0 == game@.players[j].name && exists|seed: Seq<u8>|
                        seed.len() == 32 && game@.auth[j].1 == #[trigger] token_of(seed) by {
                        if j < before.auth.len() {
                            assert(game@.auth[j] == before.auth[j]);
                        }
                    }
                    assert forall|a: int, b: int|
                        0 <= a < b < game@.players.len() implies (#[trigger] game@.players[a]).name
                        != (#[trigger] game@.players[b]).name by {
                        if b < before.players.len() {
                            assert(game@.players[b] == before.players[b]);
                        }
                    }
                }
            } else {
                proof {
                    let w = choose|w: int|
                        0 <= w < before.players.len() && (#[trigger] before.players[w]).name
                            == name@;
                    assert(firsts[w] == name@);
                }
            }
            i += 1;
        }
        proof {
            assert(names.take(i as int) =~= names);
            assert forall|a: int, b: int| 0 <= a < b < game@.auth.len() implies (
            #[trigger] game@.auth[a]).0 != (#[trigger] game@.auth[b]).0 by {
                assert(game@.players[a].name != game@.players[b].name);
            }
        }
        game
    }

    /// Whether `token` is the token that is held for `username`.
    pub fn authenticate(&self, username: &str, pass: &str) -> (result: Result<(), WoopError>)
        ensures
            token_matches(self@.auth, username@, pass@) ==> result is Ok,
            !token_matches(self@.auth, username@, pass@) ==> refused(result, Refusal::AuthError),
    {
        let name = username.to_owned();
        let token = pass.to_owned();
        let mut i: usize = 0;
        while i < self.auth.len()
            invariant
                i <= self.auth.len(),
                name@ == username@,
                token@ == pass@,
                forall|k: int| 0 <= k < i ==> #[trigger] self@.auth[k] != (username@, pass@),
            decreases self.auth.len() - i,
        {
            if self.auth[i].0 == name && self.auth[i].1 == token {
                assert(self@.auth[i as int] == (username@, pass@));
                return Ok(());
            }
            i += 1;
        }
        Err(WoopError::AuthError)
    }

    /// The players in falling order of their points.
    pub fn leaderboard(&self) -> (board: Vec<Player>)
        ensures
            falling(players_view(board@)),
            players_view(board@).to_multiset() == self@.players.to_multiset(),
    {
        let mut board: Vec<Player> = Vec::new();
        let mut i: usize = 0;
        proof {
            assert(self@.players.take(0) =~= Seq::<PlayerView>::empty());
            assert(players_view(board@) =~= Seq::<PlayerView>::empty());
        }
        while i < self.players.len()
            invariant
                i <= self.players.len(),
                board.len() == i,
                falling(players_view(board@)),
                players_view(board@).to_multiset() == self@.players.take(i as int).to_multiset(),
            decreases self.players.len() - i,
        {
            let player = self.players[i].clone();
            let mut k: usize = 0;
            while k < board.len() && board[k].points >= player.points
                invariant
                    k <= board.len(),
                    forall|a: int|
                        0 <= a < k ==> (#[trigger] players_view(board@)[a]).points
                            >= player.points,
                decreases board.len() - k,
            {
                k += 1;
            }
            let ghost before = players_view(board@);
            board.insert(k, player);
            proof {
                let after = players_view(board@);
                assert(after =~= before.insert(k as int, player@));
                to_multiset_insert(before, k as int, player@);
                assert(self@.players.take(i + 1) =~= self@.players.take(i as int).push(player@));
                to_multiset_build(self@.players.take(i as int), player@);
                assert forall|a: int, b: int| 0 <= a < b < after.len() implies (
                #[trigger] after[a]).points >= (#[trigger] after[b]).points by {
                    if b < k {
                        assert(after[a] == before[a] && after[b] == before[b]);
                    } else if b == k {
                        assert(after[a] == before[a]);
                    } else if a < k {
                        assert(after[a] == before[a] && after[b] == before[b - 1]);
                    } else if a == k {
                        assert(after[b] == before[b - 1]);
                    } else {
                        assert(after[a] == before[a - 1] && after[b] == before[b - 1]);
                    }
                }
            }
            i += 1;
        }
        assert(self@.players.take(i as int) =~= self@.players);
        board
    }

    /// The day counter and the Unix time in seconds at which the day began.
    pub fn day_info(&self) -> (info: (u8, u64))
        ensures
            info.0 == self@.day,
            info.1 == self@.start_of_day,
    {
        (self.day, self.start_of_day)
    }

    /// Where the game stands in its course: requests are served only while
    /// it is running.
    pub fn phase(&self) -> (phase: Phase)
        ensures
            phase == phase_of(self@.day),
    {
        if self.day == 0 {
            Phase::NotStarted
        } else if self.day == FINAL_DAY {
            Phase::Ended
        } else {
            Phase::Running
        }
    }

    /// Whether the day is to be turned at time `now`, when the hour of the
    /// turn has come: on every day of a started game up to the last, and,
    /// before the first day, once the time that `start_of_day` holds is
    /// reached.
    pub fn day_is_due(&self, now: u64) -> (due: bool)
        ensures
            due == ((0 < self@.day < FINAL_DAY) || (self@.day == 0 && self@.start_of_day <= now)),
    {
        (self.day > 0 && self.day < FINAL_DAY) || (self.day == 0 && self.start_of_day <= now)
    }

    /// Whether the game meets its invariant.
    pub open spec fn wf(&self) -> bool {
        self@.wf()
    }

    /// Index of the first zord on `(x, y)`.
    pub fn find_zord(&self, x: i16, y: i16) -> (found: Option<usize>)
        ensures
            match found {
                Some(i) => zord_at(self@.zords, x as int, y as int) == Some(i as int) && i
                    < self.zords.len(),
                None => zord_at(self@.zords, x as int, y as int) is None,
            },
    {
        let mut i: usize = 0;
        while i < self.zords.len()
            invariant
                i <= self.zords.len(),
                forall|j: int| 0 <= j < i ==> !(#[trigger] self@.zords[j]).on_cell(x as int, y as int),
            decreases self.zords.len() - i,
        {
            if self.zords[i].x == x && self.zords[i].y == y {
                proof {
                    assert(self@.zords[i as int].on_cell(x as int, y as int));
                    lemma_zord_at(self@.zords, x as int, y as int);
                }
                return Some(i);
            }
            i += 1;
        }
        proof {
            lemma_zord_at(self@.zords, x as int, y as int);
        }
        None
    }

    /// Index of the first player called `name`.
    pub fn find_player(&self, name: &str) -> (found: Option<usize>)
        ensures
            match found {
                Some(j) => player_index(self@.players, name@) == Some(j as int) && j
                    < self.players.len(),
                None => player_index(self@.players, name@) is None,
            },
    {
        let key = name.to_owned();
        let mut j: usize = 0;
        while j < self.players.len()
            invariant
                j <= self.players.len(),
                key@ == name@,
                forall|k: int| 0 <= k < j ==> (#[trigger] self@.players[k]).name != name@,
            decreases self.players.len() - j,
        {
            if self.players[j].name == key {
                proof {
                    assert(self@.players[j as int].name == name@);
                    lemma_player_index(self@.players, name@);
                }
                return Some(j);
            }
            j += 1;
        }
        proof {
            lemma_player_index(self@.players, name@);
        }
        None
    }

    /// Whether a zord or a totem sits on `(x, y)`.
    pub fn is_occupied(&self, x: i16, y: i16) -> (occupied: bool)
        ensures
            occupied == self@.occupied(x as int, y as int),
    {
        if self.find_zord(x, y).is_some() {
            return true;
        }
        (self.totems.0.x == x && self.totems.0.y == y) || (self.totems.1.x == x && self.totems.1.y
            == y)
    }

    /// Index of the first zord of `player` that stands on `(x, y)` or next
    /// to it.
    pub fn find_nearby(&self, player: &str, x: i16, y: i16) -> (found: Option<usize>)
        ensures
            found is Some <==> zord_nearby(self@.zords, player@, x as int, y as int),
            found matches Some(i) ==> i < self.zords.len() && next_to(
                self@.zords[i as int],
                player@,
                x as int,
                y as int,
            ) && forall|k: int|
                0 <= k < i ==> !next_to(#[trigger] self@.zords[k], player@, x as int, y as int),
    {
        let name = player.to_owned();
        let mut i: usize = 0;
        while i < self.zords.len()
            invariant
                i <= self.zords.len(),
                name@ == player@,
                forall|k: int|
                    0 <= k < i ==> !next_to(#[trigger] self@.zords[k], player@, x as int, y as int),
            decreases self.zords.len() - i,
        {
            if self.zords[i].owner == name && distance(self.zords[i].x, self.zords[i].y, x, y) <= 1 {
                assert(next_to(self@.zords[i as int], player@, x as int, y as int));
                return Some(i);
            }
            i += 1;
        }
        None
    }
}

/// Whether `game` has no player called `name`.
fn absent(game: &Game, name: &str) -> (none: bool)
    ensures
        none == !has_name(game@.players, name@),
{
    proof {
        lemma_player_index(game@.players, name@);
    }
    game.find_player(name).is_none()
}

} // verus!
