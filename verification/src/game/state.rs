//! The content of a game, its invariant, and the constants of the rules.
use super::error::Refusal;
use super::log::Event;
use super::player::PlayerView;
use super::seqs::{count, first_index, keep, lemma_first_index};
use super::totem::TotemView;
use super::zord::ZordView;
use vstd::prelude::*;

verus! {

/// Seconds after the start of a day during which nobody may shoot.
pub const GRACE_PERIOD: u64 = 60 * 60 * 3;

/// Points that building a zord costs.
pub const NEW_ZORD_COST: u16 = 10;

/// Points that a shooter gets for a kill.
pub const KILL_REWARD: u16 = 3;

/// Radius of the aura around a totem.
pub const TOTEM_AURA: u16 = 5;

/// Points that one totem hands out per day.
pub const TOTEM_REWARD: u16 = 50;

/// Actions that shooting, shielding, donating and building cost; raising the
/// range costs half of it.
pub const ACTION_COST: u8 = 4;

/// The most points that one donation may carry.
pub const MAX_DONATION_PER_ACTION: u16 = 10;

/// The mathematical content of a game: what the rules read and change.
pub struct GameView {
    /// The players, each name once.
    pub players: Seq<PlayerView>,
    /// The zords on the board, in the order in which they came.
    pub zords: Seq<ZordView>,
    /// The two totems.
    pub totems: (TotemView, TotemView),
    /// Unix time in seconds at which the current day began.
    pub start_of_day: nat,
    /// Number of days begun so far.
    pub day: nat,
    /// Name and token of each player.
    pub auth: Seq<(Seq<char>, Seq<char>)>,
    /// Every recorded event, oldest first.
    pub log: Seq<Event>,
}

/// The zords that stand on `(x, y)`.
pub open spec fn standing_on(x: int, y: int) -> spec_fn(ZordView) -> bool {
    |z: ZordView| z.on_cell(x, y)
}

/// The zords that belong to `name`.
pub open spec fn owned_by(name: Seq<char>) -> spec_fn(ZordView) -> bool {
    |z: ZordView| z.owner == name
}

/// The zords that have hit points left.
pub open spec fn alive() -> spec_fn(ZordView) -> bool {
    |z: ZordView| !z.dead()
}

/// The players called `name`.
pub open spec fn called(name: Seq<char>) -> spec_fn(PlayerView) -> bool {
    |p: PlayerView| p.name == name
}

/// Index of the first zord of `zords` that stands on `(x, y)`.
pub open spec fn zord_at(zords: Seq<ZordView>, x: int, y: int) -> Option<int> {
    first_index(zords, standing_on(x, y))
}

/// Index of the first player of `players` called `name`.
pub open spec fn player_index(players: Seq<PlayerView>, name: Seq<char>) -> Option<int> {
    first_index(players, called(name))
}

/// Whether some zord of `zords` belongs to `name`.
pub open spec fn owns_any(zords: Seq<ZordView>, name: Seq<char>) -> bool {
    exists|i: int| 0 <= i < zords.len() && (#[trigger] zords[i]).owner == name
}

/// Number of zords of `zords` that belong to `name`.
pub open spec fn owned(zords: Seq<ZordView>, name: Seq<char>) -> nat {
    count(zords, owned_by(name))
}

/// The zords of `zords` that have hit points left, in their order.
pub open spec fn living(zords: Seq<ZordView>) -> Seq<ZordView> {
    keep(zords, alive())
}

/// `zord_at` gives the first zord on the cell, and none only where the cell
/// holds no zord.
pub proof fn lemma_zord_at(zords: Seq<ZordView>, x: int, y: int)
    ensures
        match zord_at(zords, x, y) {
            Some(i) => 0 <= i < zords.len() && zords[i].on_cell(x, y) && forall|j: int|
                0 <= j < i ==> !(#[trigger] zords[j]).on_cell(x, y),
            None => forall|j: int| 0 <= j < zords.len() ==> !(#[trigger] zords[j]).on_cell(x, y),
        },
{
    lemma_first_index(zords, standing_on(x, y));
}

/// `player_index` gives the first player of that name, and none only where
/// no player has it.
pub proof fn lemma_player_index(players: Seq<PlayerView>, name: Seq<char>)
    ensures
        match player_index(players, name) {
            Some(j) => 0 <= j < players.len() && players[j].name == name && forall|k: int|
                0 <= k < j ==> (#[trigger] players[k]).name != name,
            None => forall|k: int| 0 <= k < players.len() ==> (#[trigger] players[k]).name != name,
        },
{
    lemma_first_index(players, called(name));
}

/// Whether a player of `players` is called `name`.
pub open spec fn has_name(players: Seq<PlayerView>, name: Seq<char>) -> bool {
    exists|j: int| 0 <= j < players.len() && (#[trigger] players[j]).name == name
}

/// Whether no two players of `players` share a name.
pub open spec fn distinct_names(players: Seq<PlayerView>) -> bool {
    forall|i: int, j: int|
        0 <= i < j < players.len() ==> (#[trigger] players[i]).name != (#[trigger] players[j]).name
}

/// Whether no two credentials of `auth` share a name.
pub open spec fn distinct_logins(auth: Seq<(Seq<char>, Seq<char>)>) -> bool {
    forall|i: int, j: int| 0 <= i < j < auth.len() ==> (#[trigger] auth[i]).0 != (#[trigger] auth[j]).0
}

/// Whether every zord of `zords` has hit points left and an owner among
/// `players`.
pub open spec fn zords_valid(players: Seq<PlayerView>, zords: Seq<ZordView>) -> bool {
    forall|i: int|
        0 <= i < zords.len() ==> !(#[trigger] zords[i]).dead() && has_name(players, zords[i].owner)
}

impl GameView {
    /// Whether a player called `name` exists.
    pub open spec fn has_player(self, name: Seq<char>) -> bool {
        has_name(self.players, name)
    }

    /// The invariant of a game: no two players share a name, no two
    /// credentials share a name, and every zord on the board has hit points
    /// left and an owner among the players.
    pub open spec fn wf(self) -> bool {
        &&& distinct_names(self.players)
        &&& distinct_logins(self.auth)
        &&& zords_valid(self.players, self.zords)
    }

    /// The player called `name`. Meaningful where such a player exists.
    pub open spec fn player(self, name: Seq<char>) -> PlayerView {
        self.players[player_index(self.players, name).unwrap()]
    }

    /// Whether a zord or a totem sits on `(x, y)`.
    pub open spec fn occupied(self, x: int, y: int) -> bool {
        ||| zord_at(self.zords, x, y) is Some
        ||| (self.totems.0.x == x && self.totems.0.y == y)
        ||| (self.totems.1.x == x && self.totems.1.y == y)
    }

    /// The game with the player called `name` replaced by `player`.
    pub open spec fn with_player(self, name: Seq<char>, player: PlayerView) -> GameView {
        GameView {
            players: self.players.update(player_index(self.players, name).unwrap(), player),
            ..self
        }
    }

    /// The game after the player called `name` has spent `amount` actions.
    pub open spec fn spend(self, name: Seq<char>, amount: nat) -> GameView {
        self.with_player(
            name,
            PlayerView {
                actions: (self.player(name).actions - amount) as nat,
                ..self.player(name)
            },
        )
    }

    /// The game after the player called `name` has received `amount` points.
    pub open spec fn credit(self, name: Seq<char>, amount: nat) -> GameView {
        self.with_player(
            name,
            PlayerView { points: self.player(name).points + amount, ..self.player(name) },
        )
    }

    /// The game after the player called `name` has paid `amount` points.
    pub open spec fn debit(self, name: Seq<char>, amount: nat) -> GameView {
        self.with_player(
            name,
            PlayerView {
                points: (self.player(name).points - amount) as nat,
                ..self.player(name)
            },
        )
    }

    /// The game with `event` appended to its log.
    pub open spec fn logged(self, event: Event) -> GameView {
        GameView { log: self.log.push(event), ..self }
    }

    /// The game with the players `players`.
    pub open spec fn with_player_list(self, players: Seq<PlayerView>) -> GameView {
        GameView { players, ..self }
    }

    /// The game with the zords `zords`.
    pub open spec fn with_zords(self, zords: Seq<ZordView>) -> GameView {
        GameView { zords, ..self }
    }
}

/// What an operation owes: where the rules refuse it, the error that stands
/// for the refusal and an unchanged game; otherwise success and the game
/// that the rules describe.
pub open spec fn outcome(
    refusal: Option<Refusal>,
    before: GameView,
    effect: GameView,
    after: GameView,
    result: Result<(), super::error::WoopError>,
) -> bool {
    match refusal {
        Some(r) => result is Err && result->Err_0@ == r && after == before,
        None => result is Ok && after == effect,
    }
}

} // verus!
