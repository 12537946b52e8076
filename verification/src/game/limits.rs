//! Where the machine integers end: what an operation needs so that its
//! result fits, and the tests that say whether it does.
use super::cycle::{aura_total, payout};
use super::game::Game;
use super::geometry::{chebyshev, distance};
use super::rules::{donation_in_range, enemy_at};
use super::state::{
    distinct_logins, distinct_names, has_name, lemma_player_index, player_index, zord_at,
    GameView, ACTION_COST, KILL_REWARD, MAX_DONATION_PER_ACTION,
};
use vstd::prelude::*;

verus! {

/// Whether the rules let `player` upgrade the zord on `(x, y)` for `cost`
/// actions: a zord of theirs stands there, and they have the actions.
pub open spec fn upgrade_allowed(g: GameView, player: Seq<char>, x: int, y: int, cost: nat) -> bool {
    &&& zord_at(g.zords, x, y) matches Some(i) && g.zords[i].owner == player
    &&& player_index(g.players, player) matches Some(j) && g.players[j].actions >= cost
}

/// Whether a shield that the rules let `player` put on the zord on `(x, y)`
/// fits within `u8`.
pub open spec fn shield_in_limits(g: GameView, player: Seq<char>, x: int, y: int) -> bool {
    upgrade_allowed(g, player, x, y, ACTION_COST as nat) ==> g.zords[zord_at(
        g.zords,
        x,
        y,
    ).unwrap()].shields < u8::MAX
}

/// Whether a step of range that the rules let `player` give the zord on
/// `(x, y)` fits within `u8`.
pub open spec fn range_in_limits(g: GameView, player: Seq<char>, x: int, y: int) -> bool {
    upgrade_allowed(g, player, x, y, (ACTION_COST / 2) as nat) ==> g.zords[zord_at(
        g.zords,
        x,
        y,
    ).unwrap()].range < u8::MAX
}

/// Whether the rules let `player` shoot from `(x_f, y_f)` at `(x_t, y_t)`
/// once the grace period is over: a zord of theirs stands at the source and
/// has the target in range, they have the actions, and a zord of another
/// player stands at the target.
pub open spec fn shot_allowed(
    g: GameView,
    player: Seq<char>,
    x_f: int,
    y_f: int,
    x_t: int,
    y_t: int,
) -> bool {
    &&& zord_at(g.zords, x_f, y_f) matches Some(i) && g.zords[i].owner == player && chebyshev(
        x_f,
        y_f,
        x_t,
        y_t,
    ) <= g.zords[i].range
    &&& player_index(g.players, player) matches Some(j) && g.players[j].actions >= ACTION_COST
    &&& enemy_at(g, player, x_t, y_t)
}

/// Whether the reward for a kill that the rules let `player` make by a shot
/// from `(x_f, y_f)` at `(x_t, y_t)` fits within `u16`.
pub open spec fn shoot_in_limits(
    g: GameView,
    player: Seq<char>,
    x_f: int,
    y_f: int,
    x_t: int,
    y_t: int,
) -> bool {
    (shot_allowed(g, player, x_f, y_f, x_t, y_t) && g.zords[zord_at(
        g.zords,
        x_t,
        y_t,
    ).unwrap()].hit().dead()) ==> g.player(player).points + KILL_REWARD <= u16::MAX
}

/// Whether the rules let `from` give `amount` points to `to`: the amount is
/// within the cap, both are players, the donor has the points and the
/// actions, and a zord of the donor has a zord of the recipient in range.
pub open spec fn donation_allowed(
    g: GameView,
    from: Seq<char>,
    to: Seq<char>,
    amount: nat,
) -> bool {
    &&& amount <= MAX_DONATION_PER_ACTION
    &&& player_index(g.players, to) is Some
    &&& player_index(g.players, from) matches Some(k) && amount <= g.players[k].points
        && g.players[k].actions >= ACTION_COST
    &&& donation_in_range(g.zords, from, to)
}

/// Whether a donation that the rules let `from` make to another player `to`
/// fits within `u16`.
pub open spec fn donate_in_limits(g: GameView, from: Seq<char>, to: Seq<char>, amount: nat) -> bool {
    (donation_allowed(g, from, to, amount) && from != to) ==> g.player(to).points + amount
        <= u16::MAX
}

/// Whether every player can take what the two totems pay them within
/// `u16`.
pub open spec fn payout_in_limits(g: GameView) -> bool {
    forall|j: int|
        0 <= j < g.players.len() ==> (#[trigger] g.players[j]).points + payout(
            g.zords,
            g.totems.0,
            g.players[j].name,
        ) + payout(g.zords, g.totems.1, g.players[j].name) <= u16::MAX
}

/// Whether the day counter can grow by one within `u8`.
pub open spec fn day_in_limits(g: GameView) -> bool {
    g.day < u8::MAX
}

impl Game {
    /// Whether the game meets its invariant.
    pub fn is_valid(&self) -> (valid: bool)
        ensures
            valid == self.wf(),
    {
        let mut i: usize = 0;
        while i < self.players.len()
            invariant
                i <= self.players.len(),
                forall|a: int, b: int|
                    0 <= a < b < i ==> (#[trigger] self@.players[a]).name != (
                    #[trigger] self@.players[b]).name,
            decreases self.players.len() - i,
        {
            let mut k: usize = 0;
            while k < i
                invariant
                    k <= i,
                    i < self.players.len(),
                    forall|a: int|
                        0 <= a < k ==> (#[trigger] self@.players[a]).name != self@.players[i as int].name,
                decreases i - k,
            {
                if self.players[k].name == self.players[i].name {
                    assert(self@.players[k as int].name == self@.players[i as int].name);
                    return false;
                }
                k += 1;
            }
            i += 1;
        }
        let mut i: usize = 0;
        while i < self.auth.len()
            invariant
                i <= self.auth.len(),
                distinct_names(self@.players),
                forall|a: int, b: int|
                    0 <= a < b < i ==> (#[trigger] self@.auth[a]).0 != (#[trigger] self@.auth[b]).0,
            decreases self.auth.len() - i,
        {
            let mut k: usize = 0;
            while k < i
                invariant
                    k <= i,
                    i < self.auth.len(),
                    forall|a: int| 0 <= a < k ==> (#[trigger] self@.auth[a]).0 != self@.auth[i as int].0,
                decreases i - k,
            {
                if self.auth[k].0 == self.auth[i].0 {
                    assert(self@.auth[k as int].0 == self@.auth[i as int].0);
                    return false;
                }
                k += 1;
            }
            i += 1;
        }
        let mut i: usize = 0;
        while i < self.zords.len()
            invariant
                i <= self.zords.len(),
                distinct_names(self@.players),
                distinct_logins(self@.auth),
                forall|a: int|
                    0 <= a < i ==> !(#[trigger] self@.zords[a]).dead() && has_name(
                        self@.players,
                        self@.zords[a].owner,
                    ),
            decreases self.zords.len() - i,
        {
            if self.zords[i].hp == 0 {
                assert(self@.zords[i as int].dead());
                return false;
            }
            proof {
                lemma_player_index(self@.players, self@.zords[i as int].owner);
            }
            if self.find_player(self.zords[i].owner.as_str()).is_none() {
                return false;
            }
            i += 1;
        }
        true
    }

    /// Whether the rules let `player` upgrade the zord on `(x, y)` for
    /// `cost` actions; with the index of the zord where they do.
    pub fn upgrade_target(&self, player: &str, x: i16, y: i16, cost: u8) -> (target: Option<usize>)
        ensures
            target is Some == upgrade_allowed(self@, player@, x as int, y as int, cost as nat),
            target matches Some(i) ==> zord_at(self@.zords, x as int, y as int) == Some(i as int)
                && i < self.zords.len(),
    {
        let i = match self.find_zord(x, y) {
            Some(i) => i,
            None => {
                return None;
            },
        };
        if !(self.zords[i].owner == player.to_owned()) {
            return None;
        }
        match self.find_player(player) {
            Some(j) => if self.players[j].actions >= cost {
                Some(i)
            } else {
                None
            },
            None => None,
        }
    }

    /// Whether a shield that the rules let `player` put on the zord on
    /// `(x, y)` fits within `u8`.
    pub fn shield_fits(&self, player: &str, x: i16, y: i16) -> (fits: bool)
        ensures
            fits == shield_in_limits(self@, player@, x as int, y as int),
    {
        match self.upgrade_target(player, x, y, ACTION_COST) {
            Some(i) => self.zords[i].shields < u8::MAX,
            None => true,
        }
    }

    /// Whether a step of range that the rules let `player` give the zord on
    /// `(x, y)` fits within `u8`.
    pub fn range_fits(&self, player: &str, x: i16, y: i16) -> (fits: bool)
        ensures
            fits == range_in_limits(self@, player@, x as int, y as int),
    {
        match self.upgrade_target(player, x, y, ACTION_COST / 2) {
            Some(i) => self.zords[i].range < u8::MAX,
            None => true,
        }
    }

    /// Whether the reward for a kill that the rules let `player` make by a
    /// shot from `(x_f, y_f)` at `(x_t, y_t)` fits within `u16`.
    pub fn shot_fits(&self, player: &str, x_f: i16, y_f: i16, x_t: i16, y_t: i16) -> (fits: bool)
        ensures
            fits == shoot_in_limits(
                self@,
                player@,
                x_f as int,
                y_f as int,
                x_t as int,
                y_t as int,
            ),
    {
        let name = player.to_owned();
        let i = match self.find_zord(x_f, y_f) {
            Some(i) => i,
            None => {
                return true;
            },
        };
        if !(self.zords[i].owner == name) || distance(x_f, y_f, x_t, y_t)
            > self.zords[i].range as u16 {
            return true;
        }
        let j = match self.find_player(player) {
            Some(j) => j,
            None => {
                return true;
            },
        };
        if self.players[j].actions < ACTION_COST {
            return true;
        }
        let t = match self.find_zord(x_t, y_t) {
            Some(t) => t,
            None => {
                return true;
            },
        };
        if self.zords[t].owner == name {
            return true;
        }
        let z = &self.zords[t];
        let dies = z.hp == 0 || (z.shields == 0 && z.hp == 1);
        !dies || self.players[j].points <= u16::MAX - KILL_REWARD
    }

    /// Whether a donation that the rules let `from` make to another player
    /// `to` fits within `u16`.
    pub fn donation_fits(&self, from: &str, to: &str, amount: u16) -> (fits: bool)
        ensures
            fits == donate_in_limits(self@, from@, to@, amount as nat),
    {
        if amount > MAX_DONATION_PER_ACTION {
            return true;
        }
        if from.to_owned() == to.to_owned() {
            return true;
        }
        let receiver = match self.find_player(to) {
            Some(j) => j,
            None => {
                return true;
            },
        };
        let donor = match self.find_player(from) {
            Some(k) => k,
            None => {
                return true;
            },
        };
        if amount > self.players[donor].points || self.players[donor].actions < ACTION_COST {
            return true;
        }
        if !self.donation_reaches(from, to) {
            return true;
        }
        self.players[receiver].points <= u16::MAX - amount
    }

    /// Whether every player can take what the two totems pay them within
    /// `u16`, and the day counter can grow by one within `u8`.
    pub fn day_fits(&self) -> (fits: bool)
        ensures
            fits == (payout_in_limits(self@) && day_in_limits(self@)),
    {
        if self.day == u8::MAX {
            return false;
        }
        let (x0, y0) = (self.totems.0.x, self.totems.0.y);
        let (x1, y1) = (self.totems.1.x, self.totems.1.y);
        let total0 = self.count_in_aura(x0, y0);
        let total1 = self.count_in_aura(x1, y1);
        let mut j: usize = 0;
        while j < self.players.len()
            invariant
                j <= self.players.len(),
                total0 == aura_total(self@.zords, self@.totems.0),
                total1 == aura_total(self@.zords, self@.totems.1),
                (x0, y0) == (self.totems.0.x, self.totems.0.y),
                (x1, y1) == (self.totems.1.x, self.totems.1.y),
                forall|k: int|
                    0 <= k < j ==> (#[trigger] self@.players[k]).points + payout(
                        self@.zords,
                        self@.totems.0,
                        self@.players[k].name,
                    ) + payout(self@.zords, self@.totems.1, self@.players[k].name) <= u16::MAX,
            decreases self.players.len() - j,
        {
            let name = self.players[j].name.as_str();
            let first = self.share_of(x0, y0, total0, name);
            let second = self.share_of(x1, y1, total1, name);
            if self.players[j].points as u32 + first as u32 + second as u32 > u16::MAX as u32 {
                assert(self@.players[j as int].points + payout(
                    self@.zords,
                    self@.totems.0,
                    self@.players[j as int].name,
                ) + payout(self@.zords, self@.totems.1, self@.players[j as int].name) > u16::MAX);
                return false;
            }
            j += 1;
        }
        true
    }
}

} // verus!
