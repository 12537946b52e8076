//! The six things a player can do: shoot, move, shield, raise the range,
//! donate and build. Each comes twice: at a given time, with an exact
//! contract, and at the time of the system clock.
use super::clock::unix_timestamp;
use super::error::WoopError;
use super::game::Game;
use super::geometry::{chebyshev, distance, in_bounds, on_board};
use super::laws::{law_move, law_shot_strikes_target};
use super::limits::{donate_in_limits, range_in_limits, shield_in_limits, shoot_in_limits};
use super::rules::{
    build_effect, build_refusal, donate_effect, donate_refusal, donation_in_range, move_effect,
    move_refusal, range_effect, range_refusal, shield_effect, shield_refusal, shoot_effect,
    shoot_refusal, target_struck, within_reach,
};
use super::seqs::{lemma_keep_all, lemma_keep_remove};
use super::state::{
    alive, lemma_player_index, living, outcome, owns_any, zord_at, ACTION_COST, GRACE_PERIOD,
    KILL_REWARD, MAX_DONATION_PER_ACTION, NEW_ZORD_COST,
};
use super::validity::{
    lemma_build_keeps_wf, lemma_credit, lemma_debit, lemma_donate_keeps_wf, lemma_move_keeps_wf,
    lemma_owner_exists, lemma_range_keeps_wf, lemma_shield_keeps_wf, lemma_shoot_keeps_wf,
    lemma_spend,
};
use super::zord::Zord;
use vstd::prelude::*;

verus! {

impl Game {
    /// Puts one shield on the zord on `(x, y)` for `player`. The event is
    /// stamped with the time of the system clock.
    pub fn generate_shield(&mut self, player: &str, x: i16, y: i16) -> (result: Result<
        (),
        WoopError,
    >)
        requires
            old(self).wf(),
            shield_in_limits(old(self)@, player@, x as int, y as int),
        ensures
            final(self).wf(),
            exists|now: nat|
                outcome(
                    shield_refusal(old(self)@, player@, x as int, y as int),
                    old(self)@,
                    #[trigger] shield_effect(old(self)@, player@, x as int, y as int, now),
                    final(self)@,
                    result,
                ),
    {
        let now = unix_timestamp();
        self.generate_shield_at(player, x, y, now)
    }

    /// Raises the range of the zord on `(x, y)` by one for `player`. The
    /// event is stamped with the time of the system clock.
    pub fn increase_range(&mut self, player: &str, x: i16, y: i16) -> (result: Result<
        (),
        WoopError,
    >)
        requires
            old(self).wf(),
            range_in_limits(old(self)@, player@, x as int, y as int),
        ensures
            final(self).wf(),
            exists|now: nat|
                outcome(
                    range_refusal(old(self)@, player@, x as int, y as int),
                    old(self)@,
                    #[trigger] range_effect(old(self)@, player@, x as int, y as int, now),
                    final(self)@,
                    result,
                ),
    {
        let now = unix_timestamp();
        self.increase_range_at(player, x, y, now)
    }

    /// Moves the zord on `(x_f, y_f)` to `(x_t, y_t)` for `player`. The event
    /// is stamped with the time of the system clock.
    pub fn move_zord(&mut self, player: &str, x_f: i16, y_f: i16, x_t: i16, y_t: i16) -> (result:
        Result<(), WoopError>)
        requires
            old(self).wf(),
        ensures
            final(self).wf(),
            exists|now: nat|
                outcome(
                    move_refusal(
                        old(self)@,
                        player@,
                        x_f as int,
                        y_f as int,
                        x_t as int,
                        y_t as int,
                    ),
                    old(self)@,
                    #[trigger] move_effect(
                        old(self)@,
                        player@,
                        x_f as int,
                        y_f as int,
                        x_t as int,
                        y_t as int,
                        now,
                    ),
                    final(self)@,
                    result,
                ),
            result is Ok ==> !old(self)@.occupied(x_t as int, y_t as int) && on_board(
                x_t as int,
                y_t as int,
            ) && final(self)@.player(player@).actions + chebyshev(
                x_f as int,
                y_f as int,
                x_t as int,
                y_t as int,
            ) == old(self)@.player(player@).actions,
    {
        let now = unix_timestamp();
        self.move_zord_at(player, x_f, y_f, x_t, y_t, now)
    }

    /// Builds a zord on `(x, y)` for `player`. The event is stamped with the
    /// time of the system clock.
    pub fn build_zord(&mut self, player: &str, x: i16, y: i16) -> (result: Result<(), WoopError>)
        requires
            old(self).wf(),
        ensures
            final(self).wf(),
            exists|now: nat|
                outcome(
                    build_refusal(old(self)@, player@, x as int, y as int),
                    old(self)@,
                    #[trigger] build_effect(old(self)@, player@, x as int, y as int, now),
                    final(self)@,
                    result,
                ),
    {
        let now = unix_timestamp();
        self.build_zord_at(player, x, y, now)
    }

    /// Gives `amount` points of `from` to `to`. The event is stamped with the
    /// time of the system clock.
    pub fn donate_points(&mut self, from: &str, to: &str, amount: u16) -> (result: Result<
        (),
        WoopError,
    >)
        requires
            old(self).wf(),
            donate_in_limits(old(self)@, from@, to@, amount as nat),
        ensures
            final(self).wf(),
            exists|now: nat|
                outcome(
                    donate_refusal(old(self)@, from@, to@, amount as nat),
                    old(self)@,
                    #[trigger] donate_effect(old(self)@, from@, to@, amount as nat, now),
                    final(self)@,
                    result,
                ),
            result is Ok ==> amount <= MAX_DONATION_PER_ACTION && donation_in_range(
                old(self)@.zords,
                from@,
                to@,
            ),
            !donation_in_range(old(self)@.zords, from@, to@) ==> result is Err && final(self)@ == old(
                self,
            )@,
    {
        let now = unix_timestamp();
        self.donate_points_at(from, to, amount, now)
    }

    /// Shoots from the zord on `(x_f, y_f)` at the zord on `(x_t, y_t)` for
    /// `player`. The system clock says whether the grace period is over, and
    /// stamps the event.
    pub fn player_shoot(&mut self, player: &str, x_f: i16, y_f: i16, x_t: i16, y_t: i16) -> (result:
        Result<(), WoopError>)
        requires
            old(self).wf(),
            shoot_in_limits(
                old(self)@,
                player@,
                x_f as int,
                y_f as int,
                x_t as int,
                y_t as int,
            ),
        ensures
            final(self).wf(),
            exists|now: nat|
                outcome(
                    shoot_refusal(
                        old(self)@,
                        player@,
                        x_f as int,
                        y_f as int,
                        x_t as int,
                        y_t as int,
                        now,
                    ),
                    old(self)@,
                    #[trigger] shoot_effect(
                        old(self)@,
                        player@,
                        x_f as int,
                        y_f as int,
                        x_t as int,
                        y_t as int,
                        now,
                    ),
                    final(self)@,
                    result,
                ),
            (zord_at(old(self)@.zords, x_t as int, y_t as int) matches Some(t) && old(
                self,
            )@.zords[t].owner == player@) ==> result is Err,
            forall|i: int|
                0 <= i < final(self)@.zords.len() ==> (#[trigger] final(self)@.zords[i]).hp > 0,
            result is Ok ==> target_struck(
                old(self)@.zords,
                final(self)@.zords,
                x_t as int,
                y_t as int,
            ),
    {
        let now = unix_timestamp();
        self.player_shoot_at(player, x_f, y_f, x_t, y_t, now)
    }

    /// Puts one shield on the zord on `(x, y)` for `player`, at time `now`.
    pub fn generate_shield_at(&mut self, player: &str, x: i16, y: i16, now: u64) -> (result:
        Result<(), WoopError>)
        requires
            old(self).wf(),
            shield_in_limits(old(self)@, player@, x as int, y as int),
        ensures
            final(self).wf(),
            outcome(
                shield_refusal(old(self)@, player@, x as int, y as int),
                old(self)@,
                shield_effect(old(self)@, player@, x as int, y as int, now as nat),
                final(self)@,
                result,
            ),
    {
        let i = match self.find_zord(x, y) {
            None => {
                return WoopError::zord_not_found(x, y);
            },
            Some(i) => i,
        };
        let name = player.to_owned();
        if !(self.zords[i].owner == name) {
            return WoopError::not_owned(x, y);
        }
        proof {
            lemma_owner_exists(self@, i as int);
        }
        let j = self.find_player(player).unwrap();
        if self.players[j].actions < ACTION_COST {
            return WoopError::out_of_actions();
        }
        let owner = &mut self.players[j];
        owner.spend_action(ACTION_COST);
        let zord = &mut self.zords[i];
        zord.generate_shield();
        self.logged_actions.generate_shield(player, (x, y), now);
        proof {
            let effect = shield_effect(old(self)@, player@, x as int, y as int, now as nat);
            assert(self@.players =~= effect.players);
            assert(self@.zords =~= effect.zords);
            lemma_shield_keeps_wf(old(self)@, player@, x as int, y as int, now as nat);
        }
        Ok(())
    }

    /// Raises the range of the zord on `(x, y)` by one for `player`, at time
    /// `now`.
    pub fn increase_range_at(&mut self, player: &str, x: i16, y: i16, now: u64) -> (result: Result<
        (),
        WoopError,
    >)
        requires
            old(self).wf(),
            range_in_limits(old(self)@, player@, x as int, y as int),
        ensures
            final(self).wf(),
            outcome(
                range_refusal(old(self)@, player@, x as int, y as int),
                old(self)@,
                range_effect(old(self)@, player@, x as int, y as int, now as nat),
                final(self)@,
                result,
            ),
    {
        let i = match self.find_zord(x, y) {
            None => {
                return WoopError::zord_not_found(x, y);
            },
            Some(i) => i,
        };
        let name = player.to_owned();
        if !(self.zords[i].owner == name) {
            return WoopError::not_owned(x, y);
        }
        proof {
            lemma_owner_exists(self@, i as int);
        }
        let j = self.find_player(player).unwrap();
        if self.players[j].actions < ACTION_COST / 2 {
            return WoopError::out_of_actions();
        }
        let owner = &mut self.players[j];
        owner.spend_action(ACTION_COST / 2);
        let zord = &mut self.zords[i];
        zord.increase_range();
        self.logged_actions.increase_range(player, (x, y), now);
        proof {
            let effect = range_effect(old(self)@, player@, x as int, y as int, now as nat);
            assert(self@.players =~= effect.players);
            assert(self@.zords =~= effect.zords);
            lemma_range_keeps_wf(old(self)@, player@, x as int, y as int, now as nat);
        }
        Ok(())
    }

    /// Moves the zord on `(x_f, y_f)` to `(x_t, y_t)` for `player`, at time
    /// `now`.
    pub fn move_zord_at(
        &mut self,
        player: &str,
        x_f: i16,
        y_f: i16,
        x_t: i16,
        y_t: i16,
        now: u64,
    ) -> (result: Result<(), WoopError>)
        requires
            old(self).wf(),
        ensures
            final(self).wf(),
            outcome(
                move_refusal(old(self)@, player@, x_f as int, y_f as int, x_t as int, y_t as int),
                old(self)@,
                move_effect(
                    old(self)@,
                    player@,
                    x_f as int,
                    y_f as int,
                    x_t as int,
                    y_t as int,
                    now as nat,
                ),
                final(self)@,
                result,
            ),
            result is Ok ==> !old(self)@.occupied(x_t as int, y_t as int) && on_board(
                x_t as int,
                y_t as int,
            ) && final(self)@.player(player@).actions + chebyshev(
                x_f as int,
                y_f as int,
                x_t as int,
                y_t as int,
            ) == old(self)@.player(player@).actions,
    {
        if self.is_occupied(x_t, y_t) {
            return WoopError::cell_occupied(x_t, y_t);
        }
        let i = match self.find_zord(x_f, y_f) {
            None => {
                return WoopError::zord_not_found(x_f, y_f);
            },
            Some(i) => i,
        };
        let name = player.to_owned();
        if !(self.zords[i].owner == name) {
            return WoopError::not_owned(x_f, y_f);
        }
        proof {
            lemma_owner_exists(self@, i as int);
        }
        let j = self.find_player(player).unwrap();
        let cost = distance(x_f, y_f, x_t, y_t);
        if cost > self.players[j].actions as u16 {
            return WoopError::not_in_range(x_f, y_f, x_t, y_t);
        }
        if !in_bounds(x_t, y_t) {
            return WoopError::out_of_bounds(x_t, y_t);
        }
        if (self.players[j].actions as u16) < cost {
            return WoopError::out_of_actions();
        }
        let owner = &mut self.players[j];
        owner.spend_action(cost as u8);
        let zord = &mut self.zords[i];
        zord.set_coord(x_t, y_t);
        self.logged_actions.move_zord(player, (x_f, y_f), (x_t, y_t), now);
        proof {
            let effect = move_effect(
                old(self)@,
                player@,
                x_f as int,
                y_f as int,
                x_t as int,
                y_t as int,
                now as nat,
            );
            assert(self@.players =~= effect.players);
            assert(self@.zords =~= effect.zords);
            lemma_move_keeps_wf(
                old(self)@,
                player@,
                x_f as int,
                y_f as int,
                x_t as int,
                y_t as int,
                now as nat,
            );
            law_move(
                old(self)@,
                player@,
                x_f as int,
                y_f as int,
                x_t as int,
                y_t as int,
                now as nat,
            );
        }
        Ok(())
    }

    /// Builds a zord on `(x, y)` for `player`, at time `now`.
    pub fn build_zord_at(&mut self, player: &str, x: i16, y: i16, now: u64) -> (result: Result<
        (),
        WoopError,
    >)
        requires
            old(self).wf(),
        ensures
            final(self).wf(),
            outcome(
                build_refusal(old(self)@, player@, x as int, y as int),
                old(self)@,
                build_effect(old(self)@, player@, x as int, y as int, now as nat),
                final(self)@,
                result,
            ),
    {
        let near = match self.find_nearby(player, x, y) {
            None => {
                return WoopError::no_zord_nearby(x, y);
            },
            Some(i) => i,
        };
        proof {
            lemma_owner_exists(self@, near as int);
        }
        let j = self.find_player(player).unwrap();
        if self.players[j].actions == 0 {
            return WoopError::out_of_actions();
        }
        if self.players[j].points < NEW_ZORD_COST {
            return WoopError::not_enough_points(self.players[j].points, NEW_ZORD_COST);
        }
        if self.is_occupied(x, y) {
            return WoopError::cell_occupied(x, y);
        }
        if self.players[j].actions < ACTION_COST {
            return WoopError::out_of_actions();
        }
        let owner = &mut self.players[j];
        owner.spend_action(ACTION_COST);
        owner.points = owner.points - NEW_ZORD_COST;
        let mut zord = Zord::new(player, x, y);
        zord.hit();
        self.zords.push(zord);
        self.logged_actions.build_zord(player, (x, y), now);
        proof {
            let g = old(self)@;
            lemma_spend(g, player@, ACTION_COST as nat);
            let effect = build_effect(g, player@, x as int, y as int, now as nat);
            assert(self@.players =~= effect.players);
            assert(self@.zords =~= effect.zords);
            lemma_build_keeps_wf(g, player@, x as int, y as int, now as nat);
        }
        Ok(())
    }

    /// Gives `amount` points of `from` to `to`, at time `now`.
    pub fn donate_points_at(&mut self, from: &str, to: &str, amount: u16, now: u64) -> (result:
        Result<(), WoopError>)
        requires
            old(self).wf(),
            donate_in_limits(old(self)@, from@, to@, amount as nat),
        ensures
            final(self).wf(),
            outcome(
                donate_refusal(old(self)@, from@, to@, amount as nat),
                old(self)@,
                donate_effect(old(self)@, from@, to@, amount as nat, now as nat),
                final(self)@,
                result,
            ),
            result is Ok ==> amount <= MAX_DONATION_PER_ACTION && donation_in_range(
                old(self)@.zords,
                from@,
                to@,
            ),
            !donation_in_range(old(self)@.zords, from@, to@) ==> result is Err && final(self)@ == old(
                self,
            )@,
    {
        if amount > MAX_DONATION_PER_ACTION {
            return WoopError::donation_limit();
        }
        let receiver = match self.find_player(to) {
            None => {
                return WoopError::player_not_found(to);
            },
            Some(j) => j,
        };
        let donor = match self.find_player(from) {
            None => {
                return WoopError::player_not_found(from);
            },
            Some(j) => j,
        };
        if amount > self.players[donor].points {
            return WoopError::not_enough_points(self.players[donor].points, amount);
        }
        if !self.donation_reaches(from, to) {
            return WoopError::donation_out_of_range();
        }
        if self.players[donor].actions < ACTION_COST {
            return WoopError::out_of_actions();
        }
        let giver = &mut self.players[donor];
        giver.spend_action(ACTION_COST);
        giver.points = giver.points - amount;
        let taker = &mut self.players[receiver];
        taker.points = taker.points + amount;
        self.logged_actions.donate_points(from, to, now);
        proof {
            let g = old(self)@;
            lemma_player_index(g.players, from@);
            lemma_player_index(g.players, to@);
            lemma_spend(g, from@, ACTION_COST as nat);
            let spent = g.spend(from@, ACTION_COST as nat);
            lemma_debit(spent, from@, amount as nat);
            let effect = donate_effect(g, from@, to@, amount as nat, now as nat);
            assert(self@.players =~= effect.players);
            lemma_donate_keeps_wf(g, from@, to@, amount as nat, now as nat);
        }
        Ok(())
    }

    /// Shoots from the zord on `(x_f, y_f)` at the zord on `(x_t, y_t)` for
    /// `player`, at time `now`.
    pub fn player_shoot_at(
        &mut self,
        player: &str,
        x_f: i16,
        y_f: i16,
        x_t: i16,
        y_t: i16,
        now: u64,
    ) -> (result: Result<(), WoopError>)
        requires
            old(self).wf(),
            shoot_in_limits(
                old(self)@,
                player@,
                x_f as int,
                y_f as int,
                x_t as int,
                y_t as int,
            ),
        ensures
            final(self).wf(),
            outcome(
                shoot_refusal(
                    old(self)@,
                    player@,
                    x_f as int,
                    y_f as int,
                    x_t as int,
                    y_t as int,
                    now as nat,
                ),
                old(self)@,
                shoot_effect(
                    old(self)@,
                    player@,
                    x_f as int,
                    y_f as int,
                    x_t as int,
                    y_t as int,
                    now as nat,
                ),
                final(self)@,
                result,
            ),
            (zord_at(old(self)@.zords, x_t as int, y_t as int) matches Some(t) && old(
                self,
            )@.zords[t].owner == player@) ==> result is Err,
            forall|i: int|
                0 <= i < final(self)@.zords.len() ==> (#[trigger] final(self)@.zords[i]).hp > 0,
            result is Ok ==> target_struck(
                old(self)@.zords,
                final(self)@.zords,
                x_t as int,
                y_t as int,
            ),
    {
        let i = match self.find_zord(x_f, y_f) {
            None => {
                return WoopError::zord_not_found(x_f, y_f);
            },
            Some(i) => i,
        };
        let name = player.to_owned();
        if !(self.zords[i].owner == name) {
            return WoopError::not_owned(x_f, y_f);
        }
        if distance(x_f, y_f, x_t, y_t) > self.zords[i].range as u16 {
            return WoopError::not_in_range(x_f, y_f, x_t, y_t);
        }
        if now <= self.start_of_day || now - self.start_of_day <= GRACE_PERIOD {
            return WoopError::within_grace_period();
        }
        proof {
            lemma_owner_exists(self@, i as int);
        }
        let shooter = self.find_player(player).unwrap();
        if self.players[shooter].actions == 0 {
            return WoopError::out_of_actions();
        }
        let t = match self.find_zord(x_t, y_t) {
            None => {
                return WoopError::own_zord();
            },
            Some(t) => t,
        };
        if self.zords[t].owner == name {
            return WoopError::own_zord();
        }
        if self.players[shooter].actions < ACTION_COST {
            return WoopError::out_of_actions();
        }
        let victim = self.zords[t].owner.clone();
        let owner = &mut self.players[shooter];
        owner.spend_action(ACTION_COST);
        let target = &mut self.zords[t];
        if target.hit() {
            let owner = &mut self.players[shooter];
            owner.points = owner.points + KILL_REWARD;
        }
        let ghost hit = self@.zords;
        self.clear_dead();
        proof {
            let g = old(self)@;
            assert(hit =~= g.zords.update(t as int, g.zords[t as int].hit()));
            lemma_owner_exists(g, t as int);
            lemma_player_index(g.players, player@);
            lemma_spend(g, player@, ACTION_COST as nat);
            let paid = g.spend(player@, ACTION_COST as nat);
            lemma_credit(paid, player@, KILL_REWARD as nat);
            let rewarded = if g.zords[t as int].hit().dead() {
                paid.credit(player@, KILL_REWARD as nat)
            } else {
                paid
            };
            assert(self@.players =~= rewarded.players);
        }
        if !self.owns_zord(victim.as_str()) {
            let loser = self.find_player(victim.as_str()).unwrap();
            let owner = &mut self.players[loser];
            owner.points = ((owner.points as u32) * 2 / 3) as u16;
        }
        self.logged_actions.shoot(player, (x_f, y_f), (x_t, y_t), victim.as_str(), now);
        proof {
            let g = old(self)@;
            let effect = shoot_effect(
                g,
                player@,
                x_f as int,
                y_f as int,
                x_t as int,
                y_t as int,
                now as nat,
            );
            assert(self@.players =~= effect.players);
            lemma_shoot_keeps_wf(
                g,
                player@,
                x_f as int,
                y_f as int,
                x_t as int,
                y_t as int,
                now as nat,
            );
            law_shot_strikes_target(
                g,
                player@,
                x_f as int,
                y_f as int,
                x_t as int,
                y_t as int,
                now as nat,
            );
        }
        Ok(())
    }

    /// Takes every zord without hit points off the board.
    pub fn clear_dead(&mut self)
        ensures
            final(self)@ == old(self)@.with_zords(living(old(self)@.zords)),
    {
        let mut i: usize = 0;
        while i < self.zords.len()
            invariant
                i <= self.zords.len(),
                living(self@.zords) == living(old(self)@.zords),
                forall|k: int| 0 <= k < i ==> !(#[trigger] self@.zords[k]).dead(),
                self@.with_zords(old(self)@.zords) == old(self)@,
            decreases self.zords.len() - i,
        {
            if self.zords[i].hp == 0 {
                let ghost before = self@.zords;
                self.zords.remove(i);
                proof {
                    assert(self@.zords =~= before.remove(i as int));
                    lemma_keep_remove(before, alive(), i as int);
                }
            } else {
                i += 1;
            }
        }
        proof {
            lemma_keep_all(self@.zords, alive());
        }
    }

    /// Whether some zord on the board belongs to `player`.
    pub fn owns_zord(&self, player: &str) -> (owns: bool)
        ensures
            owns == owns_any(self@.zords, player@),
    {
        let name = player.to_owned();
        let mut i: usize = 0;
        while i < self.zords.len()
            invariant
                i <= self.zords.len(),
                name@ == player@,
                forall|k: int| 0 <= k < i ==> (#[trigger] self@.zords[k]).owner != player@,
            decreases self.zords.len() - i,
        {
            if self.zords[i].owner == name {
                assert(self@.zords[i as int].owner == player@);
                return true;
            }
            i += 1;
        }
        false
    }

    /// Whether some zord of `from` has some zord of `to` within its range.
    /// Every zord of the one is held against every zord of the other.
    pub fn donation_reaches(&self, from: &str, to: &str) -> (reaches: bool)
        ensures
            reaches == donation_in_range(self@.zords, from@, to@),
    {
        let donor = from.to_owned();
        let receiver = to.to_owned();
        let mut s: usize = 0;
        while s < self.zords.len()
            invariant
                s <= self.zords.len(),
                donor@ == from@,
                receiver@ == to@,
                forall|a: int, b: int|
                    0 <= a < s && 0 <= b < self.zords.len() ==> !within_reach(
                        #[trigger] self@.zords[a],
                        #[trigger] self@.zords[b],
                        from@,
                        to@,
                    ),
            decreases self.zords.len() - s,
        {
            if self.zords[s].owner == donor {
                let mut t: usize = 0;
                while t < self.zords.len()
                    invariant
                        s < self.zords.len(),
                        t <= self.zords.len(),
                        receiver@ == to@,
                        self@.zords[s as int].owner == from@,
                        forall|b: int|
                            0 <= b < t ==> !within_reach(
                                self@.zords[s as int],
                                #[trigger] self@.zords[b],
                                from@,
                                to@,
                            ),
                    decreases self.zords.len() - t,
                {
                    if self.zords[t].owner == receiver && distance(
                        self.zords[s].x,
                        self.zords[s].y,
                        self.zords[t].x,
                        self.zords[t].y,
                    ) <= self.zords[s].range as u16 {
                        assert(within_reach(
                            self@.zords[s as int],
                            self@.zords[t as int],
                            from@,
                            to@,
                        ));
                        return true;
                    }
                    t += 1;
                }
            }
            s += 1;
        }
        false
    }
}

} // verus!
