//! The day's turn: the totems pay out, the totems move, players without a
//! zord respawn, and actions, ranges and shields are reset.
use super::clock::unix_timestamp;
use super::cycle::{
    admissible, aura_share, aura_total, dawn, in_aura, in_aura_of, joined_by_fresh,
    new_day_choice, new_day_result, paid, paid_by, paid_players, payout, payout_events,
    relocated, respawn_order, respawned, respawned_all, respawns_logged, rested, total_payout,
    zordless,
};
use super::game::Game;
use super::geometry::{distance, on_board};
use super::laws::{
    law_new_day_resets, law_new_day_respawns, law_respawn_gives_one_zord,
    law_totem_pays_at_most_reward,
};
use super::limits::{day_in_limits, payout_in_limits};
use super::log::Event;
use super::player::{PlayerView, BASE_ACTIONS};
use super::random::random_below;
use super::seqs::{count, lemma_count_implies, lemma_count_take};
use super::spawn::lemma_no_sites;
use super::state::{distinct_names, owned, owns_any, TOTEM_AURA, TOTEM_REWARD};
use super::totem::TotemView;
use super::validity::{
    lemma_add_zord, lemma_paid_keeps_wf, lemma_relocated_keeps_wf, lemma_rested_keeps_wf,
};
use super::zord::{Zord, ZordView, BASE_HP, BASE_RANGE};
use vstd::prelude::*;

verus! {

/// A totem never pays more than its reward to one player.
pub proof fn lemma_payout_bounded(zords: Seq<super::zord::ZordView>, totem: TotemView, name: Seq<char>)
    ensures
        aura_share(zords, totem, name) <= aura_total(zords, totem),
        payout(zords, totem, name) <= TOTEM_REWARD,
        aura_share(zords, totem, name) == 0 ==> payout(zords, totem, name) == 0,
{
    let share = aura_share(zords, totem, name) as int;
    let total = aura_total(zords, totem) as int;
    assert forall|j: int| 0 <= j < zords.len() && in_aura_of(totem, name)(
        #[trigger] zords[j],
    ) implies in_aura(totem)(zords[j]) by {}
    lemma_count_implies(zords, in_aura_of(totem, name), in_aura(totem));
    if total > 0 {
        assert(50 * share / total <= 50) by (nonlinear_arith)
            requires
                share <= total,
                total > 0,
        ;
        assert(50 * share / total >= 0) by (nonlinear_arith)
            requires
                share >= 0,
                total > 0,
        ;
        if share == 0 {
            assert(50 * share / total == 0) by (nonlinear_arith)
                requires
                    share == 0,
                    total > 0,
            ;
        }
    }
}

/// The points that a totem with `total` zords in its aura pays for `many` of
/// them: the reward times their share, rounded down.
pub fn reward_for(many: usize, total: usize) -> (amount: u16)
    requires
        many <= total,
    ensures
        amount == if total == 0 {
            0
        } else {
            TOTEM_REWARD * many / (total as int)
        },
        amount <= TOTEM_REWARD,
{
    if total == 0 {
        return 0;
    }
    assert(50 * many / (total as int) <= 50) by (nonlinear_arith)
        requires
            many <= total,
            total > 0,
    ;
    ((TOTEM_REWARD as u128) * (many as u128) / (total as u128)) as u16
}

impl Game {
    /// Number of zords within the aura of a totem on `(x, y)`.
    pub fn count_in_aura(&self, x: i16, y: i16) -> (n: usize)
        ensures
            n == aura_total(self@.zords, TotemView { x: x as int, y: y as int }),
    {
        let ghost totem = TotemView { x: x as int, y: y as int };
        let mut n: usize = 0;
        let mut i: usize = 0;
        while i < self.zords.len()
            invariant
                i <= self.zords.len(),
                n <= i,
                totem == (TotemView { x: x as int, y: y as int }),
                n == count(self@.zords.take(i as int), in_aura(totem)),
            decreases self.zords.len() - i,
        {
            proof {
                lemma_count_take(self@.zords, in_aura(totem), i as int);
            }
            if distance(x, y, self.zords[i].x, self.zords[i].y) <= TOTEM_AURA {
                n += 1;
            }
            i += 1;
        }
        assert(self@.zords.take(i as int) =~= self@.zords);
        n
    }

    /// Number of zords of `name` within the aura of a totem on `(x, y)`.
    pub fn count_in_aura_of(&self, x: i16, y: i16, name: &str) -> (n: usize)
        ensures
            n == aura_share(self@.zords, TotemView { x: x as int, y: y as int }, name@),
    {
        let ghost totem = TotemView { x: x as int, y: y as int };
        let owner = name.to_owned();
        let mut n: usize = 0;
        let mut i: usize = 0;
        while i < self.zords.len()
            invariant
                i <= self.zords.len(),
                n <= i,
                owner@ == name@,
                totem == (TotemView { x: x as int, y: y as int }),
                n == count(self@.zords.take(i as int), in_aura_of(totem, name@)),
            decreases self.zords.len() - i,
        {
            proof {
                lemma_count_take(self@.zords, in_aura_of(totem, name@), i as int);
            }
            if distance(x, y, self.zords[i].x, self.zords[i].y) <= TOTEM_AURA && self.zords[i].owner
                == owner {
                n += 1;
            }
            i += 1;
        }
        assert(self@.zords.take(i as int) =~= self@.zords);
        n
    }

    /// The points that a totem on `(x, y)` with `total` zords in its aura
    /// pays to `name`.
    pub fn share_of(&self, x: i16, y: i16, total: usize, name: &str) -> (amount: u16)
        requires
            total == aura_total(self@.zords, TotemView { x: x as int, y: y as int }),
        ensures
            amount == payout(self@.zords, TotemView { x: x as int, y: y as int }, name@),
            amount <= TOTEM_REWARD,
    {
        let many = self.count_in_aura_of(x, y, name);
        proof {
            lemma_payout_bounded(self@.zords, TotemView { x: x as int, y: y as int }, name@);
        }
        reward_for(many, total)
    }

    /// Pays out a totem on `(x, y)` at time `now`: every player with zords
    /// in its aura gets their share of the reward, and an event in the log.
    pub fn pay_totem(&mut self, x: i16, y: i16, now: u64)
        requires
            forall|j: int|
                0 <= j < old(self)@.players.len() ==> (#[trigger] old(self)@.players[j]).points
                    + payout(
                    old(self)@.zords,
                    TotemView { x: x as int, y: y as int },
                    old(self)@.players[j].name,
                ) <= u16::MAX,
        ensures
            final(self)@ == paid_by(
                old(self)@,
                TotemView { x: x as int, y: y as int },
                now as nat,
            ),
    {
        let ghost g = self@;
        let ghost totem = TotemView { x: x as int, y: y as int };
        let total = self.count_in_aura(x, y);
        let mut j: usize = 0;
        while j < self.players.len()
            invariant
                j <= self.players.len(),
                self.players.len() == g.players.len(),
                g == old(self)@,
                totem == (TotemView { x: x as int, y: y as int }),
                total == aura_total(g.zords, totem),
                self@.players == paid_players(g, totem, j as nat),
                self@.log == g.log + payout_events(g, totem, now as nat, j as nat),
                self@.zords == g.zords,
                self@.auth == g.auth,
                self@.totems == g.totems,
                self@.day == g.day,
                self@.start_of_day == g.start_of_day,
                forall|k: int|
                    0 <= k < g.players.len() ==> (#[trigger] g.players[k]).points + payout(
                        g.zords,
                        totem,
                        g.players[k].name,
                    ) <= u16::MAX,
            decreases self.players.len() - j,
        {
            let name = self.players[j].name.clone();
            proof {
                assert(self@.players[j as int] == paid_players(g, totem, j as nat)[j as int]);
                lemma_payout_bounded(g.zords, totem, name@);
            }
            let ghost before = self@.players;
            let many = self.count_in_aura_of(x, y, name.as_str());
            if many > 0 {
                let amount = reward_for(many, total);
                let player = &mut self.players[j];
                player.points = player.points + amount;
                self.logged_actions.totem_points(name.as_str(), (x, y), amount, now);
            }
            j += 1;
            proof {
                assert forall|k: int| 0 <= k < before.len() implies #[trigger] self@.players[k]
                    == paid_players(g, totem, j as nat)[k] by {
                    if k != j - 1 {
                        assert(self@.players[k] == before[k]);
                    }
                }
            }
        }
    }

    /// Pays out both totems at time `now`, the first totem first.
    pub fn give_out_totem_points_at(&mut self, now: u64)
        requires
            payout_in_limits(old(self)@),
        ensures
            final(self)@ == paid(old(self)@, now as nat),
            distinct_names(old(self)@.players) ==> total_payout(
                old(self)@,
                old(self)@.totems.0,
                old(self)@.players.len(),
            ) <= TOTEM_REWARD && total_payout(
                old(self)@,
                old(self)@.totems.1,
                old(self)@.players.len(),
            ) <= TOTEM_REWARD,
    {
        proof {
            if distinct_names(self@.players) {
                law_totem_pays_at_most_reward(self@, self@.totems.0);
                law_totem_pays_at_most_reward(self@, self@.totems.1);
            }
        }
        let ghost g = self@;
        let (x0, y0) = (self.totems.0.x, self.totems.0.y);
        let (x1, y1) = (self.totems.1.x, self.totems.1.y);
        proof {
            assert forall|j: int| 0 <= j < g.players.len() implies (#[trigger] g.players[j]).points
                + payout(g.zords, g.totems.0, g.players[j].name) <= u16::MAX by {
                lemma_payout_bounded(g.zords, g.totems.1, g.players[j].name);
            }
        }
        self.pay_totem(x0, y0, now);
        proof {
            let first = paid_by(g, g.totems.0, now as nat);
            assert forall|j: int| 0 <= j < first.players.len() implies (
            #[trigger] first.players[j]).points + payout(
                first.zords,
                g.totems.1,
                first.players[j].name,
            ) <= u16::MAX by {
                assert(g.players[j].points + payout(g.zords, g.totems.0, g.players[j].name)
                    + payout(g.zords, g.totems.1, g.players[j].name) <= u16::MAX);
            }
        }
        self.pay_totem(x1, y1, now);
    }

    /// Pays out both totems, the first totem first. The events are stamped
    /// with the time of the system clock.
    pub fn give_out_totem_points(&mut self)
        requires
            payout_in_limits(old(self)@),
        ensures
            exists|now: nat| final(self)@ == #[trigger] paid(old(self)@, now),
            distinct_names(old(self)@.players) ==> total_payout(
                old(self)@,
                old(self)@.totems.0,
                old(self)@.players.len(),
            ) <= TOTEM_REWARD && total_payout(
                old(self)@,
                old(self)@.totems.1,
                old(self)@.players.len(),
            ) <= TOTEM_REWARD,
    {
        let now = unix_timestamp();
        self.give_out_totem_points_at(now);
    }

    /// Moves the totems, at time `now`, to an admissible cell drawn at
    /// random and the cell opposite it. Where no cell is admissible the
    /// totems stay.
    pub fn spawn_totems_at(&mut self, now: u64)
        ensures
            (exists|x: int, y: int| admissible(old(self)@, x, y)) ==> exists|x: int, y: int|
                admissible(old(self)@, x, y) && final(self)@ == #[trigger] relocated(
                    old(self)@,
                    x,
                    y,
                    now as nat,
                ),
            (forall|x: int, y: int| !admissible(old(self)@, x, y)) ==> final(self)@ == old(self)@,
    {
        let sites = self.count_totem_sites();
        if sites == 0 {
            proof {
                lemma_no_sites(self@);
            }
            return ;
        }
        let k = random_below(sites);
        if let Some((x, y)) = self.totem_site(k) {
            self.relocate_totems(x, y, now);
        }
    }

    /// Moves the totems to an admissible cell drawn at random and the cell
    /// opposite it. Where no cell is admissible the totems stay. The events
    /// are stamped with the time of the system clock.
    pub fn spawn_totems(&mut self)
        ensures
            (exists|x: int, y: int| admissible(old(self)@, x, y)) ==> exists|
                x: int,
                y: int,
                now: nat,
            |
                admissible(old(self)@, x, y) && final(self)@ == #[trigger] relocated(
                    old(self)@,
                    x,
                    y,
                    now,
                ),
            (forall|x: int, y: int| !admissible(old(self)@, x, y)) ==> final(self)@ == old(self)@,
    {
        let now = unix_timestamp();
        self.spawn_totems_at(now);
        proof {
            if exists|x: int, y: int| admissible(old(self)@, x, y) {
                let (x, y) = choose|x: int, y: int|
                    admissible(old(self)@, x, y) && self@ == #[trigger] relocated(
                        old(self)@,
                        x,
                        y,
                        now as nat,
                    );
                assert(admissible(old(self)@, x, y) && self@ == relocated(
                    old(self)@,
                    x,
                    y,
                    now as nat,
                ));
            }
        }
    }

    /// Adds a fresh zord of `player` on `(x, y)`. Nothing is asked of the
    /// cell.
    pub fn create_zord(&mut self, player: &str, x: i16, y: i16)
        ensures
            final(self)@ == old(self)@.with_zords(
                old(self)@.zords.push(ZordView::fresh(player@, x as int, y as int)),
            ),
            old(self).wf() && old(self)@.has_player(player@) ==> final(self).wf(),
    {
        self.zords.push(Zord::new(player, x, y));
        proof {
            let zord = ZordView::fresh(player@, x as int, y as int);
            assert(self@.zords =~= old(self)@.zords.push(zord));
            if old(self).wf() && old(self)@.has_player(player@) {
                lemma_add_zord(old(self)@, zord);
            }
        }
    }

    /// Gives the player at index `j` a fresh zord on the respawn cell, at
    /// time `now`.
    pub fn respawn_player(&mut self, j: usize, now: u64)
        requires
            j < old(self).players.len(),
        ensures
            final(self)@ == respawned(old(self)@, old(self)@.players[j as int].name, now as nat),
            old(self).wf() ==> final(self).wf(),
            joined_by_fresh(old(self)@.zords, final(self)@.zords),
            final(self)@.zords.len() == old(self)@.zords.len() + 1,
    {
        let (x, y) = self.calculate_respawn_coordinates();
        let name = self.players[j].name.clone();
        self.create_zord(name.as_str(), x, y);
        self.logged_actions.respawn(name.as_str(), (x, y), now);
        proof {
            assert(old(self)@.players[j as int].name == name@);
        }
    }

    /// The indices of the players without a zord, in rising order.
    pub fn zordless_players(&self) -> (waiting: Vec<usize>)
        ensures
            forall|a: int|
                0 <= a < waiting.len() ==> (#[trigger] waiting[a]) < self.players.len()
                    && !owns_any(self@.zords, self@.players[waiting[a] as int].name),
            forall|a: int, b: int| 0 <= a < b < waiting.len() ==> waiting[a] < waiting[b],
            forall|j: int|
                0 <= j < self.players.len() && !owns_any(
                    self@.zords,
                    (#[trigger] self@.players[j]).name,
                ) ==> waiting@.contains(j as usize),
    {
        let mut waiting: Vec<usize> = Vec::new();
        let mut j: usize = 0;
        while j < self.players.len()
            invariant
                j <= self.players.len(),
                forall|a: int|
                    0 <= a < waiting.len() ==> (#[trigger] waiting[a]) < j && !owns_any(
                        self@.zords,
                        self@.players[waiting[a] as int].name,
                    ),
                forall|a: int, b: int| 0 <= a < b < waiting.len() ==> waiting[a] < waiting[b],
                forall|i: int|
                    0 <= i < j && !owns_any(self@.zords, (#[trigger] self@.players[i]).name)
                        ==> waiting@.contains(i as usize),
            decreases self.players.len() - j,
        {
            let name = self.players[j].name.clone();
            if !self.owns_zord(name.as_str()) {
                let ghost before = waiting@;
                waiting.push(j);
                proof {
                    assert(waiting@[before.len() as int] == j);
                    assert forall|i: int|
                        0 <= i < j + 1 && !owns_any(
                            self@.zords,
                            (#[trigger] self@.players[i]).name,
                        ) implies waiting@.contains(i as usize) by {
                        if i < j {
                            let a = choose|a: int| 0 <= a < before.len() && before[a] == i as usize;
                            assert(waiting@[a] == i as usize);
                        }
                    }
                }
            }
            j += 1;
        }
        waiting
    }

    /// Gives every player without a zord one fresh zord, at time `now`: one
    /// player at a time in an order drawn at random, each on the cell that
    /// is the respawn cell when their turn comes.
    pub fn respawn_players_at(&mut self, now: u64)
        requires
            old(self).wf(),
        ensures
            final(self).wf(),
            exists|order: Seq<Seq<char>>|
                respawn_order(old(self)@, order) && final(self)@ == #[trigger] respawned_all(
                    old(self)@,
                    order,
                    now as nat,
                ),
            forall|name: Seq<char>| #[trigger]
                zordless(old(self)@, name) ==> owned(final(self)@.zords, name) == 1,
            joined_by_fresh(old(self)@.zords, final(self)@.zords),
            respawns_logged(old(self)@.zords.len(), final(self)@, now as nat),
            final(self)@.log.len() == old(self)@.log.len() + final(self)@.zords.len() - old(
                self,
            )@.zords.len(),
    {
        let ghost g = self@;
        let mut waiting = self.zordless_players();
        let ghost mut done: Seq<Seq<char>> = Seq::empty();
        proof {
            assert forall|name: Seq<char>| #[trigger] zordless(g, name) implies done.contains(name)
                || exists|a: int|
                0 <= a < waiting.len() && g.players[(#[trigger] waiting[a]) as int].name == name by {
                let j = choose|j: int| 0 <= j < g.players.len() && (#[trigger] g.players[j]).name == name;
                assert(waiting@.contains(j as usize));
                let a = choose|a: int| 0 <= a < waiting.len() && waiting[a] == j as usize;
                assert(g.players[waiting[a] as int].name == name);
            }
        }
        while waiting.len() > 0
            invariant
                g == old(self)@,
                g.wf(),
                self.wf(),
                self@.players == g.players,
                self@ == respawned_all(g, done, now as nat),
                joined_by_fresh(g.zords, self@.zords),
                respawns_logged(g.zords.len(), self@, now as nat),
                self@.log.len() == g.log.len() + self@.zords.len() - g.zords.len(),
                done.no_duplicates(),
                forall|k: int| 0 <= k < done.len() ==> zordless(g, #[trigger] done[k]),
                forall|a: int|
                    0 <= a < waiting.len() ==> (#[trigger] waiting[a]) < g.players.len()
                        && !owns_any(g.zords, g.players[waiting[a] as int].name) && !done.contains(
                        g.players[waiting[a] as int].name,
                    ),
                forall|a: int, b: int| 0 <= a < b < waiting.len() ==> waiting[a] != waiting[b],
                forall|name: Seq<char>| #[trigger]
                    zordless(g, name) ==> done.contains(name) || exists|a: int|
                        0 <= a < waiting.len() && g.players[(#[trigger] waiting[a]) as int].name
                            == name,
            decreases waiting.len(),
        {
            let ghost before = waiting@;
            let ghost earlier = done;
            let ghost held = self@;
            let k = random_below(waiting.len());
            let j = waiting.remove(k);
            let ghost name = g.players[j as int].name;
            proof {
                assert(before[k as int] == j);
            }
            self.respawn_player(j, now);
            proof {
                assert forall|k: int| 0 <= k < self@.zords.len() - g.zords.len() implies (
                #[trigger] self@.log[self@.log.len() - (self@.zords.len() - g.zords.len()) + k])
                    == (Event::Respawn {
                    player: self@.zords[g.zords.len() + k].owner,
                    coord: (self@.zords[g.zords.len() + k].x, self@.zords[g.zords.len() + k].y),
                    timestamp: now as nat,
                }) by {
                    if k < held.zords.len() - g.zords.len() {
                        assert(self@.log[self@.log.len() - (self@.zords.len() - g.zords.len()) + k]
                            == held.log[held.log.len() - (held.zords.len() - g.zords.len()) + k]);
                        assert(self@.zords[g.zords.len() + k] == held.zords[g.zords.len() + k]);
                    }
                }
                done = earlier.push(name);
                assert(done.drop_last() =~= earlier);
                assert forall|a: int| 0 <= a < waiting.len() implies (#[trigger] waiting[a])
                    < g.players.len() && !owns_any(g.zords, g.players[waiting[a] as int].name)
                    && !done.contains(g.players[waiting[a] as int].name) by {
                    let b = if a < k {
                        a
                    } else {
                        a + 1
                    };
                    let other = g.players[waiting[a] as int].name;
                    if done.contains(other) {
                        let w = choose|w: int| 0 <= w < done.len() && done[w] == other;
                        if w < earlier.len() {
                            assert(earlier[w] == other);
                        }
                    }
                }
                assert forall|a: int, b: int| 0 <= a < b < waiting.len() implies waiting[a]
                    != waiting[b] by {
                    let a0 = if a < k {
                        a
                    } else {
                        a + 1
                    };
                    let b0 = if b < k {
                        b
                    } else {
                        b + 1
                    };
                }
                assert forall|name2: Seq<char>| #[trigger] zordless(g, name2) implies done.contains(
                    name2,
                ) || exists|a: int|
                    0 <= a < waiting.len() && g.players[(#[trigger] waiting[a]) as int].name
                        == name2 by {
                    if earlier.contains(name2) {
                        let w = choose|w: int| 0 <= w < earlier.len() && earlier[w] == name2;
                        assert(done[w] == name2);
                    } else if name2 == name {
                        assert(done[earlier.len() as int] == name2);
                    } else {
                        let a = choose|a: int|
                            0 <= a < before.len() && g.players[(#[trigger] before[a]) as int].name
                                == name2;
                        let a1 = if a < k {
                            a
                        } else {
                            a - 1
                        };
                        assert(waiting[a1] == before[a]);
                    }
                }
                assert forall|i: int| 0 <= i < done.len() implies zordless(g, #[trigger] done[i]) by {
                    if i < earlier.len() {
                        assert(done[i] == earlier[i]);
                    }
                }
            }
        }
        proof {
            assert forall|name: Seq<char>| #[trigger] zordless(g, name) implies done.contains(name) by {}
            assert forall|name: Seq<char>| #[trigger] zordless(g, name) implies owned(
                self@.zords,
                name,
            ) == 1 by {
                law_respawn_gives_one_zord(g, done, now as nat, name);
            }
        }
    }

    /// Gives every player without a zord one fresh zord: one player at a
    /// time in an order drawn at random, each on the cell that is the
    /// respawn cell when their turn comes. The events are stamped with the
    /// time of the system clock.
    pub fn respawn_players(&mut self)
        requires
            old(self).wf(),
        ensures
            final(self).wf(),
            exists|order: Seq<Seq<char>>, now: nat|
                respawn_order(old(self)@, order) && final(self)@ == #[trigger] respawned_all(
                    old(self)@,
                    order,
                    now,
                ),
            forall|name: Seq<char>| #[trigger]
                zordless(old(self)@, name) ==> owned(final(self)@.zords, name) == 1,
            joined_by_fresh(old(self)@.zords, final(self)@.zords),
            exists|now: nat| #[trigger] respawns_logged(old(self)@.zords.len(), final(self)@, now),
    {
        let now = unix_timestamp();
        self.respawn_players_at(now);
        proof {
            let order = choose|order: Seq<Seq<char>>|
                respawn_order(old(self)@, order) && self@ == #[trigger] respawned_all(
                    old(self)@,
                    order,
                    now as nat,
                );
            assert(respawn_order(old(self)@, order) && self@ == respawned_all(
                old(self)@,
                order,
                now as nat,
            ));
        }
    }

    /// Ends a day's turn: every player gets the full budget of actions,
    /// every zord its base range and no shields.
    pub fn rest(&mut self)
        ensures
            final(self)@ == rested(old(self)@),
    {
        let ghost g = self@;
        let mut j: usize = 0;
        while j < self.players.len()
            invariant
                j <= self.players.len(),
                self.players.len() == g.players.len(),
                self@.with_player_list(g.players) == g,
                forall|k: int|
                    0 <= k < j ==> (#[trigger] self@.players[k]) == (PlayerView {
                        actions: BASE_ACTIONS as nat,
                        ..g.players[k]
                    }),
                forall|k: int| j <= k < g.players.len() ==> (#[trigger] self@.players[k]) == g.players[k],
            decreases self.players.len() - j,
        {
            let ghost before = self@.players;
            let player = &mut self.players[j];
            player.actions = BASE_ACTIONS;
            j += 1;
            proof {
                assert forall|k: int| 0 <= k < before.len() && k != j - 1 implies (
                #[trigger] self@.players[k]) == before[k] by {}
                assert(self@.players[j - 1] == (PlayerView {
                    actions: BASE_ACTIONS as nat,
                    ..before[j - 1]
                }));
            }
        }
        let ghost h = self@;
        let mut i: usize = 0;
        while i < self.zords.len()
            invariant
                i <= self.zords.len(),
                self.zords.len() == g.zords.len(),
                h.zords == g.zords,
                h.players == rested(g).players,
                h == g.with_player_list(h.players),
                self@.with_zords(g.zords) == h,
                forall|k: int| 0 <= k < i ==> (#[trigger] self@.zords[k]) == g.zords[k].rested(),
                forall|k: int| i <= k < g.zords.len() ==> (#[trigger] self@.zords[k]) == g.zords[k],
            decreases self.zords.len() - i,
        {
            let ghost before = self@.zords;
            let zord = &mut self.zords[i];
            zord.range = BASE_RANGE;
            zord.shields = 0;
            i += 1;
            proof {
                assert forall|k: int| 0 <= k < before.len() && k != i - 1 implies (
                #[trigger] self@.zords[k]) == before[k] by {}
                assert(self@.zords[i - 1] == before[i - 1].rested());
            }
        }
        proof {
            let effect = rested(g);
            assert(self@.zords =~= effect.zords);
        }
    }

    /// Turns the day at time `now`: sets day and time, pays out the totems,
    /// moves the totems on the first day of a week, respawns the players
    /// without a zord, and resets actions, ranges and shields.
    pub fn new_day_at(&mut self, now: u64)
        requires
            old(self).wf(),
            day_in_limits(old(self)@),
            payout_in_limits(old(self)@),
        ensures
            final(self).wf(),
            exists|site: Option<(int, int)>, order: Seq<Seq<char>>|
                new_day_choice(old(self)@, now as nat, site, order) && final(self)@
                    == #[trigger] new_day_result(old(self)@, now as nat, site, order),
            final(self)@.day == old(self)@.day + 1,
            final(self)@.start_of_day == now,
            forall|i: int|
                0 <= i < final(self)@.zords.len() ==> (#[trigger] final(self)@.zords[i]).range
                    == BASE_RANGE && final(self)@.zords[i].shields == 0,
            forall|j: int|
                0 <= j < final(self)@.players.len() ==> (#[trigger] final(self)@.players[j]).actions
                    == BASE_ACTIONS,
            forall|name: Seq<char>| #[trigger]
                zordless(old(self)@, name) ==> owned(final(self)@.zords, name) == 1,
            final(self)@.zords.len() >= old(self)@.zords.len(),
            forall|i: int|
                0 <= i < old(self)@.zords.len() ==> #[trigger] final(self)@.zords[i] == old(
                    self,
                )@.zords[i].rested(),
            forall|i: int|
                old(self)@.zords.len() <= i < final(self)@.zords.len() ==> (
                #[trigger] final(self)@.zords[i]).hp == BASE_HP && on_board(
                    final(self)@.zords[i].x,
                    final(self)@.zords[i].y,
                ),
            respawns_logged(old(self)@.zords.len(), final(self)@, final(self)@.start_of_day),
    {
        let ghost g = self@;
        self.start_of_day = now;
        self.day = self.day + 1;
        self.give_out_totem_points_at(now);
        let ghost paid = self@;
        let ghost mut site: Option<(int, int)> = None;
        proof {
            lemma_paid_keeps_wf(dawn(g, now as nat), now as nat);
        }
        if self.day % 7 == 1 {
            self.spawn_totems_at(now);
            proof {
                if exists|x: int, y: int| admissible(paid, x, y) {
                    let (x, y) = choose|x: int, y: int|
                        admissible(paid, x, y) && self@ == #[trigger] relocated(
                            paid,
                            x,
                            y,
                            now as nat,
                        );
                    site = Some((x, y));
                    lemma_relocated_keeps_wf(paid, x, y, now as nat);
                }
            }
        }
        let ghost set = self@;
        self.respawn_players_at(now);
        let ghost order = choose|order: Seq<Seq<char>>|
            respawn_order(set, order) && self@ == #[trigger] respawned_all(set, order, now as nat);
        proof {
            lemma_rested_keeps_wf(self@);
        }
        self.rest();
        proof {
            law_new_day_resets(g, now as nat, site, order);
            assert forall|name: Seq<char>| #[trigger] zordless(g, name) implies owned(
                self@.zords,
                name,
            ) == 1 by {
                law_new_day_respawns(g, now as nat, site, order, name);
            }
        }
    }

    /// Turns the day at the time of the system clock: sets day and time,
    /// pays out the totems, moves the totems on the first day of a week,
    /// respawns the players without a zord, and resets actions, ranges and
    /// shields.
    pub fn new_day(&mut self)
        requires
            old(self).wf(),
            day_in_limits(old(self)@),
            payout_in_limits(old(self)@),
        ensures
            final(self).wf(),
            exists|now: nat, site: Option<(int, int)>, order: Seq<Seq<char>>|
                new_day_choice(old(self)@, now, site, order) && final(self)@
                    == #[trigger] new_day_result(old(self)@, now, site, order),
            final(self)@.day == old(self)@.day + 1,
            forall|i: int|
                0 <= i < final(self)@.zords.len() ==> (#[trigger] final(self)@.zords[i]).range
                    == BASE_RANGE && final(self)@.zords[i].shields == 0,
            forall|j: int|
                0 <= j < final(self)@.players.len() ==> (#[trigger] final(self)@.players[j]).actions
                    == BASE_ACTIONS,
            forall|name: Seq<char>| #[trigger]
                zordless(old(self)@, name) ==> owned(final(self)@.zords, name) == 1,
            final(self)@.zords.len() >= old(self)@.zords.len(),
            forall|i: int|
                0 <= i < old(self)@.zords.len() ==> #[trigger] final(self)@.zords[i] == old(
                    self,
                )@.zords[i].rested(),
            forall|i: int|
                old(self)@.zords.len() <= i < final(self)@.zords.len() ==> (
                #[trigger] final(self)@.zords[i]).hp == BASE_HP && on_board(
                    final(self)@.zords[i].x,
                    final(self)@.zords[i].y,
                ),
            respawns_logged(old(self)@.zords.len(), final(self)@, final(self)@.start_of_day),
    {
        let now = unix_timestamp();
        self.new_day_at(now);
        proof {
            let (site, order) = choose|site: Option<(int, int)>, order: Seq<Seq<char>>|
                new_day_choice(old(self)@, now as nat, site, order) && self@
                    == #[trigger] new_day_result(old(self)@, now as nat, site, order);
            assert(new_day_choice(old(self)@, now as nat, site, order) && self@ == new_day_result(
                old(self)@,
                now as nat,
                site,
                order,
            ));
        }
    }
}

} // verus!
