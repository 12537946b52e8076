//! The invariant of a game holds after every step that the rules allow.
use super::cycle::{paid, paid_by, relocated, respawn_cell, respawned, respawned_all, rested};
use super::geometry::chebyshev;
use super::player::PlayerView;
use super::rules::{
    build_effect, build_refusal, donate_effect, donate_refusal, move_effect, move_refusal,
    next_to, range_effect, range_refusal, shield_effect, shield_refusal, shoot_effect,
    shoot_refusal, two_thirds,
};
use super::seqs::lemma_keep;
use super::state::{
    alive, has_name, lemma_player_index, lemma_zord_at, living, player_index, zord_at, GameView,
    ACTION_COST, KILL_REWARD, NEW_ZORD_COST,
};
use super::zord::{ZordView, BASE_HP, BASE_RANGE};
use vstd::prelude::*;

verus! {

/// A player that a zord names as its owner is found by `player_index`.
pub proof fn lemma_owner_exists(g: GameView, i: int)
    requires
        g.wf(),
        0 <= i < g.zords.len(),
    ensures
        player_index(g.players, g.zords[i].owner) is Some,
{
    lemma_player_index(g.players, g.zords[i].owner);
}

/// Replacing a player by one of the same name keeps the invariant, and
/// keeps who is found under which name.
pub proof fn lemma_with_player(g: GameView, name: Seq<char>, player: PlayerView)
    requires
        g.wf(),
        player_index(g.players, name) is Some,
        player.name == name,
    ensures
        g.with_player(name, player).wf(),
        g.with_player(name, player).players.len() == g.players.len(),
        forall|other: Seq<char>|
            player_index(g.with_player(name, player).players, other) == player_index(
                g.players,
                other,
            ),
        forall|other: Seq<char>| g.with_player(name, player).has_player(other) == g.has_player(other),
{
    lemma_player_index(g.players, name);
    let k = player_index(g.players, name).unwrap();
    let after = g.with_player(name, player);
    assert forall|j: int| 0 <= j < g.players.len() implies (#[trigger] after.players[j]).name
        == g.players[j].name by {}
    assert forall|other: Seq<char>| after.has_player(other) == g.has_player(other) by {
        if g.has_player(other) {
            let j = choose|j: int| 0 <= j < g.players.len() && (#[trigger] g.players[j]).name == other;
            assert(after.players[j].name == other);
        }
        if after.has_player(other) {
            let j = choose|j: int|
                0 <= j < after.players.len() && (#[trigger] after.players[j]).name == other;
            assert(g.players[j].name == other);
        }
    }
    assert forall|other: Seq<char>|
        player_index(after.players, other) == player_index(g.players, other) by {
        lemma_player_index(g.players, other);
        lemma_player_index(after.players, other);
        match player_index(g.players, other) {
            Some(a) => {
                assert(after.players[a].name == other);
                match player_index(after.players, other) {
                    Some(b) => {
                        assert(g.players[b].name == other);
                    },
                    None => {},
                }
            },
            None => {
                match player_index(after.players, other) {
                    Some(b) => {
                        assert(g.players[b].name == other);
                    },
                    None => {},
                }
            },
        }
    }
    assert forall|i: int| 0 <= i < after.zords.len() implies !(#[trigger] after.zords[i]).dead()
        && after.has_player(after.zords[i].owner) by {
        assert(g.has_player(g.zords[i].owner));
    }
}

/// Zords with living members whose owners are players may take the place
/// of the zords of a game that meets its invariant.
pub proof fn lemma_with_zords(g: GameView, zords: Seq<ZordView>)
    requires
        g.wf(),
        forall|k: int|
            0 <= k < zords.len() ==> !(#[trigger] zords[k]).dead() && g.has_player(zords[k].owner),
    ensures
        g.with_zords(zords).wf(),
{
    let after = g.with_zords(zords);
    assert forall|k: int| 0 <= k < after.zords.len() implies !(#[trigger] after.zords[k]).dead()
        && after.has_player(after.zords[k].owner) by {
        let o = zords[k].owner;
        let j = choose|j: int| 0 <= j < g.players.len() && (#[trigger] g.players[j]).name == o;
        assert(after.players[j].name == o);
    }
}

/// Replacing a zord by a living one of the same owner keeps the invariant.
pub proof fn lemma_with_zord(g: GameView, i: int, zord: ZordView)
    requires
        g.wf(),
        0 <= i < g.zords.len(),
        zord.owner == g.zords[i].owner,
        !zord.dead(),
    ensures
        g.with_zords(g.zords.update(i, zord)).wf(),
{
    let zords = g.zords.update(i, zord);
    assert forall|k: int| 0 <= k < zords.len() implies !(#[trigger] zords[k]).dead()
        && g.has_player(zords[k].owner) by {
        assert(!g.zords[k].dead() && g.has_player(g.zords[k].owner));
    }
    lemma_with_zords(g, zords);
}

/// Adding a living zord of an existing player keeps the invariant.
pub proof fn lemma_add_zord(g: GameView, zord: ZordView)
    requires
        g.wf(),
        g.has_player(zord.owner),
        !zord.dead(),
    ensures
        g.with_zords(g.zords.push(zord)).wf(),
{
    let zords = g.zords.push(zord);
    assert forall|k: int| 0 <= k < zords.len() implies !(#[trigger] zords[k]).dead()
        && g.has_player(zords[k].owner) by {
        if k < g.zords.len() {
            assert(!g.zords[k].dead() && g.has_player(g.zords[k].owner));
        }
    }
    lemma_with_zords(g, zords);
}

/// Spending actions keeps the invariant and every name in its place.
pub proof fn lemma_spend(g: GameView, name: Seq<char>, amount: nat)
    requires
        g.wf(),
        player_index(g.players, name) is Some,
    ensures
        g.spend(name, amount).wf(),
        g.spend(name, amount).players.len() == g.players.len(),
        forall|other: Seq<char>|
            player_index(g.spend(name, amount).players, other) == player_index(g.players, other),
        forall|other: Seq<char>| g.spend(name, amount).has_player(other) == g.has_player(other),
{
    lemma_player_index(g.players, name);
    lemma_with_player(
        g,
        name,
        PlayerView { actions: (g.player(name).actions - amount) as nat, ..g.player(name) },
    );
}

/// Receiving points keeps the invariant and every name in its place.
pub proof fn lemma_credit(g: GameView, name: Seq<char>, amount: nat)
    requires
        g.wf(),
        player_index(g.players, name) is Some,
    ensures
        g.credit(name, amount).wf(),
        g.credit(name, amount).players.len() == g.players.len(),
        forall|other: Seq<char>|
            player_index(g.credit(name, amount).players, other) == player_index(g.players, other),
        forall|other: Seq<char>| g.credit(name, amount).has_player(other) == g.has_player(other),
{
    lemma_player_index(g.players, name);
    lemma_with_player(
        g,
        name,
        PlayerView { points: g.player(name).points + amount, ..g.player(name) },
    );
}

/// Paying points keeps the invariant and every name in its place.
pub proof fn lemma_debit(g: GameView, name: Seq<char>, amount: nat)
    requires
        g.wf(),
        player_index(g.players, name) is Some,
    ensures
        g.debit(name, amount).wf(),
        g.debit(name, amount).players.len() == g.players.len(),
        forall|other: Seq<char>|
            player_index(g.debit(name, amount).players, other) == player_index(g.players, other),
        forall|other: Seq<char>| g.debit(name, amount).has_player(other) == g.has_player(other),
{
    lemma_player_index(g.players, name);
    lemma_with_player(
        g,
        name,
        PlayerView { points: (g.player(name).points - amount) as nat, ..g.player(name) },
    );
}

/// The living zords of a list are living, and each of them is in the list.
pub proof fn lemma_living(zords: Seq<ZordView>)
    ensures
        forall|k: int|
            0 <= k < living(zords).len() ==> !(#[trigger] living(zords)[k]).dead()
                && zords.contains(living(zords)[k]),
{
    lemma_keep(zords, alive());
}

/// Players that carry the names of the players of a game, each in its
/// place, may take their place.
pub proof fn lemma_same_names(g: GameView, players: Seq<PlayerView>)
    requires
        g.wf(),
        players.len() == g.players.len(),
        forall|j: int| 0 <= j < players.len() ==> (#[trigger] players[j]).name == g.players[j].name,
    ensures
        g.with_player_list(players).wf(),
        forall|other: Seq<char>| has_name(players, other) == has_name(g.players, other),
{
    assert forall|other: Seq<char>| has_name(players, other) == has_name(g.players, other) by {
        if has_name(g.players, other) {
            let j = choose|j: int| 0 <= j < g.players.len() && (#[trigger] g.players[j]).name == other;
            assert(players[j].name == other);
        }
        if has_name(players, other) {
            let j = choose|j: int| 0 <= j < players.len() && (#[trigger] players[j]).name == other;
            assert(g.players[j].name == other);
        }
    }
    assert forall|i: int, j: int| 0 <= i < j < players.len() implies (#[trigger] players[i]).name
        != (#[trigger] players[j]).name by {
        assert(g.players[i].name != g.players[j].name);
    }
    assert forall|i: int| 0 <= i < g.zords.len() implies !(#[trigger] g.zords[i]).dead()
        && has_name(players, g.zords[i].owner) by {
        assert(has_name(g.players, g.zords[i].owner));
    }
}

/// The payout of the totems keeps the invariant.
pub proof fn lemma_paid_keeps_wf(g: GameView, now: nat)
    requires
        g.wf(),
    ensures
        paid(g, now).wf(),
{
    let first = paid_by(g, g.totems.0, now);
    lemma_same_names(g, first.players);
    lemma_same_names(first, paid(g, now).players);
}

/// The move of the totems keeps the invariant.
pub proof fn lemma_relocated_keeps_wf(g: GameView, x: int, y: int, now: nat)
    requires
        g.wf(),
    ensures
        relocated(g, x, y, now).wf(),
{
}

/// A respawn keeps the invariant, and changes nothing but the zords and the
/// log.
pub proof fn lemma_respawned(g: GameView, name: Seq<char>, now: nat)
    ensures
        (g.wf() && g.has_player(name)) ==> respawned(g, name, now).wf(),
        respawned(g, name, now).players == g.players,
        respawned(g, name, now).totems == g.totems,
        respawned(g, name, now).auth == g.auth,
        respawned(g, name, now).day == g.day,
        respawned(g, name, now).start_of_day == g.start_of_day,
        respawned(g, name, now).zords.len() == g.zords.len() + 1,
{
    if g.wf() && g.has_player(name) {
        let c = respawn_cell(g);
        lemma_add_zord(g, ZordView::fresh(name, c.0, c.1));
    }
}

/// Respawns of players of the game keep the invariant, and change nothing
/// but the zords and the log: the zords that were there stay as they are,
/// and one zord is added for each respawn.
pub proof fn lemma_respawned_all(g: GameView, order: Seq<Seq<char>>, now: nat)
    ensures
        (g.wf() && forall|k: int| 0 <= k < order.len() ==> g.has_player(#[trigger] order[k]))
            ==> respawned_all(g, order, now).wf(),
        respawned_all(g, order, now).players == g.players,
        respawned_all(g, order, now).totems == g.totems,
        respawned_all(g, order, now).auth == g.auth,
        respawned_all(g, order, now).day == g.day,
        respawned_all(g, order, now).start_of_day == g.start_of_day,
        respawned_all(g, order, now).zords.len() == g.zords.len() + order.len(),
        forall|i: int|
            0 <= i < g.zords.len() ==> #[trigger] respawned_all(g, order, now).zords[i]
                == g.zords[i],
        forall|k: int|
            0 <= k < order.len() ==> (#[trigger] respawned_all(g, order, now).zords[g.zords.len()
                + k]).owner == order[k] && respawned_all(g, order, now).zords[g.zords.len()
                + k].hp == BASE_HP && respawned_all(g, order, now).zords[g.zords.len()
                + k].shields == 0 && respawned_all(g, order, now).zords[g.zords.len() + k].range
                == BASE_RANGE,
    decreases order.len(),
{
    if order.len() > 0 {
        let earlier = respawned_all(g, order.drop_last(), now);
        lemma_respawned_all(g, order.drop_last(), now);
        lemma_respawned(earlier, order.last(), now);
        let after = respawned_all(g, order, now);
        if g.wf() && forall|k: int| 0 <= k < order.len() ==> g.has_player(#[trigger] order[k]) {
            assert forall|k: int| 0 <= k < order.drop_last().len() implies g.has_player(
                #[trigger] order.drop_last()[k],
            ) by {
                assert(order.drop_last()[k] == order[k]);
            }
        }
        assert forall|i: int| 0 <= i < g.zords.len() implies #[trigger] after.zords[i]
            == g.zords[i] by {
            assert(earlier.zords[i] == g.zords[i]);
        }
        assert forall|k: int| 0 <= k < order.len() implies (#[trigger] after.zords[g.zords.len()
            + k]).owner == order[k] && after.zords[g.zords.len() + k].hp == BASE_HP
            && after.zords[g.zords.len() + k].shields == 0 && after.zords[g.zords.len() + k].range
            == BASE_RANGE by {
            if k < order.len() - 1 {
                assert(after.zords[g.zords.len() + k] == earlier.zords[g.zords.len() + k]);
            }
        }
    }
}

/// The end of a day's turn keeps the invariant.
pub proof fn lemma_rested_keeps_wf(g: GameView)
    requires
        g.wf(),
    ensures
        rested(g).wf(),
{
    let after = rested(g);
    lemma_same_names(g, after.players);
    let named = g.with_player_list(after.players);
    assert forall|k: int| 0 <= k < after.zords.len() implies !(#[trigger] after.zords[k]).dead()
        && named.has_player(after.zords[k].owner) by {
        assert(!named.zords[k].dead() && named.has_player(named.zords[k].owner));
    }
    lemma_with_zords(named, after.zords);
}

/// A shield keeps the invariant.
pub proof fn lemma_shield_keeps_wf(g: GameView, player: Seq<char>, x: int, y: int, now: nat)
    requires
        g.wf(),
        shield_refusal(g, player, x, y) is None,
    ensures
        shield_effect(g, player, x, y, now).wf(),
{
    lemma_zord_at(g.zords, x, y);
    let i = zord_at(g.zords, x, y).unwrap();
    lemma_owner_exists(g, i);
    lemma_spend(g, player, ACTION_COST as nat);
    let spent = g.spend(player, ACTION_COST as nat);
    lemma_with_zord(spent, i, ZordView { shields: g.zords[i].shields + 1, ..g.zords[i] });
}

/// A longer range keeps the invariant.
pub proof fn lemma_range_keeps_wf(g: GameView, player: Seq<char>, x: int, y: int, now: nat)
    requires
        g.wf(),
        range_refusal(g, player, x, y) is None,
    ensures
        range_effect(g, player, x, y, now).wf(),
{
    lemma_zord_at(g.zords, x, y);
    let i = zord_at(g.zords, x, y).unwrap();
    lemma_owner_exists(g, i);
    lemma_spend(g, player, (ACTION_COST / 2) as nat);
    let spent = g.spend(player, (ACTION_COST / 2) as nat);
    lemma_with_zord(spent, i, ZordView { range: g.zords[i].range + 1, ..g.zords[i] });
}

/// A move keeps the invariant.
pub proof fn lemma_move_keeps_wf(
    g: GameView,
    player: Seq<char>,
    x_f: int,
    y_f: int,
    x_t: int,
    y_t: int,
    now: nat,
)
    requires
        g.wf(),
        move_refusal(g, player, x_f, y_f, x_t, y_t) is None,
    ensures
        move_effect(g, player, x_f, y_f, x_t, y_t, now).wf(),
{
    lemma_zord_at(g.zords, x_f, y_f);
    let i = zord_at(g.zords, x_f, y_f).unwrap();
    lemma_owner_exists(g, i);
    let cost = chebyshev(x_f, y_f, x_t, y_t) as nat;
    lemma_spend(g, player, cost);
    lemma_with_zord(g.spend(player, cost), i, ZordView { x: x_t, y: y_t, ..g.zords[i] });
}

/// A shot keeps the invariant: afterwards every zord on the board still has
/// hit points left.
pub proof fn lemma_shoot_keeps_wf(
    g: GameView,
    player: Seq<char>,
    x_f: int,
    y_f: int,
    x_t: int,
    y_t: int,
    now: nat,
)
    requires
        g.wf(),
        shoot_refusal(g, player, x_f, y_f, x_t, y_t, now) is None,
    ensures
        shoot_effect(g, player, x_f, y_f, x_t, y_t, now).wf(),
{
    lemma_zord_at(g.zords, x_f, y_f);
    lemma_zord_at(g.zords, x_t, y_t);
    let i = zord_at(g.zords, x_f, y_f).unwrap();
    let t = zord_at(g.zords, x_t, y_t).unwrap();
    let victim = g.zords[t].owner;
    let struck = g.zords[t].hit();
    lemma_owner_exists(g, i);
    lemma_owner_exists(g, t);
    lemma_spend(g, player, ACTION_COST as nat);
    let paid = g.spend(player, ACTION_COST as nat);
    lemma_credit(paid, player, KILL_REWARD as nat);
    let rewarded = if struck.dead() {
        paid.credit(player, KILL_REWARD as nat)
    } else {
        paid
    };
    let hit = g.zords.update(t, struck);
    lemma_living(hit);
    assert forall|k: int| 0 <= k < living(hit).len() implies !(#[trigger] living(hit)[k]).dead()
        && rewarded.has_player(living(hit)[k].owner) by {
        let z = living(hit)[k];
        let w = choose|w: int| 0 <= w < hit.len() && hit[w] == z;
        assert(g.has_player(g.zords[w].owner));
    }
    lemma_with_zords(rewarded, living(hit));
    let cleared = rewarded.with_zords(living(hit));
    lemma_player_index(cleared.players, victim);
    lemma_with_player(
        cleared,
        victim,
        PlayerView { points: two_thirds(cleared.player(victim).points), ..cleared.player(victim) },
    );
}

/// A donation keeps the invariant.
pub proof fn lemma_donate_keeps_wf(
    g: GameView,
    from: Seq<char>,
    to: Seq<char>,
    amount: nat,
    now: nat,
)
    requires
        g.wf(),
        donate_refusal(g, from, to, amount) is None,
    ensures
        donate_effect(g, from, to, amount, now).wf(),
{
    lemma_spend(g, from, ACTION_COST as nat);
    let spent = g.spend(from, ACTION_COST as nat);
    lemma_debit(spent, from, amount);
    lemma_credit(spent.debit(from, amount), to, amount);
}

/// A new zord keeps the invariant.
pub proof fn lemma_build_keeps_wf(g: GameView, player: Seq<char>, x: int, y: int, now: nat)
    requires
        g.wf(),
        build_refusal(g, player, x, y) is None,
    ensures
        build_effect(g, player, x, y, now).wf(),
{
    let i = choose|i: int| 0 <= i < g.zords.len() && next_to(#[trigger] g.zords[i], player, x, y);
    lemma_owner_exists(g, i);
    lemma_spend(g, player, ACTION_COST as nat);
    let spent = g.spend(player, ACTION_COST as nat);
    lemma_debit(spent, player, NEW_ZORD_COST as nat);
    let paid = spent.debit(player, NEW_ZORD_COST as nat);
    lemma_add_zord(paid, ZordView::fresh(player, x, y).hit());
}

} // verus!
