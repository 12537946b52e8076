//! What holds of the rules, proved from their definitions.
use super::cycle::{
    admissible, aura_share, aura_total, clearance_among, dawn, in_aura, in_aura_of,
    is_respawn_cell, mirrored, new_day_choice, new_day_result, outdoes, paid, paid_by, payout,
    placed, relocated, respawn_cell, respawn_order, respawned, respawned_all, rested,
    total_payout, zordless,
};
use super::error::Refusal;
use super::geometry::{chebyshev, on_board};
use super::player::{PlayerView, BASE_ACTIONS};
use super::rules::{
    build_effect, build_refusal, donate_refusal, donation_in_range, grace_over, move_effect,
    move_refusal, shoot_effect, shoot_refusal, target_struck, zord_nearby,
};
use super::seqs::{
    count, lemma_count_alike, lemma_count_bounds, lemma_count_disjoint, lemma_count_implies,
    lemma_count_push, lemma_keep_all, lemma_keep_remove,
};
use super::spawn::lemma_respawn_cell_is;
use super::state::{
    alive, distinct_names, lemma_player_index, lemma_zord_at, owned, owned_by, zord_at,
    GameView, MAX_DONATION_PER_ACTION, NEW_ZORD_COST, TOTEM_AURA, TOTEM_REWARD,
};
use super::totem::TotemView;
use super::validity::{
    lemma_owner_exists, lemma_respawned_all, lemma_same_names, lemma_shoot_keeps_wf,
    lemma_spend,
};
use super::zord::{ZordView, BASE_RANGE};
use vstd::prelude::*;

verus! {

/// One request to shoot: who shoots, from where, at what, and when.
pub struct Shot {
    pub player: Seq<char>,
    pub from: (int, int),
    pub to: (int, int),
    pub now: nat,
}

/// The game after the request `shot`: changed as the rules say where they
/// allow the shot, unchanged where they refuse it.
pub open spec fn after_shot(g: GameView, shot: Shot) -> GameView {
    if shoot_refusal(g, shot.player, shot.from.0, shot.from.1, shot.to.0, shot.to.1, shot.now)
        is None {
        shoot_effect(g, shot.player, shot.from.0, shot.from.1, shot.to.0, shot.to.1, shot.now)
    } else {
        g
    }
}

/// The game after the requests `shots`, one after the other.
pub open spec fn after_shots(g: GameView, shots: Seq<Shot>) -> GameView
    decreases shots.len(),
{
    if shots.len() == 0 {
        g
    } else {
        after_shot(after_shots(g, shots.drop_last()), shots.last())
    }
}

/// Whatever is shot at whatever in whatever order, no zord on the board is
/// ever without hit points: every zord of the game after the shots has at
/// least one.
pub proof fn law_shots_leave_no_dead(g: GameView, shots: Seq<Shot>)
    requires
        g.wf(),
    ensures
        after_shots(g, shots).wf(),
        forall|i: int|
            0 <= i < after_shots(g, shots).zords.len() ==> (#[trigger] after_shots(
                g,
                shots,
            ).zords[i]).hp > 0,
    decreases shots.len(),
{
    if shots.len() > 0 {
        law_shots_leave_no_dead(g, shots.drop_last());
        let before = after_shots(g, shots.drop_last());
        let shot = shots.last();
        if shoot_refusal(
            before,
            shot.player,
            shot.from.0,
            shot.from.1,
            shot.to.0,
            shot.to.1,
            shot.now,
        ) is None {
            lemma_shoot_keeps_wf(
                before,
                shot.player,
                shot.from.0,
                shot.from.1,
                shot.to.0,
                shot.to.1,
                shot.now,
            );
        }
    }
}

/// A shot that the rules allow takes one hit off the target, by its shields
/// first, and nothing off any other zord. The target leaves the board
/// exactly when the hit takes its last hit point; no other zord leaves.
pub proof fn law_shot_removes_the_dead(
    g: GameView,
    player: Seq<char>,
    x_f: int,
    y_f: int,
    x_t: int,
    y_t: int,
    now: nat,
)
    requires
        g.wf(),
        shoot_refusal(g, player, x_f, y_f, x_t, y_t, now) is None,
    ensures
        zord_at(g.zords, x_t, y_t) is Some,
        ({
            let t = zord_at(g.zords, x_t, y_t).unwrap();
            let after = shoot_effect(g, player, x_f, y_f, x_t, y_t, now).zords;
            &&& 0 <= t < g.zords.len()
            &&& g.zords[t].hit().hp == 0 ==> after == g.zords.remove(t)
            &&& g.zords[t].hit().hp > 0 ==> after == g.zords.update(t, g.zords[t].hit())
        }),
{
    lemma_zord_at(g.zords, x_t, y_t);
    let t = zord_at(g.zords, x_t, y_t).unwrap();
    let hit = g.zords.update(t, g.zords[t].hit());
    if g.zords[t].hit().dead() {
        lemma_keep_remove(hit, alive(), t);
        assert(hit.remove(t) =~= g.zords.remove(t));
        assert forall|k: int| 0 <= k < g.zords.remove(t).len() implies alive()(
            #[trigger] g.zords.remove(t)[k],
        ) by {
            if k < t {
                assert(!g.zords[k].dead());
            } else {
                assert(!g.zords[k + 1].dead());
            }
        }
        lemma_keep_all(g.zords.remove(t), alive());
    } else {
        assert forall|k: int| 0 <= k < hit.len() implies alive()(#[trigger] hit[k]) by {
            assert(!g.zords[k].dead());
        }
        lemma_keep_all(hit, alive());
    }
}

/// A shot that the rules allow strikes the target and nothing else.
pub proof fn law_shot_strikes_target(
    g: GameView,
    player: Seq<char>,
    x_f: int,
    y_f: int,
    x_t: int,
    y_t: int,
    now: nat,
)
    requires
        g.wf(),
        shoot_refusal(g, player, x_f, y_f, x_t, y_t, now) is None,
    ensures
        target_struck(g.zords, shoot_effect(g, player, x_f, y_f, x_t, y_t, now).zords, x_t, y_t),
{
    law_shot_removes_the_dead(g, player, x_f, y_f, x_t, y_t, now);
}

/// Where every zord has a cell to itself, a kill leaves the cell of the
/// target empty.
pub proof fn law_kill_empties_cell(before: Seq<ZordView>, after: Seq<ZordView>, x: int, y: int)
    requires
        forall|i: int, j: int|
            0 <= i < j < before.len() ==> !(#[trigger] before[i]).on_cell(
                (#[trigger] before[j]).x,
                before[j].y,
            ),
        target_struck(before, after, x, y),
        before[zord_at(before, x, y).unwrap()].hit().dead(),
    ensures
        zord_at(after, x, y) is None,
        after.len() == before.len() - 1,
{
    lemma_zord_at(before, x, y);
    lemma_zord_at(after, x, y);
    let t = zord_at(before, x, y).unwrap();
    if zord_at(after, x, y) is Some {
        let k = zord_at(after, x, y).unwrap();
        let w = if k < t {
            k
        } else {
            k + 1
        };
        assert(after[k] == before[w]);
        assert(before[w].on_cell(before[t].x, before[t].y));
    }
}

/// Nobody ever shoots their own zord: a shot at a cell whose zord belongs
/// to the shooter is refused, whatever the range and the time.
pub proof fn law_own_zord_never_shot(
    g: GameView,
    player: Seq<char>,
    x_f: int,
    y_f: int,
    x_t: int,
    y_t: int,
    now: nat,
)
    requires
        zord_at(g.zords, x_t, y_t) matches Some(t) && g.zords[t].owner == player,
    ensures
        shoot_refusal(g, player, x_f, y_f, x_t, y_t, now) is Some,
{
}

/// A shot at the shooter's own zord, from a zord of theirs that has the
/// target in range, after the grace period and with an action left, is
/// refused as a shot at one's own zord.
pub proof fn law_own_zord_refused(
    g: GameView,
    player: Seq<char>,
    x_f: int,
    y_f: int,
    x_t: int,
    y_t: int,
    now: nat,
)
    requires
        zord_at(g.zords, x_t, y_t) matches Some(t) && g.zords[t].owner == player,
        zord_at(g.zords, x_f, y_f) matches Some(i) && g.zords[i].owner == player && chebyshev(
            x_f,
            y_f,
            x_t,
            y_t,
        ) <= g.zords[i].range,
        grace_over(g, now),
        g.player(player).actions > 0,
    ensures
        shoot_refusal(g, player, x_f, y_f, x_t, y_t, now) == Some(Refusal::OwnZord),
{
}

/// A shot at a cell without a zord, from a zord of the shooter that has the
/// cell in range, after the grace period and with an action left, is refused
/// like a shot at one's own zord.
pub proof fn law_empty_cell_refused(
    g: GameView,
    player: Seq<char>,
    x_f: int,
    y_f: int,
    x_t: int,
    y_t: int,
    now: nat,
)
    requires
        zord_at(g.zords, x_t, y_t) is None,
        zord_at(g.zords, x_f, y_f) matches Some(i) && g.zords[i].owner == player && chebyshev(
            x_f,
            y_f,
            x_t,
            y_t,
        ) <= g.zords[i].range,
        grace_over(g, now),
        g.player(player).actions > 0,
    ensures
        shoot_refusal(g, player, x_f, y_f, x_t, y_t, now) == Some(Refusal::OwnZord),
{
}

/// A zord can be built without the points for it only where the player has
/// no action left: with an action left, a zord of theirs nearby and too few
/// points, the refusal is for the points.
pub proof fn law_build_needs_points(g: GameView, player: Seq<char>, x: int, y: int)
    requires
        zord_nearby(g.zords, player, x, y),
        g.player(player).actions > 0,
        g.player(player).points < NEW_ZORD_COST,
    ensures
        build_refusal(g, player, x, y) == Some(
            Refusal::NotEnoughPoints(g.player(player).points, NEW_ZORD_COST as nat),
        ),
{
}

/// A move that the rules allow ends on a free cell of the board, and costs
/// the player exactly as many actions as the two cells are apart.
pub proof fn law_move(g: GameView, player: Seq<char>, x_f: int, y_f: int, x_t: int, y_t: int, now: nat)
    requires
        g.wf(),
        move_refusal(g, player, x_f, y_f, x_t, y_t) is None,
    ensures
        !g.occupied(x_t, y_t),
        on_board(x_t, y_t),
        move_effect(g, player, x_f, y_f, x_t, y_t, now).player(player).actions + chebyshev(
            x_f,
            y_f,
            x_t,
            y_t,
        ) == g.player(player).actions,
{
    lemma_zord_at(g.zords, x_f, y_f);
    let i = zord_at(g.zords, x_f, y_f).unwrap();
    lemma_owner_exists(g, i);
    lemma_player_index(g.players, player);
    lemma_spend(g, player, chebyshev(x_f, y_f, x_t, y_t) as nat);
}

/// A donation that the rules allow carries no more than the cap, and some
/// zord of the donor has some zord of the recipient within its range.
pub proof fn law_donation(g: GameView, from: Seq<char>, to: Seq<char>, amount: nat)
    requires
        donate_refusal(g, from, to, amount) is None,
    ensures
        amount <= MAX_DONATION_PER_ACTION,
        donation_in_range(g.zords, from, to),
{
}

/// The zords within the aura of `totem` that belong to one of the first
/// `n` players.
pub open spec fn in_aura_of_first(
    totem: TotemView,
    players: Seq<PlayerView>,
    n: nat,
) -> spec_fn(ZordView) -> bool {
    |z: ZordView|
        in_aura(totem)(z) && exists|j: int| 0 <= j < n && (#[trigger] players[j]).name == z.owner
}

/// The zords that the first `n` players have within the aura of `totem`,
/// counted player by player.
pub open spec fn shares(g: GameView, totem: TotemView, n: nat) -> nat
    decreases n,
{
    if n == 0 {
        0
    } else {
        shares(g, totem, (n - 1) as nat) + aura_share(g.zords, totem, g.players[n - 1].name)
    }
}

/// Counted player by player, the zords within an aura are counted once
/// each: the shares of the first `n` players add up to the number of zords
/// in the aura that belong to one of them.
pub proof fn lemma_shares(g: GameView, totem: TotemView, n: nat)
    requires
        distinct_names(g.players),
        n <= g.players.len(),
    ensures
        shares(g, totem, n) == count(g.zords, in_aura_of_first(totem, g.players, n)),
        shares(g, totem, n) <= aura_total(g.zords, totem),
    decreases n,
{
    let any = in_aura_of_first(totem, g.players, n);
    if n == 0 {
        assert forall|i: int| 0 <= i < g.zords.len() implies !any(#[trigger] g.zords[i]) by {}
        lemma_count_bounds(g.zords, any);
    } else {
        lemma_shares(g, totem, (n - 1) as nat);
        let earlier = in_aura_of_first(totem, g.players, (n - 1) as nat);
        let last = in_aura_of(totem, g.players[n - 1].name);
        assert forall|i: int| 0 <= i < g.zords.len() implies !(earlier(#[trigger] g.zords[i])
            && last(g.zords[i])) by {
            if earlier(g.zords[i]) && last(g.zords[i]) {
                let j = choose|j: int|
                    0 <= j < n - 1 && (#[trigger] g.players[j]).name == g.zords[i].owner;
                assert(g.players[j].name != g.players[n - 1].name);
            }
        }
        assert forall|i: int| 0 <= i < g.zords.len() implies any(#[trigger] g.zords[i]) == (earlier(
            g.zords[i],
        ) || last(g.zords[i])) by {
            let z = g.zords[i];
            if any(z) {
                let j = choose|j: int| 0 <= j < n && (#[trigger] g.players[j]).name == z.owner;
                if j < n - 1 {
                    assert(earlier(z));
                }
            }
            if earlier(z) {
                let j = choose|j: int| 0 <= j < n - 1 && (#[trigger] g.players[j]).name == z.owner;
                assert(0 <= j < n && g.players[j].name == z.owner);
            }
            if last(z) {
                assert(g.players[n - 1].name == z.owner);
            }
        }
        lemma_count_disjoint(g.zords, earlier, last, any);
    }
    assert forall|i: int| 0 <= i < g.zords.len() && any(#[trigger] g.zords[i]) implies in_aura(
        totem,
    )(g.zords[i]) by {}
    lemma_count_implies(g.zords, any, in_aura(totem));
}

/// What a totem pays to the first `n` players, times the number of zords in
/// its aura, is no more than the reward times the zords that these players
/// have there.
pub proof fn lemma_total_payout(g: GameView, totem: TotemView, n: nat)
    requires
        n <= g.players.len(),
    ensures
        total_payout(g, totem, n) * aura_total(g.zords, totem) <= TOTEM_REWARD * shares(
            g,
            totem,
            n,
        ),
        aura_total(g.zords, totem) == 0 ==> total_payout(g, totem, n) == 0,
    decreases n,
{
    if n > 0 {
        lemma_total_payout(g, totem, (n - 1) as nat);
        let total = aura_total(g.zords, totem) as int;
        let share = aura_share(g.zords, totem, g.players[n - 1].name) as int;
        let pay = payout(g.zords, totem, g.players[n - 1].name) as int;
        let before = total_payout(g, totem, (n - 1) as nat) as int;
        let held = shares(g, totem, (n - 1) as nat) as int;
        if total > 0 {
            assert((50 * share / total) * total <= 50 * share) by (nonlinear_arith)
                requires
                    total > 0,
                    share >= 0,
            ;
            assert((before + pay) * total == before * total + pay * total) by (nonlinear_arith);
        }
    }
}

/// A totem never pays out more than its reward: what it pays to all the
/// players together is at most `TOTEM_REWARD`, whatever stands in its aura.
/// Only rounding down takes anything off the reward.
pub proof fn law_totem_pays_at_most_reward(g: GameView, totem: TotemView)
    requires
        distinct_names(g.players),
    ensures
        total_payout(g, totem, g.players.len()) <= TOTEM_REWARD,
{
    let n = g.players.len();
    lemma_shares(g, totem, n);
    lemma_total_payout(g, totem, n);
    let total = aura_total(g.zords, totem) as int;
    let paid = total_payout(g, totem, n) as int;
    let held = shares(g, totem, n) as int;
    if total > 0 {
        assert(paid <= 50) by (nonlinear_arith)
            requires
                paid * total <= 50 * held,
                held <= total,
                total > 0,
        ;
    }
}

/// The payout of a totem gives every player exactly what the totem pays
/// them, and nothing to anybody where no zord stands in its aura.
pub proof fn law_payout(g: GameView, totem: TotemView, now: nat)
    ensures
        paid_by(g, totem, now).players.len() == g.players.len(),
        forall|j: int|
            0 <= j < g.players.len() ==> (#[trigger] paid_by(g, totem, now).players[j]).points
                == g.players[j].points + payout(g.zords, totem, g.players[j].name),
        aura_total(g.zords, totem) == 0 ==> forall|j: int|
            0 <= j < g.players.len() ==> (#[trigger] paid_by(g, totem, now).players[j])
                == g.players[j],
{
}

/// A day's turn adds exactly one to the day counter, and leaves every zord
/// with the base range and no shields and every player with the full budget
/// of actions, whatever the day before has left.
pub proof fn law_new_day_resets(
    g: GameView,
    now: nat,
    site: Option<(int, int)>,
    order: Seq<Seq<char>>,
)
    ensures
        new_day_result(g, now, site, order).day == g.day + 1,
        new_day_result(g, now, site, order).start_of_day == now,
        forall|i: int|
            0 <= i < new_day_result(g, now, site, order).zords.len() ==> (
            #[trigger] new_day_result(g, now, site, order).zords[i]).range == BASE_RANGE
                && new_day_result(g, now, site, order).zords[i].shields == 0,
        forall|j: int|
            0 <= j < new_day_result(g, now, site, order).players.len() ==> (
            #[trigger] new_day_result(g, now, site, order).players[j]).actions == BASE_ACTIONS,
{
    lemma_respawned_all(placed(g, now, site), order, now);
}

/// The reset at the end of a day's turn is idempotent: a second reset
/// changes nothing.
pub proof fn law_rest_idempotent(g: GameView)
    ensures
        rested(rested(g)) == rested(g),
{
    assert(rested(rested(g)).players =~= rested(g).players);
    assert(rested(rested(g)).zords =~= rested(g).zords);
}

/// The reset at the end of a day's turn touches neither the hit points nor
/// the position nor the owner of any zord.
pub proof fn law_rest_keeps_zords(g: GameView)
    ensures
        rested(g).zords.len() == g.zords.len(),
        forall|i: int|
            0 <= i < g.zords.len() ==> (#[trigger] rested(g).zords[i]).hp == g.zords[i].hp
                && rested(g).zords[i].x == g.zords[i].x && rested(g).zords[i].y == g.zords[i].y
                && rested(g).zords[i].owner == g.zords[i].owner,
{
}

/// Whether every zord has a cell to itself: no two zords share a cell, and
/// no zord shares one with a totem.
pub open spec fn cells_apart(g: GameView) -> bool {
    &&& forall|i: int, j: int|
        0 <= i < j < g.zords.len() ==> !(#[trigger] g.zords[i]).on_cell(
            (#[trigger] g.zords[j]).x,
            g.zords[j].y,
        )
    &&& forall|i: int|
        0 <= i < g.zords.len() ==> !(#[trigger] g.zords[i]).on_cell(g.totems.0.x, g.totems.0.y)
            && !g.zords[i].on_cell(g.totems.1.x, g.totems.1.y)
}

/// A cell that is not occupied holds neither a zord nor a totem.
pub proof fn lemma_free_cell(g: GameView, x: int, y: int)
    requires
        !g.occupied(x, y),
    ensures
        forall|i: int| 0 <= i < g.zords.len() ==> !(#[trigger] g.zords[i]).on_cell(x, y),
        !(g.totems.0.x == x && g.totems.0.y == y),
        !(g.totems.1.x == x && g.totems.1.y == y),
{
    lemma_zord_at(g.zords, x, y);
}

/// A move that the rules allow leaves every zord with a cell to itself.
pub proof fn law_move_keeps_cells_apart(
    g: GameView,
    player: Seq<char>,
    x_f: int,
    y_f: int,
    x_t: int,
    y_t: int,
    now: nat,
)
    requires
        cells_apart(g),
        move_refusal(g, player, x_f, y_f, x_t, y_t) is None,
    ensures
        cells_apart(move_effect(g, player, x_f, y_f, x_t, y_t, now)),
{
    lemma_zord_at(g.zords, x_f, y_f);
    lemma_free_cell(g, x_t, y_t);
    let after = move_effect(g, player, x_f, y_f, x_t, y_t, now);
    assert forall|i: int, j: int| 0 <= i < j < after.zords.len() implies !(
    #[trigger] after.zords[i]).on_cell((#[trigger] after.zords[j]).x, after.zords[j].y) by {
        assert(!g.zords[i].on_cell(g.zords[j].x, g.zords[j].y));
    }
    assert forall|i: int| 0 <= i < after.zords.len() implies !(#[trigger] after.zords[i]).on_cell(
        after.totems.0.x,
        after.totems.0.y,
    ) && !after.zords[i].on_cell(after.totems.1.x, after.totems.1.y) by {
        assert(!g.zords[i].on_cell(g.totems.0.x, g.totems.0.y));
    }
}

/// A zord that the rules allow to be built leaves every zord with a cell to
/// itself.
pub proof fn law_build_keeps_cells_apart(g: GameView, player: Seq<char>, x: int, y: int, now: nat)
    requires
        cells_apart(g),
        build_refusal(g, player, x, y) is None,
    ensures
        cells_apart(build_effect(g, player, x, y, now)),
{
    lemma_free_cell(g, x, y);
    let after = build_effect(g, player, x, y, now);
    assert forall|i: int, j: int| 0 <= i < j < after.zords.len() implies !(
    #[trigger] after.zords[i]).on_cell((#[trigger] after.zords[j]).x, after.zords[j].y) by {
        if j < g.zords.len() {
            assert(!g.zords[i].on_cell(g.zords[j].x, g.zords[j].y));
        }
    }
    assert forall|i: int| 0 <= i < after.zords.len() implies !(#[trigger] after.zords[i]).on_cell(
        after.totems.0.x,
        after.totems.0.y,
    ) && !after.zords[i].on_cell(after.totems.1.x, after.totems.1.y) by {
        if i < g.zords.len() {
            assert(!g.zords[i].on_cell(g.totems.0.x, g.totems.0.y));
        }
    }
}

/// A shot that the rules allow leaves every zord with a cell to itself.
pub proof fn law_shot_keeps_cells_apart(
    g: GameView,
    player: Seq<char>,
    x_f: int,
    y_f: int,
    x_t: int,
    y_t: int,
    now: nat,
)
    requires
        g.wf(),
        cells_apart(g),
        shoot_refusal(g, player, x_f, y_f, x_t, y_t, now) is None,
    ensures
        cells_apart(shoot_effect(g, player, x_f, y_f, x_t, y_t, now)),
{
    law_shot_removes_the_dead(g, player, x_f, y_f, x_t, y_t, now);
    let t = zord_at(g.zords, x_t, y_t).unwrap();
    let after = shoot_effect(g, player, x_f, y_f, x_t, y_t, now);
    if g.zords[t].hit().hp == 0 {
        assert forall|i: int, j: int| 0 <= i < j < after.zords.len() implies !(
        #[trigger] after.zords[i]).on_cell((#[trigger] after.zords[j]).x, after.zords[j].y) by {
            let a = if i < t {
                i
            } else {
                i + 1
            };
            let b = if j < t {
                j
            } else {
                j + 1
            };
        }
        assert forall|i: int| 0 <= i < after.zords.len() implies !(
        #[trigger] after.zords[i]).on_cell(after.totems.0.x, after.totems.0.y)
            && !after.zords[i].on_cell(after.totems.1.x, after.totems.1.y) by {
            let a = if i < t {
                i
            } else {
                i + 1
            };
        }
    } else {
        assert forall|i: int, j: int| 0 <= i < j < after.zords.len() implies !(
        #[trigger] after.zords[i]).on_cell((#[trigger] after.zords[j]).x, after.zords[j].y) by {
            assert(!g.zords[i].on_cell(g.zords[j].x, g.zords[j].y));
        }
        assert forall|i: int| 0 <= i < after.zords.len() implies !(
        #[trigger] after.zords[i]).on_cell(after.totems.0.x, after.totems.0.y)
            && !after.zords[i].on_cell(after.totems.1.x, after.totems.1.y) by {
            assert(!g.zords[i].on_cell(g.totems.0.x, g.totems.0.y));
        }
    }
}

/// Totems that move to an admissible cell stand on two cells of the board
/// that no zord holds, and not on one and the same.
pub proof fn law_totems_move_to_free_cells(g: GameView, x: int, y: int, now: nat)
    requires
        admissible(g, x, y),
    ensures
        on_board(relocated(g, x, y, now).totems.0.x, relocated(g, x, y, now).totems.0.y),
        on_board(relocated(g, x, y, now).totems.1.x, relocated(g, x, y, now).totems.1.y),
        chebyshev(
            relocated(g, x, y, now).totems.0.x,
            relocated(g, x, y, now).totems.0.y,
            relocated(g, x, y, now).totems.1.x,
            relocated(g, x, y, now).totems.1.y,
        ) > 2 * TOTEM_AURA,
        forall|i: int|
            0 <= i < g.zords.len() ==> !(#[trigger] relocated(g, x, y, now).zords[i]).on_cell(
                relocated(g, x, y, now).totems.0.x,
                relocated(g, x, y, now).totems.0.y,
            ) && !relocated(g, x, y, now).zords[i].on_cell(
                relocated(g, x, y, now).totems.1.x,
                relocated(g, x, y, now).totems.1.y,
            ),
{
    let m = mirrored(x, y);
    lemma_free_cell(g, x, y);
    lemma_free_cell(g, m.0, m.1);
}

/// Whether one of the totems or of the first `n` zords sits on `(x, y)`.
pub open spec fn held_among(g: GameView, x: int, y: int, n: nat) -> bool {
    ||| (x == g.totems.0.x && y == g.totems.0.y)
    ||| (x == g.totems.1.x && y == g.totems.1.y)
    ||| exists|i: int| 0 <= i < n && (#[trigger] g.zords[i]).on_cell(x, y)
}

/// The distance from a cell to the nearest of the totems and the first `n`
/// zords is zero exactly where one of them sits on the cell.
pub proof fn lemma_clearance(g: GameView, x: int, y: int, n: nat)
    requires
        n <= g.zords.len(),
    ensures
        clearance_among(g, x, y, n) >= 0,
        clearance_among(g, x, y, n) == 0 <==> held_among(g, x, y, n),
    decreases n,
{
    if n > 0 {
        let m = (n - 1) as nat;
        lemma_clearance(g, x, y, m);
        let last = g.zords[n - 1];
        if held_among(g, x, y, n) && !held_among(g, x, y, m) {
            let i = choose|i: int| 0 <= i < n && (#[trigger] g.zords[i]).on_cell(x, y);
            if i < m {
                assert(held_among(g, x, y, m));
            }
        }
        if held_among(g, x, y, m) && !held_among(g, x, y, n) {
            let i = choose|i: int| 0 <= i < m && (#[trigger] g.zords[i]).on_cell(x, y);
            assert(0 <= i < n && g.zords[i].on_cell(x, y));
        }
        if last.on_cell(x, y) {
            assert(0 <= n - 1 < n && g.zords[n - 1].on_cell(x, y));
        }
    }
}

/// While a cell of the board is free, a zord that respawns gets a cell to
/// itself: the respawn cell is then free, and every zord still has a cell
/// to itself afterwards.
pub proof fn law_respawn_keeps_cells_apart(
    g: GameView,
    name: Seq<char>,
    now: nat,
    x: int,
    y: int,
    free_x: int,
    free_y: int,
)
    requires
        cells_apart(g),
        is_respawn_cell(g, x, y),
        on_board(free_x, free_y),
        !g.occupied(free_x, free_y),
    ensures
        respawn_cell(g) == (x, y),
        !g.occupied(x, y),
        cells_apart(respawned(g, name, now)),
{
    lemma_respawn_cell_is(g, x, y);
    lemma_free_cell(g, free_x, free_y);
    lemma_clearance(g, free_x, free_y, g.zords.len());
    lemma_clearance(g, x, y, g.zords.len());
    assert(outdoes(g, x, y, free_x, free_y));
    assert(!held_among(g, free_x, free_y, g.zords.len())) by {
        if held_among(g, free_x, free_y, g.zords.len()) {
            let i = choose|i: int|
                0 <= i < g.zords.len() && (#[trigger] g.zords[i]).on_cell(free_x, free_y);
            assert(!g.zords[i].on_cell(free_x, free_y));
        }
    }
    assert forall|i: int| 0 <= i < g.zords.len() implies !(#[trigger] g.zords[i]).on_cell(x, y) by {
        if g.zords[i].on_cell(x, y) {
            assert(held_among(g, x, y, g.zords.len()));
        }
    }
    lemma_zord_at(g.zords, x, y);
    let after = respawned(g, name, now);
    assert forall|i: int, j: int| 0 <= i < j < after.zords.len() implies !(
    #[trigger] after.zords[i]).on_cell((#[trigger] after.zords[j]).x, after.zords[j].y) by {
        if j < g.zords.len() {
            assert(!g.zords[i].on_cell(g.zords[j].x, g.zords[j].y));
        }
    }
    assert forall|i: int| 0 <= i < after.zords.len() implies !(#[trigger] after.zords[i]).on_cell(
        after.totems.0.x,
        after.totems.0.y,
    ) && !after.zords[i].on_cell(after.totems.1.x, after.totems.1.y) by {
        if i < g.zords.len() {
            assert(!g.zords[i].on_cell(g.totems.0.x, g.totems.0.y));
        }
    }
}

/// The zords of a player after respawns in an order without repeats: one
/// more than before if the player is in the order, as many as before if not.
pub proof fn lemma_owned_after_respawns(
    g: GameView,
    order: Seq<Seq<char>>,
    now: nat,
    name: Seq<char>,
)
    requires
        order.no_duplicates(),
    ensures
        owned(respawned_all(g, order, now).zords, name) == owned(g.zords, name) + if order.contains(
            name,
        ) {
            1nat
        } else {
            0nat
        },
    decreases order.len(),
{
    if order.len() > 0 {
        let front = order.drop_last();
        assert forall|a: int, b: int| 0 <= a < front.len() && 0 <= b < front.len() && a
            != b implies front[a] != front[b] by {
            assert(front[a] == order[a] && front[b] == order[b]);
        }
        lemma_owned_after_respawns(g, front, now, name);
        let earlier = respawned_all(g, front, now);
        let c = respawn_cell(earlier);
        lemma_count_push(earlier.zords, owned_by(name), ZordView::fresh(order.last(), c.0, c.1));
        if front.contains(name) {
            let w = choose|w: int| 0 <= w < front.len() && front[w] == name;
            assert(order[w] == name);
        } else if order.contains(name) {
            let w = choose|w: int| 0 <= w < order.len() && order[w] == name;
            if w < front.len() {
                assert(front[w] == name);
            }
        }
        if order.last() == name {
            assert(order[order.len() - 1] == name);
        }
    } else {
        assert(!order.contains(name));
    }
}

/// After the respawns of a day's turn every player who had no zord has
/// exactly one, and every player who had zords has as many as before.
pub proof fn law_respawn_gives_one_zord(
    g: GameView,
    order: Seq<Seq<char>>,
    now: nat,
    name: Seq<char>,
)
    requires
        respawn_order(g, order),
        g.has_player(name),
    ensures
        zordless(g, name) ==> owned(respawned_all(g, order, now).zords, name) == 1,
        !zordless(g, name) ==> owned(respawned_all(g, order, now).zords, name) == owned(
            g.zords,
            name,
        ),
{
    lemma_owned_after_respawns(g, order, now, name);
    lemma_count_bounds(g.zords, owned_by(name));
    if zordless(g, name) {
        assert forall|i: int| 0 <= i < g.zords.len() implies !owned_by(name)(
            #[trigger] g.zords[i],
        ) by {}
    } else {
        if order.contains(name) {
            let w = choose|w: int| 0 <= w < order.len() && order[w] == name;
            assert(zordless(g, order[w]));
        }
    }
}

/// After a day's turn every player who had no zord has exactly one, and
/// every player who had zords has as many as before.
pub proof fn law_new_day_respawns(
    g: GameView,
    now: nat,
    site: Option<(int, int)>,
    order: Seq<Seq<char>>,
    name: Seq<char>,
)
    requires
        g.wf(),
        new_day_choice(g, now, site, order),
        g.has_player(name),
    ensures
        zordless(g, name) ==> owned(new_day_result(g, now, site, order).zords, name) == 1,
        !zordless(g, name) ==> owned(new_day_result(g, now, site, order).zords, name) == owned(
            g.zords,
            name,
        ),
{
    let dawned = dawn(g, now);
    let first = paid_by(dawned, dawned.totems.0, now);
    lemma_same_names(dawned, first.players);
    lemma_same_names(first, paid(dawned, now).players);
    let set = placed(g, now, site);
    law_respawn_gives_one_zord(set, order, now, name);
    let before = respawned_all(set, order, now).zords;
    let after = new_day_result(g, now, site, order).zords;
    assert forall|i: int| 0 <= i < before.len() implies owned_by(name)(#[trigger] before[i])
        == owned_by(name)(after[i]) by {}
    lemma_count_alike(before, after, owned_by(name));
}

} // verus!
