//! The rules of the six player actions, as functions on the content of a
//! game: why an action is refused, and what it does where it is not.
use super::error::Refusal;
use super::geometry::{chebyshev, on_board};
use super::log::Event;
use super::state::{
    living, owns_any, player_index, zord_at, GameView, ACTION_COST, GRACE_PERIOD, KILL_REWARD,
    MAX_DONATION_PER_ACTION, NEW_ZORD_COST,
};
use super::zord::ZordView;
use vstd::prelude::*;

verus! {

/// Why `player` may not put a shield on the zord on `(x, y)`, if anything
/// stands against it: the first of no zord there, not the player's zord, too
/// few actions.
pub open spec fn shield_refusal(g: GameView, player: Seq<char>, x: int, y: int) -> Option<Refusal> {
    match zord_at(g.zords, x, y) {
        None => Some(Refusal::ZordNotFound(x, y)),
        Some(i) => if g.zords[i].owner != player {
            Some(Refusal::NotOwned(x, y))
        } else if g.player(player).actions < ACTION_COST {
            Some(Refusal::OutOfActions)
        } else {
            None
        },
    }
}

/// The game after `player` has put a shield on the zord on `(x, y)` at time
/// `now`: the actions are spent, the zord has one shield more, the event is
/// logged.
pub open spec fn shield_effect(g: GameView, player: Seq<char>, x: int, y: int, now: nat) -> GameView {
    let i = zord_at(g.zords, x, y).unwrap();
    g.spend(player, ACTION_COST as nat).with_zords(
        g.zords.update(i, ZordView { shields: g.zords[i].shields + 1, ..g.zords[i] }),
    ).logged(Event::GenerateShield { player, zord_coord: (x, y), timestamp: now })
}

/// Why `player` may not raise the range of the zord on `(x, y)`, if anything
/// stands against it: the first of no zord there, not the player's zord, too
/// few actions.
pub open spec fn range_refusal(g: GameView, player: Seq<char>, x: int, y: int) -> Option<Refusal> {
    match zord_at(g.zords, x, y) {
        None => Some(Refusal::ZordNotFound(x, y)),
        Some(i) => if g.zords[i].owner != player {
            Some(Refusal::NotOwned(x, y))
        } else if g.player(player).actions < ACTION_COST / 2 {
            Some(Refusal::OutOfActions)
        } else {
            None
        },
    }
}

/// The game after `player` has raised the range of the zord on `(x, y)` at
/// time `now`: half the flat cost is spent, the range is one more, the event
/// is logged.
pub open spec fn range_effect(g: GameView, player: Seq<char>, x: int, y: int, now: nat) -> GameView {
    let i = zord_at(g.zords, x, y).unwrap();
    g.spend(player, (ACTION_COST / 2) as nat).with_zords(
        g.zords.update(i, ZordView { range: g.zords[i].range + 1, ..g.zords[i] }),
    ).logged(Event::IncreaseRange { player, zord_coord: (x, y), timestamp: now })
}

/// Why `player` may not move the zord on `(x_f, y_f)` to `(x_t, y_t)`, if
/// anything stands against it: the first of destination occupied, no zord at
/// the source, not the player's zord, farther than the player has actions,
/// destination off the board, too few actions.
pub open spec fn move_refusal(
    g: GameView,
    player: Seq<char>,
    x_f: int,
    y_f: int,
    x_t: int,
    y_t: int,
) -> Option<Refusal> {
    if g.occupied(x_t, y_t) {
        Some(Refusal::CellOccupied(x_t, y_t))
    } else {
        match zord_at(g.zords, x_f, y_f) {
            None => Some(Refusal::ZordNotFound(x_f, y_f)),
            Some(i) => if g.zords[i].owner != player {
                Some(Refusal::NotOwned(x_f, y_f))
            } else if chebyshev(x_f, y_f, x_t, y_t) > g.player(player).actions {
                Some(Refusal::NotInRange(x_f, y_f, x_t, y_t))
            } else if !on_board(x_t, y_t) {
                Some(Refusal::OutOfBounds(x_t, y_t))
            } else if g.player(player).actions < chebyshev(x_f, y_f, x_t, y_t) {
                Some(Refusal::OutOfActions)
            } else {
                None
            },
        }
    }
}

/// The game after `player` has moved the zord on `(x_f, y_f)` to
/// `(x_t, y_t)` at time `now`: as many actions are spent as the cells are
/// apart, the zord stands on the destination, the event is logged.
pub open spec fn move_effect(
    g: GameView,
    player: Seq<char>,
    x_f: int,
    y_f: int,
    x_t: int,
    y_t: int,
    now: nat,
) -> GameView {
    let i = zord_at(g.zords, x_f, y_f).unwrap();
    g.spend(player, chebyshev(x_f, y_f, x_t, y_t) as nat).with_zords(
        g.zords.update(i, ZordView { x: x_t, y: y_t, ..g.zords[i] }),
    ).logged(Event::Move { player, from: (x_f, y_f), to: (x_t, y_t), timestamp: now })
}

/// Whether the grace period of the current day is over at time `now`.
pub open spec fn grace_over(g: GameView, now: nat) -> bool {
    now - g.start_of_day > GRACE_PERIOD
}

/// Why `player` may not shoot from `(x_f, y_f)` at `(x_t, y_t)` at time
/// `now`, if anything stands against it: the first of no zord at the source,
/// not the player's zord, target out of range, grace period not over, no
/// actions left, no zord of another player at the target, fewer actions left
/// than the shot costs.
pub open spec fn shoot_refusal(
    g: GameView,
    player: Seq<char>,
    x_f: int,
    y_f: int,
    x_t: int,
    y_t: int,
    now: nat,
) -> Option<Refusal> {
    match zord_at(g.zords, x_f, y_f) {
        None => Some(Refusal::ZordNotFound(x_f, y_f)),
        Some(i) => if g.zords[i].owner != player {
            Some(Refusal::NotOwned(x_f, y_f))
        } else if chebyshev(x_f, y_f, x_t, y_t) > g.zords[i].range {
            Some(Refusal::NotInRange(x_f, y_f, x_t, y_t))
        } else if !grace_over(g, now) {
            Some(Refusal::WithinGracePeriod)
        } else if g.player(player).actions == 0 {
            Some(Refusal::OutOfActions)
        } else if !enemy_at(g, player, x_t, y_t) {
            Some(Refusal::OwnZord)
        } else if g.player(player).actions < ACTION_COST {
            Some(Refusal::OutOfActions)
        } else {
            None
        },
    }
}

/// Whether a zord of another player than `player` stands on `(x, y)`.
pub open spec fn enemy_at(g: GameView, player: Seq<char>, x: int, y: int) -> bool {
    zord_at(g.zords, x, y) matches Some(t) && g.zords[t].owner != player
}

/// The points that are left of `points` after the loss of the last zord:
/// two thirds, rounded down.
pub open spec fn two_thirds(points: nat) -> nat {
    points * 2 / 3
}

/// The game after `player` has shot from `(x_f, y_f)` at the zord on
/// `(x_t, y_t)` at time `now`. The actions are spent and the target takes one
/// hit. If that kills it, the shooter gets the kill reward and the zord
/// leaves the board. If its owner then has no zord left anywhere, the owner
/// keeps two thirds of their points. The event is logged.
pub open spec fn shoot_effect(
    g: GameView,
    player: Seq<char>,
    x_f: int,
    y_f: int,
    x_t: int,
    y_t: int,
    now: nat,
) -> GameView {
    let t = zord_at(g.zords, x_t, y_t).unwrap();
    let victim = g.zords[t].owner;
    let struck = g.zords[t].hit();
    let paid = g.spend(player, ACTION_COST as nat);
    let rewarded = if struck.dead() {
        paid.credit(player, KILL_REWARD as nat)
    } else {
        paid
    };
    let cleared = rewarded.with_zords(living(g.zords.update(t, struck)));
    let settled = if owns_any(cleared.zords, victim) {
        cleared
    } else {
        cleared.with_player(
            victim,
            super::player::PlayerView {
                points: two_thirds(cleared.player(victim).points),
                ..cleared.player(victim)
            },
        )
    };
    settled.logged(
        Event::Shoot {
            shooter: player,
            from: (x_f, y_f),
            to: (x_t, y_t),
            target: victim,
            timestamp: now,
        },
    )
}

/// Whether `after` is `before` with one hit on the zord on `(x, y)` and
/// nothing else changed: the zord has lost a shield or a hit point, or has
/// left the board with its last hit point.
pub open spec fn target_struck(before: Seq<ZordView>, after: Seq<ZordView>, x: int, y: int) -> bool {
    zord_at(before, x, y) matches Some(t) && 0 <= t < before.len() && after == if before[t].hit().dead() {
        before.remove(t)
    } else {
        before.update(t, before[t].hit())
    }
}

/// Whether some zord of `from` has some zord of `to` within its own range.
pub open spec fn donation_in_range(zords: Seq<ZordView>, from: Seq<char>, to: Seq<char>) -> bool {
    exists|s: int, t: int|
        0 <= s < zords.len() && 0 <= t < zords.len() && within_reach(
            #[trigger] zords[s],
            #[trigger] zords[t],
            from,
            to,
        )
}

/// Whether `s` is a zord of `from`, `t` a zord of `to`, and `t` stands
/// within the range of `s`.
pub open spec fn within_reach(s: ZordView, t: ZordView, from: Seq<char>, to: Seq<char>) -> bool {
    s.owner == from && t.owner == to && chebyshev(s.x, s.y, t.x, t.y) <= s.range
}

/// Why `from` may not give `amount` points to `to`, if anything stands
/// against it: the first of amount over the cap, no such recipient, no such
/// donor, donor has fewer points, no zord of the donor has a zord of the
/// recipient in range, too few actions.
pub open spec fn donate_refusal(g: GameView, from: Seq<char>, to: Seq<char>, amount: nat) -> Option<
    Refusal,
> {
    if amount > MAX_DONATION_PER_ACTION {
        Some(Refusal::DonationLimit)
    } else if player_index(g.players, to) is None {
        Some(Refusal::PlayerNotFound(to))
    } else if player_index(g.players, from) is None {
        Some(Refusal::PlayerNotFound(from))
    } else if amount > g.player(from).points {
        Some(Refusal::NotEnoughPoints(g.player(from).points, amount))
    } else if !donation_in_range(g.zords, from, to) {
        Some(Refusal::DonationRange)
    } else if g.player(from).actions < ACTION_COST {
        Some(Refusal::OutOfActions)
    } else {
        None
    }
}

/// The game after `from` has given `amount` points to `to` at time `now`:
/// the actions are spent, the points have changed hands, the event is
/// logged.
pub open spec fn donate_effect(
    g: GameView,
    from: Seq<char>,
    to: Seq<char>,
    amount: nat,
    now: nat,
) -> GameView {
    g.spend(from, ACTION_COST as nat).debit(from, amount).credit(to, amount).logged(
        Event::DonatePoints { from, to, timestamp: now },
    )
}

/// Whether a zord of `player` stands on `(x, y)` or on a cell next to it.
pub open spec fn zord_nearby(zords: Seq<ZordView>, player: Seq<char>, x: int, y: int) -> bool {
    exists|i: int| 0 <= i < zords.len() && next_to(#[trigger] zords[i], player, x, y)
}

/// Whether `z` is a zord of `player` at most one cell away from `(x, y)`.
pub open spec fn next_to(z: ZordView, player: Seq<char>, x: int, y: int) -> bool {
    z.owner == player && chebyshev(z.x, z.y, x, y) <= 1
}

/// Why `player` may not build a zord on `(x, y)`, if anything stands against
/// it: the first of no zord of the player nearby, no actions left, too few
/// points, cell occupied, fewer actions left than building costs.
pub open spec fn build_refusal(g: GameView, player: Seq<char>, x: int, y: int) -> Option<Refusal> {
    if !zord_nearby(g.zords, player, x, y) {
        Some(Refusal::NoZordNearby(x, y))
    } else if g.player(player).actions == 0 {
        Some(Refusal::OutOfActions)
    } else if g.player(player).points < NEW_ZORD_COST {
        Some(Refusal::NotEnoughPoints(g.player(player).points, NEW_ZORD_COST as nat))
    } else if g.occupied(x, y) {
        Some(Refusal::CellOccupied(x, y))
    } else if g.player(player).actions < ACTION_COST {
        Some(Refusal::OutOfActions)
    } else {
        None
    }
}

/// The game after `player` has built a zord on `(x, y)` at time `now`: the
/// actions and the points are spent, a fresh zord that has already taken one
/// hit stands on the cell, the event is logged.
pub open spec fn build_effect(g: GameView, player: Seq<char>, x: int, y: int, now: nat) -> GameView {
    g.spend(player, ACTION_COST as nat).debit(player, NEW_ZORD_COST as nat).with_zords(
        g.zords.push(ZordView::fresh(player, x, y).hit()),
    ).logged(Event::BuildZord { player, zord_coord: (x, y), timestamp: now })
}

/// Whether `auth` holds the token `token` for the player `name`.
pub open spec fn token_matches(
    auth: Seq<(Seq<char>, Seq<char>)>,
    name: Seq<char>,
    token: Seq<char>,
) -> bool {
    exists|i: int| 0 <= i < auth.len() && #[trigger] auth[i] == (name, token)
}

} // verus!
