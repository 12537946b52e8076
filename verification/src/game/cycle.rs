//! What a day's turn does, as functions on the content of a game: payout,
//! move of the totems, respawn and reset.
use super::geometry::{chebyshev, on_board, BASE_BOARD_SIZE};
use super::log::Event;
use super::player::{PlayerView, BASE_ACTIONS};
use super::seqs::count;
use super::state::{owns_any, GameView, TOTEM_AURA, TOTEM_REWARD};
use super::totem::TotemView;
use super::zord::{ZordView, BASE_HP, BASE_RANGE};
use vstd::prelude::*;

verus! {

/// The zords that stand within the aura of `totem`.
pub open spec fn in_aura(totem: TotemView) -> spec_fn(ZordView) -> bool {
    |z: ZordView| chebyshev(totem.x, totem.y, z.x, z.y) <= TOTEM_AURA
}

/// The zords of `name` that stand within the aura of `totem`.
pub open spec fn in_aura_of(totem: TotemView, name: Seq<char>) -> spec_fn(ZordView) -> bool {
    |z: ZordView| chebyshev(totem.x, totem.y, z.x, z.y) <= TOTEM_AURA && z.owner == name
}

/// Number of zords within the aura of `totem`.
pub open spec fn aura_total(zords: Seq<ZordView>, totem: TotemView) -> nat {
    count(zords, in_aura(totem))
}

/// Number of zords of `name` within the aura of `totem`.
pub open spec fn aura_share(zords: Seq<ZordView>, totem: TotemView, name: Seq<char>) -> nat {
    count(zords, in_aura_of(totem, name))
}

/// The points that `totem` pays to `name`: the reward times their share of
/// the zords in the aura, rounded down; nothing where the aura is empty.
pub open spec fn payout(zords: Seq<ZordView>, totem: TotemView, name: Seq<char>) -> nat {
    if aura_total(zords, totem) == 0 {
        0
    } else {
        (TOTEM_REWARD * aura_share(zords, totem, name) / (aura_total(zords, totem) as int)) as nat
    }
}

/// The events that the payout of `totem` leaves for the first `n` players:
/// one for each of them who has a zord in the aura, in the order of the
/// players.
pub open spec fn payout_events(g: GameView, totem: TotemView, now: nat, n: nat) -> Seq<Event>
    decreases n,
{
    if n == 0 {
        Seq::empty()
    } else {
        let earlier = payout_events(g, totem, now, (n - 1) as nat);
        let name = g.players[n - 1].name;
        if aura_share(g.zords, totem, name) > 0 {
            earlier.push(
                Event::TotemPoints {
                    player: name,
                    coord: (totem.x, totem.y),
                    points: payout(g.zords, totem, name),
                    timestamp: now,
                },
            )
        } else {
            earlier
        }
    }
}

/// The players of `g` after the payout of `totem` to the first `n` of them.
pub open spec fn paid_players(g: GameView, totem: TotemView, n: nat) -> Seq<PlayerView> {
    Seq::new(
        g.players.len(),
        |j: int|
            if j < n {
                PlayerView {
                    points: g.players[j].points + payout(g.zords, totem, g.players[j].name),
                    ..g.players[j]
                }
            } else {
                g.players[j]
            },
    )
}

/// The game after the payout of `totem` at time `now`: every player has the
/// points that the totem pays them, and the log has their events.
pub open spec fn paid_by(g: GameView, totem: TotemView, now: nat) -> GameView {
    GameView {
        players: paid_players(g, totem, g.players.len()),
        log: g.log + payout_events(g, totem, now, g.players.len()),
        ..g
    }
}

/// The game after the payout of both totems at time `now`, the first totem
/// first.
pub open spec fn paid(g: GameView, now: nat) -> GameView {
    paid_by(paid_by(g, g.totems.0, now), g.totems.1, now)
}

/// The points that `totem` pays to the first `n` players together.
pub open spec fn total_payout(g: GameView, totem: TotemView, n: nat) -> nat
    decreases n,
{
    if n == 0 {
        0
    } else {
        total_payout(g, totem, (n - 1) as nat) + payout(g.zords, totem, g.players[n - 1].name)
    }
}

/// The cell that lies opposite `(x, y)` through the centre of the board.
pub open spec fn mirrored(x: int, y: int) -> (int, int) {
    (BASE_BOARD_SIZE - 1 - x, BASE_BOARD_SIZE - 1 - y)
}

/// Whether the totems may move to `(x, y)` and the cell opposite: both are
/// free cells of the board, more than two aura radii apart.
pub open spec fn admissible(g: GameView, x: int, y: int) -> bool {
    let m = mirrored(x, y);
    &&& on_board(x, y)
    &&& chebyshev(x, y, m.0, m.1) > 2 * TOTEM_AURA
    &&& !g.occupied(x, y)
    &&& !g.occupied(m.0, m.1)
}

/// Place of the cell `(x, y)` in the order in which the board is scanned:
/// row by row from `y = 0`, each row from `x = 0`.
pub open spec fn rank(x: int, y: int) -> int {
    y * BASE_BOARD_SIZE + x
}

/// The cell at place `rank` of the scan.
pub open spec fn cell_at(rank: int) -> (int, int) {
    (rank % (BASE_BOARD_SIZE as int), rank / (BASE_BOARD_SIZE as int))
}

/// Number of admissible cells among the first `rank` cells of the scan.
pub open spec fn admissible_below(g: GameView, rank: nat) -> nat
    decreases rank,
{
    if rank == 0 {
        0
    } else {
        admissible_below(g, (rank - 1) as nat) + if admissible(
            g,
            cell_at(rank - 1).0,
            cell_at(rank - 1).1,
        ) {
            1nat
        } else {
            0nat
        }
    }
}

/// Number of cells of the board.
pub open spec fn cells() -> nat {
    (BASE_BOARD_SIZE * BASE_BOARD_SIZE) as nat
}

/// The game after the totems have moved to `(x, y)` and the cell opposite at
/// time `now`, with the two events in the log.
pub open spec fn relocated(g: GameView, x: int, y: int, now: nat) -> GameView {
    let m = mirrored(x, y);
    GameView {
        totems: (TotemView { x, y }, TotemView { x: m.0, y: m.1 }),
        log: g.log.push(Event::TotemSpawned { coord: (x, y), timestamp: now }).push(
            Event::TotemSpawned { coord: m, timestamp: now },
        ),
        ..g
    }
}

/// The smaller of two integers.
pub open spec fn lesser(a: int, b: int) -> int {
    if a <= b {
        a
    } else {
        b
    }
}

/// Distance from `(x, y)` to the nearest of the two totems and the first
/// `n` zords.
pub open spec fn clearance_among(g: GameView, x: int, y: int, n: nat) -> int
    decreases n,
{
    if n == 0 {
        lesser(
            chebyshev(x, y, g.totems.0.x, g.totems.0.y),
            chebyshev(x, y, g.totems.1.x, g.totems.1.y),
        )
    } else {
        lesser(
            clearance_among(g, x, y, (n - 1) as nat),
            chebyshev(x, y, g.zords[n - 1].x, g.zords[n - 1].y),
        )
    }
}

/// Distance from `(x, y)` to the nearest zord or totem.
pub open spec fn clearance(g: GameView, x: int, y: int) -> int {
    clearance_among(g, x, y, g.zords.len())
}

/// Whether `(x, y)` is at least as good a place to respawn as `(cx, cy)`:
/// it lies farther from everything, or as far and not later in the scan.
pub open spec fn outdoes(g: GameView, x: int, y: int, cx: int, cy: int) -> bool {
    clearance(g, x, y) > clearance(g, cx, cy) || (clearance(g, x, y) == clearance(g, cx, cy)
        && rank(x, y) <= rank(cx, cy))
}

/// Whether `(x, y)` is the cell on which a zord respawns: the first cell in
/// the scan of the board among those that lie farthest from every zord and
/// totem.
pub open spec fn is_respawn_cell(g: GameView, x: int, y: int) -> bool {
    on_board(x, y) && forall|cx: int, cy: int|
        on_board(cx, cy) ==> #[trigger] outdoes(g, x, y, cx, cy)
}

/// The cell on which a zord respawns.
pub open spec fn respawn_cell(g: GameView) -> (int, int) {
    choose|c: (int, int)| is_respawn_cell(g, c.0, c.1)
}

/// The game after `name` has respawned at time `now`: a fresh zord of theirs
/// stands on the respawn cell, and the event is logged.
pub open spec fn respawned(g: GameView, name: Seq<char>, now: nat) -> GameView {
    let c = respawn_cell(g);
    g.with_zords(g.zords.push(ZordView::fresh(name, c.0, c.1))).logged(
        Event::Respawn { player: name, coord: c, timestamp: now },
    )
}

/// The game after the players `order` have respawned at time `now`, one
/// after the other.
pub open spec fn respawned_all(g: GameView, order: Seq<Seq<char>>, now: nat) -> GameView
    decreases order.len(),
{
    if order.len() == 0 {
        g
    } else {
        respawned(respawned_all(g, order.drop_last(), now), order.last(), now)
    }
}

/// Whether `after` holds the zords of `before`, each in its place and as it
/// was, followed by fresh zords that stand on cells of the board.
pub open spec fn joined_by_fresh(before: Seq<ZordView>, after: Seq<ZordView>) -> bool {
    &&& before.len() <= after.len()
    &&& forall|i: int| 0 <= i < before.len() ==> #[trigger] after[i] == before[i]
    &&& forall|i: int|
        before.len() <= i < after.len() ==> (#[trigger] after[i]).hp == BASE_HP && after[i].shields
            == 0 && after[i].range == BASE_RANGE && on_board(after[i].x, after[i].y)
}

/// Whether the log of `after` ends with one respawn event, stamped `now`,
/// for each zord that `after` holds beyond the first `kept`, in their order
/// and each with the owner and the cell of its zord.
pub open spec fn respawns_logged(kept: nat, after: GameView, now: nat) -> bool {
    let added = after.zords.len() - kept;
    &&& 0 <= added <= after.log.len()
    &&& forall|k: int|
        0 <= k < added ==> #[trigger] after.log[after.log.len() - added + k] == (Event::Respawn {
            player: after.zords[kept + k].owner,
            coord: (after.zords[kept + k].x, after.zords[kept + k].y),
            timestamp: now,
        })
}

/// Whether `name` is a player without a zord.
pub open spec fn zordless(g: GameView, name: Seq<char>) -> bool {
    g.has_player(name) && !owns_any(g.zords, name)
}

/// Whether `order` lists the players without a zord, each once.
pub open spec fn respawn_order(g: GameView, order: Seq<Seq<char>>) -> bool {
    &&& order.no_duplicates()
    &&& forall|k: int| 0 <= k < order.len() ==> zordless(g, #[trigger] order[k])
    &&& forall|name: Seq<char>| #[trigger] zordless(g, name) ==> order.contains(name)
}

/// The game as the end of a day's turn leaves it: every player has the full
/// budget of actions, every zord its base range and no shields.
pub open spec fn rested(g: GameView) -> GameView {
    GameView {
        players: Seq::new(
            g.players.len(),
            |j: int| PlayerView { actions: BASE_ACTIONS as nat, ..g.players[j] },
        ),
        zords: Seq::new(g.zords.len(), |i: int| g.zords[i].rested()),
        ..g
    }
}

/// The game as the start of a day's turn at time `now` leaves it: the day
/// counter is one more, and the day began at `now`.
pub open spec fn dawn(g: GameView, now: nat) -> GameView {
    GameView { start_of_day: now, day: g.day + 1, ..g }
}

/// Whether the totems move on the day that has just begun: on the first day
/// of each week of seven.
pub open spec fn totems_due(g: GameView) -> bool {
    g.day % 7 == 1
}

/// The game after the day's payout and, where `site` names a cell, the move
/// of the totems to it.
pub open spec fn placed(g: GameView, now: nat, site: Option<(int, int)>) -> GameView {
    let paid = paid(dawn(g, now), now);
    match site {
        Some(c) => relocated(paid, c.0, c.1, now),
        None => paid,
    }
}

/// The game after a day's turn at time `now` in which the totems move to
/// `site`, if it names a cell, and the players `order` respawn in that
/// order: day and time are set, the totems pay out, the totems move, the
/// players respawn, and actions, ranges and shields are reset.
pub open spec fn new_day_result(
    g: GameView,
    now: nat,
    site: Option<(int, int)>,
    order: Seq<Seq<char>>,
) -> GameView {
    rested(respawned_all(placed(g, now, site), order, now))
}

/// Whether a day's turn may go as `site` and `order` say. The totems move
/// exactly when they are due and some cell is admissible, and then to an
/// admissible cell; the players who respawn are those without a zord, each
/// once.
pub open spec fn new_day_choice(
    g: GameView,
    now: nat,
    site: Option<(int, int)>,
    order: Seq<Seq<char>>,
) -> bool {
    let paid = paid(dawn(g, now), now);
    &&& match site {
        Some(c) => totems_due(paid) && admissible(paid, c.0, c.1),
        None => !totems_due(paid) || forall|x: int, y: int| !#[trigger] admissible(paid, x, y),
    }
    &&& respawn_order(placed(g, now, site), order)
}

} // verus!
