//! Where a zord respawns and where the totems may stand.
use super::cycle::{
    admissible, admissible_below, cell_at, cells, clearance, clearance_among, is_respawn_cell,
    outdoes, rank, relocated, respawn_cell,
};
use super::game::Game;
use super::geometry::{distance, in_bounds, on_board, BASE_BOARD_SIZE};
use super::state::{GameView, TOTEM_AURA};
use super::totem::Totem;
use vstd::prelude::*;

verus! {

/// Every cell of the board has its place in the scan, below the number of
/// cells, and is the cell at that place.
pub proof fn lemma_rank(x: int, y: int)
    requires
        on_board(x, y),
    ensures
        0 <= rank(x, y) < cells(),
        cell_at(rank(x, y)) == (x, y),
{
}

/// Where no cell up to a place of the scan counts as admissible, none of
/// them is.
pub proof fn lemma_none_admissible_below(g: GameView, r: nat)
    requires
        admissible_below(g, r) == 0,
    ensures
        forall|q: int| 0 <= q < r ==> !admissible(g, #[trigger] cell_at(q).0, cell_at(q).1),
    decreases r,
{
    if r > 0 {
        lemma_none_admissible_below(g, (r - 1) as nat);
    }
}

/// Where the board counts no admissible cell, no cell is admissible.
pub proof fn lemma_no_sites(g: GameView)
    requires
        admissible_below(g, cells()) == 0,
    ensures
        forall|x: int, y: int| !#[trigger] admissible(g, x, y),
{
    lemma_none_admissible_below(g, cells());
    assert forall|x: int, y: int| !#[trigger] admissible(g, x, y) by {
        if on_board(x, y) {
            lemma_rank(x, y);
            assert(cell_at(rank(x, y)).0 == x && cell_at(rank(x, y)).1 == y);
        }
    }
}

/// No two cells are both the respawn cell.
pub proof fn lemma_respawn_cell_unique(g: GameView, a: (int, int), b: (int, int))
    requires
        is_respawn_cell(g, a.0, a.1),
        is_respawn_cell(g, b.0, b.1),
    ensures
        a == b,
{
    assert(outdoes(g, a.0, a.1, b.0, b.1));
    assert(outdoes(g, b.0, b.1, a.0, a.1));
}

/// A cell that is the respawn cell is the one that `respawn_cell` names.
pub proof fn lemma_respawn_cell_is(g: GameView, x: int, y: int)
    requires
        is_respawn_cell(g, x, y),
    ensures
        respawn_cell(g) == (x, y),
{
    let c = (x, y);
    assert(is_respawn_cell(g, c.0, c.1));
    lemma_respawn_cell_unique(g, respawn_cell(g), c);
}

impl Game {
    /// Distance from `(x, y)` to the nearest zord or totem.
    pub fn clearance_of(&self, x: i16, y: i16) -> (d: u16)
        ensures
            d == clearance(self@, x as int, y as int),
    {
        let to_first = distance(x, y, self.totems.0.x, self.totems.0.y);
        let to_second = distance(x, y, self.totems.1.x, self.totems.1.y);
        let mut d = if to_first <= to_second {
            to_first
        } else {
            to_second
        };
        let mut i: usize = 0;
        while i < self.zords.len()
            invariant
                i <= self.zords.len(),
                d == clearance_among(self@, x as int, y as int, i as nat),
            decreases self.zords.len() - i,
        {
            let to_zord = distance(x, y, self.zords[i].x, self.zords[i].y);
            if to_zord < d {
                d = to_zord;
            }
            i += 1;
        }
        d
    }

    /// The cell on which a zord respawns: the first cell in the scan of the
    /// board among those that lie farthest from every zord and totem. Every
    /// cell is held against every zord.
    pub fn calculate_respawn_coordinates(&self) -> (cell: (i16, i16))
        ensures
            is_respawn_cell(self@, cell.0 as int, cell.1 as int),
            respawn_cell(self@) == (cell.0 as int, cell.1 as int),
    {
        let mut best: (i16, i16) = (0, 0);
        let mut best_clearance = self.clearance_of(0, 0);
        let mut y: i16 = 0;
        while y < BASE_BOARD_SIZE
            invariant
                0 <= y <= BASE_BOARD_SIZE,
                on_board(best.0 as int, best.1 as int),
                best_clearance == clearance(self@, best.0 as int, best.1 as int),
                rank(best.0 as int, best.1 as int) <= rank(0, y as int),
                forall|cx: int, cy: int|
                    on_board(cx, cy) && cy < y ==> #[trigger] outdoes(
                        self@,
                        best.0 as int,
                        best.1 as int,
                        cx,
                        cy,
                    ),
            decreases BASE_BOARD_SIZE - y,
        {
            let mut x: i16 = 0;
            while x < BASE_BOARD_SIZE
                invariant
                    0 <= x <= BASE_BOARD_SIZE,
                    0 <= y < BASE_BOARD_SIZE,
                    on_board(best.0 as int, best.1 as int),
                    best_clearance == clearance(self@, best.0 as int, best.1 as int),
                    rank(best.0 as int, best.1 as int) <= rank(x as int, y as int),
                    forall|cx: int, cy: int|
                        on_board(cx, cy) && (cy < y || (cy == y && cx < x)) ==> #[trigger] outdoes(
                            self@,
                            best.0 as int,
                            best.1 as int,
                            cx,
                            cy,
                        ),
                decreases BASE_BOARD_SIZE - x,
            {
                let here = self.clearance_of(x, y);
                let ghost earlier = best;
                if best_clearance < here {
                    best = (x, y);
                    best_clearance = here;
                }
                proof {
                    assert forall|cx: int, cy: int|
                        on_board(cx, cy) && (cy < y || (cy == y && cx < x + 1)) implies #[trigger] outdoes(
                        self@,
                        best.0 as int,
                        best.1 as int,
                        cx,
                        cy,
                    ) by {
                        if cy < y || cx < x {
                            assert(outdoes(self@, earlier.0 as int, earlier.1 as int, cx, cy));
                        }
                    }
                }
                x += 1;
            }
            y += 1;
        }
        proof {
            lemma_respawn_cell_is(self@, best.0 as int, best.1 as int);
        }
        best
    }

    /// Whether the totems may move to `(x, y)` and the cell opposite.
    pub fn is_admissible(&self, x: i16, y: i16) -> (allowed: bool)
        ensures
            allowed == admissible(self@, x as int, y as int),
    {
        if !in_bounds(x, y) {
            return false;
        }
        let (mx, my) = (BASE_BOARD_SIZE - 1 - x, BASE_BOARD_SIZE - 1 - y);
        distance(x, y, mx, my) > 2 * TOTEM_AURA && !self.is_occupied(x, y) && !self.is_occupied(
            mx,
            my,
        )
    }

    /// Number of cells of the board to which the totems may move.
    pub fn count_totem_sites(&self) -> (n: usize)
        ensures
            n == admissible_below(self@, cells()),
    {
        let mut n: usize = 0;
        let mut r: usize = 0;
        while r < 19600
            invariant
                r <= 19600,
                n <= r,
                n == admissible_below(self@, r as nat),
            decreases 19600 - r,
        {
            let (x, y) = ((r % 140) as i16, (r / 140) as i16);
            if self.is_admissible(x, y) {
                n += 1;
            }
            r += 1;
        }
        n
    }

    /// The cell to which the totems move when the draw among the admissible
    /// cells gives `k`: the admissible cell that has `k` admissible cells
    /// before it in the scan of the board; none where the board has no more
    /// than `k` admissible cells.
    pub fn totem_site(&self, k: usize) -> (site: Option<(i16, i16)>)
        ensures
            match site {
                Some(c) => admissible(self@, c.0 as int, c.1 as int) && admissible_below(
                    self@,
                    rank(c.0 as int, c.1 as int) as nat,
                ) == k,
                None => admissible_below(self@, cells()) <= k,
            },
    {
        let mut n: usize = 0;
        let mut r: usize = 0;
        while r < 19600
            invariant
                r <= 19600,
                n <= r,
                n <= k,
                n == admissible_below(self@, r as nat),
            decreases 19600 - r,
        {
            let (x, y) = ((r % 140) as i16, (r / 140) as i16);
            if self.is_admissible(x, y) {
                if n == k {
                    return Some((x, y));
                }
                n += 1;
            }
            r += 1;
        }
        None
    }

    /// Moves the totems to `(x, y)` and the cell opposite at time `now`, if
    /// the cell is admissible, and says whether it was.
    pub fn relocate_totems(&mut self, x: i16, y: i16, now: u64) -> (moved: bool)
        ensures
            moved == admissible(old(self)@, x as int, y as int),
            moved ==> final(self)@ == relocated(old(self)@, x as int, y as int, now as nat),
            !moved ==> final(self)@ == old(self)@,
    {
        if !self.is_admissible(x, y) {
            return false;
        }
        let (mx, my) = (BASE_BOARD_SIZE - 1 - x, BASE_BOARD_SIZE - 1 - y);
        self.totems = (Totem::new(x, y), Totem::new(mx, my));
        self.logged_actions.totem_spawned((x, y), now);
        self.logged_actions.totem_spawned((mx, my), now);
        true
    }
}

} // verus!
