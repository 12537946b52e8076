//! Zords and what can happen to one.
use vstd::prelude::*;

verus! {

/// The range every zord has at the start of a day.
pub const BASE_RANGE: u8 = 5;

/// The hit points of a freshly created zord.
pub const BASE_HP: u8 = 2;

/// A unit on the board, owned by the player named `owner`.
#[derive(Debug)]
pub struct Zord {
    pub x: i16,
    pub y: i16,
    pub hp: u8,
    pub shields: u8,
    pub range: u8,
    pub owner: String,
}

/// The mathematical content of a [`Zord`].
pub struct ZordView {
    pub x: int,
    pub y: int,
    pub hp: nat,
    pub shields: nat,
    pub range: nat,
    pub owner: Seq<char>,
}

impl ZordView {
    /// The zord a player gets when one is created on `(x, y)`.
    pub open spec fn fresh(owner: Seq<char>, x: int, y: int) -> ZordView {
        ZordView {
            x,
            y,
            hp: BASE_HP as nat,
            shields: 0,
            range: BASE_RANGE as nat,
            owner,
        }
    }

    /// The zord after taking one hit: a shield absorbs it if there is one,
    /// otherwise it costs one hit point. A zord without hit points stays as
    /// it is.
    pub open spec fn hit(self) -> ZordView {
        if self.shields > 0 {
            ZordView { shields: (self.shields - 1) as nat, ..self }
        } else if self.hp > 0 {
            ZordView { hp: (self.hp - 1) as nat, ..self }
        } else {
            self
        }
    }

    /// Whether the zord has no hit points left.
    pub open spec fn dead(self) -> bool {
        self.hp == 0
    }

    /// The zord as a new day leaves it: range and shields back at their base
    /// values, hit points, position and owner untouched.
    pub open spec fn rested(self) -> ZordView {
        ZordView { range: BASE_RANGE as nat, shields: 0, ..self }
    }

    /// Whether the zord stands on `(x, y)`.
    pub open spec fn on_cell(self, x: int, y: int) -> bool {
        self.x == x && self.y == y
    }
}

impl View for Zord {
    type V = ZordView;

    open spec fn view(&self) -> ZordView {
        ZordView {
            x: self.x as int,
            y: self.y as int,
            hp: self.hp as nat,
            shields: self.shields as nat,
            range: self.range as nat,
            owner: self.owner@,
        }
    }
}

impl Zord {
    pub fn new(owner: &str, x: i16, y: i16) -> (zord: Zord)
        ensures
            zord@ == ZordView::fresh(owner@, x as int, y as int),
    {
        Zord { x, y, hp: BASE_HP, shields: 0, range: BASE_RANGE, owner: owner.to_owned() }
    }

    /// Applies one hit and reports whether the zord is dead afterwards.
    pub fn hit(&mut self) -> (dead: bool)
        ensures
            final(self)@ == old(self)@.hit(),
            dead == final(self)@.dead(),
    {
        if self.shields > 0 {
            self.shields = self.shields - 1;
        } else if self.hp > 0 {
            self.hp = self.hp - 1;
        }
        self.hp == 0
    }

    pub fn increase_range(&mut self)
        requires
            old(self).range < u8::MAX,
        ensures
            final(self)@ == (ZordView { range: old(self)@.range + 1, ..old(self)@ }),
    {
        self.range = self.range + 1;
    }

    pub fn generate_shield(&mut self)
        requires
            old(self).shields < u8::MAX,
        ensures
            final(self)@ == (ZordView { shields: old(self)@.shields + 1, ..old(self)@ }),
    {
        self.shields = self.shields + 1;
    }

    pub fn set_coord(&mut self, x: i16, y: i16)
        ensures
            final(self)@ == (ZordView { x: x as int, y: y as int, ..old(self)@ }),
    {
        self.x = x;
        self.y = y;
    }
}

/// A hit never leaves a zord with more hit points or shields than before,
/// and takes exactly one of the two away while there is something to take.
pub proof fn law_hit(z: ZordView)
    ensures
        z.hit().hp + z.hit().shields + 1 == z.hp + z.shields || (z.hp == 0 && z.shields == 0
            && z.hit() == z),
        z.hit().hp <= z.hp,
        z.hit().shields <= z.shields,
        z.hit().dead() <==> (z.hp == 0 || (z.shields == 0 && z.hp == 1)),
{
}

} // verus!
