//! Zords and totems as one kind of thing that sits on a cell.
use super::geometry::{chebyshev, distance};
use super::totem::{Totem, TotemView};
use super::zord::{Zord, ZordView};
use vstd::prelude::*;

verus! {

/// What can sit on a cell of the board: a zord or a totem.
#[derive(Debug)]
pub enum Entity {
    Zord(Zord),
    Totem(Totem),
}

/// The mathematical content of an [`Entity`].
pub enum EntityView {
    Zord(ZordView),
    Totem(TotemView),
}

impl EntityView {
    /// The cell on which the entity sits.
    pub open spec fn coord(self) -> (int, int) {
        match self {
            EntityView::Zord(z) => (z.x, z.y),
            EntityView::Totem(t) => (t.x, t.y),
        }
    }
}

impl View for Entity {
    type V = EntityView;

    open spec fn view(&self) -> EntityView {
        match *self {
            Entity::Zord(z) => EntityView::Zord(z@),
            Entity::Totem(t) => EntityView::Totem(t@),
        }
    }
}

impl Entity {
    /// Whether the entity sits on `(x, y)`.
    pub fn is_coord(&self, x: i16, y: i16) -> (there: bool)
        ensures
            there == (self@.coord() == (x as int, y as int)),
    {
        match self {
            Entity::Zord(z) => z.x == x && z.y == y,
            Entity::Totem(t) => t.x == x && t.y == y,
        }
    }

    pub fn is_zord(&self) -> (zord: bool)
        ensures
            zord == (self@ is Zord),
    {
        match self {
            Entity::Zord(_) => true,
            Entity::Totem(_) => false,
        }
    }

    /// The zord, if the entity is one.
    pub fn get_zord(&self) -> (zord: Option<&Zord>)
        ensures
            match *self {
                Entity::Zord(z) => zord == Some(&z),
                Entity::Totem(_) => zord is None,
            },
    {
        match self {
            Entity::Zord(z) => Some(z),
            Entity::Totem(_) => None,
        }
    }

    /// The totem, if the entity is one.
    pub fn get_totem(&self) -> (totem: Option<&Totem>)
        ensures
            match *self {
                Entity::Totem(t) => totem == Some(&t),
                Entity::Zord(_) => totem is None,
            },
    {
        match self {
            Entity::Totem(t) => Some(t),
            Entity::Zord(_) => None,
        }
    }

    /// Applies one hit to a zord and reports whether it is dead afterwards;
    /// a totem takes no hit and is never dead.
    pub fn zord_hit(&mut self) -> (dead: bool)
        ensures
            match old(self)@ {
                EntityView::Zord(z) => final(self)@ == EntityView::Zord(z.hit()) && dead
                    == z.hit().dead(),
                EntityView::Totem(_) => final(self)@ == old(self)@ && !dead,
            },
    {
        match self {
            Entity::Zord(z) => z.hit(),
            Entity::Totem(_) => false,
        }
    }

    /// Puts one shield on a zord; leaves a totem as it is.
    pub fn zord_generate_shield(&mut self)
        requires
            old(self)@ matches EntityView::Zord(z) ==> z.shields < u8::MAX,
        ensures
            match old(self)@ {
                EntityView::Zord(z) => final(self)@ == EntityView::Zord(
                    ZordView { shields: z.shields + 1, ..z },
                ),
                EntityView::Totem(_) => final(self)@ == old(self)@,
            },
    {
        match self {
            Entity::Zord(z) => {
                z.generate_shield();
            },
            Entity::Totem(_) => {},
        }
    }

    /// Puts a zord on `(x, y)`; leaves a totem where it is.
    pub fn move_zord(&mut self, x: i16, y: i16)
        ensures
            match old(self)@ {
                EntityView::Zord(z) => final(self)@ == EntityView::Zord(
                    ZordView { x: x as int, y: y as int, ..z },
                ),
                EntityView::Totem(_) => final(self)@ == old(self)@,
            },
    {
        match self {
            Entity::Zord(z) => {
                z.set_coord(x, y);
            },
            Entity::Totem(_) => {},
        }
    }

    /// Chebyshev distance from the entity to `(x, y)`.
    pub fn distance(&self, x: i16, y: i16) -> (d: u16)
        ensures
            d == chebyshev(self@.coord().0, self@.coord().1, x as int, y as int),
    {
        match self {
            Entity::Zord(z) => distance(z.x, z.y, x, y),
            Entity::Totem(t) => distance(t.x, t.y, x, y),
        }
    }
}

} // verus!
