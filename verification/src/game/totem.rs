//! Totems.
use vstd::prelude::*;

verus! {

/// A static, unowned source of points that sits on one cell.
#[derive(Debug)]
pub struct Totem {
    pub x: i16,
    pub y: i16,
}

/// The mathematical content of a [`Totem`].
pub struct TotemView {
    pub x: int,
    pub y: int,
}

impl View for Totem {
    type V = TotemView;

    open spec fn view(&self) -> TotemView {
        TotemView { x: self.x as int, y: self.y as int }
    }
}

impl Totem {
    pub fn new(x: i16, y: i16) -> (totem: Totem)
        ensures
            totem.x == x,
            totem.y == y,
    {
        Totem { x, y }
    }
}

} // verus!
