//! A board as a side length and a list of entities.
use super::entity::Entity;
use vstd::prelude::*;

verus! {

/// A square board of a given side length and what sits on it.
#[derive(Debug)]
pub struct Board {
    pub size: i16,
    pub board: Vec<Entity>,
}

impl Board {
    /// An empty board of side length `size`.
    pub fn new(size: i16) -> (board: Board)
        ensures
            board.size == size,
            board.board@.len() == 0,
    {
        Board { size, board: Vec::new() }
    }
}

} // verus!
