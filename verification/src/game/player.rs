//! Players and their budget of actions.
use vstd::prelude::*;

verus! {

/// The action budget every player starts each day with.
pub const BASE_ACTIONS: u8 = 20;

/// A participant of the game, known by a unique name.
#[derive(Debug, PartialEq)]
pub struct Player {
    pub name: String,
    pub actions: u8,
    pub points: u16,
}

/// The mathematical content of a [`Player`].
pub struct PlayerView {
    pub name: Seq<char>,
    pub actions: nat,
    pub points: nat,
}

impl View for Player {
    type V = PlayerView;

    open spec fn view(&self) -> PlayerView {
        PlayerView {
            name: self.name@,
            actions: self.actions as nat,
            points: self.points as nat,
        }
    }
}

impl Clone for Player {
    fn clone(&self) -> (copy: Player)
        ensures
            copy == *self,
    {
        Player { name: self.name.clone(), actions: self.actions, points: self.points }
    }
}

impl Player {
    /// A player with the full daily budget and no points.
    pub fn new(name: &str) -> (player: Player)
        ensures
            player@ == (PlayerView { name: name@, actions: BASE_ACTIONS as nat, points: 0 }),
    {
        Player { name: name.to_owned(), actions: BASE_ACTIONS, points: 0 }
    }

    /// Takes `amount` actions off the budget. The caller has validated that
    /// the budget covers the amount.
    pub fn spend_action(&mut self, amount: u8)
        requires
            amount <= old(self).actions,
        ensures
            final(self)@ == (PlayerView {
                actions: (old(self).actions - amount) as nat,
                ..old(self)@
            }),
    {
        self.actions = self.actions - amount;
    }
}

} // verus!
