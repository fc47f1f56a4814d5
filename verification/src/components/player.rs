//! The player.

use crate::components::ship::Ship;
use vstd::prelude::*;

verus! {

/// The player: a name, funds and a ship.
pub struct Player {
    pub name: String,
    pub money: i32,
    pub ship: Ship,
}

impl Player {
    /// A player who starts out with this ship and no money.
    pub fn new(name: String, ship: Ship) -> (player: Player)
        ensures
            player == (Player { name, ship, money: 0 }),
    {
        Player { name, ship, money: 0 }
    }
}

} // verus!
