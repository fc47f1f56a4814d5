//! The people who work on a ship.

use vstd::prelude::*;

verus! {

/// What a crew member does on board.
#[derive(Debug, Clone, Copy, PartialEq, Eq, Structural)]
pub enum Job {
    Pilot,
    Mechanic,
    Gunner,
    Navigator,
    Doctor,
    Misc,
}

/// A member of a ship's crew.
pub struct CrewMember {
    pub name: String,
    pub job: Job,
    /// level 1 - 5, with tier comes salary but also effectiveness
    pub tier: i32,
    pub salary: i32,
}

impl CrewMember {
    /// The tier is one of the five levels.
    pub open spec fn wf(&self) -> bool {
        1 <= self.tier <= 5
    }
}

} // verus!
