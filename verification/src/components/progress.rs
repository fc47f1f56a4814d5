use vstd::prelude::*;

verus! {

/// Achievements the player has unlocked so far.
pub struct Progression {
    pub achievments: Vec<i32>,
}

impl Progression {
    /// Whether `achievement` is among the unlocked ones.
    pub fn has_achievement(&self, achievement: i32) -> (found: bool)
        ensures
            found == self.achievments@.contains(achievement),
    {
        let mut i: usize = 0;
        while i < self.achievments.len()
            invariant
                i <= self.achievments.len(),
                forall|j: int| 0 <= j < i ==> self.achievments@[j] != achievement,
            decreases self.achievments.len() - i,
        {
            if self.achievments[i] == achievement {
                return true;
            }
            i += 1;
        }
        false
    }
}

} // verus!
