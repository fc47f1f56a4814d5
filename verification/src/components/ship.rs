//! Ships and what they carry.
//!
//! Fuel amounts are single-precision floating-point numbers, kept here as
//! their IEEE 754 bit patterns. Among the patterns of finite numbers that
//! are not negative, a greater pattern is a greater number.

use crate::components::crew_member::CrewMember;
use std::collections::HashMap;
use vstd::prelude::*;

verus! {

/// The bit pattern of the greatest finite single-precision number.
pub const MAX_FINITE_BITS: u32 = 0x7f7f_ffff;

/// What a model of ship can hold.
pub struct ShipSpecification {
    pub name: String,
    /// Bit pattern of the greatest amount of fuel.
    pub max_fuel_bits: u32,
    pub max_inventory: i32,
    pub max_crew: i32,
}

/// A ship: its model, its fuel, its cargo by item id, and its crew.
pub struct Ship {
    pub specification: ShipSpecification,
    /// Bit pattern of the amount of fuel on board.
    pub fuel_bits: u32,
    pub inventory: HashMap<i32, i32>,
    pub crew: Vec<CrewMember>,
}

/// A ship as a mathematical value.
pub struct ShipView {
    pub specification: ShipSpecification,
    pub fuel_bits: u32,
    pub inventory: Map<i32, i32>,
    pub crew: Seq<CrewMember>,
}

impl View for Ship {
    type V = ShipView;

    open spec fn view(&self) -> ShipView {
        ShipView {
            specification: self.specification,
            fuel_bits: self.fuel_bits,
            inventory: self.inventory@,
            crew: self.crew@,
        }
    }
}

impl ShipView {
    /// The amount of the item with this id in the hold: 0 where the hold
    /// has no entry for it.
    pub open spec fn cargo(self, id: i32) -> int {
        if self.inventory.contains_key(id) {
            self.inventory[id] as int
        } else {
            0
        }
    }

    /// The fuel on board and the tank are finite amounts that are not
    /// negative, the fuel is no more than the tank holds, no cargo amount is
    /// negative, and every crew member is well-formed.
    pub open spec fn wf(self) -> bool {
        &&& self.fuel_bits <= self.specification.max_fuel_bits <= MAX_FINITE_BITS
        &&& forall|id: i32| #[trigger]
            self.inventory.contains_key(id) ==> self.inventory[id] >= 0
        &&& forall|i: int| 0 <= i < self.crew.len() ==> (#[trigger] self.crew[i]).wf()
    }
}

} // verus!
