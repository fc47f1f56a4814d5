//! The state of a game in progress.

use crate::components::error::CatalogError;
use crate::components::item::Item;
use crate::components::planet::{POIType, Planet};
use crate::components::player::Player;
use crate::components::ship::Ship;
use crate::util::random::random_between;
use std::collections::HashMap;
use vstd::prelude::*;

verus! {

/// A game in progress: the planets, where the player is, and the player.
pub struct GameState {
    pub planets: Vec<Planet>,
    /// Index of the current planet
    pub current_planet: i32,
    /// Index of the current POI on the current planet
    pub current_poi: i32,
    pub player: Player,
    pub turn: i32,
}

impl GameState {
    /// Every planet is well-formed, and the two indices name a planet and
    /// one of its points of interest.
    pub open spec fn wf(&self) -> bool {
        &&& forall|i: int| 0 <= i < self.planets@.len() ==> (#[trigger] self.planets@[i])@.wf()
        &&& 0 <= self.current_planet < self.planets@.len()
        &&& 0 <= self.current_poi < self.planets@[self.current_planet as int].poi@.len()
    }

    /// Decides `wf`.
    pub fn is_wf(&self) -> (ok: bool)
        ensures
            ok == self.wf(),
    {
        let mut i: usize = 0;
        while i < self.planets.len()
            invariant
                i <= self.planets@.len(),
                forall|j: int| 0 <= j < i ==> (#[trigger] self.planets@[j])@.wf(),
            decreases self.planets@.len() - i,
        {
            if !self.planets[i].is_wf() {
                return false;
            }
            i = i + 1;
        }
        if self.current_planet < 0 || self.current_planet as usize >= self.planets.len() {
            return false;
        }
        let planet = &self.planets[self.current_planet as usize];
        0 <= self.current_poi && (self.current_poi as usize) < planet.poi.len()
    }

    /// A new game: six or seven random planets made for the catalog, the
    /// player at the first point of interest of the first planet, with the
    /// given name and ship and no money, before the first turn.
    ///
    /// Fails where the list holds fewer than two archetypes.
    pub fn new(
        name: String,
        ship: Ship,
        items: &HashMap<u32, Item>,
        poi_types: &Vec<POIType>,
    ) -> (made: Result<GameState, CatalogError>)
        ensures
            match made {
                Ok(state) => {
                    &&& poi_types@.len() >= 2
                    &&& 6 <= state.planets@.len() <= 7
                    &&& forall|i: int|
                        0 <= i < state.planets@.len() ==> (#[trigger] state.planets@[i])@.generated_from(
                            items@,
                        )
                    &&& state.current_planet == 0
                    &&& state.current_poi == 0
                    &&& state.player == (Player { name, ship, money: 0 })
                    &&& state.turn == 0
                    &&& state.wf()
                },
                Err(e) => poi_types@.len() < 2 && e == CatalogError::TooFewPoiTypes,
            },
    {
        if poi_types.len() < 2 {
            return Err(CatalogError::TooFewPoiTypes);
        }
        let count = random_between(6, 8);
        let mut planets: Vec<Planet> = Vec::new();
        let mut i: i32 = 0;
        while i < count
            invariant
                0 <= i <= count < 8,
                planets@.len() == i,
                poi_types@.len() >= 2,
                forall|j: int|
                    0 <= j < planets@.len() ==> (#[trigger] planets@[j])@.generated_from(items@),
            decreases count - i,
        {
            match Planet::generate(items, poi_types) {
                Ok(planet) => {
                    planets.push(planet);
                },
                Err(e) => {
                    return Err(e);
                },
            }
            i = i + 1;
        }
        let state = GameState {
            planets,
            current_planet: 0,
            current_poi: 0,
            player: Player::new(name, ship),
            turn: 0,
        };
        assert(state.planets@[0]@.wf());
        assert(state.planets@[0]@.poi.len() == state.planets@[0].poi@.len());
        Ok(state)
    }

    /// The planet the player is at.
    pub fn current_planet(&self) -> (planet: &Planet)
        requires
            0 <= self.current_planet < self.planets@.len(),
        ensures
            *planet == self.planets@[self.current_planet as int],
    {
        &self.planets[self.current_planet as usize]
    }

    /// Flies to the planet with this index, if there is one.
    ///
    /// Returns whether the index names a planet. If it does, that planet
    /// becomes the current one; nothing else changes either way.
    pub fn fly_to_planet(&mut self, planet_id: i32) -> (arrived: bool)
        ensures
            arrived == (0 <= planet_id < old(self).planets@.len()),
            arrived ==> *final(self) == (GameState { current_planet: planet_id, ..*old(self) }),
            !arrived ==> *final(self) == *old(self),
    {
        if planet_id < 0 || planet_id as usize >= self.planets.len() {
            return false;
        }
        self.current_planet = planet_id;
        true
    }
}

} // verus!
