//! The screens of the game and the moves between them.
//!
//! What is drawn, and where the player clicked, is for the program around
//! this library to find out. What a click leads to is decided here.

use crate::components::shared::Core;
use crate::components::state::GameState;
use vstd::prelude::*;

verus! {

/// The screen that is shown.
#[derive(Debug, Clone, Copy, PartialEq, Eq, Structural)]
pub enum Stage {
    MainMenu,
    ShipSelect,
    SystemView,
    PlanetView,
    POIView,
    /// Special state, ideally should never happen
    Error,
}

impl Default for Stage {
    fn default() -> (stage: Stage)
        ensures
            stage == Stage::MainMenu,
    {
        Stage::MainMenu
    }
}

/// What the player did on a screen.
#[derive(Debug, Clone, Copy, PartialEq, Eq, Structural)]
pub enum Event {
    /// Chose to start a new game in the main menu.
    NewGame,
    /// Clicked the planet with this index in the view of the system.
    PlanetChosen(usize),
    /// Clicked the point of interest with this index in the view of the
    /// planet.
    PoiChosen(usize),
    /// Pressed the button that leads back.
    Back,
}

/// Whether the event means something on the screen that is shown: a new
/// game can be started from the main menu; a planet can be chosen in the
/// view of the system and a point of interest in the view of a planet,
/// where a game is in progress that has it and its index fits 32 bits; and
/// the way back leads out of the views of a planet and of a point of
/// interest.
pub open spec fn applies(core: Core, event: Event) -> bool {
    match (core.current_stage, event) {
        (Stage::MainMenu, Event::NewGame) => true,
        (Stage::SystemView, Event::PlanetChosen(i)) => core.state is Some && i
            < core.state->0.planets@.len() && i <= i32::MAX,
        (Stage::PlanetView, Event::PoiChosen(i)) => {
            &&& core.state is Some
            &&& 0 <= core.state->0.current_planet < core.state->0.planets@.len()
            &&& i < core.state->0.planets@[core.state->0.current_planet as int].poi@.len()
            &&& i <= i32::MAX
        },
        (Stage::PlanetView, Event::Back) => true,
        (Stage::POIView, Event::Back) => true,
        _ => false,
    }
}

/// The shared state after an event that applies: the screen it leads to is
/// shown, and a planet or point of interest that was chosen is the current
/// one.
pub open spec fn after(core: Core, event: Event) -> Core {
    match event {
        Event::NewGame => Core { current_stage: Stage::ShipSelect, ..core },
        Event::PlanetChosen(i) => Core {
            current_stage: Stage::PlanetView,
            state: Some(GameState { current_planet: i as i32, ..core.state->0 }),
            ..core
        },
        Event::PoiChosen(i) => Core {
            current_stage: Stage::POIView,
            state: Some(GameState { current_poi: i as i32, ..core.state->0 }),
            ..core
        },
        Event::Back => Core {
            current_stage: if core.current_stage == Stage::POIView {
                Stage::PlanetView
            } else {
                Stage::SystemView
            },
            ..core
        },
    }
}

impl Core {
    /// Takes in what the player did.
    ///
    /// Returns whether the event applies on the screen that is shown. If
    /// it does, the state moves on as `after` says; if not, nothing
    /// changes.
    pub fn apply(&mut self, event: Event) -> (applied: bool)
        ensures
            applied == applies(*old(self), event),
            applied ==> *final(self) == after(*old(self), event),
            !applied ==> *final(self) == *old(self),
    {
        match (self.current_stage, event) {
            (Stage::MainMenu, Event::NewGame) => {
                self.current_stage = Stage::ShipSelect;
                true
            },
            (Stage::SystemView, Event::PlanetChosen(i)) => {
                match &mut self.state {
                    Some(state) => {
                        if i < state.planets.len() && i <= i32::MAX as usize {
                            state.current_planet = i as i32;
                            self.current_stage = Stage::PlanetView;
                            true
                        } else {
                            false
                        }
                    },
                    None => false,
                }
            },
            (Stage::PlanetView, Event::PoiChosen(i)) => {
                match &mut self.state {
                    Some(state) => {
                        if state.current_planet >= 0 && (state.current_planet as usize)
                            < state.planets.len() && i
                            < state.planets[state.current_planet as usize].poi.len() && i
                            <= i32::MAX as usize {
                            state.current_poi = i as i32;
                            self.current_stage = Stage::POIView;
                            true
                        } else {
                            false
                        }
                    },
                    None => false,
                }
            },
            (Stage::PlanetView, Event::Back) => {
                self.current_stage = Stage::SystemView;
                true
            },
            (Stage::POIView, Event::Back) => {
                self.current_stage = Stage::PlanetView;
                true
            },
            _ => false,
        }
    }

    /// Puts a game in progress and shows its system, from the main menu or
    /// from the choice of ship, where the game is well-formed.
    ///
    /// Returns whether the game was taken; if not, nothing changes.
    pub fn start_game(&mut self, state: GameState) -> (started: bool)
        ensures
            started == (state.wf() && (old(self).current_stage == Stage::MainMenu || old(
                self,
            ).current_stage == Stage::ShipSelect)),
            started ==> *final(self) == (Core {
                state: Some(state),
                current_stage: Stage::SystemView,
                ..*old(self)
            }),
            !started ==> *final(self) == *old(self),
    {
        match self.current_stage {
            Stage::MainMenu | Stage::ShipSelect => {
                if state.is_wf() {
                    self.state = Some(state);
                    self.current_stage = Stage::SystemView;
                    true
                } else {
                    false
                }
            },
            _ => false,
        }
    }

    /// Takes note of an error that cannot be recovered from, and shows the
    /// error screen.
    pub fn record_error(&mut self, message: String)
        ensures
            *final(self) == (Core {
                errors: final(self).errors,
                current_stage: Stage::Error,
                ..*old(self)
            }),
            final(self).errors@ == old(self).errors@.push(message),
    {
        self.errors.push(message);
        self.current_stage = Stage::Error;
    }
}

} // verus!
