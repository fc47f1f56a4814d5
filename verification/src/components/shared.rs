//! What the whole program shares: settings, the item list, the game in
//! progress and the screen that is shown.

use crate::components::item::Item;
use crate::components::state::GameState;
use crate::states::Stage;
use vstd::prelude::*;

verus! {

/// The shared state of the program.
pub struct Core {
    /// The loaded translation file, if any.
    pub language: Option<serde_json::Value>,
    pub language_file: String,
    pub version: String,
    pub errors: Vec<String>,
    pub state: Option<GameState>,
    pub items: Vec<Item>,
    pub current_stage: Stage,
}

impl Default for Core {
    fn default() -> (core: Core)
        ensures
            core.language is None,
            core.language_file@.len() == 0,
            core.version@.len() == 0,
            core.errors@.len() == 0,
            core.state is None,
            core.items@.len() == 0,
            core.current_stage == Stage::MainMenu,
    {
        Core {
            language: None,
            language_file: String::new(),
            version: String::new(),
            errors: Vec::new(),
            state: None,
            items: Vec::new(),
            current_stage: Stage::MainMenu,
        }
    }
}

impl Core {
    /// The state at program start: English, no translation loaded, no game
    /// in progress, the main menu showing.
    pub fn new(version: String) -> (core: Core)
        ensures
            core.language is None,
            core.language_file@ == "en"@,
            core.version == version,
            core.errors@.len() == 0,
            core.state is None,
            core.items@.len() == 0,
            core.current_stage == Stage::MainMenu,
    {
        let mut core = Core::default();
        core.language_file = "en".to_owned();
        core.version = version;
        core
    }
}

} // verus!
