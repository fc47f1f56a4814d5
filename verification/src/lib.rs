//! Economic core of a small space-trading game.
//!
//! A player flies a ship between procedurally generated planets. Each
//! planet has points of interest, and each point of interest holds a market
//! for the items of a catalog: it stocks every item and has a demand for
//! each, and the price of an item there moves with that demand.
//!
//! - `components::item`: tradable items, the catalog text and its index.
//! - `components::planet`: archetypes, points of interest and planets, and
//!   how they are generated.
//! - `components::market`: prices, buying and selling, and what holds of
//!   them.
//! - `components::averages`: average demand and price over a planet.
//! - `components::state`, `components::player`, `components::ship`,
//!   `components::crew_member`, `components::progress`,
//!   `components::shared`: the game in progress and what the program
//!   shares.
//! - `states`: the screens and the moves between them.
//! - `util`: text scanning, sums over tables, chance, names, settings and
//!   texts in the player's language.
//!
//! Random numbers, roman numerals and JSON values come from the crates
//! `rand`, `roman` and `serde_json`. Each call into them is wrapped in one
//! small function whose contract is taken on trust; everything else is
//! proved.

pub mod components;
pub mod states;
pub mod util;
