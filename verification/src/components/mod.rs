pub mod averages;
pub mod crew_member;
pub mod error;
pub mod item;
pub mod market;
pub mod planet;
pub mod player;
pub mod progress;
pub mod shared;
pub mod ship;
pub mod state;
