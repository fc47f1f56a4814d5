pub mod config;
pub mod generators;
pub mod language;
pub mod random;
pub mod tally;
pub mod text;
