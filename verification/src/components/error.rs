//! What can go wrong when a catalog is loaded, a trade is attempted or a
//! text is looked up.

use vstd::prelude::*;

verus! {

/// Reference data that cannot be used.
#[derive(Debug, Clone, Copy, PartialEq, Eq, Structural)]
pub enum CatalogError {
    /// The record on this line (counted from 1) is malformed: a field is
    /// missing, a number or the legality flag cannot be read, the price
    /// bounds are inverted, or an earlier record has the same id.
    MalformedRecord { line: usize },
    /// Fewer archetypes are on offer than a point of interest needs.
    TooFewPoiTypes,
}

/// Why a trade did not take place. A trade that fails changes nothing.
#[derive(Debug, Clone, Copy, PartialEq, Eq, Structural)]
pub enum TradeError {
    /// No game is in progress, so there is nobody to trade with.
    NoActivePlayer,
    /// The seller holds less of the item than was asked for.
    InsufficientStock,
    /// The buyer cannot pay the total price.
    InsufficientFunds,
}

/// Why a text could not be looked up.
#[derive(Debug, Clone, Copy, PartialEq, Eq, Structural)]
pub enum LanguageError {
    /// No translation is loaded, or it has no text under the key.
    KeyNotFound,
}

} // verus!
