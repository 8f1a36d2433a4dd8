//! Elo ratings and tournament statistics for the completed sets of a
//! smash.gg event, kept in an overall namespace and in one per game.
//!
//! Ratings are carried as the bits of IEEE-754 doubles: the rating formula
//! itself runs outside this library, which decides everything around it
//! (K-factor tiers, forfeits, counters, playing order, the ledger, ranks
//! and tournament counts).

pub mod error;
pub mod rating;
pub mod player;
pub mod roster;
pub mod table;
pub mod response;
pub mod request;
pub mod text;
pub mod ledger;
pub mod event;
