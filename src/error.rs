//! Errors of the rating engine.

use vstd::prelude::*;

verus! {

/// Why processing an event, or one step of it, was refused.
#[derive(Debug, PartialEq, Eq, Structural)]
pub enum EloError {
    /// A set names this per-event participant id, which the roster lacks.
    UnknownParticipant(i32),
    /// A completion time, in seconds since the epoch, that names no date.
    InvalidTimestamp(i64),
    /// A counter of the player with this global id would leave `i32`.
    CounterOverflow(i32),
    /// The namespace holds no row with this global id.
    UnknownPlayer(i32),
    /// A game title with no alphanumeric character gives no table name.
    EmptyTableName,
    /// A rating was handed in while no rated set was waiting for one.
    NoPendingSet,
    /// The event was closed before every set was played through.
    SetsLeft,
    /// A response lacks a field that the request asked for.
    MissingField,
    /// The chosen event index is not one of the tournament's events.
    NoSuchEvent,
}

} // verus!
