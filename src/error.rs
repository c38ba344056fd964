//! Errors of the lobby's operations.

use vstd::prelude::*;

verus! {

/// Why an operation on the session was refused. A refused operation never
/// changes any state.
#[derive(Debug, Clone, Copy, PartialEq, Eq, Structural)]
pub enum Error {
    /// The operation is not legal in the session's current phase.
    WrongPhase,
    /// The participant is already in the queue.
    AlreadyQueued,
    /// The queue already holds its ten members.
    QueueFull,
    /// The participant is not in the queue.
    NotQueued,
    /// A match can only start with a full queue.
    QueueNotFull,
    /// The participant has no external game id on record.
    RiotIdMissing,
    /// The map pool already holds its twenty-six maps.
    PoolFull,
    /// The map is already in the pool.
    DuplicateMap,
    /// The map is not in the pool.
    MapNotFound,
    /// The map pool is empty, so no vote can be held.
    NoMapsConfigured,
    /// The participant already is a captain.
    AlreadyCaptain,
    /// Only a captain may pick.
    NotCaptain,
    /// It is the other captain's turn to pick.
    WrongTurn,
    /// The picked participant already is on a team.
    AlreadyPicked,
    /// Only the second captain chooses the starting side.
    NotCaptainB,
    /// The text is not an external game id of the form `name#tag`.
    InvalidRiotId,
    /// A custom team name is limited to eighteen bytes.
    TeamNameTooLong,
    /// The command needs an argument that was not given.
    MissingArgument,
}

} // verus!
