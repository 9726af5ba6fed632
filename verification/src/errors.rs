use vstd::prelude::*;

verus! {

/// Everything that can go wrong while driving an engine pair through a game.
///
/// The first three arise from the engine process and its protocol; the last
/// three arise when a returned move token is rejected at the parse, legality
/// or application stage.
#[derive(Debug, Clone, Copy, PartialEq, Eq, Structural)]
pub enum MatchError {
    /// The engine process could not be started.
    EngineSpawnError,
    /// The engine's output stream closed before the awaited response arrived.
    EngineDisconnected,
    /// The engine answered, but the response was malformed.
    ProtocolViolation,
    /// The returned token is not syntactically a move.
    InvalidMove,
    /// The move parsed but is not legal in the current position.
    IllegalMove,
    /// The rules collaborator refused to apply a move it had resolved as legal.
    GameApplyError,
}

} // verus!
