//! The engine's game state, as far as the registry looks into it.

use vstd::prelude::*;

verus! {

/// A full snapshot of one game.
///
/// The registry reads the two seats, whose turn it is, the turn counter and the
/// phase label. Everything else the engine knows travels in `document`, the
/// engine's own JSON encoding of the state, which is stored and handed on
/// without being parsed.
#[derive(Clone, Debug, PartialEq, Eq)]
pub struct GameState {
    pub player_a: String,
    pub player_b: String,
    pub turn: String,
    pub turn_count: u64,
    pub phase: String,
    pub document: String,
}

impl GameState {
    /// An independent copy of the snapshot.
    pub fn duplicate(&self) -> (copy: GameState)
        ensures
            copy == *self,
    {
        GameState {
            player_a: self.player_a.clone(),
            player_b: self.player_b.clone(),
            turn: self.turn.clone(),
            turn_count: self.turn_count,
            phase: self.phase.clone(),
            document: self.document.clone(),
        }
    }
}

} // verus!
