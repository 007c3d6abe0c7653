//! In-memory match registry and observer fan-out for a turn-based game server.
//!
//! The crate keeps the matches that are in progress, lets actions change them
//! through one gateway, and pushes every change to the observers of the match.
//! It is single-threaded by design: a server shares one [`state::AppState`]
//! behind a lock of its choice.
//!
//! The game rules live in an engine that this crate never looks inside: every
//! operation that needs the engine takes it as a function value, and the
//! contracts speak of whatever that function returned.
//!
//! - [`store`]: the match records, by identifier.
//! - [`observers`]: who watches which match, and the fan-out of one payload.
//! - [`event`]: the events sent to observers and their wire form.
//! - [`state`]: store and registry together, and the mutation gateway.
//! - [`session`]: the life of one observer connection as a state machine.
//! - [`routes`]: what each endpoint answers, as plain values.
//! - [`laws`]: what holds across several operations.
//! - [`clock`], [`ident`], [`game`], [`table`]: instants, identifiers, game
//!   snapshots, and the ordered table underneath store and registry.

pub mod clock;
pub mod event;
pub mod game;
pub mod ident;
pub mod laws;
pub mod observers;
pub mod routes;
pub mod session;
pub mod state;
pub mod store;
pub mod table;
