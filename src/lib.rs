//! Shared player-state registry, broadcast directory and per-connection
//! session protocol of a real-time joystick synchronisation server.
//!
//! Joystick axes are carried as IEEE-754 binary32 bit patterns, so the
//! clamping rules are stated and proved on plain integers.

pub mod directory;
pub mod registry;
pub mod session;
pub mod state;

pub use directory::Directory;
pub use registry::{new_players, Registry};
pub use session::{Inbound, Role, Session, SessionState};
pub use state::{Buttons, GameState, Vector2};
