//! Decision logic of an external memory tool for a 32-bit game process:
//! locating entities and the local player, reading their records, and
//! choosing which values to write (glow colours, a forced jump, view
//! angles), all as a state machine whose memory accesses the caller
//! carries out. Also the reading of the offset dump and the layout of the
//! player record, and the matching of process and module image names.
pub mod bytes;
pub mod dump;
pub mod game;
pub mod laws;
pub mod layout;
pub mod names;
pub mod player;
