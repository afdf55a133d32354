//! Cue and board-control logic for a theatre mixing-desk controller: MIDI message encoding, the
//! board state cache that turns cues into the fewest edits, and the cue list with undo and redo.
pub mod midi;
pub mod data;
pub mod text;
pub mod cues;
pub mod cue_list;
pub mod state;
pub mod state_laws;
pub mod cache;
pub mod cache_laws;
pub mod adaptor;
pub mod yamaha;
pub mod connection;
pub mod file_io;
