//! The buffer, session and command core of a small terminal text editor.
//!
//! Nothing here draws or reads keys. Documents are built from text that was
//! read elsewhere, rendering yields a list of drawing operations for someone
//! else to carry out, and the controller is a state machine that is fed one
//! key at a time.

pub mod pos;
pub mod text;
pub mod file;
pub mod draw;
pub mod state;
pub mod app;
