//! Core logic of the overlay helper: the line protocol that carries control
//! commands, the reader state machine that turns lines into overlay events,
//! and the choice of the parent application's window and its geometry.
pub mod channel;
pub mod command;
pub mod json;
pub mod locator;
