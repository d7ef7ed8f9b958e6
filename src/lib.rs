//! Source-to-source instrumentation of compiler-pass sources: recognizes the
//! places where a pass creates, moves, replaces or updates IR values and plans
//! the text edits that insert runtime debug-location tracking hooks.

pub mod text;
pub mod ast;
pub mod hook;
pub mod matcher;
pub mod edit;
pub mod traverse;
pub mod instrument;
pub mod parse;
