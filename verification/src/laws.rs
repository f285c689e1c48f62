//! What the operations are for, stated of their inputs and results alone.
//!
//! Each law says in plain words of sequences, members and numbers what the definitions of the
//! other modules must come to.

pub mod calls;
pub mod client;
pub mod config;
pub mod diagnostic;
pub mod json;
pub mod protocol;
pub mod publication;
pub mod text;
