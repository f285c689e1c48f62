//! Minimal opt-in integration of the Language Server Protocol: the logic of a persistent,
//! diagnostics-only stdio client, and its configuration.
//!
//! Everything here is free of input and output. A caller reads and writes bytes, and hands
//! them to [`protocol::MessageReader`] and [`client::LspSession`].

pub mod client;
pub mod codec;
pub mod config;
pub mod diagnostic;
pub mod entries;
pub mod json;
pub mod laws;
pub mod option_duration_ms;
pub mod protocol;
pub mod publication;
pub mod text;

pub use client::LspSession;
pub use config::{LspConfig, LspServerConfig};
pub use diagnostic::{Diagnostic, DiagnosticSeverity};
