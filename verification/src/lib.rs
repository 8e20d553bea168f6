//! Core of a live-reload notification layer for markdown documents.
//!
//! The library tracks registered documents (id, filesystem path, cursor
//! position), fans document events out to subscribers over a bounded lossy
//! bus, and drives the per-client streaming protocol as a state machine.
//! Filesystem watching, HTTP transport and other I/O live outside the
//! library and call into these verified cores with plain values.

pub mod bus;
pub mod cli;
pub mod events;
pub mod html_template;
pub mod markdown;
pub mod session;
pub mod state;
pub mod store;
pub mod utils;
pub mod wire;

pub use events::DocumentEvent;
pub use state::AppState;
pub use store::DocumentStore;
pub use wire::{CreateDocumentRequest, CreateDocumentResponse, UpdatePositionRequest};
