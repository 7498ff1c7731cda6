//! Verified core of the voice-generation service: request checks, text and
//! transcript handling, audio sample kernels, storage naming, the response
//! error model and the collaborative spreadsheet state machine.

pub mod assoc;
pub mod audio;
pub mod auth;
pub mod batch;
pub mod naming;
pub mod not_found;
pub mod requests;
pub mod server;
pub mod text;
pub mod transcript;
pub mod ws;
