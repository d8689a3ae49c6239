//! Local service discovery and reactive connection supervision for the
//! League client's private control API.
//!
//! The client process maintains a small credential artifact (the lockfile)
//! on disk while it runs. This crate locates that file, parses it into
//! connection parameters, derives the authentication header and base URL,
//! builds a pinned-certificate HTTP client from them, and reconciles
//! filesystem notifications against the currently installed connection
//! state, emitting connectivity signals on real changes only.
pub mod auth;
pub mod client;
pub mod locator;
pub mod lockfile;
pub mod model;
pub mod runes;
pub mod supervisor;
pub mod text;
pub mod watch;
