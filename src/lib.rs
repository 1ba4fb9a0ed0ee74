//! Encrypted local store of masked email alias records.
//!
//! The store is a single file: a fixed-size header (signature, key
//! derivation salt, time of the last update, record count) followed by an
//! AES-256-GCM sealed body. The header fields that describe the content are
//! bound to the body as associated data.

pub mod actions;
pub mod disk;
pub mod encryption;
pub mod model;
pub mod secrets;
