//! Verified core of a local password vault.
pub mod buffer;
pub mod cipher;
pub mod clipboard;
pub mod crypto;
pub mod encoding;
pub mod entry;
pub mod error;
pub mod secret;
pub mod text;
pub mod ui;
pub mod vault;
mod wipe;
