//! A staged, authority-checked protocol that stores a large blob in a small
//! record owned by an executable module of a ledger, and the planning that
//! drives one upload or download of such a blob.

pub mod account;
pub mod codec;
pub mod commands;
pub mod data_type;
pub mod keys;
pub mod ledger;
pub mod loader;
pub mod metadata_program;
pub mod upload_idl_anchor;
pub mod wire;
