//! Verified core of a collaborative drawing board: the server's tables and
//! reducers with the laws of its undo log, the client's store, the vim-style
//! key handler and drawing interaction, and the wire formats in between.

pub mod types;
pub mod tables;
pub mod reducers;
pub mod undo_laws;
pub mod text;
pub mod color;
pub mod markup;
pub mod vim;
pub mod tools;
pub mod commands;
pub mod point;
pub mod bsatn;
pub mod decode;
pub mod reducer_args;
pub mod compression;
pub mod connection;
pub mod store;
pub mod offline;
pub mod status;
