//! A local, passphrase-protected secrets vault: authenticated encryption,
//! passphrase-derived keys, the encrypted store of named secrets, the agent
//! protocol that serves them for a bounded session, and the state of the
//! interactive editor.

pub mod agent;
pub mod cli;
pub mod config;
pub mod crypto;
pub mod editor;
pub mod error;
pub mod hexkey;
pub mod locker;
pub mod session;
pub mod store;
pub mod text;
