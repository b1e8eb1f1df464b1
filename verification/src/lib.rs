//! A small personal message log: numbered entries with the time at which each was
//! written, kept in a redb database, listed page by page and guarded by one password.

pub mod auth;
pub mod client;
pub mod clock;
pub mod config;
pub mod error;
pub mod journal;
pub mod laws;
pub mod page;
pub mod promises;
pub mod service;
pub mod store;
pub mod text;
