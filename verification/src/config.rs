//! The configuration and the requests that carry data.

use vstd::prelude::*;

verus! {

/// How the service is set up.
#[derive(Debug)]
pub struct Config {
    /// The title of every page.
    pub title: String,
    /// The address under which the service listens and is reached.
    pub url: String,
    /// The file of the database.
    pub db_path: String,
    /// How many indices a page covers.
    pub page_content: u64,
    /// How many characters of an entry the home page shows.
    pub split_length: u64,
    /// The password that guards every change.
    pub push_password: String,
}

/// A request to write an entry.
#[derive(Debug)]
pub struct ContentRequest {
    pub content: String,
}

/// A request to remove an entry.
#[derive(Debug)]
pub struct RemoveRequest {
    pub index: u64,
}

} // verus!
