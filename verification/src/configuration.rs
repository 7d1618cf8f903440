//! The settings of the two stores.

use vstd::prelude::*;

verus! {

/// Where one store is, and how to log in.
#[derive(Debug)]
pub struct DBConfig {
    pub host: String,
    pub port: u16,
    pub user: String,
    pub password: String,
    pub db_name: String,
}

/// The settings of a run: the store of bets and ledgers, and the store of
/// the flattened archive.
#[derive(Debug)]
pub struct AppConfig {
    pub pg: DBConfig,
    pub mysql: DBConfig,
}

} // verus!
