//! The configuration surface of a server embedding the world: where the
//! HTTP endpoint listens and which database backs the store.
use vstd::prelude::*;

verus! {

#[derive(Debug)]
pub struct Root {
    pub db: Db,
    pub http: Http,
}

#[derive(Debug)]
pub struct Db {
    pub embed: EmbedDb,
    pub remote: RemoteDb,
}

/// An embedded database started by the server itself.
#[derive(Debug)]
pub struct EmbedDb {
    pub enable: bool,
    pub dir: String,
    pub port: u16,
    pub user: String,
    pub password: String,
    pub persistent: bool,
    pub timeout: u64,
}

/// A database reached by URL.
#[derive(Debug)]
pub struct RemoteDb {
    pub url: String,
}

#[derive(Debug)]
pub struct Http {
    pub enable: bool,
    pub address: String,
    pub port: u16,
}

#[derive(Debug)]
pub struct Socket {
    pub enable: bool,
    pub address: String,
    pub port: u16,
}

} // verus!
