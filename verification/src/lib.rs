//! The core of a small keyword-lookup service: quote records, a shared,
//! lock-guarded keyword index, a worker pool draining a FIFO job queue,
//! and the plain-valued halves of the service's configuration and bot-API
//! glue. Everything that reads files, sockets or the process environment
//! stays outside; this crate holds the logic and its proofs.

use vstd::prelude::*;

pub mod client;
pub mod config;
pub mod demo;
pub mod env;
pub mod index;
pub mod objects;
pub mod pool;

use crate::env::Env;
use crate::index::KeywordIndex;
use crate::objects::{set_quotes, Quote};

verus! {

pub const DEFAULT_ADDR: &'static str = "0.0.0.0:8443";

/// Why the startup quote load failed.
pub enum Error {
    CantLoadQuotes(String),
}

/// The service's runtime settings, one field per `DNQ_*` environment
/// variable.
pub struct Config {
    pub token: String,
    pub address: String,
    pub workers: u8,
    pub quotes: String,
}

impl Config {
    /// The settings, given what the environment held under each `DNQ_*`
    /// key — handed in by the caller, which is the only part that reads
    /// the process environment. A missing value falls back to its
    /// default: an empty token, [`DEFAULT_ADDR`], 8 workers, and the
    /// file `config.yaml`.
    pub fn from_env(
        token: Option<String>,
        address: Option<String>,
        workers: Option<String>,
        quotes: Option<String>,
    ) -> (c: Config)
        ensures
            (match token {
                Some(t) => c.token == t,
                None => c.token@ == Seq::<char>::empty(),
            }),
            (match address {
                Some(a) => c.address == a,
                None => c.address@ == DEFAULT_ADDR@,
            }),
            workers is None ==> c.workers == 8,
            (match quotes {
                Some(q) => c.quotes == q,
                None => c.quotes@ == "config.yaml"@,
            }),
    {
        let token = match token {
            Some(t) => t,
            None => String::new(),
        };
        let address = match address {
            Some(a) => a,
            None => DEFAULT_ADDR.to_owned(),
        };
        let workers: u8 = Env::with("DNQ_WORKERS", 8).resolve(workers);
        let quotes = match quotes {
            Some(q) => q,
            None => "config.yaml".to_owned(),
        };
        Config { token, address, workers, quotes }
    }
}

/// Stores already-parsed quote records in the shared index and reports
/// how many arrived. Reading and decoding the configuration file is the
/// caller's part; this is the in-memory half of the load.
pub fn load_quotes(index: &KeywordIndex, quotes: &Vec<Quote>) -> (n: u16)
    ensures
        quotes@.len() <= u16::MAX ==> n == quotes@.len(),
{
    set_quotes(index, quotes);
    if quotes.len() <= u16::MAX as usize {
        quotes.len() as u16
    } else {
        u16::MAX
    }
}

} // verus!
