//! The quote configuration: the admin token and the quote records a
//! configuration file carries, and the pick of a random quote. Reading
//! and decoding the file itself is I/O and stays outside; this is the
//! in-memory half.

use vstd::prelude::*;
use rand::Rng;

pub use crate::objects::Quote;

verus! {

/// Why the configuration could not be had.
pub struct Error<'a> {
    pub message: &'a str,
}

/// What the configuration file carries: the admin token and the quote
/// records to load.
pub struct Config {
    pub admin_token: String,
    pub quotes: Vec<Quote>,
}

pub const DEFAULT_QUOTE_ID: &'static str = "AwACAgIAAxkDAAMWX3okXL1AZ-aOQTpL2t-7tExt2YIAArMIAAJgG9BLmWJEVGtI5hwbBA";

/// The quote answered when none is configured: a fixed clip with a
/// stock caption and no keywords.
pub fn default_quote() -> (q: Quote)
    ensures
        q.id@ == DEFAULT_QUOTE_ID@,
        q.caption@ == "What the ..?"@,
        q.matches@.len() == 0,
{
    Quote {
        id: DEFAULT_QUOTE_ID.to_owned(),
        caption: "What the ..?".to_owned(),
        matches: Vec::new(),
    }
}

/// Relies on rand's `Rng::gen_range` over `0..bound`: a number drawn
/// below the bound. The draw is random, so nothing ties one call to
/// another.
#[verifier::external_body]
fn pick_below(bound: usize) -> (r: usize)
    requires
        bound > 0,
    ensures
        r < bound,
{
    rand::thread_rng().gen_range(0..bound)
}

impl Config {
    /// A clone of one configured quote: the only one when there is one,
    /// one drawn at random among the first `len - 1` when there are
    /// more, and the default quote when none is configured. (The last
    /// quote of a larger set is deliberately left out of the draw, as
    /// the service has always drawn it.)
    pub fn random_quote(&self) -> (q: Quote)
        ensures
            self.quotes@.len() == 0 ==> {
                &&& q.id@ == DEFAULT_QUOTE_ID@
                &&& q.caption@ == "What the ..?"@
                &&& q.matches@.len() == 0
            },
            self.quotes@.len() == 1 ==> q@ == self.quotes@[0]@,
            self.quotes@.len() >= 2 ==> exists|i: int|
                0 <= i < self.quotes@.len() - 1 && q@ == self.quotes@[i]@,
    {
        let len = self.quotes.len();
        if len == 0 {
            return default_quote();
        }
        if len == 1 {
            return self.quotes[0].clone();
        }
        let idx = pick_below(len - 1);
        self.quotes[idx].clone()
    }
}

} // verus!
