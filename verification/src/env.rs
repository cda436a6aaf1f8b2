//! A typed default for a configuration value: a key, a fallback, and
//! the rule that turns the text found under the key — handed in by the
//! caller, which is the only part that touches the process environment —
//! into the value used.

use vstd::prelude::*;
use core::str::FromStr;

verus! {

/// A configuration key and the value to fall back to. `resolve` turns
/// whatever text the environment held under the key into the final
/// value.
pub struct Env<'a, T> {
    pub key: &'a str,
    pub value: T,
}

/// Relies on `str::parse`: the result is whatever the target type's
/// `FromStr` makes of the text, or the default where parsing fails.
#[verifier::external_body]
fn parse_or<T: FromStr>(s: &str, default: T) -> T {
    s.parse().unwrap_or(default)
}

impl<'a, T: FromStr> Env<'a, T> {
    /// Pairs `key` with the fallback `value`.
    pub fn with(key: &'a str, value: T) -> (e: Env<'a, T>)
        ensures
            e.key@ == key@,
            e.value == value,
    {
        Env { key, value }
    }

    /// The value to use, given what the environment held under the key:
    /// the fallback where nothing was found, else whatever the text
    /// parses to, falling back again where it does not parse.
    pub fn resolve(self, found: Option<String>) -> (r: T)
        ensures
            found is None ==> r == self.value,
    {
        match found {
            Some(text) => parse_or(text.as_str(), self.value),
            None => self.value,
        }
    }
}

} // verus!
