//! Exploratory odds and ends kept for their tests: a tiny container
//! record and the poster's endpoint formatting. The poster's actual
//! HTTP call is I/O and stays outside.

use vstd::prelude::*;
use vstd::string::StringExecFns;

verus! {

/// A tiny keyed record used to exercise grouping and decoding.
#[derive(Debug)]
pub struct Container<'a> {
    pub id: &'a str,
    pub contents: Vec<&'a str>,
}

/// A bare-bones poster: where to post and the token that signs it.
pub struct Poster<'a> {
    pub api_url: &'a str,
    pub token: &'a str,
}

impl<'a> Poster<'a> {
    /// The full URL of one method: base, token, a slash, method.
    pub fn endpoint(&self, method: &str) -> (r: String)
        ensures
            r@ == self.api_url@ + self.token@ + "/"@ + method@,
    {
        let mut r = self.api_url.to_owned();
        r.append(self.token);
        r.append("/");
        r.append(method);
        proof {
            assert(r@ =~= self.api_url@ + self.token@ + "/"@ + method@);
        }
        r
    }
}

} // verus!
