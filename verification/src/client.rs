//! The bot-API client's plain half: endpoint names, request framing and
//! the status decision. Sending the request over the wire is I/O and
//! stays outside; the caller hands the body in and carries the answer
//! away as plain values.

use vstd::prelude::*;
use vstd::string::StringExecFns;

verus! {

pub const BOT_API_URL: &'static str = "https://api.telegram.org/bot";

pub const CONTENT_TYPE_DEFAULT: &'static str = "application/json";

pub const HTTP_200_OK: u16 = 200;

/// What a call can fail with.
pub enum Error {
    NoContents,
    UnexpectedStatus(u16),
    CanNotSerialize,
    ServerError,
}

/// The bot-API methods this service calls.
pub enum Method {
    AnswerInlineQuery,
}

/// One request: the method, its serialized body, and the status a
/// successful answer must carry.
pub struct Request {
    pub method: Method,
    pub body: String,
    pub expected_status: u16,
}

impl Request {
    /// The path segment of the request's method.
    pub fn endpoint(&self) -> (r: &str)
        ensures
            r@ == "answerInlineQuery"@,
    {
        match self.method {
            Method::AnswerInlineQuery => "answerInlineQuery",
        }
    }

    /// A request for `method` carrying `body`, expecting a plain OK.
    pub fn new(method: Method, body: String) -> (r: Request)
        ensures
            r.method == method,
            r.body == body,
            r.expected_status == HTTP_200_OK,
    {
        Request { method, body, expected_status: HTTP_200_OK }
    }
}

/// The client: where the bot API lives and the token that signs every
/// call.
pub struct Client {
    pub api_url: String,
    pub token: String,
}

impl Client {
    /// A client of the real bot API with the given token.
    pub fn new(token: &str) -> (c: Client)
        ensures
            c.api_url@ == BOT_API_URL@,
            c.token@ == token@,
    {
        Client { api_url: BOT_API_URL.to_owned(), token: token.to_owned() }
    }

    /// The full URL of one endpoint: base, token, a slash, endpoint.
    pub fn url(&self, endpoint: &str) -> (r: String)
        ensures
            r@ == self.api_url@ + self.token@ + "/"@ + endpoint@,
    {
        let mut r = self.api_url.clone();
        r.append(self.token.as_str());
        r.append("/");
        r.append(endpoint);
        proof {
            assert(r@ =~= self.api_url@ + self.token@ + "/"@ + endpoint@);
        }
        r
    }
}

/// The acceptance rule for an answer's status code: exactly the expected
/// status passes; any other is the error that reports it.
pub fn check_status(status: u16, expected: u16) -> (r: Result<(), Error>)
    ensures
        status == expected <==> r is Ok,
        status != expected ==> r == Result::<(), Error>::Err(Error::UnexpectedStatus(status)),
{
    if status != expected {
        return Err(Error::UnexpectedStatus(status));
    }
    Ok(())
}

} // verus!
