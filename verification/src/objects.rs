//! The wire-facing objects of the bot API, the quote record itself, and
//! the resolver that turns an inbound inline query into an answer by
//! consulting the shared keyword index.

use vstd::prelude::*;

use crate::index::{spec_lookup, norm_of, IndexTable, KeywordIndex};

verus! {

/// A keyword-tagged answerable unit: an identity token for the cached
/// media clip, a display caption, and the keyword strings that trigger it.
/// Immutable once constructed; buckets hold clones of it, never shares.
#[derive(Debug, PartialEq)]
pub struct Quote {
    pub id: String,
    pub caption: String,
    pub matches: Vec<String>,
}

/// The mathematical value of a [`Quote`]: its fields as sequences of
/// characters.
pub ghost struct QuoteView {
    pub id: Seq<char>,
    pub caption: Seq<char>,
    pub matches: Seq<Seq<char>>,
}

impl View for Quote {
    type V = QuoteView;

    open spec fn view(&self) -> QuoteView {
        QuoteView { id: self.id@, caption: self.caption@, matches: self.matches.deep_view() }
    }
}

impl DeepView for Quote {
    type V = QuoteView;

    open spec fn deep_view(&self) -> QuoteView {
        self.view()
    }
}

impl Clone for Quote {
    fn clone(&self) -> (r: Self)
        ensures
            r@ == self@,
    {
        let r = Quote {
            id: self.id.clone(),
            caption: self.caption.clone(),
            matches: self.matches.clone(),
        };
        proof {
            assert forall|i: int| 0 <= i < r.matches@.len() implies r.matches@[i]
                == self.matches@[i] by {
                assert(vstd::pervasive::cloned::<String>(self.matches@[i], r.matches@[i]));
            }
            assert(r.matches.deep_view() =~= self.matches.deep_view());
        }
        r
    }
}

/// A generic success/failure answer of the bot API.
pub struct Response {
    pub status: bool,
    pub message: Option<Message>,
}

/// One chat message, as the bot API reports it.
pub struct Message {
    pub id: i64,
    pub from: Option<Sender>,
    pub chat: Option<Sender>,
    pub date: i64,
    pub text: String,
    pub voice: Option<Voice>,
}

/// The account a message or query came from.
pub struct Sender {
    pub id: i64,
    pub kind: Option<String>,
    pub is_bot: bool,
    pub first_name: String,
    pub last_name: String,
    pub username: String,
    pub language_code: String,
}

/// A cached voice clip's metadata.
pub struct Voice {
    pub duration: i32,
    pub mime_type: String,
    pub file_id: String,
    pub file_unique_id: String,
    pub file_size: usize,
}

/// What an update carries: a plain message, an inline query, or nothing
/// this service handles.
pub enum UpdateType {
    Unknown,
    Inline,
    Message,
}

/// One inbound update from the bot API.
pub struct Update {
    pub id: i64,
    pub message: Option<Message>,
    pub inline_query: Option<InlineQuery>,
}

impl Update {
    /// Classifies the update; a message wins over an inline query when,
    /// unexpectedly, both are present.
    pub fn update_type(&self) -> (t: UpdateType)
        ensures
            self.message is Some ==> t is Message,
            self.message is None && self.inline_query is Some ==> t is Inline,
            self.message is None && self.inline_query is None ==> t is Unknown,
    {
        if let Some(_) = &self.message {
            return UpdateType::Message;
        }
        if let Some(_) = &self.inline_query {
            return UpdateType::Inline;
        }
        UpdateType::Unknown
    }

    /// An empty update: no message, no inline query.
    pub fn default() -> (u: Update)
        ensures
            u.id == 0,
            u.message is None,
            u.inline_query is None,
    {
        Update { id: 0, message: None, inline_query: None }
    }
}

/// An inline query: free text typed at the bot, to be answered with
/// matching clips.
pub struct InlineQuery {
    pub id: String,
    pub from: Option<Sender>,
    pub query: String,
    pub offset: String,
}

/// The full answer to one inline query.
pub struct AnswerInline {
    pub id: String,
    pub results: Vec<AnswerInlineResult>,
}

/// One entry of an inline answer: a cached voice clip under a fresh
/// result id.
pub struct AnswerInlineResult {
    pub kind: String,
    pub id: String,
    pub voice_file_id: Option<String>,
    pub title: String,
    pub caption: String,
}

/// The query text the resolver answers for: the inline query's text, or
/// the sentinel ".X" when the update carries none.
pub open spec fn spec_query(u: Update) -> Seq<char> {
    match u.inline_query {
        Some(q) => q.query@,
        None => ".X"@,
    }
}

/// How a sequence of answer entries reflects a bucket of quotes: one
/// entry per quote, of kind "voice", carrying the quote's caption as
/// title and caption and the quote's identity token as payload
/// reference. An entry's own id is a fresh random token and is not
/// constrained here.
pub open spec fn answers_for(rs: Seq<AnswerInlineResult>, qs: Seq<QuoteView>) -> bool {
    &&& rs.len() == qs.len()
    &&& forall|i: int|
        0 <= i < rs.len() ==> {
            &&& (#[trigger] rs[i]).kind@ == "voice"@
            &&& rs[i].caption@ == qs[i].caption
            &&& rs[i].title@ == qs[i].caption
            &&& match rs[i].voice_file_id {
                Some(f) => f@ == qs[i].id,
                None => false,
            }
        }
}

/// Relies on uuid's `Uuid::new_v4` and its `Display` impl: a random
/// version-4 UUID, printed in the hyphenated form of 36 characters.
/// The value is random, so nothing ties it to anything else.
#[verifier::external_body]
fn new_result_id() -> (r: String)
    ensures
        r@.len() == 36,
{
    uuid::Uuid::new_v4().to_string()
}

/// Projects every quote of the bucket the index holds for the update's
/// query into an answer entry. The bucket is read under the index's
/// lock, so the entries reflect one complete table state.
pub fn new_inline_query_result_cached_voice(index: &KeywordIndex, update: &Update) -> (rs: Vec<
    AnswerInlineResult,
>)
    ensures
        exists|t: IndexTable|
            t.wf() && answers_for(rs@, spec_lookup(t@, norm_of(spec_query(*update)))),
{
    let quotes: Vec<Quote> = match &update.inline_query {
        Some(q) => index.lookup(q.query.as_str()),
        None => index.lookup(".X"),
    };
    let mut rs: Vec<AnswerInlineResult> = Vec::new();
    for i in 0..quotes.len()
        invariant
            answers_for(rs@, quotes.deep_view().take(i as int)),
    {
        rs.push(
            AnswerInlineResult {
                id: new_result_id(),
                kind: "voice".to_owned(),
                caption: quotes[i].caption.clone(),
                title: quotes[i].caption.clone(),
                voice_file_id: Some(quotes[i].id.clone()),
            },
        );
        proof {
            assert(quotes.deep_view().take(i + 1 as int) =~= quotes.deep_view().take(
                i as int,
            ).push(quotes.deep_view()[i as int]));
        }
    }
    proof {
        assert(quotes.deep_view().take(quotes@.len() as int) =~= quotes.deep_view());
    }
    rs
}

/// Builds the full inline answer for an update: the inline query's id
/// (or an empty id when the update carries no query) and one entry per
/// matching quote.
pub fn new_answer_inline(index: &KeywordIndex, update: &Update) -> (a: AnswerInline)
    ensures
        (match update.inline_query {
            Some(q) => a.id == q.id,
            None => a.id@.len() == 0,
        }),
        exists|t: IndexTable|
            t.wf() && answers_for(a.results@, spec_lookup(t@, norm_of(spec_query(*update)))),
{
    let mut id: String = String::new();
    if let Some(q) = &update.inline_query {
        id = q.id.clone();
    }
    AnswerInline { id, results: new_inline_query_result_cached_voice(index, update) }
}

/// Appends every record of `sources` to the bucket of each of its
/// keywords, as [`KeywordIndex::bulk_insert`] does; kept as the
/// free-standing entry point the configuration loader calls.
pub fn set_quotes(index: &KeywordIndex, sources: &Vec<Quote>) {
    index.bulk_insert(sources);
}

} // verus!
