//! The keyword index: a mapping from a normalized keyword to the ordered
//! bucket of quote records it triggers.
//!
//! [`IndexTable`] is the plain in-memory table, specified against a
//! mathematical map from key to bucket; [`KeywordIndex`] shares one table
//! under a single reader/writer lock, so every read sees a complete table
//! state and every bulk insertion is atomic at table granularity.

use vstd::prelude::*;
use vstd::rwlock::{RwLock, RwLockPredicate};

use crate::objects::{Quote, QuoteView};

verus! {

/// What `str::trim` leaves of a text: named here, stated nowhere.
pub uninterp spec fn trim_of(s: Seq<char>) -> Seq<char>;

/// What `str::to_lowercase` makes of a text: named here, stated nowhere.
pub uninterp spec fn lower_of(s: Seq<char>) -> Seq<char>;

/// The normal form a keyword or query is reduced to before the table is
/// consulted: trimmed, then lower-cased.
pub open spec fn norm_of(s: Seq<char>) -> Seq<char> {
    lower_of(trim_of(s))
}

/// Relies on `str::trim`: leading and trailing whitespace removed, a
/// function of the characters alone.
#[verifier::external_body]
fn trimmed(s: &str) -> (r: &str)
    ensures
        r@ == trim_of(s@),
{
    s.trim()
}

/// Relies on `str::to_lowercase`: the Unicode lowercase equivalent, a
/// function of the characters alone.
#[verifier::external_body]
fn lowered(s: &str) -> (r: String)
    ensures
        r@ == lower_of(s@),
{
    s.to_lowercase()
}

/// Reduces a keyword or query to the normal form the table is keyed by.
pub fn normalize(s: &str) -> (r: String)
    ensures
        r@ == norm_of(s@),
{
    lowered(trimmed(s))
}

/// One keyword and the ordered records it triggers.
pub struct Bucket {
    pub key: String,
    pub quotes: Vec<Quote>,
}

/// Whether some bucket of `bs` carries the key `k`.
pub open spec fn has_key(bs: Seq<Bucket>, k: Seq<char>) -> bool {
    exists|i: int| 0 <= i < bs.len() && bs[i].key@ == k
}

/// The position of the bucket carrying `k`; meaningful only where
/// [`has_key`] holds and the keys of `bs` are distinct.
pub open spec fn key_at(bs: Seq<Bucket>, k: Seq<char>) -> int {
    choose|i: int| 0 <= i < bs.len() && bs[i].key@ == k
}

/// The mathematical content of a bucket list: the map from each key held
/// to the record sequence of its bucket.
pub open spec fn buckets_map(bs: Seq<Bucket>) -> Map<Seq<char>, Seq<QuoteView>> {
    Map::new(
        |k: Seq<char>| has_key(bs, k),
        |k: Seq<char>| bs[key_at(bs, k)].quotes.deep_view(),
    )
}

/// The bucket `m` holds for `k`, or the empty sequence where it holds
/// none.
pub open spec fn bucket_or_empty(m: Map<Seq<char>, Seq<QuoteView>>, k: Seq<char>) -> Seq<
    QuoteView,
> {
    if m.contains_key(k) {
        m[k]
    } else {
        Seq::empty()
    }
}

/// One record appended under one key: the bucket for `k` grows by `q` at
/// the end, created when absent; no other key changes.
pub open spec fn insert_one(m: Map<Seq<char>, Seq<QuoteView>>, k: Seq<char>, q: QuoteView) -> Map<
    Seq<char>,
    Seq<QuoteView>,
> {
    m.insert(k, bucket_or_empty(m, k).push(q))
}

/// One record appended under each of the keywords `ks`, each in its
/// normal form, in order.
pub open spec fn insert_keys(
    m: Map<Seq<char>, Seq<QuoteView>>,
    q: QuoteView,
    ks: Seq<Seq<char>>,
) -> Map<Seq<char>, Seq<QuoteView>>
    decreases ks.len(),
{
    if ks.len() == 0 {
        m
    } else {
        insert_keys(insert_one(m, norm_of(ks[0]), q), q, ks.skip(1))
    }
}

/// Every record of `qs` appended under each of its keywords, record by
/// record, in order.
pub open spec fn spec_bulk(m: Map<Seq<char>, Seq<QuoteView>>, qs: Seq<QuoteView>) -> Map<
    Seq<char>,
    Seq<QuoteView>,
>
    decreases qs.len(),
{
    if qs.len() == 0 {
        m
    } else {
        spec_bulk(insert_keys(m, qs[0], qs[0].matches), qs.skip(1))
    }
}

/// What a lookup of the already-normalized key `k` returns: the bucket
/// for `k`; failing that, the default bucket keyed by the empty string;
/// failing that, the empty sequence.
pub open spec fn spec_lookup(m: Map<Seq<char>, Seq<QuoteView>>, k: Seq<char>) -> Seq<QuoteView> {
    if m.contains_key(k) {
        m[k]
    } else if m.contains_key(Seq::<char>::empty()) {
        m[Seq::<char>::empty()]
    } else {
        Seq::empty()
    }
}

/// The plain keyword table: a list of buckets with pairwise distinct
/// keys. Its mathematical value is [`buckets_map`] of the list.
pub struct IndexTable {
    pub buckets: Vec<Bucket>,
}

impl View for IndexTable {
    type V = Map<Seq<char>, Seq<QuoteView>>;

    open spec fn view(&self) -> Map<Seq<char>, Seq<QuoteView>> {
        buckets_map(self.buckets@)
    }
}

/// With distinct keys, the chosen position of a held key is the only one
/// carrying it.
proof fn lemma_key_at(bs: Seq<Bucket>, k: Seq<char>)
    requires
        forall|i: int, j: int| 0 <= i < j < bs.len() ==> bs[i].key@ != bs[j].key@,
        has_key(bs, k),
    ensures
        0 <= key_at(bs, k) < bs.len(),
        bs[key_at(bs, k)].key@ == k,
        forall|i: int| 0 <= i < bs.len() && bs[i].key@ == k ==> i == key_at(bs, k),
{
    let at = choose|i: int| 0 <= i < bs.len() && bs[i].key@ == k;
    assert(0 <= at < bs.len() && bs[at].key@ == k);
    assert forall|i: int| 0 <= i < bs.len() && bs[i].key@ == k implies i == key_at(bs, k) by {
        if i < key_at(bs, k) {
            assert(bs[i].key@ != bs[key_at(bs, k)].key@);
        } else if i > key_at(bs, k) {
            assert(bs[key_at(bs, k)].key@ != bs[i].key@);
        }
    }
}

impl IndexTable {
    /// The keys of the buckets are pairwise distinct, so each keyword has
    /// at most one bucket.
    pub open spec fn wf(&self) -> bool {
        forall|i: int, j: int|
            0 <= i < j < self.buckets@.len() ==> self.buckets@[i].key@ != self.buckets@[j].key@
    }

    /// An empty table: no buckets, the empty map.
    pub fn new() -> (r: IndexTable)
        ensures
            r.wf(),
            r@ == Map::<Seq<char>, Seq<QuoteView>>::empty(),
    {
        let r = IndexTable { buckets: Vec::new() };
        proof {
            assert(r@ =~= Map::<Seq<char>, Seq<QuoteView>>::empty());
        }
        r
    }

    /// The position of the bucket keyed by `key`, if any.
    fn find(&self, key: &String) -> (r: Option<usize>)
        ensures
            match r {
                Some(i) => i < self.buckets@.len() && self.buckets@[i as int].key@ == key@,
                None => !has_key(self.buckets@, key@),
            },
    {
        for i in 0..self.buckets.len()
            invariant
                forall|j: int| 0 <= j < i ==> self.buckets@[j].key@ != key@,
        {
            if self.buckets[i].key == *key {
                return Some(i);
            }
        }
        None
    }

    /// The bucket for the already-normalized `key`, if the table holds
    /// one.
    pub fn get(&self, key: &String) -> (r: Option<&Vec<Quote>>)
        requires
            self.wf(),
        ensures
            match r {
                Some(v) => self@.contains_key(key@) && v.deep_view() == self@[key@],
                None => !self@.contains_key(key@),
            },
    {
        match self.find(key) {
            Some(i) => {
                proof {
                    assert(has_key(self.buckets@, key@));
                    lemma_key_at(self.buckets@, key@);
                }
                Some(&self.buckets[i].quotes)
            },
            None => None,
        }
    }

    /// Appends a clone of `q` to the bucket of the already-normalized
    /// `key`, creating the bucket when absent: the table's map gains `q`
    /// at the end of that bucket and changes nowhere else.
    pub fn insert(&mut self, key: String, q: &Quote)
        requires
            old(self).wf(),
        ensures
            final(self).wf(),
            final(self)@ == insert_one(old(self)@, key@, q@),
    {
        let ghost old_bs = self.buckets@;
        match self.find(&key) {
            Some(i) => {
                proof {
                    assert(has_key(old_bs, key@));
                    lemma_key_at(old_bs, key@);
                }
                let bucket = &mut self.buckets[i];
                bucket.quotes.push(q.clone());
                proof {
                    let bs = self.buckets@;
                    assert(bs[i as int].key@ == key@);
                    assert(bs[i as int].quotes.deep_view() =~= old_bs[i as int].quotes.deep_view().push(
                        q@,
                    ));
                    assert forall|k: Seq<char>| has_key(bs, k) <==> has_key(old_bs, k) by {
                        if has_key(bs, k) {
                            let w = choose|j: int| 0 <= j < bs.len() && bs[j].key@ == k;
                            assert(old_bs[w].key@ == k);
                        }
                        if has_key(old_bs, k) {
                            let w = choose|j: int| 0 <= j < old_bs.len() && old_bs[j].key@ == k;
                            assert(bs[w].key@ == k);
                        }
                    }
                    assert forall|ii: int, jj: int| 0 <= ii < jj < bs.len() implies bs[ii].key@
                        != bs[jj].key@ by {
                        assert(old_bs[ii].key@ != old_bs[jj].key@);
                    }
                    assert forall|k: Seq<char>|
                        has_key(bs, k) && k != key@ implies buckets_map(bs)[k] == buckets_map(
                        old_bs,
                    )[k] by {
                        lemma_key_at(bs, k);
                        lemma_key_at(old_bs, k);
                        assert(bs[key_at(old_bs, k)].key@ == k);
                        assert(key_at(bs, k) == key_at(old_bs, k));
                        assert(key_at(bs, k) != i as int);
                    }
                    lemma_key_at(bs, key@);
                    assert(key_at(bs, key@) == i as int);
                    assert(key_at(old_bs, key@) == i as int);
                    assert(buckets_map(bs)[key@] == old_bs[i as int].quotes.deep_view().push(q@));
                    assert(buckets_map(bs) =~= insert_one(buckets_map(old_bs), key@, q@));
                }
            },
            None => {
                let ghost k_view = key@;
                self.buckets.push(Bucket { key, quotes: vec![q.clone()] });
                proof {
                    let bs = self.buckets@;
                    let n = old_bs.len() as int;
                    assert(bs.len() == n + 1);
                    assert(bs[n].key@ == k_view);
                    assert(bs[n].quotes.deep_view() =~= Seq::<QuoteView>::empty().push(q@));
                    assert forall|ii: int, jj: int| 0 <= ii < jj < bs.len() implies bs[ii].key@
                        != bs[jj].key@ by {
                        if jj < n {
                            assert(old_bs[ii].key@ != old_bs[jj].key@);
                        } else {
                            assert(bs[jj].key@ == k_view);
                            assert(!has_key(old_bs, k_view));
                            assert(bs[ii].key@ == old_bs[ii].key@);
                        }
                    }
                    assert forall|k: Seq<char>|
                        has_key(bs, k) && k != k_view implies has_key(old_bs, k) && buckets_map(
                        bs,
                    )[k] == buckets_map(old_bs)[k] by {
                        let w = choose|j: int| 0 <= j < bs.len() && bs[j].key@ == k;
                        assert(w != n);
                        assert(old_bs[w].key@ == k);
                        lemma_key_at(bs, k);
                        lemma_key_at(old_bs, k);
                        assert(bs[key_at(old_bs, k)].key@ == k);
                        assert(key_at(bs, k) == key_at(old_bs, k));
                    }
                    assert forall|k: Seq<char>| has_key(old_bs, k) implies has_key(bs, k) by {
                        let w = choose|j: int| 0 <= j < old_bs.len() && old_bs[j].key@ == k;
                        assert(bs[w].key@ == k);
                    }
                    assert(has_key(bs, k_view));
                    lemma_key_at(bs, k_view);
                    assert(key_at(bs, k_view) == n);
                    assert(!buckets_map(old_bs).contains_key(k_view));
                    assert(buckets_map(bs) =~= insert_one(buckets_map(old_bs), k_view, q@));
                }
            },
        }
    }

    /// Appends every record of `sources`, under each of its keywords in
    /// normal form, to this table: the whole bulk insertion as one map
    /// transformation, [`spec_bulk`].
    pub fn bulk_insert(&mut self, sources: &Vec<Quote>)
        requires
            old(self).wf(),
        ensures
            final(self).wf(),
            final(self)@ == spec_bulk(old(self)@, sources.deep_view()),
    {
        let ghost m0 = self@;
        let ghost records = sources.deep_view();
        for r in 0..sources.len()
            invariant
                self.wf(),
                records == sources.deep_view(),
                self@ == spec_bulk(m0, records.take(r as int)),
        {
            let ghost m_rec = self@;
            let ghost record = records[r as int];
            let ghost keys = record.matches;
            let quote = &sources[r];
            for k in 0..quote.matches.len()
                invariant
                    self.wf(),
                    r < records.len(),
                    records == sources.deep_view(),
                    *quote == sources@[r as int],
                    record == records[r as int],
                    keys == record.matches,
                    m_rec == spec_bulk(m0, records.take(r as int)),
                    self@ == insert_keys(m_rec, record, keys.take(k as int)),
            {
                let key = normalize(quote.matches[k].as_str());
                self.insert(key, quote);
                proof {
                    assert(quote@ == record);
                    assert(quote.matches@[k as int]@ == keys[k as int]);
                    assert(keys.take(k + 1 as int) =~= keys.take(k as int).push(keys[k as int]));
                    lemma_insert_keys_snoc(m_rec, record, keys.take(k as int), keys[k as int]);
                }
            }
            proof {
                assert(keys.take(keys.len() as int) =~= keys);
                assert(records.take(r + 1 as int) =~= records.take(r as int).push(
                    records[r as int],
                ));
                lemma_spec_bulk_snoc(m0, records.take(r as int), records[r as int]);
            }
        }
        proof {
            assert(records.take(records.len() as int) =~= records);
        }
    }

    /// The records a lookup of `query` answers with: the bucket of the
    /// query's normal form; failing that, the default bucket keyed by the
    /// empty string; failing that, none. Reading mutates nothing.
    pub fn lookup(&self, query: &str) -> (r: Vec<Quote>)
        requires
            self.wf(),
        ensures
            r.deep_view() == spec_lookup(self@, norm_of(query@)),
    {
        let key = normalize(query);
        match self.get(&key) {
            Some(v) => clone_quotes(v),
            None => {
                let default_key = String::new();
                match self.get(&default_key) {
                    Some(v) => clone_quotes(v),
                    None => Vec::new(),
                }
            },
        }
    }
}

/// Clones a bucket's records, keeping their values.
fn clone_quotes(v: &Vec<Quote>) -> (r: Vec<Quote>)
    ensures
        r.deep_view() == v.deep_view(),
{
    let r = v.clone();
    proof {
        assert forall|i: int| 0 <= i < r@.len() implies r@[i]@ == v@[i]@ by {
            assert(vstd::pervasive::cloned::<Quote>(v@[i], r@[i]));
        }
        assert(r.deep_view() =~= v.deep_view());
    }
    r
}

/// Appending one more keyword inserts under it last.
proof fn lemma_insert_keys_snoc(
    m: Map<Seq<char>, Seq<QuoteView>>,
    q: QuoteView,
    ks: Seq<Seq<char>>,
    k: Seq<char>,
)
    ensures
        insert_keys(m, q, ks.push(k)) == insert_one(insert_keys(m, q, ks), norm_of(k), q),
    decreases ks.len(),
{
    let ps = ks.push(k);
    if ks.len() == 0 {
        assert(ps[0] == k);
        assert(ps.skip(1) =~= Seq::<Seq<char>>::empty());
        assert(insert_keys(m, q, ps) == insert_keys(insert_one(m, norm_of(k), q), q, ps.skip(1)));
        assert(insert_keys(insert_one(m, norm_of(k), q), q, ps.skip(1)) == insert_one(
            m,
            norm_of(k),
            q,
        ));
        assert(insert_keys(m, q, ks) == m);
    } else {
        let m1 = insert_one(m, norm_of(ks[0]), q);
        assert(ps[0] == ks[0]);
        assert(ps.skip(1) =~= ks.skip(1).push(k));
        assert(insert_keys(m, q, ps) == insert_keys(m1, q, ks.skip(1).push(k)));
        lemma_insert_keys_snoc(m1, q, ks.skip(1), k);
        assert(insert_keys(m, q, ks) == insert_keys(m1, q, ks.skip(1)));
    }
}

/// Appending one more record inserts it last.
proof fn lemma_spec_bulk_snoc(m: Map<Seq<char>, Seq<QuoteView>>, qs: Seq<QuoteView>, q: QuoteView)
    ensures
        spec_bulk(m, qs.push(q)) == insert_keys(spec_bulk(m, qs), q, q.matches),
    decreases qs.len(),
{
    let ps = qs.push(q);
    if qs.len() == 0 {
        assert(ps[0] == q);
        assert(ps.skip(1) =~= Seq::<QuoteView>::empty());
        let m1 = insert_keys(m, q, q.matches);
        assert(spec_bulk(m, ps) == spec_bulk(m1, ps.skip(1)));
        assert(spec_bulk(m1, ps.skip(1)) == m1);
        assert(spec_bulk(m, qs) == m);
    } else {
        let m1 = insert_keys(m, qs[0], qs[0].matches);
        assert(ps[0] == qs[0]);
        assert(ps.skip(1) =~= qs.skip(1).push(q));
        assert(spec_bulk(m, ps) == spec_bulk(m1, qs.skip(1).push(q)));
        lemma_spec_bulk_snoc(m1, qs.skip(1), q);
        assert(spec_bulk(m, qs) == spec_bulk(m1, qs.skip(1)));
    }
}

/// Law: a lookup has no side effect — it takes the table by shared
/// reference — and is deterministic in the table: any two results its
/// contract admits for the same table and query are the same sequence.
/// So repeated lookups without an intervening insertion return
/// identical results.
pub proof fn lemma_lookup_idempotent(
    m: Map<Seq<char>, Seq<QuoteView>>,
    k: Seq<char>,
    r1: Seq<QuoteView>,
    r2: Seq<QuoteView>,
)
    requires
        r1 == spec_lookup(m, k),
        r2 == spec_lookup(m, k),
    ensures
        r1 == r2,
{
}

/// A prefix of a prefix is a prefix.
proof fn lemma_prefix_trans<T>(a: Seq<T>, b: Seq<T>, c: Seq<T>)
    requires
        a.is_prefix_of(b),
        b.is_prefix_of(c),
    ensures
        a.is_prefix_of(c),
{
    assert(a =~= c.take(a.len() as int));
}

/// One insertion extends buckets and never shortens one: a keyword the
/// map already holds keeps its records as the front of its bucket.
proof fn lemma_insert_one_extends(
    m: Map<Seq<char>, Seq<QuoteView>>,
    k2: Seq<char>,
    q: QuoteView,
    k: Seq<char>,
)
    requires
        m.contains_key(k),
    ensures
        insert_one(m, k2, q).contains_key(k),
        m[k].is_prefix_of(insert_one(m, k2, q)[k]),
{
    if k == k2 {
        assert(insert_one(m, k2, q)[k] == m[k].push(q));
        assert(m[k] =~= m[k].push(q).take(m[k].len() as int));
    } else {
        assert(insert_one(m, k2, q)[k] == m[k]);
        assert(m[k] =~= m[k].take(m[k].len() as int));
    }
}

/// Inserting one record under all its keywords only extends buckets.
proof fn lemma_insert_keys_extends(
    m: Map<Seq<char>, Seq<QuoteView>>,
    q: QuoteView,
    ks: Seq<Seq<char>>,
    k: Seq<char>,
)
    requires
        m.contains_key(k),
    ensures
        insert_keys(m, q, ks).contains_key(k),
        m[k].is_prefix_of(insert_keys(m, q, ks)[k]),
    decreases ks.len(),
{
    if ks.len() == 0 {
        assert(m[k] =~= m[k].take(m[k].len() as int));
    } else {
        let m1 = insert_one(m, norm_of(ks[0]), q);
        lemma_insert_one_extends(m, norm_of(ks[0]), q, k);
        lemma_insert_keys_extends(m1, q, ks.skip(1), k);
        lemma_prefix_trans(m[k], m1[k], insert_keys(m1, q, ks.skip(1))[k]);
    }
}

/// Law: bulk insertion is additive. Inserting a further record set `b`
/// never removes or reorders what a keyword already had: the bucket of
/// any keyword the table already held begins with exactly its earlier
/// records — a superset, never a subset. With record set `a` already
/// inserted, take `m` to be that table's map.
pub proof fn lemma_bulk_insert_additive(
    m: Map<Seq<char>, Seq<QuoteView>>,
    b: Seq<QuoteView>,
    k: Seq<char>,
)
    requires
        m.contains_key(k),
    ensures
        spec_bulk(m, b).contains_key(k),
        m[k].is_prefix_of(spec_bulk(m, b)[k]),
    decreases b.len(),
{
    if b.len() == 0 {
        assert(m[k] =~= m[k].take(m[k].len() as int));
    } else {
        let m1 = insert_keys(m, b[0], b[0].matches);
        lemma_insert_keys_extends(m, b[0], b[0].matches, k);
        lemma_bulk_insert_additive(m1, b.skip(1), k);
        lemma_prefix_trans(m[k], m1[k], spec_bulk(m1, b.skip(1))[k]);
    }
}

/// A member of a sequence is a member of every extension of it.
proof fn lemma_prefix_keeps_member(a: Seq<QuoteView>, b: Seq<QuoteView>, q: QuoteView)
    requires
        a.is_prefix_of(b),
        a.contains(q),
    ensures
        b.contains(q),
{
    let w = choose|w: int| 0 <= w < a.len() && a[w] == q;
    assert(b[w] == q);
}

/// Inserting one record under all its keywords leaves it standing in
/// the bucket of each of them.
proof fn lemma_insert_keys_member(
    m: Map<Seq<char>, Seq<QuoteView>>,
    q: QuoteView,
    ks: Seq<Seq<char>>,
    j: int,
)
    requires
        0 <= j < ks.len(),
    ensures
        insert_keys(m, q, ks).contains_key(norm_of(ks[j])),
        insert_keys(m, q, ks)[norm_of(ks[j])].contains(q),
    decreases ks.len(),
{
    let k0 = norm_of(ks[0]);
    let m1 = insert_one(m, k0, q);
    if j == 0 {
        let bucket = m1[k0];
        assert(bucket[bucket.len() - 1] == q);
        assert(bucket.contains(q));
        lemma_insert_keys_extends(m1, q, ks.skip(1), k0);
        lemma_prefix_keeps_member(bucket, insert_keys(m1, q, ks.skip(1))[k0], q);
    } else {
        lemma_insert_keys_member(m1, q, ks.skip(1), j - 1);
        assert(ks.skip(1)[j - 1] == ks[j]);
    }
}

/// Law: a bulk insertion is never partial. After it returns, every
/// record of the inserted set stands in the bucket of each of its
/// keywords; a reader, which observes the table only before or after
/// the whole call, therefore sees a record under all of its keywords or
/// under none of them.
pub proof fn lemma_bulk_insert_complete(
    m: Map<Seq<char>, Seq<QuoteView>>,
    b: Seq<QuoteView>,
    i: int,
    j: int,
)
    requires
        0 <= i < b.len(),
        0 <= j < b[i].matches.len(),
    ensures
        spec_bulk(m, b).contains_key(norm_of(b[i].matches[j])),
        spec_bulk(m, b)[norm_of(b[i].matches[j])].contains(b[i]),
    decreases b.len(),
{
    let m1 = insert_keys(m, b[0], b[0].matches);
    if i == 0 {
        let k = norm_of(b[0].matches[j]);
        lemma_insert_keys_member(m, b[0], b[0].matches, j);
        lemma_bulk_insert_additive(m1, b.skip(1), k);
        lemma_prefix_keeps_member(m1[k], spec_bulk(m1, b.skip(1))[k], b[0]);
    } else {
        lemma_bulk_insert_complete(m1, b.skip(1), i - 1, j);
        assert(b.skip(1)[i - 1] == b[i]);
    }
}

/// Law: a lookup of a keyword the table holds keeps all its earlier
/// records, in order, across any further bulk insertion: the earlier
/// lookup result is a prefix of the later one.
pub proof fn lemma_lookup_grows(
    m: Map<Seq<char>, Seq<QuoteView>>,
    b: Seq<QuoteView>,
    k: Seq<char>,
)
    requires
        m.contains_key(k),
    ensures
        spec_lookup(m, k).is_prefix_of(spec_lookup(spec_bulk(m, b), k)),
{
    lemma_bulk_insert_additive(m, b, k);
}

/// The lock invariant of the shared index: the table under the lock is
/// well formed.
pub struct TablePred;

impl RwLockPredicate<IndexTable> for TablePred {
    open spec fn inv(self, t: IndexTable) -> bool {
        t.wf()
    }
}

/// The shared keyword index: one [`IndexTable`] under a single
/// reader/writer lock. Every lookup reads, and every bulk insertion
/// rewrites, a complete table state; no reader ever sees a bucket
/// mid-mutation.
pub struct KeywordIndex {
    lock: RwLock<IndexTable, TablePred>,
}

impl KeywordIndex {
    #[verifier::type_invariant]
    spec fn locked_wf(&self) -> bool {
        self.lock.pred() == TablePred
    }

    /// An index holding no buckets at all.
    pub fn new() -> (r: KeywordIndex) {
        KeywordIndex { lock: RwLock::new(IndexTable::new(), Ghost(TablePred)) }
    }

    /// Looks `query` up in the table as it stands now: the result is a
    /// faithful lookup of one complete, well-formed table state.
    pub fn lookup(&self, query: &str) -> (r: Vec<Quote>)
        ensures
            exists|t: IndexTable| t.wf() && r.deep_view() == spec_lookup(t@, norm_of(query@)),
    {
        proof {
            use_type_invariant(self);
        }
        let handle = self.lock.acquire_read();
        let r = handle.borrow().lookup(query);
        handle.release_read();
        r
    }

    /// Appends every record of `sources` under each of its keywords, as
    /// one atomic rewrite of the shared table: a concurrent lookup sees
    /// the table before or after the whole insertion, never between.
    pub fn bulk_insert(&self, sources: &Vec<Quote>) {
        proof {
            use_type_invariant(self);
        }
        let (mut table, write_handle) = self.lock.acquire_write();
        table.bulk_insert(sources);
        write_handle.release_write(table);
    }

    /// How many keyword buckets the table holds at this moment.
    pub fn len(&self) -> (n: usize)
        ensures
            exists|t: IndexTable| t.wf() && n == t.buckets@.len(),
    {
        proof {
            use_type_invariant(self);
        }
        let handle = self.lock.acquire_read();
        let n = handle.borrow().buckets.len();
        handle.release_read();
        n
    }
}

} // verus!
