//! Ranking of exact-scan vector search results, and decoding of stored
//! vector blobs.
//!
//! Scores enter the ranking as `i64` keys whose order is the order of the
//! scores; the floating-point arithmetic that produces scores stays with the
//! caller.
use vstd::prelude::*;

use crate::error::StorageError;
use crate::key::{first_match, lemma_first_match_at};
use crate::text::{decimal, push_decimal, push_signed_decimal, signed_decimal, str_eq};
use crate::types::{lookup, AttrView, AttributeValue, Item};

verus! {

/// The distance function of a vector index.
#[derive(PartialEq, Eq, Structural, Clone, Copy, Debug)]
pub enum DistanceFunction {
    Cosine,
    Euclidean,
    DotProduct,
}

/// True when score `a` should rank ahead of score `b`: for the distances
/// (cosine, Euclidean) smaller is more similar; for the dot product, a
/// similarity, larger is.
pub open spec fn spec_ranks_before(f: DistanceFunction, a: i64, b: i64) -> bool {
    match f {
        DistanceFunction::DotProduct => a > b,
        _ => a < b,
    }
}

impl DistanceFunction {
    /// True when score `a` should rank ahead of score `b`.
    pub fn ranks_before(&self, a: i64, b: i64) -> (r: bool)
        ensures
            r == spec_ranks_before(*self, a, b),
    {
        match self {
            DistanceFunction::DotProduct => a > b,
            _ => a < b,
        }
    }
}

/// Keeps the best `k` candidates seen so far, ordered by the distance function.
pub struct TopK<T> {
    k: usize,
    function: DistanceFunction,
    hits: Vec<(i64, T)>,
    dropped: Ghost<Seq<i64>>,
}

/// The position at which a candidate with `score` enters `hits`: before the
/// first hit it ranks ahead of, or at the end.
pub open spec fn rank_position<T>(hits: Seq<(i64, T)>, f: DistanceFunction, score: i64) -> int {
    match first_match(hits, |h: (i64, T)| spec_ranks_before(f, score, h.0)) {
        Some(i) => i,
        None => hits.len() as int,
    }
}

impl<T> TopK<T> {
    /// The number of hits kept.
    pub closed spec fn k(&self) -> nat {
        self.k as nat
    }

    /// The distance function that orders the hits.
    pub closed spec fn function(&self) -> DistanceFunction {
        self.function
    }

    /// The retained hits, best first.
    pub closed spec fn hits(&self) -> Seq<(i64, T)> {
        self.hits@
    }

    /// The scores of the candidates offered and not retained, in the order
    /// in which they were rejected or evicted.
    pub closed spec fn dropped(&self) -> Seq<i64> {
        self.dropped@
    }

    /// The retained hits are ordered best first, at most `k` are kept, no
    /// dropped candidate ranks ahead of any retained hit, and a candidate is
    /// only dropped once `k` hits are held.
    pub open spec fn wf(&self) -> bool {
        &&& self.hits().len() <= self.k()
        &&& forall|i: int, j: int|
            0 <= i < j < self.hits().len() ==> !spec_ranks_before(
                self.function(),
                #[trigger] self.hits()[j].0,
                #[trigger] self.hits()[i].0,
            )
        &&& forall|d: int, i: int|
            0 <= d < self.dropped().len() && 0 <= i < self.hits().len() ==> !spec_ranks_before(
                self.function(),
                #[trigger] self.dropped()[d],
                #[trigger] self.hits()[i].0,
            )
        &&& self.dropped().len() > 0 ==> self.hits().len() == self.k()
    }

    /// An empty ranking that keeps `k` hits under `function`.
    pub fn new(k: usize, function: DistanceFunction) -> (r: Self)
        ensures
            r.wf(),
            r.k() == k,
            r.function() == function,
            r.hits().len() == 0,
            r.dropped().len() == 0,
    {
        TopK { k, function, hits: Vec::new(), dropped: Ghost(Seq::empty()) }
    }

    fn position(&self, score: i64) -> (p: usize)
        ensures
            p == rank_position(self.hits(), self.function(), score),
    {
        let ghost pred = |h: (i64, T)| spec_ranks_before(self.function, score, h.0);
        let mut i: usize = 0;
        while i < self.hits.len() && !self.function.ranks_before(score, self.hits[i].0)
            invariant
                i <= self.hits@.len(),
                pred == (|h: (i64, T)| spec_ranks_before(self.function, score, h.0)),
                forall|j: int| 0 <= j < i ==> !pred(#[trigger] self.hits@[j]),
            decreases self.hits@.len() - i,
        {
            i += 1;
        }
        proof {
            lemma_first_match_at(self.hits@, pred, i as int);
        }
        i
    }

    /// Offer one scored candidate; it is retained only while it ranks inside
    /// the best `k`.
    pub fn offer(&mut self, score: i64, payload: T)
        requires
            old(self).wf(),
        ensures
            final(self).wf(),
            final(self).k() == old(self).k(),
            final(self).function() == old(self).function(),
            ({
                let h = old(self).hits();
                let f = old(self).function();
                let k = old(self).k();
                let ins = h.insert(rank_position(h, f, score), (score, payload));
                if h.len() < k {
                    &&& final(self).hits() == ins
                    &&& final(self).dropped() == old(self).dropped()
                } else if k == 0 || !spec_ranks_before(f, score, h[k - 1].0) {
                    &&& final(self).hits() == h
                    &&& final(self).dropped() == old(self).dropped().push(score)
                } else {
                    &&& final(self).hits() == ins.take(k as int)
                    &&& final(self).dropped() == old(self).dropped().push(h[k - 1].0)
                }
            }),
    {
        let ghost h = self.hits@;
        let ghost f = self.function;
        if self.hits.len() < self.k {
            let pos = self.position(score);
            proof {
                self.lemma_insert_sorted(score, pos as int);
            }
            self.hits.insert(pos, (score, payload));
            return;
        }
        if self.k == 0 {
            self.dropped = Ghost(self.dropped@.push(score));
            return;
        }
        let worst = self.hits[self.k - 1].0;
        if !self.function.ranks_before(score, worst) {
            proof {
                assert forall|d: int, i: int|
                    0 <= d < self.dropped@.len() + 1 && 0 <= i < h.len() implies !spec_ranks_before(
                    f,
                    #[trigger] self.dropped@.push(score)[d],
                    #[trigger] h[i].0,
                ) by {
                    if d == self.dropped@.len() {
                        if i < self.k - 1 {
                            assert(!spec_ranks_before(f, self.hits()[self.k - 1].0, self.hits()[i].0));
                        }
                    } else {
                        assert(self.dropped@.push(score)[d] == self.dropped()[d]);
                        assert(!spec_ranks_before(f, self.dropped()[d], self.hits()[i].0));
                    }
                }
            }
            self.dropped = Ghost(self.dropped@.push(score));
            return;
        }
        let pos = self.position(score);
        let ghost pl = payload;
        proof {
            self.lemma_insert_sorted(score, pos as int);
            lemma_first_match_at_ensures(h, |x: (i64, T)| spec_ranks_before(f, score, x.0));
            assert(spec_ranks_before(f, score, h[self.k - 1].0));
            assert(pos < h.len());
        }
        self.hits.insert(pos, (score, payload));
        let ghost ins = self.hits@;
        let ghost k = self.k as int;
        self.hits.truncate(self.k);
        proof {
            let od = old(self).dropped();
            let oh = old(self).hits();
            let nd = od.push(h[k - 1].0);
            assert(ins == oh.insert(pos as int, (score, pl)));
            assert(ins[k] == h[k - 1]);
            assert forall|d: int, i: int|
                0 <= d < nd.len() && 0 <= i < k implies !spec_ranks_before(
                f,
                #[trigger] nd[d],
                #[trigger] self.hits@[i].0,
            ) by {
                assert(self.hits@[i] == ins[i]);
                if d == nd.len() - 1 {
                    assert(!spec_ranks_before(
                        f,
                        oh.insert(pos as int, (score, pl))[k].0,
                        oh.insert(pos as int, (score, pl))[i].0,
                    ));
                } else {
                    assert(nd[d] == od[d]);
                    assert(!spec_ranks_before(f, od[d], oh[k - 1].0));
                    if i < pos {
                        assert(ins[i] == oh[i]);
                        assert(!spec_ranks_before(f, od[d], oh[i].0));
                    } else if i > pos {
                        assert(ins[i] == oh[i - 1]);
                        assert(!spec_ranks_before(f, od[d], oh[i - 1].0));
                    }
                }
            }
        }
        self.dropped = Ghost(self.dropped@.push(h[self.k - 1].0));
    }

    /// Inserting a candidate at its rank position keeps the hits ordered.
    proof fn lemma_insert_sorted(&self, score: i64, pos: int)
        requires
            self.wf(),
            pos == rank_position(self.hits(), self.function(), score),
        ensures
            0 <= pos <= self.hits().len(),
            forall|payload: T, i: int, j: int|
                0 <= i < j < self.hits().len() + 1 ==> !spec_ranks_before(
                    self.function(),
                    #[trigger] self.hits().insert(pos, (score, payload))[j].0,
                    #[trigger] self.hits().insert(pos, (score, payload))[i].0,
                ),
    {
        let h = self.hits();
        let f = self.function();
        let pred = |x: (i64, T)| spec_ranks_before(f, score, x.0);
        lemma_first_match_at_ensures(h, pred);
        assert forall|payload: T, i: int, j: int|
            0 <= i < j < h.len() + 1 implies !spec_ranks_before(
            f,
            #[trigger] h.insert(pos, (score, payload))[j].0,
            #[trigger] h.insert(pos, (score, payload))[i].0,
        ) by {
            let s = h.insert(pos, (score, payload));
            if i < pos && j < pos {
                assert(s[i] == h[i] && s[j] == h[j]);
            } else if i < pos && j == pos {
                assert(s[i] == h[i]);
                assert(!pred(h[i]));
            } else if i < pos && j > pos {
                assert(s[i] == h[i] && s[j] == h[j - 1]);
            } else if i == pos {
                assert(s[j] == h[j - 1]);
                assert(pred(h[pos]));
                if j - 1 > pos {
                    assert(!spec_ranks_before(f, h[j - 1].0, h[pos].0));
                }
            } else {
                assert(s[i] == h[i - 1] && s[j] == h[j - 1]);
            }
        }
    }

    /// The retained hits, best first.
    pub fn into_hits(self) -> (hits: Vec<(i64, T)>)
        ensures
            hits@ == self.hits(),
    {
        self.hits
    }
}

/// `first_match` answers with a position that satisfies the predicate and
/// has none before it, or with none when no element satisfies it.
pub proof fn lemma_first_match_at_ensures<T>(s: Seq<T>, p: spec_fn(T) -> bool)
    ensures
        match first_match(s, p) {
            Some(i) => 0 <= i < s.len() && p(s[i]) && forall|j: int| 0 <= j < i ==> !p(#[trigger] s[j]),
            None => forall|j: int| 0 <= j < s.len() ==> !p(#[trigger] s[j]),
        },
    decreases s.len(),
{
    if s.len() > 0 && !p(s[0]) {
        lemma_first_match_at_ensures(s.drop_first(), p);
        assert forall|j: int| 0 < j < s.len() implies s[j] == s.drop_first()[j - 1] by {}
    }
}


/// The little-endian 32-bit word held by four bytes.
pub open spec fn le_word(b0: u8, b1: u8, b2: u8, b3: u8) -> nat {
    b0 as nat + 256 * (b1 as nat) + 65536 * (b2 as nat) + 16777216 * (b3 as nat)
}

/// The message of the error for a blob whose length does not match.
pub open spec fn vector_length_text(len: nat, dimensions: nat) -> Seq<char> {
    "stored vector is "@ + decimal(len) + " bytes, expected "@ + decimal(4 * dimensions) + " for "@
        + decimal(dimensions) + " dimensions"@
}

/// Decode a stored vector blob into the bit patterns of its `f32`
/// components, read little-endian, four bytes each.
///
/// Rejects a truncated blob rather than reading a short vector, because a
/// dimension mismatch would silently change every distance in the result.
pub fn decode_vector(bytes: &[u8], dimensions: usize) -> (r: Result<Vec<u32>, StorageError>)
    requires
        dimensions <= usize::MAX / 4,
    ensures
        match r {
            Ok(words) => {
                &&& bytes@.len() == 4 * dimensions
                &&& words@.len() == dimensions
                &&& forall|i: int|
                    0 <= i < dimensions ==> #[trigger] words@[i] as nat == le_word(
                        bytes@[4 * i],
                        bytes@[4 * i + 1],
                        bytes@[4 * i + 2],
                        bytes@[4 * i + 3],
                    )
            },
            Err(e) => {
                &&& bytes@.len() != 4 * dimensions
                &&& e matches StorageError::Internal(m)
                &&& m@ == vector_length_text(bytes@.len(), dimensions as nat)
            },
        },
{
    if bytes.len() != dimensions * 4 {
        let mut m = "stored vector is ".to_owned();
        push_decimal(&mut m, bytes.len() as u64);
        m.append(" bytes, expected ");
        push_decimal(&mut m, (dimensions * 4) as u64);
        m.append(" for ");
        push_decimal(&mut m, dimensions as u64);
        m.append(" dimensions");
        return Err(StorageError::Internal(m));
    }
    let mut words: Vec<u32> = Vec::new();
    let mut i: usize = 0;
    while i < dimensions
        invariant
            bytes@.len() == 4 * dimensions,
            dimensions <= usize::MAX / 4,
            i <= dimensions,
            words@.len() == i,
            forall|j: int|
                0 <= j < i ==> #[trigger] words@[j] as nat == le_word(
                    bytes@[4 * j],
                    bytes@[4 * j + 1],
                    bytes@[4 * j + 2],
                    bytes@[4 * j + 3],
                ),
        decreases dimensions - i,
    {
        let b0 = bytes[4 * i] as u32;
        let b1 = bytes[4 * i + 1] as u32;
        let b2 = bytes[4 * i + 2] as u32;
        let b3 = bytes[4 * i + 3] as u32;
        let w = b0 + 256 * b1 + 65536 * b2 + 16777216 * b3;
        words.push(w);
        i += 1;
    }
    Ok(words)
}

/// The text of the error for a stored dimension count that is not a size.
pub open spec fn dimensions_range_text(raw: int) -> Seq<char> {
    "vector dimensions out of range: "@ + signed_decimal(raw)
}

/// Reads a stored dimension count, which must be a size.
pub fn vector_dimensions(raw: i64) -> (r: Result<usize, StorageError>)
    ensures
        match r {
            Ok(d) => 0 <= raw <= usize::MAX && d == raw,
            Err(e) => {
                &&& !(0 <= raw <= usize::MAX)
                &&& e matches StorageError::Internal(m) && m@ == dimensions_range_text(raw as int)
            },
        },
{
    if raw >= 0 && raw as u64 <= usize::MAX as u64 {
        Ok(raw as usize)
    } else {
        let mut m = "vector dimensions out of range: ".to_owned();
        push_signed_decimal(&mut m, raw);
        Err(StorageError::Internal(m))
    }
}

/// The text of the error for a query vector of the wrong dimension.
pub open spec fn query_dimensions_text(query_len: nat, dimensions: nat) -> Seq<char> {
    "query vector has "@ + decimal(query_len) + " dimensions, index expects "@ + decimal(dimensions)
}

/// Checks that the query vector has as many components as the index.
pub fn check_query_dimensions(query_len: usize, dimensions: usize) -> (r: Result<(), StorageError>)
    ensures
        r is Ok <==> query_len == dimensions,
        r matches Err(e) ==> e matches StorageError::Validation(m) && m@ == query_dimensions_text(
            query_len as nat,
            dimensions as nat,
        ),
{
    if query_len != dimensions {
        let mut m = "query vector has ".to_owned();
        push_decimal(&mut m, query_len as u64);
        m.append(" dimensions, index expects ");
        push_decimal(&mut m, dimensions as u64);
        return Err(StorageError::Validation(m));
    }
    Ok(())
}

/// The number of hits a search keeps: the requested count, with a
/// negative one (or one beyond a `usize`) keeping none.
pub fn top_k_size(top_k: i64) -> (k: usize)
    ensures
        k == if 0 <= top_k <= usize::MAX {
            top_k as int
        } else {
            0
        },
{
    if top_k >= 0 && top_k as u64 <= usize::MAX as u64 {
        top_k as usize
    } else {
        0
    }
}

fn bytes_equal(a: &Vec<u8>, b: &Vec<u8>) -> (r: bool)
    ensures
        r == (a@ == b@),
{
    if a.len() != b.len() {
        return false;
    }
    let mut i: usize = 0;
    while i < a.len()
        invariant
            a@.len() == b@.len(),
            i <= a@.len(),
            forall|j: int| 0 <= j < i ==> a@[j] == b@[j],
        decreases a@.len() - i,
    {
        if a[i] != b[i] {
            return false;
        }
        i += 1;
    }
    assert(a@ =~= b@);
    true
}

fn strings_equal(a: &Vec<String>, b: &Vec<String>) -> (r: bool)
    ensures
        r == (a@.map_values(|x: String| x@) == b@.map_values(|x: String| x@)),
{
    if a.len() != b.len() {
        assert(a@.map_values(|x: String| x@).len() != b@.map_values(|x: String| x@).len());
        return false;
    }
    let mut i: usize = 0;
    while i < a.len()
        invariant
            a@.len() == b@.len(),
            i <= a@.len(),
            forall|j: int| 0 <= j < i ==> a@[j]@ == b@[j]@,
        decreases a@.len() - i,
    {
        if !str_eq(a[i].as_str(), b[i].as_str()) {
            assert(a@.map_values(|x: String| x@)[i as int] != b@.map_values(|x: String| x@)[i as int]);
            return false;
        }
        i += 1;
    }
    assert(a@.map_values(|x: String| x@) =~= b@.map_values(|x: String| x@));
    true
}

fn byte_lists_equal(a: &Vec<Vec<u8>>, b: &Vec<Vec<u8>>) -> (r: bool)
    ensures
        r == (a@.map_values(|x: Vec<u8>| x@) == b@.map_values(|x: Vec<u8>| x@)),
{
    if a.len() != b.len() {
        assert(a@.map_values(|x: Vec<u8>| x@).len() != b@.map_values(|x: Vec<u8>| x@).len());
        return false;
    }
    let mut i: usize = 0;
    while i < a.len()
        invariant
            a@.len() == b@.len(),
            i <= a@.len(),
            forall|j: int| 0 <= j < i ==> a@[j]@ == b@[j]@,
        decreases a@.len() - i,
    {
        if !bytes_equal(&a[i], &b[i]) {
            assert(a@.map_values(|x: Vec<u8>| x@)[i as int] != b@.map_values(|x: Vec<u8>| x@)[i as int]);
            return false;
        }
        i += 1;
    }
    assert(a@.map_values(|x: Vec<u8>| x@) =~= b@.map_values(|x: Vec<u8>| x@));
    true
}

/// Whether two attribute values are equal.
pub fn attribute_values_equal(a: &AttributeValue, b: &AttributeValue) -> (r: bool)
    ensures
        r == (a@ == b@),
{
    match (a, b) {
        (AttributeValue::S(x), AttributeValue::S(y)) => str_eq(x.as_str(), y.as_str()),
        (AttributeValue::N(x), AttributeValue::N(y)) => str_eq(x.as_str(), y.as_str()),
        (AttributeValue::B(x), AttributeValue::B(y)) => bytes_equal(x, y),
        (AttributeValue::Bool(x), AttributeValue::Bool(y)) => *x == *y,
        (AttributeValue::Null(x), AttributeValue::Null(y)) => *x == *y,
        (AttributeValue::Ss(x), AttributeValue::Ss(y)) => strings_equal(x, y),
        (AttributeValue::Ns(x), AttributeValue::Ns(y)) => strings_equal(x, y),
        (AttributeValue::Bs(x), AttributeValue::Bs(y)) => byte_lists_equal(x, y),
        _ => false,
    }
}

/// Whether an item holds every filter attribute with exactly the filter's
/// value.
pub open spec fn meets_filters(item: Seq<(Seq<char>, AttrView)>, filters: Seq<(Seq<char>, AttrView)>) -> bool {
    forall|i: int| 0 <= i < filters.len() ==> lookup(item, #[trigger] filters[i].0) == Some(filters[i].1)
}

/// Whether a candidate item passes the search's equality filters.
pub fn passes_filters(item: &Item, filters: &Vec<(String, AttributeValue)>) -> (r: bool)
    ensures
        r == meets_filters(item@, filters@.map_values(|f: (String, AttributeValue)| (f.0@, f.1@))),
{
    let ghost fv = filters@.map_values(|f: (String, AttributeValue)| (f.0@, f.1@));
    let mut i: usize = 0;
    while i < filters.len()
        invariant
            i <= filters@.len(),
            fv == filters@.map_values(|f: (String, AttributeValue)| (f.0@, f.1@)),
            forall|j: int| 0 <= j < i ==> lookup(item@, #[trigger] fv[j].0) == Some(fv[j].1),
        decreases filters@.len() - i,
    {
        let ok = match item.get(filters[i].0.as_str()) {
            Some(v) => attribute_values_equal(v, &filters[i].1),
            None => false,
        };
        if !ok {
            assert(lookup(item@, fv[i as int].0) != Some(fv[i as int].1));
            return false;
        }
        i += 1;
    }
    true
}

} // verus!
