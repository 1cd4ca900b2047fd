//! Partition key and sort key text forms, and the composite key encoding.
use base64::Engine;
use bigdecimal::BigDecimal;
use vstd::prelude::*;
use vstd::utf8::encode_utf8;

use crate::error::StorageError;
use crate::text::{decimal, is_digit, lemma_decimal_digits, lemma_decimal_injective, push_decimal, views};
use crate::types::{
    AttrView, AttributeDefinition, AttributeValue, Item, KeySchemaElement, KeyType, ScalarAttributeType,
    lookup,
};

verus! {

/// The number of bytes in the UTF-8 encoding of `p`.
pub open spec fn utf8_len(p: Seq<char>) -> nat {
    encode_utf8(p).len()
}

/// One netstring field: `<byte length>:<value>,`.
pub open spec fn netstring_piece(p: Seq<char>) -> Seq<char> {
    decimal(utf8_len(p)) + seq![':'] + p + seq![',']
}

/// The netstring encoding of a sequence of parts: the fields of the parts,
/// concatenated in order.
pub open spec fn netstring(parts: Seq<Seq<char>>) -> Seq<char>
    decreases parts.len(),
{
    if parts.len() == 0 {
        seq![]
    } else {
        netstring_piece(parts[0]) + netstring(parts.drop_first())
    }
}

/// Appending a part appends its field.
pub proof fn lemma_netstring_push(parts: Seq<Seq<char>>, p: Seq<char>)
    ensures
        netstring(parts.push(p)) == netstring(parts) + netstring_piece(p),
    decreases parts.len(),
{
    if parts.len() == 0 {
        assert(parts.push(p).drop_first() =~= Seq::<Seq<char>>::empty());
        assert(netstring(parts.push(p).drop_first()) == Seq::<char>::empty());
        assert(parts.push(p)[0] == p);
        assert(netstring(parts.push(p)) =~= netstring(parts) + netstring_piece(p));
    } else {
        assert(parts.push(p).drop_first() =~= parts.drop_first().push(p));
        lemma_netstring_push(parts.drop_first(), p);
        assert(netstring(parts.push(p)) =~= netstring(parts) + netstring_piece(p));
    }
}

/// The UTF-8 encoding of a concatenation is the concatenation of the encodings.
pub proof fn lemma_encode_concat(a: Seq<char>, b: Seq<char>)
    ensures
        encode_utf8(a + b) == encode_utf8(a) + encode_utf8(b),
    decreases a.len(),
{
    if a.len() == 0 {
        assert(a + b =~= b);
        assert(encode_utf8(a) + encode_utf8(b) =~= encode_utf8(b));
    } else {
        assert((a + b).drop_first() =~= a.drop_first() + b);
        assert((a + b)[0] == a[0]);
        lemma_encode_concat(a.drop_first(), b);
        assert(encode_utf8(a + b) =~= encode_utf8(a) + encode_utf8(b));
    }
}

/// Every character takes at least one byte.
pub proof fn lemma_utf8_len_char(c: char)
    ensures
        utf8_len(seq![c]) >= 1,
{
    assert(seq![c].drop_first() =~= Seq::<char>::empty());
}

/// A sequence of parts is determined by its netstring encoding: different
/// sequences of parts never encode to the same text, whatever the parts hold.
pub proof fn lemma_netstring_injective(ps: Seq<Seq<char>>, qs: Seq<Seq<char>>)
    requires
        netstring(ps) == netstring(qs),
    ensures
        ps == qs,
    decreases ps.len(),
{
    if ps.len() == 0 && qs.len() == 0 {
        assert(ps =~= qs);
    } else if ps.len() == 0 {
        assert(netstring(qs).len() >= 1);
    } else if qs.len() == 0 {
        assert(netstring(ps).len() >= 1);
    } else {
        let p0 = ps[0];
        let q0 = qs[0];
        let rp = netstring(ps.drop_first());
        let rq = netstring(qs.drop_first());
        let dp = decimal(utf8_len(p0));
        let dq = decimal(utf8_len(q0));
        let s = netstring(ps);
        let tp = p0 + seq![','] + rp;
        let tq = q0 + seq![','] + rq;
        assert(s =~= dp + seq![':'] + tp);
        assert(s =~= dq + seq![':'] + tq);
        lemma_decimal_digits(utf8_len(p0));
        lemma_decimal_digits(utf8_len(q0));
        if dp.len() < dq.len() {
            assert(s[dp.len() as int] == ':');
            assert(s[dp.len() as int] == dq[dp.len() as int]);
            assert(is_digit(dq[dp.len() as int]));
            assert(false);
        }
        if dq.len() < dp.len() {
            assert(s[dq.len() as int] == ':');
            assert(s[dq.len() as int] == dp[dq.len() as int]);
            assert(is_digit(dp[dq.len() as int]));
            assert(false);
        }
        assert(dp =~= s.take(dp.len() as int));
        assert(dq =~= s.take(dq.len() as int));
        lemma_decimal_injective(utf8_len(p0), utf8_len(q0));
        let t = s.skip(dp.len() as int + 1);
        assert(t =~= tp);
        assert(t =~= tq);
        if p0.len() < q0.len() {
            let w = t.subrange(p0.len() as int + 1, q0.len() as int);
            assert(q0 =~= t.take(q0.len() as int));
            assert(t[p0.len() as int] == ',');
            assert(q0 =~= p0 + seq![','] + w);
            lemma_encode_concat(p0 + seq![','], w);
            lemma_encode_concat(p0, seq![',']);
            lemma_utf8_len_char(',');
            assert(false);
        }
        if q0.len() < p0.len() {
            let w = t.subrange(q0.len() as int + 1, p0.len() as int);
            assert(p0 =~= t.take(p0.len() as int));
            assert(t[q0.len() as int] == ',');
            assert(p0 =~= q0 + seq![','] + w);
            lemma_encode_concat(q0 + seq![','], w);
            lemma_encode_concat(q0, seq![',']);
            lemma_utf8_len_char(',');
            assert(false);
        }
        assert(p0 =~= t.take(p0.len() as int));
        assert(q0 =~= t.take(q0.len() as int));
        assert(rp =~= t.skip(p0.len() as int + 1));
        assert(rq =~= t.skip(q0.len() as int + 1));
        lemma_netstring_injective(ps.drop_first(), qs.drop_first());
        assert(ps =~= seq![p0] + ps.drop_first());
        assert(qs =~= seq![q0] + qs.drop_first());
    }
}

/// Encode multiple string parts into a single netstring-encoded composite key.
///
/// Format: `<len>:<value>,<len>:<value>,...`, where `<len>` is the byte length
/// of the value in UTF-8; e.g. `"abc"` and `"de"` give `"3:abc,2:de,"`.
pub fn encode_netstring_composite(parts: &[String]) -> (out: String)
    ensures
        out@ == netstring(views(parts@)),
{
    let mut out = String::new();
    let mut i: usize = 0;
    while i < parts.len()
        invariant
            i <= parts@.len(),
            out@ == netstring(views(parts@).take(i as int)),
        decreases parts@.len() - i,
    {
        let p = &parts[i];
        let ghost before = out@;
        let n = p.as_str().as_bytes().len();
        assert(n == utf8_len(p@));
        push_decimal(&mut out, n as u64);
        out.append(":");
        out.append(p.as_str());
        out.append(",");
        proof {
            reveal_strlit(":");
            reveal_strlit(",");
            assert(":"@ =~= seq![':']);
            assert(","@ =~= seq![',']);
            assert(views(parts@).take(i + 1) =~= views(parts@).take(i as int).push(p@));
            lemma_netstring_push(views(parts@).take(i as int), p@);
            assert(out@ =~= before + netstring_piece(p@));
        }
        i += 1;
    }
    assert(views(parts@).take(parts@.len() as int) =~= views(parts@));
    out
}


/// The padded standard-alphabet base64 text of `bytes`, as the `base64`
/// crate's `STANDARD` engine produces it.
pub uninterp spec fn base64_standard(bytes: Seq<u8>) -> Seq<char>;

/// Encodes `bytes` with `base64::engine::general_purpose::STANDARD.encode`.
/// Stated: the text is named `base64_standard` of the bytes, and the same
/// engine decodes it back to the bytes, as the crate documents.
#[verifier::external_body]
pub(crate) fn base64_encode(bytes: &[u8]) -> (text: String)
    ensures
        text@ == base64_standard(bytes@),
        base64_standard_decode(text@) == Some(bytes@),
{
    base64::engine::general_purpose::STANDARD.encode(bytes)
}

/// The bytes that the padded standard-alphabet base64 text `text` decodes
/// to, or none when it is not such base64, as the `base64` crate's
/// `STANDARD` engine decodes.
pub uninterp spec fn base64_standard_decode(text: Seq<char>) -> Option<Seq<u8>>;

/// Decodes with `base64::engine::general_purpose::STANDARD.decode`, the
/// error rendered as text. Stated: the result is named
/// `base64_standard_decode` of the text, and text that the same engine
/// produced from some bytes decodes back to those bytes. The error text is
/// not stated.
#[verifier::external_body]
pub(crate) fn base64_decode(text: &str) -> (r: Result<Vec<u8>, String>)
    ensures
        match r {
            Ok(b) => base64_standard_decode(text@) == Some(b@),
            Err(_) => base64_standard_decode(text@) is None,
        },
        r is Err ==> forall|b: Seq<u8>| base64_standard(b) != text@,
        r matches Ok(x) ==> forall|b: Seq<u8>| base64_standard(b) == text@ ==> x@ == b,
{
    base64::engine::general_purpose::STANDARD.decode(text).map_err(|e| e.to_string())
}

/// The TEXT form in which a partition key value is stored: strings and
/// numbers as written, binary values in base64; other kinds have none.
pub open spec fn spec_pk_text(v: AttrView) -> Option<Seq<char>> {
    match v {
        AttrView::S(s) => Some(s),
        AttrView::N(n) => Some(n),
        AttrView::B(b) => Some(base64_standard(b)),
        _ => None,
    }
}

/// The message of the error for a partition key of another kind.
pub open spec fn pk_kind_text() -> Seq<char> {
    "partition key must be S, N, or B"@
}

/// Extract the partition key value as TEXT for storage.
///
/// S and N are stored as written, B as base64.
pub fn pk_to_text(value: &AttributeValue) -> (r: Result<String, StorageError>)
    ensures
        match r {
            Ok(t) => spec_pk_text(value@) == Some(t@),
            Err(e) => {
                &&& spec_pk_text(value@) is None
                &&& e matches StorageError::Internal(m)
                &&& m@ == pk_kind_text()
            },
        },
{
    match value {
        AttributeValue::S(s) => Ok(s.clone()),
        AttributeValue::N(n) => Ok(n.clone()),
        AttributeValue::B(b) => Ok(base64_encode(b.as_slice())),
        _ => Err(StorageError::Internal("partition key must be S, N, or B".to_owned())),
    }
}

/// The view of a key schema element: its attribute name and role.
pub open spec fn ks_view(e: KeySchemaElement) -> (Seq<char>, KeyType) {
    (e.attribute_name@, e.key_type)
}

/// The names of the HASH elements of a key schema, in schema order.
pub open spec fn hash_names(ks: Seq<(Seq<char>, KeyType)>) -> Seq<Seq<char>>
    decreases ks.len(),
{
    if ks.len() == 0 {
        seq![]
    } else if ks.last().1 == KeyType::Hash {
        hash_names(ks.drop_last()).push(ks.last().0)
    } else {
        hash_names(ks.drop_last())
    }
}

/// The message of the error for a missing single partition key.
pub open spec fn missing_pk_text() -> Seq<char> {
    "missing partition key"@
}

/// The message of the error for a missing part of a composite partition key.
pub open spec fn missing_pk_part_text(name: Seq<char>) -> Seq<char> {
    "missing partition key attribute "@ + name
}

/// The texts of the partition key parts `names` of an item, or the message
/// of the first part that is missing or of another kind.
pub open spec fn pk_part_texts(item: Seq<(Seq<char>, AttrView)>, names: Seq<Seq<char>>) -> Result<
    Seq<Seq<char>>,
    Seq<char>,
>
    decreases names.len(),
{
    if names.len() == 0 {
        Ok(seq![])
    } else {
        match pk_part_texts(item, names.drop_last()) {
            Err(m) => Err(m),
            Ok(ts) => match lookup(item, names.last()) {
                None => Err(missing_pk_part_text(names.last())),
                Some(v) => match spec_pk_text(v) {
                    None => Err(pk_kind_text()),
                    Some(t) => Ok(ts.push(t)),
                },
            },
        }
    }
}

/// The composite partition key text of an item: the single HASH value as is,
/// or the netstring of all HASH values when the schema has any other number
/// of HASH elements; or the message of the error.
pub open spec fn spec_composite_pk(item: Seq<(Seq<char>, AttrView)>, names: Seq<Seq<char>>) -> Result<
    Seq<char>,
    Seq<char>,
> {
    if names.len() == 1 {
        match lookup(item, names[0]) {
            None => Err(missing_pk_text()),
            Some(v) => match spec_pk_text(v) {
                None => Err(pk_kind_text()),
                Some(t) => Ok(t),
            },
        }
    } else {
        match pk_part_texts(item, names) {
            Ok(ts) => Ok(netstring(ts)),
            Err(m) => Err(m),
        }
    }
}

/// Build a composite partition key TEXT value from multiple HASH attributes.
///
/// For single-attribute keys, returns the value directly (no encoding).
/// For multi-attribute keys, uses netstring encoding, which is collision-free
/// regardless of value content.
pub fn composite_pk_to_text(item: &Item, key_schema: &[KeySchemaElement]) -> (r: Result<String, StorageError>)
    ensures
        match r {
            Ok(t) => spec_composite_pk(item@, hash_names(key_schema@.map_values(|e: KeySchemaElement| ks_view(e))))
                == Ok::<Seq<char>, Seq<char>>(t@),
            Err(e) => {
                &&& e matches StorageError::Internal(m)
                &&& spec_composite_pk(
                    item@,
                    hash_names(key_schema@.map_values(|e: KeySchemaElement| ks_view(e))),
                ) == Err::<Seq<char>, Seq<char>>(m@)
            },
        },
{
    let ghost ksv = key_schema@.map_values(|e: KeySchemaElement| ks_view(e));
    let mut hash_elements: Vec<&str> = Vec::new();
    let mut i: usize = 0;
    while i < key_schema.len()
        invariant
            i <= key_schema@.len(),
            ksv == key_schema@.map_values(|e: KeySchemaElement| ks_view(e)),
            hash_elements@.map_values(|n: &str| n@) == hash_names(ksv.take(i as int)),
        decreases key_schema@.len() - i,
    {
        assert(ksv.take(i + 1).drop_last() =~= ksv.take(i as int));
        if !is_range_key(key_schema[i].key_type) {
            hash_elements.push(key_schema[i].attribute_name.as_str());
            assert(hash_elements@.map_values(|n: &str| n@) =~= hash_names(ksv.take(i + 1)));
        }
        i += 1;
    }
    assert(ksv.take(key_schema@.len() as int) =~= ksv);
    let ghost names = hash_names(ksv);
    if hash_elements.len() == 1 {
        assert(hash_elements[0]@ == names[0]);
        let val = match item.get(hash_elements[0]) {
            Some(v) => v,
            None => {
                return Err(StorageError::Internal("missing partition key".to_owned()));
            },
        };
        return pk_to_text(val);
    }
    let mut parts: Vec<String> = Vec::new();
    let mut j: usize = 0;
    assert(names.take(0) =~= Seq::<Seq<char>>::empty());
    assert(views(parts@) =~= Seq::<Seq<char>>::empty());
    while j < hash_elements.len()
        invariant
            j <= hash_elements@.len(),
            names == hash_elements@.map_values(|n: &str| n@),
            names == hash_names(key_schema@.map_values(|e: KeySchemaElement| ks_view(e))),
            hash_elements@.len() != 1,
            pk_part_texts(item@, names.take(j as int)) == Ok::<Seq<Seq<char>>, Seq<char>>(
                views(parts@),
            ),
        decreases hash_elements@.len() - j,
    {
        let name = hash_elements[j];
        assert(names.take(j + 1).drop_last() =~= names.take(j as int));
        assert(names[j as int] == name@);
        assert(names.take(j + 1).last() == name@);
        let val = match item.get(name) {
            Some(v) => v,
            None => {
                let mut m = "missing partition key attribute ".to_owned();
                m.append(name);
                proof {
                    lemma_pk_part_texts_err(item@, names, j as int + 1);
                }
                return Err(StorageError::Internal(m));
            },
        };
        let t = match pk_to_text(val) {
            Ok(t) => t,
            Err(e) => {
                proof {
                    lemma_pk_part_texts_err(item@, names, j as int + 1);
                }
                return Err(e);
            },
        };
        let ghost old_views = views(parts@);
        parts.push(t);
        assert(views(parts@) =~= old_views.push(t@));
        assert(pk_part_texts(item@, names.take(j + 1)) == Ok::<Seq<Seq<char>>, Seq<char>>(old_views.push(t@)));
        j += 1;
    }
    assert(names.take(hash_elements@.len() as int) =~= names);
    Ok(encode_netstring_composite(parts.as_slice()))
}

/// Once the parts of a prefix fail, every longer prefix fails the same way.
pub proof fn lemma_pk_part_texts_err(item: Seq<(Seq<char>, AttrView)>, names: Seq<Seq<char>>, k: int)
    requires
        0 <= k <= names.len(),
        pk_part_texts(item, names.take(k)) is Err,
    ensures
        pk_part_texts(item, names) == pk_part_texts(item, names.take(k)),
    decreases names.len() - k,
{
    if k < names.len() {
        assert(names.take(k + 1).drop_last() =~= names.take(k));
        lemma_pk_part_texts_err(item, names, k + 1);
    } else {
        assert(names.take(k) =~= names);
    }
}

/// The sort key column for a scalar attribute type.
pub open spec fn sk_suffix(attr_type: ScalarAttributeType) -> Seq<char> {
    match attr_type {
        ScalarAttributeType::S => "s"@,
        ScalarAttributeType::N => "n"@,
        ScalarAttributeType::B => "b"@,
    }
}

/// Determine which sort key column to use based on the attribute type.
pub fn sk_column(attr_type: ScalarAttributeType) -> (col: &'static str)
    ensures
        col@ == "sk_"@ + sk_suffix(attr_type),
{
    proof {
        reveal_strlit("sk_");
        reveal_strlit("s");
        reveal_strlit("n");
        reveal_strlit("b");
        reveal_strlit("sk_s");
        reveal_strlit("sk_n");
        reveal_strlit("sk_b");
    }
    match attr_type {
        ScalarAttributeType::S => {
            assert("sk_s"@ =~= "sk_"@ + "s"@);
            "sk_s"
        },
        ScalarAttributeType::N => {
            assert("sk_n"@ =~= "sk_"@ + "n"@);
            "sk_n"
        },
        ScalarAttributeType::B => {
            assert("sk_b"@ =~= "sk_"@ + "b"@);
            "sk_b"
        },
    }
}

/// The name of the column holding the sort key at position `index`: index 0
/// keeps the single-sort-key name `sk_<t>`, index `i > 0` is `sk<i+1>_<t>`.
pub open spec fn spec_sk_column_n(index: nat, attr_type: ScalarAttributeType) -> Seq<char> {
    if index == 0 {
        "sk_"@ + sk_suffix(attr_type)
    } else {
        "sk"@ + decimal(index + 1) + "_"@ + sk_suffix(attr_type)
    }
}

/// Column name for the Nth sort key based on attribute type.
pub fn sk_column_n(index: usize, attr_type: ScalarAttributeType) -> (col: String)
    requires
        index < usize::MAX,
    ensures
        col@ == spec_sk_column_n(index as nat, attr_type),
{
    let suffix = match attr_type {
        ScalarAttributeType::S => "s",
        ScalarAttributeType::N => "n",
        ScalarAttributeType::B => "b",
    };
    if index == 0 {
        let mut out = "sk_".to_owned();
        out.append(suffix);
        out
    } else {
        let mut out = "sk".to_owned();
        push_decimal(&mut out, index as u64 + 1);
        out.append("_");
        out.append(suffix);
        out
    }
}

/// The index of the first element of a sequence that satisfies `p`.
pub open spec fn first_match<T>(s: Seq<T>, p: spec_fn(T) -> bool) -> Option<int>
    decreases s.len(),
{
    if s.len() == 0 {
        None
    } else if p(s[0]) {
        Some(0)
    } else {
        match first_match(s.drop_first(), p) {
            Some(i) => Some(i + 1),
            None => None,
        }
    }
}

/// `first_match` gives the first position whose element satisfies `p`.
pub proof fn lemma_first_match_at<T>(s: Seq<T>, p: spec_fn(T) -> bool, i: int)
    requires
        0 <= i <= s.len(),
        forall|j: int| 0 <= j < i ==> !p(#[trigger] s[j]),
        i < s.len() ==> p(s[i]),
    ensures
        first_match(s, p) == (if i < s.len() { Some(i) } else { None::<int> }),
    decreases s.len(),
{
    if s.len() > 0 && i > 0 {
        assert forall|j: int| 0 <= j < i - 1 implies !p(#[trigger] s.drop_first()[j]) by {
            assert(s.drop_first()[j] == s[j + 1]);
        }
        lemma_first_match_at(s.drop_first(), p, i - 1);
    }
}

/// Holds of the RANGE elements of a key schema.
pub open spec fn range_pred() -> spec_fn(KeySchemaElement) -> bool {
    |e: KeySchemaElement| e.key_type == KeyType::Range
}

/// Holds of the attribute definitions named `name`.
pub open spec fn name_pred(name: Seq<char>) -> spec_fn(AttributeDefinition) -> bool {
    |d: AttributeDefinition| d.attribute_name@ == name
}

/// The sort key of a table: the name of the first RANGE element of the key
/// schema and the type of the first attribute definition with that name.
pub open spec fn spec_sk_info(ks: Seq<KeySchemaElement>, defs: Seq<AttributeDefinition>) -> Option<
    (Seq<char>, ScalarAttributeType),
> {
    match first_match(ks, range_pred()) {
        None => None,
        Some(i) => match first_match(defs, name_pred(ks[i].attribute_name@)) {
            None => None,
            Some(j) => Some((ks[i].attribute_name@, defs[j].attribute_type)),
        },
    }
}

/// True for the RANGE role.
fn is_range_key(t: KeyType) -> (r: bool)
    ensures
        r == (t == KeyType::Range),
{
    match t {
        KeyType::Range => true,
        KeyType::Hash => false,
    }
}

/// Look up the sort key attribute definition from the key schema.
pub fn sk_info<'a>(key_schema: &'a [KeySchemaElement], attr_defs: &'a [AttributeDefinition]) -> (r: Option<
    (&'a str, ScalarAttributeType),
>)
    ensures
        match r {
            Some((name, t)) => spec_sk_info(key_schema@, attr_defs@) == Some((name@, t)),
            None => spec_sk_info(key_schema@, attr_defs@) is None,
        },
{
    let mut i: usize = 0;
    while i < key_schema.len() && !is_range_key(key_schema[i].key_type)
        invariant
            i <= key_schema@.len(),
            forall|j: int| 0 <= j < i ==> !range_pred()(#[trigger] key_schema@[j]),
        decreases key_schema@.len() - i,
    {
        assert(!range_pred()(key_schema@[i as int]));
        i += 1;
    }
    proof {
        lemma_first_match_at(key_schema@, range_pred(), i as int);
    }
    if i == key_schema.len() {
        return None;
    }
    let name = key_schema[i].attribute_name.as_str();
    let mut j: usize = 0;
    while j < attr_defs.len() && !crate::text::str_eq(attr_defs[j].attribute_name.as_str(), name)
        invariant
            j <= attr_defs@.len(),
            i < key_schema@.len(),
            name@ == key_schema@[i as int].attribute_name@,
            forall|k: int| 0 <= k < j ==> !name_pred(name@)(#[trigger] attr_defs@[k]),
        decreases attr_defs@.len() - j,
    {
        assert(!name_pred(name@)(attr_defs@[j as int]));
        j += 1;
    }
    proof {
        lemma_first_match_at(attr_defs@, name_pred(name@), j as int);
    }
    if j == attr_defs.len() {
        return None;
    }
    Some((name, attr_defs[j].attribute_type))
}


/// The arbitrary-precision decimal type of the `bigdecimal` crate.
#[verifier::external_type_specification]
#[verifier::external_body]
pub struct ExBigDecimal(BigDecimal);

/// Whether `str::parse::<BigDecimal>` accepts the text `s`.
pub uninterp spec fn decimal_text_parses(s: Seq<char>) -> bool;

/// Parses the text with `str::parse::<BigDecimal>`, the error rendered as
/// text. Stated: it succeeds exactly when `decimal_text_parses` holds of the
/// text. The parsed value and the error text are not stated.
#[verifier::external_body]
fn parse_decimal(s: &str) -> (r: Result<BigDecimal, String>)
    ensures
        r is Ok <==> decimal_text_parses(s@),
{
    s.parse::<BigDecimal>().map_err(|e| e.to_string())
}

/// Parsed sort key value ready for SQL binding.
#[derive(Debug)]
pub enum SortKeyValue {
    S(String),
    N(BigDecimal),
    B(Vec<u8>),
}

/// The prefix of the message of the error for a numeric sort key that does
/// not parse.
pub open spec fn invalid_numeric_text() -> Seq<char> {
    "invalid numeric sort key: "@
}

/// The message of the error for a value whose kind differs from the key type.
pub open spec fn sk_mismatch_text() -> Seq<char> {
    "sort key type mismatch"@
}

/// Parse an `AttributeValue` into a typed sort key for SQL binding.
pub fn parse_sk(value: &AttributeValue, sk_type: ScalarAttributeType) -> (r: Result<SortKeyValue, StorageError>)
    ensures
        match (sk_type, value@) {
            (ScalarAttributeType::S, AttrView::S(s)) => r matches Ok(SortKeyValue::S(x)) && x@ == s,
            (ScalarAttributeType::B, AttrView::B(b)) => r matches Ok(SortKeyValue::B(x)) && x@ == b,
            (ScalarAttributeType::N, AttrView::N(n)) => {
                &&& (r is Ok <==> decimal_text_parses(n))
                &&& (r is Ok ==> r matches Ok(SortKeyValue::N(_)))
                &&& (r matches Err(e) ==> e matches StorageError::Internal(m) && m@.take(26)
                    == invalid_numeric_text())
            },
            _ => r matches Err(e) && e matches StorageError::Internal(m) && m@ == sk_mismatch_text(),
        },
{
    match (sk_type, value) {
        (ScalarAttributeType::S, AttributeValue::S(s)) => Ok(SortKeyValue::S(s.clone())),
        (ScalarAttributeType::N, AttributeValue::N(n)) => match parse_decimal(n.as_str()) {
            Ok(d) => Ok(SortKeyValue::N(d)),
            Err(e) => {
                let mut m = "invalid numeric sort key: ".to_owned();
                m.append(e.as_str());
                proof {
                    reveal_strlit("invalid numeric sort key: ");
                    assert(m@.take(26) =~= invalid_numeric_text());
                }
                Err(StorageError::Internal(m))
            },
        },
        (ScalarAttributeType::B, AttributeValue::B(b)) => {
            let mut copy: Vec<u8> = Vec::new();
            let mut i: usize = 0;
            while i < b.len()
                invariant
                    i <= b@.len(),
                    copy@ == b@.take(i as int),
                decreases b@.len() - i,
            {
                copy.push(b[i]);
                assert(b@.take(i + 1) =~= b@.take(i as int).push(b@[i as int]));
                i += 1;
            }
            assert(b@.take(b@.len() as int) =~= b@);
            Ok(SortKeyValue::B(copy))
        },
        _ => Err(StorageError::Internal("sort key type mismatch".to_owned())),
    }
}

/// The text of the error for a key attribute that an item lacks.
pub open spec fn required_key_text(name: Seq<char>) -> Seq<char> {
    "One of the required keys was not given a value ("@ + name + ")"@
}

/// The text of the error for a key schema without a HASH key.
pub open spec fn no_hash_key_text() -> Seq<char> {
    "table key schema has no HASH key"@
}

/// The first key attribute, in schema order, that the item lacks.
pub open spec fn first_missing_key(ks: Seq<KeySchemaElement>, item: Seq<(Seq<char>, AttrView)>) -> Option<
    Seq<char>,
>
    decreases ks.len(),
{
    if ks.len() == 0 {
        None
    } else {
        match first_missing_key(ks.drop_last(), item) {
            Some(n) => Some(n),
            None => if lookup(item, ks.last().attribute_name@) is None {
                Some(ks.last().attribute_name@)
            } else {
                None
            },
        }
    }
}

/// The name of the last key of type `kt` in the schema.
pub open spec fn last_key_of_type(ks: Seq<KeySchemaElement>, kt: KeyType) -> Option<Seq<char>>
    decreases ks.len(),
{
    if ks.len() == 0 {
        None
    } else if ks.last().key_type == kt {
        Some(ks.last().attribute_name@)
    } else {
        last_key_of_type(ks.drop_last(), kt)
    }
}

/// Picks the values an item is stored under: that of its HASH key and that
/// of its RANGE key, when the schema has one. A key attribute the item
/// lacks is a validation error that names the first such attribute; a
/// schema without a HASH key is an internal error.
pub fn storage_key_values(key_schema: &[KeySchemaElement], item: &Item) -> (r: Result<
    (AttributeValue, Option<AttributeValue>),
    StorageError,
>)
    ensures
        match first_missing_key(key_schema@, item@) {
            Some(n) => r matches Err(StorageError::Validation(m)) && m@ == required_key_text(n),
            None => match last_key_of_type(key_schema@, KeyType::Hash) {
                None => r matches Err(StorageError::Internal(m)) && m@ == no_hash_key_text(),
                Some(h) => r matches Ok((hv, rv)) && lookup(item@, h) == Some(hv@) && match last_key_of_type(
                    key_schema@,
                    KeyType::Range,
                ) {
                    Some(g) => rv matches Some(x) && lookup(item@, g) == Some(x@),
                    None => rv is None,
                },
            },
        },
{
    let mut hash_val: Option<AttributeValue> = None;
    let mut range_val: Option<AttributeValue> = None;
    let mut i: usize = 0;
    while i < key_schema.len()
        invariant
            i <= key_schema@.len(),
            first_missing_key(key_schema@.take(i as int), item@) is None,
            match last_key_of_type(key_schema@.take(i as int), KeyType::Hash) {
                Some(h) => hash_val matches Some(x) && lookup(item@, h) == Some(x@),
                None => hash_val is None,
            },
            match last_key_of_type(key_schema@.take(i as int), KeyType::Range) {
                Some(g) => range_val matches Some(x) && lookup(item@, g) == Some(x@),
                None => range_val is None,
            },
        decreases key_schema@.len() - i,
    {
        let k = &key_schema[i];
        assert(key_schema@.take(i + 1).drop_last() =~= key_schema@.take(i as int));
        assert(key_schema@.take(i + 1).last() == key_schema@[i as int]);
        match item.get(k.attribute_name.as_str()) {
            None => {
                let mut m = "One of the required keys was not given a value (".to_owned();
                m.append(k.attribute_name.as_str());
                m.append(")");
                proof {
                    reveal_strlit("One of the required keys was not given a value (");
                    reveal_strlit(")");
                    assert(m@ =~= required_key_text(k.attribute_name@));
                    lemma_first_missing_key_extends(key_schema@, item@, i as int + 1);
                }
                return Err(StorageError::Validation(m));
            },
            Some(av) => {
                match k.key_type {
                    KeyType::Hash => {
                        hash_val = Some(av.duplicate());
                    },
                    KeyType::Range => {
                        range_val = Some(av.duplicate());
                    },
                }
            },
        }
        i += 1;
    }
    assert(key_schema@.take(i as int) =~= key_schema@);
    match hash_val {
        None => Err(StorageError::Internal("table key schema has no HASH key".to_owned())),
        Some(h) => Ok((h, range_val)),
    }
}

/// A key found missing in a prefix of the schema is the first missing key
/// of the whole schema.
proof fn lemma_first_missing_key_extends(ks: Seq<KeySchemaElement>, item: Seq<(Seq<char>, AttrView)>, i: int)
    requires
        0 <= i <= ks.len(),
        first_missing_key(ks.take(i), item) is Some,
    ensures
        first_missing_key(ks, item) == first_missing_key(ks.take(i), item),
    decreases ks.len() - i,
{
    if i < ks.len() {
        assert(ks.take(i + 1).drop_last() =~= ks.take(i));
        lemma_first_missing_key_extends(ks, item, i + 1);
    } else {
        assert(ks.take(i) =~= ks);
    }
}

} // verus!
