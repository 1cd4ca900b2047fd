//! Secondary index maintenance: which attributes an index copies, whether
//! an item belongs in an index, when its update is applied, and which queue
//! partition carries it.
use vstd::prelude::*;

use crate::bootstrapper::random_u64_in;
use crate::key::ks_view;
use vstd::string::StringSliceAdditionalSpecFns;
use crate::types::{AttrView, Item, KeySchemaElement, lemma_lookup_push, lookup};

verus! {

/// Which attributes an index projects.
#[derive(PartialEq, Eq, Structural, Clone, Copy, Debug)]
pub enum ProjectionType {
    All,
    KeysOnly,
    Include,
}

/// The projection of an index.
pub struct Projection {
    pub projection_type: ProjectionType,
    pub non_key_attributes: Option<Vec<String>>,
}

/// The attribute names of a key schema.
pub open spec fn key_names(ks: Seq<KeySchemaElement>) -> Seq<Seq<char>> {
    ks.map_values(|e: KeySchemaElement| ks_view(e).0)
}

/// The names an index projection copies besides the whole item: the keys of
/// the base table and of the index, and for `INCLUDE` the listed attributes.
pub open spec fn projected_names(
    index_ks: Seq<KeySchemaElement>,
    base_ks: Seq<KeySchemaElement>,
    projection_type: ProjectionType,
    non_key: Option<Seq<Seq<char>>>,
) -> Seq<Seq<char>> {
    let keys = key_names(base_ks) + key_names(index_ks);
    match (projection_type, non_key) {
        (ProjectionType::Include, Some(extra)) => keys + extra,
        _ => keys,
    }
}

/// The non-key attribute names of a projection.
pub open spec fn non_key_view(p: Projection) -> Option<Seq<Seq<char>>> {
    match p.non_key_attributes {
        Some(v) => Some(v@.map_values(|s: String| s@)),
        None => None,
    }
}

/// Copies into `out` each attribute of `item` named in `names` that `out`
/// does not hold yet.
pub(crate) fn copy_named(out: &mut Item, item: &Item, names: &Vec<&str>)
    ensures
        forall|n: Seq<char>|
            #[trigger] lookup(final(out)@, n) == match lookup(old(out)@, n) {
                Some(v) => Some(v),
                None => if names@.map_values(|x: &str| x@).contains(n) {
                    lookup(item@, n)
                } else {
                    None::<AttrView>
                },
            },
{
    let ghost start = out@;
    let ghost nv = names@.map_values(|x: &str| x@);
    let mut i: usize = 0;
    while i < names.len()
        invariant
            i <= names@.len(),
            nv == names@.map_values(|x: &str| x@),
            forall|n: Seq<char>|
                #[trigger] lookup(out@, n) == match lookup(start, n) {
                    Some(v) => Some(v),
                    None => if nv.take(i as int).contains(n) {
                        lookup(item@, n)
                    } else {
                        None::<AttrView>
                    },
                },
        decreases names@.len() - i,
    {
        let name = names[i];
        let ghost before = out@;
        let found = item.get(name);
        match found {
            Some(v) => {
                let value = v.duplicate();
                let owned = name.to_owned();
                out.insert_new(owned, value);
            },
            None => {},
        }
        proof {
            assert(nv[i as int] == name@);
            assert(nv.take(i + 1) =~= nv.take(i as int).push(name@));
            assert forall|n: Seq<char>| #[trigger] lookup(out@, n) == match lookup(start, n) {
                Some(v) => Some(v),
                None => if nv.take(i + 1).contains(n) {
                    lookup(item@, n)
                } else {
                    None::<AttrView>
                },
            } by {
                assert(lookup(before, n) == match lookup(start, n) {
                    Some(v) => Some(v),
                    None => if nv.take(i as int).contains(n) {
                        lookup(item@, n)
                    } else {
                        None::<AttrView>
                    },
                });
                if nv.take(i as int).contains(n) {
                    let k = choose|k: int| 0 <= k < i && #[trigger] nv.take(i as int)[k] == n;
                    assert(nv.take(i + 1)[k] == n);
                }
                if n == name@ {
                    assert(nv.take(i + 1)[i as int] == n);
                } else if nv.take(i + 1).contains(n) {
                    let k = choose|k: int| 0 <= k < i + 1 && #[trigger] nv.take(i + 1)[k] == n;
                    assert(nv.take(i as int)[k] == n);
                }
            }
        }
        i += 1;
    }
    assert(nv.take(names@.len() as int) =~= nv);
}

pub(crate) fn names_of<'a>(ks: &'a [KeySchemaElement], out: &mut Vec<&'a str>)
    ensures
        final(out)@.map_values(|x: &str| x@) == old(out)@.map_values(|x: &str| x@) + key_names(ks@),
{
    let ghost base = old(out)@;
    let mut i: usize = 0;
    while i < ks.len()
        invariant
            i <= ks@.len(),
            out@.len() == base.len() + i,
            forall|j: int| 0 <= j < base.len() ==> out@[j] == base[j],
            forall|j: int| 0 <= j < i ==> (#[trigger] out@[base.len() + j])@ == ks@[j].attribute_name@,
        decreases ks@.len() - i,
    {
        out.push(ks[i].attribute_name.as_str());
        i += 1;
    }
    assert forall|j: int| 0 <= j < out@.len() implies (#[trigger] out@[j])@ == (base.map_values(
        |x: &str| x@,
    ) + key_names(ks@))[j] by {
        if j >= base.len() {
            assert(out@[base.len() + (j - base.len())] == out@[j]);
        }
    }
    assert(out@.map_values(|x: &str| x@) =~= base.map_values(|x: &str| x@) + key_names(ks@));
}

/// Project an item according to an index's projection configuration: the
/// whole item for `ALL`; otherwise the base table keys, the index keys and,
/// for `INCLUDE`, the listed non-key attributes, each when the item has it.
pub fn project_item_for_index(
    item: &Item,
    index_ks: &[KeySchemaElement],
    base_ks: &[KeySchemaElement],
    projection: &Projection,
) -> (r: Item)
    ensures
        projection.projection_type == ProjectionType::All ==> r@ == item@,
        projection.projection_type != ProjectionType::All ==> forall|n: Seq<char>|
            #[trigger] lookup(r@, n) == if projected_names(
                index_ks@,
                base_ks@,
                projection.projection_type,
                non_key_view(*projection),
            ).contains(n) {
                lookup(item@, n)
            } else {
                None::<AttrView>
            },
{
    match projection.projection_type {
        ProjectionType::All => item.duplicate(),
        _ => {
            let mut names: Vec<&str> = Vec::new();
            names_of(base_ks, &mut names);
            names_of(index_ks, &mut names);
            let ghost keys = names@.map_values(|x: &str| x@);
            assert(keys =~= key_names(base_ks@) + key_names(index_ks@));
            if projection.projection_type == ProjectionType::Include {
                match &projection.non_key_attributes {
                    Some(attrs) => {
                        let ghost base = names@;
                        let mut j: usize = 0;
                        while j < attrs.len()
                            invariant
                                j <= attrs@.len(),
                                names@.len() == base.len() + j,
                                forall|m: int| 0 <= m < base.len() ==> names@[m] == base[m],
                                forall|m: int| 0 <= m < j ==> (#[trigger] names@[base.len() + m])@ == attrs@[m]@,
                            decreases attrs@.len() - j,
                        {
                            names.push(attrs[j].as_str());
                            j += 1;
                        }
                        assert forall|m: int| 0 <= m < names@.len() implies (#[trigger] names@[m])@ == (keys
                            + attrs@.map_values(|s: String| s@))[m] by {
                            if m >= base.len() {
                                assert(names@[base.len() + (m - base.len())] == names@[m]);
                            } else {
                                assert(base.map_values(|x: &str| x@)[m] == keys[m]);
                            }
                        }
                        assert(names@.map_values(|x: &str| x@) =~= keys + attrs@.map_values(|s: String| s@));
                    },
                    None => {},
                }
            }
            let mut out = Item::new();
            copy_named(&mut out, item, &names);
            out
        },
    }
}

/// True when the item holds every key attribute of the index.
pub open spec fn has_all_keys(item: Seq<(Seq<char>, AttrView)>, index_ks: Seq<KeySchemaElement>) -> bool {
    forall|i: int| 0 <= i < index_ks.len() ==> lookup(item, #[trigger] index_ks[i].attribute_name@) is Some
}

/// Check if an item has all the key attributes required by an index.
pub fn item_has_index_keys(item: &Item, index_ks: &[KeySchemaElement]) -> (r: bool)
    ensures
        r == has_all_keys(item@, index_ks@),
{
    let mut i: usize = 0;
    while i < index_ks.len()
        invariant
            i <= index_ks@.len(),
            forall|j: int| 0 <= j < i ==> lookup(item@, #[trigger] index_ks@[j].attribute_name@) is Some,
        decreases index_ks@.len() - i,
    {
        if item.get(index_ks[i].attribute_name.as_str()).is_none() {
            return false;
        }
        i += 1;
    }
    true
}

/// Compute the effective propagation delay for an index: a per-index
/// setting of zero means synchronous, a positive setting overrides the
/// system default, and a negative or absent one uses the default.
pub fn effective_delay(propagation_delay_ms: Option<i32>, system_default: u64) -> (ms: u64)
    ensures
        ms == match propagation_delay_ms {
            Some(d) => if d == 0 {
                0
            } else if d > 0 {
                d as u64
            } else {
                system_default
            },
            None => system_default,
        },
{
    match propagation_delay_ms {
        Some(0) => 0,
        Some(ms) if ms > 0 => ms as u64,
        Some(_) => system_default,
        None => system_default,
    }
}

/// The CRC-32 (IEEE) checksum of `bytes`, as `crc32fast::hash` computes it.
pub uninterp spec fn crc32_of(bytes: Seq<u8>) -> u32;

/// Computes `crc32fast::hash` of the bytes; the result is named `crc32_of`.
#[verifier::external_body]
pub(crate) fn crc32(bytes: &[u8]) -> (r: u32)
    ensures
        r == crc32_of(bytes@),
{
    crc32fast::hash(bytes)
}

/// Compute a hash of the partition key text for queue partitioning, stable
/// across Rust versions.
pub fn pk_hash(pk_text: &str) -> (h: u64)
    ensures
        h == crc32_of(pk_text.spec_bytes()) as u64,
{
    crc32(pk_text.as_bytes()) as u64
}

/// Number of queue partitions. Each partition has one consumer task.
pub const NUM_PARTITIONS: usize = 4;

/// The queue partition that carries the updates for a partition key hash, so
/// that updates of one key are applied in order.
pub fn partition_for(pk_hash: u64) -> (p: usize)
    ensures
        p < NUM_PARTITIONS,
        p == pk_hash % 4,
{
    (pk_hash % 4) as usize
}

/// How long a queued index update waits before it is applied: nothing
/// for a synchronous index, else a random wait of at least one
/// millisecond and at most the index's delay, so that queued updates
/// spread over the delay.
pub fn queued_update_wait_ms(delay_ms: u64) -> (ms: u64)
    ensures
        delay_ms == 0 ==> ms == 0,
        delay_ms > 0 ==> 1 <= ms <= delay_ms,
{
    if delay_ms == 0 {
        0
    } else if delay_ms == 1 {
        1
    } else if delay_ms < u64::MAX {
        random_u64_in(1, delay_ms + 1)
    } else {
        random_u64_in(1, delay_ms)
    }
}

} // verus!
