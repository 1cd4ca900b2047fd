//! Result pages of scans and queries: the order of a partition's items by
//! sort key, where a page resumes after the previous page's last key, and
//! where a page ends.
use vstd::prelude::*;

use crate::index::{copy_named, key_names, names_of};
use crate::error::StorageError;
use crate::query::{
    char_seq_order, cmp_av, compare_text, sk_satisfies, spec_cmp_av, spec_sk_satisfies, KeyOrder,
    SortKeyCondition,
};
use crate::types::{AttrView, AttributeValue, Item, KeySchemaElement, ScalarAttributeType, lookup};

verus! {

/// The view of an item.
pub type ItemView = Seq<(Seq<char>, AttrView)>;

/// The views of a sequence of items.
pub open spec fn item_views(s: Seq<Item>) -> Seq<ItemView> {
    s.map_values(|i: Item| i@)
}

/// The key of an item under a key schema: the item's key attributes.
pub open spec fn is_key_of(k: ItemView, item: ItemView, ks: Seq<KeySchemaElement>) -> bool {
    forall|n: Seq<char>|
        #[trigger] lookup(k, n) == if key_names(ks).contains(n) {
            lookup(item, n)
        } else {
            None::<AttrView>
        }
}

/// The key attributes of an item, as a page's last evaluated key holds them.
pub fn project_key(key_schema: &[KeySchemaElement], item: &Item) -> (k: Item)
    ensures
        is_key_of(k@, item@, key_schema@),
{
    let mut names: Vec<&str> = Vec::new();
    names_of(key_schema, &mut names);
    assert(names@.map_values(|x: &str| x@) =~= key_names(key_schema@));
    let mut k = Item::new();
    copy_named(&mut k, item, &names);
    k
}

/// The page size a request asks for: a positive limit that fits in a
/// `usize`; any other limit, or none, asks for no limit.
pub open spec fn page_limit(limit: Option<i64>) -> Option<nat> {
    match limit {
        Some(l) => if 0 < l && l <= usize::MAX {
            Some(l as nat)
        } else {
            None
        },
        None => None,
    }
}

/// Cuts a result to its page: when the limit leaves items over, the page
/// keeps the first `limit` items and reports the key of its last item as
/// the key to resume after; otherwise the result is the whole page.
pub fn limit_page(items: Vec<Item>, limit: Option<i64>, key_schema: &[KeySchemaElement]) -> (r: (
    Vec<Item>,
    Option<Item>,
))
    ensures
        match page_limit(limit) {
            Some(l) if items@.len() > l => {
                &&& r.0@ == items@.take(l as int)
                &&& r.1 matches Some(k) && is_key_of(k@, items@[l - 1]@, key_schema@)
            },
            _ => r.0@ == items@ && r.1 is None,
        },
{
    let mut items = items;
    let lim: Option<usize> = match limit {
        Some(l) => if l > 0 && l as u64 <= usize::MAX as u64 {
            Some(l as usize)
        } else {
            None
        },
        None => None,
    };
    match lim {
        Some(l) => {
            if items.len() > l {
                items.truncate(l);
                let k = project_key(key_schema, &items[l - 1]);
                (items, Some(k))
            } else {
                (items, None)
            }
        },
        None => (items, None),
    }
}

/// Whether a scan row, keyed by its partition and sort key texts, lies
/// strictly after the key a page resumes after, in the order of the two
/// texts.
pub open spec fn row_after(hv: Seq<char>, rv: Seq<char>, start: Option<(Seq<char>, Seq<char>)>) -> bool {
    match start {
        None => true,
        Some((sh, sr)) => char_seq_order(hv, sh) == KeyOrder::Greater || (hv == sh && char_seq_order(
            rv,
            sr,
        ) == KeyOrder::Greater),
    }
}

/// Whether a scan row lies after the key the page resumes after. A key
/// whose row was deleted between pages still places the page correctly.
pub fn scan_row_after_start(hv: &str, rv: &str, start: Option<(&str, &str)>) -> (r: bool)
    ensures
        r == row_after(
            hv@,
            rv@,
            match start {
                Some((a, b)) => Some((a@, b@)),
                None => None,
            },
        ),
{
    match start {
        None => true,
        Some((sh, sr)) => match compare_text(hv, sh) {
            KeyOrder::Greater => true,
            KeyOrder::Less => {
                proof {
                    if hv@ == sh@ {
                        crate::query::lemma_char_order_refl(hv@);
                    }
                }
                false
            },
            KeyOrder::Equal => {
                proof {
                    crate::query::lemma_char_order_equal(hv@, sh@);
                }
                compare_text(rv, sr) == KeyOrder::Greater
            },
        },
    }
}

/// How two items compare by the sort key `name` of type `ty`; an item
/// without it compares equal to any other.
pub open spec fn sk_order(name: Seq<char>, ty: ScalarAttributeType, a: ItemView, b: ItemView) -> KeyOrder {
    match (lookup(a, name), lookup(b, name)) {
        (Some(x), Some(y)) => spec_cmp_av(ty, x, y),
        _ => KeyOrder::Equal,
    }
}

/// Where an item enters an ordered sequence: before the first item it
/// sorts strictly before, else at the end, so that equal items keep the
/// order in which they arrived.
pub open spec fn insert_position(s: Seq<ItemView>, x: ItemView, name: Seq<char>, ty: ScalarAttributeType) -> int
    decreases s.len(),
{
    if s.len() == 0 {
        0
    } else if sk_order(name, ty, x, s[0]) == KeyOrder::Less {
        0
    } else {
        1 + insert_position(s.drop_first(), x, name, ty)
    }
}

/// The items in sort-key order, equal items in the order in which they
/// came: each item in turn enters the order of those before it.
pub open spec fn sorted_by_sk(s: Seq<ItemView>, name: Seq<char>, ty: ScalarAttributeType) -> Seq<ItemView>
    decreases s.len(),
{
    if s.len() == 0 {
        s
    } else {
        let t = sorted_by_sk(s.drop_last(), name, ty);
        t.insert(insert_position(t, s.last(), name, ty), s.last())
    }
}

/// `insert_position` lies within the sequence and is the first position
/// whose item the new item sorts strictly before.
proof fn lemma_insert_position(s: Seq<ItemView>, x: ItemView, name: Seq<char>, ty: ScalarAttributeType, p: int)
    requires
        0 <= p <= s.len(),
        forall|j: int| 0 <= j < p ==> sk_order(name, ty, x, #[trigger] s[j]) != KeyOrder::Less,
        p < s.len() ==> sk_order(name, ty, x, s[p]) == KeyOrder::Less,
    ensures
        insert_position(s, x, name, ty) == p,
    decreases s.len(),
{
    if s.len() > 0 && p > 0 {
        assert forall|j: int| 0 <= j < p - 1 implies sk_order(name, ty, x, #[trigger] s.drop_first()[j])
            != KeyOrder::Less by {
            assert(s.drop_first()[j] == s[j + 1]);
        }
        lemma_insert_position(s.drop_first(), x, name, ty, p - 1);
    }
}

/// How two items compare by the sort key `name`.
fn item_sk_order(name: &str, ty: ScalarAttributeType, a: &Item, b: &Item) -> (r: KeyOrder)
    ensures
        r == sk_order(name@, ty, a@, b@),
{
    match (a.get(name), b.get(name)) {
        (Some(x), Some(y)) => cmp_av(ty, x, y),
        _ => KeyOrder::Equal,
    }
}

/// Dropping the last item of the reversed suffix from `d` leaves the
/// reversed suffix from `d + 1`.
proof fn lemma_reverse_skip<T>(orig: Seq<T>, d: int)
    requires
        0 <= d < orig.len(),
    ensures
        orig.skip(d).reverse().drop_last() == orig.skip(d + 1).reverse(),
        orig.skip(d).reverse().last() == orig[d],
{
    let a = orig.skip(d).reverse();
    let b = orig.skip(d + 1).reverse();
    assert(a.len() == orig.len() - d);
    assert forall|i: int| 0 <= i < b.len() implies #[trigger] a.drop_last()[i] == b[i] by {
        assert(a[i] == orig.skip(d)[orig.len() - d - 1 - i]);
        assert(b[i] == orig.skip(d + 1)[orig.len() - d - 2 - i]);
    }
    assert(a.drop_last() =~= b);
    assert(a[a.len() - 1] == orig.skip(d)[0]);
}

/// The items in reverse order.
fn reversed(items: Vec<Item>) -> (r: Vec<Item>)
    ensures
        r@ == items@.reverse(),
{
    let mut items = items;
    let ghost orig = items@;
    let mut out: Vec<Item> = Vec::new();
    while items.len() > 0
        invariant
            items@ == orig.take(items@.len() as int),
            items@.len() <= orig.len(),
            out@.len() == orig.len() - items@.len(),
            forall|j: int| 0 <= j < out@.len() ==> #[trigger] out@[j] == orig[orig.len() - 1 - j],
        decreases items@.len(),
    {
        let ghost n = items@.len();
        let x = items.pop().unwrap();
        assert(x == orig[n - 1]);
        out.push(x);
        assert(items@ =~= orig.take(n - 1));
    }
    assert(out@ =~= orig.reverse());
    out
}

/// Orders the items of a partition by their sort key `name` of type `ty`,
/// ascending when `forward`, else descending. Equal keys keep the order in
/// which the items came when ascending, and the reverse of it when
/// descending.
pub fn sort_by_sort_key(items: Vec<Item>, name: &str, ty: ScalarAttributeType, forward: bool) -> (r: Vec<Item>)
    ensures
        item_views(r@) == if forward {
            sorted_by_sk(item_views(items@), name@, ty)
        } else {
            sorted_by_sk(item_views(items@), name@, ty).reverse()
        },
{
    let ghost orig = item_views(items@);
    let total = items.len();
    assert(orig.len() == total);
    let mut pending = reversed(items);
    let mut out: Vec<Item> = Vec::new();
    let mut done: usize = 0;
    while pending.len() > 0
        invariant
            item_views(pending@) == orig.skip(done as int).reverse(),
            done + pending@.len() == orig.len(),
            orig.len() <= usize::MAX,
            item_views(out@) == sorted_by_sk(orig.take(done as int), name@, ty),
        decreases pending@.len(),
    {
        let ghost before = item_views(out@);
        let ghost pv = item_views(pending@);
        proof {
            lemma_reverse_skip(orig, done as int);
        }
        let x = pending.pop().unwrap();
        assert(x@ == pv[pv.len() - 1]);
        assert(x@ == orig[done as int]);
        assert(item_views(pending@) =~= pv.drop_last());
        let mut p: usize = 0;
        while p < out.len() && item_sk_order(name, ty, &x, &out[p]) != KeyOrder::Less
            invariant
                p <= out@.len(),
                before == item_views(out@),
                forall|j: int| 0 <= j < p ==> sk_order(name@, ty, x@, #[trigger] before[j]) != KeyOrder::Less,
            decreases out@.len() - p,
        {
            p += 1;
        }
        proof {
            lemma_insert_position(before, x@, name@, ty, p as int);
        }
        out.insert(p, x);
        proof {
            assert(item_views(out@) =~= before.insert(p as int, orig[done as int]));
            assert(orig.take(done + 1).drop_last() =~= orig.take(done as int));
            assert(orig.take(done + 1).last() == orig[done as int]);
        }
        done += 1;
    }
    assert(orig.take(done as int) =~= orig);
    if forward {
        out
    } else {
        let r = reversed(out);
        assert(item_views(r@) =~= item_views(out@).reverse());
        r
    }
}

/// Whether an item lies beyond the key a query page resumes after, in the
/// direction of the query: its sort key compares greater going forward,
/// less going backward. An item without the sort key does not.
pub open spec fn beyond_start(
    x: ItemView,
    name: Seq<char>,
    ty: ScalarAttributeType,
    start_sk: AttrView,
    forward: bool,
) -> bool {
    match lookup(x, name) {
        Some(v) => spec_cmp_av(ty, v, start_sk) == if forward {
            KeyOrder::Greater
        } else {
            KeyOrder::Less
        },
        None => false,
    }
}

/// The items that lie beyond the resume key, in their order.
pub open spec fn keep_beyond(
    s: Seq<ItemView>,
    name: Seq<char>,
    ty: ScalarAttributeType,
    start_sk: AttrView,
    forward: bool,
) -> Seq<ItemView>
    decreases s.len(),
{
    if s.len() == 0 {
        s
    } else {
        let t = keep_beyond(s.drop_last(), name, ty, start_sk, forward);
        if beyond_start(s.last(), name, ty, start_sk, forward) {
            t.push(s.last())
        } else {
            t
        }
    }
}

/// Whether an item lies beyond the resume key.
fn item_beyond(x: &Item, name: &str, ty: ScalarAttributeType, start_sk: &AttributeValue, forward: bool) -> (r:
    bool)
    ensures
        r == beyond_start(x@, name@, ty, start_sk@, forward),
{
    let beyond = if forward {
        KeyOrder::Greater
    } else {
        KeyOrder::Less
    };
    match x.get(name) {
        Some(v) => cmp_av(ty, v, start_sk) == beyond,
        None => false,
    }
}

/// Keeps the items that lie beyond the sort key `start_sk` of the key a
/// query page resumes after, by typed comparison, so that a resume key
/// whose item was deleted between pages still places the page correctly.
pub fn keep_beyond_start(
    items: Vec<Item>,
    name: &str,
    ty: ScalarAttributeType,
    start_sk: &AttributeValue,
    forward: bool,
) -> (r: Vec<Item>)
    ensures
        item_views(r@) == keep_beyond(item_views(items@), name@, ty, start_sk@, forward),
{
    let ghost orig = item_views(items@);
    let total = items.len();
    assert(orig.len() == total);
    let mut pending = reversed(items);
    let mut out: Vec<Item> = Vec::new();
    let mut done: usize = 0;
    while pending.len() > 0
        invariant
            item_views(pending@) == orig.skip(done as int).reverse(),
            done + pending@.len() == orig.len(),
            orig.len() <= usize::MAX,
            item_views(out@) == keep_beyond(orig.take(done as int), name@, ty, start_sk@, forward),
        decreases pending@.len(),
    {
        let ghost before = item_views(out@);
        let ghost pv = item_views(pending@);
        proof {
            lemma_reverse_skip(orig, done as int);
        }
        let x = pending.pop().unwrap();
        assert(x@ == pv[pv.len() - 1]);
        assert(x@ == orig[done as int]);
        assert(item_views(pending@) =~= pv.drop_last());
        let keep = item_beyond(&x, name, ty, start_sk, forward);
        if keep {
            out.push(x);
        }
        proof {
            assert(orig.take(done + 1).drop_last() =~= orig.take(done as int));
            assert(orig.take(done + 1).last() == orig[done as int]);
            assert(item_views(out@) =~= keep_beyond(orig.take(done + 1), name@, ty, start_sk@, forward));
        }
        done += 1;
    }
    assert(orig.take(done as int) =~= orig);
    out
}

/// The text of the error for a sort-key condition on a table without a
/// range key.
pub open spec fn no_range_key_text() -> Seq<char> {
    "Query key condition has a sort-key clause, but the table has no range key"@
}

/// The items of a partition that meet the sort-key condition, in order, or
/// the message of the first failure to evaluate it. An item without the
/// sort key does not meet it.
pub open spec fn sk_filter(s: Seq<ItemView>, name: Seq<char>, ty: ScalarAttributeType, cond: SortKeyCondition) -> Result<
    Seq<ItemView>,
    Seq<char>,
>
    decreases s.len(),
{
    if s.len() == 0 {
        Ok(s)
    } else {
        match sk_filter(s.drop_last(), name, ty, cond) {
            Err(m) => Err(m),
            Ok(t) => match lookup(s.last(), name) {
                None => Ok(t),
                Some(v) => match spec_sk_satisfies(ty, v, cond) {
                    Err(m) => Err(m),
                    Ok(true) => Ok(t.push(s.last())),
                    Ok(false) => Ok(t),
                },
            },
        }
    }
}

/// The sort key of a table, as plain values.
pub open spec fn sort_key_view(sort_key: Option<(&str, ScalarAttributeType)>) -> Option<(Seq<char>, ScalarAttributeType)> {
    match sort_key {
        Some((n, t)) => Some((n@, t)),
        None => None,
    }
}

/// The items of a partition that meet the query's sort-key condition, or
/// the message of the error: a condition on a table without a range key
/// fails as soon as there is an item to test.
pub open spec fn query_filter(
    s: Seq<ItemView>,
    sort_key: Option<(Seq<char>, ScalarAttributeType)>,
    cond: Option<&SortKeyCondition>,
) -> Result<Seq<ItemView>, Seq<char>> {
    match cond {
        None => Ok(s),
        Some(c) => match sort_key {
            None => if s.len() == 0 {
                Ok(s)
            } else {
                Err(no_range_key_text())
            },
            Some((n, t)) => sk_filter(s, n, t, *c),
        },
    }
}

/// Keeps the items of a partition that meet the query's sort-key
/// condition, if it has one.
pub fn filter_by_sk_condition(
    items: Vec<Item>,
    sort_key: Option<(&str, ScalarAttributeType)>,
    cond: Option<&SortKeyCondition>,
) -> (r: Result<Vec<Item>, StorageError>)
    ensures
        match query_filter(item_views(items@), sort_key_view(sort_key), cond) {
            Ok(vs) => r matches Ok(v) && item_views(v@) == vs,
            Err(m) => r matches Err(StorageError::Validation(e)) && e@ == m,
        },
{
    let c = match cond {
        None => {
            return Ok(items);
        },
        Some(c) => c,
    };
    let (name, ty) = match sort_key {
        None => {
            if items.len() == 0 {
                return Ok(items);
            } else {
                return Err(
                    StorageError::Validation(
                        "Query key condition has a sort-key clause, but the table has no range key".to_owned(),
                    ),
                );
            }
        },
        Some(k) => k,
    };
    let ghost orig = item_views(items@);
    let total = items.len();
    assert(orig.len() == total);
    let mut pending = reversed(items);
    let mut out: Vec<Item> = Vec::new();
    let mut done: usize = 0;
    assert(orig.take(0) =~= Seq::<ItemView>::empty());
    assert(item_views(out@) =~= Seq::<ItemView>::empty());
    assert(orig.skip(0) =~= orig);
    while pending.len() > 0
        invariant
            item_views(pending@) == orig.skip(done as int).reverse(),
            done + pending@.len() == orig.len(),
            orig.len() <= usize::MAX,
            orig == item_views(items@),
            sort_key == Some((name, ty)),
            cond == Some(c),
            sk_filter(orig.take(done as int), name@, ty, *c) == Ok::<Seq<ItemView>, Seq<char>>(
                item_views(out@),
            ),
        decreases pending@.len(),
    {
        let ghost pv = item_views(pending@);
        proof {
            lemma_reverse_skip(orig, done as int);
        }
        let x = pending.pop().unwrap();
        assert(x@ == pv[pv.len() - 1]);
        assert(x@ == orig[done as int]);
        assert(item_views(pending@) =~= pv.drop_last());
        proof {
            assert(orig.take(done + 1).drop_last() =~= orig.take(done as int));
            assert(orig.take(done + 1).last() == orig[done as int]);
        }
        let ghost before = item_views(out@);
        let keep = match x.get(name) {
            None => false,
            Some(v) => match sk_satisfies(ty, v, c) {
                Ok(b) => b,
                Err(e) => {
                    proof {
                        let pre = orig.take(done as int + 1);
                        assert(pre.drop_last() == orig.take(done as int));
                        assert(pre.last() == x@);
                        assert(lookup(x@, name@) == Some(v@));
                        assert(sk_filter(pre, name@, ty, *c) is Err);
                        lemma_sk_filter_err_sticks(orig, name@, ty, *c, done as int + 1);
                    }
                    return Err(e);
                },
            },
        };
        if keep {
            out.push(x);
        }
        proof {
            assert(item_views(out@) =~= if keep {
                before.push(orig[done as int])
            } else {
                before
            });
        }
        done += 1;
    }
    assert(orig.take(done as int) =~= orig);
    Ok(out)
}

/// Once the condition fails to evaluate on a prefix, it fails on every
/// longer prefix with the same message.
proof fn lemma_sk_filter_err_sticks(
    s: Seq<ItemView>,
    name: Seq<char>,
    ty: ScalarAttributeType,
    cond: SortKeyCondition,
    k: int,
)
    requires
        0 <= k <= s.len(),
        sk_filter(s.take(k), name, ty, cond) is Err,
    ensures
        sk_filter(s, name, ty, cond) == sk_filter(s.take(k), name, ty, cond),
    decreases s.len() - k,
{
    if k < s.len() {
        assert(s.take(k + 1).drop_last() =~= s.take(k));
        lemma_sk_filter_err_sticks(s, name, ty, cond, k + 1);
    } else {
        assert(s.take(k) =~= s);
    }
}

/// The items of a query in the query's direction: by sort key when the
/// table has one, else as they came.
pub open spec fn query_order(
    s: Seq<ItemView>,
    sort_key: Option<(Seq<char>, ScalarAttributeType)>,
    forward: bool,
) -> Seq<ItemView> {
    match sort_key {
        Some((n, t)) => if forward {
            sorted_by_sk(s, n, t)
        } else {
            sorted_by_sk(s, n, t).reverse()
        },
        None => s,
    }
}

/// The items that lie beyond the key a page resumes after, when there is
/// one and it holds the sort key.
pub open spec fn query_resume(
    s: Seq<ItemView>,
    sort_key: Option<(Seq<char>, ScalarAttributeType)>,
    start: Option<ItemView>,
    forward: bool,
) -> Seq<ItemView> {
    match (start, sort_key) {
        (Some(k), Some((n, t))) => match lookup(k, n) {
            Some(v) => keep_beyond(s, n, t, v, forward),
            None => s,
        },
        _ => s,
    }
}

/// Arranges the items of one partition into a query page: keeps those that
/// meet the sort-key condition, orders them by sort key in the query's
/// direction, resumes after the previous page's last key, and cuts the
/// page at the limit, reporting the key to resume after when items are
/// left over.
pub fn arrange_query_page(
    items: Vec<Item>,
    sort_key: Option<(&str, ScalarAttributeType)>,
    cond: Option<&SortKeyCondition>,
    forward: bool,
    start: Option<&Item>,
    limit: Option<i64>,
    key_schema: &[KeySchemaElement],
) -> (r: Result<(Vec<Item>, Option<Item>), StorageError>)
    ensures
        match query_filter(item_views(items@), sort_key_view(sort_key), cond) {
            Err(m) => r matches Err(StorageError::Validation(e)) && e@ == m,
            Ok(vs) => {
                let arranged = query_resume(
                    query_order(vs, sort_key_view(sort_key), forward),
                    sort_key_view(sort_key),
                    match start {
                        Some(k) => Some(k@),
                        None => None,
                    },
                    forward,
                );
                r matches Ok(page) && match page_limit(limit) {
                    Some(l) if arranged.len() > l => {
                        &&& item_views(page.0@) == arranged.take(l as int)
                        &&& page.1 matches Some(k) && is_key_of(k@, arranged[l - 1], key_schema@)
                    },
                    _ => item_views(page.0@) == arranged && page.1 is None,
                }
            },
        },
{
    let matched = match filter_by_sk_condition(items, sort_key, cond) {
        Ok(m) => m,
        Err(e) => {
            return Err(e);
        },
    };
    let ordered = match sort_key {
        Some((name, ty)) => sort_by_sort_key(matched, name, ty, forward),
        None => matched,
    };
    let resumed = match (start, sort_key) {
        (Some(k), Some((name, ty))) => match k.get(name) {
            Some(v) => keep_beyond_start(ordered, name, ty, v, forward),
            None => ordered,
        },
        _ => ordered,
    };
    let ghost arranged = item_views(resumed@);
    let page = limit_page(resumed, limit, key_schema);
    proof {
        match page_limit(limit) {
            Some(l) => {
                if arranged.len() > l {
                    assert(item_views(page.0@) =~= arranged.take(l as int));
                }
            },
            None => {},
        }
    }
    Ok(page)
}

/// The names after the exclusive start name, in order.
pub open spec fn names_after(names: Seq<Seq<char>>, start: Option<Seq<char>>) -> Seq<Seq<char>>
    decreases names.len(),
{
    if names.len() == 0 {
        names
    } else {
        let t = names_after(names.drop_last(), start);
        match start {
            Some(s) => if char_seq_order(names.last(), s) == KeyOrder::Greater {
                t.push(names.last())
            } else {
                t
            },
            None => t.push(names.last()),
        }
    }
}

/// The number of table names a listing returns: a limit that fits in a
/// `usize` (zero included), else no limit.
pub open spec fn listing_limit(limit: Option<i64>) -> nat {
    match limit {
        Some(l) => if 0 <= l && l <= usize::MAX {
            l as nat
        } else {
            usize::MAX as nat
        },
        None => usize::MAX as nat,
    }
}

/// One page of a table listing: the names (in order) after the exclusive
/// start name, cut at the limit; when names are left over, the last name
/// of the page is the name to resume after.
pub fn list_tables_page(names: Vec<String>, start: Option<&str>, limit: Option<i64>) -> (r: (
    Vec<String>,
    Option<String>,
))
    ensures
        ({
            let after = names_after(
                crate::text::views(names@),
                match start {
                    Some(s) => Some(s@),
                    None => None,
                },
            );
            let l = listing_limit(limit);
            if after.len() > l {
                &&& crate::text::views(r.0@) == after.take(l as int)
                &&& (l > 0 ==> r.1 is Some && r.1.unwrap()@ == after[l - 1])
                &&& (l == 0 ==> r.1 is None)
            } else {
                crate::text::views(r.0@) == after && r.1 is None
            }
        }),
{
    let ghost orig = crate::text::views(names@);
    let ghost sv = match start {
        Some(s) => Some(s@),
        None => None,
    };
    let mut kept: Vec<String> = Vec::new();
    let mut i: usize = 0;
    while i < names.len()
        invariant
            i <= names@.len(),
            orig == crate::text::views(names@),
            sv == match start {
                Some(s) => Some(s@),
                None => None,
            },
            crate::text::views(kept@) == names_after(orig.take(i as int), sv),
        decreases names@.len() - i,
    {
        let keep = match start {
            Some(s) => compare_text(names[i].as_str(), s) == KeyOrder::Greater,
            None => true,
        };
        let ghost before = crate::text::views(kept@);
        if keep {
            kept.push(names[i].clone());
        }
        proof {
            assert(orig.take(i + 1).drop_last() =~= orig.take(i as int));
            assert(orig.take(i + 1).last() == names@[i as int]@);
            assert(crate::text::views(kept@) =~= if keep {
                before.push(names@[i as int]@)
            } else {
                before
            });
        }
        i += 1;
    }
    assert(orig.take(names@.len() as int) =~= orig);
    let lim: usize = match limit {
        Some(l) => if l >= 0 && l as u64 <= usize::MAX as u64 {
            l as usize
        } else {
            usize::MAX
        },
        None => usize::MAX,
    };
    if kept.len() > lim {
        let ghost full = crate::text::views(kept@);
        kept.truncate(lim);
        assert(crate::text::views(kept@) =~= full.take(lim as int));
        let last = if lim > 0 {
            Some(kept[lim - 1].clone())
        } else {
            None
        };
        (kept, last)
    } else {
        (kept, None)
    }
}

/// The order of a partition by sort key holds the same items as the
/// partition: ordering neither drops nor repeats an item.
pub proof fn lemma_sorted_by_sk_permutes(s: Seq<ItemView>, name: Seq<char>, ty: ScalarAttributeType)
    ensures
        sorted_by_sk(s, name, ty).to_multiset() == s.to_multiset(),
    decreases s.len(),
{
    broadcast use vstd::seq_lib::group_to_multiset_ensures;

    if s.len() > 0 {
        let t = sorted_by_sk(s.drop_last(), name, ty);
        lemma_sorted_by_sk_permutes(s.drop_last(), name, ty);
        lemma_insert_position_bounds(t, s.last(), name, ty);
        vstd::seq_lib::to_multiset_insert(t, insert_position(t, s.last(), name, ty), s.last());
        assert(s =~= s.drop_last().push(s.last()));
        vstd::seq_lib::to_multiset_build(s.drop_last(), s.last());
    }
}

/// `insert_position` lies within the sequence, no item before it sorts
/// after the new item, and the item at it sorts after the new item.
proof fn lemma_insert_position_bounds(s: Seq<ItemView>, x: ItemView, name: Seq<char>, ty: ScalarAttributeType)
    ensures
        0 <= insert_position(s, x, name, ty) <= s.len(),
        forall|j: int|
            0 <= j < insert_position(s, x, name, ty) ==> sk_order(name, ty, x, #[trigger] s[j])
                != KeyOrder::Less,
        insert_position(s, x, name, ty) < s.len() ==> sk_order(
            name,
            ty,
            x,
            s[insert_position(s, x, name, ty)],
        ) == KeyOrder::Less,
    decreases s.len(),
{
    if s.len() > 0 && sk_order(name, ty, x, s[0]) != KeyOrder::Less {
        lemma_insert_position_bounds(s.drop_first(), x, name, ty);
        assert forall|j: int| 0 <= j < insert_position(s, x, name, ty) implies sk_order(name, ty, x, #[trigger] s[j])
            != KeyOrder::Less by {
            if j > 0 {
                assert(s[j] == s.drop_first()[j - 1]);
            }
        }
    }
}

/// Code-point order is asymmetric.
pub(crate) proof fn lemma_char_order_asym(a: Seq<char>, b: Seq<char>)
    requires
        char_seq_order(a, b) == KeyOrder::Less,
    ensures
        char_seq_order(b, a) == KeyOrder::Greater,
    decreases a.len(),
{
    if a.len() > 0 && b.len() > 0 && a[0] == b[0] {
        lemma_char_order_asym(a.drop_first(), b.drop_first());
    }
}

/// Byte order is asymmetric.
pub(crate) proof fn lemma_byte_order_asym(a: Seq<u8>, b: Seq<u8>)
    requires
        crate::query::byte_seq_order(a, b) == KeyOrder::Less,
    ensures
        crate::query::byte_seq_order(b, a) == KeyOrder::Greater,
    decreases a.len(),
{
    if a.len() > 0 && b.len() > 0 && a[0] == b[0] {
        lemma_byte_order_asym(a.drop_first(), b.drop_first());
    }
}

/// For string and binary keys, an item that sorts strictly before another
/// is not sorted strictly after by it.
proof fn lemma_sk_order_asym(name: Seq<char>, ty: ScalarAttributeType, a: ItemView, b: ItemView)
    requires
        ty != ScalarAttributeType::N,
        sk_order(name, ty, a, b) == KeyOrder::Less,
    ensures
        sk_order(name, ty, b, a) != KeyOrder::Less,
{
    match (lookup(a, name), lookup(b, name)) {
        (Some(x), Some(y)) => match (ty, x, y) {
            (ScalarAttributeType::S, AttrView::S(p), AttrView::S(q)) => lemma_char_order_asym(p, q),
            (ScalarAttributeType::B, AttrView::B(p), AttrView::B(q)) => lemma_byte_order_asym(p, q),
            _ => {},
        },
        _ => {},
    }
}

/// For string and binary sort keys, the order of a partition is ascending:
/// no item sorts strictly before the item just ahead of it.
pub proof fn lemma_sorted_by_sk_ascends(s: Seq<ItemView>, name: Seq<char>, ty: ScalarAttributeType)
    requires
        ty != ScalarAttributeType::N,
    ensures
        forall|i: int|
            0 <= i < sorted_by_sk(s, name, ty).len() - 1 ==> sk_order(
                name,
                ty,
                #[trigger] sorted_by_sk(s, name, ty)[i + 1],
                sorted_by_sk(s, name, ty)[i],
            ) != KeyOrder::Less,
    decreases s.len(),
{
    if s.len() > 0 {
        let t = sorted_by_sk(s.drop_last(), name, ty);
        let x = s.last();
        lemma_sorted_by_sk_ascends(s.drop_last(), name, ty);
        lemma_insert_position_bounds(t, x, name, ty);
        let p = insert_position(t, x, name, ty);
        let u = t.insert(p, x);
        assert(u == sorted_by_sk(s, name, ty));
        t.insert_ensures(p, x);
        assert forall|i: int| 0 <= i < u.len() - 1 implies sk_order(name, ty, #[trigger] u[i + 1], u[i])
            != KeyOrder::Less by {
            if i + 1 < p {
                assert(u[i + 1] == t[i + 1] && u[i] == t[i]);
            } else if i + 1 == p {
                assert(u[i + 1] == x && u[i] == t[i]);
            } else if i == p {
                assert(u[i] == x && u[i + 1] == t[i]);
                lemma_sk_order_asym(name, ty, x, t[i]);
            } else {
                assert(u[(i - 1) + 1] == t[i - 1]);
                assert(u[i + 1] == t[i]);
                assert(sk_order(name, ty, t[(i - 1) + 1], t[i - 1]) != KeyOrder::Less);
            }
        }
    }
}

/// Code-point order is transitive.
proof fn lemma_char_order_trans(a: Seq<char>, b: Seq<char>, c: Seq<char>)
    requires
        char_seq_order(a, b) == KeyOrder::Less,
        char_seq_order(b, c) == KeyOrder::Less,
    ensures
        char_seq_order(a, c) == KeyOrder::Less,
    decreases a.len(),
{
    if a.len() > 0 && b.len() > 0 && c.len() > 0 && a[0] == b[0] && b[0] == c[0] {
        lemma_char_order_trans(a.drop_first(), b.drop_first(), c.drop_first());
    }
}

/// Byte order is transitive.
proof fn lemma_byte_order_trans(a: Seq<u8>, b: Seq<u8>, c: Seq<u8>)
    requires
        crate::query::byte_seq_order(a, b) == KeyOrder::Less,
        crate::query::byte_seq_order(b, c) == KeyOrder::Less,
    ensures
        crate::query::byte_seq_order(a, c) == KeyOrder::Less,
    decreases a.len(),
{
    if a.len() > 0 && b.len() > 0 && c.len() > 0 && a[0] == b[0] && b[0] == c[0] {
        lemma_byte_order_trans(a.drop_first(), b.drop_first(), c.drop_first());
    }
}

/// A code-point sequence greater than another is less from the other side.
proof fn lemma_char_order_flip(a: Seq<char>, b: Seq<char>)
    requires
        char_seq_order(a, b) == KeyOrder::Greater,
    ensures
        char_seq_order(b, a) == KeyOrder::Less,
    decreases a.len(),
{
    if a.len() > 0 && b.len() > 0 && a[0] == b[0] {
        lemma_char_order_flip(a.drop_first(), b.drop_first());
    }
}

/// A byte sequence greater than another is less from the other side.
proof fn lemma_byte_order_flip(a: Seq<u8>, b: Seq<u8>)
    requires
        crate::query::byte_seq_order(a, b) == KeyOrder::Greater,
    ensures
        crate::query::byte_seq_order(b, a) == KeyOrder::Less,
    decreases a.len(),
{
    if a.len() > 0 && b.len() > 0 && a[0] == b[0] {
        lemma_byte_order_flip(a.drop_first(), b.drop_first());
    }
}

/// Byte sequences compare equal exactly when they are the same.
pub(crate) proof fn lemma_byte_order_equal(a: Seq<u8>, b: Seq<u8>)
    ensures
        crate::query::byte_seq_order(a, b) == KeyOrder::Equal <==> a == b,
    decreases a.len(),
{
    if a.len() > 0 && b.len() > 0 {
        lemma_byte_order_equal(a.drop_first(), b.drop_first());
        if a[0] == b[0] {
            assert(a =~= seq![a[0]] + a.drop_first());
            assert(b =~= seq![b[0]] + b.drop_first());
        } else {
            assert(a != b) by {
                if a == b {
                    assert(a[0] == b[0]);
                }
            }
        }
    } else if a.len() != b.len() {
        assert(a != b);
    } else {
        assert(a =~= b);
    }
}

/// The item holds its sort key `name`, of the key type `ty` (a string or a
/// binary key).
pub open spec fn has_typed_sort_key(x: ItemView, name: Seq<char>, ty: ScalarAttributeType) -> bool {
    match lookup(x, name) {
        Some(AttrView::S(_)) => ty == ScalarAttributeType::S,
        Some(AttrView::B(_)) => ty == ScalarAttributeType::B,
        _ => false,
    }
}

/// Every item holds its sort key, and no two items share one, as in the
/// items of one partition.
pub open spec fn distinct_sort_keys(s: Seq<ItemView>, name: Seq<char>, ty: ScalarAttributeType) -> bool {
    &&& forall|i: int| 0 <= i < s.len() ==> has_typed_sort_key(#[trigger] s[i], name, ty)
    &&& forall|i: int, j: int|
        0 <= i < j < s.len() ==> lookup(#[trigger] s[i], name) != lookup(#[trigger] s[j], name)
}

/// Each item sorts strictly before every item after it.
pub open spec fn strictly_ascending_by_sk(o: Seq<ItemView>, name: Seq<char>, ty: ScalarAttributeType) -> bool {
    forall|i: int, j: int|
        0 <= i < j < o.len() ==> sk_order(name, ty, #[trigger] o[i], #[trigger] o[j]) == KeyOrder::Less
}

/// An item with its typed sort key compares equal to itself.
proof fn lemma_sk_refl(name: Seq<char>, ty: ScalarAttributeType, a: ItemView)
    requires
        has_typed_sort_key(a, name, ty),
    ensures
        sk_order(name, ty, a, a) == KeyOrder::Equal,
{
    match lookup(a, name) {
        Some(AttrView::S(p)) => crate::query::lemma_char_order_refl(p),
        Some(AttrView::B(p)) => lemma_byte_order_equal(p, p),
        _ => {},
    }
}

/// Sorting strictly before is transitive among items with typed sort keys.
proof fn lemma_sk_trans(name: Seq<char>, ty: ScalarAttributeType, a: ItemView, b: ItemView, c: ItemView)
    requires
        has_typed_sort_key(a, name, ty),
        has_typed_sort_key(b, name, ty),
        has_typed_sort_key(c, name, ty),
        sk_order(name, ty, a, b) == KeyOrder::Less,
        sk_order(name, ty, b, c) == KeyOrder::Less,
    ensures
        sk_order(name, ty, a, c) == KeyOrder::Less,
{
    match (lookup(a, name), lookup(b, name), lookup(c, name)) {
        (Some(AttrView::S(p)), Some(AttrView::S(q)), Some(AttrView::S(r))) => lemma_char_order_trans(p, q, r),
        (Some(AttrView::B(p)), Some(AttrView::B(q)), Some(AttrView::B(r))) => lemma_byte_order_trans(p, q, r),
        _ => {},
    }
}

/// Between two items with distinct typed sort keys, one sorts strictly
/// before the other, and the other sorts strictly after it.
proof fn lemma_sk_total(name: Seq<char>, ty: ScalarAttributeType, a: ItemView, b: ItemView)
    requires
        has_typed_sort_key(a, name, ty),
        has_typed_sort_key(b, name, ty),
        lookup(a, name) != lookup(b, name),
    ensures
        sk_order(name, ty, a, b) != KeyOrder::Less ==> sk_order(name, ty, b, a) == KeyOrder::Less,
        sk_order(name, ty, a, b) == KeyOrder::Less ==> sk_order(name, ty, b, a) == KeyOrder::Greater,
        sk_order(name, ty, a, b) != KeyOrder::Equal,
{
    match (lookup(a, name), lookup(b, name)) {
        (Some(AttrView::S(p)), Some(AttrView::S(q))) => {
            if char_seq_order(p, q) == KeyOrder::Equal {
                crate::query::lemma_char_order_equal(p, q);
            }
            if char_seq_order(p, q) == KeyOrder::Greater {
                lemma_char_order_flip(p, q);
            }
            if char_seq_order(p, q) == KeyOrder::Less {
                lemma_char_order_asym(p, q);
            }
        },
        (Some(AttrView::B(p)), Some(AttrView::B(q))) => {
            lemma_byte_order_equal(p, q);
            if crate::query::byte_seq_order(p, q) == KeyOrder::Greater {
                lemma_byte_order_flip(p, q);
            }
            if crate::query::byte_seq_order(p, q) == KeyOrder::Less {
                lemma_byte_order_asym(p, q);
            }
        },
        _ => {},
    }
}

/// Ordering a partition whose sort keys are distinct puts every item
/// strictly before the items after it, and keeps each item's typed key.
proof fn lemma_sorted_by_sk_strictly_ascends(s: Seq<ItemView>, name: Seq<char>, ty: ScalarAttributeType)
    requires
        distinct_sort_keys(s, name, ty),
    ensures
        sorted_by_sk(s, name, ty).len() == s.len(),
        strictly_ascending_by_sk(sorted_by_sk(s, name, ty), name, ty),
        forall|i: int|
            0 <= i < s.len() ==> has_typed_sort_key(#[trigger] sorted_by_sk(s, name, ty)[i], name, ty),
    decreases s.len(),
{
    broadcast use vstd::seq_lib::group_to_multiset_ensures;

    if s.len() > 0 {
        let sp = s.drop_last();
        let x = s.last();
        assert forall|i: int| 0 <= i < sp.len() implies has_typed_sort_key(#[trigger] sp[i], name, ty) by {
            assert(sp[i] == s[i]);
        }
        assert forall|i: int, j: int| 0 <= i < j < sp.len() implies lookup(#[trigger] sp[i], name) != lookup(
            #[trigger] sp[j],
            name,
        ) by {
            assert(sp[i] == s[i] && sp[j] == s[j]);
        }
        assert(has_typed_sort_key(s[s.len() - 1], name, ty));
        lemma_sorted_by_sk_strictly_ascends(sp, name, ty);
        lemma_sorted_by_sk_permutes(sp, name, ty);
        let t = sorted_by_sk(sp, name, ty);
        assert forall|i: int| 0 <= i < t.len() implies lookup(#[trigger] t[i], name) != lookup(x, name) by {
            assert(t.contains(t[i]));
            assert(t.to_multiset().count(t[i]) > 0);
            assert(sp.contains(t[i]));
            let j = choose|j: int| 0 <= j < sp.len() && sp[j] == t[i];
            assert(s[j] == sp[j]);
            assert(lookup(s[j], name) != lookup(s[s.len() - 1], name));
        }
        lemma_insert_position_bounds(t, x, name, ty);
        let p = insert_position(t, x, name, ty);
        assert forall|j: int| 0 <= j < p implies sk_order(name, ty, #[trigger] t[j], x) == KeyOrder::Less by {
            lemma_sk_total(name, ty, x, t[j]);
        }
        assert forall|j: int| p <= j < t.len() implies sk_order(name, ty, x, #[trigger] t[j]) == KeyOrder::Less by {
            if j > p {
                lemma_sk_trans(name, ty, x, t[p], t[j]);
            }
        }
        let u = t.insert(p, x);
        assert(u == sorted_by_sk(s, name, ty));
        t.insert_ensures(p, x);
        assert forall|i: int| 0 <= i < u.len() implies has_typed_sort_key(#[trigger] u[i], name, ty) by {
            if i > p {
                assert(u[i] == t[i - 1]);
            }
        }
        assert forall|i: int, k: int| 0 <= i < k < u.len() implies sk_order(name, ty, #[trigger] u[i], #[trigger] u[k])
            == KeyOrder::Less by {
            if k < p {
                assert(u[i] == t[i] && u[k] == t[k]);
            } else if k == p {
                assert(u[i] == t[i]);
            } else if i < p {
                assert(u[i] == t[i] && u[k] == t[k - 1]);
            } else if i == p {
                assert(u[k] == t[k - 1]);
            } else {
                assert(u[i] == t[i - 1] && u[k] == t[k - 1]);
            }
        }
    }
}

/// When the items that lie beyond the resume key are exactly those from
/// position `c` on, keeping them leaves the sequence from `c` on.
proof fn lemma_keep_beyond_cut(
    s: Seq<ItemView>,
    name: Seq<char>,
    ty: ScalarAttributeType,
    v: AttrView,
    forward: bool,
    c: int,
)
    requires
        0 <= c <= s.len(),
        forall|i: int| 0 <= i < c ==> !beyond_start(#[trigger] s[i], name, ty, v, forward),
        forall|i: int| c <= i < s.len() ==> beyond_start(#[trigger] s[i], name, ty, v, forward),
    ensures
        keep_beyond(s, name, ty, v, forward) == s.skip(c),
    decreases s.len(),
{
    if s.len() > 0 {
        let sp = s.drop_last();
        let cp = if c == s.len() {
            c - 1
        } else {
            c
        };
        assert forall|i: int| 0 <= i < cp implies !beyond_start(#[trigger] sp[i], name, ty, v, forward) by {
            assert(sp[i] == s[i]);
        }
        assert forall|i: int| cp <= i < sp.len() implies beyond_start(#[trigger] sp[i], name, ty, v, forward) by {
            assert(sp[i] == s[i]);
        }
        lemma_keep_beyond_cut(sp, name, ty, v, forward, cp);
        assert(s[s.len() - 1] == s.last());
        if c == s.len() {
            assert(s.skip(c) =~= sp.skip(cp));
        } else {
            assert(s.skip(c) =~= sp.skip(cp).push(s.last()));
        }
    }
}

/// Resuming a query after the last key of a page yields exactly the items
/// the page left over, in order: no item is skipped or returned twice.
/// The page held the query's ordered items from position `c` on (`c` is
/// zero for the first page, which resumes after no key), cut after `l`
/// items; the key it reports holds the sort key of its last item. Sort
/// keys are strings or binaries, distinct within the partition.
pub proof fn lemma_query_resumes_where_it_stopped(
    s: Seq<ItemView>,
    name: Seq<char>,
    ty: ScalarAttributeType,
    forward: bool,
    c: nat,
    l: nat,
    k: ItemView,
)
    requires
        distinct_sort_keys(s, name, ty),
        0 < l,
        c + l < s.len(),
        lookup(k, name) == lookup(query_order(s, Some((name, ty)), forward)[c + l - 1], name),
    ensures
        query_resume(query_order(s, Some((name, ty)), forward), Some((name, ty)), Some(k), forward)
            == query_order(s, Some((name, ty)), forward).skip((c + l) as int),
{
    lemma_sorted_by_sk_strictly_ascends(s, name, ty);
    let r = sorted_by_sk(s, name, ty);
    let o = query_order(s, Some((name, ty)), forward);
    let n = r.len();
    let m = (c + l) as int;
    assert(o.len() == n);
    assert forall|i: int| 0 <= i < n implies has_typed_sort_key(#[trigger] o[i], name, ty) by {
        if !forward {
            assert(o[i] == r[n - 1 - i]);
        }
    }
    let last = o[m - 1];
    assert(has_typed_sort_key(last, name, ty));
    let v = lookup(last, name)->0;
    lemma_sk_refl(name, ty, last);
    assert forall|i: int| 0 <= i < m implies !beyond_start(#[trigger] o[i], name, ty, v, forward) by {
        assert(has_typed_sort_key(o[i], name, ty));
        if i < m - 1 {
            if forward {
                assert(sk_order(name, ty, r[i], r[m - 1]) == KeyOrder::Less);
                lemma_sk_total(name, ty, o[i], last);
            } else {
                assert(o[i] == r[n - 1 - i] && last == r[n - 1 - (m - 1)]);
                assert(sk_order(name, ty, r[n - 1 - (m - 1)], r[n - 1 - i]) == KeyOrder::Less);
                lemma_sk_total(name, ty, last, o[i]);
            }
        }
    }
    assert forall|i: int| m <= i < n implies beyond_start(#[trigger] o[i], name, ty, v, forward) by {
        assert(has_typed_sort_key(o[i], name, ty));
        if forward {
            assert(sk_order(name, ty, r[m - 1], r[i]) == KeyOrder::Less);
            lemma_sk_total(name, ty, last, o[i]);
        } else {
            assert(o[i] == r[n - 1 - i] && last == r[n - 1 - (m - 1)]);
            assert(sk_order(name, ty, r[n - 1 - i], r[n - 1 - (m - 1)]) == KeyOrder::Less);
        }
    }
    lemma_keep_beyond_cut(o, name, ty, v, forward, m);
}

/// The names are in strictly ascending code-point order, as the catalog
/// lists table names.
pub open spec fn strictly_ascending(names: Seq<Seq<char>>) -> bool {
    forall|i: int, j: int|
        0 <= i < j < names.len() ==> char_seq_order(#[trigger] names[i], #[trigger] names[j]) == KeyOrder::Less
}

proof fn lemma_names_after_none_greater(names: Seq<Seq<char>>, x: Seq<char>)
    requires
        forall|i: int| 0 <= i < names.len() ==> char_seq_order(#[trigger] names[i], x) != KeyOrder::Greater,
    ensures
        names_after(names, Some(x)) == Seq::<Seq<char>>::empty(),
    decreases names.len(),
{
    if names.len() > 0 {
        assert forall|i: int| 0 <= i < names.drop_last().len() implies char_seq_order(
            #[trigger] names.drop_last()[i],
            x,
        ) != KeyOrder::Greater by {
            assert(names.drop_last()[i] == names[i]);
        }
        lemma_names_after_none_greater(names.drop_last(), x);
    }
}

proof fn lemma_names_after_all(names: Seq<Seq<char>>)
    ensures
        names_after(names, None) == names,
    decreases names.len(),
{
    if names.len() > 0 {
        lemma_names_after_all(names.drop_last());
        assert(names.drop_last().push(names.last()) =~= names);
    }
}

/// In a strictly ascending listing, the names after the `k`-th name are
/// those that follow it.
proof fn lemma_names_after_member(names: Seq<Seq<char>>, k: int)
    requires
        strictly_ascending(names),
        0 <= k < names.len(),
    ensures
        names_after(names, Some(names[k])) == names.skip(k + 1),
    decreases names.len(),
{
    let s = names[k];
    let init = names.drop_last();
    assert(strictly_ascending(init)) by {
        assert forall|i: int, j: int| 0 <= i < j < init.len() implies char_seq_order(
            #[trigger] init[i],
            #[trigger] init[j],
        ) == KeyOrder::Less by {
            assert(init[i] == names[i] && init[j] == names[j]);
        }
    }
    if k == names.len() - 1 {
        assert forall|i: int| 0 <= i < init.len() implies char_seq_order(#[trigger] init[i], s)
            != KeyOrder::Greater by {
            assert(init[i] == names[i]);
            assert(char_seq_order(names[i], names[k]) == KeyOrder::Less);
        }
        lemma_names_after_none_greater(init, s);
        crate::query::lemma_char_order_refl(s);
        assert(names.skip(k + 1) =~= Seq::<Seq<char>>::empty());
    } else {
        assert(init[k] == s);
        lemma_names_after_member(init, k);
        assert(char_seq_order(names[k], names[names.len() - 1]) == KeyOrder::Less);
        lemma_char_order_asym(names[k], names[names.len() - 1]);
        assert(init.skip(k + 1).push(names.last()) =~= names.skip(k + 1));
    }
}

/// Resuming a table listing after the last name of a page lists exactly
/// the names the page left over: no name is skipped or listed twice. This
/// holds from the first page (no start name) and from any later one,
/// whose start name is the last name of the page before.
pub proof fn lemma_listing_resumes_where_it_stopped(names: Seq<Seq<char>>, start: Option<Seq<char>>, l: nat)
    requires
        strictly_ascending(names),
        start matches Some(s) ==> names.contains(s),
        l >= 1,
        names_after(names, start).len() > l,
    ensures
        names_after(names, Some(names_after(names, start)[l - 1])) == names_after(names, start).skip(l as int),
{
    let k: int = match start {
        Some(s) => {
            let k = choose|k: int| 0 <= k < names.len() && names[k] == s;
            lemma_names_after_member(names, k);
            k + 1
        },
        None => {
            lemma_names_after_all(names);
            assert(names.skip(0) =~= names);
            0
        },
    };
    let after = names_after(names, start);
    assert(after == names.skip(k));
    assert(after[l - 1] == names[k + l - 1]);
    lemma_names_after_member(names, k + l - 1);
    assert(names.skip(k + l - 1 + 1) =~= after.skip(l as int));
}

} // verus!
