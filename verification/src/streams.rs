//! Change streams: what record a write produces, which shard carries it,
//! how shards and sequence numbers are named, and what a stream reports.
use vstd::prelude::*;

use crate::arn::{spec_stream_arn, stream_arn};
use crate::catalog::{table_status_text, TableStatus};
use crate::paging::page_limit;
use crate::error::StorageError;
use crate::index::{copy_named, crc32, crc32_of, key_names, names_of};
use crate::key::{pk_to_text, spec_pk_text};
use crate::query::{char_seq_order, KeyOrder};
use crate::text::{
    decimal, digit_char, padded_signed_decimal, pow10, push_decimal, push_padded_signed_decimal, str_eq,
    zero_pad,
};
use crate::types::{AttrView, AttributeValue, Item, KeySchemaElement, lookup};
use vstd::string::StringSliceAdditionalSpecFns;

verus! {

/// Which item images a stream record carries.
#[derive(PartialEq, Eq, Structural, Clone, Copy, Debug)]
pub enum StreamViewType {
    KeysOnly,
    NewImage,
    OldImage,
    NewAndOldImages,
}

/// The kind of change a stream record reports.
#[derive(PartialEq, Eq, Structural, Clone, Copy, Debug)]
pub enum StreamEventName {
    Insert,
    Modify,
    Remove,
}

/// The state of a table's stream.
#[derive(PartialEq, Eq, Structural, Clone, Copy, Debug)]
pub enum StreamStatus {
    Enabled,
    Disabling,
}

/// The event a write reports, given whether the item existed before and
/// after it; a write that left no item before or after reports none.
pub open spec fn event_for(old_present: bool, new_present: bool) -> Option<StreamEventName> {
    match (old_present, new_present) {
        (false, true) => Some(StreamEventName::Insert),
        (true, true) => Some(StreamEventName::Modify),
        (true, false) => Some(StreamEventName::Remove),
        (false, false) => None,
    }
}

/// Whether records of this view type carry the item after the write.
pub open spec fn carries_new_image(v: StreamViewType) -> bool {
    v == StreamViewType::NewImage || v == StreamViewType::NewAndOldImages
}

/// Whether records of this view type carry the item before the write.
pub open spec fn carries_old_image(v: StreamViewType) -> bool {
    v == StreamViewType::OldImage || v == StreamViewType::NewAndOldImages
}

/// Which images each view type puts on a record: `KEYS_ONLY` none,
/// `NEW_IMAGE` only the item after the write, `OLD_IMAGE` only the item
/// before it, `NEW_AND_OLD_IMAGES` both. A record carries the item after the
/// write only when its view type names the new image.
pub proof fn lemma_view_type_images(v: StreamViewType)
    ensures
        carries_new_image(v) <==> (v != StreamViewType::KeysOnly && v != StreamViewType::OldImage),
        carries_old_image(v) <==> (v != StreamViewType::KeysOnly && v != StreamViewType::NewImage),
        v == StreamViewType::OldImage ==> !carries_new_image(v) && carries_old_image(v),
        v == StreamViewType::NewImage ==> carries_new_image(v) && !carries_old_image(v),
        v == StreamViewType::KeysOnly ==> !carries_new_image(v) && !carries_old_image(v),
        v == StreamViewType::NewAndOldImages ==> carries_new_image(v) && carries_old_image(v),
{
}

/// The event a write reports.
pub fn stream_event_for(old_present: bool, new_present: bool) -> (r: Option<StreamEventName>)
    ensures
        r == event_for(old_present, new_present),
{
    if old_present {
        if new_present {
            Some(StreamEventName::Modify)
        } else {
            Some(StreamEventName::Remove)
        }
    } else if new_present {
        Some(StreamEventName::Insert)
    } else {
        None
    }
}

/// The content of the stream record for one write.
pub struct StreamRecordPlan {
    /// The kind of change.
    pub event_name: StreamEventName,
    /// The key attributes of the written item.
    pub keys: Item,
    /// The item after the write, where the view type carries it.
    pub new_image: Option<Item>,
    /// The item before the write, where the view type carries it.
    pub old_image: Option<Item>,
}

/// A copy of an optional item.
fn copy_opt(o: Option<&Item>) -> (r: Option<Item>)
    ensures
        r is Some <==> o is Some,
        r matches Some(i) ==> i@ == o.unwrap()@,
{
    match o {
        Some(i) => Some(i.duplicate()),
        None => None,
    }
}

/// Builds the stream record for a write from the item before it (`old`)
/// and after it (`new`). The keys are read from the item after the write,
/// else from the one before; a write with neither produces no record.
pub fn plan_stream_record(
    key_schema: &[KeySchemaElement],
    view: StreamViewType,
    old: Option<&Item>,
    new: Option<&Item>,
) -> (r: Option<StreamRecordPlan>)
    ensures
        r is Some <==> (old is Some || new is Some),
        r matches Some(p) ==> {
            let source = if new is Some {
                new.unwrap()@
            } else {
                old.unwrap()@
            };
            &&& Some(p.event_name) == event_for(old is Some, new is Some)
            &&& forall|n: Seq<char>|
                #[trigger] lookup(p.keys@, n) == if key_names(key_schema@).contains(n) {
                    lookup(source, n)
                } else {
                    None::<AttrView>
                }
            &&& (p.new_image is Some <==> (carries_new_image(view) && new is Some))
            &&& (p.new_image matches Some(i) ==> i@ == new.unwrap()@)
            &&& (p.old_image is Some <==> (carries_old_image(view) && old is Some))
            &&& (p.old_image matches Some(i) ==> i@ == old.unwrap()@)
            &&& (view == StreamViewType::OldImage || view == StreamViewType::KeysOnly) ==> p.new_image is None
            &&& (view == StreamViewType::NewImage || view == StreamViewType::KeysOnly) ==> p.old_image is None
        },
{
    let source: &Item = match new {
        Some(n) => n,
        None => match old {
            Some(o) => o,
            None => {
                return None;
            },
        },
    };
    let event_name = match stream_event_for(old.is_some(), new.is_some()) {
        Some(e) => e,
        None => {
            return None;
        },
    };
    let mut names: Vec<&str> = Vec::new();
    names_of(key_schema, &mut names);
    assert(names@.map_values(|x: &str| x@) =~= key_names(key_schema@));
    let mut keys = Item::new();
    copy_named(&mut keys, source, &names);
    let new_image = match view {
        StreamViewType::NewImage | StreamViewType::NewAndOldImages => copy_opt(new),
        _ => None,
    };
    let old_image = match view {
        StreamViewType::OldImage | StreamViewType::NewAndOldImages => copy_opt(old),
        _ => None,
    };
    Some(StreamRecordPlan { event_name, keys, new_image, old_image })
}

/// The text by which a partition key value picks its shard: its key text
/// for a string, number or binary value, else empty.
pub open spec fn shard_key_text(v: Option<AttrView>) -> Seq<char> {
    match v {
        Some(a) => match spec_pk_text(a) {
            Some(t) => t,
            None => Seq::empty(),
        },
        None => Seq::empty(),
    }
}

/// The text by which the partition key value of a written item picks its
/// shard.
pub fn shard_key_of(value: Option<&AttributeValue>) -> (t: String)
    ensures
        t@ == shard_key_text(
            match value {
                Some(v) => Some(v@),
                None => None,
            },
        ),
{
    match value {
        Some(v) => match pk_to_text(v) {
            Ok(t) => t,
            Err(_) => String::new(),
        },
        None => String::new(),
    }
}

/// The position, among `shard_count` shards ordered by id, of the shard
/// that carries the records of the partition key `pk_text`.
pub fn shard_position(pk_text: &str, shard_count: usize) -> (i: usize)
    requires
        shard_count > 0,
    ensures
        i < shard_count,
        i as nat == (crc32_of(pk_text.spec_bytes()) as nat) % (shard_count as nat),
{
    let hash = crc32(pk_text.as_bytes());
    let h: usize = hash as usize;
    h % shard_count
}

/// The text of the error for a table whose stream has no shards.
pub open spec fn no_shards_message(table_name: Seq<char>) -> Seq<char> {
    "No stream shards for table "@ + table_name
}

/// Picks the shard, among the table's shard ids ordered by id, that carries
/// the records of the partition key `pk_text`.
pub fn assign_shard(shard_ids: &Vec<String>, pk_text: &str, table_name: &str) -> (r: Result<
    String,
    StorageError,
>)
    ensures
        match r {
            Ok(id) => {
                &&& shard_ids@.len() > 0
                &&& id@ == shard_ids@[((crc32_of(pk_text.spec_bytes()) as nat) % shard_ids@.len()) as int]@
            },
            Err(e) => {
                &&& shard_ids@.len() == 0
                &&& e matches StorageError::Internal(m) && m@ == no_shards_message(table_name@)
            },
        },
{
    if shard_ids.len() == 0 {
        let mut m = "No stream shards for table ".to_owned();
        m.append(table_name);
        return Err(StorageError::Internal(m));
    }
    let i = shard_position(pk_text, shard_ids.len());
    Ok(shard_ids[i].clone())
}

/// Width of a rendered sequence number.
pub const SEQUENCE_NUMBER_WIDTH: usize = 21;

/// The sequence number text of a counter value: zero-padded to a fixed
/// width, so that text order follows number order (see
/// `lemma_sequence_numbers_sort_like_counters`).
pub fn sequence_number_text(seq: i64) -> (t: String)
    ensures
        t@ == padded_signed_decimal(seq as int, SEQUENCE_NUMBER_WIDTH as nat),
{
    let mut t = String::new();
    push_padded_signed_decimal(&mut t, seq, SEQUENCE_NUMBER_WIDTH);
    assert(t@ =~= padded_signed_decimal(seq as int, SEQUENCE_NUMBER_WIDTH as nat));
    t
}

/// Number of shards created for each stream.
pub const SHARDS_PER_STREAM: u32 = 4;

/// The id of a table's `i`-th stream shard.
pub open spec fn shard_id_text(table_name: Seq<char>, i: nat) -> Seq<char> {
    "shardId-"@ + table_name + "-"@ + zero_pad(decimal(i), 12)
}

/// The id of a table's `i`-th stream shard.
pub fn shard_id(table_name: &str, i: u32) -> (t: String)
    ensures
        t@ == shard_id_text(table_name@, i as nat),
{
    let mut t = "shardId-".to_owned();
    t.append(table_name);
    t.append("-");
    push_padded_signed_decimal(&mut t, i as i64, 12);
    t
}

/// The ids of the shards created for a table's stream, in order.
pub fn initial_shard_ids(table_name: &str) -> (ids: Vec<String>)
    ensures
        ids@.len() == SHARDS_PER_STREAM,
        forall|i: int| 0 <= i < ids@.len() ==> #[trigger] ids@[i]@ == shard_id_text(table_name@, i as nat),
{
    let mut ids: Vec<String> = Vec::new();
    let mut i: u32 = 0;
    while i < SHARDS_PER_STREAM
        invariant
            i <= SHARDS_PER_STREAM,
            ids@.len() == i,
            forall|j: int| 0 <= j < ids@.len() ==> #[trigger] ids@[j]@ == shard_id_text(table_name@, j as nat),
        decreases SHARDS_PER_STREAM - i,
    {
        ids.push(shard_id(table_name, i));
        i += 1;
    }
    ids
}

/// The status of a table's stream: disabling while the table is being
/// deleted, enabled otherwise.
pub fn stream_status_for(table_status: &str) -> (s: StreamStatus)
    ensures
        s == if table_status@ == table_status_text(TableStatus::Deleting) {
            StreamStatus::Disabling
        } else {
            StreamStatus::Enabled
        },
{
    if str_eq(table_status, "DELETING") {
        StreamStatus::Disabling
    } else {
        StreamStatus::Enabled
    }
}

/// The text of the error for a stream that does not exist.
pub open spec fn stream_not_found_text(stream_arn: Seq<char>) -> Seq<char> {
    "Requested resource not found: Stream: "@ + stream_arn + " not found."@
}

/// The error for a stream (or a shard of it) that does not exist.
pub fn stream_not_found(stream_arn: &str) -> (e: StorageError)
    ensures
        e matches StorageError::TableNotFound(m) && m@ == stream_not_found_text(stream_arn@),
{
    let mut m = "Requested resource not found: Stream: ".to_owned();
    m.append(stream_arn);
    m.append(" not found.");
    StorageError::TableNotFound(m)
}

/// What enabling the stream of an existing table does.
#[derive(PartialEq, Eq, Structural, Clone, Copy, Debug)]
pub enum StreamEnableAction {
    /// Create the shards and label the stream.
    CreateShards,
    /// The shards exist but the label was cleared: label the stream again.
    RestoreLabel,
    /// The stream is already set up.
    Nothing,
}

/// What enabling the stream does, given whether the table's shards exist
/// and whether it has a stream label.
pub fn stream_enable_action(shards_exist: bool, label_present: bool) -> (a: StreamEnableAction)
    ensures
        a == if !shards_exist {
            StreamEnableAction::CreateShards
        } else if !label_present {
            StreamEnableAction::RestoreLabel
        } else {
            StreamEnableAction::Nothing
        },
{
    if !shards_exist {
        StreamEnableAction::CreateShards
    } else if !label_present {
        StreamEnableAction::RestoreLabel
    } else {
        StreamEnableAction::Nothing
    }
}

/// The `w` last decimal digits of `n`, most significant first.
pub open spec fn fixed_digits(n: nat, w: nat) -> Seq<char>
    decreases w,
{
    if w == 0 {
        Seq::empty()
    } else {
        fixed_digits(n / 10, (w - 1) as nat).push(digit_char(n % 10))
    }
}

proof fn lemma_fixed_len(n: nat, w: nat)
    ensures
        fixed_digits(n, w).len() == w,
    decreases w,
{
    if w > 0 {
        lemma_fixed_len(n / 10, (w - 1) as nat);
    }
}

proof fn lemma_fixed_zero(k: nat)
    ensures
        fixed_digits(0, k) == Seq::new(k, |i: int| '0'),
    decreases k,
{
    if k > 0 {
        lemma_fixed_zero((k - 1) as nat);
        assert(fixed_digits(0, k) =~= Seq::new(k, |i: int| '0'));
    } else {
        assert(fixed_digits(0, k) =~= Seq::new(k, |i: int| '0'));
    }
}

proof fn lemma_decimal_short(n: nat, k: nat)
    requires
        k >= 1,
        n < pow10(k),
    ensures
        decimal(n).len() <= k,
    decreases k,
{
    if n >= 10 {
        if k == 1 {
            assert(pow10(1) == 10 * pow10(0));
        } else {
            assert(pow10(k) == 10 * pow10((k - 1) as nat));
            lemma_decimal_short(n / 10, (k - 1) as nat);
        }
    }
}

/// Below `10^w`, the zero-padded rendering of `n` to width `w` is its `w`
/// last digits.
proof fn lemma_zero_pad_fixed(n: nat, w: nat)
    requires
        w >= 1,
        n < pow10(w),
    ensures
        zero_pad(decimal(n), w) == fixed_digits(n, w),
    decreases w,
{
    if n < 10 {
        lemma_fixed_zero((w - 1) as nat);
        assert(decimal(n) == seq![digit_char(n)]);
        assert(zero_pad(decimal(n), w) =~= fixed_digits(n, w));
    } else {
        assert(pow10(w) == 10 * pow10((w - 1) as nat));
        if w == 1 {
            assert(pow10(0) == 1);
        }
        lemma_decimal_short(n / 10, (w - 1) as nat);
        lemma_zero_pad_fixed(n / 10, (w - 1) as nat);
        assert(decimal(n) == decimal(n / 10).push(digit_char(n % 10)));
        assert(zero_pad(decimal(n), w) =~= zero_pad(decimal(n / 10), (w - 1) as nat).push(digit_char(n % 10)));
    }
}

/// The digit characters are ordered as the digits.
proof fn lemma_digit_char_order(i: nat, j: nat)
    requires
        i < j < 10,
    ensures
        digit_char(i) < digit_char(j),
{
}

/// Appending to two sequences of one length keeps a strict order between
/// them.
proof fn lemma_order_push_less(p: Seq<char>, q: Seq<char>, x: char, y: char)
    requires
        p.len() == q.len(),
        char_seq_order(p, q) == KeyOrder::Less,
    ensures
        char_seq_order(p.push(x), q.push(y)) == KeyOrder::Less,
    decreases p.len(),
{
    if p.len() > 0 && p[0] == q[0] {
        lemma_order_push_less(p.drop_first(), q.drop_first(), x, y);
        assert(p.push(x).drop_first() =~= p.drop_first().push(x));
        assert(q.push(y).drop_first() =~= q.drop_first().push(y));
    }
}

/// Two sequences that differ only in a last character order as it does.
proof fn lemma_order_same_prefix(p: Seq<char>, x: char, y: char)
    requires
        x < y,
    ensures
        char_seq_order(p.push(x), p.push(y)) == KeyOrder::Less,
    decreases p.len(),
{
    if p.len() > 0 {
        lemma_order_same_prefix(p.drop_first(), x, y);
        assert(p.push(x).drop_first() =~= p.drop_first().push(x));
        assert(p.push(y).drop_first() =~= p.drop_first().push(y));
    } else {
        assert(p.push(x).drop_first() =~= Seq::<char>::empty());
        assert(p.push(y).drop_first() =~= Seq::<char>::empty());
    }
}

/// Fixed-width digit strings order as the numbers they hold.
proof fn lemma_fixed_order(a: nat, b: nat, w: nat)
    requires
        w >= 1,
        a < b < pow10(w),
    ensures
        char_seq_order(fixed_digits(a, w), fixed_digits(b, w)) == KeyOrder::Less,
    decreases w,
{
    let k = (w - 1) as nat;
    lemma_fixed_len(a / 10, k);
    lemma_fixed_len(b / 10, k);
    assert(pow10(w) == 10 * pow10(k));
    if a / 10 == b / 10 {
        lemma_digit_char_order(a % 10, b % 10);
        lemma_order_same_prefix(fixed_digits(a / 10, k), digit_char(a % 10), digit_char(b % 10));
    } else {
        if w == 1 {
            assert(pow10(0) == 1);
        }
        lemma_fixed_order(a / 10, b / 10, k);
        lemma_order_push_less(fixed_digits(a / 10, k), fixed_digits(b / 10, k), digit_char(a % 10), digit_char(b % 10));
    }
}

/// Sequence numbers sort as text in the order of the counter values they
/// render, so ordering stream records by sequence number text orders them
/// by when they were written.
pub proof fn lemma_sequence_numbers_sort_like_counters(a: i64, b: i64)
    requires
        0 <= a < b,
    ensures
        char_seq_order(
            padded_signed_decimal(a as int, SEQUENCE_NUMBER_WIDTH as nat),
            padded_signed_decimal(b as int, SEQUENCE_NUMBER_WIDTH as nat),
        ) == KeyOrder::Less,
{
    reveal_with_fuel(pow10, 22);
    assert(pow10(21) == 1_000_000_000_000_000_000_000nat);
    lemma_zero_pad_fixed(a as nat, 21);
    lemma_zero_pad_fixed(b as nat, 21);
    lemma_fixed_order(a as nat, b as nat, 21);
}

/// A shard of a stream, as a stream description lists it.
pub struct ShardRow {
    pub shard_id: String,
    pub parent_shard_id: Option<String>,
    pub starting_sequence_number: String,
    pub ending_sequence_number: Option<String>,
}

/// The number of shards a stream description lists when the request names
/// no limit.
pub const DEFAULT_SHARD_LIMIT: i64 = 100;

/// The page size of a stream description: the request's limit, else the
/// default.
pub open spec fn shard_limit(limit: Option<i64>) -> i64 {
    match limit {
        Some(l) => l,
        None => DEFAULT_SHARD_LIMIT,
    }
}

/// The shards a stream description returns, from the shard rows fetched in
/// shard-id order one past the page size: a positive page size that leaves
/// rows over cuts the page there, and the id of its last shard is where the
/// next description resumes; otherwise every row is listed. A page size of
/// zero is only given rows to cut when there are none.
pub fn shard_page(rows: Vec<ShardRow>, limit: Option<i64>) -> (r: (Vec<ShardRow>, Option<String>))
    requires
        limit != Some(0i64) || rows@.len() == 0,
    ensures
        match page_limit(Some(shard_limit(limit))) {
            Some(l) if rows@.len() > l => {
                &&& r.0@ == rows@.take(l as int)
                &&& r.1 matches Some(id) && id@ == rows@[l - 1].shard_id@
            },
            _ => r.0@ == rows@ && r.1 is None,
        },
{
    let mut rows = rows;
    let lim = match limit {
        Some(l) => l,
        None => DEFAULT_SHARD_LIMIT,
    };
    if lim > 0 && lim as u64 <= usize::MAX as u64 {
        let l = lim as usize;
        if rows.len() > l {
            let last = rows[l - 1].shard_id.clone();
            rows.truncate(l);
            return (rows, Some(last));
        }
    }
    (rows, None)
}

/// A stream, as a listing of streams names it.
pub struct StreamSummaryRow {
    pub stream_arn: String,
    pub stream_label: String,
    pub table_name: String,
}

/// How many of the fetched rows a listing of streams returns: `limit` when
/// rows are left over beyond it, else every row (a negative limit lists
/// them all).
pub open spec fn listed_stream_count(limit: i64, fetched: nat) -> nat {
    if 0 <= limit && limit < fetched {
        limit as nat
    } else {
        fetched
    }
}

/// One page of a listing of streams, from the `(table name, stream label)`
/// rows fetched in order one past the limit: the first rows up to the
/// limit, each named by its stream ARN; when rows are left over, the ARN of
/// the page's last stream is where the next listing resumes.
pub fn stream_listing_page(region: &str, account_id: &str, rows: Vec<(String, String)>, limit: i64) -> (r: (
    Vec<StreamSummaryRow>,
    Option<String>,
))
    ensures
        r.0@.len() == listed_stream_count(limit, rows@.len()),
        forall|i: int|
            0 <= i < r.0@.len() ==> {
                &&& (#[trigger] r.0@[i]).table_name@ == rows@[i].0@
                &&& r.0@[i].stream_label@ == rows@[i].1@
                &&& r.0@[i].stream_arn@ == spec_stream_arn(region@, account_id@, rows@[i].0@, rows@[i].1@)
            },
        0 < limit < rows@.len() ==> (r.1 matches Some(a) && a@ == spec_stream_arn(
            region@,
            account_id@,
            rows@[limit - 1].0@,
            rows@[limit - 1].1@,
        )),
        !(0 < limit < rows@.len()) ==> r.1 is None,
{
    let n: usize = if 0 <= limit && (limit as u64) < rows.len() as u64 {
        limit as usize
    } else {
        rows.len()
    };
    let mut out: Vec<StreamSummaryRow> = Vec::new();
    let mut i: usize = 0;
    while i < n
        invariant
            n <= rows@.len(),
            i <= n,
            out@.len() == i,
            forall|j: int|
                0 <= j < i ==> {
                    &&& (#[trigger] out@[j]).table_name@ == rows@[j].0@
                    &&& out@[j].stream_label@ == rows@[j].1@
                    &&& out@[j].stream_arn@ == spec_stream_arn(region@, account_id@, rows@[j].0@, rows@[j].1@)
                },
        decreases n - i,
    {
        let (tn, label) = (&rows[i].0, &rows[i].1);
        let arn = stream_arn(region, account_id, tn.as_str(), label.as_str());
        out.push(StreamSummaryRow { stream_arn: arn, stream_label: label.clone(), table_name: tn.clone() });
        i += 1;
    }
    let last = if n < rows.len() && n > 0 {
        Some(out[n - 1].stream_arn.clone())
    } else {
        None
    };
    (out, last)
}

} // verus!
