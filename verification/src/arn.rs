//! Constructing and parsing resource ARNs.
use vstd::prelude::*;

use crate::error::StorageError;
use crate::text::{find_char, lemma_find_char_at, split_n, split_n_exec, str_eq, views};

verus! {

/// The ARN of a table.
pub open spec fn spec_table_arn(region: Seq<char>, account_id: Seq<char>, table_name: Seq<char>) -> Seq<char> {
    "arn:aws:dynamodb:"@ + region + ":"@ + account_id + ":table/"@ + table_name
}

/// The ARN of a table's stream.
pub open spec fn spec_stream_arn(
    region: Seq<char>,
    account_id: Seq<char>,
    table_name: Seq<char>,
    stream_label: Seq<char>,
) -> Seq<char> {
    spec_table_arn(region, account_id, table_name) + "/stream/"@ + stream_label
}

/// The ARN of a table's index.
pub open spec fn spec_index_arn(
    region: Seq<char>,
    account_id: Seq<char>,
    table_name: Seq<char>,
    index_name: Seq<char>,
) -> Seq<char> {
    spec_table_arn(region, account_id, table_name) + "/index/"@ + index_name
}

/// The `(table_name, stream_label)` that a stream ARN names: the text after the
/// fifth colon must read `table/<name>/stream/<label>`, where the name holds
/// no slash and the label is everything after the third slash.
pub open spec fn spec_parse_stream_arn(arn: Seq<char>) -> Option<(Seq<char>, Seq<char>)> {
    let segments = split_n(arn, ':', 6);
    if segments.len() < 6 {
        None
    } else {
        let parts = split_n(segments[5], '/', 4);
        if parts.len() == 4 && parts[0] == "table"@ && parts[2] == "stream"@ {
            Some((parts[1], parts[3]))
        } else {
            None
        }
    }
}

/// Returns an ARN for the specified DynamoDB index.
pub fn index_arn(region: &str, account_id: &str, table_name: &str, index_name: &str) -> (arn: String)
    ensures
        arn@ == spec_index_arn(region@, account_id@, table_name@, index_name@),
{
    let mut out = table_arn(region, account_id, table_name);
    out.append("/index/");
    out.append(index_name);
    out
}

/// Returns an ARN for the specified DynamoDB stream.
pub fn stream_arn(region: &str, account_id: &str, table_name: &str, stream_label: &str) -> (arn: String)
    ensures
        arn@ == spec_stream_arn(region@, account_id@, table_name@, stream_label@),
{
    let mut out = table_arn(region, account_id, table_name);
    out.append("/stream/");
    out.append(stream_label);
    out
}

/// Returns an ARN for the specified DynamoDB table.
pub fn table_arn(region: &str, account_id: &str, table_name: &str) -> (arn: String)
    ensures
        arn@ == spec_table_arn(region@, account_id@, table_name@),
{
    let mut out = "arn:aws:dynamodb:".to_owned();
    out.append(region);
    out.append(":");
    out.append(account_id);
    out.append(":table/");
    out.append(table_name);
    out
}

/// The message of the error for an ARN with fewer than five colons.
pub open spec fn invalid_arn_text(arn: Seq<char>) -> Seq<char> {
    "Invalid stream ARN: "@ + arn
}

/// The message of the error for an ARN whose resource part is malformed.
pub open spec fn invalid_arn_format_text(arn: Seq<char>) -> Seq<char> {
    "Invalid stream ARN format: "@ + arn
}

/// Parse a stream ARN into (`table_name`, `stream_label`).
///
/// Stream labels may hold colons (they are ISO 8601 timestamps), so only the
/// first five colons separate fields and the stream label keeps the rest.
pub fn parse_stream_arn(arn: &str) -> (r: Result<(String, String), StorageError>)
    ensures
        match r {
            Ok((table_name, stream_label)) => spec_parse_stream_arn(arn@) == Some(
                (table_name@, stream_label@),
            ),
            Err(e) => {
                &&& spec_parse_stream_arn(arn@) is None
                &&& e matches StorageError::Validation(m)
                &&& m@ == if split_n(arn@, ':', 6).len() < 6 {
                    invalid_arn_text(arn@)
                } else {
                    invalid_arn_format_text(arn@)
                }
            },
        },
{
    let segments = split_n_exec(arn, ':', 6);
    assert(views(segments@).len() == segments@.len());
    if segments.len() < 6 {
        let mut m = "Invalid stream ARN: ".to_owned();
        m.append(arn);
        return Err(StorageError::Validation(m));
    }
    let resource = segments[5].as_str();
    assert(resource@ == views(segments@)[5]);
    let parts = split_n_exec(resource, '/', 4);
    assert(views(parts@).len() == parts@.len());
    if parts.len() == 4 && str_eq(parts[0].as_str(), "table") && str_eq(parts[2].as_str(), "stream") {
        assert(parts[1]@ == views(parts@)[1]);
        assert(parts[3]@ == views(parts@)[3]);
        Ok((parts[1].clone(), parts[3].clone()))
    } else {
        proof {
            if parts@.len() == 4 {
                assert(parts[0]@ == views(parts@)[0]);
                assert(parts[2]@ == views(parts@)[2]);
            }
        }
        let mut m = "Invalid stream ARN format: ".to_owned();
        m.append(arn);
        Err(StorageError::Validation(m))
    }
}

/// Splitting at the first separator after a separator-free prefix yields that
/// prefix and then the pieces of the rest.
pub proof fn lemma_split_n_prefix(x: Seq<char>, y: Seq<char>, c: char, limit: nat)
    requires
        !x.contains(c),
        limit >= 2,
    ensures
        split_n(x + seq![c] + y, c, limit) == seq![x] + split_n(y, c, (limit - 1) as nat),
{
    let s = x + seq![c] + y;
    assert forall|j: int| 0 <= j < x.len() implies s[j] != c by {
        assert(s[j] == x[j]);
        if x[j] == c {
            assert(x.contains(c));
        }
    }
    lemma_find_char_at(s, c, x.len() as int);
    assert(s.take(x.len() as int) =~= x);
    assert(s.skip(x.len() as int + 1) =~= y);
}

/// A stream ARN built from a region and an account id without colons and a
/// table name without slashes parses back to that table name and stream label.
pub proof fn lemma_stream_arn_round_trip(
    region: Seq<char>,
    account_id: Seq<char>,
    table_name: Seq<char>,
    stream_label: Seq<char>,
)
    requires
        !region.contains(':'),
        !account_id.contains(':'),
        !table_name.contains('/'),
    ensures
        spec_parse_stream_arn(spec_stream_arn(region, account_id, table_name, stream_label)) == Some(
            (table_name, stream_label),
        ),
{
    reveal_strlit("arn:aws:dynamodb:");
    reveal_strlit(":");
    reveal_strlit(":table/");
    reveal_strlit("/stream/");
    reveal_strlit("table");
    reveal_strlit("stream");
    let resource = "table"@ + seq!['/'] + table_name + seq!['/'] + "stream"@ + seq!['/'] + stream_label;
    let arn = spec_stream_arn(region, account_id, table_name, stream_label);
    let s_arn = seq!['a', 'r', 'n'];
    let s_aws = seq!['a', 'w', 's'];
    let s_ddb = seq!['d', 'y', 'n', 'a', 'm', 'o', 'd', 'b'];
    let r4 = account_id + seq![':'] + resource;
    let r3 = region + seq![':'] + r4;
    let r2 = s_ddb + seq![':'] + r3;
    let r1 = s_aws + seq![':'] + r2;
    assert(arn =~= s_arn + seq![':'] + r1);
    assert(!s_arn.contains(':')) by {
        assert(forall|i: int| 0 <= i < 3 ==> s_arn[i] != ':');
    }
    assert(!s_aws.contains(':')) by {
        assert(forall|i: int| 0 <= i < 3 ==> s_aws[i] != ':');
    }
    assert(!s_ddb.contains(':')) by {
        assert(forall|i: int| 0 <= i < 8 ==> s_ddb[i] != ':');
    }
    lemma_split_n_prefix(s_arn, r1, ':', 6);
    lemma_split_n_prefix(s_aws, r2, ':', 5);
    lemma_split_n_prefix(s_ddb, r3, ':', 4);
    lemma_split_n_prefix(region, r4, ':', 3);
    lemma_split_n_prefix(account_id, resource, ':', 2);
    let segments = split_n(arn, ':', 6);
    assert(segments =~= seq![s_arn, s_aws, s_ddb, region, account_id, resource]);
    let t3 = "stream"@ + seq!['/'] + stream_label;
    let t2 = table_name + seq!['/'] + t3;
    assert(resource =~= "table"@ + seq!['/'] + t2);
    assert(!"table"@.contains('/')) by {
        assert(forall|i: int| 0 <= i < 5 ==> "table"@[i] != '/');
    }
    assert(!"stream"@.contains('/')) by {
        assert(forall|i: int| 0 <= i < 6 ==> "stream"@[i] != '/');
    }
    lemma_split_n_prefix("table"@, t2, '/', 4);
    lemma_split_n_prefix(table_name, t3, '/', 3);
    lemma_split_n_prefix("stream"@, stream_label, '/', 2);
    assert(split_n(resource, '/', 4) =~= seq!["table"@, table_name, "stream"@, stream_label]);
}

} // verus!
