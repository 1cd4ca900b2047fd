//! Sort key conditions: how they are written as SQL fragments, and how they
//! are evaluated against stored values.
use bigdecimal::BigDecimal;
use vstd::prelude::*;

use crate::error::StorageError;
use crate::text::{decimal, push_decimal, str_eq};
use crate::types::{AttrView, AttributeValue, ScalarAttributeType};

verus! {

/// A comparison operator of a key condition.
#[derive(PartialEq, Eq, Structural, Clone, Copy, Debug)]
pub enum CompareOp {
    Eq,
    Ne,
    Lt,
    Le,
    Gt,
    Ge,
}

/// A sort key condition whose operands have been resolved to values.
pub enum SortKeyCondition {
    Compare { op: CompareOp, value: AttributeValue },
    Between { low: AttributeValue, high: AttributeValue },
    BeginsWith { prefix: AttributeValue },
}

/// The outcome of comparing two sort key values.
#[derive(PartialEq, Eq, Structural, Clone, Copy, Debug)]
pub enum KeyOrder {
    Less,
    Equal,
    Greater,
}

/// The order of `x` against `y` after both are read as decimal numbers
/// (text that does not read as one counts as zero), as `BigDecimal` orders them.
pub uninterp spec fn decimal_text_order(x: Seq<char>, y: Seq<char>) -> int;

/// Parses both texts with `str::parse::<BigDecimal>` (zero, the default, when
/// a text does not parse) and compares them with `Ord::cmp`, answering -1, 0
/// or 1. The result is named `decimal_text_order` of the two texts; the
/// number order itself is not written out here.
#[verifier::external_body]
fn compare_decimal_text(x: &str, y: &str) -> (r: i8)
    ensures
        r == decimal_text_order(x@, y@),
        -1 <= r <= 1,
{
    let xd = x.parse::<BigDecimal>().unwrap_or_default();
    let yd = y.parse::<BigDecimal>().unwrap_or_default();
    match xd.cmp(&yd) {
        std::cmp::Ordering::Less => -1,
        std::cmp::Ordering::Equal => 0,
        std::cmp::Ordering::Greater => 1,
    }
}

/// Lexicographic order of two character sequences by code point, which is
/// the byte order of their UTF-8 encodings.
pub open spec fn char_seq_order(a: Seq<char>, b: Seq<char>) -> KeyOrder
    decreases a.len(),
{
    if a.len() == 0 && b.len() == 0 {
        KeyOrder::Equal
    } else if a.len() == 0 {
        KeyOrder::Less
    } else if b.len() == 0 {
        KeyOrder::Greater
    } else if a[0] < b[0] {
        KeyOrder::Less
    } else if a[0] > b[0] {
        KeyOrder::Greater
    } else {
        char_seq_order(a.drop_first(), b.drop_first())
    }
}

/// Lexicographic order of two byte sequences.
pub open spec fn byte_seq_order(a: Seq<u8>, b: Seq<u8>) -> KeyOrder
    decreases a.len(),
{
    if a.len() == 0 && b.len() == 0 {
        KeyOrder::Equal
    } else if a.len() == 0 {
        KeyOrder::Less
    } else if b.len() == 0 {
        KeyOrder::Greater
    } else if a[0] < b[0] {
        KeyOrder::Less
    } else if a[0] > b[0] {
        KeyOrder::Greater
    } else {
        byte_seq_order(a.drop_first(), b.drop_first())
    }
}

/// The order of an integer comparison result.
pub open spec fn order_of(r: int) -> KeyOrder {
    if r < 0 {
        KeyOrder::Less
    } else if r == 0 {
        KeyOrder::Equal
    } else {
        KeyOrder::Greater
    }
}

/// Compare two sort key values by DynamoDB semantics: S by character (UTF-8
/// byte) order, B by raw bytes, N numerically; values of another kind, or
/// of kinds that do not match the key type, compare equal.
pub open spec fn spec_cmp_av(ty: ScalarAttributeType, a: AttrView, b: AttrView) -> KeyOrder {
    match (ty, a, b) {
        (ScalarAttributeType::S, AttrView::S(x), AttrView::S(y)) => char_seq_order(x, y),
        (ScalarAttributeType::B, AttrView::B(x), AttrView::B(y)) => byte_seq_order(x, y),
        (ScalarAttributeType::N, AttrView::N(x), AttrView::N(y)) => order_of(decimal_text_order(x, y)),
        _ => KeyOrder::Equal,
    }
}

/// A character sequence compares equal to itself.
pub proof fn lemma_char_order_refl(a: Seq<char>)
    ensures
        char_seq_order(a, a) == KeyOrder::Equal,
    decreases a.len(),
{
    if a.len() > 0 {
        lemma_char_order_refl(a.drop_first());
    }
}

/// Two character sequences that compare equal are the same sequence.
pub proof fn lemma_char_order_equal(a: Seq<char>, b: Seq<char>)
    requires
        char_seq_order(a, b) == KeyOrder::Equal,
    ensures
        a == b,
    decreases a.len(),
{
    if a.len() > 0 && b.len() > 0 {
        lemma_char_order_equal(a.drop_first(), b.drop_first());
        assert(a =~= seq![a[0]] + a.drop_first());
        assert(b =~= seq![b[0]] + b.drop_first());
    }
}

proof fn lemma_char_order_suffix(a: Seq<char>, b: Seq<char>, i: int)
    requires
        0 <= i <= a.len(),
        i <= b.len(),
        forall|j: int| 0 <= j < i ==> a[j] == b[j],
    ensures
        char_seq_order(a, b) == char_seq_order(a.skip(i), b.skip(i)),
    decreases i,
{
    if i > 0 {
        assert(a.skip(0) =~= a);
        lemma_char_order_suffix(a.drop_first(), b.drop_first(), i - 1);
        assert(a.drop_first().skip(i - 1) =~= a.skip(i));
        assert(b.drop_first().skip(i - 1) =~= b.skip(i));
        assert forall|j: int| 0 <= j < i - 1 implies a.drop_first()[j] == b.drop_first()[j] by {
            assert(a[j + 1] == b[j + 1]);
        }
    } else {
        assert(a.skip(0) =~= a);
        assert(b.skip(0) =~= b);
    }
}

proof fn lemma_byte_order_suffix(a: Seq<u8>, b: Seq<u8>, i: int)
    requires
        0 <= i <= a.len(),
        i <= b.len(),
        forall|j: int| 0 <= j < i ==> a[j] == b[j],
    ensures
        byte_seq_order(a, b) == byte_seq_order(a.skip(i), b.skip(i)),
    decreases i,
{
    if i > 0 {
        lemma_byte_order_suffix(a.drop_first(), b.drop_first(), i - 1);
        assert(a.drop_first().skip(i - 1) =~= a.skip(i));
        assert(b.drop_first().skip(i - 1) =~= b.skip(i));
        assert forall|j: int| 0 <= j < i - 1 implies a.drop_first()[j] == b.drop_first()[j] by {
            assert(a[j + 1] == b[j + 1]);
        }
    } else {
        assert(a.skip(0) =~= a);
        assert(b.skip(0) =~= b);
    }
}

/// Compares two strings by code point.
pub(crate) fn compare_text(x: &str, y: &str) -> (r: KeyOrder)
    ensures
        r == char_seq_order(x@, y@),
{
    let a = crate::text::chars_of(x);
    let b = crate::text::chars_of(y);
    let mut i: usize = 0;
    while i < a.len() && i < b.len() && a[i] == b[i]
        invariant
            a@ == x@,
            b@ == y@,
            i <= a@.len(),
            i <= b@.len(),
            forall|j: int| 0 <= j < i ==> a@[j] == b@[j],
        decreases a@.len() - i,
    {
        i += 1;
    }
    proof {
        lemma_char_order_suffix(x@, y@, i as int);
        if i < a@.len() {
            assert(x@.skip(i as int)[0] == a@[i as int]);
        }
        if i < b@.len() {
            assert(y@.skip(i as int)[0] == b@[i as int]);
        }
    }
    if i == a.len() && i == b.len() {
        KeyOrder::Equal
    } else if i == a.len() {
        KeyOrder::Less
    } else if i == b.len() {
        KeyOrder::Greater
    } else if a[i] < b[i] {
        KeyOrder::Less
    } else {
        KeyOrder::Greater
    }
}

/// Compares two byte strings lexicographically.
fn compare_bytes(x: &[u8], y: &[u8]) -> (r: KeyOrder)
    ensures
        r == byte_seq_order(x@, y@),
{
    let mut i: usize = 0;
    while i < x.len() && i < y.len() && x[i] == y[i]
        invariant
            i <= x@.len(),
            i <= y@.len(),
            forall|j: int| 0 <= j < i ==> x@[j] == y@[j],
        decreases x@.len() - i,
    {
        i += 1;
    }
    proof {
        lemma_byte_order_suffix(x@, y@, i as int);
    }
    if i == x.len() && i == y.len() {
        KeyOrder::Equal
    } else if i == x.len() {
        KeyOrder::Less
    } else if i == y.len() {
        KeyOrder::Greater
    } else if x[i] < y[i] {
        KeyOrder::Less
    } else {
        KeyOrder::Greater
    }
}

/// Compare two sort-key values by DynamoDB semantics.
pub fn cmp_av(ty: ScalarAttributeType, a: &AttributeValue, b: &AttributeValue) -> (r: KeyOrder)
    ensures
        r == spec_cmp_av(ty, a@, b@),
{
    match (ty, a, b) {
        (ScalarAttributeType::S, AttributeValue::S(x), AttributeValue::S(y)) => compare_text(
            x.as_str(),
            y.as_str(),
        ),
        (ScalarAttributeType::B, AttributeValue::B(x), AttributeValue::B(y)) => compare_bytes(
            x.as_slice(),
            y.as_slice(),
        ),
        (ScalarAttributeType::N, AttributeValue::N(x), AttributeValue::N(y)) => {
            let r = compare_decimal_text(x.as_str(), y.as_str());
            if r < 0 {
                KeyOrder::Less
            } else if r == 0 {
                KeyOrder::Equal
            } else {
                KeyOrder::Greater
            }
        },
        _ => KeyOrder::Equal,
    }
}

/// Whether an order satisfies a comparison operator.
pub open spec fn op_holds(op: CompareOp, ord: KeyOrder) -> bool {
    match op {
        CompareOp::Eq => ord == KeyOrder::Equal,
        CompareOp::Ne => ord != KeyOrder::Equal,
        CompareOp::Lt => ord == KeyOrder::Less,
        CompareOp::Le => ord != KeyOrder::Greater,
        CompareOp::Gt => ord == KeyOrder::Greater,
        CompareOp::Ge => ord != KeyOrder::Less,
    }
}

/// The message of the error for `begins_with` on a key of another kind.
pub open spec fn begins_with_kind_text() -> Seq<char> {
    "begins_with is supported on string or binary sort keys only"@
}

/// Whether an item's sort key value satisfies a condition, or the message of
/// the error when the condition cannot be evaluated.
pub open spec fn spec_sk_satisfies(ty: ScalarAttributeType, item_sk: AttrView, cond: SortKeyCondition) -> Result<
    bool,
    Seq<char>,
> {
    match cond {
        SortKeyCondition::Compare { op, value } => Ok(op_holds(op, spec_cmp_av(ty, item_sk, value@))),
        SortKeyCondition::Between { low, high } => Ok(
            spec_cmp_av(ty, item_sk, low@) != KeyOrder::Less && spec_cmp_av(ty, item_sk, high@)
                != KeyOrder::Greater,
        ),
        SortKeyCondition::BeginsWith { prefix } => match (item_sk, prefix@) {
            (AttrView::S(s), AttrView::S(p)) => Ok(p.is_prefix_of(s)),
            (AttrView::B(b), AttrView::B(p)) => Ok(p.is_prefix_of(b)),
            _ => Err(begins_with_kind_text()),
        },
    }
}

pub(crate) fn starts_with_chars(s: &str, p: &str) -> (r: bool)
    ensures
        r == p@.is_prefix_of(s@),
{
    let a = crate::text::chars_of(s);
    let b = crate::text::chars_of(p);
    if b.len() > a.len() {
        return false;
    }
    let mut i: usize = 0;
    while i < b.len()
        invariant
            a@ == s@,
            b@ == p@,
            b@.len() <= a@.len(),
            i <= b@.len(),
            forall|j: int| 0 <= j < i ==> a@[j] == b@[j],
        decreases b@.len() - i,
    {
        if a[i] != b[i] {
            return false;
        }
        i += 1;
    }
    true
}

fn starts_with_bytes(s: &[u8], p: &[u8]) -> (r: bool)
    ensures
        r == p@.is_prefix_of(s@),
{
    if p.len() > s.len() {
        return false;
    }
    let mut i: usize = 0;
    while i < p.len()
        invariant
            p@.len() <= s@.len(),
            i <= p@.len(),
            forall|j: int| 0 <= j < i ==> s@[j] == p@[j],
        decreases p@.len() - i,
    {
        if s[i] != p[i] {
            return false;
        }
        i += 1;
    }
    true
}

/// Evaluate a sort-key condition against an item's sort-key value.
pub fn sk_satisfies(ty: ScalarAttributeType, item_sk: &AttributeValue, cond: &SortKeyCondition) -> (r: Result<
    bool,
    StorageError,
>)
    ensures
        match r {
            Ok(b) => spec_sk_satisfies(ty, item_sk@, *cond) == Ok::<bool, Seq<char>>(b),
            Err(e) => {
                &&& e matches StorageError::Validation(m)
                &&& spec_sk_satisfies(ty, item_sk@, *cond) == Err::<bool, Seq<char>>(m@)
            },
        },
        cond matches SortKeyCondition::Between { low, high } ==> (r matches Ok(b) && b == (
        spec_cmp_av(ty, item_sk@, low@) != KeyOrder::Less && spec_cmp_av(ty, item_sk@, high@)
            != KeyOrder::Greater)),
{
    match cond {
        SortKeyCondition::Compare { op, value } => {
            let ord = cmp_av(ty, item_sk, value);
            Ok(
                match op {
                    CompareOp::Eq => ord == KeyOrder::Equal,
                    CompareOp::Ne => ord != KeyOrder::Equal,
                    CompareOp::Lt => ord == KeyOrder::Less,
                    CompareOp::Le => ord != KeyOrder::Greater,
                    CompareOp::Gt => ord == KeyOrder::Greater,
                    CompareOp::Ge => ord != KeyOrder::Less,
                },
            )
        },
        SortKeyCondition::Between { low, high } => {
            Ok(cmp_av(ty, item_sk, low) != KeyOrder::Less && cmp_av(ty, item_sk, high) != KeyOrder::Greater)
        },
        SortKeyCondition::BeginsWith { prefix } => match (item_sk, prefix) {
            (AttributeValue::S(s), AttributeValue::S(pre)) => Ok(starts_with_chars(s.as_str(), pre.as_str())),
            (AttributeValue::B(b), AttributeValue::B(pre)) => Ok(starts_with_bytes(b.as_slice(), pre.as_slice())),
            _ => Err(
                StorageError::Validation(
                    "begins_with is supported on string or binary sort keys only".to_owned(),
                ),
            ),
        },
    }
}


/// A SQL WHERE fragment for a sort key condition.
pub struct SkSqlInfo {
    pub fragment: String,
}

/// True when the column name ends with `_s`, the suffix of string sort key columns.
pub open spec fn is_string_column(col: Seq<char>) -> bool {
    col.len() >= 2 && col[col.len() - 2] == '_' && col[col.len() - 1] == 's'
}

/// The collation applied to a sort key column: byte order (`"C"`) for
/// string columns, none otherwise.
pub open spec fn collate_for(col: Seq<char>) -> Seq<char> {
    if col == "sk_s"@ || is_string_column(col) {
        " COLLATE \"C\""@
    } else {
        ""@
    }
}

/// The SQL operator of a comparison operator.
pub open spec fn sql_op_text(op: CompareOp) -> Seq<char> {
    match op {
        CompareOp::Eq => "="@,
        CompareOp::Ne => "<>"@,
        CompareOp::Lt => "<"@,
        CompareOp::Le => "<="@,
        CompareOp::Gt => ">"@,
        CompareOp::Ge => ">="@,
    }
}

/// A numbered query parameter, `$<n>`.
pub open spec fn param_text(n: nat) -> Seq<char> {
    "$"@ + decimal(n)
}

/// The fragment for a condition on column `col` whose parameters start at
/// number `idx`, and the number of parameters it uses.
pub open spec fn spec_sk_sql(cond: SortKeyCondition, col: Seq<char>, idx: nat) -> (Seq<char>, nat) {
    let c = col + collate_for(col);
    match cond {
        SortKeyCondition::Compare { op, .. } => (
            " AND "@ + c + " "@ + sql_op_text(op) + " "@ + param_text(idx),
            1,
        ),
        SortKeyCondition::Between { .. } => (
            " AND "@ + c + " BETWEEN "@ + param_text(idx) + " AND "@ + param_text(idx + 1),
            2,
        ),
        SortKeyCondition::BeginsWith { .. } => (
            " AND "@ + c + " >= "@ + param_text(idx) + " AND "@ + c + " < ("@ + param_text(idx)
                + " || chr(1114111))"@,
            1,
        ),
    }
}

fn ends_with_s(col: &str) -> (r: bool)
    ensures
        r == is_string_column(col@),
{
    let c = crate::text::chars_of(col);
    let n = c.len();
    n >= 2 && c[n - 2] == '_' && c[n - 1] == 's'
}

fn push_param(out: &mut String, n: u32)
    ensures
        final(out)@ == old(out)@ + param_text(n as nat),
{
    out.append("$");
    push_decimal(out, n as u64);
    assert(final(out)@ =~= old(out)@ + param_text(n as nat));
}

/// Build a SQL WHERE fragment for a sort key condition.
///
/// DynamoDB sorts strings by UTF-8 byte order, not by locale, so string
/// columns compare with `COLLATE "C"`. The parameter counter advances past
/// the parameters the fragment uses.
pub fn build_sk_sql(sk_cond: &SortKeyCondition, sk_col: &str, param_idx: &mut u32) -> (info: SkSqlInfo)
    requires
        *old(param_idx) as nat + 2 <= u32::MAX,
    ensures
        info.fragment@ == spec_sk_sql(*sk_cond, sk_col@, *old(param_idx) as nat).0,
        *final(param_idx) as nat == *old(param_idx) as nat + spec_sk_sql(*sk_cond, sk_col@, *old(param_idx) as nat).1,
{
    let collate = if str_eq(sk_col, "sk_s") || ends_with_s(sk_col) {
        " COLLATE \"C\""
    } else {
        ""
    };
    let mut col = sk_col.to_owned();
    col.append(collate);
    let mut frag = " AND ".to_owned();
    frag.append(col.as_str());
    match sk_cond {
        SortKeyCondition::Compare { op, .. } => {
            let sql_op = match op {
                CompareOp::Eq => "=",
                CompareOp::Ne => "<>",
                CompareOp::Lt => "<",
                CompareOp::Le => "<=",
                CompareOp::Gt => ">",
                CompareOp::Ge => ">=",
            };
            frag.append(" ");
            frag.append(sql_op);
            frag.append(" ");
            push_param(&mut frag, *param_idx);
            *param_idx = *param_idx + 1;
        },
        SortKeyCondition::Between { .. } => {
            frag.append(" BETWEEN ");
            push_param(&mut frag, *param_idx);
            frag.append(" AND ");
            push_param(&mut frag, *param_idx + 1);
            *param_idx = *param_idx + 2;
        },
        SortKeyCondition::BeginsWith { .. } => {
            frag.append(" >= ");
            push_param(&mut frag, *param_idx);
            frag.append(" AND ");
            frag.append(col.as_str());
            frag.append(" < (");
            push_param(&mut frag, *param_idx);
            frag.append(" || chr(1114111))");
            *param_idx = *param_idx + 1;
        },
    }
    SkSqlInfo { fragment: frag }
}

/// Byte order compares a sequence equal to itself.
pub proof fn lemma_byte_order_refl(a: Seq<u8>)
    ensures
        byte_seq_order(a, a) == KeyOrder::Equal,
    decreases a.len(),
{
    if a.len() > 0 {
        lemma_byte_order_refl(a.drop_first());
    }
}

/// `BETWEEN low AND high` keeps exactly the keys that `>= low` and
/// `<= high` both keep: it is inclusive at both bounds. A key that compares
/// equal to either bound (and lies within the other) is kept; a key above
/// `high` or below `low` is not.
pub proof fn lemma_between_is_inclusive(
    ty: ScalarAttributeType,
    x: AttrView,
    low: AttributeValue,
    high: AttributeValue,
)
    ensures
        spec_sk_satisfies(ty, x, SortKeyCondition::Between { low, high }) == Ok::<bool, Seq<char>>(
            spec_sk_satisfies(ty, x, SortKeyCondition::Compare { op: CompareOp::Ge, value: low })
                == Ok::<bool, Seq<char>>(true) && spec_sk_satisfies(
                ty,
                x,
                SortKeyCondition::Compare { op: CompareOp::Le, value: high },
            ) == Ok::<bool, Seq<char>>(true),
        ),
        spec_cmp_av(ty, x, high@) == KeyOrder::Equal && spec_cmp_av(ty, x, low@) != KeyOrder::Less
            ==> spec_sk_satisfies(ty, x, SortKeyCondition::Between { low, high }) == Ok::<bool, Seq<char>>(true),
        spec_cmp_av(ty, x, low@) == KeyOrder::Equal && spec_cmp_av(ty, x, high@) != KeyOrder::Greater
            ==> spec_sk_satisfies(ty, x, SortKeyCondition::Between { low, high }) == Ok::<bool, Seq<char>>(true),
        spec_cmp_av(ty, x, high@) == KeyOrder::Greater || spec_cmp_av(ty, x, low@) == KeyOrder::Less
            ==> spec_sk_satisfies(ty, x, SortKeyCondition::Between { low, high }) == Ok::<bool, Seq<char>>(false),
{
}

/// For string and binary keys, both bounds of a non-empty range satisfy
/// `BETWEEN low AND high`: the bounds themselves are inside the range.
pub proof fn lemma_between_keeps_its_bounds(ty: ScalarAttributeType, low: AttributeValue, high: AttributeValue)
    requires
        (ty == ScalarAttributeType::S && low@ is S && high@ is S) || (ty == ScalarAttributeType::B && low@ is B
            && high@ is B),
        spec_cmp_av(ty, low@, high@) != KeyOrder::Greater,
    ensures
        spec_sk_satisfies(ty, high@, SortKeyCondition::Between { low, high }) == Ok::<bool, Seq<char>>(true),
        spec_sk_satisfies(ty, low@, SortKeyCondition::Between { low, high }) == Ok::<bool, Seq<char>>(true),
{
    match (low@, high@) {
        (AttrView::S(l), AttrView::S(h)) => {
            lemma_char_order_refl(l);
            lemma_char_order_refl(h);
            if char_seq_order(h, l) == KeyOrder::Less {
                crate::paging::lemma_char_order_asym(h, l);
            }
        },
        (AttrView::B(l), AttrView::B(h)) => {
            lemma_byte_order_refl(l);
            lemma_byte_order_refl(h);
            if byte_seq_order(h, l) == KeyOrder::Less {
                crate::paging::lemma_byte_order_asym(h, l);
            }
        },
        _ => {},
    }
}

/// How PostgreSQL's comparison operator `sql_op` holds between a row's sort
/// key and a bound whose order against it is `ord`: `<` strictly below,
/// `<=` below or equal, `>` strictly above, `>=` above or equal, `=` equal,
/// `<>` different; any other text selects nothing.
pub open spec fn sql_comparison_holds(sql_op: Seq<char>, ord: KeyOrder) -> bool {
    if sql_op == "<"@ {
        ord == KeyOrder::Less
    } else if sql_op == "<="@ {
        ord == KeyOrder::Less || ord == KeyOrder::Equal
    } else if sql_op == ">"@ {
        ord == KeyOrder::Greater
    } else if sql_op == ">="@ {
        ord == KeyOrder::Greater || ord == KeyOrder::Equal
    } else if sql_op == "="@ {
        ord == KeyOrder::Equal
    } else if sql_op == "<>"@ {
        ord == KeyOrder::Less || ord == KeyOrder::Greater
    } else {
        false
    }
}

/// The SQL fragment of a comparison selects exactly the rows that the
/// condition keeps when evaluated on the items: the fragment compares the
/// sort key column with the bound by an operator that, under PostgreSQL's
/// meaning, holds of a key exactly when `sk_satisfies` keeps it. So `<`
/// leaves out a key equal to the bound, and `<=` keeps it.
pub proof fn lemma_compare_sql_selects_what_the_condition_keeps(
    ty: ScalarAttributeType,
    x: AttrView,
    op: CompareOp,
    value: AttributeValue,
    col: Seq<char>,
    idx: nat,
)
    ensures
        spec_sk_sql(SortKeyCondition::Compare { op, value }, col, idx).0 == " AND "@ + col + collate_for(col)
            + " "@ + sql_op_text(op) + " "@ + param_text(idx),
        sql_comparison_holds(sql_op_text(op), spec_cmp_av(ty, x, value@)) <==> spec_sk_satisfies(
            ty,
            x,
            SortKeyCondition::Compare { op, value },
        ) == Ok::<bool, Seq<char>>(true),
{
    reveal_strlit("<");
    reveal_strlit("<=");
    reveal_strlit(">");
    reveal_strlit(">=");
    reveal_strlit("=");
    reveal_strlit("<>");
    assert("<"@.len() == 1 && ">"@.len() == 1 && "="@.len() == 1 && "<="@.len() == 2 && ">="@.len() == 2 && "<>"@.len() == 2);
    assert("<"@[0] == '<' && ">"@[0] == '>' && "="@[0] == '=' && "<="@[0] == '<' && ">="@[0] == '>');
    assert("<="@[1] == '=' && "<>"@[1] == '>');
    assert("<"@ != "<="@ && "<"@ != ">"@ && "<"@ != ">="@ && "<"@ != "="@ && "<"@ != "<>"@);
    assert("<="@ != ">"@ && "<="@ != ">="@ && "<="@ != "="@ && "<="@ != "<>"@);
    assert(">"@ != ">="@ && ">"@ != "="@ && ">"@ != "<>"@);
    assert(">="@ != "="@ && ">="@ != "<>"@);
    assert("="@ != "<>"@);
}

/// The SQL fragment of `BETWEEN` bounds the sort key column by the two
/// parameters in order, low first; PostgreSQL's `BETWEEN` is inclusive at
/// both ends, as the condition is on the items.
pub proof fn lemma_between_sql_binds_low_then_high(
    ty: ScalarAttributeType,
    x: AttrView,
    low: AttributeValue,
    high: AttributeValue,
    col: Seq<char>,
    idx: nat,
)
    ensures
        spec_sk_sql(SortKeyCondition::Between { low, high }, col, idx).0 == " AND "@ + col + collate_for(col)
            + " BETWEEN "@ + param_text(idx) + " AND "@ + param_text(idx + 1),
        spec_sk_sql(SortKeyCondition::Between { low, high }, col, idx).1 == 2,
        (sql_comparison_holds(">="@, spec_cmp_av(ty, x, low@)) && sql_comparison_holds(
            "<="@,
            spec_cmp_av(ty, x, high@),
        )) <==> spec_sk_satisfies(ty, x, SortKeyCondition::Between { low, high }) == Ok::<bool, Seq<char>>(true),
{
    reveal_strlit("<");
    reveal_strlit("<=");
    reveal_strlit(">");
    reveal_strlit(">=");
    assert("<"@.len() == 1 && ">"@.len() == 1 && "<="@.len() == 2 && ">="@.len() == 2);
    assert("<"@[0] == '<' && ">"@[0] == '>' && "<="@[0] == '<' && ">="@[0] == '>');
    assert("<"@ != "<="@ && "<"@ != ">="@ && "<="@ != ">="@ && ">"@ != ">="@);
}

} // verus!
