use vstd::prelude::*;
use vstd::utf8::encode_utf8;
use crate::text::decimal;
use crate::db::batching::{is_batch_plan, lemma_batch_plan_partitions};

verus! {

/// A value bound to a statement's placeholder.
pub enum SqlValue {
    /// A text value.
    Text(Seq<char>),
    /// An exact number (`NUMERIC`).
    Numeric(int),
    /// A 16-bit integer (`SMALLINT`).
    SmallInt(int),
    /// A 32-bit integer (`INTEGER`).
    Integer(int),
    /// `NULL` in a `SMALLINT` column.
    NullSmallInt,
}

/// An SQL statement under construction with its bound values: a
/// `sqlx::QueryBuilder` for Postgres, which the caller builds and executes.
#[verifier::external_body]
pub struct Statement {
    pub builder: sqlx::QueryBuilder<'static, sqlx::Postgres>,
}

/// The text of a statement.
pub uninterp spec fn statement_text(statement: Statement) -> Seq<char>;

/// The values bound to a statement, in the order of their placeholders.
pub uninterp spec fn statement_values(statement: Statement) -> Seq<SqlValue>;

/// The placeholder of the `n`-th bound value, counted from 1.
pub open spec fn placeholder(n: nat) -> Seq<char> {
    seq!['$'] + decimal(n)
}

/// Largest encoded value, in bytes, that the Postgres wire protocol carries.
pub open spec fn max_value_bytes() -> int {
    2147483647
}

/// Starts a statement with the text `init` through `sqlx::QueryBuilder::new`.
/// Claimed: the text is `init`, and no value is bound.
#[verifier::external_body]
pub(crate) fn statement_new(init: &str) -> (statement: Statement)
    ensures
        statement_text(statement) == init@,
        statement_values(statement) == Seq::<SqlValue>::empty(),
{
    Statement { builder: sqlx::QueryBuilder::new(init) }
}

/// Appends `sql` to the text through `sqlx::QueryBuilder::push`.
/// Claimed: the text grows by `sql`; the bound values stay.
#[verifier::external_body]
pub(crate) fn statement_push(statement: &mut Statement, sql: &str)
    ensures
        statement_text(*final(statement)) == statement_text(*old(statement)) + sql@,
        statement_values(*final(statement)) == statement_values(*old(statement)),
{
    statement.builder.push(sql);
}

/// Binds a text value through `sqlx::QueryBuilder::push_bind`.
/// Claimed: the value is bound after the others and its placeholder `$n`
/// (`n` the number of values bound so far, this one included) is appended
/// to the text. The source panics where the value's encoding exceeds
/// `i32::MAX` bytes; `requires` leaves that out.
#[verifier::external_body]
pub(crate) fn statement_bind_text(statement: &mut Statement, value: String)
    requires
        encode_utf8(value@).len() <= max_value_bytes(),
    ensures
        statement_values(*final(statement)) == statement_values(*old(statement)).push(SqlValue::Text(value@)),
        statement_text(*final(statement)) == statement_text(*old(statement))
            + placeholder(statement_values(*final(statement)).len()),
{
    statement.builder.push_bind(value);
}

/// Binds an exact number through `sqlx::QueryBuilder::push_bind`, the value
/// converted by `BigDecimal::from`.
/// Claimed: as for a text value, with the number `value` bound.
#[verifier::external_body]
pub(crate) fn statement_bind_numeric(statement: &mut Statement, value: u64)
    ensures
        statement_values(*final(statement)) == statement_values(*old(statement)).push(SqlValue::Numeric(value as int)),
        statement_text(*final(statement)) == statement_text(*old(statement))
            + placeholder(statement_values(*final(statement)).len()),
{
    statement.builder.push_bind(sqlx::types::BigDecimal::from(value));
}

/// Binds a 16-bit integer through `sqlx::QueryBuilder::push_bind`, the value
/// converted by `i16::from`.
/// Claimed: as for a text value, with the integer `value` bound.
#[verifier::external_body]
pub(crate) fn statement_bind_small(statement: &mut Statement, value: u8)
    ensures
        statement_values(*final(statement)) == statement_values(*old(statement)).push(SqlValue::SmallInt(value as int)),
        statement_text(*final(statement)) == statement_text(*old(statement))
            + placeholder(statement_values(*final(statement)).len()),
{
    statement.builder.push_bind(i16::from(value));
}

/// Binds a 32-bit integer through `sqlx::QueryBuilder::push_bind`.
/// Claimed: as for a text value, with the integer `value` bound.
#[verifier::external_body]
pub(crate) fn statement_bind_int(statement: &mut Statement, value: i32)
    ensures
        statement_values(*final(statement)) == statement_values(*old(statement)).push(SqlValue::Integer(value as int)),
        statement_text(*final(statement)) == statement_text(*old(statement))
            + placeholder(statement_values(*final(statement)).len()),
{
    statement.builder.push_bind(value);
}

/// Binds an optional 16-bit integer through `sqlx::QueryBuilder::push_bind`,
/// the value converted by `i16::from`.
/// Claimed: as for a text value, with the integer or `NULL` bound.
#[verifier::external_body]
pub(crate) fn statement_bind_optional_small(statement: &mut Statement, value: Option<u8>)
    ensures
        statement_values(*final(statement)) == statement_values(*old(statement)).push(match value {
            Some(v) => SqlValue::SmallInt(v as int),
            None => SqlValue::NullSmallInt,
        }),
        statement_text(*final(statement)) == statement_text(*old(statement))
            + placeholder(statement_values(*final(statement)).len()),
{
    statement.builder.push_bind(value.map(i16::from));
}

/// The placeholders of a row of `count` values whose first value is the
/// `first`-th bound, separated by ", ".
pub open spec fn row_placeholders(first: nat, count: nat) -> Seq<char>
    decreases count,
{
    if count == 0 {
        Seq::empty()
    } else if count == 1 {
        placeholder(first)
    } else {
        row_placeholders(first, (count - 1) as nat) + seq![',', ' '] + placeholder((first + count - 1) as nat)
    }
}

/// The rows of a multi-row `VALUES` list: `rows` rows of `width` values each,
/// the first opened by "(", the others by ", (", each closed by ") ".
pub open spec fn rows_text(rows: nat, width: nat) -> Seq<char>
    decreases rows,
{
    if rows == 0 {
        Seq::empty()
    } else {
        let r = (rows - 1) as nat;
        rows_text(r, width) + (if r == 0 { seq!['('] } else { seq![',', ' ', '('] })
            + row_placeholders(r * width + 1, width) + seq![')', ' ']
    }
}


/// What opens row `r` of a `VALUES` list: "(" for the first, ", (" after.
pub open spec fn row_open(first_row: bool) -> Seq<char> {
    if first_row { seq!['('] } else { seq![',', ' ', '('] }
}

/// Opens a row of a `VALUES` list.
pub(crate) fn push_row_open(statement: &mut Statement, first_row: bool)
    ensures
        statement_text(*final(statement)) == statement_text(*old(statement)) + row_open(first_row),
        statement_values(*final(statement)) == statement_values(*old(statement)),
{
    proof {
        reveal_strlit("(");
        reveal_strlit(", (");
        assert("("@ =~= seq!['(']);
        assert(", ("@ =~= seq![',', ' ', '(']);
    }
    if first_row {
        statement_push(statement, "(");
    } else {
        statement_push(statement, ", (");
    }
}

/// Puts the separator ", " before the next value of a row.
pub(crate) fn push_separator(statement: &mut Statement)
    ensures
        statement_text(*final(statement)) == statement_text(*old(statement)) + seq![',', ' '],
        statement_values(*final(statement)) == statement_values(*old(statement)),
{
    proof {
        reveal_strlit(", ");
        assert(", "@ =~= seq![',', ' ']);
    }
    statement_push(statement, ", ");
}

/// Closes a row of a `VALUES` list.
pub(crate) fn push_row_close(statement: &mut Statement)
    ensures
        statement_text(*final(statement)) == statement_text(*old(statement)) + seq![')', ' '],
        statement_values(*final(statement)) == statement_values(*old(statement)),
{
    proof {
        reveal_strlit(") ");
        assert(") "@ =~= seq![')', ' ']);
    }
    statement_push(statement, ") ");
}

/// `row_placeholders` grows by one placeholder at a time.
pub proof fn lemma_row_placeholders_step(first: nat, count: nat)
    requires
        count >= 1,
    ensures
        row_placeholders(first, count + 1) == row_placeholders(first, count) + seq![',', ' ']
            + placeholder(first + count),
{
}

/// The values of the `count` records from `start` on, row after row, each
/// record binding `row` of it.
pub open spec fn rows_values<T>(records: Seq<T>, row: spec_fn(T) -> Seq<SqlValue>, start: int, count: nat) -> Seq<SqlValue>
    decreases count,
{
    if count == 0 {
        Seq::empty()
    } else {
        rows_values(records, row, start, (count - 1) as nat) + row(records[start + count - 1])
    }
}

/// The values that the statements of `plan` bind, statement after
/// statement, for its first `k` statements.
pub open spec fn plan_values<T>(records: Seq<T>, row: spec_fn(T) -> Seq<SqlValue>, plan: Seq<(usize, usize)>, k: nat) -> Seq<SqlValue>
    decreases k,
{
    if k == 0 {
        Seq::empty()
    } else {
        let b = plan[k - 1];
        plan_values(records, row, plan, (k - 1) as nat) + rows_values(records, row, b.0 as int, (b.1 - b.0) as nat)
    }
}

/// Rows of `width` values each bind `width` values per record.
pub proof fn lemma_rows_values_len<T>(records: Seq<T>, row: spec_fn(T) -> Seq<SqlValue>, start: int, count: nat, width: nat)
    requires
        forall|r: T| (#[trigger] row(r)).len() == width,
    ensures
        rows_values(records, row, start, count).len() == count * width,
    decreases count,
{
    if count > 0 {
        let c = (count - 1) as nat;
        lemma_rows_values_len(records, row, start, c, width);
        let last = row(records[start + count - 1]);
        assert(last.len() == width);
        assert(rows_values(records, row, start, count).len() == c * width + width);
        assert(c * width + width == count * width) by (nonlinear_arith)
            requires c + 1 == count;
    } else {
        assert(count * width == 0) by (nonlinear_arith)
            requires count == 0;
    }
}

/// In rows of `width` values each, value `c` of row `k` is value `c` of
/// the `k`-th record's row.
pub proof fn lemma_rows_values_index<T>(
    records: Seq<T>,
    row: spec_fn(T) -> Seq<SqlValue>,
    start: int,
    count: nat,
    width: nat,
    k: int,
    c: int,
)
    requires
        forall|r: T| (#[trigger] row(r)).len() == width,
        0 <= k < count,
        0 <= c < width,
    ensures
        rows_values(records, row, start, count)[width * k + c] == row(records[start + k])[c],
    decreases count,
{
    let m = (count - 1) as nat;
    lemma_rows_values_len(records, row, start, m, width);
    let prefix = rows_values(records, row, start, m);
    let last = row(records[start + m]);
    assert(last.len() == width);
    assert(rows_values(records, row, start, count) == prefix + last);
    if k == m {
        assert(width * k == m * width) by (nonlinear_arith)
            requires k == m;
    } else {
        lemma_rows_values_index(records, row, start, m, width, k, c);
        assert(width * k + c < m * width) by (nonlinear_arith)
            requires 0 <= k < m, 0 <= c < width;
    }
}

proof fn lemma_rows_split<T>(records: Seq<T>, row: spec_fn(T) -> Seq<SqlValue>, start: int, a: nat, b: nat)
    ensures
        rows_values(records, row, start, a + b)
            == rows_values(records, row, start, a) + rows_values(records, row, start + a, b),
    decreases b,
{
    if b == 0 {
        assert(rows_values(records, row, start, a) + Seq::<SqlValue>::empty() =~= rows_values(records, row, start, a));
    } else {
        lemma_rows_split(records, row, start, a, (b - 1) as nat);
        assert(rows_values(records, row, start, a + b) =~= rows_values(records, row, start, a)
            + rows_values(records, row, start + a, b));
    }
}

proof fn lemma_plan_prefix<T>(plan: Seq<(usize, usize)>, records: Seq<T>, row: spec_fn(T) -> Seq<SqlValue>, k: nat)
    requires
        k <= plan.len(),
        plan.len() > 0 ==> plan[0].0 == 0,
        forall|i: int| 0 <= i < plan.len() - 1 ==> #[trigger] plan[i].1 == plan[i + 1].0,
        forall|i: int| 0 <= i < plan.len() ==> 0 < (#[trigger] plan[i]).1 - plan[i].0,
    ensures
        plan_values(records, row, plan, k)
            == rows_values(records, row, 0, (if k == 0 { 0 } else { plan[k - 1].1 as int }) as nat),
    decreases k,
{
    if k > 0 {
        lemma_plan_prefix(plan, records, row, (k - 1) as nat);
        let done: nat = (if k == 1 { 0 } else { plan[k - 2].1 as int }) as nat;
        assert(plan[k - 1].0 == done);
        assert(0 < plan[k - 1].1 - plan[k - 1].0);
        lemma_rows_split(records, row, 0, done, (plan[k - 1].1 - plan[k - 1].0) as nat);
    }
}

/// The statements of a batch plan, run one after the other, bind the values
/// of every record once, in the records' order.
pub proof fn lemma_plan_binds_every_row<T>(plan: Seq<(usize, usize)>, records: Seq<T>, row: spec_fn(T) -> Seq<SqlValue>, size: nat)
    requires
        size > 0,
        is_batch_plan(plan, records.len(), size),
    ensures
        plan_values(records, row, plan, plan.len()) == rows_values(records, row, 0, records.len()),
{
    lemma_batch_plan_partitions(plan, records.len(), size);
    lemma_plan_prefix(plan, records, row, plan.len());
}

} // verus!
