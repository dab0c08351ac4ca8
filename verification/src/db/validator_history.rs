use vstd::prelude::*;
use crate::db::accounts::ValidatorHistoryAccount;
use crate::db::batching::{batch_ranges, is_batch_plan, lemma_batch_plan_partitions, POSTGRES_BIND_LIMIT};
use crate::db::statement::{
    lemma_row_placeholders_step, max_value_bytes, push_row_close, push_row_open, push_separator,
    row_open, row_placeholders, rows_text, statement_bind_numeric, statement_bind_small,
    statement_bind_text, statement_new, statement_push, statement_text, statement_values, SqlValue,
    Statement, rows_values, plan_values, lemma_rows_values_len, lemma_rows_values_index, lemma_plan_binds_every_row,
};
use vstd::utf8::encode_utf8;
use crate::pubkey::{address_from_base58, base58_of_address};

verus! {

/// The row of the `validator_histories` table.
#[derive(Debug)]
pub struct ValidatorHistory {
    pub struct_version: u32,
    pub vote_account: String,
    pub index: u32,
    pub bump: u8,
    pub last_ip_timestamp: u64,
    pub last_version_timestamp: u64,
}

impl ValidatorHistory {
    /// Number of columns that one row binds.
    pub const NUM_FIELDS: u8 = 6;

    /// Rows per insert statement: as many as the bind limit allows.
    pub const INSERT_CHUNK_SIZE: usize = 10922;

    /// The head of the insert statement; the rows follow it.
    pub const INSERT_QUERY: &'static str = "INSERT INTO validator_histories (vote_account,struct_version,index,bump,last_ip_timestamp,last_version_timestamp) VALUES ";

    /// The row of a validator-history account: its header values, with the
    /// vote account in base58, which reads back as the same address.
    pub fn from(value: ValidatorHistoryAccount) -> (row: Self)
        ensures
            row.struct_version == value.struct_version,
            row.vote_account@ == base58_of_address(value.vote_account.bytes@),
            address_from_base58(row.vote_account@) == Some(value.vote_account.bytes@),
            row.index == value.index,
            row.bump == value.bump,
            row.last_ip_timestamp == value.last_ip_timestamp,
            row.last_version_timestamp == value.last_version_timestamp,
    {
        ValidatorHistory {
            struct_version: value.struct_version,
            vote_account: value.vote_account.to_string(),
            index: value.index,
            bump: value.bump,
            last_ip_timestamp: value.last_ip_timestamp,
            last_version_timestamp: value.last_version_timestamp,
        }
    }

    /// The statements that insert `records`, as ranges of records: each
    /// statement carries `ValidatorHistory::INSERT_CHUNK_SIZE` rows, the last
    /// one what remains; no statement where there is no record.
    pub fn insert_batches(records: &Vec<Self>) -> (plan: Vec<(usize, usize)>)
        ensures
            is_batch_plan(plan@, records.len() as nat, ValidatorHistory::INSERT_CHUNK_SIZE as nat),
    {
        batch_ranges(records.len(), Self::INSERT_CHUNK_SIZE)
    }

    /// Appends the row of `record`, the `row`-th of the statement.
    fn push_row(statement: &mut Statement, record: &Self, row: usize)
        requires
            history_row_fits(*record),
        ensures
            statement_text(*final(statement)) == statement_text(*old(statement)) + row_open(row == 0)
                + row_placeholders((statement_values(*old(statement)).len() + 1) as nat, 6) + seq![')', ' '],
            statement_values(*final(statement)) == statement_values(*old(statement)) + history_row_values(*record),
    {
        let ghost t0 = statement_text(*statement);
        let ghost v0 = statement_values(*statement);
        let ghost f = (v0.len() + 1) as nat;
        push_row_open(statement, row == 0);
        let ghost t1 = statement_text(*statement);
        statement_bind_text(statement, record.vote_account.clone());
        assert(statement_text(*statement) == t1 + row_placeholders(f, 1));
        push_separator(statement);
        statement_bind_numeric(statement, record.struct_version as u64);
        proof { lemma_row_placeholders_step(f, 1); }
        assert(statement_text(*statement) =~= t1 + row_placeholders(f, 2));
        push_separator(statement);
        statement_bind_numeric(statement, record.index as u64);
        proof { lemma_row_placeholders_step(f, 2); }
        assert(statement_text(*statement) =~= t1 + row_placeholders(f, 3));
        push_separator(statement);
        statement_bind_small(statement, record.bump);
        proof { lemma_row_placeholders_step(f, 3); }
        assert(statement_text(*statement) =~= t1 + row_placeholders(f, 4));
        push_separator(statement);
        statement_bind_numeric(statement, record.last_ip_timestamp);
        proof { lemma_row_placeholders_step(f, 4); }
        assert(statement_text(*statement) =~= t1 + row_placeholders(f, 5));
        push_separator(statement);
        statement_bind_numeric(statement, record.last_version_timestamp);
        proof { lemma_row_placeholders_step(f, 5); }
        assert(statement_text(*statement) =~= t1 + row_placeholders(f, 6));
        push_row_close(statement);
        assert(statement_values(*statement) =~= v0 + history_row_values(*record));
        assert(statement_text(*statement) =~= t0 + row_open(row == 0) + row_placeholders(f, 6) + seq![')', ' ']);
    }

    /// The statement that inserts the records `[start, end)`, one row each in
    /// order, rows whose vote account is already stored left as they are.
    pub fn insert_statement(records: &Vec<Self>, start: usize, end: usize) -> (statement: Statement)
        requires
            start <= end <= records.len(),
            forall|i: int| start <= i < end ==> history_row_fits(#[trigger] records@[i]),
        ensures
            statement_text(statement) == ValidatorHistory::INSERT_QUERY@ + rows_text((end - start) as nat, 6)
                + history_conflict_clause(),
            statement_values(statement) == history_rows_values(records@, start as int, (end - start) as nat),
            statement_values(statement).len() == (end - start) * 6,
            forall|j: int| #![trigger records@[j]] start <= j < end ==> {
                let v = statement_values(statement);
                let b = 6 * (j - start);
                v[b] == SqlValue::Text(records@[j].vote_account@)
                && v[b + 1] == SqlValue::Numeric(records@[j].struct_version as int)
                && v[b + 2] == SqlValue::Numeric(records@[j].index as int)
                && v[b + 3] == SqlValue::SmallInt(records@[j].bump as int)
                && v[b + 4] == SqlValue::Numeric(records@[j].last_ip_timestamp as int)
                && v[b + 5] == SqlValue::Numeric(records@[j].last_version_timestamp as int)
            },
    {
        let mut statement = statement_new(Self::INSERT_QUERY);
        let mut i: usize = start;
        while i < end
            invariant
                start <= i <= end <= records.len(),
                forall|j: int| start <= j < end ==> history_row_fits(#[trigger] records@[j]),
                statement_text(statement) == ValidatorHistory::INSERT_QUERY@ + rows_text((i - start) as nat, 6),
                statement_values(statement) == history_rows_values(records@, start as int, (i - start) as nat),
                statement_values(statement).len() == (i - start) * 6,
            decreases end - i,
        {
            let ghost k = (i - start) as nat;
            Self::push_row(&mut statement, &records[i], i - start);
            assert(statement_text(statement) =~= ValidatorHistory::INSERT_QUERY@ + rows_text(k + 1, 6));
            assert(statement_values(statement) =~= history_rows_values(records@, start as int, k + 1));
            i = i + 1;
        }
        statement_push(&mut statement, " ON CONFLICT (vote_account) DO NOTHING");
        proof {
            lemma_history_rows_columns(records@, start as int, (end - start) as nat);
        }
        statement
    }
}

/// The values that one validator-history row binds, in column order.
pub open spec fn history_row_values(r: ValidatorHistory) -> Seq<SqlValue> {
    seq![
        SqlValue::Text(r.vote_account@),
        SqlValue::Numeric(r.struct_version as int),
        SqlValue::Numeric(r.index as int),
        SqlValue::SmallInt(r.bump as int),
        SqlValue::Numeric(r.last_ip_timestamp as int),
        SqlValue::Numeric(r.last_version_timestamp as int),
    ]
}

/// What one record binds, as a function.
pub open spec fn history_row_fn() -> spec_fn(ValidatorHistory) -> Seq<SqlValue> {
    |r: ValidatorHistory| history_row_values(r)
}

/// The values of the `count` rows from `start` on, row after row.
pub open spec fn history_rows_values(records: Seq<ValidatorHistory>, start: int, count: nat) -> Seq<SqlValue> {
    rows_values(records, history_row_fn(), start, count)
}

/// The text of the row fits the wire protocol.
pub open spec fn history_row_fits(r: ValidatorHistory) -> bool {
    encode_utf8(r.vote_account@).len() <= max_value_bytes()
}

/// What ends a validator-history insert: vote accounts already stored are kept.
pub open spec fn history_conflict_clause() -> Seq<char> {
    " ON CONFLICT (vote_account) DO NOTHING"@
}

/// The values of a validator-history insert fill the columns that
/// `INSERT_QUERY` names, row after row: six values per record, and in the
/// row of record `j` its vote account, struct version, index, bump, last IP
/// timestamp and last version timestamp, in that order.
pub proof fn lemma_history_rows_columns(records: Seq<ValidatorHistory>, start: int, count: nat)
    ensures
        history_rows_values(records, start, count).len() == count * 6,
        forall|j: int| #![trigger records[j]] start <= j < start + count ==> {
            let v = history_rows_values(records, start, count);
            let b = 6 * (j - start);
            v[b] == SqlValue::Text(records[j].vote_account@)
            && v[b + 1] == SqlValue::Numeric(records[j].struct_version as int)
            && v[b + 2] == SqlValue::Numeric(records[j].index as int)
            && v[b + 3] == SqlValue::SmallInt(records[j].bump as int)
            && v[b + 4] == SqlValue::Numeric(records[j].last_ip_timestamp as int)
            && v[b + 5] == SqlValue::Numeric(records[j].last_version_timestamp as int)
        },
{
    assert forall|r: ValidatorHistory| (#[trigger] history_row_fn()(r)).len() == 6 by {}
    lemma_rows_values_len(records, history_row_fn(), start, count, 6);
    assert forall|j: int| #![trigger records[j]] start <= j < start + count implies {
        let v = history_rows_values(records, start, count);
        let b = 6 * (j - start);
        v[b] == SqlValue::Text(records[j].vote_account@)
        && v[b + 1] == SqlValue::Numeric(records[j].struct_version as int)
        && v[b + 2] == SqlValue::Numeric(records[j].index as int)
        && v[b + 3] == SqlValue::SmallInt(records[j].bump as int)
        && v[b + 4] == SqlValue::Numeric(records[j].last_ip_timestamp as int)
        && v[b + 5] == SqlValue::Numeric(records[j].last_version_timestamp as int)
    } by {
        let k = j - start;
        lemma_rows_values_index(records, history_row_fn(), start, count, 6, k, 0);
        lemma_rows_values_index(records, history_row_fn(), start, count, 6, k, 1);
        lemma_rows_values_index(records, history_row_fn(), start, count, 6, k, 2);
        lemma_rows_values_index(records, history_row_fn(), start, count, 6, k, 3);
        lemma_rows_values_index(records, history_row_fn(), start, count, 6, k, 4);
        lemma_rows_values_index(records, history_row_fn(), start, count, 6, k, 5);
    }
}

/// One validator-history statement stays within the Postgres bind limit, and
/// holds as many rows as it can.
pub proof fn lemma_validator_history_chunk_fits()
    ensures
        ValidatorHistory::INSERT_CHUNK_SIZE * ValidatorHistory::NUM_FIELDS <= POSTGRES_BIND_LIMIT,
        ValidatorHistory::INSERT_CHUNK_SIZE == POSTGRES_BIND_LIMIT as int / ValidatorHistory::NUM_FIELDS as int,
{
}



/// Every statement of an insert plan binds six values per row and stays
/// within the Postgres bind limit.
pub proof fn lemma_history_statement_within_bind_limit(
    plan: Seq<(usize, usize)>,
    records: Seq<ValidatorHistory>,
    i: int,
)
    requires
        is_batch_plan(plan, records.len(), ValidatorHistory::INSERT_CHUNK_SIZE as nat),
        0 <= i < plan.len(),
    ensures
        history_rows_values(records, plan[i].0 as int, (plan[i].1 - plan[i].0) as nat).len()
            == (plan[i].1 - plan[i].0) * 6,
        history_rows_values(records, plan[i].0 as int, (plan[i].1 - plan[i].0) as nat).len()
            <= POSTGRES_BIND_LIMIT,
{
    lemma_batch_plan_partitions(plan, records.len(), ValidatorHistory::INSERT_CHUNK_SIZE as nat);
    assert forall|r: ValidatorHistory| (#[trigger] history_row_fn()(r)).len() == 6 by {}
    lemma_rows_values_len(records, history_row_fn(), plan[i].0 as int, (plan[i].1 - plan[i].0) as nat, 6);
}

/// The values that the statements of `plan` bind, statement after
/// statement, for its first `k` statements.
pub open spec fn history_plan_values(records: Seq<ValidatorHistory>, plan: Seq<(usize, usize)>, k: nat) -> Seq<SqlValue> {
    plan_values(records, history_row_fn(), plan, k)
}

/// The statements of an insert plan, run one after the other, bind the
/// values of every record once, in the records' order: a bulk insert
/// inserts each record, none twice and none left out.
pub proof fn lemma_history_plan_inserts_every_row(plan: Seq<(usize, usize)>, records: Seq<ValidatorHistory>)
    requires
        is_batch_plan(plan, records.len(), ValidatorHistory::INSERT_CHUNK_SIZE as nat),
    ensures
        history_plan_values(records, plan, plan.len()) == history_rows_values(records, 0, records.len()),
{
    lemma_plan_binds_every_row(plan, records, history_row_fn(), ValidatorHistory::INSERT_CHUNK_SIZE as nat);
}

} // verus!
