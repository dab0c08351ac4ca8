use vstd::prelude::*;
use crate::db::accounts::ClusterHistoryAccount;
use crate::db::statement::{
    lemma_row_placeholders_step, push_separator, row_placeholders, statement_bind_int,
    statement_bind_numeric, statement_bind_small, statement_new, statement_push, statement_text,
    statement_values, SqlValue, Statement,
};

verus! {

/// The row of the `cluster_histories` table.
#[derive(Clone, Copy, Debug, PartialEq, Eq)]
pub struct ClusterHistory {
    pub struct_version: u64,
    pub bump: u8,
    pub cluster_history_last_update_slot: u64,
}

impl From<ClusterHistoryAccount> for ClusterHistory {
    fn from(value: ClusterHistoryAccount) -> (r: Self) {
        ClusterHistory {
            struct_version: value.struct_version,
            bump: value.bump,
            cluster_history_last_update_slot: value.cluster_history_last_update_slot,
        }
    }
}

impl vstd::std_specs::convert::FromSpecImpl<ClusterHistoryAccount> for ClusterHistory {
    open spec fn obeys_from_spec() -> bool {
        true
    }

    open spec fn from_spec(value: ClusterHistoryAccount) -> Self {
        ClusterHistory {
            struct_version: value.struct_version,
            bump: value.bump,
            cluster_history_last_update_slot: value.cluster_history_last_update_slot,
        }
    }
}

impl ClusterHistory {
    /// Key of the one row of the `cluster_histories` table.
    pub const ROW_ID: i32 = 1;

    /// The upsert statement up to its values.
    pub const UPSERT_HEAD: &'static str = "\n    INSERT INTO cluster_histories (id,struct_version,bump,cluster_history_last_update_slot) VALUES (";

    /// The upsert statement after its values: a stored row takes the new values.
    pub const UPSERT_TAIL: &'static str = ") ON CONFLICT (id) DO UPDATE SET struct_version = EXCLUDED.struct_version,\n    bump = EXCLUDED.bump,\n    cluster_history_last_update_slot = EXCLUDED.cluster_history_last_update_slot\n    ";

    /// The statement that stores `record` as the one row of the table, in
    /// place of the row stored before if there is one.
    pub fn upsert_statement(record: &Self) -> (statement: Statement)
        ensures
            statement_text(statement) == ClusterHistory::UPSERT_HEAD@ + row_placeholders(1, 4)
                + ClusterHistory::UPSERT_TAIL@,
            statement_values(statement) == cluster_history_values(*record),
            statement_values(statement).len() == 4,
            statement_values(statement)[0] == SqlValue::Integer(1),
            statement_values(statement)[1] == SqlValue::Numeric(record.struct_version as int),
            statement_values(statement)[2] == SqlValue::SmallInt(record.bump as int),
            statement_values(statement)[3] == SqlValue::Numeric(record.cluster_history_last_update_slot as int),
    {
        let mut statement = statement_new(Self::UPSERT_HEAD);
        let ghost t0 = statement_text(statement);
        statement_bind_int(&mut statement, Self::ROW_ID);
        assert(statement_text(statement) == t0 + row_placeholders(1, 1));
        push_separator(&mut statement);
        statement_bind_numeric(&mut statement, record.struct_version);
        proof { lemma_row_placeholders_step(1, 1); }
        assert(statement_text(statement) =~= t0 + row_placeholders(1, 2));
        push_separator(&mut statement);
        statement_bind_small(&mut statement, record.bump);
        proof { lemma_row_placeholders_step(1, 2); }
        assert(statement_text(statement) =~= t0 + row_placeholders(1, 3));
        push_separator(&mut statement);
        statement_bind_numeric(&mut statement, record.cluster_history_last_update_slot);
        proof { lemma_row_placeholders_step(1, 3); }
        assert(statement_text(statement) =~= t0 + row_placeholders(1, 4));
        statement_push(&mut statement, Self::UPSERT_TAIL);
        assert(statement_values(statement) =~= cluster_history_values(*record));
        proof {
            lemma_upsert_columns(*record);
        }
        statement
    }
}

/// The values that the upsert binds, in column order: the row's key, then
/// the record's values.
pub open spec fn cluster_history_values(r: ClusterHistory) -> Seq<SqlValue> {
    seq![
        SqlValue::Integer(ClusterHistory::ROW_ID as int),
        SqlValue::Numeric(r.struct_version as int),
        SqlValue::SmallInt(r.bump as int),
        SqlValue::Numeric(r.cluster_history_last_update_slot as int),
    ]
}

/// The upsert fills the columns that `UPSERT_HEAD` names with what they
/// name: the key 1, then the record's struct version, bump and last update
/// slot, in that order.
pub proof fn lemma_upsert_columns(r: ClusterHistory)
    ensures
        cluster_history_values(r).len() == 4,
        cluster_history_values(r)[0] == SqlValue::Integer(1),
        cluster_history_values(r)[1] == SqlValue::Numeric(r.struct_version as int),
        cluster_history_values(r)[2] == SqlValue::SmallInt(r.bump as int),
        cluster_history_values(r)[3] == SqlValue::Numeric(r.cluster_history_last_update_slot as int),
{
}

} // verus!
