use vstd::prelude::*;
use crate::db::batching::{batch_ranges, is_batch_plan, lemma_batch_plan_partitions, POSTGRES_BIND_LIMIT};
use crate::db::statement::{
    lemma_row_placeholders_step, max_value_bytes, placeholder, push_row_close, push_row_open,
    push_separator, row_open, row_placeholders, rows_text, statement_bind_numeric,
    statement_bind_optional_small, statement_bind_text, statement_new, statement_push,
    statement_text, statement_values, SqlValue, Statement, rows_values, plan_values,
    lemma_rows_values_len, lemma_rows_values_index, lemma_plan_binds_every_row,
};
use vstd::utf8::encode_utf8;
use crate::pubkey::{address_from_base58, base58_of_address, is_base58_char, Pubkey};
use crate::text::{decimal, lemma_decimal_digits, lemma_decimal_injective, push_char, push_decimal};

verus! {

/// The inflation reward that the RPC node reports for one stake account and epoch.
#[derive(Clone, Copy, Debug, PartialEq, Eq)]
pub struct RpcInflationReward {
    pub epoch: u64,
    pub effective_slot: u64,
    pub amount: u64,
    pub post_balance: u64,
    pub commission: Option<u8>,
}

/// The row of the `inflation_rewards` table.
#[derive(Debug)]
pub struct InflationReward {
    pub id: String,
    pub stake_account: String,
    pub epoch: u64,
    pub effective_slot: u64,
    pub amount: u64,
    pub post_balance: u64,
    pub commission: Option<u8>,
}

/// The key of a reward row: the epoch in decimal, a dash, and the stake account in base58.
pub open spec fn reward_id(epoch: u64, stake_account: Pubkey) -> Seq<char> {
    decimal(epoch as nat) + seq!['-'] + base58_of_address(stake_account.bytes@)
}

/// `row` is the record of `reward` earned by `stake_account`; its account
/// text, made of base58 characters, reads back as the account.
pub open spec fn is_reward_row(row: InflationReward, reward: RpcInflationReward, stake_account: Pubkey) -> bool {
    &&& row.id@ == reward_id(reward.epoch, stake_account)
    &&& row.stake_account@ == base58_of_address(stake_account.bytes@)
    &&& address_from_base58(row.stake_account@) == Some(stake_account.bytes@)
    &&& forall|i: int| 0 <= i < row.stake_account@.len() ==> is_base58_char(#[trigger] row.stake_account@[i])
    &&& row.epoch == reward.epoch
    &&& row.effective_slot == reward.effective_slot
    &&& row.amount == reward.amount
    &&& row.post_balance == reward.post_balance
    &&& row.commission == reward.commission
}

impl InflationReward {
    /// Number of columns that one row binds.
    pub const NUM_FIELDS: u8 = 7;

    /// Rows per insert statement: as many as the bind limit allows.
    pub const INSERT_CHUNK_SIZE: usize = 9362;

    /// The head of the insert statement; the rows follow it.
    pub const INSERT_QUERY: &'static str = "INSERT INTO inflation_rewards (id, stake_account,epoch,effective_slot,amount,post_balance,commission) VALUES ";

    /// The row for the reward that `stake_account` earned.
    pub fn from_rpc_inflation_reward(rpc_inflation_reward: RpcInflationReward, stake_account: &Pubkey) -> (row: Self)
        ensures
            is_reward_row(row, rpc_inflation_reward, *stake_account),
            row.id@ == decimal(rpc_inflation_reward.epoch as nat) + seq!['-'] + base58_of_address(stake_account.bytes@),
            row.stake_account@ == base58_of_address(stake_account.bytes@),
            row.epoch == rpc_inflation_reward.epoch,
            row.effective_slot == rpc_inflation_reward.effective_slot,
            row.amount == rpc_inflation_reward.amount,
            row.post_balance == rpc_inflation_reward.post_balance,
            row.commission == rpc_inflation_reward.commission,
    {
        let account_text = stake_account.to_string();
        let mut id = String::new();
        push_decimal(&mut id, rpc_inflation_reward.epoch);
        push_char(&mut id, '-');
        id.append(account_text.as_str());
        assert(id@ =~= reward_id(rpc_inflation_reward.epoch, *stake_account));
        InflationReward {
            id,
            stake_account: account_text,
            epoch: rpc_inflation_reward.epoch,
            effective_slot: rpc_inflation_reward.effective_slot,
            amount: rpc_inflation_reward.amount,
            post_balance: rpc_inflation_reward.post_balance,
            commission: rpc_inflation_reward.commission,
        }
    }

    /// The statements that insert `records`, as ranges of records: each
    /// statement carries `InflationReward::INSERT_CHUNK_SIZE` rows, the last
    /// one what remains; no statement where there is no record.
    pub fn insert_batches(records: &Vec<Self>) -> (plan: Vec<(usize, usize)>)
        ensures
            is_batch_plan(plan@, records.len() as nat, InflationReward::INSERT_CHUNK_SIZE as nat),
    {
        batch_ranges(records.len(), Self::INSERT_CHUNK_SIZE)
    }
}

/// One reward statement stays within the Postgres bind limit, and holds as
/// many rows as it can.
pub proof fn lemma_inflation_reward_chunk_fits()
    ensures
        InflationReward::INSERT_CHUNK_SIZE * InflationReward::NUM_FIELDS <= POSTGRES_BIND_LIMIT,
        InflationReward::INSERT_CHUNK_SIZE == POSTGRES_BIND_LIMIT as int / InflationReward::NUM_FIELDS as int,
{
}


/// The values that one reward row binds, in column order.
pub open spec fn reward_row_values(r: InflationReward) -> Seq<SqlValue> {
    seq![
        SqlValue::Text(r.id@),
        SqlValue::Text(r.stake_account@),
        SqlValue::Numeric(r.epoch as int),
        SqlValue::Numeric(r.effective_slot as int),
        SqlValue::Numeric(r.amount as int),
        SqlValue::Numeric(r.post_balance as int),
        match r.commission {
            Some(c) => SqlValue::SmallInt(c as int),
            None => SqlValue::NullSmallInt,
        },
    ]
}

/// What one record binds, as a function.
pub open spec fn reward_row_fn() -> spec_fn(InflationReward) -> Seq<SqlValue> {
    |r: InflationReward| reward_row_values(r)
}

/// The values of the `count` rows from `start` on, row after row.
pub open spec fn reward_rows_values(records: Seq<InflationReward>, start: int, count: nat) -> Seq<SqlValue> {
    rows_values(records, reward_row_fn(), start, count)
}

/// The texts of the row fit the wire protocol.
pub open spec fn reward_row_fits(r: InflationReward) -> bool {
    encode_utf8(r.id@).len() <= max_value_bytes() && encode_utf8(r.stake_account@).len() <= max_value_bytes()
}

/// What ends a reward insert: rows already stored are kept.
pub open spec fn reward_conflict_clause() -> Seq<char> {
    " ON CONFLICT (id) DO NOTHING"@
}

impl InflationReward {
    /// Appends the row of `record`, the `row`-th of the statement.
    #[verifier::spinoff_prover]
    #[verifier::rlimit(40)]
    fn push_row(statement: &mut Statement, record: &Self, row: usize)
        requires
            reward_row_fits(*record),
        ensures
            statement_text(*final(statement)) == statement_text(*old(statement)) + row_open(row == 0)
                + row_placeholders((statement_values(*old(statement)).len() + 1) as nat, 7) + seq![')', ' '],
            statement_values(*final(statement)) == statement_values(*old(statement)) + reward_row_values(*record),
    {
        let ghost t0 = statement_text(*statement);
        let ghost v0 = statement_values(*statement);
        let ghost f = (v0.len() + 1) as nat;
        push_row_open(statement, row == 0);
        let ghost t1 = statement_text(*statement);
        statement_bind_text(statement, record.id.clone());
        assert(statement_text(*statement) == t1 + row_placeholders(f, 1));
        push_separator(statement);
        statement_bind_text(statement, record.stake_account.clone());
        proof { lemma_row_placeholders_step(f, 1); }
        assert(statement_text(*statement) =~= t1 + row_placeholders(f, 2));
        push_separator(statement);
        statement_bind_numeric(statement, record.epoch);
        proof { lemma_row_placeholders_step(f, 2); }
        assert(statement_text(*statement) =~= t1 + row_placeholders(f, 3));
        push_separator(statement);
        statement_bind_numeric(statement, record.effective_slot);
        proof { lemma_row_placeholders_step(f, 3); }
        assert(statement_text(*statement) =~= t1 + row_placeholders(f, 4));
        push_separator(statement);
        statement_bind_numeric(statement, record.amount);
        proof { lemma_row_placeholders_step(f, 4); }
        assert(statement_text(*statement) =~= t1 + row_placeholders(f, 5));
        push_separator(statement);
        statement_bind_numeric(statement, record.post_balance);
        proof { lemma_row_placeholders_step(f, 5); }
        assert(statement_text(*statement) =~= t1 + row_placeholders(f, 6));
        push_separator(statement);
        statement_bind_optional_small(statement, record.commission);
        proof { lemma_row_placeholders_step(f, 6); }
        assert(statement_text(*statement) =~= t1 + row_placeholders(f, 7));
        push_row_close(statement);
        assert(statement_values(*statement) =~= v0 + reward_row_values(*record));
        assert(statement_text(*statement) =~= t0 + row_open(row == 0) + row_placeholders(f, 7) + seq![')', ' ']);
    }

    /// The statement that inserts the records `[start, end)`, one row each in
    /// order, rows whose id is already stored left as they are.
    pub fn insert_statement(records: &Vec<Self>, start: usize, end: usize) -> (statement: Statement)
        requires
            start <= end <= records.len(),
            forall|i: int| start <= i < end ==> reward_row_fits(#[trigger] records@[i]),
        ensures
            statement_text(statement) == InflationReward::INSERT_QUERY@ + rows_text((end - start) as nat, 7)
                + reward_conflict_clause(),
            statement_values(statement) == reward_rows_values(records@, start as int, (end - start) as nat),
            statement_values(statement).len() == (end - start) * 7,
            forall|j: int| #![trigger records@[j]] start <= j < end ==> {
                let v = statement_values(statement);
                let b = 7 * (j - start);
                v[b] == SqlValue::Text(records@[j].id@)
                && v[b + 1] == SqlValue::Text(records@[j].stake_account@)
                && v[b + 2] == SqlValue::Numeric(records@[j].epoch as int)
                && v[b + 3] == SqlValue::Numeric(records@[j].effective_slot as int)
                && v[b + 4] == SqlValue::Numeric(records@[j].amount as int)
                && v[b + 5] == SqlValue::Numeric(records@[j].post_balance as int)
                && v[b + 6] == (match records@[j].commission {
                    Some(c) => SqlValue::SmallInt(c as int),
                    None => SqlValue::NullSmallInt,
                })
            },
    {
        let mut statement = statement_new(Self::INSERT_QUERY);
        let mut i: usize = start;
        while i < end
            invariant
                start <= i <= end <= records.len(),
                forall|j: int| start <= j < end ==> reward_row_fits(#[trigger] records@[j]),
                statement_text(statement) == InflationReward::INSERT_QUERY@ + rows_text((i - start) as nat, 7),
                statement_values(statement) == reward_rows_values(records@, start as int, (i - start) as nat),
                statement_values(statement).len() == (i - start) * 7,
            decreases end - i,
        {
            let ghost k = (i - start) as nat;
            Self::push_row(&mut statement, &records[i], i - start);
            assert(statement_text(statement) =~= InflationReward::INSERT_QUERY@ + rows_text(k + 1, 7));
            assert(statement_values(statement) =~= reward_rows_values(records@, start as int, k + 1));
            i = i + 1;
        }
        statement_push(&mut statement, " ON CONFLICT (id) DO NOTHING");
        proof {
            lemma_reward_rows_columns(records@, start as int, (end - start) as nat);
        }
        statement
    }
}


/// The key of a reward row tells its epoch and its stake account apart:
/// rows with the same key are for the same epoch and the same account text.
pub proof fn lemma_reward_id_identifies(e1: u64, k1: Pubkey, e2: u64, k2: Pubkey)
    requires
        reward_id(e1, k1) == reward_id(e2, k2),
        forall|i: int| 0 <= i < base58_of_address(k1.bytes@).len()
            ==> is_base58_char(#[trigger] base58_of_address(k1.bytes@)[i]),
        forall|i: int| 0 <= i < base58_of_address(k2.bytes@).len()
            ==> is_base58_char(#[trigger] base58_of_address(k2.bytes@)[i]),
    ensures
        e1 == e2,
        base58_of_address(k1.bytes@) == base58_of_address(k2.bytes@),
{
    let d1 = decimal(e1 as nat);
    let d2 = decimal(e2 as nat);
    let t1 = base58_of_address(k1.bytes@);
    let t2 = base58_of_address(k2.bytes@);
    let s = reward_id(e1, k1);
    lemma_decimal_digits(e1 as nat);
    lemma_decimal_digits(e2 as nat);
    assert(s == d1 + seq!['-'] + t1);
    assert(s == d2 + seq!['-'] + t2);
    // The dash after the numeral is the first one of the key.
    if d1.len() < d2.len() {
        assert(s[d1.len() as int] == '-');
        assert(s[d1.len() as int] == d2[d1.len() as int]);
        assert(false);
    } else if d2.len() < d1.len() {
        assert(s[d2.len() as int] == '-');
        assert(s[d2.len() as int] == d1[d2.len() as int]);
        assert(false);
    }
    assert(d1 =~= s.subrange(0, d1.len() as int));
    assert(d2 =~= s.subrange(0, d2.len() as int));
    lemma_decimal_injective(e1 as nat, e2 as nat);
    assert(t1 =~= s.subrange(d1.len() as int + 1, s.len() as int));
    assert(t2 =~= s.subrange(d2.len() as int + 1, s.len() as int));
}

/// The values of a reward insert fill the columns that `INSERT_QUERY`
/// names, row after row: seven values per record, and in the row of record
/// `j` its id, stake account, epoch, effective slot, amount, post balance
/// and commission (`NULL` where there is none), in that order.
pub proof fn lemma_reward_rows_columns(records: Seq<InflationReward>, start: int, count: nat)
    ensures
        reward_rows_values(records, start, count).len() == count * 7,
        forall|j: int| #![trigger records[j]] start <= j < start + count ==> {
            let v = reward_rows_values(records, start, count);
            let b = 7 * (j - start);
            v[b] == SqlValue::Text(records[j].id@)
            && v[b + 1] == SqlValue::Text(records[j].stake_account@)
            && v[b + 2] == SqlValue::Numeric(records[j].epoch as int)
            && v[b + 3] == SqlValue::Numeric(records[j].effective_slot as int)
            && v[b + 4] == SqlValue::Numeric(records[j].amount as int)
            && v[b + 5] == SqlValue::Numeric(records[j].post_balance as int)
            && v[b + 6] == (match records[j].commission {
                Some(c) => SqlValue::SmallInt(c as int),
                None => SqlValue::NullSmallInt,
            })
        },
{
    assert forall|r: InflationReward| (#[trigger] reward_row_fn()(r)).len() == 7 by {}
    lemma_rows_values_len(records, reward_row_fn(), start, count, 7);
    assert forall|j: int| #![trigger records[j]] start <= j < start + count implies {
        let v = reward_rows_values(records, start, count);
        let b = 7 * (j - start);
        v[b] == SqlValue::Text(records[j].id@)
        && v[b + 1] == SqlValue::Text(records[j].stake_account@)
        && v[b + 2] == SqlValue::Numeric(records[j].epoch as int)
        && v[b + 3] == SqlValue::Numeric(records[j].effective_slot as int)
        && v[b + 4] == SqlValue::Numeric(records[j].amount as int)
        && v[b + 5] == SqlValue::Numeric(records[j].post_balance as int)
        && v[b + 6] == (match records[j].commission {
            Some(c) => SqlValue::SmallInt(c as int),
            None => SqlValue::NullSmallInt,
        })
    } by {
        let k = j - start;
        lemma_rows_values_index(records, reward_row_fn(), start, count, 7, k, 0);
        lemma_rows_values_index(records, reward_row_fn(), start, count, 7, k, 1);
        lemma_rows_values_index(records, reward_row_fn(), start, count, 7, k, 2);
        lemma_rows_values_index(records, reward_row_fn(), start, count, 7, k, 3);
        lemma_rows_values_index(records, reward_row_fn(), start, count, 7, k, 4);
        lemma_rows_values_index(records, reward_row_fn(), start, count, 7, k, 5);
        lemma_rows_values_index(records, reward_row_fn(), start, count, 7, k, 6);
    }
}

/// The key of a reward row identifies it: two rows have the same key
/// exactly where they are for the same epoch and the same stake account.
pub proof fn lemma_reward_id_is_key(
    r1: InflationReward, x1: RpcInflationReward, p1: Pubkey,
    r2: InflationReward, x2: RpcInflationReward, p2: Pubkey,
)
    requires
        is_reward_row(r1, x1, p1),
        is_reward_row(r2, x2, p2),
    ensures
        r1.id@ == r2.id@ <==> (x1.epoch == x2.epoch && p1 == p2),
{
    if r1.id@ == r2.id@ {
        lemma_reward_id_identifies(x1.epoch, p1, x2.epoch, p2);
        assert(p1.bytes@ == p2.bytes@);
        assert(p1.bytes =~= p2.bytes);
    }
}


/// Every statement of an insert plan binds seven values per row and stays
/// within the Postgres bind limit.
pub proof fn lemma_reward_statement_within_bind_limit(
    plan: Seq<(usize, usize)>,
    records: Seq<InflationReward>,
    i: int,
)
    requires
        is_batch_plan(plan, records.len(), InflationReward::INSERT_CHUNK_SIZE as nat),
        0 <= i < plan.len(),
    ensures
        reward_rows_values(records, plan[i].0 as int, (plan[i].1 - plan[i].0) as nat).len()
            == (plan[i].1 - plan[i].0) * 7,
        reward_rows_values(records, plan[i].0 as int, (plan[i].1 - plan[i].0) as nat).len()
            <= POSTGRES_BIND_LIMIT,
{
    lemma_batch_plan_partitions(plan, records.len(), InflationReward::INSERT_CHUNK_SIZE as nat);
    assert forall|r: InflationReward| (#[trigger] reward_row_fn()(r)).len() == 7 by {}
    lemma_rows_values_len(records, reward_row_fn(), plan[i].0 as int, (plan[i].1 - plan[i].0) as nat, 7);
}

/// The values that the statements of `plan` bind, statement after
/// statement, for its first `k` statements.
pub open spec fn reward_plan_values(records: Seq<InflationReward>, plan: Seq<(usize, usize)>, k: nat) -> Seq<SqlValue> {
    plan_values(records, reward_row_fn(), plan, k)
}

/// The statements of an insert plan, run one after the other, bind the
/// values of every record once, in the records' order: a bulk insert
/// inserts each record, none twice and none left out.
pub proof fn lemma_reward_plan_inserts_every_row(plan: Seq<(usize, usize)>, records: Seq<InflationReward>)
    requires
        is_batch_plan(plan, records.len(), InflationReward::INSERT_CHUNK_SIZE as nat),
    ensures
        reward_plan_values(records, plan, plan.len()) == reward_rows_values(records, 0, records.len()),
{
    lemma_plan_binds_every_row(plan, records, reward_row_fn(), InflationReward::INSERT_CHUNK_SIZE as nat);
}

} // verus!
