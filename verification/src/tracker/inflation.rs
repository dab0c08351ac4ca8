use vstd::prelude::*;
use crate::db::batching::{batch_count, batch_ranges, is_batch_plan};
use crate::db::inflation_rewards::{is_reward_row, InflationReward, RpcInflationReward};
use crate::pubkey::{address_from_base58, Pubkey};

verus! {

/// Stake accounts asked for in one reward request.
pub const STAKE_ACCOUNTS_PER_REQUEST: usize = 30;

/// First epoch whose rewards are gathered.
pub const FIRST_REWARD_EPOCH: u64 = 700;

/// Epoch after the last one whose rewards are gathered.
pub const END_REWARD_EPOCH: u64 = 818;

/// Number of epochs whose rewards are gathered.
pub const REWARD_EPOCH_COUNT: usize = 118;

/// Reward requests in flight at once, to stay under the RPC node's rate limit.
pub const MAX_CONCURRENT_REQUESTS: usize = 10;

/// Tasks polled at once.
pub const MAX_BUFFERED_TASKS: usize = 50;

/// One reward request: the stake accounts `[first_account, end_account)` of
/// the list, in one epoch.
#[derive(Clone, Copy, Debug, PartialEq, Eq)]
pub struct InflationTask {
    pub first_account: usize,
    pub end_account: usize,
    pub epoch: u64,
}

/// `tasks` asks, batch after batch of `STAKE_ACCOUNTS_PER_REQUEST` accounts
/// out of `n`, for each epoch from `FIRST_REWARD_EPOCH` up to
/// `END_REWARD_EPOCH` in turn.
pub open spec fn is_task_plan(tasks: Seq<InflationTask>, n: nat) -> bool {
    let per = STAKE_ACCOUNTS_PER_REQUEST as int;
    let count = REWARD_EPOCH_COUNT as int;
    &&& tasks.len() == batch_count(n, per as nat) * count
    &&& forall|b: int, k: int| 0 <= b < batch_count(n, per as nat) && 0 <= k < count ==> {
        let t = #[trigger] tasks[b * count + k];
        &&& t.first_account == b * per
        &&& t.end_account == (if (b + 1) * per < n { (b + 1) * per } else { n as int })
        &&& t.epoch == FIRST_REWARD_EPOCH + k
    }
}

proof fn lemma_task_index(b: int, k: int, count: int)
    by (nonlinear_arith)
    requires
        0 <= b,
        0 <= k < count,
    ensures
        b * count + k < (b + 1) * count,
        b * count <= b * count + k,
        (b + 1) * count == b * count + count,
{
}

proof fn lemma_task_total(nb: int, b: int, count: int)
    by (nonlinear_arith)
    requires
        0 <= b < nb,
        count > 0,
    ensures
        (b + 1) * count <= nb * count,
{
}

proof fn lemma_split_task_index(i: int, nb: int)
    by (nonlinear_arith)
    requires
        0 <= i < nb * 118,
    ensures
        0 <= i / 118 < nb,
        0 <= i % 118 < 118,
        i == (i / 118) * 118 + i % 118,
{
}

proof fn lemma_batch_of_account(a: int, n: int)
    by (nonlinear_arith)
    requires
        0 <= a < n,
    ensures
        0 <= a / 30 < (n + 30 - 1) / 30,
        (a / 30) * 30 <= a < (a / 30) * 30 + 30,
{
}

proof fn lemma_batch_starts_before_end(b: int, n: int)
    by (nonlinear_arith)
    requires
        0 <= b < (n + 30 - 1) / 30,
        n >= 0,
    ensures
        b * 30 < n,
        (b + 1) * 30 == b * 30 + 30,
{
}

/// Some request of `tasks` asks about account `a` in epoch `e`.
pub open spec fn asks_about(tasks: Seq<InflationTask>, a: int, e: int) -> bool {
    exists|i: int| 0 <= i < tasks.len() && (#[trigger] tasks[i]).first_account <= a < tasks[i].end_account
        && tasks[i].epoch == e
}

/// A request plan asks about every stake account in every epoch from
/// `FIRST_REWARD_EPOCH` up to `END_REWARD_EPOCH`, and each request asks, in
/// one of those epochs, about a run of one to `STAKE_ACCOUNTS_PER_REQUEST`
/// consecutive accounts of the list.
pub proof fn lemma_task_plan_covers(tasks: Seq<InflationTask>, n: nat)
    requires
        is_task_plan(tasks, n),
    ensures
        forall|i: int| 0 <= i < tasks.len() ==> {
            let t = #[trigger] tasks[i];
            &&& FIRST_REWARD_EPOCH <= t.epoch < END_REWARD_EPOCH
            &&& t.first_account < t.end_account <= n
            &&& t.end_account - t.first_account <= STAKE_ACCOUNTS_PER_REQUEST
        },
        forall|a: int, e: int| 0 <= a < n && FIRST_REWARD_EPOCH <= e < END_REWARD_EPOCH ==>
            #[trigger] asks_about(tasks, a, e),
{
    let nb = batch_count(n, 30) as int;
    assert(nb == (n + 30 - 1) / 30);
    assert forall|i: int| 0 <= i < tasks.len() implies {
        let t = #[trigger] tasks[i];
        &&& FIRST_REWARD_EPOCH <= t.epoch < END_REWARD_EPOCH
        &&& t.first_account < t.end_account <= n
        &&& t.end_account - t.first_account <= STAKE_ACCOUNTS_PER_REQUEST
    } by {
        lemma_split_task_index(i, nb);
        let b = i / 118;
        let k = i % 118;
        lemma_batch_starts_before_end(b, n as int);
        assert(tasks[b * 118 + k] == tasks[i]);
    }
    assert forall|a: int, e: int| 0 <= a < n && FIRST_REWARD_EPOCH <= e < END_REWARD_EPOCH implies
        #[trigger] asks_about(tasks, a, e) by {
        lemma_batch_of_account(a, n as int);
        let b = a / 30;
        let k = e - FIRST_REWARD_EPOCH;
        lemma_task_index(b, k, 118);
        lemma_task_total(nb, b, 118);
        let t = tasks[b * 118 + k];
        assert(t.first_account == b * 30);
        assert(t.epoch == e);
    }
}

/// The reward requests for `num_accounts` stake accounts.
pub fn inflation_tasks(num_accounts: usize) -> (tasks: Vec<InflationTask>)
    requires
        batch_count(num_accounts as nat, STAKE_ACCOUNTS_PER_REQUEST as nat) * REWARD_EPOCH_COUNT <= usize::MAX,
    ensures
        is_task_plan(tasks@, num_accounts as nat),
        forall|i: int| 0 <= i < tasks@.len() ==> {
            let t = #[trigger] tasks@[i];
            &&& FIRST_REWARD_EPOCH <= t.epoch < END_REWARD_EPOCH
            &&& t.first_account < t.end_account <= num_accounts
            &&& t.end_account - t.first_account <= STAKE_ACCOUNTS_PER_REQUEST
        },
        forall|a: int, e: int| 0 <= a < num_accounts && FIRST_REWARD_EPOCH <= e < END_REWARD_EPOCH ==>
            #[trigger] asks_about(tasks@, a, e),
{
    let batches = batch_ranges(num_accounts, STAKE_ACCOUNTS_PER_REQUEST);
    let ghost per = STAKE_ACCOUNTS_PER_REQUEST as int;
    let ghost count = REWARD_EPOCH_COUNT as int;
    let ghost nb = batches@.len() as int;
    let mut tasks: Vec<InflationTask> = Vec::new();
    let mut b: usize = 0;
    while b < batches.len()
        invariant
            is_batch_plan(batches@, num_accounts as nat, per as nat),
            nb == batches@.len(),
            nb * count <= usize::MAX,
            per == 30,
            count == 118,
            b <= nb,
            tasks@.len() == b * count,
            forall|bb: int, k: int| 0 <= bb < b && 0 <= k < count ==> {
                let t = #[trigger] tasks@[bb * count + k];
                &&& t.first_account == bb * per
                &&& t.end_account == (if (bb + 1) * per < num_accounts { (bb + 1) * per } else { num_accounts as int })
                &&& t.epoch == FIRST_REWARD_EPOCH + k
            },
        decreases nb - b,
    {
        let (first, end) = batches[b];
        proof {
            lemma_task_total(nb, b as int, count);
            lemma_task_index(b as int, 0, count);
        }
        let mut epoch: u64 = FIRST_REWARD_EPOCH;
        while epoch < END_REWARD_EPOCH
            invariant
                per == 30,
                count == 118,
                b < nb,
                (b + 1) * count <= nb * count,
                nb * count <= usize::MAX,
                (b + 1) * count == b * count + count,
                FIRST_REWARD_EPOCH <= epoch <= END_REWARD_EPOCH,
                tasks@.len() == b * count + (epoch - FIRST_REWARD_EPOCH),
                first == b * per,
                end == (if (b + 1) * per < num_accounts { (b + 1) * per } else { num_accounts as int }),
                forall|bb: int, k: int| 0 <= bb < b && 0 <= k < count ==> {
                    let t = #[trigger] tasks@[bb * count + k];
                    &&& t.first_account == bb * per
                    &&& t.end_account == (if (bb + 1) * per < num_accounts { (bb + 1) * per } else { num_accounts as int })
                    &&& t.epoch == FIRST_REWARD_EPOCH + k
                },
                forall|k: int| 0 <= k < epoch - FIRST_REWARD_EPOCH ==> {
                    let t = #[trigger] tasks@[b * count + k];
                    &&& t.first_account == first
                    &&& t.end_account == end
                    &&& t.epoch == FIRST_REWARD_EPOCH + k
                },
            decreases END_REWARD_EPOCH - epoch,
        {
            let ghost before = tasks@;
            tasks.push(InflationTask { first_account: first, end_account: end, epoch });
            proof {
                assert forall|bb: int, k: int| 0 <= bb < b && 0 <= k < count implies
                    #[trigger] tasks@[bb * count + k] == before[bb * count + k] by {
                    lemma_task_index(bb, k, count);
                    lemma_task_total(b as int, bb, count);
                }
                assert forall|k: int| 0 <= k < epoch + 1 - FIRST_REWARD_EPOCH implies
                    #[trigger] tasks@[b * count + k] == (if k < epoch - FIRST_REWARD_EPOCH { before[b * count + k] } else {
                        InflationTask { first_account: first, end_account: end, epoch }
                    }) by {
                }
            }
            epoch = epoch + 1;
        }
        b = b + 1;
    }
    proof {
        lemma_task_plan_covers(tasks@, num_accounts as nat);
    }
    tasks
}


/// The addresses read from `texts`, in order, the texts that are no address
/// left out.
pub open spec fn parsed_addresses(texts: Seq<Seq<char>>) -> Seq<Seq<u8>>
    decreases texts.len(),
{
    if texts.len() == 0 {
        Seq::empty()
    } else {
        let rest = parsed_addresses(texts.drop_last());
        match address_from_base58(texts.last()) {
            Some(bytes) => rest.push(bytes),
            None => rest,
        }
    }
}

/// The bytes of each address of `keys`.
pub open spec fn key_bytes(keys: Seq<Pubkey>) -> Seq<Seq<u8>> {
    keys.map_values(|k: Pubkey| k.bytes@)
}

/// Whether a stored text reads as an address.
pub open spec fn reads_as_address() -> spec_fn(Seq<char>) -> bool {
    |t: Seq<char>| address_from_base58(t) is Some
}

/// The addresses read from texts are one per text that reads as an address,
/// and every such text's address is among them.
pub proof fn lemma_parsed_addresses_complete(texts: Seq<Seq<char>>)
    ensures
        parsed_addresses(texts).len() == texts.filter(reads_as_address()).len(),
        forall|i: int| 0 <= i < texts.len() && #[trigger] address_from_base58(texts[i]) is Some ==>
            parsed_addresses(texts).contains(address_from_base58(texts[i])->0),
        forall|j: int| 0 <= j < parsed_addresses(texts).len() ==>
            exists|i: int| 0 <= i < texts.len() && address_from_base58(texts[i]) == Some(#[trigger] parsed_addresses(texts)[j]),
    decreases texts.len(),
{
    reveal(Seq::filter);
    if texts.len() > 0 {
        let rest = texts.drop_last();
        lemma_parsed_addresses_complete(rest);
        let prev = parsed_addresses(rest);
        let cur = parsed_addresses(texts);
        assert forall|i: int| 0 <= i < texts.len() && #[trigger] address_from_base58(texts[i]) is Some implies
            cur.contains(address_from_base58(texts[i])->0) by {
            if i == texts.len() - 1 {
                assert(cur[cur.len() - 1] == address_from_base58(texts[i])->0);
            } else {
                assert(rest[i] == texts[i]);
                assert(address_from_base58(rest[i]) is Some);
                let j = choose|j: int| 0 <= j < prev.len() && prev[j] == address_from_base58(texts[i])->0;
                assert(cur[j] == prev[j]);
            }
        }
        assert forall|j: int| 0 <= j < cur.len() implies
            exists|i: int| 0 <= i < texts.len() && address_from_base58(texts[i]) == Some(#[trigger] cur[j]) by {
            if j < prev.len() {
                assert(cur[j] == prev[j]);
                let i = choose|i: int| 0 <= i < rest.len() && address_from_base58(rest[i]) == Some(prev[j]);
                assert(texts[i] == rest[i]);
            } else {
                assert(address_from_base58(texts[texts.len() - 1]) == Some(cur[j]));
            }
        }
    }
}

/// The stake accounts of the stored texts: every text that reads as an
/// address, in order; the others are dropped.
pub fn parse_stake_account_keys(texts: &Vec<String>) -> (keys: Vec<Pubkey>)
    ensures
        key_bytes(keys@) == parsed_addresses(texts.deep_view()),
        keys@.len() == texts.deep_view().filter(reads_as_address()).len(),
        forall|i: int| 0 <= i < texts@.len() && #[trigger] address_from_base58(texts@[i]@) is Some ==>
            exists|j: int| 0 <= j < keys@.len() && Some(keys@[j].bytes@) == address_from_base58(texts@[i]@),
{
    let ghost ts = texts.deep_view();
    let mut keys: Vec<Pubkey> = Vec::new();
    let mut i: usize = 0;
    while i < texts.len()
        invariant
            ts == texts.deep_view(),
            i <= ts.len(),
            key_bytes(keys@) == parsed_addresses(ts.take(i as int)),
        decreases ts.len() - i,
    {
        let ghost before = keys@;
        assert(ts.take(i + 1).drop_last() =~= ts.take(i as int));
        assert(ts.take(i + 1).last() == texts[i as int]@);
        match Pubkey::from_str(texts[i].as_str()) {
            Some(k) => {
                keys.push(k);
                assert(key_bytes(keys@) =~= key_bytes(before).push(k.bytes@));
            },
            None => {},
        }
        i = i + 1;
    }
    assert(ts.take(ts.len() as int) =~= ts);
    proof {
        lemma_parsed_addresses_complete(ts);
        let kb = key_bytes(keys@);
        assert forall|i: int| 0 <= i < texts@.len() && #[trigger] address_from_base58(texts@[i]@) is Some implies
            exists|j: int| 0 <= j < keys@.len() && Some(keys@[j].bytes@) == address_from_base58(texts@[i]@) by {
            assert(ts[i] == texts@[i]@);
            assert(address_from_base58(ts[i]) is Some);
            let j = choose|j: int| 0 <= j < kb.len() && kb[j] == address_from_base58(ts[i])->0;
            assert(kb[j] == keys@[j].bytes@);
        }
    }
    keys
}

/// The positions, among the first `n`, of the accounts that earned a reward.
pub open spec fn rewarded_positions(rewards: Seq<Option<RpcInflationReward>>, n: int) -> Seq<int>
    decreases n,
{
    if n <= 0 {
        Seq::empty()
    } else {
        let rest = rewarded_positions(rewards, n - 1);
        if rewards[n - 1] is Some { rest.push(n - 1) } else { rest }
    }
}

proof fn lemma_rewarded_positions_bounded(rewards: Seq<Option<RpcInflationReward>>, n: int)
    ensures
        forall|j: int| 0 <= j < rewarded_positions(rewards, n).len() ==>
            0 <= #[trigger] rewarded_positions(rewards, n)[j] < n && rewards[rewarded_positions(rewards, n)[j]] is Some,
    decreases n,
{
    if n > 0 {
        lemma_rewarded_positions_bounded(rewards, n - 1);
    }
}

/// Whether the RPC node reported a reward.
pub open spec fn reward_given() -> spec_fn(Option<RpcInflationReward>) -> bool {
    |o: Option<RpcInflationReward>| o is Some
}

/// The rewarded positions among the first `n` are every position whose
/// account got a reward, each once and in increasing order: as many as there
/// are rewards among the first `n`.
pub proof fn lemma_rewarded_positions_complete(rewards: Seq<Option<RpcInflationReward>>, n: int)
    requires
        0 <= n <= rewards.len(),
    ensures
        rewarded_positions(rewards, n).len() == rewards.take(n).filter(reward_given()).len(),
        forall|i: int| 0 <= i < n && rewards[i] is Some ==>
            exists|j: int| 0 <= j < rewarded_positions(rewards, n).len() && rewarded_positions(rewards, n)[j] == i,
        forall|j: int, k: int| 0 <= j < k < rewarded_positions(rewards, n).len() ==>
            rewarded_positions(rewards, n)[j] < rewarded_positions(rewards, n)[k],
    decreases n,
{
    reveal(Seq::filter);
    lemma_rewarded_positions_bounded(rewards, n);
    if n == 0 {
        assert(rewards.take(0) =~= Seq::<Option<RpcInflationReward>>::empty());
    } else {
        lemma_rewarded_positions_complete(rewards, n - 1);
        lemma_rewarded_positions_bounded(rewards, n - 1);
        let t = rewards.take(n);
        assert(t.drop_last() =~= rewards.take(n - 1));
        assert(t.last() == rewards[n - 1]);
        let prev = rewarded_positions(rewards, n - 1);
        let pos = rewarded_positions(rewards, n);
        assert forall|i: int| 0 <= i < n && rewards[i] is Some implies
            exists|j: int| 0 <= j < pos.len() && pos[j] == i by {
            if i == n - 1 {
                assert(pos[pos.len() - 1] == i);
            } else {
                let j = choose|j: int| 0 <= j < prev.len() && prev[j] == i;
                assert(pos[j] == prev[j]);
            }
        }
        assert forall|j: int, k: int| 0 <= j < k < pos.len() implies pos[j] < pos[k] by {
            if k < prev.len() {
                assert(pos[j] == prev[j] && pos[k] == prev[k]);
            } else {
                assert(pos[j] == prev[j]);
                assert(prev[j] < n - 1);
            }
        }
    }
}

/// The rows of the rewards that the RPC node reported for `stake_accounts`,
/// the `i`-th reward for the `i`-th account: one row per reward, in order,
/// nothing for an account without one; rewards or accounts beyond the
/// shorter list are ignored.
pub fn rewards_to_records(rewards: Vec<Option<RpcInflationReward>>, stake_accounts: &[Pubkey]) -> (records: Vec<InflationReward>)
    ensures
        ({
            let n = if rewards@.len() <= stake_accounts@.len() { rewards@.len() as int } else { stake_accounts@.len() as int };
            let pos = rewarded_positions(rewards@, n);
            &&& records@.len() == pos.len()
            &&& forall|j: int| 0 <= j < records@.len() ==>
                is_reward_row(#[trigger] records@[j], rewards@[pos[j]]->0, stake_accounts@[pos[j]])
        }),
        ({
            let n = if rewards@.len() <= stake_accounts@.len() { rewards@.len() as int } else { stake_accounts@.len() as int };
            &&& records@.len() == rewards@.take(n).filter(reward_given()).len()
            &&& forall|i: int| 0 <= i < n && rewards@[i] is Some ==>
                exists|j: int| 0 <= j < records@.len()
                    && is_reward_row(#[trigger] records@[j], rewards@[i]->0, stake_accounts@[i])
        }),
{
    let n = if rewards.len() <= stake_accounts.len() { rewards.len() } else { stake_accounts.len() };
    let mut records: Vec<InflationReward> = Vec::new();
    let mut i: usize = 0;
    while i < n
        invariant
            n <= rewards@.len(),
            n <= stake_accounts@.len(),
            i <= n,
            records@.len() == rewarded_positions(rewards@, i as int).len(),
            forall|j: int| 0 <= j < records@.len() ==>
                is_reward_row(#[trigger] records@[j], rewards@[rewarded_positions(rewards@, i as int)[j]]->0,
                    stake_accounts@[rewarded_positions(rewards@, i as int)[j]]),
        decreases n - i,
    {
        proof {
            lemma_rewarded_positions_bounded(rewards@, i as int);
        }
        match rewards[i] {
            Some(reward) => {
                let record = InflationReward::from_rpc_inflation_reward(reward, &stake_accounts[i]);
                records.push(record);
            },
            None => {},
        }
        i = i + 1;
    }
    proof {
        lemma_rewarded_positions_complete(rewards@, n as int);
        let pos = rewarded_positions(rewards@, n as int);
        assert forall|i: int| 0 <= i < n && rewards@[i] is Some implies
            exists|j: int| 0 <= j < records@.len()
                && is_reward_row(#[trigger] records@[j], rewards@[i]->0, stake_accounts@[i]) by {
            let j = choose|j: int| 0 <= j < pos.len() && pos[j] == i;
            assert(is_reward_row(records@[j], rewards@[pos[j]]->0, stake_accounts@[pos[j]]));
        }
    }
    records
}

} // verus!
