use stakenet_simulator::db::accounts::{ClusterHistoryAccount, ValidatorHistoryAccount};
use stakenet_simulator::db::batching::{batch_ranges, POSTGRES_BIND_LIMIT};
use stakenet_simulator::db::cluster_history::ClusterHistory;
use stakenet_simulator::db::inflation_rewards::{InflationReward, RpcInflationReward};
use stakenet_simulator::db::validator_history::ValidatorHistory;
use stakenet_simulator::pubkey::Pubkey;

const SAMPLE_VOTE: &str = "9QU2QSxhb24FUX3Tu2FpczXjpK3VYrvRudywSZaM29mF";

fn reward(epoch: u64, commission: Option<u8>) -> RpcInflationReward {
    RpcInflationReward { epoch, effective_slot: 1000 + epoch, amount: 5, post_balance: 7, commission }
}

fn history_row(vote: &str) -> ValidatorHistory {
    ValidatorHistory {
        struct_version: 1,
        vote_account: vote.to_string(),
        index: 2,
        bump: 3,
        last_ip_timestamp: 4,
        last_version_timestamp: 5,
    }
}

#[test]
fn batch_ranges_cut_in_order() {
    assert_eq!(batch_ranges(0, 5), Vec::<(usize, usize)>::new());
    assert_eq!(batch_ranges(10, 3), vec![(0, 3), (3, 6), (6, 9), (9, 10)]);
    assert_eq!(batch_ranges(6, 3), vec![(0, 3), (3, 6)]);
    assert_eq!(batch_ranges(2, 3), vec![(0, 2)]);
}

#[test]
fn chunk_sizes_follow_bind_limit() {
    assert_eq!(InflationReward::INSERT_CHUNK_SIZE, POSTGRES_BIND_LIMIT / InflationReward::NUM_FIELDS as usize);
    assert_eq!(ValidatorHistory::INSERT_CHUNK_SIZE, POSTGRES_BIND_LIMIT / ValidatorHistory::NUM_FIELDS as usize);
    assert_eq!(InflationReward::INSERT_CHUNK_SIZE, 9362);
    assert_eq!(ValidatorHistory::INSERT_CHUNK_SIZE, 10922);
}

#[test]
fn system_program_prints_as_ones() {
    assert_eq!(Pubkey::system_program().to_string(), "11111111111111111111111111111111");
    assert_eq!(Pubkey::new_from_array([0u8; 32]).to_string(), "11111111111111111111111111111111");
}

#[test]
fn pubkey_text_round_trip() {
    let key = Pubkey::from_str(SAMPLE_VOTE).unwrap();
    assert_eq!(key.to_string(), SAMPLE_VOTE);
    assert!(Pubkey::from_str("not a key").is_none());
    assert!(Pubkey::from_str("").is_none());
}

#[test]
fn reward_row_keys_by_epoch_and_account() {
    let key = Pubkey::from_str(SAMPLE_VOTE).unwrap();
    let row = InflationReward::from_rpc_inflation_reward(reward(734, Some(8)), &key);
    assert_eq!(row.id, format!("734-{}", SAMPLE_VOTE));
    assert_eq!(row.stake_account, SAMPLE_VOTE);
    assert_eq!(row.epoch, 734);
    assert_eq!(row.effective_slot, 1734);
    assert_eq!(row.amount, 5);
    assert_eq!(row.post_balance, 7);
    assert_eq!(row.commission, Some(8));
    let zero = InflationReward::from_rpc_inflation_reward(reward(0, None), &Pubkey::system_program());
    assert_eq!(zero.id, "0-11111111111111111111111111111111");
    assert_eq!(zero.commission, None);
}

#[test]
fn reward_batches_cover_all_records() {
    let key = Pubkey::system_program();
    let rows: Vec<InflationReward> =
        (0..3).map(|e| InflationReward::from_rpc_inflation_reward(reward(e, None), &key)).collect();
    assert_eq!(InflationReward::insert_batches(&rows), vec![(0, 3)]);
    assert_eq!(InflationReward::insert_batches(&Vec::new()), Vec::<(usize, usize)>::new());
}

#[test]
fn reward_statement_text_numbers_placeholders() {
    let key = Pubkey::system_program();
    let rows: Vec<InflationReward> =
        (0..3).map(|e| InflationReward::from_rpc_inflation_reward(reward(e, Some(1)), &key)).collect();
    let statement = InflationReward::insert_statement(&rows, 1, 3);
    assert_eq!(
        statement.builder.sql(),
        "INSERT INTO inflation_rewards (id, stake_account,epoch,effective_slot,amount,post_balance,commission) VALUES \
         ($1, $2, $3, $4, $5, $6, $7) , ($8, $9, $10, $11, $12, $13, $14)  ON CONFLICT (id) DO NOTHING"
    );
}

#[test]
fn history_row_from_account() {
    let key = Pubkey::from_str(SAMPLE_VOTE).unwrap();
    let account = ValidatorHistoryAccount {
        struct_version: 1,
        vote_account: key,
        index: 9,
        bump: 254,
        last_ip_timestamp: 11,
        last_version_timestamp: 12,
        history: Vec::new(),
    };
    let row = ValidatorHistory::from(account);
    assert_eq!(row.struct_version, 1);
    assert_eq!(row.vote_account, SAMPLE_VOTE);
    assert_eq!(row.index, 9);
    assert_eq!(row.bump, 254);
    assert_eq!(row.last_ip_timestamp, 11);
    assert_eq!(row.last_version_timestamp, 12);
}

#[test]
fn history_statement_text() {
    let rows = vec![history_row("a"), history_row("b")];
    assert_eq!(ValidatorHistory::insert_batches(&rows), vec![(0, 2)]);
    let statement = ValidatorHistory::insert_statement(&rows, 0, 2);
    assert_eq!(
        statement.builder.sql(),
        "INSERT INTO validator_histories (vote_account,struct_version,index,bump,last_ip_timestamp,last_version_timestamp) VALUES \
         ($1, $2, $3, $4, $5, $6) , ($7, $8, $9, $10, $11, $12)  ON CONFLICT (vote_account) DO NOTHING"
    );
    let empty = ValidatorHistory::insert_statement(&rows, 1, 1);
    assert_eq!(
        empty.builder.sql(),
        "INSERT INTO validator_histories (vote_account,struct_version,index,bump,last_ip_timestamp,last_version_timestamp) VALUES  ON CONFLICT (vote_account) DO NOTHING"
    );
}

#[test]
fn cluster_history_from_account() {
    let account = ClusterHistoryAccount { struct_version: 3, bump: 255, cluster_history_last_update_slot: 99 };
    let row = ClusterHistory::from(account);
    assert_eq!(row, ClusterHistory { struct_version: 3, bump: 255, cluster_history_last_update_slot: 99 });
}

#[test]
fn cluster_history_upsert_statement() {
    let row = ClusterHistory { struct_version: 3, bump: 255, cluster_history_last_update_slot: 99 };
    let statement = ClusterHistory::upsert_statement(&row);
    assert_eq!(
        statement.builder.sql(),
        "
    INSERT INTO cluster_histories (id,struct_version,bump,cluster_history_last_update_slot) VALUES ($1, $2, $3, $4) \
    ON CONFLICT (id) DO UPDATE SET \
    struct_version = EXCLUDED.struct_version,
    bump = EXCLUDED.bump,
    cluster_history_last_update_slot = EXCLUDED.cluster_history_last_update_slot
    "
    );
}

#[test]
fn reward_plan_binds_every_record_once() {
    let key = Pubkey::system_program();
    let count = InflationReward::INSERT_CHUNK_SIZE + 1;
    let rows: Vec<InflationReward> = (0..count as u64)
        .map(|e| InflationReward::from_rpc_inflation_reward(reward(e, None), &key))
        .collect();
    let plan = InflationReward::insert_batches(&rows);
    assert_eq!(plan, vec![(0, InflationReward::INSERT_CHUNK_SIZE), (InflationReward::INSERT_CHUNK_SIZE, count)]);
    let first = InflationReward::insert_statement(&rows, plan[0].0, plan[0].1);
    assert_eq!(first.builder.sql().matches('(').count(), InflationReward::INSERT_CHUNK_SIZE + 2);
    assert!(first.builder.sql().contains("$65534)"));
    assert!(!first.builder.sql().contains("$65535"));
    let last = InflationReward::insert_statement(&rows, plan[1].0, plan[1].1);
    assert_eq!(
        last.builder.sql(),
        "INSERT INTO inflation_rewards (id, stake_account,epoch,effective_slot,amount,post_balance,commission) VALUES \
         ($1, $2, $3, $4, $5, $6, $7)  ON CONFLICT (id) DO NOTHING"
    );
}
