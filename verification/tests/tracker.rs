use stakenet_simulator::db::inflation_rewards::RpcInflationReward;
use stakenet_simulator::pubkey::Pubkey;
use stakenet_simulator::tracker::inflation::{
    inflation_tasks, parse_stake_account_keys, rewards_to_records, InflationTask, END_REWARD_EPOCH,
    FIRST_REWARD_EPOCH, REWARD_EPOCH_COUNT,
};
use stakenet_simulator::tracker::rpc_utils::{
    activation_epochs, decode_stake_accounts, stake_account_filters, u32_le_bytes, u64_le_bytes, FilterBytes,
    StakeAccountState,
};
use stakenet_simulator::tracker::stake_accounts::{
    sample_stake_accounts, select_earliest, select_longest_history, SAMPLED_VOTE_ACCOUNT,
};

#[test]
fn tasks_walk_batches_then_epochs() {
    assert_eq!(REWARD_EPOCH_COUNT as u64, END_REWARD_EPOCH - FIRST_REWARD_EPOCH);
    assert!(inflation_tasks(0).is_empty());
    let tasks = inflation_tasks(31);
    assert_eq!(tasks.len(), 2 * 118);
    assert_eq!(tasks[0], InflationTask { first_account: 0, end_account: 30, epoch: 700 });
    assert_eq!(tasks[117], InflationTask { first_account: 0, end_account: 30, epoch: 817 });
    assert_eq!(tasks[118], InflationTask { first_account: 30, end_account: 31, epoch: 700 });
    assert_eq!(tasks[235], InflationTask { first_account: 30, end_account: 31, epoch: 817 });
}

#[test]
fn stake_keys_skip_bad_text() {
    let texts = vec![
        SAMPLED_VOTE_ACCOUNT.to_string(),
        "garbage!".to_string(),
        "11111111111111111111111111111111".to_string(),
    ];
    let keys = parse_stake_account_keys(&texts);
    assert_eq!(keys.len(), 2);
    assert_eq!(keys[0].to_string(), SAMPLED_VOTE_ACCOUNT);
    assert_eq!(keys[1], Pubkey::system_program());
}

#[test]
fn rewards_pair_with_accounts() {
    let a = Pubkey::new_from_array([1u8; 32]);
    let b = Pubkey::new_from_array([2u8; 32]);
    let c = Pubkey::new_from_array([3u8; 32]);
    let reward = |epoch: u64| RpcInflationReward { epoch, effective_slot: 1, amount: 2, post_balance: 3, commission: None };
    let records = rewards_to_records(vec![Some(reward(750)), None, Some(reward(750)), Some(reward(750))], &[a, b, c]);
    assert_eq!(records.len(), 2);
    assert_eq!(records[0].stake_account, a.to_string());
    assert_eq!(records[1].stake_account, c.to_string());
    assert_eq!(records[1].id, format!("750-{}", c.to_string()));
    assert!(rewards_to_records(vec![None, None], &[a, b]).is_empty());
    assert!(rewards_to_records(vec![Some(reward(1))], &[]).is_empty());
}

#[test]
fn stake_filters_select_active_delegations() {
    let vote = Pubkey::from_str(SAMPLED_VOTE_ACCOUNT).unwrap();
    let filters = stake_account_filters(&vote);
    assert_eq!(filters.len(), 3);
    assert_eq!(filters[0].offset, 0);
    assert!(matches!(&filters[0].bytes, FilterBytes::Bytes(b) if b == &vec![2u8, 0, 0, 0]));
    assert_eq!(filters[1].offset, 124);
    assert!(matches!(&filters[1].bytes, FilterBytes::Base58(t) if t == SAMPLED_VOTE_ACCOUNT));
    assert_eq!(filters[2].offset, 172);
    assert!(matches!(&filters[2].bytes, FilterBytes::Bytes(b) if b == &vec![255u8; 8]));
}

#[test]
fn little_endian_bytes() {
    assert_eq!(u32_le_bytes(0x0403_0201), vec![1, 2, 3, 4]);
    assert_eq!(u32_le_bytes(2), 2u32.to_le_bytes().to_vec());
    assert_eq!(u64_le_bytes(0x0807_0605_0403_0201), vec![1, 2, 3, 4, 5, 6, 7, 8]);
    assert_eq!(u64_le_bytes(u64::MAX), u64::MAX.to_le_bytes().to_vec());
}

#[test]
fn longest_history_sample_is_earliest_activated() {
    let epochs: Vec<Option<u64>> = vec![
        Some(50), None, Some(10), Some(30), Some(10), Some(70), Some(20), Some(60), Some(40), Some(90),
        Some(80), Some(5), None, Some(100),
    ];
    assert_eq!(select_longest_history(&epochs), vec![11, 2, 4, 6, 3, 8, 0, 7, 5, 10]);
    assert_eq!(select_longest_history(&vec![None, Some(3), Some(1)]), vec![2, 1]);
    assert!(select_longest_history(&Vec::new()).is_empty());
    assert_eq!(select_earliest(&vec![Some(2), Some(2), Some(1)], 2), vec![2, 0]);
}

fn stake_data(voter: [u8; 32], stake: u64, activation: u64, deactivation: u64) -> Vec<u8> {
    let mut data = 2u32.to_le_bytes().to_vec();
    data.extend_from_slice(&[0u8; 120]);
    data.extend_from_slice(&voter);
    data.extend_from_slice(&stake.to_le_bytes());
    data.extend_from_slice(&activation.to_le_bytes());
    data.extend_from_slice(&deactivation.to_le_bytes());
    data.extend_from_slice(&0.25f64.to_le_bytes());
    data.extend_from_slice(&0u64.to_le_bytes());
    data.push(0);
    data
}

#[test]
fn stake_data_decodes_to_states() {
    let key = Pubkey::new_from_array([7u8; 32]);
    let mut initialized = 1u32.to_le_bytes().to_vec();
    initialized.extend_from_slice(&[0u8; 120]);
    let accounts = vec![
        (key, stake_data([9u8; 32], 5000, 600, u64::MAX)),
        (key, initialized),
        (key, 3u32.to_le_bytes().to_vec()),
    ];
    let states = decode_stake_accounts(accounts).unwrap();
    assert_eq!(
        states[0].1,
        StakeAccountState::Stake {
            voter: Pubkey::new_from_array([9u8; 32]),
            stake: 5000,
            activation_epoch: 600,
            deactivation_epoch: u64::MAX,
        }
    );
    assert_eq!(states[1].1, StakeAccountState::Initialized);
    assert_eq!(states[2].1, StakeAccountState::RewardsPool);
    assert_eq!(activation_epochs(&states), vec![Some(600), None, None]);
}

#[test]
fn bad_stake_data_names_its_position() {
    let key = Pubkey::new_from_array([7u8; 32]);
    let accounts = vec![
        (key, stake_data([9u8; 32], 1, 2, 3)),
        (key, vec![2, 0, 0]),
        (key, vec![9, 0, 0, 0]),
    ];
    assert_eq!(decode_stake_accounts(accounts), Err(1));
}

#[test]
fn stake_sample_reads_activation_from_data() {
    let accounts: Vec<(Pubkey, Vec<u8>)> = (0..12u8)
        .map(|i| (Pubkey::new_from_array([i; 32]), stake_data([1u8; 32], 10, 700 - i as u64, u64::MAX)))
        .collect();
    let sample = sample_stake_accounts(accounts).unwrap();
    let keys: Vec<u8> = sample.iter().map(|(k, _)| k.bytes[0]).collect();
    assert_eq!(keys, vec![11, 10, 9, 8, 7, 6, 5, 4, 3, 2]);
}
