use std::collections::HashMap;

use stakenet_simulator::cli::epoch_to_validator_history_entry::EpochToValdiatorHistoryEntry;
use stakenet_simulator::db::accounts;
use stakenet_simulator::db::accounts::MAX_HISTORY_ITEMS;
use stakenet_simulator::db::validator_history_entry::ValidatorHistoryEntry;

const VOTE: &str = "9QU2QSxhb24FUX3Tu2FpczXjpK3VYrvRudywSZaM29mF";
const SYSTEM: &str = "11111111111111111111111111111111";

fn program_entry(epoch: u16, credits: u32) -> accounts::ValidatorHistoryEntry {
    accounts::ValidatorHistoryEntry {
        activated_stake_lamports: 1,
        epoch,
        mev_commission: 800,
        epoch_credits: credits,
        commission: 5,
        client_type: 1,
        version_major: 2,
        version_minor: 1,
        version_patch: 0,
        ip: [10, 0, 0, 1],
        merkle_root_upload_authority: 0,
        is_superminority: 0,
        rank: 7,
        vote_account_last_update_slot: 100,
        mev_earned: 3,
        priority_fee_commission: 0,
        priority_fee_tips: 0,
        total_priority_fees: 0,
        total_leader_slots: 0,
        blocks_produced: 0,
        block_data_updated_at_slot: 0,
        priority_fee_merkle_root_upload_authority: 255,
    }
}

fn stored(vote: &str, epoch: u16, credits: u32) -> ValidatorHistoryEntry {
    ValidatorHistoryEntry { vote_pubkey: vote.to_string(), validator_history_entry: program_entry(epoch, credits) }
}

#[test]
fn latest_entry_by_epoch() {
    let mut map = HashMap::new();
    map.insert(740u16, stored(VOTE, 740, 1));
    let entries = EpochToValdiatorHistoryEntry(map);
    assert_eq!(entries.get_latest(740).unwrap().validator_history_entry.epoch_credits, 1);
    assert!(entries.get_latest(741).is_none());
}

#[test]
fn history_is_in_epoch_order() {
    let mut map = HashMap::new();
    for epoch in [745u16, 741, 743, 742, 744] {
        map.insert(epoch, stored(if epoch == 743 { SYSTEM } else { VOTE }, epoch, epoch as u32));
    }
    let account = EpochToValdiatorHistoryEntry(map).to_validator_history().unwrap();
    assert_eq!(account.vote_account.to_string(), VOTE);
    assert_eq!(account.struct_version, 0);
    assert_eq!(account.index, 0);
    assert_eq!(account.bump, 0);
    assert_eq!(account.last_ip_timestamp, 0);
    assert_eq!(account.last_version_timestamp, 0);
    let epochs: Vec<u16> = account.history.iter().map(|e| e.epoch).collect();
    assert_eq!(epochs, vec![741, 742, 743, 744, 745]);
    assert!(account.history.iter().all(|e| e.epoch_credits == e.epoch as u32));
}

#[test]
fn entries_of_one_epoch_appear_once() {
    let mut map = HashMap::new();
    map.insert(1u16, stored(VOTE, 750, 1));
    map.insert(2u16, stored(VOTE, 750, 2));
    map.insert(3u16, stored(VOTE, 749, 3));
    let account = EpochToValdiatorHistoryEntry(map).to_validator_history().unwrap();
    let epochs: Vec<u16> = account.history.iter().map(|e| e.epoch).collect();
    assert_eq!(epochs, vec![749, 750]);
    assert!(account.history[1].epoch_credits == 1 || account.history[1].epoch_credits == 2);
}

#[test]
fn history_keeps_newest_buffer_entries() {
    let mut map = HashMap::new();
    for epoch in 0u16..600 {
        map.insert(epoch, stored(VOTE, epoch, epoch as u32));
    }
    let account = EpochToValdiatorHistoryEntry(map).to_validator_history().unwrap();
    assert_eq!(account.history.len(), MAX_HISTORY_ITEMS);
    let epochs: Vec<u16> = account.history.iter().map(|e| e.epoch).collect();
    assert_eq!(epochs, (88u16..600).collect::<Vec<u16>>());
}

#[test]
fn unreadable_vote_account_gives_none() {
    let mut map = HashMap::new();
    map.insert(740u16, stored("not-a-key", 740, 1));
    assert!(EpochToValdiatorHistoryEntry(map).to_validator_history().is_none());
}
