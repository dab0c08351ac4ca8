use vstd::prelude::*;
use crate::pubkey::Pubkey;

verus! {

/// One epoch of a validator's on-chain history, as the validator-history
/// program records it: the values that the simulator reads, held as plain
/// integers.
#[derive(Clone, Copy, Debug, PartialEq, Eq)]
pub struct ValidatorHistoryEntry {
    pub activated_stake_lamports: u64,
    pub epoch: u16,
    pub mev_commission: u16,
    pub epoch_credits: u32,
    pub commission: u8,
    pub client_type: u8,
    pub version_major: u8,
    pub version_minor: u8,
    pub version_patch: u16,
    pub ip: [u8; 4],
    pub merkle_root_upload_authority: u8,
    pub is_superminority: u8,
    pub rank: u32,
    pub vote_account_last_update_slot: u64,
    pub mev_earned: u32,
    pub priority_fee_commission: u16,
    pub priority_fee_tips: u64,
    pub total_priority_fees: u64,
    pub total_leader_slots: u32,
    pub blocks_produced: u32,
    pub block_data_updated_at_slot: u64,
    pub priority_fee_merkle_root_upload_authority: u8,
}

/// Entries that a validator-history account's buffer holds; once full, a
/// new entry pushes out the oldest.
pub const MAX_HISTORY_ITEMS: usize = 512;

/// A validator-history account: its header values and the entries of its
/// history buffer, oldest first (at most `MAX_HISTORY_ITEMS`).
#[derive(Debug)]
pub struct ValidatorHistoryAccount {
    pub struct_version: u32,
    pub vote_account: Pubkey,
    pub index: u32,
    pub bump: u8,
    pub last_ip_timestamp: u64,
    pub last_version_timestamp: u64,
    pub history: Vec<ValidatorHistoryEntry>,
}

/// The header values of a cluster-history account.
#[derive(Clone, Copy, Debug, PartialEq, Eq)]
pub struct ClusterHistoryAccount {
    pub struct_version: u64,
    pub bump: u8,
    pub cluster_history_last_update_slot: u64,
}

} // verus!
