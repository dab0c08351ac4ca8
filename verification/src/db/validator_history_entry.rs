use vstd::prelude::*;
use crate::db::accounts;

verus! {

/// The stored history of one validator in one epoch: the vote account that
/// it belongs to, in base58, and the entry of the validator-history program.
#[derive(Debug)]
pub struct ValidatorHistoryEntry {
    pub vote_pubkey: String,
    pub validator_history_entry: accounts::ValidatorHistoryEntry,
}

} // verus!
