use vstd::prelude::*;
use crate::pubkey::{base58_of_address, Pubkey};
#[allow(deprecated)]
use solana_sdk::stake::state::StakeStateV2;

verus! {

/// The bytes that a memcmp filter compares: raw bytes that the RPC client
/// encodes, or text already in base58.
#[derive(Debug)]
pub enum FilterBytes {
    Bytes(Vec<u8>),
    Base58(String),
}

/// A filter that keeps the accounts whose data holds `bytes` at `offset`.
#[derive(Debug)]
pub struct MemcmpFilter {
    pub offset: usize,
    pub bytes: FilterBytes,
}

/// The tag of a delegated stake account (`StakeStateV2::Stake`).
pub const STAKE_STATE_STAKE_TAG: u32 = 2;

/// Size of the tag that opens a stake account's data.
pub const STAKE_STATE_TAG_SIZE: usize = 4;

/// Size of the stake account's `Meta`.
pub const STAKE_META_SIZE: usize = 120;

/// Offset of the deactivation epoch within the `Stake` that follows `Meta`.
pub const DEACTIVATION_EPOCH_OFFSET: usize = 48;

/// Little-endian bytes of a `u32`, as `u32::to_le_bytes` gives them.
pub open spec fn u32_le(v: u32) -> Seq<u8> {
    seq![(v % 256) as u8, ((v / 256) % 256) as u8, ((v / 65536) % 256) as u8, (v / 16777216) as u8]
}

/// Little-endian bytes of a `u64`, as `u64::to_le_bytes` gives them.
pub open spec fn u64_le(v: u64) -> Seq<u8> {
    u32_le((v % 4294967296) as u32) + u32_le((v / 4294967296) as u32)
}

/// The little-endian bytes of `v`.
pub fn u32_le_bytes(v: u32) -> (bytes: Vec<u8>)
    ensures
        bytes@ == u32_le(v),
{
    let mut bytes: Vec<u8> = Vec::new();
    bytes.push((v % 256) as u8);
    bytes.push(((v / 256) % 256) as u8);
    bytes.push(((v / 65536) % 256) as u8);
    bytes.push((v / 16777216) as u8);
    assert(bytes@ =~= u32_le(v));
    bytes
}

/// The little-endian bytes of `v`.
pub fn u64_le_bytes(v: u64) -> (bytes: Vec<u8>)
    ensures
        bytes@ == u64_le(v),
{
    let mut bytes = u32_le_bytes((v % 4294967296) as u32);
    let mut high = u32_le_bytes((v / 4294967296) as u32);
    bytes.append(&mut high);
    bytes
}

/// The filters that select the delegated, still active stake accounts of
/// `vote_pubkey`: the `Stake` tag at the start of the data, the vote account
/// right after the tag and `Meta`, and a deactivation epoch of `u64::MAX`
/// further on in the `Stake`.
pub fn stake_account_filters(vote_pubkey: &Pubkey) -> (filters: Vec<MemcmpFilter>)
    ensures
        filters@.len() == 3,
        filters@[0].offset == 0,
        filters@[0].bytes matches FilterBytes::Bytes(b) && b@ == u32_le(STAKE_STATE_STAKE_TAG),
        filters@[1].offset == STAKE_STATE_TAG_SIZE + STAKE_META_SIZE,
        filters@[1].bytes matches FilterBytes::Base58(t) && t@ == base58_of_address(vote_pubkey.bytes@),
        filters@[2].offset == STAKE_STATE_TAG_SIZE + STAKE_META_SIZE + DEACTIVATION_EPOCH_OFFSET,
        filters@[2].bytes matches FilterBytes::Bytes(b) && b@ == u64_le(u64::MAX),
{
    let mut filters: Vec<MemcmpFilter> = Vec::new();
    filters.push(MemcmpFilter { offset: 0, bytes: FilterBytes::Bytes(u32_le_bytes(STAKE_STATE_STAKE_TAG)) });
    filters.push(MemcmpFilter {
        offset: STAKE_STATE_TAG_SIZE + STAKE_META_SIZE,
        bytes: FilterBytes::Base58(vote_pubkey.to_string()),
    });
    filters.push(MemcmpFilter {
        offset: STAKE_STATE_TAG_SIZE + STAKE_META_SIZE + DEACTIVATION_EPOCH_OFFSET,
        bytes: FilterBytes::Bytes(u64_le_bytes(u64::MAX)),
    });
    filters
}

/// The tag is the bytes 2, 0, 0, 0, and a blank deactivation epoch is eight
/// bytes of 255.
pub proof fn lemma_filter_bytes()
    ensures
        u32_le(STAKE_STATE_STAKE_TAG) == seq![2u8, 0u8, 0u8, 0u8],
        u64_le(u64::MAX) == seq![255u8, 255u8, 255u8, 255u8, 255u8, 255u8, 255u8, 255u8],
{
    assert(u32_le(STAKE_STATE_STAKE_TAG) =~= seq![2u8, 0u8, 0u8, 0u8]);
    assert(u64_le(u64::MAX) =~= seq![255u8, 255u8, 255u8, 255u8, 255u8, 255u8, 255u8, 255u8]);
}

/// The state of a stake account, as far as the tracker reads it: which of
/// the four states it is in, and for a delegated account its delegation.
#[derive(Clone, Copy, Debug, PartialEq, Eq)]
pub enum StakeAccountState {
    Uninitialized,
    Initialized,
    Stake { voter: Pubkey, stake: u64, activation_epoch: u64, deactivation_epoch: u64 },
    RewardsPool,
}

/// What `<StakeStateV2 as BorshDeserialize>::deserialize` reads from the
/// start of `data`; `None` where it refuses the bytes.
pub uninterp spec fn stake_state_of(data: Seq<u8>) -> Option<StakeAccountState>;

/// Size of a delegation's `Stake` and the flags that follow it.
pub const STAKE_AND_FLAGS_SIZE: usize = 73;

/// `data` lays out `state` as the stake program stores it: a little-endian
/// `u32` tag, then for an initialized account its `Meta`, and for a
/// delegated one the `Meta`, the delegation (vote account, stake, activation
/// and deactivation epochs, each `u64` little-endian, then the rest of the
/// `Stake`) and the flags.
pub open spec fn stake_state_layout(data: Seq<u8>, state: StakeAccountState) -> bool {
    let d = (STAKE_STATE_TAG_SIZE + STAKE_META_SIZE) as int;
    &&& data.len() >= STAKE_STATE_TAG_SIZE
    &&& match state {
        StakeAccountState::Uninitialized => data.take(4) == u32_le(0),
        StakeAccountState::Initialized => data.take(4) == u32_le(1) && data.len() >= d,
        StakeAccountState::Stake { voter, stake, activation_epoch, deactivation_epoch } => {
            &&& data.take(4) == u32_le(STAKE_STATE_STAKE_TAG)
            &&& data.len() >= d + STAKE_AND_FLAGS_SIZE
            &&& data.subrange(d, d + 32) == voter.bytes@
            &&& data.subrange(d + 32, d + 40) == u64_le(stake)
            &&& data.subrange(d + 40, d + 48) == u64_le(activation_epoch)
            &&& data.subrange(d + 48, d + 56) == u64_le(deactivation_epoch)
        },
        StakeAccountState::RewardsPool => data.take(4) == u32_le(3),
    }
}

/// Reads a stake account's state through `BorshDeserialize` of
/// `solana_sdk::stake::state::StakeStateV2`.
/// Claimed: the result is `stake_state_of` of the bytes; what is read lies
/// in the bytes as `stake_state_layout` says (the source reads a `u32` tag,
/// then the derived layouts of `Meta`, `Stake` and `StakeFlags`). Where the
/// source refuses bytes that hold a full layout (a tag above 3, or a
/// warm-up rate that is not a number) is left to the name.
#[verifier::external_body]
fn decode_stake_state(data: &[u8]) -> (state: Option<StakeAccountState>)
    ensures
        state == stake_state_of(data@),
        state matches Some(s) ==> stake_state_layout(data@, s),
{
    let mut bytes: &[u8] = data;
    match <StakeStateV2 as borsh::BorshDeserialize>::deserialize(&mut bytes) {
        Ok(StakeStateV2::Uninitialized) => Some(StakeAccountState::Uninitialized),
        Ok(StakeStateV2::Initialized(_)) => Some(StakeAccountState::Initialized),
        Ok(StakeStateV2::Stake(_, s, _)) => Some(StakeAccountState::Stake {
            voter: Pubkey { bytes: s.delegation.voter_pubkey.to_bytes() },
            stake: s.delegation.stake,
            activation_epoch: s.delegation.activation_epoch,
            deactivation_epoch: s.delegation.deactivation_epoch,
        }),
        Ok(StakeStateV2::RewardsPool) => Some(StakeAccountState::RewardsPool),
        Err(_) => None,
    }
}

/// The states of the fetched stake accounts, each read from its data, in
/// order; `Err` with the position of the first account whose data is no
/// stake state.
pub fn decode_stake_accounts(accounts: Vec<(Pubkey, Vec<u8>)>) -> (r: Result<Vec<(Pubkey, StakeAccountState)>, usize>)
    ensures
        r matches Ok(v) ==> v@.len() == accounts@.len() && forall|i: int| 0 <= i < v@.len() ==>
            (#[trigger] v@[i]).0 == accounts@[i].0 && stake_state_of(accounts@[i].1@) == Some(v@[i].1),
        r matches Err(i) ==> i < accounts@.len() && stake_state_of(accounts@[i as int].1@) is None
            && forall|j: int| 0 <= j < i ==> stake_state_of(#[trigger] accounts@[j].1@) is Some,
{
    let mut states: Vec<(Pubkey, StakeAccountState)> = Vec::new();
    let mut i: usize = 0;
    while i < accounts.len()
        invariant
            i <= accounts@.len(),
            states@.len() == i,
            forall|j: int| 0 <= j < i ==>
                (#[trigger] states@[j]).0 == accounts@[j].0 && stake_state_of(accounts@[j].1@) == Some(states@[j].1),
        decreases accounts@.len() - i,
    {
        match decode_stake_state(accounts[i].1.as_slice()) {
            Some(state) => states.push((accounts[i].0, state)),
            None => {
                assert forall|j: int| 0 <= j < i implies stake_state_of(#[trigger] accounts@[j].1@) is Some by {
                    assert(states@[j].0 == accounts@[j].0);
                }
                return Err(i);
            },
        }
        i = i + 1;
    }
    Ok(states)
}

/// The activation epoch of a delegated account; `None` for the others.
pub open spec fn activation_epoch_of(state: StakeAccountState) -> Option<u64> {
    match state {
        StakeAccountState::Stake { activation_epoch, .. } => Some(activation_epoch),
        _ => None,
    }
}

/// The activation epoch of each account, in order: `None` where the
/// account holds no delegation.
pub fn activation_epochs(states: &Vec<(Pubkey, StakeAccountState)>) -> (epochs: Vec<Option<u64>>)
    ensures
        epochs@.len() == states@.len(),
        forall|i: int| 0 <= i < states@.len() ==> #[trigger] epochs@[i] == activation_epoch_of(states@[i].1),
{
    let mut epochs: Vec<Option<u64>> = Vec::new();
    let mut i: usize = 0;
    while i < states.len()
        invariant
            i <= states@.len(),
            epochs@.len() == i,
            forall|j: int| 0 <= j < i ==> #[trigger] epochs@[j] == activation_epoch_of(states@[j].1),
        decreases states@.len() - i,
    {
        let e = match states[i].1 {
            StakeAccountState::Stake { activation_epoch, .. } => Some(activation_epoch),
            _ => None,
        };
        epochs.push(e);
        i = i + 1;
    }
    epochs
}

} // verus!
