use vstd::prelude::*;
use std::collections::HashMap;
use crate::db::accounts::{self, ValidatorHistoryAccount, MAX_HISTORY_ITEMS};
use crate::db::validator_history_entry::ValidatorHistoryEntry;
use crate::pubkey::{address_from_base58, zero_address_base58, Pubkey};
use vstd::std_specs::iter::IteratorSpec;

verus! {

broadcast use vstd::std_specs::hash::group_hash_axioms;

/// The base58 text of the system program's address.
pub open spec fn system_program_text() -> Seq<char> {
    zero_address_base58()
}

/// An entry that belongs to a real vote account, not to the system program
/// placeholder.
pub open spec fn names_vote_account(e: ValidatorHistoryEntry) -> bool {
    e.vote_pubkey@ != system_program_text()
}

/// The epochs of `h` strictly increase.
pub open spec fn epochs_increase(h: Seq<accounts::ValidatorHistoryEntry>) -> bool {
    forall|i: int, j: int| 0 <= i < j < h.len() ==> h[i].epoch < h[j].epoch
}

/// Some key of `m` holds the program entry `e`.
pub open spec fn map_holds_entry(m: Map<u16, ValidatorHistoryEntry>, e: accounts::ValidatorHistoryEntry) -> bool {
    exists|k: u16| #[trigger] m.contains_key(k) && m[k].validator_history_entry == e
}

/// `h` holds the entries of `m` once per epoch, in epoch order: every entry
/// of `h` is an entry of `m`, and every epoch of `m` has an entry in `h`.
pub open spec fn is_full_history_of(h: Seq<accounts::ValidatorHistoryEntry>, m: Map<u16, ValidatorHistoryEntry>) -> bool {
    &&& epochs_increase(h)
    &&& forall|i: int| 0 <= i < h.len() ==> map_holds_entry(m, #[trigger] h[i])
    &&& forall|k: u16| #[trigger] m.contains_key(k) ==>
        exists|i: int| 0 <= i < h.len() && h[i].epoch == m[k].validator_history_entry.epoch
}

/// `h` holds the entries of `m` once per epoch, in epoch order, as far as
/// the history buffer's `MAX_HISTORY_ITEMS` entries reach: every entry of
/// `h` is an entry of `m`, and every epoch of `m` has an entry in `h`
/// except, where `h` is full, the epochs older than all of it.
pub open spec fn is_history_of(h: Seq<accounts::ValidatorHistoryEntry>, m: Map<u16, ValidatorHistoryEntry>) -> bool {
    &&& epochs_increase(h)
    &&& h.len() <= MAX_HISTORY_ITEMS
    &&& forall|i: int| 0 <= i < h.len() ==> map_holds_entry(m, #[trigger] h[i])
    &&& forall|k: u16| #[trigger] m.contains_key(k) ==>
        (exists|i: int| 0 <= i < h.len() && h[i].epoch == m[k].validator_history_entry.epoch)
        || (h.len() == MAX_HISTORY_ITEMS && m[k].validator_history_entry.epoch < h[0].epoch)
}

/// Where every entry is stored under its own epoch, the history is exactly
/// the newest `MAX_HISTORY_ITEMS` of the map's entries in epoch order: each
/// entry of the history is the one stored under its epoch, and each stored
/// entry is in the history unless the history is full and the entry older
/// than all of it.
pub proof fn lemma_history_of_epoch_keyed_map(h: Seq<accounts::ValidatorHistoryEntry>, m: Map<u16, ValidatorHistoryEntry>)
    requires
        is_history_of(h, m),
        forall|k: u16| #[trigger] m.contains_key(k) ==> m[k].validator_history_entry.epoch == k,
    ensures
        forall|i: int| 0 <= i < h.len() ==>
            m.contains_key(#[trigger] h[i].epoch) && h[i] == m[h[i].epoch].validator_history_entry,
        forall|k: u16| #[trigger] m.contains_key(k) ==>
            (exists|i: int| 0 <= i < h.len() && h[i] == m[k].validator_history_entry)
            || (h.len() == MAX_HISTORY_ITEMS && k < h[0].epoch),
{
    assert forall|i: int| 0 <= i < h.len() implies
        m.contains_key(#[trigger] h[i].epoch) && h[i] == m[h[i].epoch].validator_history_entry by {
        assert(map_holds_entry(m, h[i]));
        let k = choose|k: u16| #[trigger] m.contains_key(k) && m[k].validator_history_entry == h[i];
        assert(k == h[i].epoch);
    }
    assert forall|k: u16| #[trigger] m.contains_key(k) implies
        (exists|i: int| 0 <= i < h.len() && h[i] == m[k].validator_history_entry)
        || (h.len() == MAX_HISTORY_ITEMS && k < h[0].epoch) by {
        if exists|i: int| 0 <= i < h.len() && h[i].epoch == m[k].validator_history_entry.epoch {
            let i = choose|i: int| 0 <= i < h.len() && h[i].epoch == m[k].validator_history_entry.epoch;
            assert(m.contains_key(h[i].epoch) && h[i] == m[h[i].epoch].validator_history_entry);
        }
    }
}

/// The newest `MAX_HISTORY_ITEMS` entries of an epoch-ordered history, as
/// the history buffer keeps them.
fn newest_entries(full: Vec<accounts::ValidatorHistoryEntry>, Ghost(m): Ghost<Map<u16, ValidatorHistoryEntry>>)
    -> (h: Vec<accounts::ValidatorHistoryEntry>)
    requires
        is_full_history_of(full@, m),
    ensures
        is_history_of(h@, m),
        h@ == (if full@.len() <= MAX_HISTORY_ITEMS { full@ } else {
            full@.subrange(full@.len() - MAX_HISTORY_ITEMS, full@.len() as int)
        }),
{
    let n = full.len();
    if n <= MAX_HISTORY_ITEMS {
        return full;
    }
    let drop = n - MAX_HISTORY_ITEMS;
    let mut h: Vec<accounts::ValidatorHistoryEntry> = Vec::new();
    let mut i: usize = drop;
    while i < n
        invariant
            n == full@.len(),
            drop == n - MAX_HISTORY_ITEMS,
            drop <= i <= n,
            h@ == full@.subrange(drop as int, i as int),
        decreases n - i,
    {
        h.push(full[i]);
        assert(h@ =~= full@.subrange(drop as int, i + 1));
        i = i + 1;
    }
    let ghost f = full@;
    assert forall|a: int, b: int| 0 <= a < b < h@.len() implies h@[a].epoch < h@[b].epoch by {
        assert(h@[a] == f[a + drop] && h@[b] == f[b + drop]);
    }
    assert forall|a: int| 0 <= a < h@.len() implies map_holds_entry(m, #[trigger] h@[a]) by {
        assert(h@[a] == f[a + drop]);
    }
    assert forall|k: u16| #[trigger] m.contains_key(k) implies
        (exists|a: int| 0 <= a < h@.len() && h@[a].epoch == m[k].validator_history_entry.epoch)
        || (h@.len() == MAX_HISTORY_ITEMS && m[k].validator_history_entry.epoch < h@[0].epoch) by {
        let j = choose|j: int| 0 <= j < f.len() && f[j].epoch == m[k].validator_history_entry.epoch;
        if j >= drop {
            assert(h@[j - drop] == f[j]);
        } else {
            assert(h@[0] == f[drop as int]);
        }
    }
    h
}

/// The validator history entries of one validator, by epoch.
pub struct EpochToValdiatorHistoryEntry(pub HashMap<u16, ValidatorHistoryEntry>);

/// Puts `entry` in its place in the epoch-ordered `history`, in place of an
/// entry of the same epoch if there is one.
fn place_entry(history: &mut Vec<accounts::ValidatorHistoryEntry>, entry: accounts::ValidatorHistoryEntry)
    requires
        epochs_increase(old(history)@),
    ensures
        epochs_increase(final(history)@),
        exists|i: int| 0 <= i < final(history)@.len() && final(history)@[i] == entry,
        forall|i: int| 0 <= i < final(history)@.len() ==>
            final(history)@[i] == entry || old(history)@.contains(#[trigger] final(history)@[i]),
        forall|j: int| 0 <= j < old(history)@.len() ==>
            exists|i: int| 0 <= i < final(history)@.len() && final(history)@[i].epoch == #[trigger] old(history)@[j].epoch,
{
    let n = history.len();
    let mut p: usize = 0;
    while p < n && history[p].epoch < entry.epoch
        invariant
            n == history@.len(),
            p <= n,
            forall|j: int| 0 <= j < p ==> history@[j].epoch < entry.epoch,
        decreases n - p,
    {
        p = p + 1;
    }
    let ghost before = history@;
    if p < n && history[p].epoch == entry.epoch {
        history.set(p, entry);
        assert(history@[p as int] == entry);
        assert forall|i: int| 0 <= i < history@.len() implies
            history@[i] == entry || before.contains(#[trigger] history@[i]) by {
            if i != p {
                assert(history@[i] == before[i]);
            }
        }
        assert forall|j: int| 0 <= j < before.len() implies
            exists|i: int| 0 <= i < history@.len() && history@[i].epoch == #[trigger] before[j].epoch by {
            if j == p {
                assert(history@[j].epoch == before[j].epoch);
            } else {
                assert(history@[j] == before[j]);
            }
        }
    } else {
        history.insert(p, entry);
        assert(history@[p as int] == entry);
        assert forall|i: int| 0 <= i < history@.len() implies
            history@[i] == entry || before.contains(#[trigger] history@[i]) by {
            if i < p {
                assert(history@[i] == before[i]);
            } else if i > p {
                assert(history@[i] == before[i - 1]);
            }
        }
        assert forall|j: int| 0 <= j < before.len() implies
            exists|i: int| 0 <= i < history@.len() && history@[i].epoch == #[trigger] before[j].epoch by {
            if j < p {
                assert(history@[j] == before[j]);
            } else {
                assert(history@[j + 1] == before[j]);
            }
        }
    }
}

impl EpochToValdiatorHistoryEntry {
    /// The entry recorded for `current_epoch`, if any.
    pub fn get_latest(&self, current_epoch: u16) -> (entry: Option<&ValidatorHistoryEntry>)
        ensures
            match entry {
                Some(e) => self.0@.contains_key(current_epoch) && *e == self.0@[current_epoch],
                None => !self.0@.contains_key(current_epoch),
            },
    {
        self.0.get(&current_epoch)
    }

    /// The validator-history account that these entries make up: the vote
    /// account of an entry that names one (where several do, the hash map's
    /// walk decides which), zero header values, and the entries once per
    /// epoch in epoch order, a later entry of the walk in place of an earlier
    /// one of the same epoch, only the newest `MAX_HISTORY_ITEMS` kept.
    /// Some entry must name a vote account; `None` where the one chosen is
    /// no address.
    pub fn to_validator_history(self) -> (account: Option<ValidatorHistoryAccount>)
        requires
            exists|k: u16| #[trigger] self.0@.contains_key(k) && names_vote_account(self.0@[k]),
        ensures
            account is None ==>
                exists|k: u16| #[trigger] self.0@.contains_key(k) && names_vote_account(self.0@[k])
                    && address_from_base58(self.0@[k].vote_pubkey@) is None,
            account matches Some(a) ==> {
                &&& exists|k: u16| #[trigger] self.0@.contains_key(k) && names_vote_account(self.0@[k])
                    && address_from_base58(self.0@[k].vote_pubkey@) == Some(a.vote_account.bytes@)
                &&& a.struct_version == 0
                &&& a.index == 0
                &&& a.bump == 0
                &&& a.last_ip_timestamp == 0
                &&& a.last_version_timestamp == 0
                &&& is_history_of(a.history@, self.0@)
            },
    {
        let ghost m = self.0@;
        let (vote_account, full) = self.scan();
        let history = newest_entries(full, Ghost(m));
        match vote_account {
            None => None,
            Some(text) => match Pubkey::from_str(text.as_str()) {
                None => None,
                Some(key) => Some(ValidatorHistoryAccount {
                    struct_version: 0,
                    vote_account: key,
                    index: 0,
                    bump: 0,
                    last_ip_timestamp: 0,
                    last_version_timestamp: 0,
                    history,
                }),
            },
        }
    }

    /// One walk over the map: the vote account text of the first entry that
    /// names one, and the entries placed once per epoch in epoch order.
    fn scan(&self) -> (r: (Option<String>, Vec<accounts::ValidatorHistoryEntry>))
        ensures
            r.0 is None ==> forall|k: u16| #[trigger] self.0@.contains_key(k) ==> !names_vote_account(self.0@[k]),
            r.0 matches Some(s) ==> exists|k: u16| #[trigger] self.0@.contains_key(k)
                && names_vote_account(self.0@[k]) && self.0@[k].vote_pubkey@ == s@,
            is_full_history_of(r.1@, self.0@),
    {
        let system_key = Pubkey::system_program();
        let system_text = system_key.to_string();
        let ghost m = self.0@;
        let ghost walk = vstd::std_specs::hash::spec_hash_map_iter(&self.0).remaining();
        let mut vote_account: Option<String> = None;
        let mut history: Vec<accounts::ValidatorHistoryEntry> = Vec::new();
        for item in it: self.0.iter()
            invariant
                m == self.0@,
                system_text@ == system_program_text(),
                it.seq() == walk,
                scan_state(walk, it.index(), vote_account, history@),
        {
            let (_, entry) = item;
            if vote_account.is_none() && entry.vote_pubkey != system_text {
                vote_account = Some(entry.vote_pubkey.clone());
            }
            place_entry(&mut history, entry.validator_history_entry);
        }
        proof {
            assert(scan_state(walk, walk.len() as int, vote_account, history@));
            lemma_walk_matches_map(&self.0);
            lemma_scan_vote(m, walk, vote_account);
            assert(history_state(walk, walk.len() as int, history@));
            lemma_scan_entries_from_map(m, walk, history@);
            lemma_scan_epochs_covered(m, walk, history@);
        }
        (vote_account, history)
    }
}

/// What a walk has gathered after its first `done` items.
pub open spec fn scan_state(
    walk: Seq<(&u16, &ValidatorHistoryEntry)>,
    done: int,
    vote_account: Option<String>,
    h: Seq<accounts::ValidatorHistoryEntry>,
) -> bool {
    &&& history_state(walk, done, h)
    &&& match vote_account {
        None => forall|j: int| 0 <= j < done ==> !names_vote_account(*#[trigger] walk[j].1),
        Some(s) => exists|j: int| 0 <= j < done && names_vote_account(*#[trigger] walk[j].1)
            && (*walk[j].1).vote_pubkey@ == s@,
    }
}

/// The history that a walk has gathered after its first `done` items.
pub open spec fn history_state(
    walk: Seq<(&u16, &ValidatorHistoryEntry)>,
    done: int,
    h: Seq<accounts::ValidatorHistoryEntry>,
) -> bool {
    &&& epochs_increase(h)
    &&& forall|i: int| #![trigger h[i]] 0 <= i < h.len() ==>
        exists|j: int| 0 <= j < done && (*walk[j].1).validator_history_entry == h[i]
    &&& forall|j: int| 0 <= j < done ==>
        exists|i: int| 0 <= i < h.len() && h[i].epoch == (*#[trigger] walk[j].1).validator_history_entry.epoch
}

proof fn lemma_walk_matches_map(map: &HashMap<u16, ValidatorHistoryEntry>)
    ensures
        ({
            let m = map@;
            let walk = vstd::std_specs::hash::spec_hash_map_iter(map).remaining();
            &&& forall|k: u16| #[trigger] m.contains_key(k) ==>
                exists|j: int| 0 <= j < walk.len() && *walk[j].0 == k && *walk[j].1 == m[k]
            &&& forall|j: int| #![trigger walk[j]] 0 <= j < walk.len() ==>
                m.contains_key(*walk[j].0) && m[*walk[j].0] == *walk[j].1
        }),
{
    let m = map@;
    let walk = vstd::std_specs::hash::spec_hash_map_iter(map).remaining();
    assert forall|k: u16| #[trigger] m.contains_key(k) implies
        exists|j: int| 0 <= j < walk.len() && *walk[j].0 == k && *walk[j].1 == m[k] by {
        assert(walk.contains((&k, &m[k])));
        let j = choose|j: int| 0 <= j < walk.len() && walk[j] == (&k, &m[k]);
        assert(*walk[j].0 == k && *walk[j].1 == m[k]);
    }
}

proof fn lemma_scan_vote(
    m: Map<u16, ValidatorHistoryEntry>,
    walk: Seq<(&u16, &ValidatorHistoryEntry)>,
    vote_account: Option<String>,
)
    requires
        forall|k: u16| #[trigger] m.contains_key(k) ==>
            exists|j: int| 0 <= j < walk.len() && *walk[j].0 == k && *walk[j].1 == m[k],
        forall|j: int| #![trigger walk[j]] 0 <= j < walk.len() ==>
            m.contains_key(*walk[j].0) && m[*walk[j].0] == *walk[j].1,
        match vote_account {
            None => forall|j: int| 0 <= j < walk.len() ==> !names_vote_account(*#[trigger] walk[j].1),
            Some(s) => exists|j: int| 0 <= j < walk.len() && names_vote_account(*#[trigger] walk[j].1)
                && (*walk[j].1).vote_pubkey@ == s@,
        },
    ensures
        vote_account is None ==> forall|k: u16| #[trigger] m.contains_key(k) ==> !names_vote_account(m[k]),
        vote_account matches Some(s) ==> exists|k: u16| #[trigger] m.contains_key(k)
            && names_vote_account(m[k]) && m[k].vote_pubkey@ == s@,
{
    if vote_account is None {
        assert forall|k: u16| #[trigger] m.contains_key(k) implies !names_vote_account(m[k]) by {
            let j = choose|j: int| 0 <= j < walk.len() && *walk[j].0 == k && *walk[j].1 == m[k];
            assert(!names_vote_account(*walk[j].1));
        }
    } else {
        let s = vote_account->0;
        let j = choose|j: int| 0 <= j < walk.len() && names_vote_account(*#[trigger] walk[j].1)
            && (*walk[j].1).vote_pubkey@ == s@;
        let k = *walk[j].0;
        assert(m.contains_key(k) && m[k] == *walk[j].1);
    }
}

proof fn lemma_scan_entries_from_map(
    m: Map<u16, ValidatorHistoryEntry>,
    walk: Seq<(&u16, &ValidatorHistoryEntry)>,
    h: Seq<accounts::ValidatorHistoryEntry>,
)
    requires
        forall|j: int| #![trigger walk[j]] 0 <= j < walk.len() ==>
            m.contains_key(*walk[j].0) && m[*walk[j].0] == *walk[j].1,
        history_state(walk, walk.len() as int, h),
    ensures
        forall|i: int| 0 <= i < h.len() ==> map_holds_entry(m, #[trigger] h[i]),
{
    assert forall|i: int| 0 <= i < h.len() implies map_holds_entry(m, #[trigger] h[i]) by {
        let jj = choose|jj: int| 0 <= jj < walk.len() as int && (*walk[jj].1).validator_history_entry == h[i];
        let k = *walk[jj].0;
        assert(m.contains_key(k) && m[k] == *walk[jj].1);
        assert(m[k].validator_history_entry == h[i]);
    }
}

proof fn lemma_scan_epochs_covered(
    m: Map<u16, ValidatorHistoryEntry>,
    walk: Seq<(&u16, &ValidatorHistoryEntry)>,
    h: Seq<accounts::ValidatorHistoryEntry>,
)
    requires
        forall|k: u16| #[trigger] m.contains_key(k) ==>
            exists|j: int| 0 <= j < walk.len() && *walk[j].0 == k && *walk[j].1 == m[k],
        history_state(walk, walk.len() as int, h),
    ensures
        forall|k: u16| #[trigger] m.contains_key(k) ==>
            exists|i: int| 0 <= i < h.len() && h[i].epoch == m[k].validator_history_entry.epoch,
{
    assert forall|k: u16| #[trigger] m.contains_key(k) implies
        exists|i: int| 0 <= i < h.len() && h[i].epoch == m[k].validator_history_entry.epoch by {
        let jj = choose|jj: int| 0 <= jj < walk.len() && *walk[jj].0 == k && *walk[jj].1 == m[k];
        assert(exists|i: int| 0 <= i < h.len()
            && h[i].epoch == (*walk[jj].1).validator_history_entry.epoch);
    }
}

} // verus!
