use vstd::prelude::*;
use crate::pubkey::Pubkey;
use crate::tracker::rpc_utils::{
    activation_epoch_of, activation_epochs, decode_stake_accounts, stake_state_of, StakeAccountState,
};

verus! {

/// Vote account whose stake accounts the tracker samples.
pub const SAMPLED_VOTE_ACCOUNT: &'static str = "9QU2QSxhb24FUX3Tu2FpczXjpK3VYrvRudywSZaM29mF";

/// How many stake accounts the tracker keeps.
pub const STAKE_ACCOUNT_SAMPLE_SIZE: usize = 10;

/// Account `a` comes before account `b`: it was activated earlier, or in the
/// same epoch and listed earlier.
pub open spec fn activated_before(epochs: Seq<Option<u64>>, a: int, b: int) -> bool {
    epochs[a]->0 < epochs[b]->0 || (epochs[a]->0 == epochs[b]->0 && a < b)
}

/// `sample` lists, by activation epoch (ties in listing order), the `limit`
/// earliest-activated accounts among the delegated ones (those with an
/// activation epoch) of the first `upto` accounts, or all of them where
/// there are fewer.
pub open spec fn is_earliest_sample(epochs: Seq<Option<u64>>, upto: int, sample: Seq<usize>, limit: nat) -> bool {
    &&& sample.len() <= limit
    &&& forall|j: int| 0 <= j < sample.len() ==> #[trigger] sample[j] < upto && epochs[sample[j] as int] is Some
    &&& forall|j: int, k: int| 0 <= j < k < sample.len()
        ==> activated_before(epochs, #[trigger] sample[j] as int, #[trigger] sample[k] as int)
    &&& forall|i: int| 0 <= i < upto && epochs[i] is Some && !sample.contains(i as usize)
        ==> sample.len() == limit && activated_before(epochs, sample[sample.len() - 1] as int, i)
}

/// The positions of the stake accounts with the longest history: the ten
/// delegated accounts activated first, earliest first (ties keep the order
/// in which the accounts are listed); fewer where fewer are delegated.
pub fn select_longest_history(activation_epochs: &Vec<Option<u64>>) -> (sample: Vec<usize>)
    ensures
        is_earliest_sample(activation_epochs@, activation_epochs@.len() as int, sample@,
            STAKE_ACCOUNT_SAMPLE_SIZE as nat),
{
    select_earliest(activation_epochs, STAKE_ACCOUNT_SAMPLE_SIZE)
}

/// The `limit` delegated accounts activated first, earliest first.
pub fn select_earliest(epochs: &Vec<Option<u64>>, limit: usize) -> (sample: Vec<usize>)
    requires
        limit > 0,
    ensures
        is_earliest_sample(epochs@, epochs@.len() as int, sample@, limit as nat),
{
    let n = epochs.len();
    let mut sample: Vec<usize> = Vec::new();
    let mut i: usize = 0;
    while i < n
        invariant
            n == epochs@.len(),
            limit > 0,
            i <= n,
            is_earliest_sample(epochs@, i as int, sample@, limit as nat),
        decreases n - i,
    {
        match epochs[i] {
            None => {
                assert(is_earliest_sample(epochs@, i + 1, sample@, limit as nat));
            },
            Some(a) => {
                insert_in_sample(epochs, &mut sample, limit, i, a);
            },
        }
        i = i + 1;
    }
    sample
}

proof fn lemma_before_transitive(e: Seq<Option<u64>>, a: int, b: int, c: int)
    requires
        activated_before(e, a, b),
        activated_before(e, b, c),
    ensures
        activated_before(e, a, c),
{
}

/// Takes account `i`, activated in epoch `a`, into the sample of the
/// accounts before it.
fn insert_in_sample(epochs: &Vec<Option<u64>>, sample: &mut Vec<usize>, limit: usize, i: usize, a: u64)
    requires
        limit > 0,
        i < epochs@.len(),
        epochs@[i as int] == Some(a),
        is_earliest_sample(epochs@, i as int, old(sample)@, limit as nat),
    ensures
        is_earliest_sample(epochs@, i + 1, final(sample)@, limit as nat),
{
    let ghost e = epochs@;
    let ghost s0 = sample@;
    let len = sample.len();
    let mut p: usize = 0;
    while p < len && epochs[sample[p]].unwrap() <= a
        invariant
            e == epochs@,
            s0 == sample@,
            len == s0.len(),
            i < e.len(),
            p <= len,
            is_earliest_sample(e, i as int, s0, limit as nat),
            forall|j: int| 0 <= j < p ==> e[s0[j] as int]->0 <= a,
        decreases len - p,
    {
        assert(s0[p as int] < i && e[s0[p as int] as int] is Some);
        p = p + 1;
    }
    // Accounts before `p` come before `i`, those from `p` on after it.
    assert forall|j: int| 0 <= j < p implies activated_before(e, #[trigger] s0[j] as int, i as int) by {}
    assert forall|j: int| p <= j < len implies activated_before(e, i as int, #[trigger] s0[j] as int) by {
        if j > p {
            assert(activated_before(e, s0[p as int] as int, s0[j] as int));
        }
    }
    if len < limit {
        sample.insert(p, i);
        let ghost s1 = sample@;
        assert(s1 == s0.insert(p as int, i));
        assert forall|j: int, k: int| 0 <= j < k < s1.len()
            implies activated_before(e, #[trigger] s1[j] as int, #[trigger] s1[k] as int) by {
            if k < p {
            } else if k == p {
            } else if j < p {
                lemma_before_transitive(e, s1[j] as int, i as int, s1[k] as int);
            } else if j == p {
            } else {
            }
        }
        assert forall|x: int| 0 <= x < i + 1 && e[x] is Some && !s1.contains(x as usize)
            implies s1.len() == limit && activated_before(e, s1[s1.len() - 1] as int, x) by {
            if x == i {
                assert(s1[p as int] == i);
            } else {
                assert forall|j: int| 0 <= j < s0.len() implies s1.contains(#[trigger] s0[j]) by {
                    if j < p { assert(s1[j] == s0[j]); } else { assert(s1[j + 1] == s0[j]); }
                }
                if s0.contains(x as usize) {
                    let j = choose|j: int| 0 <= j < s0.len() && s0[j] == x as usize;
                    assert(s1.contains(s0[j]));
                }
            }
        }
    } else if p < limit {
        sample.insert(p, i);
        let last = sample.pop();
        let ghost s1 = sample@;
        assert(s1 =~= s0.insert(p as int, i).drop_last());
        assert forall|j: int, k: int| 0 <= j < k < s1.len()
            implies activated_before(e, #[trigger] s1[j] as int, #[trigger] s1[k] as int) by {
            if k < p {
            } else if k == p {
            } else if j < p {
                lemma_before_transitive(e, s1[j] as int, i as int, s1[k] as int);
            } else if j == p {
            } else {
            }
        }
        let ghost dropped = s0[len - 1];
        assert forall|x: int| 0 <= x < i + 1 && e[x] is Some && !s1.contains(x as usize)
            implies s1.len() == limit && activated_before(e, s1[s1.len() - 1] as int, x) by {
            let l = s1[s1.len() - 1] as int;
            // The new last comes before the dropped one.
            if p == len - 1 {
                assert(l == i);
            } else {
                assert(l == s0[len - 2] as int);
                assert(activated_before(e, s0[len - 2] as int, s0[len - 1] as int));
            }
            assert(activated_before(e, l, dropped as int));
            if x == i {
                assert(s1[p as int] == i);
            } else if x == dropped as int {
            } else {
                assert forall|j: int| 0 <= j < s0.len() - 1 implies s1.contains(#[trigger] s0[j]) by {
                    if j < p { assert(s1[j] == s0[j]); } else { assert(s1[j + 1] == s0[j]); }
                }
                if s0.contains(x as usize) {
                    let j = choose|j: int| 0 <= j < s0.len() && s0[j] == x as usize;
                    if j < s0.len() - 1 {
                        assert(s1.contains(s0[j]));
                    }
                }
                assert(activated_before(e, dropped as int, x));
                lemma_before_transitive(e, l, dropped as int, x);
            }
        }
    } else {
        assert forall|x: int| 0 <= x < i + 1 && e[x] is Some && !s0.contains(x as usize)
            implies s0.len() == limit && activated_before(e, s0[s0.len() - 1] as int, x) by {
        }
    }
}

/// The activation epoch of each fetched account, read from its data:
/// `None` where it holds no delegation or no stake state.
pub open spec fn fetched_activation_epochs(accounts: Seq<(Pubkey, Vec<u8>)>) -> Seq<Option<u64>> {
    Seq::new(accounts.len(), |i: int| match stake_state_of(accounts[i].1@) {
        Some(s) => activation_epoch_of(s),
        None => None,
    })
}

/// The fetched stake accounts with the longest history: each account's data
/// read as its state, then the ten delegated accounts activated first,
/// earliest first, with their states; `Err` with the position of the first
/// account whose data is no stake state.
pub fn sample_stake_accounts(accounts: Vec<(Pubkey, Vec<u8>)>) -> (r: Result<Vec<(Pubkey, StakeAccountState)>, usize>)
    ensures
        r matches Err(i) ==> i < accounts@.len() && stake_state_of(accounts@[i as int].1@) is None
            && forall|j: int| 0 <= j < i ==> stake_state_of(#[trigger] accounts@[j].1@) is Some,
        r matches Ok(v) ==> {
            &&& forall|i: int| 0 <= i < accounts@.len() ==> stake_state_of(#[trigger] accounts@[i].1@) is Some
            &&& exists|sample: Seq<usize>| {
                &&& is_earliest_sample(fetched_activation_epochs(accounts@), accounts@.len() as int, sample,
                    STAKE_ACCOUNT_SAMPLE_SIZE as nat)
                &&& v@.len() == sample.len()
                &&& forall|j: int| 0 <= j < v@.len() ==> (#[trigger] v@[j]).0 == accounts@[sample[j] as int].0
                    && stake_state_of(accounts@[sample[j] as int].1@) == Some(v@[j].1)
            }
        },
{
    let ghost fetched = accounts@;
    let states = match decode_stake_accounts(accounts) {
        Err(i) => return Err(i),
        Ok(states) => states,
    };
    let epochs = activation_epochs(&states);
    assert(epochs@ =~= fetched_activation_epochs(fetched));
    let sample = select_longest_history(&epochs);
    let mut chosen: Vec<(Pubkey, StakeAccountState)> = Vec::new();
    let mut j: usize = 0;
    while j < sample.len()
        invariant
            j <= sample@.len(),
            chosen@.len() == j,
            states@.len() == fetched.len(),
            forall|i: int| 0 <= i < fetched.len() ==>
                (#[trigger] states@[i]).0 == fetched[i].0 && stake_state_of(fetched[i].1@) == Some(states@[i].1),
            forall|k: int| 0 <= k < sample@.len() ==> #[trigger] sample@[k] < fetched.len(),
            forall|k: int| 0 <= k < j ==> (#[trigger] chosen@[k]).0 == fetched[sample@[k] as int].0
                && stake_state_of(fetched[sample@[k] as int].1@) == Some(chosen@[k].1),
        decreases sample@.len() - j,
    {
        let p = sample[j];
        chosen.push(states[p]);
        j = j + 1;
    }
    assert forall|i: int| 0 <= i < fetched.len() implies stake_state_of(#[trigger] fetched[i].1@) is Some by {
        assert(states@[i].0 == fetched[i].0);
    }
    Ok(chosen)
}

} // verus!
