use vstd::prelude::*;
use crate::cli::commands::backtest::BacktestArgs;

verus! {

/// The score of a validator under the run's parameters; every validator
/// scores 1.
pub fn validator_score(parameters: &BacktestArgs, current_epoch: u16) -> (score: u64)
    ensures
        score == 1,
{
    1u64
}

} // verus!
