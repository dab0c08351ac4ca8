use stakenet_simulator::cli::commands::backtest::{
    BacktestArgs, BacktestPlan, StewardParameters, NUMBER_OF_VALIDATOR_DELEGATIONS,
};
use stakenet_simulator::cli::utils::validator_score;

fn params() -> StewardParameters {
    StewardParameters {
        mev_commission_range: 10,
        epoch_credits_range: 30,
        commission_range: 20,
        mev_commission_bps_threshold: 1000,
        commission_threshold: 5,
        historical_commission_threshold: 50,
        priority_fee_lookback_epochs: 10,
        priority_fee_lookback_offset: 2,
        priority_fee_max_commission_bps: 5000,
        priority_fee_error_margin_bps: 10,
        num_delegation_validators: 200,
        scoring_unstake_cap_bps: 750,
        instant_unstake_cap_bps: 1000,
        stake_deposit_unstake_cap_bps: 1000,
        compute_score_slot_range: 1000,
        num_epochs_between_scoring: 10,
        minimum_stake_lamports: 5_000_000_000_000,
        minimum_voting_epochs: 5,
        priority_fee_scoring_start_epoch: 800,
    }
}

#[test]
fn default_args_override_nothing() {
    let args = BacktestArgs::default();
    assert_eq!(args.steward_cycle_rate, 10);
    assert_eq!(args.target_epoch, None);
    let mut config = params();
    args.update_steward_config(&mut config);
    assert_eq!(config, params());
}

#[test]
fn given_args_override_config() {
    let mut args = BacktestArgs::default();
    args.mev_commission_range = Some(40);
    args.commission_threshold = Some(7);
    args.minimum_stake_lamports = Some(1);
    args.priority_fee_scoring_start_epoch = Some(900);
    let mut config = params();
    args.update_steward_config(&mut config);
    let mut expected = params();
    expected.mev_commission_range = 40;
    expected.commission_threshold = 7;
    expected.minimum_stake_lamports = 1;
    expected.priority_fee_scoring_start_epoch = 900;
    assert_eq!(config, expected);
    args.update_steward_config(&mut config);
    assert_eq!(config, expected);
}

#[test]
fn plan_looks_back_from_current_epoch() {
    let args = BacktestArgs::default();
    let plan = BacktestPlan::new(&args, &params(), 800, 65);
    assert_eq!(plan.simulation_start_epoch, 735);
    assert_eq!(plan.simulation_end_epoch, 800);
    assert_eq!(plan.steward_cycle_rate, 10);
    assert_eq!(plan.number_of_validator_delegations, NUMBER_OF_VALIDATOR_DELEGATIONS);
    assert_eq!(plan.number_of_validator_delegations, 200);
    assert_eq!(plan.instant_unstake_cap_bps, 1000);
    assert_eq!(plan.scoring_unstake_cap_bps, 750);
    assert_eq!(plan.validator_historical_start_offset, 30);
}

#[test]
fn plan_start_saturates_at_zero() {
    let plan = BacktestPlan::new(&BacktestArgs::default(), &params(), 5, 10);
    assert_eq!(plan.simulation_start_epoch, 0);
    assert_eq!(plan.simulation_end_epoch, 5);
}

#[test]
fn every_validator_scores_one() {
    assert_eq!(validator_score(&BacktestArgs::default(), 800), 1);
}
