use vstd::prelude::*;

verus! {

/// The integer parameters of the steward program's configuration that a
/// backtest may override.
#[derive(Clone, Copy, Debug, PartialEq, Eq)]
pub struct StewardParameters {
    pub mev_commission_range: u16,
    pub epoch_credits_range: u16,
    pub commission_range: u16,
    pub mev_commission_bps_threshold: u16,
    pub commission_threshold: u8,
    pub historical_commission_threshold: u8,
    pub priority_fee_lookback_epochs: u8,
    pub priority_fee_lookback_offset: u8,
    pub priority_fee_max_commission_bps: u16,
    pub priority_fee_error_margin_bps: u16,
    pub num_delegation_validators: u32,
    pub scoring_unstake_cap_bps: u32,
    pub instant_unstake_cap_bps: u32,
    pub stake_deposit_unstake_cap_bps: u32,
    pub compute_score_slot_range: u64,
    pub num_epochs_between_scoring: u64,
    pub minimum_stake_lamports: u64,
    pub minimum_voting_epochs: u64,
    pub priority_fee_scoring_start_epoch: u16,
}

/// The overrides of a backtest run: each parameter given replaces the
/// steward's own; the target epoch and the rate of steward cycles steer the
/// simulation.
#[derive(Clone, Copy, Debug, PartialEq, Eq)]
pub struct BacktestArgs {
    pub mev_commission_range: Option<u16>,
    pub epoch_credits_range: Option<u16>,
    pub commission_range: Option<u16>,
    pub mev_commission_bps_threshold: Option<u16>,
    pub commission_threshold: Option<u8>,
    pub historical_commission_threshold: Option<u8>,
    pub priority_fee_lookback_epochs: Option<u8>,
    pub priority_fee_lookback_offset: Option<u8>,
    pub priority_fee_max_commission_bps: Option<u16>,
    pub priority_fee_error_margin_bps: Option<u16>,
    pub num_delegation_validators: Option<u32>,
    pub scoring_unstake_cap_bps: Option<u32>,
    pub instant_unstake_cap_bps: Option<u32>,
    pub stake_deposit_unstake_cap_bps: Option<u32>,
    pub compute_score_slot_range: Option<u64>,
    pub num_epochs_between_scoring: Option<u64>,
    pub minimum_stake_lamports: Option<u64>,
    pub minimum_voting_epochs: Option<u64>,
    pub priority_fee_scoring_start_epoch: Option<u16>,
    pub target_epoch: Option<u64>,
    pub steward_cycle_rate: u16,
}

/// `arg` where it is given, else `current`.
pub open spec fn overridden<T>(arg: Option<T>, current: T) -> T {
    match arg {
        Some(v) => v,
        None => current,
    }
}

/// `arg` where it is given, else `current`.
fn pick<T: Copy>(arg: Option<T>, current: T) -> (r: T)
    ensures
        r == overridden(arg, current),
{
    match arg {
        Some(v) => v,
        None => current,
    }
}

/// Steward cycles between two rebalancings where the run does not say.
pub const DEFAULT_STEWARD_CYCLE_RATE: u16 = 10;

impl BacktestArgs {
    /// The parameters `p` with every override of these arguments in place.
    pub open spec fn apply(self, p: StewardParameters) -> StewardParameters {
        StewardParameters {
            mev_commission_range: overridden(self.mev_commission_range, p.mev_commission_range),
            epoch_credits_range: overridden(self.epoch_credits_range, p.epoch_credits_range),
            commission_range: overridden(self.commission_range, p.commission_range),
            mev_commission_bps_threshold: overridden(self.mev_commission_bps_threshold, p.mev_commission_bps_threshold),
            commission_threshold: overridden(self.commission_threshold, p.commission_threshold),
            historical_commission_threshold: overridden(self.historical_commission_threshold, p.historical_commission_threshold),
            priority_fee_lookback_epochs: overridden(self.priority_fee_lookback_epochs, p.priority_fee_lookback_epochs),
            priority_fee_lookback_offset: overridden(self.priority_fee_lookback_offset, p.priority_fee_lookback_offset),
            priority_fee_max_commission_bps: overridden(self.priority_fee_max_commission_bps, p.priority_fee_max_commission_bps),
            priority_fee_error_margin_bps: overridden(self.priority_fee_error_margin_bps, p.priority_fee_error_margin_bps),
            num_delegation_validators: overridden(self.num_delegation_validators, p.num_delegation_validators),
            scoring_unstake_cap_bps: overridden(self.scoring_unstake_cap_bps, p.scoring_unstake_cap_bps),
            instant_unstake_cap_bps: overridden(self.instant_unstake_cap_bps, p.instant_unstake_cap_bps),
            stake_deposit_unstake_cap_bps: overridden(self.stake_deposit_unstake_cap_bps, p.stake_deposit_unstake_cap_bps),
            compute_score_slot_range: overridden(self.compute_score_slot_range, p.compute_score_slot_range),
            num_epochs_between_scoring: overridden(self.num_epochs_between_scoring, p.num_epochs_between_scoring),
            minimum_stake_lamports: overridden(self.minimum_stake_lamports, p.minimum_stake_lamports),
            minimum_voting_epochs: overridden(self.minimum_voting_epochs, p.minimum_voting_epochs),
            priority_fee_scoring_start_epoch: overridden(self.priority_fee_scoring_start_epoch, p.priority_fee_scoring_start_epoch),
        }
    }

    /// The arguments of a run that overrides nothing.
    pub open spec fn spec_default() -> Self {
        BacktestArgs {
            mev_commission_range: None,
            epoch_credits_range: None,
            commission_range: None,
            mev_commission_bps_threshold: None,
            commission_threshold: None,
            historical_commission_threshold: None,
            priority_fee_lookback_epochs: None,
            priority_fee_lookback_offset: None,
            priority_fee_max_commission_bps: None,
            priority_fee_error_margin_bps: None,
            num_delegation_validators: None,
            scoring_unstake_cap_bps: None,
            instant_unstake_cap_bps: None,
            stake_deposit_unstake_cap_bps: None,
            compute_score_slot_range: None,
            num_epochs_between_scoring: None,
            minimum_stake_lamports: None,
            minimum_voting_epochs: None,
            priority_fee_scoring_start_epoch: None,
            target_epoch: None,
            steward_cycle_rate: DEFAULT_STEWARD_CYCLE_RATE,
        }
    }

    /// Puts every parameter that these arguments give in place in `config`.
    pub fn update_steward_config(&self, config: &mut StewardParameters)
        ensures
            *final(config) == self.apply(*old(config)),
            final(config).mev_commission_range == (match self.mev_commission_range { Some(v) => v, None => old(config).mev_commission_range }),
            final(config).epoch_credits_range == (match self.epoch_credits_range { Some(v) => v, None => old(config).epoch_credits_range }),
            final(config).commission_range == (match self.commission_range { Some(v) => v, None => old(config).commission_range }),
            final(config).mev_commission_bps_threshold == (match self.mev_commission_bps_threshold { Some(v) => v, None => old(config).mev_commission_bps_threshold }),
            final(config).commission_threshold == (match self.commission_threshold { Some(v) => v, None => old(config).commission_threshold }),
            final(config).historical_commission_threshold == (match self.historical_commission_threshold { Some(v) => v, None => old(config).historical_commission_threshold }),
            final(config).priority_fee_lookback_epochs == (match self.priority_fee_lookback_epochs { Some(v) => v, None => old(config).priority_fee_lookback_epochs }),
            final(config).priority_fee_lookback_offset == (match self.priority_fee_lookback_offset { Some(v) => v, None => old(config).priority_fee_lookback_offset }),
            final(config).priority_fee_max_commission_bps == (match self.priority_fee_max_commission_bps { Some(v) => v, None => old(config).priority_fee_max_commission_bps }),
            final(config).priority_fee_error_margin_bps == (match self.priority_fee_error_margin_bps { Some(v) => v, None => old(config).priority_fee_error_margin_bps }),
            final(config).num_delegation_validators == (match self.num_delegation_validators { Some(v) => v, None => old(config).num_delegation_validators }),
            final(config).scoring_unstake_cap_bps == (match self.scoring_unstake_cap_bps { Some(v) => v, None => old(config).scoring_unstake_cap_bps }),
            final(config).instant_unstake_cap_bps == (match self.instant_unstake_cap_bps { Some(v) => v, None => old(config).instant_unstake_cap_bps }),
            final(config).stake_deposit_unstake_cap_bps == (match self.stake_deposit_unstake_cap_bps { Some(v) => v, None => old(config).stake_deposit_unstake_cap_bps }),
            final(config).compute_score_slot_range == (match self.compute_score_slot_range { Some(v) => v, None => old(config).compute_score_slot_range }),
            final(config).num_epochs_between_scoring == (match self.num_epochs_between_scoring { Some(v) => v, None => old(config).num_epochs_between_scoring }),
            final(config).minimum_stake_lamports == (match self.minimum_stake_lamports { Some(v) => v, None => old(config).minimum_stake_lamports }),
            final(config).minimum_voting_epochs == (match self.minimum_voting_epochs { Some(v) => v, None => old(config).minimum_voting_epochs }),
            final(config).priority_fee_scoring_start_epoch == (match self.priority_fee_scoring_start_epoch { Some(v) => v, None => old(config).priority_fee_scoring_start_epoch }),
    {
        config.mev_commission_range = pick(self.mev_commission_range, config.mev_commission_range);
        config.epoch_credits_range = pick(self.epoch_credits_range, config.epoch_credits_range);
        config.commission_range = pick(self.commission_range, config.commission_range);
        config.mev_commission_bps_threshold = pick(self.mev_commission_bps_threshold, config.mev_commission_bps_threshold);
        config.commission_threshold = pick(self.commission_threshold, config.commission_threshold);
        config.historical_commission_threshold = pick(self.historical_commission_threshold, config.historical_commission_threshold);
        config.priority_fee_lookback_epochs = pick(self.priority_fee_lookback_epochs, config.priority_fee_lookback_epochs);
        config.priority_fee_lookback_offset = pick(self.priority_fee_lookback_offset, config.priority_fee_lookback_offset);
        config.priority_fee_max_commission_bps = pick(self.priority_fee_max_commission_bps, config.priority_fee_max_commission_bps);
        config.priority_fee_error_margin_bps = pick(self.priority_fee_error_margin_bps, config.priority_fee_error_margin_bps);
        config.num_delegation_validators = pick(self.num_delegation_validators, config.num_delegation_validators);
        config.scoring_unstake_cap_bps = pick(self.scoring_unstake_cap_bps, config.scoring_unstake_cap_bps);
        config.instant_unstake_cap_bps = pick(self.instant_unstake_cap_bps, config.instant_unstake_cap_bps);
        config.stake_deposit_unstake_cap_bps = pick(self.stake_deposit_unstake_cap_bps, config.stake_deposit_unstake_cap_bps);
        config.compute_score_slot_range = pick(self.compute_score_slot_range, config.compute_score_slot_range);
        config.num_epochs_between_scoring = pick(self.num_epochs_between_scoring, config.num_epochs_between_scoring);
        config.minimum_stake_lamports = pick(self.minimum_stake_lamports, config.minimum_stake_lamports);
        config.minimum_voting_epochs = pick(self.minimum_voting_epochs, config.minimum_voting_epochs);
        config.priority_fee_scoring_start_epoch = pick(self.priority_fee_scoring_start_epoch, config.priority_fee_scoring_start_epoch);
    }
}

impl Default for BacktestArgs {
    fn default() -> (args: Self)
        ensures
            args == BacktestArgs::spec_default(),
    {
        BacktestArgs {
            mev_commission_range: None,
            epoch_credits_range: None,
            commission_range: None,
            mev_commission_bps_threshold: None,
            commission_threshold: None,
            historical_commission_threshold: None,
            priority_fee_lookback_epochs: None,
            priority_fee_lookback_offset: None,
            priority_fee_max_commission_bps: None,
            priority_fee_error_margin_bps: None,
            num_delegation_validators: None,
            scoring_unstake_cap_bps: None,
            instant_unstake_cap_bps: None,
            stake_deposit_unstake_cap_bps: None,
            compute_score_slot_range: None,
            num_epochs_between_scoring: None,
            minimum_stake_lamports: None,
            minimum_voting_epochs: None,
            priority_fee_scoring_start_epoch: None,
            target_epoch: None,
            steward_cycle_rate: DEFAULT_STEWARD_CYCLE_RATE,
        }
    }
}

/// Every override that a run gives replaces the steward's value of its
/// parameter, and every parameter that it does not give keeps the steward's
/// value.
pub proof fn lemma_given_overrides_win(args: BacktestArgs, p: StewardParameters)
    ensures
        args.apply(p).mev_commission_range == (match args.mev_commission_range { Some(v) => v, None => p.mev_commission_range }),
        args.apply(p).epoch_credits_range == (match args.epoch_credits_range { Some(v) => v, None => p.epoch_credits_range }),
        args.apply(p).commission_range == (match args.commission_range { Some(v) => v, None => p.commission_range }),
        args.apply(p).mev_commission_bps_threshold == (match args.mev_commission_bps_threshold { Some(v) => v, None => p.mev_commission_bps_threshold }),
        args.apply(p).commission_threshold == (match args.commission_threshold { Some(v) => v, None => p.commission_threshold }),
        args.apply(p).historical_commission_threshold == (match args.historical_commission_threshold { Some(v) => v, None => p.historical_commission_threshold }),
        args.apply(p).priority_fee_lookback_epochs == (match args.priority_fee_lookback_epochs { Some(v) => v, None => p.priority_fee_lookback_epochs }),
        args.apply(p).priority_fee_lookback_offset == (match args.priority_fee_lookback_offset { Some(v) => v, None => p.priority_fee_lookback_offset }),
        args.apply(p).priority_fee_max_commission_bps == (match args.priority_fee_max_commission_bps { Some(v) => v, None => p.priority_fee_max_commission_bps }),
        args.apply(p).priority_fee_error_margin_bps == (match args.priority_fee_error_margin_bps { Some(v) => v, None => p.priority_fee_error_margin_bps }),
        args.apply(p).num_delegation_validators == (match args.num_delegation_validators { Some(v) => v, None => p.num_delegation_validators }),
        args.apply(p).scoring_unstake_cap_bps == (match args.scoring_unstake_cap_bps { Some(v) => v, None => p.scoring_unstake_cap_bps }),
        args.apply(p).instant_unstake_cap_bps == (match args.instant_unstake_cap_bps { Some(v) => v, None => p.instant_unstake_cap_bps }),
        args.apply(p).stake_deposit_unstake_cap_bps == (match args.stake_deposit_unstake_cap_bps { Some(v) => v, None => p.stake_deposit_unstake_cap_bps }),
        args.apply(p).compute_score_slot_range == (match args.compute_score_slot_range { Some(v) => v, None => p.compute_score_slot_range }),
        args.apply(p).num_epochs_between_scoring == (match args.num_epochs_between_scoring { Some(v) => v, None => p.num_epochs_between_scoring }),
        args.apply(p).minimum_stake_lamports == (match args.minimum_stake_lamports { Some(v) => v, None => p.minimum_stake_lamports }),
        args.apply(p).minimum_voting_epochs == (match args.minimum_voting_epochs { Some(v) => v, None => p.minimum_voting_epochs }),
        args.apply(p).priority_fee_scoring_start_epoch == (match args.priority_fee_scoring_start_epoch { Some(v) => v, None => p.priority_fee_scoring_start_epoch }),
{
}

/// Overriding twice with the same arguments is overriding once.
pub proof fn lemma_update_idempotent(args: BacktestArgs, p: StewardParameters)
    ensures
        args.apply(args.apply(p)) == args.apply(p),
{
}

/// A run that gives no parameter leaves the steward's configuration as it is.
pub proof fn lemma_default_keeps_config(p: StewardParameters)
    ensures
        BacktestArgs::spec_default().apply(p) == p,
{
}

/// Validators that the simulated pool delegates to.
pub const NUMBER_OF_VALIDATOR_DELEGATIONS: usize = 200;

/// The larger of `a` and `b`.
pub open spec fn max_u16(a: u16, b: u16) -> u16 {
    if a >= b { a } else { b }
}

/// What a backtest simulates: the epochs it replays, how often the steward
/// rebalances, how many validators it delegates to, the unstake caps, and how
/// far back of each epoch the validators' history is read.
#[derive(Clone, Copy, Debug, PartialEq, Eq)]
pub struct BacktestPlan {
    pub simulation_start_epoch: u16,
    pub simulation_end_epoch: u16,
    pub steward_cycle_rate: u16,
    pub number_of_validator_delegations: usize,
    pub instant_unstake_cap_bps: u32,
    pub scoring_unstake_cap_bps: u32,
    pub validator_historical_start_offset: u16,
}

impl BacktestPlan {
    /// The plan of a backtest up to `current_epoch` that looks back
    /// `look_back_period` epochs (not before epoch 0), under the steward
    /// parameters `steward` once the run's overrides are in place.
    pub fn new(args: &BacktestArgs, steward: &StewardParameters, current_epoch: u16, look_back_period: u16) -> (plan: Self)
        ensures
            plan.simulation_start_epoch == (if current_epoch >= look_back_period {
                current_epoch - look_back_period
            } else {
                0
            }),
            plan.simulation_end_epoch == current_epoch,
            plan.steward_cycle_rate == args.steward_cycle_rate,
            plan.number_of_validator_delegations == NUMBER_OF_VALIDATOR_DELEGATIONS,
            plan.instant_unstake_cap_bps == steward.instant_unstake_cap_bps,
            plan.scoring_unstake_cap_bps == steward.scoring_unstake_cap_bps,
            plan.validator_historical_start_offset == max_u16(
                steward.mev_commission_range,
                max_u16(steward.epoch_credits_range, steward.commission_range),
            ),
    {
        let start = current_epoch.saturating_sub(look_back_period);
        let inner = if steward.epoch_credits_range >= steward.commission_range {
            steward.epoch_credits_range
        } else {
            steward.commission_range
        };
        let offset = if steward.mev_commission_range >= inner { steward.mev_commission_range } else { inner };
        BacktestPlan {
            simulation_start_epoch: start,
            simulation_end_epoch: current_epoch,
            steward_cycle_rate: args.steward_cycle_rate,
            number_of_validator_delegations: NUMBER_OF_VALIDATOR_DELEGATIONS,
            instant_unstake_cap_bps: steward.instant_unstake_cap_bps,
            scoring_unstake_cap_bps: steward.scoring_unstake_cap_bps,
            validator_historical_start_offset: offset,
        }
    }
}

/// The simulated epochs never start after they end, and span at most the
/// look-back period; the history offset covers each of the three ranges.
pub proof fn lemma_plan_window(plan: BacktestPlan, current_epoch: u16, look_back_period: u16, steward: StewardParameters)
    requires
        plan.simulation_start_epoch == (if current_epoch >= look_back_period {
            current_epoch - look_back_period
        } else {
            0
        }),
        plan.simulation_end_epoch == current_epoch,
        plan.validator_historical_start_offset == max_u16(
            steward.mev_commission_range,
            max_u16(steward.epoch_credits_range, steward.commission_range),
        ),
    ensures
        plan.simulation_start_epoch <= plan.simulation_end_epoch,
        plan.simulation_end_epoch - plan.simulation_start_epoch <= look_back_period,
        plan.validator_historical_start_offset >= steward.mev_commission_range,
        plan.validator_historical_start_offset >= steward.epoch_credits_range,
        plan.validator_historical_start_offset >= steward.commission_range,
{
}

} // verus!
