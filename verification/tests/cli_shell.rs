use stakenet_simulator::cli::domain::cli::{parse_command, CliAction, CommandError, Commands, CLI};
use stakenet_simulator::cli::domain::config::{ConfigError, EnvError};

fn words(line: &str) -> Vec<String> {
    line.split(' ').filter(|w| !w.is_empty()).map(|w| w.to_string()).collect()
}

#[test]
fn backtest_line_runs_backtest() {
    let mut cli = CLI::new();
    match cli.handle_line("  backtest 1 2 3 4 5 6 7 8 9 10 812\n") {
        CliAction::Backtest { target_epoch } => assert_eq!(target_epoch, "812"),
        other => panic!("unexpected {:?}", other),
    }
}

#[test]
fn quoted_values_are_single_words() {
    let mut cli = CLI::new();
    match cli.handle_line("backtest 'a b' 2 3 4 5 6 7 8 9 10 \"epoch 9\"") {
        CliAction::Backtest { target_epoch } => assert_eq!(target_epoch, "epoch 9"),
        other => panic!("unexpected {:?}", other),
    }
}

#[test]
fn broken_quoting_is_reported() {
    let mut cli = CLI::new();
    assert!(matches!(cli.handle_line("backtest 'unterminated"), CliAction::InvalidQuoting));
}

#[test]
fn empty_line_names_no_command() {
    let mut cli = CLI::new();
    assert!(matches!(cli.handle_line("   "), CliAction::InvalidCommand(CommandError::MissingSubcommand)));
}

#[test]
fn unknown_command_is_refused() {
    let mut cli = CLI::new();
    match cli.handle_line("simulate 1") {
        CliAction::InvalidCommand(CommandError::UnknownSubcommand(w)) => assert_eq!(w, "simulate"),
        other => panic!("unexpected {:?}", other),
    }
}

#[test]
fn wrong_value_count_is_refused() {
    assert!(matches!(parse_command(&words("backtest 1 2 3")), Err(CommandError::WrongArgumentCount(3))));
    assert!(matches!(
        parse_command(&words("backtest 1 2 3 4 5 6 7 8 9 10 11 12")),
        Err(CommandError::WrongArgumentCount(12))
    ));
    assert!(matches!(parse_command(&words("backtest")), Err(CommandError::WrongArgumentCount(0))));
}

#[test]
fn option_words_are_refused_before_escape() {
    match parse_command(&words("backtest -x 2 3 4 5 6 7 8 9 10 11")) {
        Err(CommandError::UnexpectedArgument(w)) => assert_eq!(w, "-x"),
        other => panic!("unexpected {:?}", other),
    }
    match parse_command(&words("backtest -- -1 2 3 4 5 6 7 8 9 10 11")) {
        Ok(Commands::Backtest { mev_commission_score, target_epoch, .. }) => {
            assert_eq!(mev_commission_score, "-1");
            assert_eq!(target_epoch, "11");
        }
        other => panic!("unexpected {:?}", other),
    }
    match parse_command(&words("backtest - 2 3 4 5 6 7 8 9 10 11")) {
        Ok(Commands::Backtest { mev_commission_score, .. }) => assert_eq!(mev_commission_score, "-"),
        other => panic!("unexpected {:?}", other),
    }
}

#[test]
fn command_values_keep_their_order() {
    match parse_command(&words("backtest a b c d e f g h i j k")) {
        Ok(Commands::Backtest {
            mev_commission_score,
            commission_score,
            historical_commission_score,
            blacklisted_score,
            superminority_score,
            delinquency_score,
            running_jito_score,
            yield_score,
            merkle_root_upload_authority_score,
            priority_fee_commission_score,
            target_epoch,
        }) => {
            assert_eq!(
                vec![
                    mev_commission_score,
                    commission_score,
                    historical_commission_score,
                    blacklisted_score,
                    superminority_score,
                    delinquency_score,
                    running_jito_score,
                    yield_score,
                    merkle_root_upload_authority_score,
                    priority_fee_commission_score,
                    target_epoch
                ],
                words("a b c d e f g h i j k")
            );
        }
        other => panic!("unexpected {:?}", other),
    }
}

#[test]
fn env_error_missing_field_names_the_variable() {
    match ConfigError::from_env_error(&EnvError::MissingValue("db_connection_url".to_string())) {
        ConfigError::MissingEnvVar(name) => assert_eq!(name, "db_connection_url"),
        other => panic!("unexpected {:?}", other),
    }
}

#[test]
fn env_error_message_not_found_names_third_word() {
    match ConfigError::from_env_error(&EnvError::Custom("environment variable DB_CONNECTION_URL not found".to_string())) {
        ConfigError::MissingEnvVar(name) => assert_eq!(name, "DB_CONNECTION_URL"),
        other => panic!("unexpected {:?}", other),
    }
    match ConfigError::from_message("not found") {
        ConfigError::MissingEnvVar(name) => assert_eq!(name, "unknown"),
        other => panic!("unexpected {:?}", other),
    }
}

#[test]
fn env_error_other_is_invalid_value() {
    let message = "invalid digit found in string while parsing value '12x' provided by PORT";
    match ConfigError::from_env_error(&EnvError::Custom(message.to_string())) {
        ConfigError::InvalidEnvVar(name, reason) => {
            assert_eq!(name, "unknown");
            assert_eq!(reason, message);
        }
        other => panic!("unexpected {:?}", other),
    }
}
