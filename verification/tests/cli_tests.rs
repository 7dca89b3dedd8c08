use lib::cli::{parse_command, parse_model_flag, CliError, Command};

fn args(xs: &[&str]) -> Vec<String> {
    xs.iter().map(|s| s.to_string()).collect()
}

#[test]
fn no_arguments_runs_the_daemon() {
    assert!(matches!(parse_command(&args(&[])), Ok(Command::Run)));
    assert!(matches!(parse_command(&args(&["run", "extra"])), Ok(Command::Run)));
}

#[test]
fn install_takes_a_model() {
    match parse_command(&args(&["install", "--model", "tiny"])) {
        Ok(Command::Install { model }) => assert_eq!(model, "tiny"),
        _ => panic!("expected install"),
    }
    match parse_command(&args(&["install"])) {
        Ok(Command::Install { model }) => assert_eq!(model, "large-v3-turbo"),
        _ => panic!("expected install"),
    }
    assert!(matches!(parse_command(&args(&["install", "--model"])), Err(CliError::MissingModelValue)));
}

#[test]
fn the_other_commands() {
    assert!(matches!(parse_command(&args(&["uninstall"])), Ok(Command::Uninstall)));
    assert!(matches!(parse_command(&args(&["status"])), Ok(Command::Status)));
    for h in ["-h", "--help", "help"] {
        assert!(matches!(parse_command(&args(&[h])), Ok(Command::Help)));
    }
    match parse_command(&args(&["frobnicate"])) {
        Err(CliError::UnknownCommand { command }) => assert_eq!(command, "frobnicate"),
        _ => panic!("expected an unknown command"),
    }
}

#[test]
fn model_flag_takes_first_occurrence() {
    assert_eq!(parse_model_flag(&args(&["x", "--model", "base", "--model", "tiny"])).ok().as_deref(), Some("base"));
    assert_eq!(parse_model_flag(&args(&["--model", "--model"])).ok().as_deref(), Some("--model"));
    assert_eq!(parse_model_flag(&args(&["base"])).ok().as_deref(), Some("large-v3-turbo"));
    assert!(matches!(parse_model_flag(&args(&["a", "--model"])), Err(CliError::MissingModelValue)));
}

#[test]
fn default_model_is_installable() {
    match parse_command(&args(&["install", "extra"])) {
        Ok(Command::Install { model }) => assert!(lib::install::is_known_model(&model)),
        _ => panic!("expected install"),
    }
}
