use phpstan_diagnostics_lsp::cli::{parse, CommandLineAction, CommandLineOptions};

#[test]
fn parses_phpstan_options() {
    let action = parse(vec![
        "--phpstan-path".to_owned(),
        "dev-script/phpstan".to_owned(),
        "-c".to_owned(),
        "phpstan.neon.dist".to_owned(),
        "--memory-limit".to_owned(),
        "1G".to_owned(),
    ])
    .unwrap();

    let CommandLineAction::Start(options) = action else {
        panic!("expected start action");
    };
    assert_eq!(
        options,
        CommandLineOptions {
            phpstan_path: Some("dev-script/phpstan".to_owned()),
            configuration_path: Some("phpstan.neon.dist".to_owned()),
            memory_limit: Some("1G".to_owned()),
        }
    );
}

#[test]
fn parses_help() {
    assert!(matches!(
        parse(vec!["--help".to_owned()]),
        Ok(CommandLineAction::Help)
    ));
}

#[test]
fn rejects_unknown_arguments() {
    assert!(parse(vec!["--unknown".to_owned()])
        .unwrap_err()
        .contains("Unknown argument"));
}

#[test]
fn no_arguments_start_with_defaults() {
    let CommandLineAction::Start(options) = parse(Vec::new()).unwrap() else {
        panic!("expected start action");
    };
    assert_eq!(options, CommandLineOptions::default());
}

#[test]
fn short_help_and_long_configuration() {
    assert!(matches!(
        parse(vec!["-h".to_owned()]),
        Ok(CommandLineAction::Help)
    ));
    let CommandLineAction::Start(options) =
        parse(vec!["--configuration".to_owned(), "a.neon".to_owned()]).unwrap()
    else {
        panic!("expected start action");
    };
    assert_eq!(options.configuration_path.as_deref(), Some("a.neon"));
}

#[test]
fn later_option_overrides_earlier_one() {
    let CommandLineAction::Start(options) = parse(vec![
        "--memory-limit".to_owned(),
        "1G".to_owned(),
        "--memory-limit".to_owned(),
        "2G".to_owned(),
    ])
    .unwrap() else {
        panic!("expected start action");
    };
    assert_eq!(options.memory_limit.as_deref(), Some("2G"));
}

#[test]
fn help_after_options_still_wins() {
    assert!(matches!(
        parse(vec!["-c".to_owned(), "x".to_owned(), "--help".to_owned()]),
        Ok(CommandLineAction::Help)
    ));
}

#[test]
fn reports_missing_value_and_unknown_argument_exactly() {
    assert_eq!(
        parse(vec!["--phpstan-path".to_owned()]).unwrap_err(),
        "Missing value for --phpstan-path\n\nRun phpstan-diagnostics-lsp --help for usage."
    );
    assert_eq!(
        parse(vec!["x".to_owned(), "--help".to_owned()]).unwrap_err(),
        "Unknown argument: x\n\nRun phpstan-diagnostics-lsp --help for usage."
    );
}
