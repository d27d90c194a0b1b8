use phpstan_diagnostics_lsp::phpstan::{
    default_line_number, output_failure, start_failure_message, temporary_file_name_for, Analysis,
    Analyzer, PhpstanReport, ReportedFile, ReportedMessage,
};
use serde_json::Value;

fn report_from_json(text: &str) -> PhpstanReport {
    let value: Value = serde_json::from_str(text).unwrap();
    let mut files = Vec::new();
    if let Some(map) = value["files"].as_object() {
        for (path, file) in map {
            let mut messages = Vec::new();
            if let Some(list) = file["messages"].as_array() {
                for message in list {
                    messages.push(ReportedMessage {
                        message: message["message"].as_str().unwrap().to_owned(),
                        line: message["line"].as_u64().unwrap_or(default_line_number()),
                        identifier: message["identifier"].as_str().map(str::to_owned),
                    });
                }
            }
            files.push(ReportedFile {
                path: path.clone(),
                messages,
            });
        }
    }
    let errors = value["errors"]
        .as_array()
        .map(|list| {
            list.iter()
                .map(|error| error.as_str().unwrap().to_owned())
                .collect()
        })
        .unwrap_or_default();
    PhpstanReport { files, errors }
}

#[test]
fn parses_file_messages_and_global_errors() {
    let output = r#"{
        "files": {"/project/Foo.php": {"messages": [{
            "message": "Undefined variable: $value",
            "line": 12,
            "identifier": "variable.undefined"
        }]}},
        "errors": ["Configuration file is invalid"]
    }"#;

    let analysis = Analysis::from_report(&report_from_json(output));
    assert_eq!(analysis.issues.len(), 1);
    assert_eq!(analysis.issues[0].file, "/project/Foo.php");
    assert_eq!(analysis.issues[0].line, 12);
    assert_eq!(
        analysis.issues[0].identifier.as_deref(),
        Some("variable.undefined")
    );
    assert_eq!(analysis.errors, ["Configuration file is invalid"]);
}

#[test]
fn resolves_workspace_relative_configuration_file() {
    let mut analyzer = Analyzer::new("/workspace".to_owned());
    analyzer.configure(
        "/workspace".to_owned(),
        None,
        Some("phpstan.neon.dist".to_owned()),
        None,
    );

    assert_eq!(
        analyzer.configuration_path(),
        Some("/workspace/phpstan.neon.dist".to_owned())
    );
}

#[test]
fn keeps_absolute_configuration_file() {
    let mut analyzer = Analyzer::new("/workspace".to_owned());
    analyzer.configure(
        "/workspace".to_owned(),
        None,
        Some("/etc/phpstan.neon".to_owned()),
        None,
    );
    assert_eq!(
        analyzer.configuration_path(),
        Some("/etc/phpstan.neon".to_owned())
    );
    assert_eq!(Analyzer::new("/w".to_owned()).configuration_path(), None);
}

#[test]
fn flattens_every_message_of_every_file() {
    let report = PhpstanReport {
        files: vec![
            ReportedFile {
                path: "/a.php".to_owned(),
                messages: vec![
                    ReportedMessage {
                        message: "one".to_owned(),
                        line: 1,
                        identifier: None,
                    },
                    ReportedMessage {
                        message: "two".to_owned(),
                        line: 2,
                        identifier: Some("x".to_owned()),
                    },
                ],
            },
            ReportedFile {
                path: "/b.php".to_owned(),
                messages: vec![ReportedMessage {
                    message: "three".to_owned(),
                    line: 3,
                    identifier: None,
                }],
            },
        ],
        errors: Vec::new(),
    };
    let analysis = Analysis::from_report(&report);
    let seen: Vec<(&str, u64, &str)> = analysis
        .issues
        .iter()
        .map(|issue| (issue.file.as_str(), issue.line, issue.message.as_str()))
        .collect();
    assert_eq!(
        seen,
        vec![("/a.php", 1, "one"), ("/a.php", 2, "two"), ("/b.php", 3, "three")]
    );
    assert!(analysis.errors.is_empty());
}

#[test]
fn builds_the_phpstan_command_line() {
    let mut analyzer = Analyzer::new("/w".to_owned());
    analyzer.configure(
        "/w".to_owned(),
        Some("bin/phpstan".to_owned()),
        Some("phpstan.neon".to_owned()),
        Some("1G".to_owned()),
    );
    assert_eq!(
        analyzer.command_arguments("/w/Foo.php", "/tmp/t.php"),
        vec![
            "analyse",
            "--error-format=json",
            "--no-progress",
            "--no-ansi",
            "--tmp-file",
            "/tmp/t.php",
            "--instead-of",
            "/w/Foo.php",
            "/w/Foo.php",
            "--configuration",
            "/w/phpstan.neon",
            "--memory-limit=1G",
        ]
    );
    assert_eq!(
        analyzer.binary_candidates(),
        vec![
            "/w/bin/phpstan",
            "/w/vendor/bin/phpstan",
            "/w/vendor/bin/phpstan.bat"
        ]
    );
}

#[test]
fn reports_a_missing_phpstan() {
    let analyzer = Analyzer::new("/nonexistent-workspace".to_owned());
    assert_eq!(analyzer.find_binary(), None);
    let error = analyzer
        .invocation(None, "/nonexistent-workspace/a.php", "/tmp/a.php")
        .err()
        .unwrap();
    assert_eq!(
        error,
        "PHPStan was not found. Install phpstan/phpstan in this workspace or set initializationOptions.phpstanPath. Looked for /nonexistent-workspace/vendor/bin/phpstan."
    );
}

#[test]
fn finds_a_configured_executable_that_exists() {
    let mut analyzer = Analyzer::new("/".to_owned());
    analyzer.configure("/".to_owned(), Some("bin/sh".to_owned()), None, None);
    assert_eq!(analyzer.find_binary(), Some("/bin/sh".to_owned()));
    let invocation = analyzer
        .invocation(Some("/bin/sh".to_owned()), "/a.php", "/t.php")
        .ok()
        .unwrap();
    assert_eq!(invocation.program, "/bin/sh");
    assert_eq!(invocation.directory, "/");
    assert_eq!(invocation.arguments.len(), 9);
}

#[test]
fn explains_phpstan_failures() {
    assert_eq!(
        output_failure("  \n", "EOF while parsing"),
        "PHPStan returned invalid JSON: EOF while parsing"
    );
    assert_eq!(
        output_failure("\n Fatal error \n", "ignored"),
        "PHPStan failed: Fatal error"
    );
    assert_eq!(
        start_failure_message("No such file"),
        "Could not start PHPStan: No such file"
    );
}

#[test]
fn names_the_temporary_file() {
    assert_eq!(
        temporary_file_name_for(42, 1_700_000_000_123_456_789),
        "phpstan-language-server-42-1700000000123456789.php"
    );
    assert_eq!(default_line_number(), 1);
}
