use phpstan_diagnostics_lsp::cli::CommandLineOptions;
use phpstan_diagnostics_lsp::json::{parse_body, JsonValue};
use phpstan_diagnostics_lsp::phpstan::{Analysis, Issue};
use phpstan_diagnostics_lsp::server::{
    document_uri, initialization_options_of, publish_analysis_with, publish_outcome, same_file, same_file_given,
    update_document,
    workspace_root, Action, Documents, InitializationOptions, Method, Server,
};

fn json(text: &str) -> JsonValue {
    parse_body(text.as_bytes()).unwrap()
}

fn text_at<'a>(value: &'a JsonValue, path: &[&str]) -> Option<&'a str> {
    let mut current = value;
    for key in path {
        current = current.get(key)?;
    }
    current.as_str()
}

fn number_at(value: &JsonValue, path: &[&str]) -> Option<String> {
    let mut current = value;
    for key in path {
        current = current.get(key)?;
    }
    match current {
        JsonValue::Number(n) => Some(n.clone()),
        _ => None,
    }
}

fn diagnostics(value: &JsonValue) -> &Vec<JsonValue> {
    value
        .get("params")
        .unwrap()
        .get("diagnostics")
        .unwrap()
        .as_array()
        .unwrap()
}

fn no_options() -> InitializationOptions {
    InitializationOptions::default()
}

#[test]
fn takes_document_text_from_a_change_notification() {
    let message = json(
        r#"{
            "params": {
                "textDocument": {"uri": "file:///project/Foo.php"},
                "contentChanges": [{"text": "<?php $value = 1;"}]
            }
        }"#,
    );
    let mut documents = Documents::new();

    assert_eq!(
        update_document(&message, &mut documents).as_deref(),
        Some("file:///project/Foo.php")
    );
    assert_eq!(
        documents.get("file:///project/Foo.php").unwrap(),
        "<?php $value = 1;"
    );
}

#[test]
fn prefers_root_uri_over_legacy_root_path() {
    let params = json(r#"{"rootUri": "file:///workspace", "rootPath": "/ignored"}"#);
    assert_eq!(workspace_root(&params), Some("/workspace".to_owned()));
}

#[test]
fn falls_back_to_root_path_and_workspace_folders() {
    let params = json(r#"{"rootUri": "http://example.com/x", "rootPath": "/legacy"}"#);
    assert_eq!(workspace_root(&params), Some("/legacy".to_owned()));
    let params = json(r#"{"workspaceFolders": [{"uri": "file:///folder"}]}"#);
    assert_eq!(workspace_root(&params), Some("/folder".to_owned()));
    assert_eq!(workspace_root(&json("{}")), None);
}

#[test]
fn classifies_supported_and_unknown_methods() {
    assert_eq!(Method::from(Some("textDocument/didSave")), Method::DidSave);
    assert_eq!(Method::from(Some("workspace/symbol")), Method::Unknown);
    assert_eq!(Method::from(None), Method::Unknown);
}

#[test]
fn classifies_every_supported_method() {
    assert_eq!(Method::from(Some("initialize")), Method::Initialize);
    assert_eq!(Method::from(Some("initialized")), Method::Initialized);
    assert_eq!(Method::from(Some("shutdown")), Method::Shutdown);
    assert_eq!(Method::from(Some("exit")), Method::Exit);
    assert_eq!(Method::from(Some("textDocument/didOpen")), Method::DidOpen);
    assert_eq!(Method::from(Some("textDocument/didChange")), Method::DidChange);
    assert_eq!(Method::from(Some("textDocument/didClose")), Method::DidClose);
}

#[test]
fn prefers_inline_document_text() {
    let message = json(
        r#"{"params": {"textDocument": {"uri": "file:///a.php", "text": "open"},
            "contentChanges": [{"text": "change"}]}}"#,
    );
    let mut documents = Documents::new();
    update_document(&message, &mut documents);
    assert_eq!(documents.get("file:///a.php").unwrap(), "open");
    assert_eq!(document_uri(&message), Some("file:///a.php"));
    let without_text = json(r#"{"params": {"textDocument": {"uri": "file:///b.php"}}}"#);
    assert_eq!(update_document(&without_text, &mut documents), None);
    assert!(documents.get("file:///b.php").is_none());
}

#[test]
fn answers_initialize_with_capabilities_and_configures() {
    let mut server = Server::new(
        CommandLineOptions {
            phpstan_path: Some("cli/phpstan".to_owned()),
            configuration_path: None,
            memory_limit: None,
        },
        "/start".to_owned(),
    );
    let message = json(
        r#"{"jsonrpc": "2.0", "id": 7, "method": "initialize",
            "params": {"rootUri": "file:///workspace"}}"#,
    );
    let init = InitializationOptions {
        phpstan_path: Some("client/phpstan".to_owned()),
        phpstan_config_path: Some("phpstan.neon.dist".to_owned()),
        memory_limit: Some("1G".to_owned()),
    };
    let Action::Send(reply) = server.handle(&message, init) else {
        panic!("expected a response");
    };
    assert_eq!(number_at(&reply, &["id"]).as_deref(), Some("7"));
    assert_eq!(text_at(&reply, &["jsonrpc"]), Some("2.0"));
    assert_eq!(
        text_at(&reply, &["result", "serverInfo", "name"]),
        Some("phpstan-diagnostics-lsp")
    );
    assert_eq!(
        number_at(&reply, &["result", "capabilities", "textDocumentSync", "change"]).as_deref(),
        Some("1")
    );
    let analyzer = server.analyzer();
    assert_eq!(analyzer.root(), "/workspace");
    assert_eq!(
        analyzer.configuration_path(),
        Some("/workspace/phpstan.neon.dist".to_owned())
    );
    assert_eq!(
        analyzer.binary_candidates()[0],
        "/workspace/cli/phpstan".to_owned()
    );
    assert_eq!(
        analyzer.command_arguments("f", "t").last().unwrap(),
        "--memory-limit=1G"
    );
}

#[test]
fn answers_requests_and_ignores_notifications() {
    let mut server = Server::new(CommandLineOptions::default(), "/w".to_owned());
    let Action::Send(reply) = server.handle(
        &json(r#"{"id": "a", "method": "shutdown"}"#),
        no_options(),
    ) else {
        panic!("expected a response");
    };
    assert_eq!(text_at(&reply, &["id"]), Some("a"));
    assert!(matches!(reply.get("result"), Some(JsonValue::Null)));
    assert!(matches!(
        server.handle(&json(r#"{"id": 1, "method": "workspace/symbol"}"#), no_options()),
        Action::Send(_)
    ));
    assert!(matches!(
        server.handle(&json(r#"{"method": "workspace/symbol"}"#), no_options()),
        Action::Nothing
    ));
    assert!(matches!(
        server.handle(&json(r#"{"method": "initialized"}"#), no_options()),
        Action::Nothing
    ));
    assert!(matches!(
        server.handle(&json(r#"{"method": "exit"}"#), no_options()),
        Action::Exit
    ));
}

#[test]
fn opening_a_document_asks_for_its_analysis() {
    let mut server = Server::new(CommandLineOptions::default(), "/w".to_owned());
    let open = json(
        r#"{"method": "textDocument/didOpen",
            "params": {"textDocument": {"uri": "file:///w/Foo.php", "text": "<?php"}}}"#,
    );
    match server.handle(&open, no_options()) {
        Action::Analyse { uri, file, source } => {
            assert_eq!(uri, "file:///w/Foo.php");
            assert_eq!(file, "/w/Foo.php");
            assert_eq!(source.as_deref(), Some("<?php"));
        }
        _ => panic!("expected an analysis"),
    }
    assert_eq!(
        server.documents().get("file:///w/Foo.php").unwrap(),
        "<?php"
    );
    let save = json(
        r#"{"method": "textDocument/didSave",
            "params": {"textDocument": {"uri": "file:///w/Bar.php"}}}"#,
    );
    match server.handle(&save, no_options()) {
        Action::Analyse { source, .. } => assert_eq!(source, None),
        _ => panic!("expected an analysis"),
    }
    let close = json(
        r#"{"method": "textDocument/didClose",
            "params": {"textDocument": {"uri": "file:///w/Foo.php"}}}"#,
    );
    let Action::Send(cleared) = server.handle(&close, no_options()) else {
        panic!("expected a notification");
    };
    assert!(diagnostics(&cleared).is_empty());
    assert_eq!(
        text_at(&cleared, &["method"]),
        Some("textDocument/publishDiagnostics")
    );
    assert!(server.documents().get("file:///w/Foo.php").is_none());
}

#[test]
fn rejects_documents_that_are_not_files() {
    let mut server = Server::new(CommandLineOptions::default(), "/w".to_owned());
    let open = json(
        r#"{"method": "textDocument/didOpen",
            "params": {"textDocument": {"uri": "untitled:Untitled-1", "text": "x"}}}"#,
    );
    let Action::Send(reply) = server.handle(&open, no_options()) else {
        panic!("expected an error notification");
    };
    let list = diagnostics(&reply);
    assert_eq!(list.len(), 1);
    assert_eq!(
        text_at(&list[0], &["message"]),
        Some("Only file:// document URIs are supported.")
    );
    assert_eq!(
        number_at(&list[0], &["range", "end", "character"]).as_deref(),
        Some("1")
    );
}

fn issue(file: &str, line: u64, message: &str) -> Issue {
    Issue {
        file: file.to_owned(),
        line,
        message: message.to_owned(),
        identifier: Some("rule.id".to_owned()),
    }
}

#[test]
fn publishes_the_kept_issues_with_their_ranges() {
    let analysis = Analysis {
        issues: vec![
            issue("/w/Foo.php", 2, "kept"),
            issue("/w/Other.php", 1, "dropped"),
        ],
        errors: vec!["ignored".to_owned()],
    };
    let reply = publish_analysis_with(
        "file:///w/Foo.php",
        "<?php\n  $a = 1;\n",
        &analysis,
        &vec![true, false],
    );
    let list = diagnostics(&reply);
    assert_eq!(list.len(), 1);
    assert_eq!(text_at(&list[0], &["message"]), Some("kept"));
    assert_eq!(text_at(&list[0], &["code"]), Some("rule.id"));
    assert_eq!(text_at(&list[0], &["source"]), Some("phpstan"));
    assert_eq!(number_at(&list[0], &["severity"]).as_deref(), Some("1"));
    assert_eq!(
        number_at(&list[0], &["range", "start", "line"]).as_deref(),
        Some("1")
    );
    assert_eq!(
        number_at(&list[0], &["range", "start", "character"]).as_deref(),
        Some("2")
    );
    assert_eq!(
        number_at(&list[0], &["range", "end", "character"]).as_deref(),
        Some("9")
    );
}

#[test]
fn publishes_phpstan_errors_when_no_issue_is_kept() {
    let analysis = Analysis {
        issues: vec![issue("/elsewhere.php", 1, "dropped")],
        errors: vec!["first".to_owned(), "second".to_owned()],
    };
    let reply = publish_outcome("file:///w/Foo.php", "  code", &Ok(analysis));
    let list = diagnostics(&reply);
    assert_eq!(list.len(), 1);
    assert_eq!(text_at(&list[0], &["message"]), Some("first\nsecond"));
    assert!(matches!(list[0].get("code"), Some(JsonValue::Null)));
    assert_eq!(
        number_at(&list[0], &["range", "start", "character"]).as_deref(),
        Some("2")
    );
    let failed = publish_outcome("file:///w/Foo.php", "", &Err("boom".to_owned()));
    assert_eq!(text_at(&diagnostics(&failed)[0], &["message"]), Some("boom"));
}

#[test]
fn publishes_issues_of_the_document_file() {
    let analysis = Analysis {
        issues: vec![issue("/w//Foo.php", 1, "same file")],
        errors: Vec::new(),
    };
    let reply = publish_outcome("file:///w/Foo.php", "x", &Ok(analysis));
    assert_eq!(diagnostics(&reply).len(), 1);
}

#[test]
fn compares_files_by_canonical_path() {
    assert!(same_file("/", "/tmp/.."));
    assert!(same_file("/w/a.php", "/w/./a.php"));
    assert!(!same_file("/nonexistent/a.php", "/nonexistent/b.php"));
}

#[test]
fn copies_json_values() {
    let value = json(r#"{"a": [1, "b", null, true], "c": {"d": 2.5}}"#);
    let copy = value.copy();
    assert_eq!(format!("{:?}", copy), format!("{:?}", value));
}

#[test]
fn decides_same_file_from_canonical_paths() {
    assert!(same_file_given("/w/a.php", "/w//a.php", None, None));
    assert!(same_file_given("/l/a.php", "/w/a.php", Some("/w/a.php"), Some("/w/./a.php")));
    assert!(!same_file_given("/l/a.php", "/w/a.php", Some("/w/a.php"), None));
    assert!(!same_file_given("/l/a.php", "/w/a.php", Some("/w/a.php"), Some("/w/b.php")));
}

#[test]
fn finds_the_initialization_options_of_a_message() {
    let message = json(
        r#"{"method": "initialize",
            "params": {"initializationOptions": {"memoryLimit": "1G"}}}"#,
    );
    let options = initialization_options_of(&message).unwrap();
    assert_eq!(text_at(options, &["memoryLimit"]), Some("1G"));
    assert!(initialization_options_of(&json(r#"{"params": {}}"#)).is_none());
    assert!(initialization_options_of(&json(r#"{"method": "initialize"}"#)).is_none());
    assert!(initialization_options_of(&json(r#"{"params": [1]}"#)).is_none());
}

#[test]
fn exit_stops_and_changes_nothing() {
    let mut server = Server::new(CommandLineOptions::default(), "/w".to_owned());
    let open = json(
        r#"{"method": "textDocument/didOpen",
            "params": {"textDocument": {"uri": "file:///w/Foo.php", "text": "<?php"}}}"#,
    );
    server.handle(&open, no_options());
    assert!(matches!(
        server.handle(&json(r#"{"method": "exit"}"#), no_options()),
        Action::Exit
    ));
    assert_eq!(server.documents().get("file:///w/Foo.php").unwrap(), "<?php");
    assert_eq!(server.analyzer().root(), "/w");
}
