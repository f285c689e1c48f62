use std::time::Duration;

use codex_lsp::config::ServerMap;
use codex_lsp::option_duration_ms::{deserialize, same_timeout, serialize};
use codex_lsp::{LspConfig, LspServerConfig};

fn pyright() -> LspServerConfig {
    LspServerConfig::new("pyright-langserver").with_language("python")
}

fn rust_analyzer() -> LspServerConfig {
    LspServerConfig::new(String::from("rust-analyzer"))
        .with_language("rust")
        .with_language(String::from("toml"))
}

#[test]
fn disabled_by_default() {
    let config = LspConfig::default();
    assert_eq!(config.enabled, false);
    assert!(config.servers.is_empty());
    assert_eq!(config.diagnostics_timeout_ms, None);
}

#[test]
fn servers_for_language_filters() {
    let mut servers = ServerMap::new();
    servers.insert("pyright".to_string(), pyright());
    let config = LspConfig {
        enabled: true,
        diagnostics_timeout_ms: None,
        servers,
    };
    assert_eq!(config.servers_for_language("python").len(), 1);
    assert!(config.servers_for_language("rust").is_empty());
}

#[test]
fn servers_for_language_lists_every_match_once() {
    let mut servers = ServerMap::new();
    servers.insert("a".to_string(), rust_analyzer());
    servers.insert("b".to_string(), pyright());
    servers.insert("c".to_string(), pyright().with_language("toml").with_language("toml"));
    let config = LspConfig {
        enabled: true,
        diagnostics_timeout_ms: None,
        servers,
    };
    let mut toml: Vec<&str> = config
        .servers_for_language("toml")
        .into_iter()
        .map(|(label, _)| label)
        .collect();
    toml.sort();
    assert_eq!(toml, vec!["a", "c"]);
    let python = config.servers_for_language("python");
    assert_eq!(python.len(), 2);
    assert!(python.iter().all(|(_, server)| server.command == "pyright-langserver"));
    assert!(config.servers_for_language("Rust").is_empty());
    assert!(config.servers_for_language("").is_empty());
}

#[test]
fn server_builder_starts_empty_and_keeps_the_order_of_languages() {
    let server = rust_analyzer();
    assert_eq!(server.command, "rust-analyzer");
    assert!(server.args.is_empty());
    assert_eq!(server.languages, vec!["rust".to_string(), "toml".to_string()]);
    assert_eq!(server.startup_timeout_ms, None);
    assert!(server.handles_language("toml"));
    assert!(!server.handles_language("python"));
}

#[test]
fn later_insert_replaces_the_server_of_a_label() {
    let mut servers = ServerMap::new();
    assert!(servers.get("main").is_none());
    servers.insert("main".to_string(), pyright());
    servers.insert("other".to_string(), pyright());
    servers.insert("main".to_string(), rust_analyzer());
    assert!(!servers.is_empty());
    assert_eq!(servers.get("main").map(|server| server.command.as_str()), Some("rust-analyzer"));
    assert_eq!(
        servers.get("other").map(|server| server.command.as_str()),
        Some("pyright-langserver")
    );
    assert!(servers.get("Main").is_none());
}

#[test]
fn entries_hold_each_label_once() {
    let mut servers = ServerMap::new();
    servers.insert("a".to_string(), pyright());
    servers.insert("b".to_string(), pyright());
    servers.insert("a".to_string(), rust_analyzer());
    let mut entries = servers.into_entries();
    entries.sort_by(|one, two| one.0.cmp(&two.0));
    assert_eq!(entries.len(), 2);
    assert_eq!(entries[0].0, "a");
    assert!(entries[0].1 == rust_analyzer());
    assert_eq!(entries[1].0, "b");
    assert!(entries[1].1 == pyright());
    assert!(ServerMap::new().into_entries().is_empty());
}

#[test]
fn equality_does_not_depend_on_the_order_of_servers() {
    let mut one = ServerMap::new();
    one.insert("a".to_string(), pyright());
    one.insert("b".to_string(), rust_analyzer());
    let mut two = ServerMap::new();
    two.insert("b".to_string(), rust_analyzer());
    assert!(one != two);
    two.insert("a".to_string(), pyright());
    assert!(one == two);
    two.insert("a".to_string(), rust_analyzer());
    assert!(one != two);
}

#[test]
fn clones_are_equal_to_what_they_were_made_of() {
    let mut servers = ServerMap::new();
    let mut server = pyright();
    server.args.push("--stdio".to_string());
    server.startup_timeout_ms = Some(Duration::from_secs(3));
    servers.insert("pyright".to_string(), server);
    let config = LspConfig {
        enabled: true,
        servers,
        diagnostics_timeout_ms: Some(Duration::from_millis(750)),
    };
    let copy = config.clone();
    assert!(copy == config);
    let copied = copy.servers.get("pyright").unwrap();
    assert_eq!(copied.args, vec!["--stdio".to_string()]);
    assert_eq!(copied.startup_timeout_ms, Some(Duration::from_secs(3)));
    assert_eq!(copy.diagnostics_timeout_ms, Some(Duration::from_millis(750)));
    assert!(copy != LspConfig::default());
}

#[test]
fn servers_differ_in_each_field() {
    let base = pyright();
    assert!(base == pyright());
    assert!(base != LspServerConfig::new("other").with_language("python"));
    assert!(base != pyright().with_language("toml"));
    let mut args = pyright();
    args.args.push("--stdio".to_string());
    assert!(base != args);
    let mut timeout = pyright();
    timeout.startup_timeout_ms = Some(Duration::from_millis(1));
    assert!(base != timeout);
}

#[test]
fn startup_timeout_defaults_to_ten_seconds() {
    let mut server = pyright();
    assert_eq!(server.startup_timeout(), Duration::from_secs(10));
    server.startup_timeout_ms = Some(Duration::from_millis(20));
    assert_eq!(server.startup_timeout(), Duration::from_millis(20));
}

#[test]
fn timeouts_are_written_as_whole_milliseconds() {
    assert_eq!(serialize(&None), None);
    assert_eq!(serialize(&Some(Duration::from_millis(1500))), Some(1500));
    assert_eq!(serialize(&Some(Duration::from_micros(1999))), Some(1));
    assert_eq!(serialize(&Some(Duration::from_nanos(999_999))), Some(0));
    assert_eq!(serialize(&Some(Duration::MAX)), Some(u64::MAX));
}

#[test]
fn timeouts_are_read_back_from_milliseconds() {
    assert_eq!(deserialize(None), None);
    assert_eq!(deserialize(Some(1500)), Some(Duration::from_millis(1500)));
    for millis in [0, 1, 999, 1000, u64::MAX] {
        assert_eq!(serialize(&deserialize(Some(millis))), Some(millis));
    }
}

#[test]
fn timeouts_are_equal_where_their_lengths_are() {
    let second = Some(Duration::from_secs(1));
    assert!(same_timeout(&second, &Some(Duration::from_millis(1000))));
    assert!(!same_timeout(&second, &Some(Duration::from_millis(1001))));
    assert!(!same_timeout(&second, &None));
    assert!(same_timeout(&None, &None));
}
