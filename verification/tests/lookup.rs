//! Tests of the blinded lookup table.

use rcon_webhook::config::WebhookDatabase;
use rcon_webhook::error::{Error, ErrorKind};
use rcon_webhook::lookup::BlindedTable;

fn db(pairs: &[(&str, &str)]) -> WebhookDatabase {
    let mut hooks = Vec::new();
    for (name, command) in pairs {
        hooks.push((name.to_string(), command.to_string()));
    }
    WebhookDatabase { hooks }
}

#[test]
fn resolve_returns_each_configured_command() {
    let table = BlindedTable::build(&db(&[("restart", "stop"), ("save", "save-all")])).unwrap();
    assert_eq!(table.resolve(b"restart").as_deref(), Some("stop"));
    assert_eq!(table.resolve(b"save").as_deref(), Some("save-all"));
}

#[test]
fn resolve_misses_unconfigured_names() {
    let table = BlindedTable::build(&db(&[("restart", "stop")])).unwrap();
    assert_eq!(table.resolve(b"doesnotexist"), None);
    assert_eq!(table.resolve(b""), None);
    assert_eq!(table.resolve(b"restart "), None);
    assert_eq!(table.resolve(b"Restart"), None);
}

#[test]
fn resolve_is_deterministic_within_a_process() {
    let table = BlindedTable::build(&db(&[("restart", "stop")])).unwrap();
    let first = table.resolve(b"restart");
    let second = table.resolve(b"restart");
    assert_eq!(first, second);
    assert_eq!(table.resolve(b"unknown"), table.resolve(b"unknown"));
}

#[test]
fn fresh_tables_resolve_alike_under_fresh_secrets() {
    let hooks = db(&[("restart", "stop")]);
    let one = BlindedTable::build(&hooks).unwrap();
    let two = BlindedTable::build(&hooks).unwrap();
    assert_eq!(one.resolve(b"restart").as_deref(), Some("stop"));
    assert_eq!(two.resolve(b"restart").as_deref(), Some("stop"));
    assert_eq!(one.resolve(b"other"), None);
    assert_eq!(two.resolve(b"other"), None);
}

#[test]
fn duplicate_name_last_entry_wins() {
    let table = BlindedTable::build(&db(&[("a", "one"), ("a", "two")])).unwrap();
    assert_eq!(table.resolve(b"a").as_deref(), Some("two"));
}

#[test]
fn empty_database_resolves_nothing() {
    let table = BlindedTable::build(&db(&[])).unwrap();
    assert_eq!(table.resolve(b"anything"), None);
}

#[test]
fn error_new_keeps_its_parts() {
    let e = Error::new(ErrorKind::Transport, "I/O error".to_string(), Some("timed out".to_string()));
    assert_eq!(e.kind, ErrorKind::Transport);
    assert_eq!(e.error, "I/O error");
    assert_eq!(e.source.as_deref(), Some("timed out"));
    assert!(!e.has_backtrace());
}
