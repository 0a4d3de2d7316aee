//! Registry operations, client decisions and configuration helpers.

use echo::client::{client_on_response, input_line_request, ClientAction};
use echo::message::{EchoCommand, EchoResponse};
use echo::registry::Registry;
use echo::telemetry_level;

#[test]
fn registry_insert_get_remove() {
    let mut registry = Registry::new();
    assert_eq!(registry.get(5), None);
    registry.insert(5, 50);
    assert_eq!(registry.get(5), Some(50));
    assert_eq!(registry.len(), 1);
    registry.insert(6, 60);
    assert_eq!(registry.get(6), Some(60));
    assert_eq!(registry.len(), 2);
    registry.remove(5);
    assert_eq!(registry.get(5), None);
    assert_eq!(registry.get(6), Some(60));
    assert_eq!(registry.len(), 1);
}

#[test]
fn registry_get_after_remove_stays_not_found() {
    let mut registry = Registry::new();
    registry.insert(9, 90);
    registry.remove(9);
    assert_eq!(registry.get(9), None);
    registry.insert(10, 100);
    registry.remove(10);
    assert_eq!(registry.get(9), None);
    assert_eq!(registry.get(10), None);
}

#[test]
fn registry_insert_replaces() {
    let mut registry = Registry::new();
    registry.insert(3, 30);
    registry.insert(3, 31);
    assert_eq!(registry.get(3), Some(31));
    assert_eq!(registry.len(), 1);
}

#[test]
fn registry_remove_absent_is_harmless() {
    let mut registry = Registry::new();
    registry.insert(1, 10);
    registry.remove(2);
    assert_eq!(registry.get(1), Some(10));
    assert_eq!(registry.len(), 1);
}

#[test]
fn registry_entries_walk_every_live_session() {
    let mut registry = Registry::new();
    registry.insert(1, 10);
    registry.insert(2, 20);
    registry.insert(3, 30);
    registry.remove(2);
    let mut entries = registry.entries();
    entries.sort();
    assert_eq!(entries, vec![(1, 10), (3, 30)]);
}

#[test]
fn client_reacts_to_each_response() {
    assert_eq!(
        client_on_response(EchoResponse::IdAssigned("id-1".to_owned())),
        ClientAction::SessionAssigned("id-1".to_owned())
    );
    assert_eq!(
        client_on_response(EchoResponse::EchoResponse("hi\n".to_owned())),
        ClientAction::Display("hi\n".to_owned())
    );
    assert_eq!(client_on_response(EchoResponse::Goodbye()), ClientAction::Finished);
}

#[test]
fn input_lines_become_messages() {
    assert_eq!(input_line_request(String::new()), None);
    assert_eq!(
        input_line_request("ping\n".to_owned()),
        Some(EchoCommand::Message("ping\n".to_owned()))
    );
}

#[test]
fn telemetry_levels_follow_verbosity() {
    assert_eq!(telemetry_level(None), "Error");
    assert_eq!(telemetry_level(Some(0)), "Error");
    assert_eq!(telemetry_level(Some(1)), "Warn");
    assert_eq!(telemetry_level(Some(2)), "Info");
    assert_eq!(telemetry_level(Some(3)), "Debug");
    assert_eq!(telemetry_level(Some(4)), "Trace");
    assert_eq!(telemetry_level(Some(200)), "Trace");
}
