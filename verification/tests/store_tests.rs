use lokan_hub::store::encode_state;
use lokan_hub::updater::{Slot, UpdaterState};

#[test]
fn initial_state_encodes_canonically() {
    let state = UpdaterState::default();
    let bytes = encode_state(&state);
    let text = String::from_utf8(bytes).expect("the encoding is text");
    assert_eq!(
        text,
        "{\"generation\":0,\"active\":\"A\",\"previous_active\":null,\"staging\":null,\
         \"last_failed\":null,\"slots\":{\"A\":{\"state\":\"ACTIVE\",\"artifact\":null,\
         \"generation\":0},\"B\":{\"state\":\"INACTIVE\",\"artifact\":null,\"generation\":0}}}"
    );
}

#[test]
fn encoded_state_parses_back() {
    // Round trip through a JSON parser: every field of a staged state
    // survives serialization.
    let mut state = UpdaterState::default();
    state.stage("artifact \"v1\"\\path".to_string(), Some(Slot::B)).expect("stage");
    let bytes = encode_state(&state);
    let value: serde_json::Value = serde_json::from_slice(&bytes).expect("the encoding is JSON");
    assert_eq!(value["generation"], 1);
    assert_eq!(value["active"], "A");
    assert_eq!(value["staging"], "B");
    assert_eq!(value["previous_active"], serde_json::Value::Null);
    assert_eq!(value["slots"]["B"]["state"], "STAGED");
    assert_eq!(value["slots"]["B"]["artifact"], "artifact \"v1\"\\path");
    assert_eq!(value["slots"]["B"]["generation"], 1);
    assert_eq!(value["slots"]["A"]["state"], "ACTIVE");
}

#[test]
fn audit_event_canonical_bytes_are_json() {
    let event = lokan_hub::audit::AuditEvent::new(
        "al\"ice".to_string(),
        "Admin".to_string(),
        "login".to_string(),
        "/v1/session".to_string(),
        "allow".to_string(),
    )
    .with_detail("{\"ip\":\"10.0.0.1\"}".to_string());
    let bytes = lokan_hub::audit::canonical_event_bytes(&event);
    let value: serde_json::Value = serde_json::from_slice(&bytes).expect("canonical JSON");
    assert_eq!(value["actor"], "al\"ice");
    assert_eq!(value["role"], "Admin");
    assert_eq!(value["detail"]["ip"], "10.0.0.1");
}

#[test]
fn decode_state_inverts_encode_state() {
    let mut state = UpdaterState::default();
    state.stage("artifact \"v1\"\\path".to_string(), Some(Slot::B)).expect("stage");
    let bytes = lokan_hub::store::encode_state(&state);
    let decoded = lokan_hub::store::decode_state(&bytes).expect("canonical encoding decodes");
    assert_eq!(decoded.generation, state.generation);
    assert_eq!(decoded.active, state.active);
    assert_eq!(decoded.previous_active, state.previous_active);
    assert_eq!(decoded.staging, state.staging);
    assert_eq!(decoded.last_failed, state.last_failed);
    assert_eq!(decoded.slots.a.state, state.slots.a.state);
    assert_eq!(decoded.slots.b.state, state.slots.b.state);
    assert_eq!(decoded.slots.b.artifact, state.slots.b.artifact);
    assert_eq!(decoded.slots.b.generation, state.slots.b.generation);
}

#[test]
fn decode_state_rejects_altered_bytes() {
    let bytes = lokan_hub::store::encode_state(&UpdaterState::default());
    let mut tampered = bytes.clone();
    // Corrupt the field name "generation".
    tampered[3] = b'x';
    assert!(lokan_hub::store::decode_state(&tampered).is_none());

    let mut trailing = bytes.clone();
    trailing.push(b' ');
    assert!(lokan_hub::store::decode_state(&trailing).is_none());

    assert!(lokan_hub::store::decode_state(&bytes).is_some());
}
