use lokan_hub::audit::{verify_chain, AuditEvent, AuditWriter};

fn event(action: &str) -> AuditEvent {
    AuditEvent::new(
        "alice".to_string(),
        "Admin".to_string(),
        action.to_string(),
        "/v1/devices".to_string(),
        "allow".to_string(),
    )
}

fn three_records() -> Vec<lokan_hub::audit::AuditRecord> {
    let mut writer = AuditWriter::new();
    vec![
        writer.append(event("one"), "2024-01-01T00:00:00Z".to_string()),
        writer.append(event("two"), "2024-01-01T00:00:01Z".to_string()),
        writer.append(event("three"), "2024-01-01T00:00:02Z".to_string()),
    ]
}

#[test]
fn clean_chain_verifies() {
    let records = three_records();
    assert_eq!(verify_chain(&records), None);
    // The chain links: each record's prev_hash is the previous record's hash.
    assert_eq!(records[1].prev_hash, records[0].hash);
    assert_eq!(records[2].prev_hash, records[1].hash);
}

#[test]
fn tampered_event_detected() {
    let mut records = three_records();
    records[1].event.action = "twa".to_string();
    assert_eq!(verify_chain(&records), Some(1));
}

#[test]
fn reordered_records_detected() {
    let mut records = three_records();
    records.swap(0, 1);
    assert_eq!(verify_chain(&records), Some(0));
}

#[test]
fn removed_record_detected() {
    let mut records = three_records();
    records.remove(1);
    assert_eq!(verify_chain(&records), Some(1));
}

#[test]
fn hydrate_resumes_from_last_hash() {
    let records = three_records();
    let resumed = AuditWriter::hydrate(&records).expect("hydrate");
    let mut fresh = AuditWriter::new();
    fresh.append(event("one"), "t".to_string());
    fresh.append(event("two"), "t".to_string());
    fresh.append(event("three"), "t".to_string());
    assert_eq!(resumed.prev_hash, fresh.prev_hash);

    let empty: Vec<lokan_hub::audit::AuditRecord> = Vec::new();
    let start = AuditWriter::hydrate(&empty).expect("hydrate empty");
    assert_eq!(start.prev_hash, vec![0u8; 32]);
}

#[test]
fn hydrate_rejects_malformed_hash() {
    let mut records = three_records();
    records[2].hash = "///not-base64///".to_string();
    assert!(matches!(
        AuditWriter::hydrate(&records).unwrap_err(),
        lokan_hub::audit::AuditError::Malformed
    ));
}

#[test]
fn detail_changes_the_hash() {
    let mut w1 = AuditWriter::new();
    let mut w2 = AuditWriter::new();
    let r1 = w1.append(event("act"), "t".to_string());
    let r2 = w2.append(
        event("act").with_detail("{\"reason\":\"x\"}".to_string()),
        "t".to_string(),
    );
    assert_ne!(r1.hash, r2.hash);
}

#[test]
fn outcome_rewrite_changes_the_hash() {
    let mut w1 = AuditWriter::new();
    let mut w2 = AuditWriter::new();
    let r1 = w1.append(event("act"), "t".to_string());
    let r2 = w2.append(event("act").with_outcome("deny".to_string()), "t".to_string());
    assert_ne!(r1.hash, r2.hash);
}
