use base64::Engine;

use lokan_hub::commissioning::{
    ble_handshake, submit_csr, verify_credentials, BleHandshakeRequest, CsrRequest, VerifyRequest,
};
use lokan_hub::gateway::ApiError;

#[test]
fn commissioning_flow_emits_bus_events() {
    let handshake = BleHandshakeRequest {
        qr_payload: "LOKAN:thread-demo".to_string(),
        device_id: "device-001".to_string(),
        nonce: "abc123".to_string(),
    };
    let (hs_response, hs_event) = ble_handshake(&handshake).expect("handshake");
    assert_eq!(hs_response.session.len(), 36);
    assert!(!hs_response.shared_key.is_empty());

    let csr_payload = base64::engine::general_purpose::STANDARD.encode(b"fake-csr-payload");
    let csr = CsrRequest {
        device_id: "device-001".to_string(),
        csr: csr_payload,
        nonce: Some(hs_response.session.clone()),
    };
    let (csr_response, csr_event) = submit_csr(&csr).expect("csr");
    assert!(!csr_response.certificate.is_empty());

    let verify = VerifyRequest {
        device_id: "device-001".to_string(),
        signature: base64::engine::general_purpose::STANDARD.encode(vec![0x42; 32]),
        session: Some(hs_response.session.clone()),
    };
    let (verify_response, verify_event) = verify_credentials(&verify).expect("verify");
    assert!(verify_response.accepted);

    let recorded = vec![hs_event, csr_event, verify_event];
    assert_eq!(recorded.len(), 3);
    assert_eq!(recorded[0].subject, "radio.commissioning.handshake");
    assert_eq!(recorded[1].subject, "radio.commissioning.csr");
    assert_eq!(recorded[2].subject, "radio.commissioning.verify");

    let handshake_json = String::from_utf8(recorded[0].payload.clone()).unwrap();
    assert!(handshake_json.contains("\"deviceId\":\"device-001\""));
    let csr_json = String::from_utf8(recorded[1].payload.clone()).unwrap();
    assert!(csr_json.contains("\"csrLength\":16"));
    let verify_json = String::from_utf8(recorded[2].payload.clone()).unwrap();
    assert!(verify_json.contains("\"signatureLength\":32"));
}

#[test]
fn handshake_validations() {
    let base = BleHandshakeRequest {
        qr_payload: "LOKAN:ok".to_string(),
        device_id: "device-001".to_string(),
        nonce: "abc123".to_string(),
    };

    let mut bad_qr = base_clone(&base);
    bad_qr.qr_payload = "OTHER:".to_string();
    assert!(matches!(ble_handshake(&bad_qr), Err(ApiError::Validation { .. })));

    let mut empty_qr = base_clone(&base);
    empty_qr.qr_payload = String::new();
    assert!(matches!(ble_handshake(&empty_qr), Err(ApiError::Validation { .. })));

    let mut short_id = base_clone(&base);
    short_id.device_id = "abc".to_string();
    assert!(matches!(ble_handshake(&short_id), Err(ApiError::Validation { .. })));

    let mut bad_id = base_clone(&base);
    bad_id.device_id = "bad id!".to_string();
    assert!(matches!(ble_handshake(&bad_id), Err(ApiError::Validation { .. })));

    let mut short_nonce = base_clone(&base);
    short_nonce.nonce = "abc".to_string();
    assert!(matches!(ble_handshake(&short_nonce), Err(ApiError::Validation { .. })));
}

fn base_clone(r: &BleHandshakeRequest) -> BleHandshakeRequest {
    BleHandshakeRequest {
        qr_payload: r.qr_payload.clone(),
        device_id: r.device_id.clone(),
        nonce: r.nonce.clone(),
    }
}

#[test]
fn csr_validations() {
    let bad_b64 = CsrRequest {
        device_id: "device-001".to_string(),
        csr: "!!not base64!!".to_string(),
        nonce: None,
    };
    assert!(matches!(submit_csr(&bad_b64), Err(ApiError::Validation { .. })));

    let empty = CsrRequest {
        device_id: "device-001".to_string(),
        csr: String::new(),
        nonce: None,
    };
    assert!(matches!(submit_csr(&empty), Err(ApiError::Validation { .. })));
}

#[test]
fn csr_certificate_derives_from_device_and_payload() {
    let engine = &base64::engine::general_purpose::STANDARD;
    let csr = CsrRequest {
        device_id: "device-001".to_string(),
        csr: engine.encode(b"0123456789abcdef"),
        nonce: None,
    };
    let (response, _) = submit_csr(&csr).expect("csr");
    let decoded = engine.decode(&response.certificate).expect("certificate is base64");
    assert_eq!(decoded, b"lokan-dev-cert:device-001:01234567");
    assert_eq!(response.ca_identifier.as_deref(), Some("lokan-dev-root-ca"));
}

#[test]
fn short_signature_rejected() {
    let engine = &base64::engine::general_purpose::STANDARD;
    let verify = VerifyRequest {
        device_id: "device-001".to_string(),
        signature: engine.encode(vec![1u8; 8]),
        session: None,
    };
    assert!(matches!(verify_credentials(&verify), Err(ApiError::Validation { .. })));
}

#[test]
fn shared_key_is_32_random_bytes() {
    let request = BleHandshakeRequest {
        qr_payload: "LOKAN:x".to_string(),
        device_id: "device-001".to_string(),
        nonce: "abc123".to_string(),
    };
    let (a, _) = ble_handshake(&request).expect("first");
    let (b, _) = ble_handshake(&request).expect("second");
    let engine = &base64::engine::general_purpose::STANDARD;
    assert_eq!(engine.decode(&a.shared_key).unwrap().len(), 32);
    // Fresh sessions and secrets on every handshake.
    assert_ne!(a.session, b.session);
}

#[test]
fn csr_and_verify_payloads_carry_nonce_and_session() {
    let engine = &base64::engine::general_purpose::STANDARD;
    let without_nonce = CsrRequest {
        device_id: "device-001".to_string(),
        csr: engine.encode(b"fake-csr-payload"),
        nonce: None,
    };
    let (_, event) = submit_csr(&without_nonce).expect("csr");
    let body = String::from_utf8(event.payload).unwrap();
    assert!(body.contains("\"nonce\":null"));

    let with_nonce = CsrRequest {
        device_id: "device-001".to_string(),
        csr: engine.encode(b"fake-csr-payload"),
        nonce: Some("nonce-123".to_string()),
    };
    let (_, event) = submit_csr(&with_nonce).expect("csr");
    let body = String::from_utf8(event.payload).unwrap();
    assert!(body.contains("\"nonce\":\"nonce-123\""));

    let verify = VerifyRequest {
        device_id: "device-001".to_string(),
        signature: engine.encode(vec![0x42; 32]),
        session: Some("session-abc".to_string()),
    };
    let (_, event) = verify_credentials(&verify).expect("verify");
    let body = String::from_utf8(event.payload).unwrap();
    assert!(body.contains("\"session\":\"session-abc\""));
    assert!(body.contains("\"signatureLength\":32"));
}
