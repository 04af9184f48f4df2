//! Device commissioning: BLE handshake, CSR submission and credential
//! verification. Each handler validates its input, builds the bus event to
//! publish and the response to return; the I/O layer performs the publish.

use vstd::prelude::*;
use vstd::string::StringSliceAdditionalSpecFns;
use vstd::utf8::encode_utf8;

use crate::crypto::{b64_decode, b64_encode, b64_of, random_bytes32, uuid_v4_string};
use crate::gateway::ApiError;
use crate::strutil::push_bytes;

verus! {

/// Request to open a BLE commissioning session.
#[derive(Debug, Clone, PartialEq, Eq)]
pub struct BleHandshakeRequest {
    pub qr_payload: String,
    pub device_id: String,
    pub nonce: String,
}

/// Response to a BLE handshake: a fresh session id and shared secret.
#[derive(Debug, Clone, PartialEq, Eq)]
pub struct BleHandshakeResponse {
    pub session: String,
    pub shared_key: String,
}

/// Request to sign a device certificate signing request.
#[derive(Debug, Clone, PartialEq, Eq)]
pub struct CsrRequest {
    pub device_id: String,
    pub csr: String,
    pub nonce: Option<String>,
}

impl Default for CsrRequest {
    /// An empty request.
    fn default() -> (r: CsrRequest)
        ensures
            r.device_id@ == Seq::<char>::empty(),
            r.csr@ == Seq::<char>::empty(),
            r.nonce is None,
    {
        CsrRequest { device_id: String::new(), csr: String::new(), nonce: None }
    }
}

/// Response carrying the issued certificate.
#[derive(Debug, Clone, PartialEq, Eq)]
pub struct CsrResponse {
    pub certificate: String,
    pub ca_identifier: Option<String>,
}

impl Default for CsrResponse {
    /// An empty response.
    fn default() -> (r: CsrResponse)
        ensures
            r.certificate@ == Seq::<char>::empty(),
            r.ca_identifier is None,
    {
        CsrResponse { certificate: String::new(), ca_identifier: None }
    }
}

/// Request to verify applied credentials.
#[derive(Debug, Clone, PartialEq, Eq)]
pub struct VerifyRequest {
    pub device_id: String,
    pub signature: String,
    pub session: Option<String>,
}

impl Default for VerifyRequest {
    /// An empty request.
    fn default() -> (r: VerifyRequest)
        ensures
            r.device_id@ == Seq::<char>::empty(),
            r.signature@ == Seq::<char>::empty(),
            r.session is None,
    {
        VerifyRequest { device_id: String::new(), signature: String::new(), session: None }
    }
}

/// Verification verdict.
#[derive(Debug, Clone, PartialEq, Eq)]
pub struct VerifyResponse {
    pub accepted: bool,
    pub reason: Option<String>,
}

impl Default for VerifyResponse {
    /// A rejection with no reason.
    fn default() -> (r: VerifyResponse)
        ensures
            r.accepted == false,
            r.reason is None,
    {
        VerifyResponse { accepted: false, reason: None }
    }
}

/// A bus event to publish: the subject and the JSON payload bytes.
#[derive(Debug, Clone, PartialEq, Eq)]
pub struct BusEventOut {
    pub subject: String,
    pub payload: Vec<u8>,
}

/// A commissioning identifier byte: ASCII alphanumeric, `-` or `_`.
pub open spec fn is_ident_byte(b: u8) -> bool {
    (48 <= b <= 57) || (65 <= b <= 90) || (97 <= b <= 122) || b == 45 || b == 95
}

/// Whether all bytes are identifier bytes.
pub open spec fn all_ident_bytes(s: Seq<u8>) -> bool {
    forall|i: int| 0 <= i < s.len() ==> is_ident_byte(#[trigger] s[i])
}

fn bytes_all_ident(s: &[u8]) -> (r: bool)
    ensures
        r == all_ident_bytes(s@),
{
    let mut i: usize = 0;
    while i < s.len()
        invariant
            i <= s@.len(),
            forall|j: int| 0 <= j < i ==> is_ident_byte(#[trigger] s@[j]),
        decreases s@.len() - i,
    {
        let b = s[i];
        if !((48 <= b && b <= 57) || (65 <= b && b <= 90) || (97 <= b && b <= 122) || b == 45 || b
            == 95) {
            return false;
        }
        i = i + 1;
    }
    true
}

/// A valid QR payload: non-empty and starting with `LOKAN:`.
pub open spec fn spec_qr_ok(qr: Seq<u8>) -> bool {
    qr.len() >= 6 && qr.take(6) == encode_utf8("LOKAN:"@)
}

/// Validate the QR payload.
pub fn validate_qr(qr: &str) -> (r: Result<(), ApiError>)
    ensures
        r is Ok <==> spec_qr_ok(qr.spec_bytes()),
        r matches Err(e) ==> e is Validation,
{
    let bytes = qr.as_bytes();
    if bytes.len() < 6 {
        return Err(
            ApiError::Validation {
                message: String::from_str("qrPayload must begin with the LOKAN: prefix"),
            },
        );
    }
    let prefix = &bytes[0..6];
    assert(prefix@ =~= qr.spec_bytes().take(6));
    if !crate::strutil::bytes_eq(prefix, "LOKAN:".as_bytes()) {
        return Err(
            ApiError::Validation {
                message: String::from_str("qrPayload must begin with the LOKAN: prefix"),
            },
        );
    }
    Ok(())
}

/// A valid device id: 4 to 64 identifier bytes.
pub open spec fn spec_device_id_ok(s: Seq<u8>) -> bool {
    4 <= s.len() <= 64 && all_ident_bytes(s)
}

/// Validate a device id.
pub fn validate_device_id(device_id: &str) -> (r: Result<(), ApiError>)
    ensures
        r is Ok <==> spec_device_id_ok(device_id.spec_bytes()),
        r matches Err(e) ==> e is Validation,
{
    let bytes = device_id.as_bytes();
    if bytes.len() < 4 || bytes.len() > 64 {
        return Err(
            ApiError::Validation {
                message: String::from_str("deviceId must be between 4 and 64 characters"),
            },
        );
    }
    if !bytes_all_ident(bytes) {
        return Err(
            ApiError::Validation {
                message: String::from_str(
                    "deviceId must be alphanumeric and may include '-' or '_'",
                ),
            },
        );
    }
    Ok(())
}

/// A valid nonce or session id: 6 to 128 identifier bytes.
pub open spec fn spec_nonce_ok(s: Seq<u8>) -> bool {
    6 <= s.len() <= 128 && all_ident_bytes(s)
}

/// Validate a nonce or session id.
pub fn validate_nonce(nonce: &str) -> (r: Result<(), ApiError>)
    ensures
        r is Ok <==> spec_nonce_ok(nonce.spec_bytes()),
        r matches Err(e) ==> e is Validation,
{
    let bytes = nonce.as_bytes();
    if bytes.len() < 6 || bytes.len() > 128 {
        return Err(
            ApiError::Validation {
                message: String::from_str("nonce must be between 6 and 128 characters"),
            },
        );
    }
    if !bytes_all_ident(bytes) {
        return Err(
            ApiError::Validation {
                message: String::from_str("nonce must be alphanumeric and may include '-' or '_'"),
            },
        );
    }
    Ok(())
}

/// Generate a base64 shared secret of 32 random bytes.
pub fn generate_shared_secret() -> (r: String)
    ensures
        exists|bs: Seq<u8>| bs.len() == 32 && r@ == b64_of(bs),
{
    let bytes = random_bytes32();
    b64_encode(bytes.as_slice())
}

/// Handle a BLE handshake: validate the QR payload, device id and nonce,
/// then answer with a fresh session and shared secret, and emit the
/// handshake event on `radio.commissioning.handshake`.
pub fn ble_handshake(request: &BleHandshakeRequest) -> (r: Result<
    (BleHandshakeResponse, BusEventOut),
    ApiError,
>)
    ensures
        r is Ok <==> (spec_qr_ok(encode_utf8(request.qr_payload@)) && spec_device_id_ok(
            encode_utf8(request.device_id@),
        ) && spec_nonce_ok(encode_utf8(request.nonce@))),
        r matches Ok((resp, ev)) ==> {
            &&& resp.session@.len() == 36
            &&& exists|bs: Seq<u8>| bs.len() == 32 && resp.shared_key@ == b64_of(bs)
            &&& ev.subject@ == "radio.commissioning.handshake"@
            &&& ev.payload@ == handshake_event_bytes(
                encode_utf8(request.device_id@),
                encode_utf8(request.nonce@),
                encode_utf8(resp.session@),
            )
        },
        r matches Err(e) ==> e is Validation,
{
    validate_qr(request.qr_payload.as_str())?;
    validate_device_id(request.device_id.as_str())?;
    validate_nonce(request.nonce.as_str())?;

    let session = uuid_v4_string();
    let shared_key = generate_shared_secret();

    let mut payload: Vec<u8> = Vec::new();
    push_bytes(&mut payload, "{\"type\":\"commissioning.handshake\",\"deviceId\":\"".as_bytes());
    crate::audit::push_json_escaped(&mut payload, request.device_id.as_str().as_bytes());
    push_bytes(&mut payload, "\",\"nonce\":\"".as_bytes());
    crate::audit::push_json_escaped(&mut payload, request.nonce.as_str().as_bytes());
    push_bytes(&mut payload, "\",\"session\":\"".as_bytes());
    crate::audit::push_json_escaped(&mut payload, session.as_str().as_bytes());
    push_bytes(&mut payload, "\"}".as_bytes());
    assert(payload@ =~= handshake_event_bytes(
        encode_utf8(request.device_id@),
        encode_utf8(request.nonce@),
        encode_utf8(session@),
    ));

    let event = BusEventOut { subject: String::from_str("radio.commissioning.handshake"), payload };
    Ok((BleHandshakeResponse { session, shared_key }, event))
}

/// The handshake event payload for the given field bytes.
pub open spec fn handshake_event_bytes(device_id: Seq<u8>, nonce: Seq<u8>, session: Seq<u8>) -> Seq<
    u8,
> {
    encode_utf8("{\"type\":\"commissioning.handshake\",\"deviceId\":\""@)
        + crate::audit::json_escape(device_id) + encode_utf8("\",\"nonce\":\""@)
        + crate::audit::json_escape(nonce) + encode_utf8("\",\"session\":\""@)
        + crate::audit::json_escape(session) + encode_utf8("\"}"@)
}

/// A JSON string field value: the escaped, quoted bytes, or `null`.
pub open spec fn json_opt_string(v: Option<Seq<u8>>) -> Seq<u8> {
    match v {
        Some(s) => encode_utf8("\""@) + crate::audit::json_escape(s) + encode_utf8("\""@),
        None => encode_utf8("null"@),
    }
}

/// Append a JSON string field value: the escaped, quoted bytes, or `null`.
fn push_json_opt_string(out: &mut Vec<u8>, v: &Option<String>)
    ensures
        final(out)@ == old(out)@ + json_opt_string(
            match v {
                Some(s) => Some(encode_utf8(s@)),
                None => None,
            },
        ),
{
    match v {
        Some(s) => {
            push_bytes(out, "\"".as_bytes());
            crate::audit::push_json_escaped(out, s.as_str().as_bytes());
            push_bytes(out, "\"".as_bytes());
            assert(out@ =~= old(out)@ + json_opt_string(Some(encode_utf8(s@))));
        },
        None => {
            push_bytes(out, "null".as_bytes());
            assert(out@ =~= old(out)@ + json_opt_string(None));
        },
    }
}

/// The CSR event payload for the given field bytes, nonce and decoded CSR
/// length.
pub open spec fn csr_event_bytes(device_id: Seq<u8>, nonce: Option<Seq<u8>>, csr_len: nat) -> Seq<
    u8,
> {
    encode_utf8("{\"type\":\"commissioning.csr\",\"deviceId\":\""@) + crate::audit::json_escape(
        device_id,
    ) + encode_utf8("\",\"nonce\":"@) + json_opt_string(nonce) + encode_utf8(",\"csrLength\":"@)
        + crate::strutil::dec_digits_of(csr_len) + encode_utf8("}"@)
}

/// Handle a CSR submission: the device id must validate, the CSR must be
/// non-empty base64 and any nonce must validate; the response carries a
/// development certificate derived from the device id and the first CSR
/// bytes, and the CSR event goes out on `radio.commissioning.csr`.
pub fn submit_csr(request: &CsrRequest) -> (r: Result<(CsrResponse, BusEventOut), ApiError>)
    ensures
        (spec_device_id_ok(encode_utf8(request.device_id@)) && (exists|csr: Seq<u8>|
            request.csr@ == b64_of(csr) && csr.len() > 0) && (request.nonce matches Some(n)
            ==> spec_nonce_ok(encode_utf8(n@)))) ==> r is Ok,
        r matches Ok((resp, ev)) ==> {
            &&& spec_device_id_ok(encode_utf8(request.device_id@))
            &&& exists|csr: Seq<u8>|
                {
                    &&& request.csr@ == b64_of(csr)
                    &&& csr.len() > 0
                    &&& ev.payload@ == csr_event_bytes(
                        encode_utf8(request.device_id@),
                        match request.nonce {
                            Some(n) => Some(encode_utf8(n@)),
                            None => None,
                        },
                        csr.len(),
                    )
                    &&& resp.certificate@ == b64_of(
                        encode_utf8("lokan-dev-cert:"@) + encode_utf8(request.device_id@)
                            + encode_utf8(":"@) + (if csr.len() <= 8 {
                            csr
                        } else {
                            csr.take(8)
                        }),
                    )
                }
            &&& ev.subject@ == "radio.commissioning.csr"@
            &&& resp.ca_identifier matches Some(ca) && ca@ == "lokan-dev-root-ca"@
            &&& (request.nonce matches Some(n) ==> spec_nonce_ok(encode_utf8(n@)))
        },
        r matches Err(e) ==> e is Validation,
{
    validate_device_id(request.device_id.as_str())?;
    let csr_bytes = match b64_decode(request.csr.as_str()) {
        Ok(b) => b,
        Err(()) => {
            return Err(
                ApiError::Validation { message: String::from_str("csr must be valid base64 data") },
            );
        },
    };
    if csr_bytes.len() == 0 {
        return Err(
            ApiError::Validation { message: String::from_str("csr payload cannot be empty") },
        );
    }
    if let Some(nonce) = &request.nonce {
        validate_nonce(nonce.as_str())?;
    }

    let mut certificate_bytes: Vec<u8> = Vec::new();
    push_bytes(&mut certificate_bytes, "lokan-dev-cert:".as_bytes());
    push_bytes(&mut certificate_bytes, request.device_id.as_str().as_bytes());
    push_bytes(&mut certificate_bytes, ":".as_bytes());
    let prefix_len: usize = if csr_bytes.len() < 8 {
        csr_bytes.len()
    } else {
        8
    };
    let head = &csr_bytes.as_slice()[0..prefix_len];
    push_bytes(&mut certificate_bytes, head);
    proof {
        if csr_bytes@.len() <= 8 {
            assert(head@ =~= csr_bytes@);
        } else {
            assert(head@ =~= csr_bytes@.take(8));
        }
    }
    let certificate = b64_encode(certificate_bytes.as_slice());
    let response = CsrResponse {
        certificate,
        ca_identifier: Some(String::from_str("lokan-dev-root-ca")),
    };

    let mut payload: Vec<u8> = Vec::new();
    push_bytes(&mut payload, "{\"type\":\"commissioning.csr\",\"deviceId\":\"".as_bytes());
    crate::audit::push_json_escaped(&mut payload, request.device_id.as_str().as_bytes());
    push_bytes(&mut payload, "\",\"nonce\":".as_bytes());
    push_json_opt_string(&mut payload, &request.nonce);
    push_bytes(&mut payload, ",\"csrLength\":".as_bytes());
    let len_digits = crate::strutil::dec_render(csr_bytes.len() as u64);
    push_bytes(&mut payload, len_digits.as_slice());
    push_bytes(&mut payload, "}".as_bytes());
    assert(payload@ =~= csr_event_bytes(
        encode_utf8(request.device_id@),
        match request.nonce {
            Some(n) => Some(encode_utf8(n@)),
            None => None,
        },
        csr_bytes@.len(),
    ));

    let event = BusEventOut { subject: String::from_str("radio.commissioning.csr"), payload };
    Ok((response, event))
}

/// The verify event payload for the given field bytes, session and
/// signature length.
pub open spec fn verify_event_bytes(
    device_id: Seq<u8>,
    session: Option<Seq<u8>>,
    sig_len: nat,
) -> Seq<u8> {
    encode_utf8("{\"type\":\"commissioning.verify\",\"deviceId\":\""@) + crate::audit::json_escape(
        device_id,
    ) + encode_utf8("\",\"session\":"@) + json_opt_string(session) + encode_utf8(
        ",\"signatureLength\":"@,
    ) + crate::strutil::dec_digits_of(sig_len) + encode_utf8("}"@)
}

/// Handle credential verification: the device id must validate, the
/// signature must be base64 of at least 16 bytes, and any session id must
/// validate; the verify event goes out on `radio.commissioning.verify`.
pub fn verify_credentials(request: &VerifyRequest) -> (r: Result<
    (VerifyResponse, BusEventOut),
    ApiError,
>)
    ensures
        (spec_device_id_ok(encode_utf8(request.device_id@)) && (exists|sig: Seq<u8>|
            request.signature@ == b64_of(sig) && sig.len() >= 16) && (request.session matches Some(
            s,
        ) ==> spec_nonce_ok(encode_utf8(s@)))) ==> r is Ok,
        r matches Ok((resp, ev)) ==> {
            &&& spec_device_id_ok(encode_utf8(request.device_id@))
            &&& exists|sig: Seq<u8>|
                {
                    &&& request.signature@ == b64_of(sig)
                    &&& sig.len() >= 16
                    &&& ev.payload@ == verify_event_bytes(
                        encode_utf8(request.device_id@),
                        match request.session {
                            Some(s) => Some(encode_utf8(s@)),
                            None => None,
                        },
                        sig.len(),
                    )
                }
            &&& ev.subject@ == "radio.commissioning.verify"@
            &&& resp.accepted
            &&& resp.reason is None
            &&& (request.session matches Some(s) ==> spec_nonce_ok(encode_utf8(s@)))
        },
        r matches Err(e) ==> e is Validation,
{
    validate_device_id(request.device_id.as_str())?;
    let signature = match b64_decode(request.signature.as_str()) {
        Ok(b) => b,
        Err(()) => {
            return Err(
                ApiError::Validation {
                    message: String::from_str("signature must be valid base64 data"),
                },
            );
        },
    };
    if signature.len() < 16 {
        return Err(
            ApiError::Validation {
                message: String::from_str("signature must be at least 16 bytes"),
            },
        );
    }
    if let Some(session) = &request.session {
        validate_nonce(session.as_str())?;
    }

    let mut payload: Vec<u8> = Vec::new();
    push_bytes(&mut payload, "{\"type\":\"commissioning.verify\",\"deviceId\":\"".as_bytes());
    crate::audit::push_json_escaped(&mut payload, request.device_id.as_str().as_bytes());
    push_bytes(&mut payload, "\",\"session\":".as_bytes());
    push_json_opt_string(&mut payload, &request.session);
    push_bytes(&mut payload, ",\"signatureLength\":".as_bytes());
    let len_digits = crate::strutil::dec_render(signature.len() as u64);
    push_bytes(&mut payload, len_digits.as_slice());
    push_bytes(&mut payload, "}".as_bytes());
    assert(payload@ =~= verify_event_bytes(
        encode_utf8(request.device_id@),
        match request.session {
            Some(s) => Some(encode_utf8(s@)),
            None => None,
        },
        signature@.len(),
    ));

    let event = BusEventOut { subject: String::from_str("radio.commissioning.verify"), payload };
    Ok((VerifyResponse { accepted: true, reason: None }, event))
}

} // verus!
