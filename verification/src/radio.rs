//! Radio coordination: validated Thread and Wi-Fi configuration intake, the
//! bus events an accepted request emits, and the last-writer-wins radio map.

use vstd::prelude::*;
use vstd::string::StringSliceAdditionalSpecFns;
use vstd::utf8::encode_utf8;

use crate::strutil::{all_hex, bytes_all_hex, lower_bytes, lower_bytes_of};

verus! {

/// Why a radio request was rejected.
#[derive(Debug, Clone, PartialEq, Eq)]
pub enum RadioError {
    /// The request failed validation.
    Validation(String),
    /// The bus publish failed (reported by the I/O layer).
    Bus(String),
}

/// A Thread operational dataset submission.
#[derive(Debug, Clone, PartialEq, Eq)]
pub struct ThreadDatasetRequest {
    pub dataset_id: String,
    pub network_name: String,
    pub channel: u8,
    pub pan_id: String,
    pub xpan_id: Option<String>,
    pub master_key: Option<String>,
    pub pskc: Option<String>,
}

/// A Thread channel change.
#[derive(Debug, Clone, PartialEq, Eq)]
pub struct ThreadChannelRequest {
    pub channel: u8,
    pub dataset_id: Option<String>,
}

/// Wi-Fi security modes.
#[derive(Debug, Clone, Copy, PartialEq, Eq, Structural)]
pub enum WifiSecurity {
    Open,
    Wpa2,
    Wpa3,
}

impl Default for WifiSecurity {
    /// WPA2 unless stated otherwise.
    fn default() -> (r: WifiSecurity)
        ensures
            r == WifiSecurity::Wpa2,
    {
        WifiSecurity::Wpa2
    }
}

impl WifiSecurity {
    /// The wire name of the mode.
    pub open spec fn spec_str(self) -> Seq<char> {
        match self {
            WifiSecurity::Open => "open"@,
            WifiSecurity::Wpa2 => "wpa2"@,
            WifiSecurity::Wpa3 => "wpa3"@,
        }
    }

    /// The wire name of the mode.
    pub fn as_str(&self) -> (r: &'static str)
        ensures
            r@ == self.spec_str(),
    {
        match self {
            WifiSecurity::Open => "open",
            WifiSecurity::Wpa2 => "wpa2",
            WifiSecurity::Wpa3 => "wpa3",
        }
    }
}

/// A Wi-Fi configuration submission.
#[derive(Debug, Clone, PartialEq, Eq)]
pub struct WifiConfigRequest {
    pub ssid: String,
    pub passphrase: Option<String>,
    pub security: WifiSecurity,
    pub band: Option<String>,
    pub channel: Option<u8>,
}

/// A Wi-Fi channel change.
#[derive(Debug, Clone, PartialEq, Eq)]
pub struct WifiChannelRequest {
    pub channel: u8,
    pub band: Option<String>,
}

/// A string of exactly `n` hex digits.
pub open spec fn spec_hex_ok(s: Seq<u8>, n: nat) -> bool {
    s.len() == n && all_hex(s)
}

/// Require a fixed-length hex field.
pub fn ensure_hex(value: &str, expected_len: usize, field: &str) -> (r: Result<(), RadioError>)
    ensures
        r is Ok <==> spec_hex_ok(value.spec_bytes(), expected_len as nat),
        r matches Err(e) ==> e is Validation,
{
    let bytes = value.as_bytes();
    if bytes.len() != expected_len {
        return Err(
            RadioError::Validation(
                String::from_str(field).concat(" has the wrong hexadecimal length"),
            ),
        );
    }
    if !bytes_all_hex(bytes) {
        return Err(
            RadioError::Validation(
                String::from_str(field).concat(" must contain only hexadecimal characters"),
            ),
        );
    }
    Ok(())
}

/// A printable-ASCII byte, space included.
pub open spec fn is_printable_byte(b: u8) -> bool {
    32 <= b <= 126
}

/// A name of `min..=max` printable ASCII bytes.
pub open spec fn spec_name_ok(s: Seq<u8>, min: nat, max: nat) -> bool {
    min <= s.len() <= max && forall|i: int| 0 <= i < s.len() ==> is_printable_byte(#[trigger] s[i])
}

/// Require a printable name of bounded length.
pub fn ensure_name(value: &str, min: usize, max: usize, field: &str) -> (r: Result<(), RadioError>)
    ensures
        r is Ok <==> spec_name_ok(value.spec_bytes(), min as nat, max as nat),
        r matches Err(e) ==> e is Validation,
{
    let bytes = value.as_bytes();
    if bytes.len() < min || bytes.len() > max {
        return Err(
            RadioError::Validation(String::from_str(field).concat(" has the wrong length")),
        );
    }
    let mut i: usize = 0;
    while i < bytes.len()
        invariant
            i <= bytes@.len(),
            bytes@ == value.spec_bytes(),
            min <= bytes@.len() <= max,
            forall|j: int| 0 <= j < i ==> is_printable_byte(#[trigger] bytes@[j]),
        decreases bytes@.len() - i,
    {
        let b = bytes[i];
        if !(32 <= b && b <= 126) {
            return Err(
                RadioError::Validation(
                    String::from_str(field).concat(" must contain printable ASCII characters"),
                ),
            );
        }
        i = i + 1;
    }
    Ok(())
}

/// A Thread channel: 11 to 26.
pub open spec fn spec_thread_channel_ok(c: u8) -> bool {
    11 <= c <= 26
}

/// Require a Thread channel in range.
pub fn ensure_thread_channel(channel: u8) -> (r: Result<(), RadioError>)
    ensures
        r is Ok <==> spec_thread_channel_ok(channel),
        r matches Err(e) ==> e is Validation,
{
    if 11 <= channel && channel <= 26 {
        Ok(())
    } else {
        Err(RadioError::Validation(String::from_str("thread channel is outside the 11-26 range")))
    }
}

/// A Wi-Fi channel: 1 to 165.
pub open spec fn spec_wifi_channel_ok(c: u8) -> bool {
    1 <= c <= 165
}

/// Require a Wi-Fi channel in range.
pub fn ensure_wifi_channel(channel: u8) -> (r: Result<(), RadioError>)
    ensures
        r is Ok <==> spec_wifi_channel_ok(channel),
        r matches Err(e) ==> e is Validation,
{
    if 1 <= channel && channel <= 165 {
        Ok(())
    } else {
        Err(RadioError::Validation(String::from_str("wifi channel is outside the 1-165 range")))
    }
}

/// A known band name, compared ASCII-case-insensitively.
pub open spec fn spec_band_ok(s: Seq<u8>) -> bool {
    ||| lower_bytes_of(s) == encode_utf8("2.4ghz"@)
    ||| lower_bytes_of(s) == encode_utf8("5ghz"@)
    ||| lower_bytes_of(s) == encode_utf8("6ghz"@)
    ||| lower_bytes_of(s) == encode_utf8("dual"@)
}

/// Require a known band.
pub fn ensure_band(band: &str) -> (r: Result<(), RadioError>)
    ensures
        r is Ok <==> spec_band_ok(band.spec_bytes()),
        r matches Err(e) ==> e is Validation,
{
    let lowered = lower_bytes(band.as_bytes());
    if crate::strutil::bytes_eq(lowered.as_slice(), "2.4ghz".as_bytes())
        || crate::strutil::bytes_eq(lowered.as_slice(), "5ghz".as_bytes())
        || crate::strutil::bytes_eq(lowered.as_slice(), "6ghz".as_bytes())
        || crate::strutil::bytes_eq(lowered.as_slice(), "dual".as_bytes()) {
        Ok(())
    } else {
        Err(RadioError::Validation(String::from_str("unsupported band")))
    }
}

/// A valid Thread dataset: 32-hex dataset id, printable 1..=16 network name,
/// channel 11..=26, 4-hex PAN id, and optional 16-hex XPAN id, 32-hex master
/// key and 32-hex PSKc.
pub open spec fn spec_thread_dataset_ok(r: ThreadDatasetRequest) -> bool {
    &&& spec_hex_ok(encode_utf8(r.dataset_id@), 32)
    &&& spec_name_ok(encode_utf8(r.network_name@), 1, 16)
    &&& spec_thread_channel_ok(r.channel)
    &&& spec_hex_ok(encode_utf8(r.pan_id@), 4)
    &&& (r.xpan_id matches Some(x) ==> spec_hex_ok(encode_utf8(x@), 16))
    &&& (r.master_key matches Some(k) ==> spec_hex_ok(encode_utf8(k@), 32))
    &&& (r.pskc matches Some(p) ==> spec_hex_ok(encode_utf8(p@), 32))
}

/// Validate a Thread dataset submission.
pub fn validate_thread_dataset(request: &ThreadDatasetRequest) -> (r: Result<(), RadioError>)
    ensures
        r is Ok <==> spec_thread_dataset_ok(*request),
        r matches Err(e) ==> e is Validation,
{
    ensure_hex(request.dataset_id.as_str(), 32, "datasetId")?;
    ensure_name(request.network_name.as_str(), 1, 16, "networkName")?;
    ensure_thread_channel(request.channel)?;
    ensure_hex(request.pan_id.as_str(), 4, "panId")?;
    if let Some(xpan_id) = &request.xpan_id {
        ensure_hex(xpan_id.as_str(), 16, "xpanId")?;
    }
    if let Some(master_key) = &request.master_key {
        ensure_hex(master_key.as_str(), 32, "masterKey")?;
    }
    if let Some(pskc) = &request.pskc {
        ensure_hex(pskc.as_str(), 32, "pskc")?;
    }
    Ok(())
}

/// A valid Thread channel change: channel in range, optional 32-hex dataset
/// id.
pub open spec fn spec_thread_channel_req_ok(r: ThreadChannelRequest) -> bool {
    &&& spec_thread_channel_ok(r.channel)
    &&& (r.dataset_id matches Some(d) ==> spec_hex_ok(encode_utf8(d@), 32))
}

/// Validate a Thread channel change.
pub fn validate_thread_channel(request: &ThreadChannelRequest) -> (r: Result<(), RadioError>)
    ensures
        r is Ok <==> spec_thread_channel_req_ok(*request),
        r matches Err(e) ==> e is Validation,
{
    ensure_thread_channel(request.channel)?;
    if let Some(dataset_id) = &request.dataset_id {
        ensure_hex(dataset_id.as_str(), 32, "datasetId")?;
    }
    Ok(())
}

/// A valid Wi-Fi configuration: printable SSID of 1..=32 bytes; for WPA2 or
/// WPA3 a passphrase of 8..=63 bytes; a known band and a channel in range
/// when given.
pub open spec fn spec_wifi_config_ok(r: WifiConfigRequest) -> bool {
    &&& spec_name_ok(encode_utf8(r.ssid@), 1, 32)
    &&& ((r.security is Wpa2 || r.security is Wpa3) ==> (r.passphrase matches Some(p) && 8
        <= encode_utf8(p@).len() <= 63))
    &&& (r.band matches Some(b) ==> spec_band_ok(encode_utf8(b@)))
    &&& (r.channel matches Some(c) ==> spec_wifi_channel_ok(c))
}

/// Validate a Wi-Fi configuration submission.
pub fn validate_wifi_config(request: &WifiConfigRequest) -> (r: Result<(), RadioError>)
    ensures
        r is Ok <==> spec_wifi_config_ok(*request),
        r matches Err(e) ==> e is Validation,
{
    ensure_name(request.ssid.as_str(), 1, 32, "ssid")?;
    if matches!(request.security, WifiSecurity::Wpa2 | WifiSecurity::Wpa3) {
        let passphrase = match &request.passphrase {
            Some(p) => p,
            None => {
                return Err(
                    RadioError::Validation(
                        String::from_str("passphrase is required for secured networks"),
                    ),
                );
            },
        };
        let len = passphrase.as_str().as_bytes().len();
        if len < 8 || len > 63 {
            return Err(
                RadioError::Validation(
                    String::from_str("passphrase must be between 8 and 63 characters"),
                ),
            );
        }
    }
    if let Some(band) = &request.band {
        ensure_band(band.as_str())?;
    }
    if let Some(channel) = request.channel {
        ensure_wifi_channel(channel)?;
    }
    Ok(())
}

/// A valid Wi-Fi channel change: channel in range, known band when given.
pub open spec fn spec_wifi_channel_req_ok(r: WifiChannelRequest) -> bool {
    &&& spec_wifi_channel_ok(r.channel)
    &&& (r.band matches Some(b) ==> spec_band_ok(encode_utf8(b@)))
}

/// Validate a Wi-Fi channel change.
pub fn validate_wifi_channel(request: &WifiChannelRequest) -> (r: Result<(), RadioError>)
    ensures
        r is Ok <==> spec_wifi_channel_req_ok(*request),
        r matches Err(e) ==> e is Validation,
{
    ensure_wifi_channel(request.channel)?;
    if let Some(band) = &request.band {
        ensure_band(band.as_str())?;
    }
    Ok(())
}

/// Snapshot of the last accepted Thread dataset.
#[derive(Debug, Clone, PartialEq, Eq)]
pub struct ThreadDatasetSnapshot {
    pub dataset_id: String,
    pub network_name: String,
    pub channel: u8,
    pub pan_id: String,
    pub xpan_id: Option<String>,
    pub updated_at: String,
}

/// Snapshot of the last accepted Thread channel.
#[derive(Debug, Clone, PartialEq, Eq)]
pub struct ThreadChannelSnapshot {
    pub channel: u8,
    pub dataset_id: Option<String>,
    pub updated_at: String,
}

/// Snapshot of the last accepted Wi-Fi configuration.
#[derive(Debug, Clone, PartialEq, Eq)]
pub struct WifiConfigSnapshot {
    pub ssid: String,
    pub security: String,
    pub band: Option<String>,
    pub channel: Option<u8>,
    pub updated_at: String,
}

/// Snapshot of the last accepted Wi-Fi channel.
#[derive(Debug, Clone, PartialEq, Eq)]
pub struct WifiChannelSnapshot {
    pub channel: u8,
    pub band: Option<String>,
    pub updated_at: String,
}

/// The in-memory radio map: the most recent accepted configuration per
/// radio, last writer wins. Timestamps are RFC 3339 text supplied by the
/// caller's clock.
#[derive(Debug, Clone, PartialEq, Eq)]
pub struct RadioMapSnapshot {
    pub thread_dataset: Option<ThreadDatasetSnapshot>,
    pub thread_channel: Option<ThreadChannelSnapshot>,
    pub wifi_config: Option<WifiConfigSnapshot>,
    pub wifi_channel: Option<WifiChannelSnapshot>,
}

impl Default for RadioMapSnapshot {
    /// An empty map.
    fn default() -> (r: RadioMapSnapshot)
        ensures
            r.thread_dataset is None,
            r.thread_channel is None,
            r.wifi_config is None,
            r.wifi_channel is None,
    {
        RadioMapSnapshot {
            thread_dataset: None,
            thread_channel: None,
            wifi_config: None,
            wifi_channel: None,
        }
    }
}

impl RadioMapSnapshot {
    /// Record an accepted Thread dataset: both the dataset and the channel
    /// slot take the request's values at `now`.
    pub fn update_thread_dataset(&mut self, request: &ThreadDatasetRequest, now: &str)
        ensures
            final(self).thread_dataset matches Some(d) && d.dataset_id@ == request.dataset_id@
                && d.network_name@ == request.network_name@ && d.channel == request.channel
                && d.pan_id@ == request.pan_id@ && d.updated_at@ == now@,
            final(self).thread_channel matches Some(c) && c.channel == request.channel
                && c.updated_at@ == now@ && (c.dataset_id matches Some(di) && di@
                == request.dataset_id@),
            final(self).wifi_config == old(self).wifi_config,
            final(self).wifi_channel == old(self).wifi_channel,
    {
        self.thread_dataset = Some(
            ThreadDatasetSnapshot {
                dataset_id: request.dataset_id.clone(),
                network_name: request.network_name.clone(),
                channel: request.channel,
                pan_id: request.pan_id.clone(),
                xpan_id: match &request.xpan_id {
                    Some(x) => Some(x.clone()),
                    None => None,
                },
                updated_at: now.to_owned(),
            },
        );
        self.thread_channel = Some(
            ThreadChannelSnapshot {
                channel: request.channel,
                dataset_id: Some(request.dataset_id.clone()),
                updated_at: now.to_owned(),
            },
        );
    }

    /// Record an accepted Thread channel change; a stored dataset follows the
    /// new channel.
    pub fn update_thread_channel(&mut self, request: &ThreadChannelRequest, now: &str)
        ensures
            final(self).thread_channel matches Some(c) && c.channel == request.channel
                && c.updated_at@ == now@,
            old(self).thread_dataset matches Some(d) ==> (final(self).thread_dataset matches Some(
                d2,
            ) && d2.channel == request.channel && d2.updated_at@ == now@ && d2.dataset_id@
                == d.dataset_id@),
            old(self).thread_dataset is None ==> final(self).thread_dataset is None,
            final(self).wifi_config == old(self).wifi_config,
            final(self).wifi_channel == old(self).wifi_channel,
    {
        self.thread_channel = Some(
            ThreadChannelSnapshot {
                channel: request.channel,
                dataset_id: match &request.dataset_id {
                    Some(d) => Some(d.clone()),
                    None => None,
                },
                updated_at: now.to_owned(),
            },
        );
        let dataset = match &self.thread_dataset {
            Some(d) => Some(
                ThreadDatasetSnapshot {
                    dataset_id: d.dataset_id.clone(),
                    network_name: d.network_name.clone(),
                    channel: request.channel,
                    pan_id: d.pan_id.clone(),
                    xpan_id: match &d.xpan_id {
                        Some(x) => Some(x.clone()),
                        None => None,
                    },
                    updated_at: now.to_owned(),
                },
            ),
            None => None,
        };
        self.thread_dataset = dataset;
    }

    /// Record an accepted Wi-Fi configuration; a supplied channel also
    /// updates the channel slot.
    pub fn update_wifi_config(&mut self, request: &WifiConfigRequest, now: &str)
        ensures
            final(self).wifi_config matches Some(c) && c.ssid@ == request.ssid@ && c.security@
                == request.security.spec_str() && c.updated_at@ == now@ && c.channel
                == request.channel,
            request.channel matches Some(ch) ==> (final(self).wifi_channel matches Some(w)
                && w.channel == ch && w.updated_at@ == now@),
            request.channel is None ==> final(self).wifi_channel == old(self).wifi_channel,
            final(self).thread_dataset == old(self).thread_dataset,
            final(self).thread_channel == old(self).thread_channel,
    {
        self.wifi_config = Some(
            WifiConfigSnapshot {
                ssid: request.ssid.clone(),
                security: request.security.as_str().to_owned(),
                band: match &request.band {
                    Some(b) => Some(b.clone()),
                    None => None,
                },
                channel: request.channel,
                updated_at: now.to_owned(),
            },
        );
        if let Some(channel) = request.channel {
            self.wifi_channel = Some(
                WifiChannelSnapshot {
                    channel,
                    band: match &request.band {
                        Some(b) => Some(b.clone()),
                        None => None,
                    },
                    updated_at: now.to_owned(),
                },
            );
        }
    }

    /// Record an accepted Wi-Fi channel change.
    pub fn update_wifi_channel(&mut self, request: &WifiChannelRequest, now: &str)
        ensures
            final(self).wifi_channel matches Some(w) && w.channel == request.channel
                && w.updated_at@ == now@,
            final(self).wifi_config == old(self).wifi_config,
            final(self).thread_dataset == old(self).thread_dataset,
            final(self).thread_channel == old(self).thread_channel,
    {
        self.wifi_channel = Some(
            WifiChannelSnapshot {
                channel: request.channel,
                band: match &request.band {
                    Some(b) => Some(b.clone()),
                    None => None,
                },
                updated_at: now.to_owned(),
            },
        );
    }
}

} // verus!
