//! Shared platform types: service configuration, bus messages and errors,
//! device and network descriptors, service lifecycle states, and the small
//! helpers the services share. The I/O around them — sockets, files,
//! environment — lives with the runtime layer.

use vstd::prelude::*;

verus! {

/// An authentication token validation error.
#[derive(Debug, Clone, PartialEq, Eq)]
pub enum AuthError {
    /// The token failed basic validation rules.
    Validation(String),
}

/// Verify a raw authentication token. Every token is accepted for now; real
/// validation arrives with a later credential scheme.
pub fn validate_token(token: &str) -> (r: Result<(), AuthError>)
    ensures
        r is Ok,
{
    let _ = token;
    Ok(())
}

/// An mDNS announcement failure.
#[derive(Debug, Clone, PartialEq, Eq)]
pub enum MdnsError {
    /// The announcement could not be created.
    Announcement(String),
}

/// Handle for an announced service.
#[derive(Debug, Clone, PartialEq, Eq)]
pub struct Announcement {
    service: String,
    port: u16,
}

impl Announcement {
    /// Record an announcement of a service label on a TCP port. The label
    /// must not be empty.
    pub fn new(service: String, port: u16) -> (r: Result<Announcement, MdnsError>)
        ensures
            r matches Ok(a) <==> service@.len() > 0,
            r matches Ok(a) ==> a.spec_service() == service@ && a.spec_port() == port,
            r matches Err(e) ==> e is Announcement,
    {
        if service.as_str().as_bytes().len() == 0 {
            proof {
                vstd::utf8::encode_utf8_decode_utf8(service@);
            }
            assert(service@.len() == 0) by {
                assert(vstd::utf8::encode_utf8(service@).len() == 0);
                assert(vstd::utf8::decode_utf8(vstd::utf8::encode_utf8(service@)) =~= Seq::<
                    char,
                >::empty());
            }
            return Err(MdnsError::Announcement(String::from_str("service name must not be empty")));
        }
        Ok(Announcement { service, port })
    }

    /// The advertised service label.
    pub closed spec fn spec_service(self) -> Seq<char> {
        self.service@
    }

    /// The advertised port.
    pub closed spec fn spec_port(self) -> u16 {
        self.port
    }

    /// The advertised service label.
    pub fn service(&self) -> (r: &str)
        ensures
            r@ == self.spec_service(),
    {
        self.service.as_str()
    }

    /// The advertised port.
    pub fn port(&self) -> (r: u16)
        ensures
            r == self.spec_port(),
    {
        self.port
    }
}

/// A message that traveled across the bus.
#[derive(Debug, Clone, PartialEq, Eq)]
pub struct BusMessage {
    /// Subject the message was published on.
    pub subject: String,
    /// Payload bytes.
    pub payload: Vec<u8>,
    /// Reply subject for request/response exchanges.
    pub reply: Option<String>,
}

/// Errors of the message bus layer.
#[derive(Debug, Clone, PartialEq, Eq)]
pub enum MsgBusError {
    Connection(String),
    Publish(String),
    Subscribe(String),
    Request(String),
    /// The request timed out after this many milliseconds.
    RequestTimeout(u64),
    MissingReplySubject,
    UnknownReplySubject(String),
}

/// Bus connection settings.
#[derive(Debug, Clone, PartialEq, Eq)]
pub struct MsgBusConfig {
    /// Connection URL for the bus backend.
    pub url: String,
    /// Timeout for request/response flows, in milliseconds.
    pub request_timeout_ms: u64,
}

impl Default for MsgBusConfig {
    /// The local development bus.
    fn default() -> (r: MsgBusConfig)
        ensures
            r.url@ == "nats://127.0.0.1:4222"@,
            r.request_timeout_ms == 2000,
    {
        MsgBusConfig { url: String::from_str("nats://127.0.0.1:4222"), request_timeout_ms: 2000 }
    }
}

impl MsgBusConfig {
    /// The request timeout in milliseconds.
    pub fn request_timeout(&self) -> (r: u64)
        ensures
            r == self.request_timeout_ms,
    {
        self.request_timeout_ms
    }
}

/// Runtime state of a service.
#[derive(Debug, Clone, Copy, PartialEq, Eq, Structural)]
pub enum ServiceStatus {
    Stopped,
    Starting,
    Running,
    Stopping,
    Failed,
}

/// Errors a service reports at runtime.
#[derive(Debug, Clone, PartialEq, Eq)]
pub enum ServiceError {
    Initialization(String),
    Runtime(String),
    Shutdown(String),
}

/// A device known to the registry.
#[derive(Debug, Clone, PartialEq, Eq)]
pub struct DeviceDescriptor {
    pub id: String,
    pub manufacturer: String,
    pub product: String,
    pub capabilities: Vec<String>,
}

/// Errors of device drivers and the registry.
#[derive(Debug, Clone, PartialEq, Eq)]
pub enum DeviceError {
    AlreadyExists(String),
    NotFound(String),
    Driver(String),
}

/// Errors of the protocol connectors.
#[derive(Debug, Clone, PartialEq, Eq)]
pub enum NetworkError {
    Connection(String),
    Protocol(String),
}

/// Connection settings shared across protocols.
#[derive(Debug, Clone, PartialEq, Eq)]
pub struct ConnectionParams {
    pub endpoint: String,
    pub username: Option<String>,
    pub password: Option<String>,
    pub keep_alive_secs: Option<u64>,
}

/// Comparison operators of the embedded automation rules.
#[derive(Debug, Clone, Copy, PartialEq, Eq, Structural)]
pub enum MatchOperator {
    Equals,
    NotEquals,
    GreaterThan,
    LessThan,
    Contains,
}

/// Errors of the embedded automation engine.
#[derive(Debug, Clone, PartialEq, Eq)]
pub enum RuleError {
    AlreadyExists(String),
    NotFound(String),
    BusClosed,
}

/// Hub-wide configuration.
#[derive(Debug, Clone, PartialEq, Eq)]
pub struct LokanConfig {
    /// Where persistent state lives on disk.
    pub data_dir: String,
    pub network: NetworkConfig,
    pub automation: AutomationConfig,
    pub telemetry: TelemetryConfig,
}

impl Default for LokanConfig {
    /// The stock hub configuration.
    fn default() -> (r: LokanConfig)
        ensures
            r.data_dir@ == "/var/lib/lokan"@,
            r.network.hostname@ == "lokan-hub"@,
            r.automation.max_rules == 1024,
            r.automation.enabled,
            r.telemetry.enable_tracing,
    {
        LokanConfig {
            data_dir: String::from_str("/var/lib/lokan"),
            network: NetworkConfig {
                hostname: String::from_str("lokan-hub"),
                mqtt_broker: None,
                enable_matter: true,
                enable_zigbee: false,
            },
            automation: AutomationConfig { max_rules: 1024, enabled: true },
            telemetry: TelemetryConfig { enable_tracing: true, otlp_endpoint: None },
        }
    }
}

/// Networking knobs shared across protocols.
#[derive(Debug, Clone, PartialEq, Eq)]
pub struct NetworkConfig {
    pub hostname: String,
    pub mqtt_broker: Option<String>,
    pub enable_matter: bool,
    pub enable_zigbee: bool,
}

/// Automation engine limits.
#[derive(Debug, Clone, Copy, PartialEq, Eq, Structural)]
pub struct AutomationConfig {
    pub max_rules: usize,
    pub enabled: bool,
}

/// Telemetry settings.
#[derive(Debug, Clone, PartialEq, Eq)]
pub struct TelemetryConfig {
    pub enable_tracing: bool,
    pub otlp_endpoint: Option<String>,
}

/// Gateway TLS material locations.
#[derive(Debug, Clone, PartialEq, Eq)]
pub struct TlsConfig {
    pub cert_path: String,
    pub key_path: String,
    pub client_ca_path: String,
}

/// Audit delivery settings.
#[derive(Debug, Clone, PartialEq, Eq)]
pub struct AuditConfig {
    pub endpoint: String,
    pub enabled: bool,
}

impl Default for AuditConfig {
    /// Deliver to the local audit service.
    fn default() -> (r: AuditConfig)
        ensures
            r.endpoint@ == "http://127.0.0.1:8008/v1/events"@,
            r.enabled,
    {
        AuditConfig { endpoint: String::from_str("http://127.0.0.1:8008/v1/events"), enabled: true }
    }
}

/// The gateway's configuration.
#[derive(Debug, Clone, PartialEq, Eq)]
pub struct ApiGatewayConfig {
    pub bind_address: String,
    pub port: u16,
    pub announce_mdns: bool,
    pub mdns_service: String,
    pub bus: MsgBusConfig,
    pub tls: TlsConfig,
    pub rbac_policy_path: String,
    pub audit: AuditConfig,
    pub device_registry_url: String,
    pub rate_limit: crate::rate_limit::RateLimitSettings,
}

impl Default for ApiGatewayConfig {
    /// The stock gateway configuration.
    fn default() -> (r: ApiGatewayConfig)
        ensures
            r.port == 8443,
            r.announce_mdns,
            r.rate_limit.requests_per_minute == 120,
            r.rate_limit.burst == 40,
    {
        ApiGatewayConfig {
            bind_address: String::from_str("0.0.0.0"),
            port: 8443,
            announce_mdns: true,
            mdns_service: String::from_str("_lokan._tcp"),
            bus: MsgBusConfig::default(),
            tls: TlsConfig {
                cert_path: String::from_str(
                    "security/pki/dev/out/services/api-gateway/api-gateway.cert.pem",
                ),
                key_path: String::from_str(
                    "security/pki/dev/out/services/api-gateway/api-gateway.key.pem",
                ),
                client_ca_path: String::from_str(
                    "security/pki/dev/out/ca/lokan-dev-root-ca.cert.pem",
                ),
            },
            rbac_policy_path: String::from_str("configs/rbac.yaml"),
            audit: AuditConfig::default(),
            device_registry_url: String::from_str("http://127.0.0.1:8001"),
            rate_limit: crate::rate_limit::RateLimitSettings::default(),
        }
    }
}

/// Where the updater persists its state file.
#[derive(Debug, Clone, PartialEq, Eq)]
pub struct FileStateStore {
    path: String,
}

impl FileStateStore {
    /// A store writing to the given path.
    pub fn new(path: String) -> (r: FileStateStore)
        ensures
            r.spec_path() == path@,
    {
        FileStateStore { path }
    }

    /// The configured path.
    pub closed spec fn spec_path(self) -> Seq<char> {
        self.path@
    }

    /// The configured path.
    pub fn path(&self) -> (r: &str)
        ensures
            r@ == self.spec_path(),
    {
        self.path.as_str()
    }
}

} // verus!
