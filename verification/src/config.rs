//! The server's configuration and its defaults.
//!
//! Reading and writing the TOML file is left to the program, as are the Basestation locations of
//! the dashboard map, which no rule of the server looks at.
use crate::addr::SocketAddress;
use crate::table::Table;
use vstd::prelude::*;

verus! {

/// An IPv4 wildcard listener on `port`.
pub open spec fn any_address(port: u16) -> SocketAddress {
    SocketAddress::V4 { ip: 0, port }
}

/// The whole configuration.
pub struct Config {
    pub listen: SocketAddress,
    pub websocket_path: String,
    pub websocket_subprotocol: String,
    pub route_without_affiliations: bool,
    pub fallback_broadcast_when_no_affiliations: bool,
    pub allow_multiple_calls_per_group: bool,
    pub higher_priority_number_wins: bool,
    pub preempt_cause: u8,
    /// Seconds that a Brew call may run before the server ends it as if a participant had hung up.
    /// 0 disables the limit.
    pub max_call_duration_seconds: u64,
    /// Seconds that a call may go without any media before the server ends it as dead, for Brew
    /// calls and SIP calls alike. 0 disables it.
    pub call_inactivity_timeout_seconds: u64,
    pub auth: AuthConfig,
    pub tls: TlsConfig,
    pub telemetry: TelemetryConfig,
    pub control: ControlConfig,
    pub dashboard: DashboardConfig,
    pub storage: StorageConfig,
    pub sip: SipConfig,
    pub federation: FederationConfig,
    pub aprs: AprsConfig,
}

impl Default for Config {
    fn default() -> (r: Self)
        ensures
            r.listen == any_address(9000),
            r.websocket_path@ == "/brew"@,
            r.websocket_subprotocol@ == "brew"@,
            !r.route_without_affiliations,
            r.fallback_broadcast_when_no_affiliations,
            !r.allow_multiple_calls_per_group,
            r.higher_priority_number_wins,
            r.preempt_cause == 1,
            r.max_call_duration_seconds == 14400,
            r.call_inactivity_timeout_seconds == 60,
            r.auth.is_default(),
            r.tls.is_default(),
            r.telemetry.is_default(),
            r.control.is_default(),
            r.dashboard.is_default(),
            r.storage.is_default(),
            r.sip.is_default(),
            r.federation.is_default(),
            r.aprs.is_default(),
    {
        Config {
            listen: SocketAddress::V4 { ip: 0, port: 9000 },
            websocket_path: "/brew".to_string(),
            websocket_subprotocol: "brew".to_string(),
            route_without_affiliations: false,
            fallback_broadcast_when_no_affiliations: true,
            allow_multiple_calls_per_group: false,
            higher_priority_number_wins: true,
            preempt_cause: 1,
            max_call_duration_seconds: 14400,
            call_inactivity_timeout_seconds: 60,
            auth: AuthConfig::default(),
            tls: TlsConfig::default(),
            telemetry: TelemetryConfig::default(),
            control: ControlConfig::default(),
            dashboard: DashboardConfig::default(),
            storage: StorageConfig::default(),
            sip: SipConfig::default(),
            federation: FederationConfig::default(),
            aprs: AprsConfig::default(),
        }
    }
}

/// Where completed calls and SDS are kept so that history survives restarts.
pub struct StorageConfig {
    pub enabled: bool,
    /// Path of the append-only binary history log.
    pub path: String,
}

impl StorageConfig {
    pub open spec fn is_default(self) -> bool {
        &&& self.enabled
        &&& self.path@ == "brew-history.bin"@
    }
}

impl Default for StorageConfig {
    fn default() -> (r: Self)
        ensures
            r.is_default(),
    {
        StorageConfig { enabled: true, path: "brew-history.bin".to_string() }
    }
}

/// TLS on one listener.
pub struct TlsConfig {
    pub enabled: bool,
    pub cert_path: String,
    pub key_path: String,
}

impl TlsConfig {
    pub open spec fn is_default(self) -> bool {
        &&& !self.enabled
        &&& self.cert_path@ == "cert.pem"@
        &&& self.key_path@ == "key.pem"@
    }
}

impl Default for TlsConfig {
    fn default() -> (r: Self)
        ensures
            r.is_default(),
    {
        TlsConfig {
            enabled: false,
            cert_path: "cert.pem".to_string(),
            key_path: "key.pem".to_string(),
        }
    }
}

/// Digest authentication of Brew clients.
pub struct AuthConfig {
    pub enabled: bool,
    pub realm: String,
    pub users: Table<String, String>,
    pub session_ttl_seconds: u64,
}

impl AuthConfig {
    pub open spec fn is_default(self) -> bool {
        &&& !self.enabled
        &&& self.realm@ == "brew-server"@
        &&& self.users@ == Map::<Seq<char>, Seq<char>>::empty()
        &&& self.session_ttl_seconds == 300
    }
}

impl Default for AuthConfig {
    fn default() -> (r: Self)
        ensures
            r.is_default(),
    {
        AuthConfig {
            enabled: false,
            realm: "brew-server".to_string(),
            users: Table::new(),
            session_ttl_seconds: 300,
        }
    }
}

/// The telemetry listener.
pub struct TelemetryConfig {
    pub enabled: bool,
    pub listen: SocketAddress,
    /// HTTP Basic Auth user names with their passwords. Empty means no authentication.
    pub users: Table<String, String>,
    pub tls: TlsConfig,
}

impl TelemetryConfig {
    pub open spec fn is_default(self) -> bool {
        &&& !self.enabled
        &&& self.listen == any_address(9001)
        &&& self.users@ == Map::<Seq<char>, Seq<char>>::empty()
        &&& self.tls.is_default()
    }
}

impl Default for TelemetryConfig {
    fn default() -> (r: Self)
        ensures
            r.is_default(),
    {
        TelemetryConfig {
            enabled: false,
            listen: SocketAddress::V4 { ip: 0, port: 9001 },
            users: Table::new(),
            tls: TlsConfig::default(),
        }
    }
}

/// The control listener.
pub struct ControlConfig {
    pub enabled: bool,
    pub listen: SocketAddress,
    /// HTTP Basic Auth user names with their passwords. Empty means no authentication.
    pub users: Table<String, String>,
    pub tls: TlsConfig,
}

impl ControlConfig {
    pub open spec fn is_default(self) -> bool {
        &&& !self.enabled
        &&& self.listen == any_address(9002)
        &&& self.users@ == Map::<Seq<char>, Seq<char>>::empty()
        &&& self.tls.is_default()
    }
}

impl Default for ControlConfig {
    fn default() -> (r: Self)
        ensures
            r.is_default(),
    {
        ControlConfig {
            enabled: false,
            listen: SocketAddress::V4 { ip: 0, port: 9002 },
            users: Table::new(),
            tls: TlsConfig::default(),
        }
    }
}

/// The dashboard listener.
pub struct DashboardConfig {
    pub enabled: bool,
    pub listen: SocketAddress,
    /// HTTP Basic Auth user names with their passwords. Empty means no authentication.
    pub users: Table<String, String>,
    /// The users who may see and change the settings. Empty means all of them.
    pub admins: Vec<String>,
    pub realm: String,
    pub tls: TlsConfig,
}

impl DashboardConfig {
    pub open spec fn is_default(self) -> bool {
        &&& self.enabled
        &&& self.listen == any_address(9003)
        &&& self.users@ == Map::<Seq<char>, Seq<char>>::empty()
        &&& self.admins@.len() == 0
        &&& self.realm@ == "brew-server-dashboard"@
        &&& self.tls.is_default()
    }
}

impl Default for DashboardConfig {
    fn default() -> (r: Self)
        ensures
            r.is_default(),
    {
        DashboardConfig {
            enabled: true,
            listen: SocketAddress::V4 { ip: 0, port: 9003 },
            users: Table::new(),
            admins: Vec::new(),
            realm: "brew-server-dashboard".to_string(),
            tls: TlsConfig::default(),
        }
    }
}

/// The SIP subsystem: a UDP listener for extensions and trunks, and the voice routes between SIP
/// and Brew.
pub struct SipConfig {
    pub enabled: bool,
    pub listen: SocketAddress,
    /// The host advertised in Contact and Via where it differs from `listen`; empty means the
    /// socket's own address.
    pub advertised_host: String,
    /// The first and the last port that the relay hands out.
    pub rtp_port_min: u16,
    pub rtp_port_max: u16,
    /// The digest realm presented to registering extensions.
    pub realm: String,
    /// Seconds that a binding is kept when the client names no expiry of its own.
    pub registration_ttl_seconds: u64,
    /// Seconds that a SIP call may run before the server ends it. 0 disables the limit.
    pub max_call_duration_seconds: u64,
    /// The provisioned extensions, by the user part of their address of record.
    pub extensions: Table<String, SipExtensionConfig>,
    /// The provisioned trunks, by name.
    pub trunks: Table<String, SipTrunkConfig>,
    /// The voice routes; the first that matches wins.
    pub routes: Vec<VoiceRouteConfig>,
}

impl SipConfig {
    pub open spec fn is_default(self) -> bool {
        &&& !self.enabled
        &&& self.listen == any_address(5060)
        &&& self.advertised_host@ == Seq::<char>::empty()
        &&& self.rtp_port_min == 16000
        &&& self.rtp_port_max == 17000
        &&& self.realm@ == "brew-server"@
        &&& self.registration_ttl_seconds == 3600
        &&& self.max_call_duration_seconds == 14400
        &&& self.extensions@ == Map::<Seq<char>, ExtensionView>::empty()
        &&& self.trunks@ == Map::<Seq<char>, TrunkView>::empty()
        &&& self.routes@.len() == 0
    }
}

impl Default for SipConfig {
    fn default() -> (r: Self)
        ensures
            r.is_default(),
    {
        SipConfig {
            enabled: false,
            listen: SocketAddress::V4 { ip: 0, port: 5060 },
            advertised_host: String::new(),
            rtp_port_min: 16000,
            rtp_port_max: 17000,
            realm: "brew-server".to_string(),
            registration_ttl_seconds: 3600,
            max_call_duration_seconds: 14400,
            extensions: Table::new(),
            trunks: Table::new(),
            routes: Vec::new(),
        }
    }
}

/// A provisioned SIP extension: the password that is asked for on REGISTER and INVITE.
pub struct SipExtensionConfig {
    /// The digest secret; an empty one switches authentication off for the extension.
    pub password: String,
    pub display_name: String,
    /// The ISSI that the extension stands for on the Brew side; 0 for none.
    pub issi: u32,
    /// Whether the extension may place calls out to trunks.
    pub allow_outbound: bool,
}

/// The contents of a `SipExtensionConfig`.
#[verifier::ext_equal]
pub struct ExtensionView {
    pub password: Seq<char>,
    pub display_name: Seq<char>,
    pub issi: u32,
    pub allow_outbound: bool,
}

impl View for SipExtensionConfig {
    type V = ExtensionView;

    open spec fn view(&self) -> ExtensionView {
        ExtensionView {
            password: self.password@,
            display_name: self.display_name@,
            issi: self.issi,
            allow_outbound: self.allow_outbound,
        }
    }
}

impl Default for SipExtensionConfig {
    fn default() -> (r: Self)
        ensures
            r@ == (ExtensionView {
                password: Seq::empty(),
                display_name: Seq::empty(),
                issi: 0,
                allow_outbound: true,
            }),
    {
        SipExtensionConfig {
            password: String::new(),
            display_name: String::new(),
            issi: 0,
            allow_outbound: true,
        }
    }
}

/// How a trunk associates with its peer.
#[derive(Clone, Copy, Debug, PartialEq, Eq, Structural)]
pub enum TrunkDirection {
    /// The peer registers with this server.
    Inbound,
    /// This server registers with the peer.
    Outbound,
    /// A static peer, known by its address alone.
    Peer,
}

impl Default for TrunkDirection {
    fn default() -> (r: Self)
        ensures
            r == TrunkDirection::Peer,
    {
        TrunkDirection::Peer
    }
}

/// A provisioned SIP trunk to a gateway.
pub struct SipTrunkConfig {
    pub direction: TrunkDirection,
    /// `host:port` of the peer; optional for inbound trunks.
    pub remote_host: String,
    /// The authentication user name; the trunk's name when empty.
    pub username: String,
    pub password: String,
    pub realm: String,
    /// Seconds between registrations of an outbound trunk.
    pub register_interval_seconds: u64,
    pub enabled: bool,
}

/// The contents of a `SipTrunkConfig`.
#[verifier::ext_equal]
pub struct TrunkView {
    pub direction: TrunkDirection,
    pub remote_host: Seq<char>,
    pub username: Seq<char>,
    pub password: Seq<char>,
    pub realm: Seq<char>,
    pub register_interval_seconds: u64,
    pub enabled: bool,
}

impl View for SipTrunkConfig {
    type V = TrunkView;

    open spec fn view(&self) -> TrunkView {
        TrunkView {
            direction: self.direction,
            remote_host: self.remote_host@,
            username: self.username@,
            password: self.password@,
            realm: self.realm@,
            register_interval_seconds: self.register_interval_seconds,
            enabled: self.enabled,
        }
    }
}

impl Default for SipTrunkConfig {
    fn default() -> (r: Self)
        ensures
            r@ == (TrunkView {
                direction: TrunkDirection::Peer,
                remote_host: Seq::empty(),
                username: Seq::empty(),
                password: Seq::empty(),
                realm: Seq::empty(),
                register_interval_seconds: 300,
                enabled: true,
            }),
    {
        SipTrunkConfig {
            direction: TrunkDirection::default(),
            remote_host: String::new(),
            username: String::new(),
            password: String::new(),
            realm: String::new(),
            register_interval_seconds: 300,
            enabled: true,
        }
    }
}

/// One side of a voice route.
pub enum RouteEndpoint {
    /// A SIP extension, by the user part of its address of record.
    SipExtension { user: String },
    /// A SIP trunk, by name, with the number that is sent to it or matched from it.
    SipTrunk { trunk: String, number: String },
    /// A Brew subscriber.
    BrewPrivate { issi: u32 },
    /// A Brew group.
    BrewGroup { gssi: u32 },
}

/// The contents of a `RouteEndpoint`.
#[verifier::ext_equal]
pub enum EndpointView {
    SipExtension { user: Seq<char> },
    SipTrunk { trunk: Seq<char>, number: Seq<char> },
    BrewPrivate { issi: u32 },
    BrewGroup { gssi: u32 },
}

impl View for RouteEndpoint {
    type V = EndpointView;

    open spec fn view(&self) -> EndpointView {
        match self {
            RouteEndpoint::SipExtension { user } => EndpointView::SipExtension { user: user@ },
            RouteEndpoint::SipTrunk { trunk, number } => EndpointView::SipTrunk {
                trunk: trunk@,
                number: number@,
            },
            RouteEndpoint::BrewPrivate { issi } => EndpointView::BrewPrivate { issi: *issi },
            RouteEndpoint::BrewGroup { gssi } => EndpointView::BrewGroup { gssi: *gssi },
        }
    }
}

/// The contents of an optional endpoint.
pub open spec fn opt_endpoint(e: Option<RouteEndpoint>) -> Option<EndpointView> {
    match e {
        Some(e) => Some(e@),
        None => None,
    }
}

/// A voice route: a call from `from` whose dialled string matches `match_pattern` goes to `to`.
pub struct VoiceRouteConfig {
    pub name: String,
    /// `*` matches anything, a trailing `*` matches a prefix, anything else matches exactly.
    pub match_pattern: String,
    pub to: Option<RouteEndpoint>,
    /// Where set, only calls from this endpoint match.
    pub from: Option<RouteEndpoint>,
    /// A prefix taken off the dialled string before it goes to `to`.
    pub strip_prefix: String,
    pub enabled: bool,
}

/// The contents of a `VoiceRouteConfig`.
#[verifier::ext_equal]
pub struct RouteView {
    pub name: Seq<char>,
    pub match_pattern: Seq<char>,
    pub to: Option<EndpointView>,
    pub from: Option<EndpointView>,
    pub strip_prefix: Seq<char>,
    pub enabled: bool,
}

impl View for VoiceRouteConfig {
    type V = RouteView;

    open spec fn view(&self) -> RouteView {
        RouteView {
            name: self.name@,
            match_pattern: self.match_pattern@,
            to: opt_endpoint(self.to),
            from: opt_endpoint(self.from),
            strip_prefix: self.strip_prefix@,
            enabled: self.enabled,
        }
    }
}

impl Default for VoiceRouteConfig {
    fn default() -> (r: Self)
        ensures
            r@ == (RouteView {
                name: Seq::empty(),
                match_pattern: "*"@,
                to: None,
                from: None,
                strip_prefix: Seq::empty(),
                enabled: true,
            }),
    {
        VoiceRouteConfig {
            name: String::new(),
            match_pattern: "*".to_string(),
            to: None,
            from: None,
            strip_prefix: String::new(),
            enabled: true,
        }
    }
}

/// Links to other servers. Registrations propagate from peer to peer, never back over the link
/// that they came in on, so the links must form a tree.
pub struct FederationConfig {
    pub enabled: bool,
    /// The peers that this server dials.
    pub peers: Vec<FederationPeerConfig>,
}

impl FederationConfig {
    pub open spec fn is_default(self) -> bool {
        &&& !self.enabled
        &&& self.peers@.len() == 0
    }
}

impl Default for FederationConfig {
    fn default() -> (r: Self)
        ensures
            r.is_default(),
    {
        FederationConfig { enabled: false, peers: Vec::new() }
    }
}

/// One outbound link to another server.
pub struct FederationPeerConfig {
    pub name: String,
    /// `host:port` of the peer's Brew listener.
    pub remote_host: String,
    /// The discovery path on the peer.
    pub path: String,
    pub username: String,
    pub password: String,
    /// Seconds between attempts to reconnect.
    pub reconnect_interval_seconds: u64,
    pub enabled: bool,
}

impl FederationPeerConfig {
    pub open spec fn is_default(self) -> bool {
        &&& self.name@ == Seq::<char>::empty()
        &&& self.remote_host@ == Seq::<char>::empty()
        &&& self.path@ == "/brew"@
        &&& self.username@ == Seq::<char>::empty()
        &&& self.password@ == Seq::<char>::empty()
        &&& self.reconnect_interval_seconds == 15
        &&& self.enabled
    }
}

impl Default for FederationPeerConfig {
    fn default() -> (r: Self)
        ensures
            r.is_default(),
    {
        FederationPeerConfig {
            name: String::new(),
            remote_host: String::new(),
            path: "/brew".to_string(),
            username: String::new(),
            password: String::new(),
            reconnect_interval_seconds: 15,
            enabled: true,
        }
    }
}

/// Forwarding of decoded positions to APRS-IS, as one object per ISSI under one login.
pub struct AprsConfig {
    pub enabled: bool,
    /// `host:port` of the APRS-IS server.
    pub server: String,
    pub callsign: String,
    pub passcode: String,
    pub symbol_table: char,
    pub symbol_code: char,
    pub comment: String,
    /// What an object's name starts with; the ISSI follows.
    pub object_name_prefix: String,
    /// Seconds between two reports of one ISSI. 0 disables the limit.
    pub min_report_interval_seconds: u64,
    /// Seconds between attempts to reconnect.
    pub reconnect_interval_seconds: u64,
}

impl AprsConfig {
    pub open spec fn is_default(self) -> bool {
        &&& !self.enabled
        &&& self.server@ == "rotate.aprs2.net:14580"@
        &&& self.callsign@ == Seq::<char>::empty()
        &&& self.passcode@ == Seq::<char>::empty()
        &&& self.symbol_table == '/'
        &&& self.symbol_code == 'j'
        &&& self.comment@ == "TETRA MS via brew-server"@
        &&& self.object_name_prefix@ == "MS"@
        &&& self.min_report_interval_seconds == 60
        &&& self.reconnect_interval_seconds == 15
    }
}

impl Default for AprsConfig {
    fn default() -> (r: Self)
        ensures
            r.is_default(),
    {
        AprsConfig {
            enabled: false,
            server: "rotate.aprs2.net:14580".to_string(),
            callsign: String::new(),
            passcode: String::new(),
            symbol_table: '/',
            symbol_code: 'j',
            comment: "TETRA MS via brew-server".to_string(),
            object_name_prefix: "MS".to_string(),
            min_report_interval_seconds: 60,
            reconnect_interval_seconds: 15,
        }
    }
}

} // verus!
