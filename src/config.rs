//! Configuration of a node: addresses, key file, which optional sub-protocols
//! run, and the connection ceilings.
use vstd::prelude::*;

verus! {

/// An IP address as the integer that std's `Ipv4Addr` / `Ipv6Addr` convert to
/// and from.
#[derive(Clone, Copy, Debug, PartialEq, Eq, Structural)]
pub enum IpAddress {
    V4(u32),
    V6(u128),
}

/// A span of time, in the shape std's `Duration` is stored and serialised.
#[derive(Clone, Copy, Debug, PartialEq, Eq, Structural)]
pub struct Interval {
    pub secs: u64,
    pub nanos: u32,
}

impl Interval {
    pub fn from_secs(secs: u64) -> (r: Self)
        ensures
            r == (Interval { secs, nanos: 0 }),
    {
        Interval { secs, nanos: 0 }
    }
}

/// Which discovery and traversal sub-protocols to enable.
#[derive(Clone, Copy, Debug, PartialEq, Eq, Structural)]
pub struct Discovery {
    pub dht: bool,
    pub mdns: bool,
    pub upnp: bool,
    pub dcutr: bool,
    pub autonat: bool,
    pub identify: bool,
}

impl Default for Discovery {
    /// Every sub-protocol disabled.
    fn default() -> (r: Self)
        ensures
            r == (Discovery {
                dht: false,
                mdns: false,
                upnp: false,
                dcutr: false,
                autonat: false,
                identify: false,
            }),
    {
        Discovery { dht: false, mdns: false, upnp: false, dcutr: false, autonat: false, identify: false }
    }
}

/// Ceilings on the number of connections, by scope.
#[derive(Clone, Copy, Debug, PartialEq, Eq, Structural)]
pub struct ConnectionLimits {
    pub max_established_incoming: u32,
    pub max_established_outgoing: u32,
    pub max_established_per_peer: u32,
    pub max_established_total: u32,
    pub max_pending_incoming: u32,
    pub max_pending_outgoing: u32,
}

impl Default for ConnectionLimits {
    /// 1024 connections in every scope but four established ones per peer.
    fn default() -> (r: Self)
        ensures
            r == (ConnectionLimits {
                max_established_incoming: 1024,
                max_established_outgoing: 1024,
                max_established_per_peer: 4,
                max_established_total: 1024,
                max_pending_incoming: 1024,
                max_pending_outgoing: 1024,
            }),
    {
        ConnectionLimits {
            max_established_total: 1024,
            max_established_per_peer: 4,
            max_established_incoming: 1024,
            max_established_outgoing: 1024,
            max_pending_incoming: 1024,
            max_pending_outgoing: 1024,
        }
    }
}

/// Settings of the NAT-status probing sub-protocol.
#[derive(Clone, Copy, Debug, PartialEq, Eq, Structural)]
pub struct Autonat {
    /// Timeout for requests.
    pub timeout: Interval,
    // Client settings
    pub boot_delay: Interval,
    pub refresh_interval: Interval,
    pub retry_interval: Interval,
    pub throttle_server_period: Interval,
    pub use_connected: bool,
    pub confidence_max: usize,
    // Server settings
    pub max_peer_addresses: usize,
    pub throttle_clients_global_max: usize,
    pub throttle_clients_peer_max: usize,
    pub throttle_clients_period: Interval,
    pub only_global_ips: bool,
}

/// The settings that libp2p's autonat `Config::default` gives.
pub open spec fn autonat_defaults() -> Autonat {
    Autonat {
        timeout: Interval { secs: 30, nanos: 0 },
        boot_delay: Interval { secs: 15, nanos: 0 },
        refresh_interval: Interval { secs: 900, nanos: 0 },
        retry_interval: Interval { secs: 90, nanos: 0 },
        throttle_server_period: Interval { secs: 90, nanos: 0 },
        use_connected: true,
        confidence_max: 3,
        max_peer_addresses: 16,
        throttle_clients_global_max: 30,
        throttle_clients_peer_max: 3,
        throttle_clients_period: Interval { secs: 1, nanos: 0 },
        only_global_ips: true,
    }
}

/// Relies on libp2p's `autonat::v1::Config::default`, whose source sets the
/// values that `autonat_defaults` lists; each `Duration` is taken apart into
/// seconds and nanoseconds.
#[verifier::external_body]
fn libp2p_autonat_config() -> (r: Autonat)
    ensures
        r == autonat_defaults(),
{
    let c = libp2p::autonat::v1::Config::default();
    let d = |x: std::time::Duration| Interval { secs: x.as_secs(), nanos: x.subsec_nanos() };
    Autonat {
        timeout: d(c.timeout), boot_delay: d(c.boot_delay),
        refresh_interval: d(c.refresh_interval), retry_interval: d(c.retry_interval),
        throttle_server_period: d(c.throttle_server_period), use_connected: c.use_connected,
        confidence_max: c.confidence_max, max_peer_addresses: c.max_peer_addresses,
        throttle_clients_global_max: c.throttle_clients_global_max,
        throttle_clients_peer_max: c.throttle_clients_peer_max,
        throttle_clients_period: d(c.throttle_clients_period), only_global_ips: c.only_global_ips,
    }
}

impl Default for Autonat {
    /// The defaults of libp2p's autonat client and server.
    fn default() -> (r: Self)
        ensures
            r == autonat_defaults(),
    {
        libp2p_autonat_config()
    }
}

/// The sub-command that the node was started with.
pub enum Commands {
    /// Write a fresh pre-shared key to `keyfile`.
    GenerateKey { keyfile: Option<String> },
    /// Run the node; each given option overrides the default configuration.
    Start {
        ip_addr: Option<IpAddress>,
        interface_name: Option<String>,
        listen_addr: Option<IpAddress>,
        listen_port: Option<u16>,
        keyfile: Option<String>,
        enable_identify: Option<bool>,
        enable_dht: Option<bool>,
        enable_mdns: Option<bool>,
        enable_upnp: Option<bool>,
        enable_relay: Option<bool>,
        enable_dcutr: Option<bool>,
        enable_autonat: Option<bool>,
    },
}

/// Parsed command-line arguments.
pub struct CliArgs {
    pub command: Commands,
}

/// The full configuration of a node.
pub struct Config {
    pub ip_addr: IpAddress,
    pub listen_addr: IpAddress,
    pub listen_port: u16,
    pub interface_name: String,
    pub keyfile: String,
    pub discovery: Discovery,
    pub connection_limits: ConnectionLimits,
    pub memory_limit: usize,
    pub enable_relay: bool,
    /// Addresses to dial at start-up, each in the binary multiaddr encoding.
    pub bootstrap: Vec<Vec<u8>>,
    pub autonat: Autonat,
}

/// `o`'s value, or `d` where `o` is `None`.
pub open spec fn or_default<T>(o: Option<T>, d: T) -> T {
    match o {
        Some(v) => v,
        None => d,
    }
}

/// The view of an optional string, or `d` where it is `None`.
pub open spec fn or_default_str(o: Option<String>, d: Seq<char>) -> Seq<char> {
    match o {
        Some(v) => v@,
        None => d,
    }
}

pub open spec fn default_interface_name() -> Seq<char> {
    "vpnr0"@
}

pub open spec fn default_keyfile() -> Seq<char> {
    "vpnr_ed25519"@
}

/// 10.0.0.1
pub open spec fn default_ip_addr() -> IpAddress {
    IpAddress::V4(0x0a00_0001)
}

/// 0.0.0.0
pub open spec fn default_listen_addr() -> IpAddress {
    IpAddress::V4(0)
}

pub open spec fn default_memory_limit() -> usize {
    128
}

/// `c` is the default configuration, but perhaps for the key file.
pub open spec fn is_default_but_keyfile(c: Config) -> bool {
    &&& c.ip_addr == default_ip_addr()
    &&& c.listen_addr == default_listen_addr()
    &&& c.listen_port == 0
    &&& c.interface_name@ == default_interface_name()
    &&& c.discovery == Discovery {
        dht: false,
        mdns: false,
        upnp: false,
        dcutr: false,
        autonat: false,
        identify: false,
    }
    &&& c.connection_limits == ConnectionLimits {
        max_established_incoming: 1024,
        max_established_outgoing: 1024,
        max_established_per_peer: 4,
        max_established_total: 1024,
        max_pending_incoming: 1024,
        max_pending_outgoing: 1024,
    }
    &&& c.memory_limit == default_memory_limit()
    &&& !c.enable_relay
    &&& c.bootstrap@.len() == 0
    &&& c.autonat == autonat_defaults()
}

/// The value in `o`, or `d` where there is none.
fn pick<T>(o: Option<T>, d: T) -> (r: T)
    ensures
        r == or_default(o, d),
{
    match o {
        Some(v) => v,
        None => d,
    }
}

impl Default for Config {
    /// Address 10.0.0.1 on interface `vpnr0`, listening on 0.0.0.0 at a port the
    /// system picks, key file `vpnr_ed25519`, no optional sub-protocol, default
    /// connection limits, a memory budget of 128 and no bootstrap peer.
    fn default() -> (r: Self)
        ensures
            is_default_but_keyfile(r),
            r.keyfile@ == default_keyfile(),
    {
        Config {
            ip_addr: IpAddress::V4(0x0a00_0001),
            listen_addr: IpAddress::V4(0),
            listen_port: 0,
            interface_name: String::from_str("vpnr0"),
            keyfile: String::from_str("vpnr_ed25519"),
            discovery: Discovery::default(),
            connection_limits: ConnectionLimits::default(),
            memory_limit: 128,
            enable_relay: false,
            bootstrap: Vec::new(),
            autonat: Autonat::default(),
        }
    }
}

impl Config {
    /// The default configuration with every option that `args` gives put in
    /// its place. `GenerateKey` can change only the key file.
    pub fn from_args(args: CliArgs) -> (r: Config)
        ensures
            match args.command {
                Commands::GenerateKey { keyfile } => {
                    &&& is_default_but_keyfile(r)
                    &&& r.keyfile@ == or_default_str(keyfile, default_keyfile())
                },
                Commands::Start {
                    ip_addr,
                    interface_name,
                    listen_addr,
                    listen_port,
                    keyfile,
                    enable_identify,
                    enable_dht,
                    enable_mdns,
                    enable_upnp,
                    enable_relay,
                    enable_dcutr,
                    enable_autonat,
                } => {
                    &&& r.ip_addr == or_default(ip_addr, default_ip_addr())
                    &&& r.interface_name@ == or_default_str(interface_name, default_interface_name())
                    &&& r.listen_addr == or_default(listen_addr, default_listen_addr())
                    &&& r.listen_port == or_default(listen_port, 0u16)
                    &&& r.keyfile@ == or_default_str(keyfile, default_keyfile())
                    &&& r.discovery == Discovery {
                        dht: or_default(enable_dht, false),
                        mdns: or_default(enable_mdns, false),
                        upnp: or_default(enable_upnp, false),
                        dcutr: or_default(enable_dcutr, false),
                        autonat: or_default(enable_autonat, false),
                        identify: or_default(enable_identify, false),
                    }
                    &&& r.enable_relay == or_default(enable_relay, false)
                    &&& r.connection_limits == ConnectionLimits {
                        max_established_incoming: 1024,
                        max_established_outgoing: 1024,
                        max_established_per_peer: 4,
                        max_established_total: 1024,
                        max_pending_incoming: 1024,
                        max_pending_outgoing: 1024,
                    }
                    &&& r.memory_limit == default_memory_limit()
                    &&& r.bootstrap@.len() == 0
                    &&& r.autonat == autonat_defaults()
                },
            },
    {
        let config = Config::default();
        match args.command {
            Commands::GenerateKey { keyfile } => Config { keyfile: pick(keyfile, config.keyfile), ..config },
            Commands::Start {
                ip_addr,
                interface_name,
                listen_addr,
                listen_port,
                keyfile,
                enable_identify,
                enable_dht,
                enable_mdns,
                enable_upnp,
                enable_relay,
                enable_dcutr,
                enable_autonat,
            } => Config {
                ip_addr: pick(ip_addr, config.ip_addr),
                interface_name: pick(interface_name, config.interface_name),
                listen_addr: pick(listen_addr, config.listen_addr),
                listen_port: pick(listen_port, config.listen_port),
                keyfile: pick(keyfile, config.keyfile),
                discovery: Discovery {
                    dht: pick(enable_dht, config.discovery.dht),
                    mdns: pick(enable_mdns, config.discovery.mdns),
                    upnp: pick(enable_upnp, config.discovery.upnp),
                    dcutr: pick(enable_dcutr, config.discovery.dcutr),
                    autonat: pick(enable_autonat, config.discovery.autonat),
                    identify: pick(enable_identify, config.discovery.identify),
                },
                enable_relay: pick(enable_relay, config.enable_relay),
                ..config
            },
        }
    }
}

} // verus!
