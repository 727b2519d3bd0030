//! The messages of the diagnosis service, as plain values.
use std::collections::HashMap;

use vstd::prelude::*;

use crate::textmap::TextMap;
use crate::ip::IpAddr;
use crate::text::{copy_texts, dec, dec_string, texts};

verus! {

/// Protocol version this build speaks.
pub const PROTOCOL_VERSION: u32 = 1;

/// What a network runs over. A number without a name here is kept.
#[derive(Clone, Copy, Debug, PartialEq, Eq, Structural)]
pub enum Transport {
    Unspecified,
    Cellular,
    Wifi,
    Bluetooth,
    Ethernet,
    Vpn,
    WifiAware,
    Lowpan,
    Usb,
    Thread,
    Satellite,
    Other(i32),
}

/// An address family.
#[derive(Clone, Copy, Debug, Default, PartialEq, Eq, Structural)]
pub enum IpFamily {
    #[default]
    Unspecified,
    V4,
    V6,
}

/// Which observation or probe a check is about.
#[derive(Clone, Copy, Debug, Default, PartialEq, Eq, Structural)]
pub enum CheckId {
    #[default]
    Unspecified,
    AndroidNetworkState,
    ActiveInterface,
    Ipv4Address,
    Ipv6Address,
    Ipv4DefaultRoute,
    Ipv6DefaultRoute,
    GatewayReachabilityV4,
    GatewayReachabilityV6,
    DnsA,
    DnsAaaa,
    TcpV4,
    TcpV6,
    TlsHandshake,
    PrivateDns,
    Nat64Dns64,
    VpnRouting,
    FirewallAnomaly,
    MtuPmtu,
    SuspiciousTcpStates,
    FrameworkKernelAgreement,
    RoutingRuleCoverage,
    DnsLatency,
    CaptivePortal,
    RouteLookupV4,
    RouteLookupV6,
}

/// The outcome of a check.
#[derive(Clone, Copy, Debug, Default, PartialEq, Eq, Structural)]
pub enum CheckStatus {
    #[default]
    Unspecified,
    Pass,
    Fail,
    Warn,
    Skip,
    Info,
}

/// Which pattern a finding is about.
#[derive(Clone, Copy, Debug, Default, PartialEq, Eq, Structural)]
pub enum FindingId {
    #[default]
    Unspecified,
    BrokenUpstreamIpv6,
    Ipv6ConfiguredNoRoute,
    Ipv6DisabledBySysctl,
    GatewayUnreachable,
    DnsBrokenTransportOk,
    PrivateDnsBlocking,
    CaptivePortal,
    ValidatedButBroken,
    FrameworkKernelDisagreement,
    VpnLeak,
    VpnBlackhole,
    MtuBlackhole,
    Nat64WithoutClat,
    FirewallBlockingUid,
    SocketsStuckSynSent,
    SocketsStuckCloseWait,
    MultipleDefaultRoutes,
    NoConnectivityAtAll,
    MeteredRestriction,
}

/// How much a finding matters, in ascending order.
#[derive(Clone, Copy, Debug, Default, PartialEq, Eq, Structural)]
pub enum FindingSeverity {
    #[default]
    Unspecified,
    Info,
    Low,
    Medium,
    High,
    Critical,
}

/// Why a request failed.
#[derive(Clone, Copy, Debug, Default, PartialEq, Eq, Structural)]
pub enum ErrorCode {
    #[default]
    Unspecified,
    Internal,
    InvalidArgument,
    NotFound,
    PermissionDenied,
    Unsupported,
    Kernel,
    ResourceExhausted,
}

/// What an interface is used for.
#[derive(Clone, Copy, Debug, Default, PartialEq, Eq, Structural)]
pub enum LinkKind {
    #[default]
    Unspecified,
    Loopback,
    Wifi,
    Cellular,
    Ethernet,
    VpnTun,
    Bluetooth,
    Clat,
    Bridge,
    Dummy,
    Other,
}

/// The operational state of an interface (RFC 2863).
#[derive(Clone, Copy, Debug, Default, PartialEq, Eq, Structural)]
pub enum OperState {
    #[default]
    Unspecified,
    Unknown,
    NotPresent,
    Down,
    LowerLayerDown,
    Testing,
    Dormant,
    Up,
}

/// How far an address is valid.
#[derive(Clone, Copy, Debug, Default, PartialEq, Eq, Structural)]
pub enum AddressScope {
    #[default]
    Unspecified,
    Global,
    Site,
    Link,
    Host,
    Nowhere,
}

/// The state of a neighbour entry.
#[derive(Clone, Copy, Debug, Default, PartialEq, Eq, Structural)]
pub enum NeighborState {
    #[default]
    Unspecified,
    NoEntry,
    Incomplete,
    Reachable,
    Stale,
    Delay,
    Probe,
    Failed,
    Noarp,
    Permanent,
}

/// Who installed a route.
#[derive(Clone, Copy, Debug, Default, PartialEq, Eq, Structural)]
pub enum RouteProtocol {
    #[default]
    Unspecified,
    Redirect,
    Kernel,
    Boot,
    Static,
    Ra,
    Dhcp,
    Other,
}

/// How far a route's destination is.
#[derive(Clone, Copy, Debug, Default, PartialEq, Eq, Structural)]
pub enum RouteScope {
    #[default]
    Unspecified,
    Universe,
    Site,
    Link,
    Host,
    Nowhere,
}

/// What a route does with a packet.
#[derive(Clone, Copy, Debug, Default, PartialEq, Eq, Structural)]
pub enum RouteType {
    #[default]
    Unspecified,
    Unicast,
    Local,
    Broadcast,
    Anycast,
    Multicast,
    Blackhole,
    Unreachable,
    Prohibit,
    Throw,
    Nat,
}

/// What a policy routing rule does with a packet.
#[derive(Clone, Copy, Debug, Default, PartialEq, Eq, Structural)]
pub enum RuleAction {
    #[default]
    Unspecified,
    ToTable,
    Goto,
    Nop,
    Blackhole,
    Unreachable,
    Prohibit,
}

/// The transport protocol of a socket.
#[derive(Clone, Copy, Debug, Default, PartialEq, Eq, Structural)]
pub enum SocketProtocol {
    #[default]
    Unspecified,
    Tcp,
    Udp,
}

/// The state of a TCP socket.
#[derive(Clone, Copy, Debug, Default, PartialEq, Eq, Structural)]
pub enum TcpState {
    #[default]
    Unspecified,
    Established,
    SynSent,
    SynRecv,
    FinWait1,
    FinWait2,
    TimeWait,
    Close,
    CloseWait,
    LastAck,
    Listen,
    Closing,
    NewSynRecv,
}

/// How Android's Private DNS is set up.
#[derive(Clone, Copy, Debug, Default, PartialEq, Eq, Structural)]
pub enum PrivateDnsMode {
    #[default]
    Unspecified,
    Off,
    Opportunistic,
    Strict,
}

/// A packet filter that was found.
#[derive(Clone, Copy, Debug, Default, PartialEq, Eq, Structural)]
pub enum FirewallBackend {
    #[default]
    Unspecified,
    Ebpf,
    Iptables,
    Nftables,
}

/// Where an event comes from.
#[derive(Clone, Copy, Debug, Default, PartialEq, Eq, Structural)]
pub enum EventSource {
    #[default]
    Unspecified,
    Kernel,
    Framework,
    Daemon,
}

/// How much an event matters, in ascending order.
#[derive(Clone, Copy, Debug, Default, PartialEq, Eq, Structural)]
pub enum EventSeverity {
    #[default]
    Unspecified,
    Debug,
    Info,
    Notice,
    Warning,
}

/// What ConnectivityManager reported.
#[derive(Clone, Copy, Debug, Default, PartialEq, Eq, Structural)]
pub enum FrameworkEventKind {
    #[default]
    Unspecified,
    Available,
    Lost,
    Losing,
    CapabilitiesChanged,
    LinkPropertiesChanged,
    BlockedStatusChanged,
    ValidationChanged,
    DnsServersChanged,
}

/// What the frames of a capture begin with.
#[derive(Clone, Copy, Debug, Default, PartialEq, Eq, Structural)]
pub enum LinkType {
    #[default]
    Unspecified,
    Ethernet,
    Raw,
    LinuxSll,
}

/// Four or sixteen bytes of an IP address; anything else means that no address is set.
#[derive(Clone, Debug, Default, PartialEq)]
pub struct IpAddress {
    pub addr: Vec<u8>,
}

/// An address and a prefix length; without an address, any address.
#[derive(Clone, Debug, Default, PartialEq)]
pub struct IpPrefix {
    pub address: Option<IpAddress>,
    pub prefix_len: u32,
}

/// A failure as it is told to a client.
#[derive(Clone, Debug, Default, PartialEq)]
pub struct Error {
    pub code: ErrorCode,
    pub message: String,
    pub detail: String,
}

/// The IFF_* flags of an interface.
#[derive(Clone, Copy, Debug, Default, PartialEq, Eq, Structural)]
pub struct LinkFlags {
    pub up: bool,
    pub running: bool,
    pub loopback: bool,
    pub point_to_point: bool,
    pub broadcast: bool,
    pub multicast: bool,
    pub no_arp: bool,
    pub promisc: bool,
    pub lower_up: bool,
    pub dormant: bool,
    pub raw: u32,
}

/// The 64-bit counters of an interface.
#[derive(Clone, Copy, Debug, Default, PartialEq, Eq, Structural)]
pub struct LinkStats {
    pub rx_packets: u64,
    pub tx_packets: u64,
    pub rx_bytes: u64,
    pub tx_bytes: u64,
    pub rx_errors: u64,
    pub tx_errors: u64,
    pub rx_dropped: u64,
    pub tx_dropped: u64,
}

/// The IFA_F_* flags of an address.
#[derive(Clone, Copy, Debug, Default, PartialEq, Eq, Structural)]
pub struct AddressFlags {
    pub permanent: bool,
    pub temporary: bool,
    pub deprecated: bool,
    pub tentative: bool,
    pub dadfailed: bool,
    pub managed_temp: bool,
    pub no_prefix_route: bool,
    pub optimistic: bool,
    pub home: bool,
    pub stable_privacy: bool,
    pub raw: u32,
}

/// An address of an interface.
#[derive(Clone, Debug, Default, PartialEq)]
pub struct LinkAddress {
    pub prefix: Option<IpPrefix>,
    pub scope: AddressScope,
    pub flags: Option<AddressFlags>,
    pub valid_lifetime_sec: u32,
    pub preferred_lifetime_sec: u32,
    pub label: String,
    pub broadcast: Option<IpAddress>,
}

/// Per-interface settings; -1 where the kernel has no such file.
#[derive(Clone, Copy, Debug, Default, PartialEq, Eq, Structural)]
pub struct InterfaceSysctls {
    pub ipv6_disabled: bool,
    pub accept_ra: i32,
    pub accept_ra_defrtr: i32,
    pub accept_ra_rt_info_max_plen: i32,
    pub autoconf: i32,
    pub use_tempaddr: i32,
    pub forwarding_v4: i32,
    pub forwarding_v6: i32,
    pub rp_filter: i32,
    pub arp_ignore: i32,
    pub dad_transmits: i32,
    pub mtu_v6: i32,
    pub hop_limit: i32,
}

/// A network interface.
#[derive(Clone, Debug, Default, PartialEq)]
pub struct Interface {
    pub index: u32,
    pub name: String,
    pub alias: String,
    pub mtu: u32,
    pub mac_address: Vec<u8>,
    pub broadcast_address: Vec<u8>,
    pub tx_queue_len: u32,
    pub qdisc: String,
    pub link_index: u32,
    pub master_index: u32,
    pub group: u32,
    pub netns_id: i32,
    pub oper_state: OperState,
    pub has_xdp: bool,
    pub link_type: String,
    pub kind: LinkKind,
    pub flags: Option<LinkFlags>,
    pub stats: Option<LinkStats>,
    pub addresses: Vec<LinkAddress>,
    pub sysctls: Option<InterfaceSysctls>,
}

/// One way out of a route.
#[derive(Clone, Debug, Default, PartialEq)]
pub struct NextHop {
    pub gateway: Option<IpAddress>,
    pub out_interface_index: u32,
    pub out_interface_name: String,
    pub weight: u32,
    pub flags: u32,
}

/// The RTAX_* metrics of a route.
#[derive(Clone, Copy, Debug, Default, PartialEq, Eq, Structural)]
pub struct RouteMetrics {
    pub mtu: u32,
    pub mtu_locked: bool,
    pub advmss: u32,
    pub window: u32,
    pub hoplimit: u32,
    pub initcwnd: u32,
    pub initrwnd: u32,
    pub rtt_ms: u32,
}

/// A route of a routing table.
#[derive(Clone, Debug, Default, PartialEq)]
pub struct Route {
    pub family: IpFamily,
    pub destination: Option<IpPrefix>,
    pub preferred_source: Option<IpAddress>,
    pub table: u32,
    pub table_name: String,
    pub protocol: RouteProtocol,
    pub protocol_raw: u32,
    pub scope: RouteScope,
    pub kind: RouteType,
    pub priority: u32,
    pub next_hops: Vec<NextHop>,
    pub metrics: Option<RouteMetrics>,
    pub flags: u32,
    pub expires_sec: u32,
    pub is_default: bool,
}

/// A policy routing rule.
#[derive(Clone, Debug, Default, PartialEq)]
pub struct RoutingRule {
    pub family: IpFamily,
    pub priority: u32,
    pub table: u32,
    pub table_name: String,
    pub action: RuleAction,
    pub tos: u32,
    pub invert: bool,
    pub fwmark: u32,
    pub fwmask: u32,
    pub has_fwmark: bool,
    pub input_interface: String,
    pub output_interface: String,
    pub source: Option<IpPrefix>,
    pub destination: Option<IpPrefix>,
    pub uid_range_start: u32,
    pub uid_range_end: u32,
    pub has_uid_range: bool,
    pub suppress_prefix_len: u32,
    pub has_suppress_prefix_len: bool,
    pub suppress_interface_group: u32,
    pub has_suppress_interface_group: bool,
    pub protocol: u32,
}

/// The kernel's answer to where a packet would go.
#[derive(Clone, Debug, Default, PartialEq)]
pub struct RouteLookup {
    pub destination: Option<IpAddress>,
    pub source_hint: Option<IpAddress>,
    pub uid: u32,
    pub fwmark: u32,
    pub out_interface_index: u32,
    pub table: u32,
    pub route: Option<Route>,
    pub error: Option<Error>,
}

/// An entry of the neighbour table.
#[derive(Clone, Debug, Default, PartialEq)]
pub struct Neighbor {
    pub family: IpFamily,
    pub interface_index: u32,
    pub interface_name: String,
    pub address: Option<IpAddress>,
    pub link_address: Vec<u8>,
    pub state: NeighborState,
    pub is_router: bool,
    pub flags: u32,
    pub probes: u32,
    pub confirmed_ms: u32,
    pub used_ms: u32,
    pub updated_ms: u32,
}

/// What `struct tcp_info` says of a connection.
#[derive(Clone, Copy, Debug, Default, PartialEq, Eq, Structural)]
pub struct TcpInfo {
    pub rto_us: u32,
    pub ato_us: u32,
    pub snd_mss: u32,
    pub rcv_mss: u32,
    pub unacked: u32,
    pub sacked: u32,
    pub lost: u32,
    pub retrans: u32,
    pub total_retrans: u32,
    pub rtt_us: u32,
    pub rtt_var_us: u32,
    pub snd_cwnd: u32,
    pub snd_ssthresh: u32,
    pub advmss: u32,
    pub pmtu: u32,
    pub last_data_sent_ms: u32,
    pub last_data_recv_ms: u32,
    pub last_ack_recv_ms: u32,
    pub bytes_sent: u64,
    pub bytes_received: u64,
    pub delivered: u64,
    pub ca_state: u32,
    pub probes: u32,
    pub backoff: u32,
    pub retransmitting: bool,
}

/// A socket of the kernel's socket table.
#[derive(Clone, Debug, Default, PartialEq)]
pub struct Socket {
    pub family: IpFamily,
    pub protocol: SocketProtocol,
    pub state: TcpState,
    pub local_address: Option<IpAddress>,
    pub local_port: u32,
    pub remote_address: Option<IpAddress>,
    pub remote_port: u32,
    pub uid: u32,
    pub inode: u64,
    pub interface_index: u32,
    pub interface_name: String,
    pub rx_queue: u32,
    pub tx_queue: u32,
    pub socket_cookie: u64,
    pub timer: u32,
    pub timer_expires_ms: u32,
    pub retransmits: u32,
    pub mark: u32,
    pub has_mark: bool,
    pub net_id: u32,
    pub congestion_control: String,
    pub tcp_info: Option<TcpInfo>,
    pub package_names: Vec<String>,
}

/// Which sockets to list; an empty list or a zero asks for all.
#[derive(Clone, Debug, Default, PartialEq)]
pub struct SocketFilter {
    pub protocols: Vec<SocketProtocol>,
    pub families: Vec<IpFamily>,
    pub states: Vec<TcpState>,
    pub uids: Vec<u32>,
    pub interface_indexes: Vec<u32>,
    pub local_port: u32,
    pub remote_port: u32,
    pub include_tcp_info: bool,
    pub limit: u32,
}

/// How many sockets are in a state.
#[derive(Clone, Copy, Debug, Default, PartialEq, Eq, Structural)]
pub struct StateCount {
    pub state: TcpState,
    pub count: u32,
}

/// Sockets counted by state and family.
#[derive(Clone, Debug, Default, PartialEq)]
pub struct SocketSummary {
    pub total: u32,
    pub established: u32,
    pub syn_sent: u32,
    pub close_wait: u32,
    pub fin_wait: u32,
    pub time_wait: u32,
    pub listen: u32,
    pub v4_count: u32,
    pub v6_count: u32,
    pub retransmitting: u32,
    pub by_state: Vec<StateCount>,
}

/// Whether 464XLAT is running.
#[derive(Clone, Debug, Default, PartialEq)]
pub struct Clat464State {
    pub active: bool,
    pub clat_interface: String,
    pub base_interface: String,
    pub clat_ipv4_address: Option<IpAddress>,
    pub clat_ipv6_address: Option<IpAddress>,
    pub detected_nat64_prefix: Option<IpPrefix>,
    pub detection_method: String,
}

/// A range of uids, both ends included.
#[derive(Clone, Copy, Debug, Default, PartialEq, Eq, Structural)]
pub struct UidRange {
    pub start: i32,
    pub stop: i32,
}

/// Android's NetworkCapabilities.
#[derive(Clone, Debug, Default, PartialEq)]
pub struct NetworkCapabilitiesInfo {
    pub internet: bool,
    pub validated: bool,
    pub captive_portal: bool,
    pub partial_connectivity: bool,
    pub not_restricted: bool,
    pub not_metered: bool,
    pub not_roaming: bool,
    pub not_congested: bool,
    pub not_suspended: bool,
    pub not_vpn: bool,
    pub trusted: bool,
    pub foreground: bool,
    pub vpn_uid_ranges: Vec<UidRange>,
}

/// A route of Android's LinkProperties.
#[derive(Clone, Debug, Default, PartialEq)]
pub struct RouteInfo {
    pub destination: Option<IpPrefix>,
    pub gateway: Option<IpAddress>,
    pub interface_name: String,
    pub is_default: bool,
}

/// Android's LinkProperties.
#[derive(Clone, Debug, Default, PartialEq)]
pub struct LinkPropertiesInfo {
    pub interface_name: String,
    pub mtu: i32,
    pub link_addresses: Vec<IpPrefix>,
    pub routes: Vec<RouteInfo>,
    pub dns_servers: Vec<IpAddress>,
    pub domains: Vec<String>,
    pub private_dns_mode: PrivateDnsMode,
    pub private_dns_server_name: String,
    pub private_dns_active: bool,
    pub validated_private_dns_servers: Vec<IpAddress>,
    pub nat64_prefix: Option<IpPrefix>,
    pub captive_portal_api_url: String,
}

/// A Network object of ConnectivityManager.
#[derive(Clone, Debug, Default, PartialEq)]
pub struct AndroidNetwork {
    pub network_handle: u64,
    pub net_id: i32,
    pub is_default: bool,
    pub transports: Vec<Transport>,
    pub capabilities: Option<NetworkCapabilitiesInfo>,
    pub link_properties: Option<LinkPropertiesInfo>,
}

/// What ConnectivityManager says about the device.
#[derive(Clone, Debug, Default, PartialEq)]
pub struct AndroidNetworkState {
    pub captured_at_unix_ms: i64,
    pub sdk_int: i32,
    pub active_network_handle: u64,
    pub active_net_id: i32,
    pub has_active_network: bool,
    pub restrict_background_status: i32,
    pub data_saver_enabled: bool,
    pub networks: Vec<AndroidNetwork>,
}

/// What a diagnosis is about; zero and empty fields ask for the defaults.
#[derive(Clone, Debug, Default, PartialEq)]
pub struct DiagnoseTarget {
    pub net_id: i32,
    pub has_as_uid: bool,
    pub as_uid: u32,
    pub hostname: String,
    pub tcp_port: u32,
    pub ipv4_endpoint: Option<IpAddress>,
    pub ipv6_endpoint: Option<IpAddress>,
    pub timeout_ms: u32,
}

/// A request for a diagnosis.
#[derive(Clone, Debug, Default, PartialEq)]
pub struct DiagnoseRequest {
    pub target: Option<DiagnoseTarget>,
    pub android_state: Option<AndroidNetworkState>,
    pub only: Vec<CheckId>,
    pub skip: Vec<CheckId>,
    pub passive_only: bool,
}

/// One observation or probe and its outcome.
#[derive(Clone, Debug, Default, PartialEq)]
pub struct Check {
    pub id: CheckId,
    pub key: String,
    pub title: String,
    pub status: CheckStatus,
    pub family: IpFamily,
    pub detail: String,
    pub evidence: TextMap,
    pub depends_on: Vec<String>,
    pub error: Option<Error>,
    pub duration_ms: u64,
}

/// A conclusion that several checks support.
#[derive(Clone, Debug, Default, PartialEq)]
pub struct Finding {
    pub id: FindingId,
    pub key: String,
    pub severity: FindingSeverity,
    pub title: String,
    pub interpretation: String,
    pub supporting_checks: Vec<String>,
    pub suggested_actions: Vec<String>,
    pub confidence: u32,
}

/// The report of a diagnosis.
#[derive(Clone, Debug, Default, PartialEq)]
pub struct DiagnoseResponse {
    pub started_unix_ms: i64,
    pub total_duration_ms: u64,
    pub checks: Vec<Check>,
    pub findings: Vec<Finding>,
    pub summary: String,
    pub worst_severity: FindingSeverity,
    pub passed: u32,
    pub failed: u32,
    pub warned: u32,
    pub skipped: u32,
}

/// What netd's uid_owner_map holds for a uid.
#[derive(Clone, Copy, Debug, Default, PartialEq, Eq, Structural)]
pub struct UidFirewallState {
    pub uid: u32,
    pub source_available: bool,
    pub raw_match: u32,
    pub blocked_metered_deny_user: bool,
    pub blocked_standby: bool,
    pub blocked_dozable: bool,
    pub blocked_powersave: bool,
    pub blocked_restricted: bool,
    pub blocked_low_power_standby: bool,
    pub blocked_metered_allow: bool,
    pub blocked_metered_deny_admin: bool,
}

/// A netfilter chain with its counters and rules.
#[derive(Clone, Debug, Default, PartialEq)]
pub struct FirewallChain {
    pub table: String,
    pub name: String,
    pub policy: String,
    pub packets: u64,
    pub bytes: u64,
    pub rules: Vec<String>,
}

/// Which packet filters exist, and what they hold.
#[derive(Clone, Debug, Default, PartialEq)]
pub struct FirewallState {
    pub bpf_pinned_objects: Vec<String>,
    pub bpf_maps_readable: bool,
    pub ipv4_chains: Vec<FirewallChain>,
    pub ipv6_chains: Vec<FirewallChain>,
    pub used_shell_fallback: bool,
    pub backends_detected: Vec<FirewallBackend>,
    pub collection_note: String,
}

/// Settings of the whole stack; -1 where the kernel has no such file.
#[derive(Clone, Debug, Default, PartialEq)]
pub struct GlobalSysctls {
    pub ipv4_forwarding: i32,
    pub ipv6_forwarding: i32,
    pub ipv6_disable: i32,
    pub tcp_congestion_control: String,
    pub tcp_available_congestion_control: String,
    pub tcp_fastopen: i32,
    pub tcp_mtu_probing: i32,
    pub tcp_base_mss: i32,
    pub tcp_syn_retries: i32,
    pub tcp_synack_retries: i32,
    pub tcp_retries2: i32,
    pub tcp_fin_timeout: i32,
    pub tcp_keepalive_time: i32,
    pub tcp_ecn: i32,
    pub tcp_timestamps: i32,
    pub tcp_sack: i32,
    pub default_qdisc_present: i32,
    pub default_qdisc: String,
    pub ping_group_range: String,
    pub ip_no_pmtu_disc: i32,
    pub route_min_pmtu: i32,
    pub raw: TextMap,
}

/// A counter of the kernel.
#[derive(Clone, Debug, Default, PartialEq)]
pub struct Counter {
    pub name: String,
    pub value: i64,
}

/// The SNMP counters of the kernel, by protocol.
#[derive(Clone, Debug, Default, PartialEq)]
pub struct ProtocolCounters {
    pub ip: Vec<Counter>,
    pub icmp: Vec<Counter>,
    pub tcp: Vec<Counter>,
    pub udp: Vec<Counter>,
    pub ip6: Vec<Counter>,
    pub icmp6: Vec<Counter>,
    pub udp6: Vec<Counter>,
    pub tcp_ext: Vec<Counter>,
    pub ip_ext: Vec<Counter>,
}

/// What /etc/resolv.conf says.
#[derive(Clone, Debug, Default, PartialEq)]
pub struct ResolverState {
    pub resolv_conf_servers: Vec<IpAddress>,
    pub resolv_conf_domains: Vec<String>,
    pub resolv_conf_present: bool,
    pub resolv_conf_note: String,
}

/// A network namespace.
#[derive(Clone, Debug, Default, PartialEq)]
pub struct NetworkNamespace {
    pub id: i32,
    pub name: String,
    pub inode: u64,
    pub is_current: bool,
}

/// An installed application.
#[derive(Clone, Debug, Default, PartialEq)]
pub struct AppRef {
    pub package_name: String,
    pub uid: u32,
    pub label: String,
    pub is_system: bool,
}

/// How the packets of a uid are routed.
#[derive(Clone, Debug, Default, PartialEq)]
pub struct UidRoutingPath {
    pub uid: u32,
    pub matching_rules: Vec<RoutingRule>,
    pub table_v4: u32,
    pub table_v6: u32,
    pub egress_interface_v4: String,
    pub egress_interface_v6: String,
    pub lookup_v4: Option<RouteLookup>,
    pub lookup_v6: Option<RouteLookup>,
}

/// Whether an app's traffic goes through a VPN, and why not.
#[derive(Clone, Debug, Default, PartialEq)]
pub struct VpnAssessment {
    pub vpn_present: bool,
    pub vpn_interface: String,
    pub vpn_net_id: i32,
    pub app_uses_vpn: bool,
    pub app_bypasses_vpn: bool,
    pub bypass_reason: String,
    pub framework_says_in_vpn: bool,
    pub disagreement: bool,
    pub split_tunnel: bool,
    pub ipv6_inside_vpn: bool,
}

/// One app's traffic, from its uid down to the interface.
#[derive(Clone, Debug, Default, PartialEq)]
pub struct AppNetworkState {
    pub app: Option<AppRef>,
    pub android_network: Option<AndroidNetwork>,
    pub routing: Option<UidRoutingPath>,
    pub sockets: Vec<Socket>,
    pub socket_summary: Option<SocketSummary>,
    pub vpn: Option<VpnAssessment>,
    pub firewall_note: String,
    pub observed_net_ids: Vec<i32>,
    pub ipv4_path_ok: bool,
    pub ipv6_path_ok: bool,
    pub summary: String,
}

/// A queueing discipline and its counters.
#[derive(Clone, Debug, Default, PartialEq)]
pub struct Qdisc {
    pub interface_index: u32,
    pub interface_name: String,
    pub kind: String,
    pub handle: u32,
    pub parent: u32,
    pub bytes_sent: u64,
    pub packets_sent: u64,
    pub drops: u64,
    pub overlimits: u64,
    pub requeues: u64,
    pub backlog_bytes: u32,
    pub backlog_packets: u32,
}

/// A request for a capture of every layer; everything expensive is opt-in.
#[derive(Clone, Debug, Default, PartialEq)]
pub struct GetSnapshotRequest {
    pub include_sockets: bool,
    pub include_socket_tcp_info: bool,
    pub include_neighbors: bool,
    pub include_firewall: bool,
    pub include_sysctls: bool,
    pub include_counters: bool,
    pub include_qdiscs: bool,
    pub android_state: Option<AndroidNetworkState>,
}

/// A capture of every layer.
#[derive(Clone, Debug, Default, PartialEq)]
pub struct Snapshot {
    pub captured_at_unix_ms: i64,
    pub kernel_release: String,
    pub interfaces: Vec<Interface>,
    pub routes: Vec<Route>,
    pub table_names: HashMap<u32, String>,
    pub rules: Vec<RoutingRule>,
    pub neighbors: Vec<Neighbor>,
    pub sockets: Vec<Socket>,
    pub socket_summary: Option<SocketSummary>,
    pub sysctls: Option<GlobalSysctls>,
    pub counters: Option<ProtocolCounters>,
    pub firewall: Option<FirewallState>,
    pub qdiscs: Vec<Qdisc>,
    pub namespaces: Vec<NetworkNamespace>,
    pub resolver: Option<ResolverState>,
    pub clat: Option<Clat464State>,
    pub android_state: Option<AndroidNetworkState>,
    pub collection_duration_ms: u64,
    pub collection_warnings: Vec<String>,
}

/// What a capture keeps; empty lists put no constraint.
#[derive(Clone, Debug, Default, PartialEq)]
pub struct CaptureFilter {
    /// The numbers of families.
    pub families: Vec<i32>,
    pub hosts: Vec<IpAddress>,
    pub ports: Vec<u32>,
    pub tcp: bool,
    pub udp: bool,
    pub icmp: bool,
    pub arp: bool,
    pub bpf_expression: String,
}

/// A request for a capture; an empty interface name means every interface.
#[derive(Clone, Debug, Default, PartialEq)]
pub struct StartCaptureRequest {
    pub interface_name: String,
    pub filter: Option<CaptureFilter>,
    pub snaplen: u32,
    pub promiscuous: bool,
    pub include_payload: bool,
    pub max_packets: u32,
    pub max_bytes: u64,
    pub duration_ms: u32,
}

/// What a packet's headers say.
#[derive(Clone, Debug, Default, PartialEq)]
pub struct PacketSummary {
    pub family: IpFamily,
    pub source: Option<IpAddress>,
    pub destination: Option<IpAddress>,
    pub ip_protocol: u32,
    pub protocol_name: String,
    pub source_port: u32,
    pub destination_port: u32,
    pub ttl: u32,
    pub syn: bool,
    pub ack: bool,
    pub fin: bool,
    pub rst: bool,
    pub psh: bool,
    pub tcp_seq: u32,
    pub tcp_window: u32,
    pub icmp_type: u32,
    pub icmp_code: u32,
    pub icmp_mtu: u32,
    pub description: String,
}

/// A packet of a capture.
#[derive(Clone, Debug, Default, PartialEq)]
pub struct CapturedPacket {
    pub capture_id: u64,
    pub sequence: u64,
    pub unix_ms: i64,
    pub unix_us_fraction: u32,
    pub original_length: u32,
    pub data: Vec<u8>,
    pub interface_index: u32,
    pub interface_name: String,
    pub outgoing: bool,
    pub summary: Option<PacketSummary>,
}

/// What a capture counted.
#[derive(Clone, Copy, Debug, Default, PartialEq, Eq, Structural)]
pub struct CaptureStats {
    pub capture_id: u64,
    pub packets_captured: u64,
    pub packets_dropped_kernel: u64,
    pub packets_filtered_out: u64,
    pub bytes_captured: u64,
}

/// The start of a capture.
#[derive(Clone, Debug, Default, PartialEq)]
pub struct CaptureStarted {
    pub capture_id: u64,
    pub interface_name: String,
    pub link_type: LinkType,
    pub snaplen: u32,
    pub started_unix_ms: i64,
    pub bpf_expression_ignored: bool,
    pub note: String,
    pub pcap_file_header: Vec<u8>,
}

/// The end of a capture.
#[derive(Clone, Debug, Default, PartialEq)]
pub struct CaptureFinished {
    pub capture_id: u64,
    pub stats: Option<CaptureStats>,
    pub reason: String,
    pub error: Option<Error>,
}

/// A change of an interface.
#[derive(Clone, Debug, Default, PartialEq)]
pub struct LinkEvent {
    pub added: bool,
    pub interface: Option<Interface>,
    pub went_up: bool,
    pub went_down: bool,
    pub mtu_changed: bool,
    pub previous_mtu: u32,
}

/// A change of an interface's addresses.
#[derive(Clone, Debug, Default, PartialEq)]
pub struct AddressEvent {
    pub added: bool,
    pub interface_index: u32,
    pub interface_name: String,
    pub address: Option<LinkAddress>,
    pub family_gained: bool,
    pub family_lost: bool,
    pub family: IpFamily,
}

/// A change of the routes.
#[derive(Clone, Debug, Default, PartialEq)]
pub struct RouteEvent {
    pub added: bool,
    pub default_route_changed: bool,
    pub route: Option<Route>,
}

/// A change of the policy routing rules.
#[derive(Clone, Debug, Default, PartialEq)]
pub struct RuleEvent {
    pub added: bool,
    pub rule: Option<RoutingRule>,
}

/// A change of the neighbour table.
#[derive(Clone, Debug, Default, PartialEq)]
pub struct NeighborEvent {
    pub added: bool,
    pub neighbor: Option<Neighbor>,
    pub previous_state: NeighborState,
    pub is_gateway: bool,
}

/// A change of a socket.
#[derive(Clone, Debug, Default, PartialEq)]
pub struct SocketEvent {
    pub socket: Option<Socket>,
    pub previous_state: TcpState,
    pub appeared: bool,
    pub disappeared: bool,
}

/// A callback of ConnectivityManager.
#[derive(Clone, Debug, Default, PartialEq)]
pub struct FrameworkEvent {
    pub kind: FrameworkEventKind,
    pub current_net_id: i32,
    pub network: Option<AndroidNetwork>,
}

/// A word of the daemon itself.
#[derive(Clone, Debug, Default, PartialEq)]
pub struct DaemonEvent {
    pub message: String,
}

/// An entry of the timeline.
#[derive(Clone, Debug, Default, PartialEq)]
pub struct NetworkEvent {
    pub sequence: u64,
    pub unix_ms: i64,
    pub monotonic_ns: u64,
    pub source: EventSource,
    pub severity: EventSeverity,
    pub summary: String,
    pub payload: Option<NetworkEventPayload>,
}

/// Which events a subscription gets; with no class selected, all.
#[derive(Clone, Debug, Default, PartialEq)]
pub struct EventFilter {
    pub links: bool,
    pub addresses: bool,
    pub routes: bool,
    pub rules: bool,
    pub neighbors: bool,
    pub sockets: bool,
    /// The number of the lowest severity; above all severities, no event passes.
    pub min_severity: i32,
    pub exclude_neighbor_probe_noise: bool,
    pub socket_uids: Vec<u32>,
}

/// The first request of a client.
#[derive(Clone, Debug, Default, PartialEq)]
pub struct HelloRequest {
    pub protocol_version: u32,
    pub client_name: String,
    pub client_version: String,
}

/// What this kernel and its policy allow.
#[derive(Clone, Copy, Debug, Default, PartialEq, Eq, Structural)]
pub struct DaemonCapabilities {
    pub netlink_route: bool,
    pub inet_diag: bool,
    pub route_lookup: bool,
    pub packet_capture: bool,
    pub bpf_maps: bool,
    pub nftables: bool,
    pub iptables: bool,
    pub tc: bool,
    pub raw_icmp: bool,
    pub so_mark: bool,
}

/// The answer to a client's first request.
#[derive(Clone, Debug, Default, PartialEq)]
pub struct HelloResponse {
    pub protocol_version: u32,
    pub daemon_version: String,
    pub kernel_release: String,
    pub daemon_uid: u32,
    pub daemon_pid: u32,
    pub capabilities: Option<DaemonCapabilities>,
    pub warnings: Vec<String>,
    pub daemon_started_unix_ms: i64,
}

/// A request for interfaces; with no name and no index, for all.
#[derive(Clone, Debug, Default, PartialEq)]
pub struct GetInterfacesRequest {
    pub include_stats: bool,
    pub include_sysctls: bool,
    pub names: Vec<String>,
    pub indexes: Vec<u32>,
}

/// A request for routes.
#[derive(Clone, Debug, Default, PartialEq)]
pub struct GetRoutesRequest {
    pub family: i32,
    pub table: u32,
    pub only_default: bool,
    pub interface_index: u32,
}

/// A request for policy routing rules.
#[derive(Clone, Debug, Default, PartialEq)]
pub struct GetRoutingRulesRequest {
    pub family: i32,
    pub has_uid: bool,
    pub uid: u32,
}

/// A request for neighbours.
#[derive(Clone, Debug, Default, PartialEq)]
pub struct GetNeighborsRequest {
    pub family: i32,
    pub interface_index: u32,
    pub only_routers: bool,
}

/// A request for sockets.
#[derive(Clone, Debug, Default, PartialEq)]
pub struct GetSocketsRequest {
    pub filter: Option<SocketFilter>,
}

/// A request about one app.
#[derive(Clone, Debug, Default, PartialEq)]
pub struct GetAppNetworkStateRequest {
    pub app: Option<AppRef>,
    pub android_state: Option<AndroidNetworkState>,
    pub include_tcp_info: bool,
    pub skip_route_lookup: bool,
}

/// A request to route one packet.
#[derive(Clone, Debug, Default, PartialEq)]
pub struct RouteLookupRequest {
    pub destination: Option<IpAddress>,
    pub source_hint: Option<IpAddress>,
    pub has_uid: bool,
    pub uid: u32,
    pub has_fwmark: bool,
    pub fwmark: u32,
    pub out_interface_index: u32,
}

/// Events of the framework, from the app.
#[derive(Clone, Debug, Default, PartialEq)]
pub struct PushFrameworkEventRequest {
    pub events: Vec<NetworkEvent>,
}

/// A subscription to the timeline.
#[derive(Clone, Debug, Default, PartialEq)]
pub struct WatchNetworkRequest {
    pub filter: Option<EventFilter>,
    pub replay_initial_state: bool,
}

/// A subscription to routes.
#[derive(Clone, Debug, Default, PartialEq)]
pub struct WatchRoutesRequest {
    pub family: i32,
    pub table: u32,
    pub include_rules: bool,
}

/// A subscription to sockets.
#[derive(Clone, Debug, Default, PartialEq)]
pub struct WatchSocketsRequest {
    pub filter: Option<SocketFilter>,
    pub poll_ms: u32,
}

/// A request to stop a capture.
#[derive(Clone, Debug, Default, PartialEq)]
pub struct StopCaptureRequest {
    pub capture_id: u64,
}

/// A request to stop a stream.
#[derive(Clone, Debug, Default, PartialEq)]
pub struct CancelRequest {
    pub target_id: u64,
}

/// The last frame of a stream.
#[derive(Clone, Debug, Default, PartialEq)]
pub struct StreamEnd {
    pub error: Option<Error>,
    pub reason: String,
    pub items_sent: u64,
}

// ---- Addresses --------------------------------------------------------------

/// The address that a message holds, if one is set.
pub open spec fn address_ip(a: Option<IpAddress>) -> Option<IpAddr> {
    match a {
        Some(a) => a.ip_of(),
        None => None,
    }
}

impl IpAddress {
    /// The address that the bytes make.
    pub open spec fn ip_of(self) -> Option<IpAddr> {
        IpAddr::of(self.addr@)
    }

    /// The address as it is written, or a dash where none is set.
    pub open spec fn text(self) -> Seq<char> {
        match self.ip_of() {
            Some(ip) => ip.text(),
            None => "-"@,
        }
    }

    pub fn from_ip(ip: IpAddr) -> (r: Self)
        ensures
            r.addr@ == ip.octets(),
            r.ip_of() == Some(ip),
    {
        proof {
            crate::ip::law_address_bytes_round_trip(ip);
        }
        IpAddress { addr: ip.to_vec() }
    }

    pub fn to_ip(&self) -> (r: Option<IpAddr>)
        ensures
            r == self.ip_of(),
    {
        IpAddr::from_bytes(self.addr.as_slice())
    }

    pub fn is_set(&self) -> (r: bool)
        ensures
            r == (self.ip_of() is Some),
    {
        self.addr.len() == 4 || self.addr.len() == 16
    }

    pub fn display(&self) -> (r: String)
        ensures
            r@ == self.text(),
    {
        match self.to_ip() {
            Some(ip) => ip.to_text(),
            None => String::from_str("-"),
        }
    }

    /// A message with the same bytes.
    pub fn copy(&self) -> (r: Self)
        ensures
            r.addr@ == self.addr@,
    {
        let mut addr: Vec<u8> = Vec::new();
        addr.extend_from_slice(self.addr.as_slice());
        assert(addr@ =~= self.addr@);
        IpAddress { addr }
    }
}

impl IpPrefix {
    pub open spec fn ip_of(self) -> Option<IpAddr> {
        address_ip(self.address)
    }

    /// The prefix as it is written, with a star where no address is set.
    pub open spec fn text(self) -> Seq<char> {
        match self.ip_of() {
            Some(ip) => ip.text() + "/"@ + dec(self.prefix_len as nat),
            None => "*/"@ + dec(self.prefix_len as nat),
        }
    }

    pub fn new(ip: IpAddr, prefix_len: u8) -> (r: Self)
        ensures
            r.ip_of() == Some(ip),
            r.address is Some,
            (r.address->0).addr@ == ip.octets(),
            r.prefix_len == prefix_len,
    {
        IpPrefix { address: Some(IpAddress::from_ip(ip)), prefix_len: prefix_len as u32 }
    }

    pub fn ip(&self) -> (r: Option<IpAddr>)
        ensures
            r == self.ip_of(),
    {
        match &self.address {
            Some(a) => a.to_ip(),
            None => None,
        }
    }

    pub fn display(&self) -> (r: String)
        ensures
            r@ == self.text(),
    {
        let len = dec_string(self.prefix_len as u64);
        match self.ip() {
            Some(ip) => {
                let text = ip.to_text();
                String::from_str(text.as_str()).concat("/").concat(len.as_str())
            },
            None => String::from_str("*/").concat(len.as_str()),
        }
    }
}

// ---- Errors -----------------------------------------------------------------

impl Error {
    pub fn new(code: ErrorCode, message: String) -> (r: Self)
        ensures
            r.code == code,
            r.message == message,
            r.detail@.len() == 0,
    {
        Error { code, message, detail: String::new() }
    }

    pub fn with_detail(self, detail: String) -> (r: Self)
        ensures
            r.code == self.code,
            r.message == self.message,
            r.detail == detail,
    {
        Error { code: self.code, message: self.message, detail }
    }

    pub fn internal(message: String) -> (r: Self)
        ensures
            r.code == ErrorCode::Internal,
            r.message == message,
            r.detail@.len() == 0,
    {
        Error::new(ErrorCode::Internal, message)
    }

    pub fn invalid(message: String) -> (r: Self)
        ensures
            r.code == ErrorCode::InvalidArgument,
            r.message == message,
            r.detail@.len() == 0,
    {
        Error::new(ErrorCode::InvalidArgument, message)
    }

    pub fn kernel(message: String) -> (r: Self)
        ensures
            r.code == ErrorCode::Kernel,
            r.message == message,
            r.detail@.len() == 0,
    {
        Error::new(ErrorCode::Kernel, message)
    }

    pub fn not_found(message: String) -> (r: Self)
        ensures
            r.code == ErrorCode::NotFound,
            r.message == message,
            r.detail@.len() == 0,
    {
        Error::new(ErrorCode::NotFound, message)
    }
}

// ---- Names ------------------------------------------------------------------

impl LinkKind {
    /// The name of the value.
    pub open spec fn name_text(self) -> Seq<char> {
        match self {
            LinkKind::Unspecified => "Unspecified"@,
            LinkKind::Loopback => "Loopback"@,
            LinkKind::Wifi => "Wifi"@,
            LinkKind::Cellular => "Cellular"@,
            LinkKind::Ethernet => "Ethernet"@,
            LinkKind::VpnTun => "VpnTun"@,
            LinkKind::Bluetooth => "Bluetooth"@,
            LinkKind::Clat => "Clat"@,
            LinkKind::Bridge => "Bridge"@,
            LinkKind::Dummy => "Dummy"@,
            LinkKind::Other => "Other"@,
        }
    }

    pub fn name(&self) -> (r: &'static str)
        ensures
            r@ == self.name_text(),
    {
        match self {
            LinkKind::Unspecified => "Unspecified",
            LinkKind::Loopback => "Loopback",
            LinkKind::Wifi => "Wifi",
            LinkKind::Cellular => "Cellular",
            LinkKind::Ethernet => "Ethernet",
            LinkKind::VpnTun => "VpnTun",
            LinkKind::Bluetooth => "Bluetooth",
            LinkKind::Clat => "Clat",
            LinkKind::Bridge => "Bridge",
            LinkKind::Dummy => "Dummy",
            LinkKind::Other => "Other",
        }
    }
}

impl OperState {
    /// The name of the value.
    pub open spec fn name_text(self) -> Seq<char> {
        match self {
            OperState::Unspecified => "Unspecified"@,
            OperState::Unknown => "Unknown"@,
            OperState::NotPresent => "NotPresent"@,
            OperState::Down => "Down"@,
            OperState::LowerLayerDown => "LowerLayerDown"@,
            OperState::Testing => "Testing"@,
            OperState::Dormant => "Dormant"@,
            OperState::Up => "Up"@,
        }
    }

    pub fn name(&self) -> (r: &'static str)
        ensures
            r@ == self.name_text(),
    {
        match self {
            OperState::Unspecified => "Unspecified",
            OperState::Unknown => "Unknown",
            OperState::NotPresent => "NotPresent",
            OperState::Down => "Down",
            OperState::LowerLayerDown => "LowerLayerDown",
            OperState::Testing => "Testing",
            OperState::Dormant => "Dormant",
            OperState::Up => "Up",
        }
    }
}

impl AddressScope {
    /// The name of the value.
    pub open spec fn name_text(self) -> Seq<char> {
        match self {
            AddressScope::Unspecified => "Unspecified"@,
            AddressScope::Global => "Global"@,
            AddressScope::Site => "Site"@,
            AddressScope::Link => "Link"@,
            AddressScope::Host => "Host"@,
            AddressScope::Nowhere => "Nowhere"@,
        }
    }

    pub fn name(&self) -> (r: &'static str)
        ensures
            r@ == self.name_text(),
    {
        match self {
            AddressScope::Unspecified => "Unspecified",
            AddressScope::Global => "Global",
            AddressScope::Site => "Site",
            AddressScope::Link => "Link",
            AddressScope::Host => "Host",
            AddressScope::Nowhere => "Nowhere",
        }
    }
}

impl NeighborState {
    /// The name of the value.
    pub open spec fn name_text(self) -> Seq<char> {
        match self {
            NeighborState::Unspecified => "Unspecified"@,
            NeighborState::NoEntry => "None"@,
            NeighborState::Incomplete => "Incomplete"@,
            NeighborState::Reachable => "Reachable"@,
            NeighborState::Stale => "Stale"@,
            NeighborState::Delay => "Delay"@,
            NeighborState::Probe => "Probe"@,
            NeighborState::Failed => "Failed"@,
            NeighborState::Noarp => "Noarp"@,
            NeighborState::Permanent => "Permanent"@,
        }
    }

    pub fn name(&self) -> (r: &'static str)
        ensures
            r@ == self.name_text(),
    {
        match self {
            NeighborState::Unspecified => "Unspecified",
            NeighborState::NoEntry => "None",
            NeighborState::Incomplete => "Incomplete",
            NeighborState::Reachable => "Reachable",
            NeighborState::Stale => "Stale",
            NeighborState::Delay => "Delay",
            NeighborState::Probe => "Probe",
            NeighborState::Failed => "Failed",
            NeighborState::Noarp => "Noarp",
            NeighborState::Permanent => "Permanent",
        }
    }
}

impl PrivateDnsMode {
    /// The name of the value.
    pub open spec fn name_text(self) -> Seq<char> {
        match self {
            PrivateDnsMode::Unspecified => "Unspecified"@,
            PrivateDnsMode::Off => "Off"@,
            PrivateDnsMode::Opportunistic => "Opportunistic"@,
            PrivateDnsMode::Strict => "Strict"@,
        }
    }

    pub fn name(&self) -> (r: &'static str)
        ensures
            r@ == self.name_text(),
    {
        match self {
            PrivateDnsMode::Unspecified => "Unspecified",
            PrivateDnsMode::Off => "Off",
            PrivateDnsMode::Opportunistic => "Opportunistic",
            PrivateDnsMode::Strict => "Strict",
        }
    }
}

impl FindingSeverity {
    /// The place of a severity in the ascending order.
    pub open spec fn rank_of(self) -> nat {
        match self {
            FindingSeverity::Unspecified => 0,
            FindingSeverity::Info => 1,
            FindingSeverity::Low => 2,
            FindingSeverity::Medium => 3,
            FindingSeverity::High => 4,
            FindingSeverity::Critical => 5,
        }
    }

    pub fn rank(&self) -> (r: u32)
        ensures
            r == self.rank_of(),
    {
        match self {
            FindingSeverity::Unspecified => 0,
            FindingSeverity::Info => 1,
            FindingSeverity::Low => 2,
            FindingSeverity::Medium => 3,
            FindingSeverity::High => 4,
            FindingSeverity::Critical => 5,
        }
    }
}

impl EventSeverity {
    /// The number of a severity, which gives its place in the ascending order.
    pub open spec fn rank_of(self) -> int {
        match self {
            EventSeverity::Unspecified => 0,
            EventSeverity::Debug => 1,
            EventSeverity::Info => 2,
            EventSeverity::Notice => 3,
            EventSeverity::Warning => 4,
        }
    }

    pub fn rank(&self) -> (r: i32)
        ensures
            r == self.rank_of(),
    {
        match self {
            EventSeverity::Unspecified => 0,
            EventSeverity::Debug => 1,
            EventSeverity::Info => 2,
            EventSeverity::Notice => 3,
            EventSeverity::Warning => 4,
        }
    }
}

impl IpFamily {
    /// The number of a family in a request.
    pub open spec fn number_of(self) -> i32 {
        match self {
            IpFamily::Unspecified => 0,
            IpFamily::V4 => 1,
            IpFamily::V6 => 2,
        }
    }

    pub fn number(&self) -> (r: i32)
        ensures
            r == self.number_of(),
    {
        match self {
            IpFamily::Unspecified => 0,
            IpFamily::V4 => 1,
            IpFamily::V6 => 2,
        }
    }
}

// ---- Events -----------------------------------------------------------------

/// What an event is about.
#[derive(Clone, Debug, PartialEq)]
pub enum NetworkEventPayload {
    Link(LinkEvent),
    Address(AddressEvent),
    Route(RouteEvent),
    Rule(RuleEvent),
    Neighbor(NeighborEvent),
    Socket(SocketEvent),
    Framework(FrameworkEvent),
    Daemon(DaemonEvent),
}

// ---- Sockets ----------------------------------------------------------------

/// The bytes of an address that may be missing.
pub open spec fn optional_bytes(a: Option<IpAddress>) -> Option<Seq<u8>> {
    match a {
        Some(a) => Some(a.addr@),
        None => None,
    }
}

/// Whether two sockets are alike in every field.
pub open spec fn same_socket(a: Socket, b: Socket) -> bool {
    &&& a.family == b.family && a.protocol == b.protocol && a.state == b.state
    &&& optional_bytes(a.local_address) == optional_bytes(b.local_address)
    &&& a.local_port == b.local_port
    &&& optional_bytes(a.remote_address) == optional_bytes(b.remote_address)
    &&& a.remote_port == b.remote_port
    &&& a.uid == b.uid && a.inode == b.inode && a.interface_index == b.interface_index
    &&& a.interface_name@ == b.interface_name@
    &&& a.rx_queue == b.rx_queue && a.tx_queue == b.tx_queue && a.socket_cookie == b.socket_cookie
    &&& a.timer == b.timer && a.timer_expires_ms == b.timer_expires_ms
    &&& a.retransmits == b.retransmits
    &&& a.mark == b.mark && a.has_mark == b.has_mark && a.net_id == b.net_id
    &&& a.congestion_control@ == b.congestion_control@
    &&& a.tcp_info == b.tcp_info
    &&& texts(a.package_names@) == texts(b.package_names@)
}

fn copy_address(a: &Option<IpAddress>) -> (r: Option<IpAddress>)
    ensures
        optional_bytes(r) == optional_bytes(*a),
{
    match a {
        Some(a) => Some(a.copy()),
        None => None,
    }
}

impl Socket {
    /// A socket that is alike in every field.
    pub fn copy(&self) -> (r: Self)
        ensures
            same_socket(r, *self),
    {
        Socket {
            family: self.family,
            protocol: self.protocol,
            state: self.state,
            local_address: copy_address(&self.local_address),
            local_port: self.local_port,
            remote_address: copy_address(&self.remote_address),
            remote_port: self.remote_port,
            uid: self.uid,
            inode: self.inode,
            interface_index: self.interface_index,
            interface_name: self.interface_name.clone(),
            rx_queue: self.rx_queue,
            tx_queue: self.tx_queue,
            socket_cookie: self.socket_cookie,
            timer: self.timer,
            timer_expires_ms: self.timer_expires_ms,
            retransmits: self.retransmits,
            mark: self.mark,
            has_mark: self.has_mark,
            net_id: self.net_id,
            congestion_control: self.congestion_control.clone(),
            tcp_info: self.tcp_info,
            package_names: copy_texts(&self.package_names),
        }
    }
}

/// Whether two prefixes are alike, or both are missing.
pub open spec fn same_prefix(a: Option<IpPrefix>, b: Option<IpPrefix>) -> bool {
    match (a, b) {
        (Some(a), Some(b)) => optional_bytes(a.address) == optional_bytes(b.address) && a.prefix_len
            == b.prefix_len,
        (None, None) => true,
        _ => false,
    }
}

/// Whether two addresses of an interface are alike in every field.
pub open spec fn same_link_address(a: LinkAddress, b: LinkAddress) -> bool {
    &&& same_prefix(a.prefix, b.prefix)
    &&& a.scope == b.scope && a.flags == b.flags
    &&& a.valid_lifetime_sec == b.valid_lifetime_sec
    &&& a.preferred_lifetime_sec == b.preferred_lifetime_sec
    &&& a.label@ == b.label@
    &&& optional_bytes(a.broadcast) == optional_bytes(b.broadcast)
}

/// Whether two interfaces are alike in every field.
pub open spec fn same_interface(a: Interface, b: Interface) -> bool {
    &&& a.index == b.index && a.name@ == b.name@ && a.alias@ == b.alias@ && a.mtu == b.mtu
    &&& a.mac_address@ == b.mac_address@ && a.broadcast_address@ == b.broadcast_address@
    &&& a.tx_queue_len == b.tx_queue_len && a.qdisc@ == b.qdisc@
    &&& a.link_index == b.link_index && a.master_index == b.master_index && a.group == b.group
    &&& a.netns_id == b.netns_id && a.oper_state == b.oper_state && a.has_xdp == b.has_xdp
    &&& a.link_type@ == b.link_type@ && a.kind == b.kind
    &&& a.flags == b.flags && a.stats == b.stats && a.sysctls == b.sysctls
    &&& a.addresses@.len() == b.addresses@.len()
    &&& forall|i: int|
        0 <= i < a.addresses@.len() ==> same_link_address(#[trigger] a.addresses@[i], b.addresses@[i])
}

fn copy_bytes(v: &Vec<u8>) -> (r: Vec<u8>)
    ensures
        r@ == v@,
{
    let mut r: Vec<u8> = Vec::new();
    r.extend_from_slice(v.as_slice());
    assert(r@ =~= v@);
    r
}

impl LinkAddress {
    /// An address that is alike in every field.
    pub fn copy(&self) -> (r: Self)
        ensures
            same_link_address(r, *self),
    {
        LinkAddress {
            prefix: match &self.prefix {
                Some(p) => Some(
                    IpPrefix { address: copy_address(&p.address), prefix_len: p.prefix_len },
                ),
                None => None,
            },
            scope: self.scope,
            flags: self.flags,
            valid_lifetime_sec: self.valid_lifetime_sec,
            preferred_lifetime_sec: self.preferred_lifetime_sec,
            label: self.label.clone(),
            broadcast: copy_address(&self.broadcast),
        }
    }
}

impl Interface {
    /// An interface that is alike in every field.
    pub fn copy(&self) -> (r: Self)
        ensures
            same_interface(r, *self),
    {
        let mut addresses: Vec<LinkAddress> = Vec::new();
        for i in 0..self.addresses.len()
            invariant
                addresses@.len() == i,
                forall|k: int|
                    0 <= k < i ==> same_link_address(
                        #[trigger] addresses@[k],
                        self.addresses@[k],
                    ),
        {
            addresses.push(self.addresses[i].copy());
        }
        Interface {
            index: self.index,
            name: self.name.clone(),
            alias: self.alias.clone(),
            mtu: self.mtu,
            mac_address: copy_bytes(&self.mac_address),
            broadcast_address: copy_bytes(&self.broadcast_address),
            tx_queue_len: self.tx_queue_len,
            qdisc: self.qdisc.clone(),
            link_index: self.link_index,
            master_index: self.master_index,
            group: self.group,
            netns_id: self.netns_id,
            oper_state: self.oper_state,
            has_xdp: self.has_xdp,
            link_type: self.link_type.clone(),
            kind: self.kind,
            flags: self.flags,
            stats: self.stats,
            addresses,
            sysctls: self.sysctls,
        }
    }
}

impl ErrorCode {
    /// The name of the value.
    pub open spec fn name_text(self) -> Seq<char> {
        match self {
            ErrorCode::Unspecified => "Unspecified"@,
            ErrorCode::Internal => "Internal"@,
            ErrorCode::InvalidArgument => "InvalidArgument"@,
            ErrorCode::NotFound => "NotFound"@,
            ErrorCode::PermissionDenied => "PermissionDenied"@,
            ErrorCode::Unsupported => "Unsupported"@,
            ErrorCode::Kernel => "Kernel"@,
            ErrorCode::ResourceExhausted => "ResourceExhausted"@,
        }
    }

    pub fn name(&self) -> (r: &'static str)
        ensures
            r@ == self.name_text(),
    {
        match self {
            ErrorCode::Unspecified => "Unspecified",
            ErrorCode::Internal => "Internal",
            ErrorCode::InvalidArgument => "InvalidArgument",
            ErrorCode::NotFound => "NotFound",
            ErrorCode::PermissionDenied => "PermissionDenied",
            ErrorCode::Unsupported => "Unsupported",
            ErrorCode::Kernel => "Kernel",
            ErrorCode::ResourceExhausted => "ResourceExhausted",
        }
    }
}

impl TcpState {
    /// The name of the value.
    pub open spec fn name_text(self) -> Seq<char> {
        match self {
            TcpState::Unspecified => "Unspecified"@,
            TcpState::Established => "Established"@,
            TcpState::SynSent => "SynSent"@,
            TcpState::SynRecv => "SynRecv"@,
            TcpState::FinWait1 => "FinWait1"@,
            TcpState::FinWait2 => "FinWait2"@,
            TcpState::TimeWait => "TimeWait"@,
            TcpState::Close => "Close"@,
            TcpState::CloseWait => "CloseWait"@,
            TcpState::LastAck => "LastAck"@,
            TcpState::Listen => "Listen"@,
            TcpState::Closing => "Closing"@,
            TcpState::NewSynRecv => "NewSynRecv"@,
        }
    }

    pub fn name(&self) -> (r: &'static str)
        ensures
            r@ == self.name_text(),
    {
        match self {
            TcpState::Unspecified => "Unspecified",
            TcpState::Established => "Established",
            TcpState::SynSent => "SynSent",
            TcpState::SynRecv => "SynRecv",
            TcpState::FinWait1 => "FinWait1",
            TcpState::FinWait2 => "FinWait2",
            TcpState::TimeWait => "TimeWait",
            TcpState::Close => "Close",
            TcpState::CloseWait => "CloseWait",
            TcpState::LastAck => "LastAck",
            TcpState::Listen => "Listen",
            TcpState::Closing => "Closing",
            TcpState::NewSynRecv => "NewSynRecv",
        }
    }
}

} // verus!
