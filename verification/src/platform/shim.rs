//! The Java shim's vocabulary, and the one place that translates it.
//!
//! The shim speaks in plain integers and lines of text, so that this side can
//! be tested without a device.
use vstd::prelude::*;

pub mod java_kind;
pub mod java_severity;

use crate::correlate::{as_signed, signed_of};
use crate::ip::IpAddr;
use crate::ip_parse::{parse_ip, read_ip};
use crate::platform::start::InstalledApp;
use crate::proto::{
    address_ip, AndroidNetwork, AndroidNetworkState, EventSeverity, EventSource, FrameworkEvent,
    FrameworkEventKind, IpAddress, LinkPropertiesInfo, NetworkCapabilitiesInfo, NetworkEvent,
    NetworkEventPayload, PrivateDnsMode, Transport,
};
use crate::seqs::{in_order, insert_by, law_sort_by, or, sort_by, stable_sort};
use crate::text::{
    contains_text, is_empty, lemma_precedes_total, lemma_precedes_transitive, lines, lines_of,
    lowercase, parse_i32, parse_u32, parse_u64, precedes, same, signed, split, split_once,
    split_text, split_text_once, text_precedes, texts, to_lowercase, trim, trim_text, unsigned,
};
use crate::util::now_unix_ms;

verus! {

// ---- Events ---------------------------------------------------------------------

/// The kind with a number of the shim. A shim from the future must not take
/// the app down.
pub open spec fn kind_of(java: i32) -> FrameworkEventKind {
    if java == java_kind::AVAILABLE {
        FrameworkEventKind::Available
    } else if java == java_kind::LOST {
        FrameworkEventKind::Lost
    } else if java == java_kind::LOSING {
        FrameworkEventKind::Losing
    } else if java == java_kind::IPV6_CHANGED {
        FrameworkEventKind::LinkPropertiesChanged
    } else if java == java_kind::BLOCKED_CHANGED {
        FrameworkEventKind::BlockedStatusChanged
    } else if java == java_kind::VALIDATION_CHANGED {
        FrameworkEventKind::ValidationChanged
    } else if java == java_kind::DNS_CHANGED {
        FrameworkEventKind::DnsServersChanged
    } else {
        FrameworkEventKind::Unspecified
    }
}

/// Translate the shim's vocabulary into the protocol's.
pub fn event_kind(java: i32) -> (r: FrameworkEventKind)
    ensures
        r == kind_of(java),
{
    match java {
        java_kind::AVAILABLE => FrameworkEventKind::Available,
        java_kind::LOST => FrameworkEventKind::Lost,
        java_kind::LOSING => FrameworkEventKind::Losing,
        java_kind::IPV6_CHANGED => FrameworkEventKind::LinkPropertiesChanged,
        java_kind::BLOCKED_CHANGED => FrameworkEventKind::BlockedStatusChanged,
        java_kind::VALIDATION_CHANGED => FrameworkEventKind::ValidationChanged,
        java_kind::DNS_CHANGED => FrameworkEventKind::DnsServersChanged,
        _ => FrameworkEventKind::Unspecified,
    }
}

/// The severity with a number of the shim.
pub open spec fn severity_of(java: i32) -> EventSeverity {
    if java == java_severity::NOTICE {
        EventSeverity::Notice
    } else if java == java_severity::WARNING {
        EventSeverity::Warning
    } else {
        EventSeverity::Info
    }
}

pub fn event_severity(java: i32) -> (r: EventSeverity)
    ensures
        r == severity_of(java),
{
    match java {
        java_severity::INFO => EventSeverity::Info,
        java_severity::NOTICE => EventSeverity::Notice,
        java_severity::WARNING => EventSeverity::Warning,
        _ => EventSeverity::Info,
    }
}

/// The netId in a network handle: its high half. It is the join key with
/// everything the daemon reports.
pub open spec fn handle_net_id(handle: u64) -> i32 {
    as_signed((handle / 0x1_0000_0000) as u32) as i32
}

fn net_id_of_handle(handle: u64) -> (r: i32)
    ensures
        r == handle_net_id(handle),
{
    signed_of((handle / 0x1_0000_0000) as u32)
}

/// Whether an event tells a callback of the framework.
pub open spec fn tells_callback(
    r: NetworkEvent,
    kind: i32,
    severity: i32,
    handle: u64,
    summary: String,
) -> bool {
    &&& r.source == EventSource::Framework
    &&& r.severity == severity_of(severity)
    &&& r.summary == summary
    &&& r.sequence == 0
    &&& r.monotonic_ns == 0
    &&& r.payload matches Some(NetworkEventPayload::Framework(e))
    &&& e.kind == kind_of(kind)
    &&& e.current_net_id == handle_net_id(handle)
    &&& e.network matches Some(n)
    &&& n.network_handle == handle && n.net_id == handle_net_id(handle) && !n.is_default
    &&& n.transports@.len() == 0 && n.capabilities is None && n.link_properties is None
}

/// A callback of the framework as an event.
pub fn framework_event(kind: i32, severity: i32, handle: u64, summary: String) -> (r: NetworkEvent)
    ensures
        tells_callback(r, kind, severity, handle, summary),
{
    let net_id = net_id_of_handle(handle);
    NetworkEvent {
        sequence: 0,
        unix_ms: now_unix_ms(),
        monotonic_ns: 0,
        source: EventSource::Framework,
        severity: event_severity(severity),
        summary,
        payload: Some(
            NetworkEventPayload::Framework(
                FrameworkEvent {
                    kind: event_kind(kind),
                    current_net_id: net_id,
                    network: Some(
                        AndroidNetwork {
                            network_handle: handle,
                            net_id,
                            is_default: false,
                            transports: Vec::new(),
                            capabilities: None,
                            link_properties: None,
                        },
                    ),
                },
            ),
        ),
    }
}

// ---- Packages -------------------------------------------------------------------

/// What a line of a package listing says.
#[verifier::ext_equal]
pub struct AppSaid {
    pub package: Seq<char>,
    pub label: Seq<char>,
    pub uid: u32,
    pub is_system: bool,
}

pub open spec fn app_said(a: InstalledApp) -> AppSaid {
    AppSaid { package: a.package@, label: a.label@, uid: a.uid, is_system: a.is_system }
}

pub open spec fn apps_said(v: Seq<InstalledApp>) -> Seq<AppSaid> {
    v.map_values(|a: InstalledApp| app_said(a))
}

/// The application of a line: uid, whether it is of the system, package and
/// label, with a tab between each two. A label may hold tabs, and an empty one
/// is the package.
pub open spec fn package_line(line: Seq<char>) -> Option<AppSaid> {
    match split_once(line, '\t') {
        None => None,
        Some((uid, rest)) => match (unsigned(uid, u32::MAX as nat), split_once(rest, '\t')) {
            (Some(uid), Some((system, rest))) => {
                let (package, label) = match split_once(rest, '\t') {
                    Some((package, label)) => (
                        package,
                        if label.len() == 0 {
                            package
                        } else {
                            label
                        },
                    ),
                    None => (rest, rest),
                };
                Some(AppSaid { package, label, uid: uid as u32, is_system: system == "1"@ })
            },
            _ => None,
        },
    }
}

/// The applications of a listing, in its order. A broken line drops only
/// itself.
pub open spec fn package_lines(ls: Seq<Seq<char>>) -> Seq<AppSaid>
    decreases ls.len(),
{
    if ls.len() == 0 {
        Seq::empty()
    } else {
        let before = package_lines(ls.drop_last());
        match package_line(ls.last()) {
            Some(a) => before.push(a),
            None => before,
        }
    }
}

fn parse_package_line(line: &str) -> (r: Option<InstalledApp>)
    ensures
        match r {
            Some(a) => package_line(line@) == Some(app_said(a)),
            None => package_line(line@) is None,
        },
{
    let (uid, rest) = match split_text_once(line, '\t') {
        Some(p) => p,
        None => {
            return None;
        },
    };
    let uid = match parse_u32(uid.as_str()) {
        Some(n) => n,
        None => {
            return None;
        },
    };
    let (system, rest) = match split_text_once(rest.as_str(), '\t') {
        Some(p) => p,
        None => {
            return None;
        },
    };
    let is_system = same(system.as_str(), "1");
    let (package, label) = match split_text_once(rest.as_str(), '\t') {
        Some((package, label)) => {
            let shown = if is_empty(label.as_str()) {
                package.clone()
            } else {
                label
            };
            (package, shown)
        },
        None => (rest.clone(), rest),
    };
    let a = InstalledApp { package, label, uid, is_system };
    assert(package_line(line@)->0 =~= app_said(a));
    Some(a)
}

fn parse_package_lines(listing: &str) -> (r: Vec<InstalledApp>)
    ensures
        apps_said(r@) == package_lines(lines(listing@)),
{
    let ls = lines_of(listing);
    let ghost all = lines(listing@);
    let mut r: Vec<InstalledApp> = Vec::new();
    let mut i: usize = 0;
    assert(apps_said(r@) =~= package_lines(all.take(0)));
    while i < ls.len()
        invariant
            i <= ls.len(),
            texts(ls@) == all,
            apps_said(r@) == package_lines(all.take(i as int)),
        decreases ls.len() - i,
    {
        assert(all.len() == ls.len());
        assert(all.take(i + 1).drop_last() =~= all.take(i as int));
        assert(all.take(i + 1).last() == ls@[i as int]@);
        let ghost before = apps_said(r@);
        if let Some(a) = parse_package_line(ls[i].as_str()) {
            let ghost said = app_said(a);
            r.push(a);
            assert(apps_said(r@) =~= before.push(said));
        }
        i += 1;
    }
    assert(all.take(ls.len() as int) =~= all);
    r
}

/// User apps first, then those of the system, each by label without regard to
/// case.
pub open spec fn said_before() -> spec_fn(AppSaid, AppSaid) -> bool {
    |a: AppSaid, b: AppSaid|
        if a.is_system != b.is_system {
            b.is_system
        } else {
            precedes(lowercase(a.label), lowercase(b.label))
        }
}

pub open spec fn app_before() -> spec_fn(InstalledApp, InstalledApp) -> bool {
    |a: InstalledApp, b: InstalledApp| said_before()(app_said(a), app_said(b))
}

fn app_precedes(a: &InstalledApp, b: &InstalledApp) -> (r: bool)
    ensures
        r == app_before()(*a, *b),
{
    if a.is_system != b.is_system {
        b.is_system
    } else {
        let x = to_lowercase(a.label.as_str());
        let y = to_lowercase(b.label.as_str());
        text_precedes(x.as_str(), y.as_str())
    }
}

proof fn lemma_insert_said(s: Seq<InstalledApp>, x: InstalledApp)
    ensures
        apps_said(insert_by(s, x, app_before())) == insert_by(apps_said(s), app_said(x), said_before()),
    decreases s.len(),
{
    let t = apps_said(s);
    if s.len() > 0 && app_before()(x, s.last()) {
        lemma_insert_said(s.drop_last(), x);
        assert(apps_said(s.drop_last()) =~= t.drop_last());
        assert(apps_said(insert_by(s, x, app_before())) =~= insert_by(t, app_said(x), said_before()));
    } else {
        assert(apps_said(s.push(x)) =~= t.push(app_said(x)));
    }
}

proof fn lemma_sort_said(s: Seq<InstalledApp>)
    ensures
        apps_said(sort_by(s, app_before())) == sort_by(apps_said(s), said_before()),
    decreases s.len(),
{
    if s.len() == 0 {
        assert(apps_said(sort_by(s, app_before())) =~= sort_by(apps_said(s), said_before()));
    } else {
        assert(apps_said(s).drop_last() =~= apps_said(s.drop_last()));
        lemma_sort_said(s.drop_last());
        lemma_insert_said(sort_by(s.drop_last(), app_before()), s.last());
    }
}

/// The applications of a listing, one per line, as uid, whether it is of the
/// system, package and label. Malformed lines are skipped rather than failing
/// the whole list. User apps come first, then those of the system, each by
/// label.
pub fn parse_packages(listing: &str) -> (r: Vec<InstalledApp>)
    ensures
        apps_said(r@) == sort_by(package_lines(lines(listing@)), said_before()),
{
    let apps = parse_package_lines(listing);
    proof {
        lemma_sort_said(apps@);
    }
    stable_sort(apps, app_precedes, Ghost(app_before()))
}

// ---- The framework snapshot -----------------------------------------------------

/// The field at a place of a line, or an empty one.
pub open spec fn at(fields: Seq<Seq<char>>, i: int) -> Seq<char> {
    if 0 <= i < fields.len() {
        fields[i]
    } else {
        Seq::empty()
    }
}

fn field_at(fields: &Vec<String>, i: usize) -> (r: String)
    ensures
        r@ == at(texts(fields@), i as int),
{
    if i < fields.len() {
        fields[i].clone()
    } else {
        String::new()
    }
}

/// The transport with a name of the shim. The others have no value in the
/// protocol.
pub open spec fn named_transport(name: Seq<char>) -> Option<Transport> {
    if name == "CELLULAR"@ {
        Some(Transport::Cellular)
    } else if name == "WIFI"@ {
        Some(Transport::Wifi)
    } else if name == "BLUETOOTH"@ {
        Some(Transport::Bluetooth)
    } else if name == "ETHERNET"@ {
        Some(Transport::Ethernet)
    } else if name == "VPN"@ {
        Some(Transport::Vpn)
    } else if name == "USB"@ {
        Some(Transport::Usb)
    } else {
        None
    }
}

pub fn transport(name: &str) -> (r: Option<Transport>)
    ensures
        r == named_transport(name@),
{
    if same(name, "CELLULAR") {
        Some(Transport::Cellular)
    } else if same(name, "WIFI") {
        Some(Transport::Wifi)
    } else if same(name, "BLUETOOTH") {
        Some(Transport::Bluetooth)
    } else if same(name, "ETHERNET") {
        Some(Transport::Ethernet)
    } else if same(name, "VPN") {
        Some(Transport::Vpn)
    } else if same(name, "USB") {
        Some(Transport::Usb)
    } else {
        None
    }
}

pub open spec fn named_transports(names: Seq<Seq<char>>) -> Seq<Transport>
    decreases names.len(),
{
    if names.len() == 0 {
        Seq::empty()
    } else {
        let before = named_transports(names.drop_last());
        match named_transport(names.last()) {
            Some(t) => before.push(t),
            None => before,
        }
    }
}

fn parse_transports(list: &str) -> (r: Vec<Transport>)
    ensures
        r@ == named_transports(split(list@, ',')),
{
    let names = split_text(list, ',');
    let ghost all = split(list@, ',');
    let mut r: Vec<Transport> = Vec::new();
    let mut i: usize = 0;
    assert(r@ =~= named_transports(all.take(0)));
    while i < names.len()
        invariant
            i <= names.len(),
            texts(names@) == all,
            r@ == named_transports(all.take(i as int)),
        decreases names.len() - i,
    {
        assert(all.len() == names.len());
        assert(all.take(i + 1).drop_last() =~= all.take(i as int));
        assert(all.take(i + 1).last() == names@[i as int]@);
        if let Some(t) = transport(names[i].as_str()) {
            r.push(t);
        }
        i += 1;
    }
    assert(all.take(names.len() as int) =~= all);
    r
}

/// Whether capabilities are those in a list of names.
pub open spec fn capabilities_named(c: NetworkCapabilitiesInfo, names: Seq<Seq<char>>) -> bool {
    &&& c.internet == names.contains("INTERNET"@)
    &&& c.validated == names.contains("VALIDATED"@)
    &&& c.captive_portal == names.contains("CAPTIVE_PORTAL"@)
    &&& !c.partial_connectivity
    &&& c.not_restricted == names.contains("NOT_RESTRICTED"@)
    &&& c.not_metered == names.contains("NOT_METERED"@)
    &&& c.not_roaming == names.contains("NOT_ROAMING"@)
    &&& c.not_congested == names.contains("NOT_CONGESTED"@)
    &&& c.not_suspended == names.contains("NOT_SUSPENDED"@)
    &&& c.not_vpn == names.contains("NOT_VPN"@)
    &&& c.trusted == names.contains("TRUSTED"@)
    &&& c.foreground == names.contains("FOREGROUND"@)
    &&& c.vpn_uid_ranges@.len() == 0
}

pub fn capabilities_from(list: &str) -> (r: NetworkCapabilitiesInfo)
    ensures
        capabilities_named(r, split(list@, ',')),
{
    let names = split_text(list, ',');
    NetworkCapabilitiesInfo {
        internet: contains_text(&names, "INTERNET"),
        validated: contains_text(&names, "VALIDATED"),
        captive_portal: contains_text(&names, "CAPTIVE_PORTAL"),
        partial_connectivity: false,
        not_restricted: contains_text(&names, "NOT_RESTRICTED"),
        not_metered: contains_text(&names, "NOT_METERED"),
        not_roaming: contains_text(&names, "NOT_ROAMING"),
        not_congested: contains_text(&names, "NOT_CONGESTED"),
        not_suspended: contains_text(&names, "NOT_SUSPENDED"),
        not_vpn: contains_text(&names, "NOT_VPN"),
        trusted: contains_text(&names, "TRUSTED"),
        foreground: contains_text(&names, "FOREGROUND"),
        vpn_uid_ranges: Vec::new(),
    }
}

/// The address in a text. A link-local IPv6 address comes with a scope
/// (`fe80::1%wlan0`), which is left out first.
pub open spec fn unscoped(text: Seq<char>) -> Option<IpAddr> {
    parse_ip(trim(split(text, '%')[0]))
}

pub fn ip_address(text: &str) -> (r: Option<IpAddress>)
    ensures
        address_ip(r) == unscoped(text@),
        r is Some <==> unscoped(text@) is Some,
{
    let pieces = split_text(text, '%');
    assert(pieces@[0]@ == split(text@, '%')[0]);
    let bare = trim_text(pieces[0].as_str());
    match read_ip(bare.as_str()) {
        Some(ip) => Some(IpAddress::from_ip(ip)),
        None => None,
    }
}

pub open spec fn unscoped_addresses(names: Seq<Seq<char>>) -> Seq<IpAddr>
    decreases names.len(),
{
    if names.len() == 0 {
        Seq::empty()
    } else {
        let before = unscoped_addresses(names.drop_last());
        match unscoped(names.last()) {
            Some(ip) => before.push(ip),
            None => before,
        }
    }
}

/// Whether the messages hold the addresses.
pub open spec fn hold_ips(v: Seq<IpAddress>, ips: Seq<IpAddr>) -> bool {
    v.len() == ips.len() && forall|i: int|
        0 <= i < v.len() ==> (#[trigger] v[i]).ip_of() == Some(ips[i])
}

fn parse_addresses(list: &str) -> (r: Vec<IpAddress>)
    ensures
        hold_ips(r@, unscoped_addresses(split(list@, ','))),
{
    let names = split_text(list, ',');
    let ghost all = split(list@, ',');
    let mut r: Vec<IpAddress> = Vec::new();
    let mut i: usize = 0;
    while i < names.len()
        invariant
            i <= names.len(),
            texts(names@) == all,
            hold_ips(r@, unscoped_addresses(all.take(i as int))),
        decreases names.len() - i,
    {
        assert(all.len() == names.len());
        assert(all.take(i + 1).drop_last() =~= all.take(i as int));
        assert(all.take(i + 1).last() == names@[i as int]@);
        if let Some(a) = ip_address(names[i].as_str()) {
            r.push(a);
        }
        i += 1;
    }
    assert(all.take(names.len() as int) =~= all);
    r
}

pub open spec fn nonempty(names: Seq<Seq<char>>) -> Seq<Seq<char>>
    decreases names.len(),
{
    if names.len() == 0 {
        Seq::empty()
    } else {
        let before = nonempty(names.drop_last());
        if names.last().len() > 0 {
            before.push(names.last())
        } else {
            before
        }
    }
}

fn parse_domains(list: &str) -> (r: Vec<String>)
    ensures
        texts(r@) == nonempty(split(list@, ' ')),
{
    let names = split_text(list, ' ');
    let ghost all = split(list@, ' ');
    let mut r: Vec<String> = Vec::new();
    let mut i: usize = 0;
    assert(texts(r@) =~= nonempty(all.take(0)));
    while i < names.len()
        invariant
            i <= names.len(),
            texts(names@) == all,
            texts(r@) == nonempty(all.take(i as int)),
        decreases names.len() - i,
    {
        assert(all.len() == names.len());
        assert(all.take(i + 1).drop_last() =~= all.take(i as int));
        assert(all.take(i + 1).last() == names@[i as int]@);
        let ghost before = texts(r@);
        if !is_empty(names[i].as_str()) {
            r.push(names[i].clone());
            assert(texts(r@) =~= before.push(names@[i as int]@));
        }
        i += 1;
    }
    assert(all.take(names.len() as int) =~= all);
    r
}

/// How Private DNS is set up: a server's name means strict.
pub open spec fn dns_mode(server: Seq<char>, active: bool) -> PrivateDnsMode {
    if server.len() > 0 {
        PrivateDnsMode::Strict
    } else if active {
        PrivateDnsMode::Opportunistic
    } else {
        PrivateDnsMode::Off
    }
}

/// Whether a network is the one that a line's fields describe, with the handle
/// of the network in use.
pub open spec fn network_told(n: AndroidNetwork, fields: Seq<Seq<char>>, active: u64) -> bool {
    &&& unsigned(at(fields, 1), u64::MAX as nat) == Some(n.network_handle as nat)
    &&& n.net_id == handle_net_id(n.network_handle)
    &&& n.is_default == (n.network_handle != 0 && n.network_handle == active)
    &&& n.transports@ == named_transports(split(at(fields, 2), ','))
    &&& n.capabilities is Some
    &&& capabilities_named(n.capabilities->0, split(at(fields, 3), ','))
    &&& n.link_properties matches Some(lp)
    &&& lp.interface_name@ == at(fields, 4)
    &&& lp.mtu == or(signed(at(fields, 5), i32::MAX as nat), 0)
    &&& lp.private_dns_active == (at(fields, 6) == "1"@)
    &&& lp.private_dns_server_name@ == at(fields, 7)
    &&& lp.private_dns_mode == dns_mode(at(fields, 7), lp.private_dns_active)
    &&& texts(lp.domains@) == nonempty(split(at(fields, 8), ' '))
    &&& hold_ips(lp.dns_servers@, unscoped_addresses(split(at(fields, 9), ',')))
    &&& lp.link_addresses@.len() == 0 && lp.routes@.len() == 0
    &&& lp.validated_private_dns_servers@.len() == 0 && lp.nat64_prefix is None
    &&& lp.captive_portal_api_url@.len() == 0
}

fn parse_network(fields: &Vec<String>, active_handle: u64) -> (r: Option<AndroidNetwork>)
    ensures
        match r {
            Some(n) => network_told(n, texts(fields@), active_handle),
            None => unsigned(at(texts(fields@), 1), u64::MAX as nat) is None,
        },
{
    let first = field_at(fields, 1);
    let handle = match parse_u64(first.as_str()) {
        Some(h) => h,
        None => {
            return None;
        },
    };
    let transports = field_at(fields, 2);
    let capabilities = field_at(fields, 3);
    let interface_name = field_at(fields, 4);
    let mtu = field_at(fields, 5);
    let mtu = match parse_i32(mtu.as_str()) {
        Some(n) => n,
        None => 0,
    };
    let active = field_at(fields, 6);
    let private_dns_active = same(active.as_str(), "1");
    let private_dns_server_name = field_at(fields, 7);
    let domains = field_at(fields, 8);
    let dns = field_at(fields, 9);
    let private_dns_mode = if !is_empty(private_dns_server_name.as_str()) {
        PrivateDnsMode::Strict
    } else if private_dns_active {
        PrivateDnsMode::Opportunistic
    } else {
        PrivateDnsMode::Off
    };
    Some(
        AndroidNetwork {
            network_handle: handle,
            net_id: net_id_of_handle(handle),
            is_default: handle != 0 && handle == active_handle,
            transports: parse_transports(transports.as_str()),
            capabilities: Some(capabilities_from(capabilities.as_str())),
            link_properties: Some(
                LinkPropertiesInfo {
                    interface_name,
                    mtu,
                    link_addresses: Vec::new(),
                    routes: Vec::new(),
                    dns_servers: parse_addresses(dns.as_str()),
                    domains: parse_domains(domains.as_str()),
                    private_dns_mode,
                    private_dns_server_name,
                    private_dns_active,
                    validated_private_dns_servers: Vec::new(),
                    nat64_prefix: None,
                    captive_portal_api_url: String::new(),
                },
            ),
        },
    )
}

/// What the lines of a snapshot say so far: the header, and the networks with
/// the handle of the network in use that stood before each.
#[verifier::ext_equal]
pub struct FrameworkSaid {
    pub header: Option<(int, u64, int)>,
    pub networks: Seq<(Seq<Seq<char>>, u64)>,
}

pub open spec fn handle_in(s: FrameworkSaid) -> u64 {
    match s.header {
        Some((_, handle, _)) => handle,
        None => 0,
    }
}

/// What a header says: the SDK's number, the handle of the network in use and
/// the background restriction. A format this code does not know is refused
/// rather than misread.
pub open spec fn header_of(fields: Seq<Seq<char>>) -> Option<(int, u64, int)> {
    if fields.len() < 5 || fields[1] != "1"@ {
        None
    } else {
        match (signed(fields[2], i32::MAX as nat), unsigned(fields[3], u64::MAX as nat)) {
            (Some(sdk), Some(handle)) => Some(
                (sdk, handle as u64, or(signed(fields[4], i32::MAX as nat), 0)),
            ),
            _ => None,
        }
    }
}

/// What there is after one more line. A network that cannot be read is skipped.
pub open spec fn after_line(s: FrameworkSaid, line: Seq<char>) -> Option<FrameworkSaid> {
    let fields = split(line, '\t');
    if fields[0] == "V"@ {
        match header_of(fields) {
            Some(h) => Some(FrameworkSaid { header: Some(h), ..s }),
            None => None,
        }
    } else if fields[0] == "N"@ && unsigned(at(fields, 1), u64::MAX as nat) is Some {
        Some(FrameworkSaid { networks: s.networks.push((fields, handle_in(s))), ..s })
    } else {
        Some(s)
    }
}

pub open spec fn after_lines(ls: Seq<Seq<char>>) -> Option<FrameworkSaid>
    decreases ls.len(),
{
    if ls.len() == 0 {
        Some(FrameworkSaid { header: None, networks: Seq::empty() })
    } else {
        match after_lines(ls.drop_last()) {
            Some(s) => after_line(s, ls.last()),
            None => None,
        }
    }
}

proof fn lemma_refused_stays_refused(ls: Seq<Seq<char>>, i: int)
    requires
        0 <= i <= ls.len(),
        after_lines(ls.take(i)) is None,
    ensures
        after_lines(ls) is None,
    decreases ls.len() - i,
{
    if i < ls.len() {
        assert(ls.take(i + 1).drop_last() =~= ls.take(i));
        lemma_refused_stays_refused(ls, i + 1);
    } else {
        assert(ls.take(i) =~= ls);
    }
}

/// Whether the state is what the lines say.
pub open spec fn framework_told(state: AndroidNetworkState, s: FrameworkSaid) -> bool {
    &&& match s.header {
        Some((sdk, handle, restrict)) => {
            &&& state.sdk_int == sdk
            &&& state.active_network_handle == handle
            &&& state.active_net_id == handle_net_id(handle)
            &&& state.has_active_network == (handle != 0)
            &&& state.restrict_background_status == restrict
            // RESTRICT_BACKGROUND_STATUS_ENABLED
            &&& state.data_saver_enabled == (restrict == 3)
        },
        None => {
            &&& state.sdk_int == 0 && state.active_network_handle == 0 && state.active_net_id == 0
            &&& !state.has_active_network && state.restrict_background_status == 0
            &&& !state.data_saver_enabled
        },
    }
    &&& state.networks@.len() == s.networks.len()
    &&& forall|i: int|
        0 <= i < s.networks.len() ==> network_told(
            #[trigger] state.networks@[i],
            s.networks[i].0,
            s.networks[i].1,
        )
}

fn read_header(fields: &Vec<String>) -> (r: Option<(i32, u64, i32)>)
    ensures
        match r {
            Some((sdk, handle, restrict)) => header_of(texts(fields@)) == Some(
                (sdk as int, handle, restrict as int),
            ),
            None => header_of(texts(fields@)) is None,
        },
{
    let ghost f = texts(fields@);
    if fields.len() < 5 {
        return None;
    }
    assert(f[1] == fields@[1]@ && f[2] == fields@[2]@ && f[3] == fields@[3]@ && f[4] == fields@[4]@);
    if !same(fields[1].as_str(), "1") {
        return None;
    }
    let sdk = match parse_i32(fields[2].as_str()) {
        Some(n) => n,
        None => {
            return None;
        },
    };
    let handle = match parse_u64(fields[3].as_str()) {
        Some(n) => n,
        None => {
            return None;
        },
    };
    let restrict = match parse_i32(fields[4].as_str()) {
        Some(n) => n,
        None => 0,
    };
    Some((sdk, handle, restrict))
}

/// The framework's view from the shim's text: one `V` header line and one `N`
/// line per network, with tabs between the fields. Transports and capabilities
/// arrive as names, never as SDK integers.
///
/// A network that cannot be read is skipped rather than failing the whole
/// snapshot. A missing network degrades the report; a missing report makes the
/// app useless exactly when something is wrong.
pub fn parse_framework_snapshot(text: &str) -> (r: Option<AndroidNetworkState>)
    ensures
        match after_lines(lines(text@)) {
            Some(s) => if s.header is Some {
                r is Some && framework_told(r->0, s)
            } else {
                r is None
            },
            None => r is None,
        },
{
    let ls = lines_of(text);
    let ghost all = lines(text@);
    let mut state = AndroidNetworkState {
        captured_at_unix_ms: now_unix_ms(),
        sdk_int: 0,
        active_network_handle: 0,
        active_net_id: 0,
        has_active_network: false,
        restrict_background_status: 0,
        data_saver_enabled: false,
        networks: Vec::new(),
    };
    let mut seen_header = false;
    let ghost mut said = FrameworkSaid { header: None, networks: Seq::empty() };
    let mut i: usize = 0;
    assert(all.take(0) =~= Seq::<Seq<char>>::empty());
    while i < ls.len()
        invariant
            i <= ls.len(),
            all == lines(text@),
            texts(ls@) == all,
            after_lines(all.take(i as int)) == Some(said),
            framework_told(state, said),
            seen_header == (said.header is Some),
        decreases ls.len() - i,
    {
        assert(all.len() == ls.len());
        assert(all.take(i + 1).drop_last() =~= all.take(i as int));
        assert(all.take(i + 1).last() == ls@[i as int]@);
        let fields = split_text(ls[i].as_str(), '\t');
        let ghost f = texts(fields@);
        assert(f[0] == fields@[0]@);
        let ghost before = said;
        if same(fields[0].as_str(), "V") {
            match read_header(&fields) {
                None => {
                    proof {
                        lemma_refused_stays_refused(all, i + 1);
                    }
                    return None;
                },
                Some((sdk, handle, restrict)) => {
                    state.sdk_int = sdk;
                    state.active_network_handle = handle;
                    state.active_net_id = net_id_of_handle(handle);
                    state.has_active_network = handle != 0;
                    state.restrict_background_status = restrict;
                    state.data_saver_enabled = restrict == 3;
                    seen_header = true;
                    proof {
                        said = FrameworkSaid {
                            header: Some((sdk as int, handle, restrict as int)),
                            ..said
                        };
                    }
                },
            }
        } else if same(fields[0].as_str(), "N") {
            proof {
                reveal_strlit("V");
                reveal_strlit("N");
            }
            if let Some(network) = parse_network(&fields, state.active_network_handle) {
                let ghost shown = state.networks@;
                state.networks.push(network);
                proof {
                    said = FrameworkSaid {
                        networks: said.networks.push((f, handle_in(said))),
                        ..said
                    };
                    assert forall|k: int| 0 <= k < said.networks.len() implies network_told(
                        #[trigger] state.networks@[k],
                        said.networks[k].0,
                        said.networks[k].1,
                    ) by {
                        if k < shown.len() {
                            assert(state.networks@[k] == shown[k]);
                            assert(said.networks[k] == before.networks[k]);
                        }
                    }
                }
            }
        }
        i += 1;
    }
    assert(all.take(ls.len() as int) =~= all);
    if seen_header {
        Some(state)
    } else {
        None
    }
}

/// Listed packages are all the applications that could be read, those of the
/// user before those of the system.
pub proof fn law_user_apps_come_first(apps: Seq<AppSaid>)
    ensures
        in_order(sort_by(apps, said_before()), said_before()),
        sort_by(apps, said_before()).to_multiset() == apps.to_multiset(),
        forall|i: int, j: int|
            0 <= i < j < apps.len() ==> ((#[trigger] sort_by(apps, said_before())[i]).is_system ==> (
            #[trigger] sort_by(apps, said_before())[j]).is_system),
{
    let p = said_before();
    assert forall|a: AppSaid, b: AppSaid| #![trigger p(a, b)] p(a, b) implies !p(b, a) by {
        lemma_precedes_total(lowercase(a.label), lowercase(b.label));
    }
    assert forall|a: AppSaid, b: AppSaid, c: AppSaid|
        #![trigger p(a, b), p(b, c)]
        !p(a, b) && !p(b, c) implies !p(a, c) by {
        let (x, y, z) = (lowercase(a.label), lowercase(b.label), lowercase(c.label));
        lemma_precedes_total(x, y);
        lemma_precedes_total(y, z);
        lemma_precedes_total(x, z);
        if precedes(z, y) && precedes(y, x) {
            lemma_precedes_transitive(z, y, x);
        }
    }
    law_sort_by(apps, p);
    let r = sort_by(apps, p);
    assert forall|i: int, j: int|
        0 <= i < j < apps.len() && (#[trigger] r[i]).is_system implies (#[trigger] r[j]).is_system by {
        assert(!p(r[j], r[i]));
    }
}

/// A snapshot of another format version is refused, wherever its header stands,
/// rather than misread.
pub proof fn law_other_versions_are_refused(ls: Seq<Seq<char>>, i: int)
    requires
        0 <= i < ls.len(),
        split(ls[i], '\t')[0] == "V"@,
        split(ls[i], '\t').len() > 1 ==> split(ls[i], '\t')[1] != "1"@,
    ensures
        after_lines(ls) is None,
{
    assert(ls.take(i + 1).drop_last() =~= ls.take(i));
    assert(ls.take(i + 1).last() == ls[i]);
    lemma_refused_stays_refused(ls, i + 1);
}

/// A line of a package listing that cannot be read drops only itself.
pub proof fn law_broken_line_drops_only_itself(
    before: Seq<Seq<char>>,
    broken: Seq<char>,
    after: Seq<Seq<char>>,
)
    requires
        package_line(broken) is None,
    ensures
        package_lines(before + seq![broken] + after) == package_lines(before + after),
    decreases after.len(),
{
    let with = before + seq![broken] + after;
    let without = before + after;
    if after.len() == 0 {
        assert(with.drop_last() =~= without);
    } else {
        law_broken_line_drops_only_itself(before, broken, after.drop_last());
        assert(with.drop_last() =~= before + seq![broken] + after.drop_last());
        assert(without.drop_last() =~= before + after.drop_last());
    }
}

} // verus!
