//! Building what the screens show from the daemon's responses.
use vstd::prelude::*;

use crate::capture::{empty_summary, flag_names, flags_said, nothing_said, packet_said, PacketSaid};
use crate::correlate::{as_signed, signed_of};
use crate::diag::state::{network_of, resolve_network};
use crate::format::{
    bytes, check_status, chip, chip_said, clock_text, field, field_prose, field_said, field_status,
    ip, link_kind_label, link_kind_text, marked_said, prefix, prefix_text, prose_said, route_line,
    route_text, rule_line, rule_text, severity_label, severity_status, severity_text, size_text,
    socket_status, socket_tuple, status_of, status_of_severity, status_of_state, tcp_state_label,
    tcp_state_text, time_of_day, transport_label, transport_text, tuple_text,
};
use crate::proto::{
    AndroidNetwork, AndroidNetworkState, AppNetworkState, CapturedPacket, Check, DiagnoseResponse,
    EventSeverity, EventSource, Finding, Interface, IpAddress, LinkAddress, NetworkEvent,
    PacketSummary, Route, RouteLookup, RoutingRule, Snapshot, Socket, TcpState, Transport,
    UidRoutingPath, VpnAssessment,
};
use crate::seqs::{
    collect_map, collect_some, distinct_ascending, first, how_many, law_sort_by, ordered, picked,
    sort_by, sort_dedup,
};
use crate::text::{
    copy_texts, dec, dec_string, is_empty, join, join_texts, lemma_precedes_total,
    lemma_precedes_transitive, map_texts, one_line, paragraphs, paragraphs_of, precedes, sdec,
    sdec_string, some_texts, text_precedes, texts, told,
};
use crate::textmap::{lemma_key_has_pair, lemma_last_pair, TextMap};
use crate::ui::{
    check_row_says, chips_said, fields_said, finding_row_says, interface_rows_said, socket_row_says,
    socket_rows_said, table_rows_said, AppDetailData, AppDetailDataSaid, CaptureData, CheckRow,
    CheckRowSaid, ChipData, ChipDataSaid, DiagnosisData, DiagnosisDataSaid, EventRow, EventRowSaid,
    Field, FieldSaid, FindingRow, FindingRowSaid, InterfaceRow, InterfaceRowSaid, OverviewData,
    OverviewDataSaid, PacketRow, PacketRowSaid, RouteTableRow, RouteTableRowSaid, SocketRow,
    SocketRowSaid, SocketsData, Status,
};
use crate::util::{hex_pairs, hex_pairs_text};

verus! {

// ---- Overview ---------------------------------------------------------------

/// The names of transports. A number without a name is left out.
pub open spec fn transport_texts(list: Seq<Transport>) -> Seq<Seq<char>>
    decreases list.len(),
{
    if list.len() == 0 {
        Seq::empty()
    } else {
        let before = transport_texts(list.drop_last());
        match list.last() {
            Transport::Other(_) => before,
            t => before.push(transport_text(t)),
        }
    }
}

fn transport_names(list: &Vec<Transport>) -> (r: Vec<String>)
    ensures
        texts(r@) == transport_texts(list@),
{
    let mut r: Vec<String> = Vec::new();
    let mut i: usize = 0;
    assert(texts(r@) =~= transport_texts(list@.take(0)));
    while i < list.len()
        invariant
            i <= list.len(),
            texts(r@) == transport_texts(list@.take(i as int)),
        decreases list.len() - i,
    {
        let ghost before = texts(r@);
        assert(list@.take(i + 1).drop_last() =~= list@.take(i as int));
        let t = list[i];
        match t {
            Transport::Other(_) => {},
            _ => {
                r.push(String::from_str(transport_label(t)));
                assert(texts(r@) =~= before.push(transport_text(t)));
            },
        }
        i += 1;
    }
    assert(list@.take(list.len() as int) =~= list@);
    r
}

/// The network that the framework uses.
pub open spec fn active_network(android: Option<AndroidNetworkState>) -> Option<AndroidNetwork> {
    match android {
        Some(state) => network_of(state.networks@, state.active_net_id),
        None => None,
    }
}

fn find_active(android: &Option<AndroidNetworkState>) -> (r: Option<&AndroidNetwork>)
    ensures
        match r {
            Some(n) => active_network(*android) == Some(*n),
            None => active_network(*android) is None,
        },
{
    match android {
        Some(state) => resolve_network(&state.networks, state.active_net_id),
        None => None,
    }
}

/// What the chips say of the network in use.
pub open spec fn framework_chips(active: Option<AndroidNetwork>) -> Seq<ChipDataSaid> {
    match active {
        None => seq![chip_said("NO FRAMEWORK STATE"@, Status::Skip)],
        Some(n) => {
            let caps = n.capabilities;
            let validated = caps is Some && (caps->0).validated;
            let unmetered = caps is Some && (caps->0).not_metered;
            let a = seq![
                if validated {
                    chip_said("VALIDATED"@, Status::Pass)
                } else {
                    chip_said("NOT VALIDATED"@, Status::Warn)
                },
                if unmetered {
                    chip_said("UNMETERED"@, Status::Pass)
                } else {
                    chip_said("METERED"@, Status::Info)
                },
            ];
            let b = if caps is Some && (caps->0).captive_portal {
                a.push(chip_said("PORTAL"@, Status::Fail))
            } else {
                a
            };
            let c = if n.transports@.contains(Transport::Vpn) {
                b.push(chip_said("VPN"@, Status::Info))
            } else {
                b
            };
            if caps is Some && (caps->0).internet {
                c.push(chip_said("INTERNET"@, Status::Pass))
            } else {
                c
            }
        },
    }
}

fn add_chip(v: &mut Vec<ChipData>, text: &str, status: Status)
    ensures
        chips_said(final(v)@) == chips_said(old(v)@).push(chip_said(text@, status)),
{
    let ghost before = chips_said(v@);
    v.push(chip(text, status));
    assert(chips_said(v@) =~= before.push(chip_said(text@, status)));
}

fn add_field(v: &mut Vec<Field>, f: Field)
    ensures
        fields_said(final(v)@) == fields_said(old(v)@).push(f.said()),
{
    let ghost before = fields_said(v@);
    v.push(f);
    assert(fields_said(v@) =~= before.push(f.said()));
}

fn is_vpn_network(list: &Vec<Transport>) -> (r: bool)
    ensures
        r == list@.contains(Transport::Vpn),
{
    let mut i: usize = 0;
    while i < list.len()
        invariant
            i <= list.len(),
            forall|k: int| 0 <= k < i ==> #[trigger] list@[k] != Transport::Vpn,
        decreases list.len() - i,
    {
        if list[i] == Transport::Vpn {
            return true;
        }
        i += 1;
    }
    false
}

fn show_framework(active: Option<&AndroidNetwork>) -> (r: Vec<ChipData>)
    ensures
        chips_said(r@) == match active {
            Some(n) => framework_chips(Some(*n)),
            None => framework_chips(None),
        },
{
    let mut r: Vec<ChipData> = Vec::new();
    assert(chips_said(r@) =~= Seq::empty());
    match active {
        None => add_chip(&mut r, "NO FRAMEWORK STATE", Status::Skip),
        Some(n) => {
            let (validated, unmetered, portal, internet) = match &n.capabilities {
                Some(c) => (c.validated, c.not_metered, c.captive_portal, c.internet),
                None => (false, false, false, false),
            };
            if validated {
                add_chip(&mut r, "VALIDATED", Status::Pass);
            } else {
                add_chip(&mut r, "NOT VALIDATED", Status::Warn);
            }
            if unmetered {
                add_chip(&mut r, "UNMETERED", Status::Pass);
            } else {
                add_chip(&mut r, "METERED", Status::Info);
            }
            if portal {
                add_chip(&mut r, "PORTAL", Status::Fail);
            }
            if is_vpn_network(&n.transports) {
                add_chip(&mut r, "VPN", Status::Info);
            }
            if internet {
                add_chip(&mut r, "INTERNET", Status::Pass);
            }
        },
    }
    assert(chips_said(r@) =~= match active {
        Some(n) => framework_chips(Some(*n)),
        None => framework_chips(None),
    });
    r
}

/// Whether a network is not the one in use.
pub open spec fn is_not(active: Option<i32>) -> spec_fn(AndroidNetwork) -> bool {
    |n: AndroidNetwork| Some(n.net_id) != active
}

/// A network in a line.
pub open spec fn network_text() -> spec_fn(AndroidNetwork) -> Seq<char> {
    |n: AndroidNetwork|
        {
            let name = match n.link_properties {
                Some(lp) => lp.interface_name@,
                None => ""@,
            };
            "netId "@ +
                sdec(n.net_id as int) +
                "  "@ +
                join(transport_texts(n.transports@), "+"@) +
                "  "@ +
                name
        }
}

fn network_line(n: &AndroidNetwork) -> (r: String)
    ensures
        told()(r) == network_text()(*n),
{
    let id = sdec_string(n.net_id as i64);
    let transports = join_texts(&transport_names(&n.transports), "+");
    let name = match &n.link_properties {
        Some(lp) => lp.interface_name.clone(),
        None => String::from_str(""),
    };
    String::from_str("netId ")
        .concat(id.as_str())
        .concat("  ")
        .concat(transports.as_str())
        .concat("  ")
        .concat(name.as_str())
}

pub open spec fn id_of(n: Option<AndroidNetwork>) -> Option<i32> {
    match n {
        Some(n) => Some(n.net_id),
        None => None,
    }
}

/// The networks that are not in use, each in a line.
pub open spec fn other_network_texts(android: Option<AndroidNetworkState>) -> Seq<Seq<char>> {
    match android {
        Some(state) => state.networks@.filter(is_not(id_of(active_network(android)))).map_values(
            network_text(),
        ),
        None => Seq::empty(),
    }
}

fn show_other_networks(android: &Option<AndroidNetworkState>, active: Option<i32>) -> (r: Vec<String>)
    requires
        active == id_of(active_network(*android)),
    ensures
        texts(r@) == other_network_texts(*android),
{
    match android {
        None => {
            let r: Vec<String> = Vec::new();
            assert(texts(r@) =~= other_network_texts(*android));
            r
        },
        Some(state) => {
            let other = |n: &AndroidNetwork| -> (b: bool)
                ensures
                    b == is_not(active)(*n),
                {
                    match active {
                        Some(id) => n.net_id != id,
                        None => true,
                    }
                };
            let limit = state.networks.len();
            let r = some_texts(
                &state.networks,
                other,
                network_line,
                limit,
                Ghost(is_not(active)),
                Ghost(network_text()),
            );
            proof {
                crate::seqs::lemma_filter_any(state.networks@, is_not(active));
            }
            r
        },
    }
}

pub open spec fn is_default_route() -> spec_fn(Route) -> bool {
    |r: Route| r.is_default
}

/// A default route in a line, with its table.
pub open spec fn default_text() -> spec_fn(Route) -> Seq<char> {
    |r: Route| route_text(r) + " table "@ + dec(r.table as nat)
}

fn default_line(r: &Route) -> (line: String)
    ensures
        told()(line) == default_text()(*r),
{
    let text = route_line(r);
    let table = dec_string(r.table as u64);
    String::from_str(text.as_str()).concat(" table ").concat(table.as_str())
}

/// The default routes of all tables.
pub open spec fn default_texts(routes: Seq<Route>) -> Seq<Seq<char>> {
    let lines = routes.filter(is_default_route()).map_values(default_text());
    if lines.len() == 0 {
        seq!["no default route in any table"@]
    } else {
        lines
    }
}

fn show_defaults(routes: &Vec<Route>) -> (r: Vec<String>)
    ensures
        texts(r@) == default_texts(routes@),
{
    let default = |r: &Route| -> (b: bool)
        ensures
            b == is_default_route()(*r),
        { r.is_default };
    let limit = routes.len();
    let mut r = some_texts(
        routes,
        default,
        default_line,
        limit,
        Ghost(is_default_route()),
        Ghost(default_text()),
    );
    proof {
        crate::seqs::lemma_filter_any(routes@, is_default_route());
    }
    let ghost lines = routes@.filter(is_default_route()).map_values(default_text());
    assert(texts(r@).len() == r.len());
    if r.len() == 0 {
        r.push(String::from_str("no default route in any table"));
    }
    assert(texts(r@) =~= default_texts(routes@));
    r
}

pub open spec fn address_text() -> spec_fn(IpAddress) -> Seq<char> {
    |a: IpAddress| a.text()
}

fn address_line(a: &IpAddress) -> (r: String)
    ensures
        told()(r) == address_text()(*a),
{
    ip(a)
}

/// The addresses, with a comma between each two.
pub open spec fn address_list(v: Seq<IpAddress>) -> Seq<char> {
    join(v.map_values(address_text()), ", "@)
}

fn show_addresses(v: &Vec<IpAddress>) -> (r: String)
    ensures
        r@ == address_list(v@),
{
    let list = map_texts(v, address_line, Ghost(address_text()));
    join_texts(&list, ", ")
}

/// A text, or a dash for an empty one.
pub open spec fn or_dash(s: Seq<char>) -> Seq<char> {
    if s.len() == 0 {
        "—"@
    } else {
        s
    }
}

fn show_or_dash(s: &str) -> (r: String)
    ensures
        r@ == or_dash(s@),
{
    if is_empty(s) {
        String::from_str("—")
    } else {
        String::from_str(s)
    }
}

/// The first screen.
pub open spec fn overview_said(s: Snapshot) -> OverviewDataSaid {
    let active = active_network(s.android_state);
    let link = match active {
        Some(n) => n.link_properties,
        None => None,
    };
    let transports = match active {
        Some(n) => transport_texts(n.transports@),
        None => Seq::empty(),
    };
    OverviewDataSaid {
        connected: true,
        transport: if transports.len() == 0 {
            "—"@
        } else {
            join(transports, " + "@)
        },
        interface_name: or_dash(
            match link {
                Some(lp) => lp.interface_name@,
                None => ""@,
            },
        ),
        net_id: match active {
            Some(n) => sdec(n.net_id as int),
            None => "—"@,
        },
        dns: match link {
            Some(lp) => address_list(lp.dns_servers@),
            None => address_list(Seq::empty()),
        },
        mtu: match link {
            Some(lp) => if lp.mtu > 0 {
                sdec(lp.mtu as int)
            } else {
                ""@
            },
            None => ""@,
        },
        framework_chips: framework_chips(active),
        other_networks: other_network_texts(s.android_state),
        default_routes: default_texts(s.routes@),
        sockets_line: match s.socket_summary {
            Some(m) => dec(m.total as nat) +
                " total, "@ +
                dec(m.established as nat) +
                " established"@,
            None => ""@,
        },
        clat_line: match s.clat {
            Some(c) => if c.active {
                "active on "@ + c.clat_interface@ + " over "@ + c.base_interface@
            } else {
                ""@
            },
            None => ""@,
        },
        kernel_release: s.kernel_release@,
        collection: dec(s.collection_duration_ms as nat) +
            " ms · "@ +
            dec(s.routes@.len()) +
            " routes · "@ +
            dec(s.rules@.len()) +
            " rules · "@ +
            dec(s.sockets@.len()) +
            " sockets"@,
        warnings: texts(s.collection_warnings@),
    }
}

/// The first screen, from a snapshot.
pub fn overview(snapshot: &Snapshot) -> (r: OverviewData)
    ensures
        r.said() == overview_said(*snapshot),
{
    let active = find_active(&snapshot.android_state);
    let active_id = match active {
        Some(n) => Some(n.net_id),
        None => None,
    };
    let link = match active {
        Some(n) => n.link_properties.as_ref(),
        None => None,
    };
    let transport = match active {
        Some(n) => {
            let names = transport_names(&n.transports);
            assert(texts(names@).len() == names.len());
            if names.len() == 0 {
                String::from_str("—")
            } else {
                join_texts(&names, " + ")
            }
        },
        None => String::from_str("—"),
    };
    let interface_name = match link {
        Some(lp) => show_or_dash(lp.interface_name.as_str()),
        None => show_or_dash(""),
    };
    let net_id = match active {
        Some(n) => sdec_string(n.net_id as i64),
        None => String::from_str("—"),
    };
    let dns = match link {
        Some(lp) => show_addresses(&lp.dns_servers),
        None => {
            let none: Vec<IpAddress> = Vec::new();
            show_addresses(&none)
        },
    };
    let mtu = match link {
        Some(lp) => if lp.mtu > 0 {
            sdec_string(lp.mtu as i64)
        } else {
            String::from_str("")
        },
        None => String::from_str(""),
    };
    let sockets_line = match &snapshot.socket_summary {
        Some(m) => {
            let total = dec_string(m.total as u64);
            let established = dec_string(m.established as u64);
            String::from_str(total.as_str())
                .concat(" total, ")
                .concat(established.as_str())
                .concat(" established")
        },
        None => String::from_str(""),
    };
    let clat_line = match &snapshot.clat {
        Some(c) => if c.active {
            String::from_str("active on ")
                .concat(c.clat_interface.as_str())
                .concat(" over ")
                .concat(c.base_interface.as_str())
        } else {
            String::from_str("")
        },
        None => String::from_str(""),
    };
    let took = dec_string(snapshot.collection_duration_ms);
    let routes = dec_string(snapshot.routes.len() as u64);
    let rules = dec_string(snapshot.rules.len() as u64);
    let sockets = dec_string(snapshot.sockets.len() as u64);
    let collection = String::from_str(took.as_str())
        .concat(" ms · ")
        .concat(routes.as_str())
        .concat(" routes · ")
        .concat(rules.as_str())
        .concat(" rules · ")
        .concat(sockets.as_str())
        .concat(" sockets");
    let r = OverviewData {
        connected: true,
        transport,
        interface_name,
        net_id,
        dns,
        mtu,
        framework_chips: show_framework(active),
        other_networks: show_other_networks(&snapshot.android_state, active_id),
        default_routes: show_defaults(&snapshot.routes),
        sockets_line,
        clat_line,
        kernel_release: snapshot.kernel_release.clone(),
        collection,
        warnings: copy_texts(&snapshot.collection_warnings),
    };
    r
}

/// Whether an interface is up.
pub open spec fn up(i: Interface) -> bool {
    i.flags is Some && (i.flags->0).up
}

fn is_up(i: &Interface) -> (r: bool)
    ensures
        r == up(*i),
{
    match &i.flags {
        Some(f) => f.up,
        None => false,
    }
}

/// The order of interfaces. Those that are down are almost always the
/// platform's dozens of pre-created modem devices; showing them first would
/// bury the two or three that matter.
pub open spec fn interface_before() -> spec_fn(Interface, Interface) -> bool {
    |a: Interface, b: Interface|
        if up(a) != up(b) {
            up(a)
        } else if a.addresses@.len() != b.addresses@.len() {
            a.addresses@.len() > b.addresses@.len()
        } else {
            a.index < b.index
        }
}

fn interface_precedes(a: &Interface, b: &Interface) -> (r: bool)
    ensures
        r == interface_before()(*a, *b),
{
    if is_up(a) != is_up(b) {
        is_up(a)
    } else if a.addresses.len() != b.addresses.len() {
        a.addresses.len() > b.addresses.len()
    } else {
        a.index < b.index
    }
}

/// Whether IPv6 is switched off on an interface.
pub open spec fn ipv6_off(i: Interface) -> bool {
    i.sysctls is Some && (i.sysctls->0).ipv6_disabled
}

pub open spec fn interface_chips(i: Interface) -> Seq<ChipDataSaid> {
    let a = seq![
        if up(i) {
            chip_said("UP"@, Status::Pass)
        } else {
            chip_said("DOWN"@, Status::Skip)
        },
    ];
    let b = if up(i) && !(i.flags->0).running {
        a.push(chip_said("NO CARRIER"@, Status::Warn))
    } else {
        a
    };
    if ipv6_off(i) {
        b.push(chip_said("IPv6 OFF"@, Status::Fail))
    } else {
        b
    }
}

/// The fields of an interface: its counters, its settings and its address.
pub open spec fn interface_fields(i: Interface) -> Seq<FieldSaid> {
    let a = match i.stats {
        Some(s) => {
            let traffic = seq![
                field_said("rx"@, size_text(s.rx_bytes)),
                field_said("tx"@, size_text(s.tx_bytes)),
            ];
            if s.rx_dropped > 0 || s.tx_dropped > 0 {
                traffic.push(
                    marked_said(
                        "dropped"@,
                        "rx "@ +
                            dec(s.rx_dropped as nat) +
                            " / tx "@ +
                            dec(s.tx_dropped as nat),
                        Status::Warn,
                    ),
                )
            } else {
                traffic
            }
        },
        None => Seq::empty(),
    };
    let b = match i.sysctls {
        Some(s) => {
            let off = if s.ipv6_disabled {
                a.push(
                    marked_said("disable_ipv6"@, "1 — IPv6 is off on this interface"@, Status::Fail),
                )
            } else {
                a
            };
            off.push(field_said("accept_ra"@, sdec(s.accept_ra as int)))
        },
        None => a,
    };
    if i.mac_address@.len() > 0 {
        b.push(field_said("mac"@, hex_pairs_text(i.mac_address@)))
    } else {
        b
    }
}

/// The prefixes of addresses, as they are written.
pub open spec fn prefix_texts(list: Seq<LinkAddress>) -> Seq<Seq<char>>
    decreases list.len(),
{
    if list.len() == 0 {
        Seq::empty()
    } else {
        let before = prefix_texts(list.drop_last());
        match list.last().prefix {
            Some(p) => before.push(prefix_text(p)),
            None => before,
        }
    }
}

fn show_prefixes(list: &Vec<LinkAddress>) -> (r: Vec<String>)
    ensures
        texts(r@) == prefix_texts(list@),
{
    let mut r: Vec<String> = Vec::new();
    let mut i: usize = 0;
    assert(texts(r@) =~= prefix_texts(list@.take(0)));
    while i < list.len()
        invariant
            i <= list.len(),
            texts(r@) == prefix_texts(list@.take(i as int)),
        decreases list.len() - i,
    {
        let ghost before = texts(r@);
        assert(list@.take(i + 1).drop_last() =~= list@.take(i as int));
        if let Some(p) = &list[i].prefix {
            r.push(prefix(p));
            assert(texts(r@) =~= before.push(prefix_text(*p)));
        }
        i += 1;
    }
    assert(list@.take(list.len() as int) =~= list@);
    r
}

/// An interface as a row.
pub open spec fn interface_row_said() -> spec_fn(Interface) -> InterfaceRowSaid {
    |i: Interface|
        {
            let addresses = join(prefix_texts(i.addresses@), "  "@);
            InterfaceRowSaid {
                name: i.name@,
                subtitle: link_kind_text(i.kind) +
                    " · index "@ +
                    dec(i.index as nat) +
                    " · MTU "@ +
                    dec(i.mtu as nat),
                addresses: if addresses.len() == 0 {
                    "no addresses"@
                } else {
                    addresses
                },
                chips: interface_chips(i),
                fields: interface_fields(i),
                expanded: false,
            }
        }
}

fn show_interface_chips(i: &Interface) -> (r: Vec<ChipData>)
    ensures
        chips_said(r@) == interface_chips(*i),
{
    let mut r: Vec<ChipData> = Vec::new();
    assert(chips_said(r@) =~= Seq::empty());
    let (is_on, running) = match &i.flags {
        Some(f) => (f.up, f.running),
        None => (false, false),
    };
    if is_on {
        add_chip(&mut r, "UP", Status::Pass);
    } else {
        add_chip(&mut r, "DOWN", Status::Skip);
    }
    if is_on && !running {
        add_chip(&mut r, "NO CARRIER", Status::Warn);
    }
    if let Some(s) = &i.sysctls {
        if s.ipv6_disabled {
            add_chip(&mut r, "IPv6 OFF", Status::Fail);
        }
    }
    assert(chips_said(r@) =~= interface_chips(*i));
    r
}

fn show_interface_fields(i: &Interface) -> (r: Vec<Field>)
    ensures
        fields_said(r@) == interface_fields(*i),
{
    let mut r: Vec<Field> = Vec::new();
    assert(fields_said(r@) =~= Seq::empty());
    if let Some(s) = &i.stats {
        add_field(&mut r, field("rx", bytes(s.rx_bytes)));
        add_field(&mut r, field("tx", bytes(s.tx_bytes)));
        if s.rx_dropped > 0 || s.tx_dropped > 0 {
            let rx = dec_string(s.rx_dropped);
            let tx = dec_string(s.tx_dropped);
            add_field(
                &mut r,
                field_status(
                    "dropped",
                    String::from_str("rx ")
                        .concat(rx.as_str())
                        .concat(" / tx ")
                        .concat(tx.as_str()),
                    Status::Warn,
                ),
            );
        }
    }
    if let Some(s) = &i.sysctls {
        if s.ipv6_disabled {
            add_field(
                &mut r,
                field_status(
                    "disable_ipv6",
                    String::from_str("1 — IPv6 is off on this interface"),
                    Status::Fail,
                ),
            );
        }
        add_field(&mut r, field("accept_ra", sdec_string(s.accept_ra as i64)));
    }
    if i.mac_address.len() > 0 {
        add_field(&mut r, field("mac", hex_pairs(i.mac_address.as_slice())));
    }
    assert(fields_said(r@) =~= interface_fields(*i));
    r
}

fn interface_row(i: &Interface) -> (r: InterfaceRow)
    ensures
        r.said() == interface_row_said()(*i),
{
    let addresses = join_texts(&show_prefixes(&i.addresses), "  ");
    let index = dec_string(i.index as u64);
    let mtu = dec_string(i.mtu as u64);
    InterfaceRow {
        name: i.name.clone(),
        subtitle: String::from_str(link_kind_label(i.kind))
            .concat(" · index ")
            .concat(index.as_str())
            .concat(" · MTU ")
            .concat(mtu.as_str()),
        addresses: if is_empty(addresses.as_str()) {
            String::from_str("no addresses")
        } else {
            addresses
        },
        chips: show_interface_chips(i),
        fields: show_interface_fields(i),
        expanded: false,
    }
}

pub open spec fn every_interface() -> spec_fn(Interface) -> bool {
    |i: Interface| true
}

/// The interfaces as rows: those that are up first, and of those the ones with
/// more addresses.
pub fn interfaces(snapshot: &Snapshot) -> (r: Vec<InterfaceRow>)
    ensures
        interface_rows_said(r@) == sort_by(snapshot.interfaces@, interface_before()).map_values(
            interface_row_said(),
        ),
{
    let all = |i: &Interface| -> (b: bool)
        ensures
            b == every_interface()(*i),
        { true };
    let places = ordered(
        &snapshot.interfaces,
        all,
        interface_precedes,
        Ghost(every_interface()),
        Ghost(interface_before()),
    );
    proof {
        crate::seqs::lemma_filter_all(snapshot.interfaces@, every_interface());
    }
    let ghost sorted = picked(places@, snapshot.interfaces@);
    let mut r: Vec<InterfaceRow> = Vec::new();
    let mut k: usize = 0;
    while k < places.len()
        invariant
            k <= places.len(),
            r.len() == k,
            sorted == picked(places@, snapshot.interfaces@),
            forall|j: int| 0 <= j < places@.len() ==> (#[trigger] places@[j]) < snapshot.interfaces@.len(),
            forall|j: int|
                0 <= j < k ==> (#[trigger] r@[j]).said() == interface_row_said()(sorted[j]),
        decreases places.len() - k,
    {
        r.push(interface_row(&snapshot.interfaces[places[k]]));
        k += 1;
    }
    assert(interface_rows_said(r@) =~= sorted.map_values(interface_row_said()));
    r
}

// ---- Routing ----------------------------------------------------------------

/// A rule with a selector. Android installs hundreds of per-uid rules; these
/// are the ones that define the overall policy.
pub open spec fn has_selector() -> spec_fn(RoutingRule) -> bool {
    |r: RoutingRule| r.has_uid_range || r.has_fwmark
}

pub open spec fn rule_said() -> spec_fn(RoutingRule) -> Seq<char> {
    |r: RoutingRule| rule_text(r)
}

fn say_rule(rule: &RoutingRule) -> (r: String)
    ensures
        told()(r) == rule_said()(*rule),
{
    rule_line(rule)
}

/// The first rules with a selector, each in a line.
pub fn rules(snapshot: &Snapshot, limit: usize) -> (r: Vec<String>)
    ensures
        texts(r@) == first(snapshot.rules@.filter(has_selector()), limit as nat).map_values(
            rule_said(),
        ),
{
    let selects = |r: &RoutingRule| -> (b: bool)
        ensures
            b == has_selector()(*r),
        { r.has_uid_range || r.has_fwmark };
    some_texts(
        &snapshot.rules,
        selects,
        say_rule,
        limit,
        Ghost(has_selector()),
        Ghost(rule_said()),
    )
}

pub open spec fn in_table(table: u32) -> spec_fn(Route) -> bool {
    |r: Route| r.table == table
}

pub open spec fn default_in_table(table: u32) -> spec_fn(Route) -> bool {
    |r: Route| r.table == table && r.is_default
}

pub open spec fn route_said() -> spec_fn(Route) -> Seq<char> {
    |r: Route| route_text(r)
}

fn say_route(route: &Route) -> (r: String)
    ensures
        told()(r) == route_said()(*route),
{
    route_line(route)
}

/// A routing table as a row.
pub open spec fn table_row_said(s: Snapshot) -> spec_fn(u32) -> RouteTableRowSaid {
    |table: u32|
        {
            let routes = s.routes@.filter(in_table(table));
            let defaults = s.routes@.filter(default_in_table(table)).len();
            let name = if s.table_names@.contains_key(table) {
                s.table_names@[table]@
            } else {
                ""@
            };
            RouteTableRowSaid {
                title: if name.len() == 0 {
                    "Table "@ + dec(table as nat)
                } else {
                    "Table "@ + dec(table as nat) + " ("@ + name + ")"@
                },
                subtitle: if defaults > 0 {
                    dec(routes.len()) + " routes, "@ + dec(defaults) + " default"@
                } else {
                    dec(routes.len()) + " routes"@
                },
                lines: first(routes, 24).map_values(route_said()),
            }
        }
}

fn table_row(s: &Snapshot, table: u32) -> (r: RouteTableRow)
    ensures
        r.said() == table_row_said(*s)(table),
{
    broadcast use vstd::std_specs::hash::group_hash_axioms;

    let here = |r: &Route| -> (b: bool)
        ensures
            b == in_table(table)(*r),
        { r.table == table };
    let also = |r: &Route| -> (b: bool)
        ensures
            b == in_table(table)(*r),
        { r.table == table };
    let default = |r: &Route| -> (b: bool)
        ensures
            b == default_in_table(table)(*r),
        { r.table == table && r.is_default };
    let count = how_many(&s.routes, here, Ghost(in_table(table)));
    let defaults = how_many(&s.routes, default, Ghost(default_in_table(table)));
    let lines = some_texts(&s.routes, also, say_route, 24, Ghost(in_table(table)), Ghost(route_said()));
    let name = match s.table_names.get(&table) {
        Some(n) => n.clone(),
        None => String::from_str(""),
    };
    let number = dec_string(table as u64);
    let title = if is_empty(name.as_str()) {
        String::from_str("Table ").concat(number.as_str())
    } else {
        String::from_str("Table ")
            .concat(number.as_str())
            .concat(" (")
            .concat(name.as_str())
            .concat(")")
    };
    let n = dec_string(count as u64);
    let subtitle = if defaults > 0 {
        let d = dec_string(defaults as u64);
        String::from_str(n.as_str())
            .concat(" routes, ")
            .concat(d.as_str())
            .concat(" default")
    } else {
        String::from_str(n.as_str()).concat(" routes")
    };
    RouteTableRow { title, subtitle, lines }
}

pub open spec fn tables_of(routes: Seq<Route>) -> Seq<u32> {
    routes.map_values(|r: Route| r.table)
}

/// The routing tables as rows, by number.
pub fn route_tables(snapshot: &Snapshot) -> (r: Vec<RouteTableRow>)
    ensures
        table_rows_said(r@) == distinct_ascending(tables_of(snapshot.routes@)).map_values(
            table_row_said(*snapshot),
        ),
{
    let mut numbers: Vec<u32> = Vec::new();
    let mut i: usize = 0;
    while i < snapshot.routes.len()
        invariant
            i <= snapshot.routes.len(),
            numbers.len() == i,
            forall|k: int| 0 <= k < i ==> #[trigger] numbers@[k] == snapshot.routes@[k].table,
        decreases snapshot.routes.len() - i,
    {
        numbers.push(snapshot.routes[i].table);
        i += 1;
    }
    assert(numbers@ =~= tables_of(snapshot.routes@));
    let tables = sort_dedup(&numbers);
    let mut r: Vec<RouteTableRow> = Vec::new();
    let mut k: usize = 0;
    while k < tables.len()
        invariant
            k <= tables.len(),
            r.len() == k,
            forall|j: int|
                0 <= j < k ==> (#[trigger] r@[j]).said() == table_row_said(*snapshot)(tables@[j]),
        decreases tables.len() - k,
    {
        r.push(table_row(snapshot, tables[k]));
        k += 1;
    }
    assert(table_rows_said(r@) =~= tables@.map_values(table_row_said(*snapshot)));
    r
}

// ---- Diagnosis --------------------------------------------------------------

/// The order of a check's evidence: by name.
pub open spec fn evidence_before() -> spec_fn((String, String), (String, String)) -> bool {
    |a: (String, String), b: (String, String)| precedes(a.0@, b.0@)
}

fn evidence_precedes(a: &(String, String), b: &(String, String)) -> (r: bool)
    ensures
        r == evidence_before()(*a, *b),
{
    text_precedes(a.0.as_str(), b.0.as_str())
}

pub open spec fn every_pair() -> spec_fn((String, String)) -> bool {
    |e: (String, String)| true
}

/// The evidence of a check as fields.
pub open spec fn evidence_fields(entries: Seq<(String, String)>) -> Seq<FieldSaid> {
    sort_by(entries, evidence_before()).map_values(|e: (String, String)| field_said(e.0@, e.1@))
}

fn show_evidence(entries: &Vec<(String, String)>) -> (r: Vec<Field>)
    ensures
        fields_said(r@) == evidence_fields(entries@),
{
    let all = |e: &(String, String)| -> (b: bool)
        ensures
            b == every_pair()(*e),
        { true };
    let places = ordered(
        entries,
        all,
        evidence_precedes,
        Ghost(every_pair()),
        Ghost(evidence_before()),
    );
    proof {
        crate::seqs::lemma_filter_all(entries@, every_pair());
    }
    let ghost sorted = picked(places@, entries@);
    let mut r: Vec<Field> = Vec::new();
    let mut k: usize = 0;
    while k < places.len()
        invariant
            k <= places.len(),
            r.len() == k,
            sorted == picked(places@, entries@),
            forall|j: int| 0 <= j < places@.len() ==> (#[trigger] places@[j]) < entries@.len(),
            forall|j: int|
                0 <= j < k ==> (#[trigger] r@[j]).said() == field_said(sorted[j].0@, sorted[j].1@),
        decreases places.len() - k,
    {
        let e = &entries[places[k]];
        r.push(field(e.0.as_str(), e.1.clone()));
        k += 1;
    }
    assert(fields_said(r@) =~= evidence_fields(entries@));
    r
}

/// A check as a row.
pub open spec fn check_row_said() -> spec_fn(Check) -> CheckRowSaid {
    |c: Check|
        CheckRowSaid {
            key: c.key@,
            title: if c.title@.len() == 0 {
                c.key@
            } else {
                c.title@
            },
            detail: c.detail@,
            status: status_of(c.status),
            duration: if c.duration_ms > 0 {
                dec(c.duration_ms as nat) + " ms"@
            } else {
                ""@
            },
            evidence: evidence_fields(c.evidence.entries@),
            expanded: false,
        }
}

/// A check as a row.
pub fn check_row(check: &Check) -> (r: CheckRow)
    ensures
        check_row_says()(r) == check_row_said()(*check),
{
    let r = CheckRow {
        key: check.key.clone(),
        title: if is_empty(check.title.as_str()) {
            check.key.clone()
        } else {
            check.title.clone()
        },
        detail: check.detail.clone(),
        status: check_status(check.status),
        duration: if check.duration_ms > 0 {
            let ms = dec_string(check.duration_ms);
            String::from_str(ms.as_str()).concat(" ms")
        } else {
            String::from_str("")
        },
        evidence: show_evidence(&check.evidence.entries),
        expanded: false,
    };
    assert(r.said() =~= check_row_said()(*check));
    r
}

/// A finding as a row. The interpretation is written as prose with blank lines
/// between paragraphs; preserving them is what makes it readable.
pub open spec fn finding_row_said() -> spec_fn(Finding) -> FindingRowSaid {
    |f: Finding|
        FindingRowSaid {
            key: f.key@,
            title: f.title@,
            severity: severity_text(f.severity),
            status: status_of_severity(f.severity),
            confidence: as_signed(f.confidence) as i32,
            paragraphs: paragraphs(f.interpretation@).map_values(|p: Seq<char>| one_line(p)),
            actions: texts(f.suggested_actions@),
            based_on: "based on: "@ + join(texts(f.supporting_checks@), ", "@),
        }
}

/// A finding as a row.
pub fn finding_row(finding: &Finding) -> (r: FindingRow)
    ensures
        finding_row_says()(r) == finding_row_said()(*finding),
{
    let checks = join_texts(&finding.supporting_checks, ", ");
    let r = FindingRow {
        key: finding.key.clone(),
        title: finding.title.clone(),
        severity: String::from_str(severity_label(finding.severity)),
        status: severity_status(finding.severity),
        confidence: signed_of(finding.confidence),
        paragraphs: paragraphs_of(finding.interpretation.as_str()),
        actions: copy_texts(&finding.suggested_actions),
        based_on: String::from_str("based on: ").concat(checks.as_str()),
    };
    assert(r.said() =~= finding_row_said()(*finding));
    r
}

/// How many checks came out how. Only the passes are always shown.
pub open spec fn count_chips(r: DiagnoseResponse) -> Seq<ChipDataSaid> {
    let a = seq![chip_said(dec(r.passed as nat) + " pass"@, Status::Pass)];
    let b = if r.failed > 0 {
        a.push(chip_said(dec(r.failed as nat) + " fail"@, Status::Fail))
    } else {
        a
    };
    let c = if r.warned > 0 {
        b.push(chip_said(dec(r.warned as nat) + " warn"@, Status::Warn))
    } else {
        b
    };
    if r.skipped > 0 {
        c.push(chip_said(dec(r.skipped as nat) + " skip"@, Status::Skip))
    } else {
        c
    }
}

fn add_count(v: &mut Vec<ChipData>, n: u32, word: &str, status: Status)
    ensures
        chips_said(final(v)@) == chips_said(old(v)@).push(
            chip_said(dec(n as nat) + word@, status),
        ),
{
    let count = dec_string(n as u64);
    let text = String::from_str(count.as_str()).concat(word);
    add_chip(v, text.as_str(), status);
}

/// The diagnosis screen, when a diagnosis is done.
pub open spec fn diagnosis_said(r: DiagnoseResponse) -> DiagnosisDataSaid {
    DiagnosisDataSaid {
        running: false,
        summary: r.summary@,
        counts: count_chips(r),
        checks: r.checks@.map_values(check_row_said()),
        findings: r.findings@.map_values(finding_row_said()),
    }
}

/// The diagnosis screen, from a report.
pub fn diagnosis(response: &DiagnoseResponse) -> (r: DiagnosisData)
    ensures
        r.said() == diagnosis_said(*response),
{
    let mut counts: Vec<ChipData> = Vec::new();
    assert(chips_said(counts@) =~= Seq::empty());
    add_count(&mut counts, response.passed, " pass", Status::Pass);
    if response.failed > 0 {
        add_count(&mut counts, response.failed, " fail", Status::Fail);
    }
    if response.warned > 0 {
        add_count(&mut counts, response.warned, " warn", Status::Warn);
    }
    if response.skipped > 0 {
        add_count(&mut counts, response.skipped, " skip", Status::Skip);
    }
    assert(chips_said(counts@) =~= count_chips(*response));
    let checks = collect_map::<Check, CheckRow, CheckRowSaid, _>(
        &response.checks,
        check_row,
        Ghost(check_row_says()),
        Ghost(check_row_said()),
    );
    let findings = collect_map::<Finding, FindingRow, FindingRowSaid, _>(
        &response.findings,
        finding_row,
        Ghost(finding_row_says()),
        Ghost(finding_row_said()),
    );
    DiagnosisData { running: false, summary: response.summary.clone(), counts, checks, findings }
}

/// The diagnosis screen before there is a report.
pub fn empty_diagnosis(running: bool) -> (r: DiagnosisData)
    ensures
        r.running == running,
        r.summary@ == if running {
            "Running checks…"@
        } else {
            ""@
        },
        r.counts@.len() == 0,
        r.checks@.len() == 0,
        r.findings@.len() == 0,
{
    DiagnosisData {
        running,
        summary: String::from_str(
            if running {
                "Running checks…"
            } else {
                ""
            },
        ),
        counts: Vec::new(),
        checks: Vec::new(),
        findings: Vec::new(),
    }
}

/// The first screen before there is a snapshot.
pub fn empty_overview() -> (r: OverviewData)
    ensures
        !r.connected,
        r.transport@ == "—"@ && r.interface_name@ == "—"@ && r.net_id@ == "—"@,
        r.dns@ == ""@ && r.mtu@ == ""@ && r.sockets_line@ == ""@ && r.clat_line@ == ""@,
        r.kernel_release@ == ""@ && r.collection@ == ""@,
        r.framework_chips@.len() == 0 && r.other_networks@.len() == 0,
        r.default_routes@.len() == 0 && r.warnings@.len() == 0,
{
    OverviewData {
        connected: false,
        transport: String::from_str("—"),
        interface_name: String::from_str("—"),
        net_id: String::from_str("—"),
        dns: String::from_str(""),
        mtu: String::from_str(""),
        framework_chips: Vec::new(),
        other_networks: Vec::new(),
        default_routes: Vec::new(),
        sockets_line: String::from_str(""),
        clat_line: String::from_str(""),
        kernel_release: String::from_str(""),
        collection: String::from_str(""),
        warnings: Vec::new(),
    }
}

// ---- Sockets ----------------------------------------------------------------

/// A socket as a row. Retransmits are the cheapest signal that a socket is
/// connected but the path is not carrying its packets.
pub open spec fn socket_row_said(s: Socket, owner: Seq<char>) -> SocketRowSaid {
    let net = if s.has_mark && s.net_id != 0 {
        "  netId "@ + dec(s.net_id as nat)
    } else {
        ""@
    };
    let device = if s.interface_name@.len() == 0 {
        ""@
    } else {
        "  "@ + s.interface_name@
    };
    let again = if s.retransmits != 0 {
        "  "@ + dec(s.retransmits as nat) + " retx"@
    } else {
        ""@
    };
    SocketRowSaid {
        state: tcp_state_text(s.state),
        status: status_of_state(s.state),
        tuple: tuple_text(s),
        meta: "uid "@ + dec(s.uid as nat) + net + device + again,
        owner,
    }
}

/// One socket row, shared by the sockets screen and the per-app detail.
pub fn socket_row(socket: &Socket, owner: String) -> (r: SocketRow)
    ensures
        r.said() == socket_row_said(*socket, owner@),
{
    let uid = dec_string(socket.uid as u64);
    let net = if socket.has_mark && socket.net_id != 0 {
        let id = dec_string(socket.net_id as u64);
        String::from_str("  netId ").concat(id.as_str())
    } else {
        String::from_str("")
    };
    let device = if is_empty(socket.interface_name.as_str()) {
        String::from_str("")
    } else {
        String::from_str("  ").concat(socket.interface_name.as_str())
    };
    let again = if socket.retransmits != 0 {
        let n = dec_string(socket.retransmits as u64);
        String::from_str("  ").concat(n.as_str()).concat(" retx")
    } else {
        String::from_str("")
    };
    SocketRow {
        state: String::from_str(tcp_state_label(socket.state)),
        status: socket_status(socket.state),
        tuple: socket_tuple(socket),
        meta: String::from_str("uid ")
            .concat(uid.as_str())
            .concat(net.as_str())
            .concat(device.as_str())
            .concat(again.as_str()),
        owner,
    }
}

/// Which sockets the screen shows.
///
/// `app_uid_floor` comes from the platform: on Android everything below 10000
/// is the system, on a Linux desktop everything below 1000 is.
#[derive(Clone, Copy, Debug, PartialEq, Eq, Structural)]
pub struct SocketFilters {
    pub only_established: bool,
    pub only_apps: bool,
    pub hide_listen: bool,
    pub app_uid_floor: u32,
}

/// Whether the filters keep a socket.
pub open spec fn kept(f: SocketFilters) -> spec_fn(Socket) -> bool {
    |s: Socket|
        {
            &&& f.only_established ==> s.state == TcpState::Established
            &&& f.only_apps ==> s.uid >= f.app_uid_floor
            &&& f.hide_listen ==> s.state != TcpState::Listen
        }
}

impl SocketFilters {
    pub fn keeps(&self, socket: &Socket) -> (r: bool)
        ensures
            r == kept(*self)(*socket),
    {
        if self.only_established && socket.state != TcpState::Established {
            return false;
        }
        if self.only_apps && socket.uid < self.app_uid_floor {
            return false;
        }
        if self.hide_listen && socket.state == TcpState::Listen {
            return false;
        }
        true
    }
}

/// The number of a state.
pub open spec fn state_number(s: TcpState) -> int {
    match s {
        TcpState::Unspecified => 0,
        TcpState::Established => 1,
        TcpState::SynSent => 2,
        TcpState::SynRecv => 3,
        TcpState::FinWait1 => 4,
        TcpState::FinWait2 => 5,
        TcpState::TimeWait => 6,
        TcpState::Close => 7,
        TcpState::CloseWait => 8,
        TcpState::LastAck => 9,
        TcpState::Listen => 10,
        TcpState::Closing => 11,
        TcpState::NewSynRecv => 12,
    }
}

fn number_of_state(s: TcpState) -> (r: u32)
    ensures
        r == state_number(s),
{
    match s {
        TcpState::Unspecified => 0,
        TcpState::Established => 1,
        TcpState::SynSent => 2,
        TcpState::SynRecv => 3,
        TcpState::FinWait1 => 4,
        TcpState::FinWait2 => 5,
        TcpState::TimeWait => 6,
        TcpState::Close => 7,
        TcpState::CloseWait => 8,
        TcpState::LastAck => 9,
        TcpState::Listen => 10,
        TcpState::Closing => 11,
        TcpState::NewSynRecv => 12,
    }
}

/// By uid, then by state, so every socket of one app sits together.
pub open spec fn socket_before() -> spec_fn(Socket, Socket) -> bool {
    |a: Socket, b: Socket|
        a.uid < b.uid || (a.uid == b.uid && state_number(a.state) < state_number(b.state))
}

fn socket_precedes(a: &Socket, b: &Socket) -> (r: bool)
    ensures
        r == socket_before()(*a, *b),
{
    a.uid < b.uid || (a.uid == b.uid && number_of_state(a.state) < number_of_state(b.state))
}

/// How many sockets there are, in words.
pub open spec fn sockets_summary(s: Snapshot) -> Seq<char> {
    match s.socket_summary {
        Some(m) => dec(m.total as nat) +
            " sockets · "@ +
            dec(m.established as nat) +
            " established · "@ +
            dec(m.listen as nat) +
            " listening · "@ +
            dec(m.time_wait as nat) +
            " time-wait"@,
        None => dec(s.sockets@.len()) + " sockets"@,
    }
}

/// Whether a row shows a socket, under an owner that the function may give.
pub open spec fn shows_owned<F: Fn(u32) -> String>(row: SocketRow, s: Socket, owner_for_uid: F) -> bool {
    exists|owner: String|
        #[trigger] owner_for_uid.ensures((s.uid,), owner) && row.said() == socket_row_said(s, owner@)
}

/// Every socket on the device, grouped so the uid that owns it is what the eye
/// lands on first.
///
/// The owner is resolved from the installed-app list rather than from the
/// daemon: the kernel knows the uid, and only the framework knows the name.
pub fn sockets<F: Fn(u32) -> String>(
    snapshot: &Snapshot,
    filters: SocketFilters,
    owner_for_uid: F,
) -> (r: SocketsData)
    requires
        forall|uid: u32| #[trigger] owner_for_uid.requires((uid,)),
    ensures
        r.summary@ == sockets_summary(*snapshot),
        ({
            let kept = snapshot.sockets@.filter(kept(filters));
            let shown = first(sort_by(kept, socket_before()), 400);
            &&& r.hidden@ == if kept.len() == snapshot.sockets@.len() {
                ""@
            } else {
                dec((snapshot.sockets@.len() - kept.len()) as nat) + " hidden by filters"@
            }
            &&& r.rows@.len() == shown.len()
            &&& forall|i: int|
                0 <= i < shown.len() ==> shows_owned(#[trigger] r.rows@[i], shown[i], owner_for_uid)
        }),
{
    let passes = |s: &Socket| -> (b: bool)
        ensures
            b == kept(filters)(*s),
        { filters.keeps(s) };
    let places = ordered(
        &snapshot.sockets,
        passes,
        socket_precedes,
        Ghost(kept(filters)),
        Ghost(socket_before()),
    );
    let ghost all_kept = snapshot.sockets@.filter(kept(filters));
    let ghost sorted = picked(places@, snapshot.sockets@);
    proof {
        crate::seqs::lemma_sort_length(all_kept, socket_before());
        crate::seqs::lemma_filter_any(snapshot.sockets@, kept(filters));
    }
    assert(sorted.len() == places.len());
    let total = snapshot.sockets.len();
    let shown = places.len();
    let limit: usize = if shown > 400 {
        400
    } else {
        shown
    };
    let mut rows: Vec<SocketRow> = Vec::new();
    let mut k: usize = 0;
    while k < limit
        invariant
            k <= limit <= places.len(),
            rows.len() == k,
            sorted == picked(places@, snapshot.sockets@),
            forall|uid: u32| #[trigger] owner_for_uid.requires((uid,)),
            forall|j: int| 0 <= j < places@.len() ==> (#[trigger] places@[j]) < snapshot.sockets@.len(),
            forall|j: int|
                0 <= j < k ==> shows_owned(#[trigger] rows@[j], sorted[j], owner_for_uid),
        decreases limit - k,
    {
        let s = &snapshot.sockets[places[k]];
        let owner = owner_for_uid(s.uid);
        let ghost named = owner;
        let row = socket_row(s, owner);
        assert(owner_for_uid.ensures((s.uid,), named) && row.said() == socket_row_said(*s, named@));
        assert(shows_owned(row, sorted[k as int], owner_for_uid));
        rows.push(row);
        k += 1;
    }
    let summary = match &snapshot.socket_summary {
        Some(m) => {
            let a = dec_string(m.total as u64);
            let b = dec_string(m.established as u64);
            let c = dec_string(m.listen as u64);
            let d = dec_string(m.time_wait as u64);
            String::from_str(a.as_str())
                .concat(" sockets · ")
                .concat(b.as_str())
                .concat(" established · ")
                .concat(c.as_str())
                .concat(" listening · ")
                .concat(d.as_str())
                .concat(" time-wait")
        },
        None => {
            let n = dec_string(total as u64);
            String::from_str(n.as_str()).concat(" sockets")
        },
    };
    let hidden = if shown == total {
        String::from_str("")
    } else {
        let n = dec_string((total - shown) as u64);
        String::from_str(n.as_str()).concat(" hidden by filters")
    };
    SocketsData { summary, hidden, rows }
}

/// The sockets screen before there is a snapshot.
pub fn empty_sockets() -> (r: SocketsData)
    ensures
        r.summary@ == ""@ && r.hidden@ == ""@ && r.rows@.len() == 0,
{
    SocketsData {
        summary: String::from_str(""),
        hidden: String::from_str(""),
        rows: Vec::new(),
    }
}

// ---- Per-app ----------------------------------------------------------------

/// A kernel lookup as a field.
pub open spec fn lookup_said(
    family: Seq<char>,
    lookup: Option<RouteLookup>,
    egress: Seq<char>,
    table: u32,
) -> FieldSaid {
    match lookup {
        None => field_said(family, "not looked up"@),
        Some(l) => match (l.error, l.route) {
            (Some(e), _) => marked_said(family, "no route: "@ + e.message@, Status::Fail),
            (None, None) => field_said(family, "not looked up"@),
            (None, Some(route)) => {
                let via = if route.next_hops@.len() > 0 {
                    match route.next_hops@[0].gateway {
                        Some(g) => if g.addr@.len() > 0 {
                            g.text()
                        } else {
                            "on-link"@
                        },
                        None => "on-link"@,
                    }
                } else {
                    "on-link"@
                };
                field_said(
                    family,
                    "table "@ +
                        dec(table as nat) +
                        " via "@ +
                        via +
                        " dev "@ +
                        or_dash(egress),
                )
            },
        },
    }
}

fn lookup_field(family: &str, lookup: &Option<RouteLookup>, egress: &str, table: u32) -> (r: Field)
    ensures
        r.said() == lookup_said(family@, *lookup, egress@, table),
{
    match lookup {
        None => field(family, String::from_str("not looked up")),
        Some(l) => {
            if let Some(e) = &l.error {
                return field_status(
                    family,
                    String::from_str("no route: ").concat(e.message.as_str()),
                    Status::Fail,
                );
            }
            match &l.route {
                None => field(family, String::from_str("not looked up")),
                Some(route) => {
                    let mut via = String::from_str("on-link");
                    if route.next_hops.len() > 0 {
                        if let Some(g) = &route.next_hops[0].gateway {
                            if g.addr.len() > 0 {
                                via = ip(g);
                            }
                        }
                    }
                    let number = dec_string(table as u64);
                    let device = show_or_dash(egress);
                    field(
                        family,
                        String::from_str("table ")
                            .concat(number.as_str())
                            .concat(" via ")
                            .concat(via.as_str())
                            .concat(" dev ")
                            .concat(device.as_str()),
                    )
                },
            }
        },
    }
}

/// What the framework says of an app's network.
pub open spec fn network_fields(network: Option<AndroidNetwork>) -> Seq<FieldSaid> {
    match network {
        None => Seq::empty(),
        Some(n) => {
            let validated = n.capabilities is Some && (n.capabilities->0).validated;
            seq![
                prose_said("Transport"@, join(transport_texts(n.transports@), " + "@)),
                field_said(
                    "Interface"@,
                    match n.link_properties {
                        Some(lp) => lp.interface_name@,
                        None => "—"@,
                    },
                ),
                field_said("Network ID"@, sdec(n.net_id as int)),
                if validated {
                    marked_said("VALIDATED"@, "yes"@, Status::Pass)
                } else {
                    marked_said("VALIDATED"@, "no"@, Status::Warn)
                },
            ]
        },
    }
}

fn show_network(network: &Option<AndroidNetwork>) -> (r: Vec<Field>)
    ensures
        fields_said(r@) == network_fields(*network),
{
    let mut r: Vec<Field> = Vec::new();
    assert(fields_said(r@) =~= Seq::empty());
    if let Some(n) = network {
        let transports = join_texts(&transport_names(&n.transports), " + ");
        add_field(&mut r, field_prose("Transport", transports));
        let name = match &n.link_properties {
            Some(lp) => lp.interface_name.clone(),
            None => String::from_str("—"),
        };
        add_field(&mut r, field("Interface", name));
        add_field(&mut r, field("Network ID", sdec_string(n.net_id as i64)));
        let validated = match &n.capabilities {
            Some(c) => c.validated,
            None => false,
        };
        if validated {
            add_field(&mut r, field_status("VALIDATED", String::from_str("yes"), Status::Pass));
        } else {
            add_field(&mut r, field_status("VALIDATED", String::from_str("no"), Status::Warn));
        }
    }
    assert(fields_said(r@) =~= network_fields(*network));
    r
}

/// What is said of the VPN, where there is one.
pub open spec fn vpn_fields(vpn: VpnAssessment) -> Seq<FieldSaid> {
    if !vpn.vpn_present {
        Seq::empty()
    } else {
        let a = seq![
            field_said("Interface"@, vpn.vpn_interface@),
            prose_said(
                "This app"@,
                if vpn.app_uses_vpn {
                    "goes through the VPN"@
                } else {
                    "bypasses the VPN"@
                },
            ),
        ];
        let b = if vpn.bypass_reason@.len() > 0 {
            a.push(prose_said("Reason"@, vpn.bypass_reason@))
        } else {
            a
        };
        let c = if vpn.split_tunnel {
            b.push(
                marked_said(
                    "Split tunnel"@,
                    "one address family is inside the tunnel and the other is not"@,
                    Status::Warn,
                ),
            )
        } else {
            b
        };
        if vpn.disagreement {
            let said = if vpn.framework_says_in_vpn {
                "inside"@
            } else {
                "outside"@
            };
            let done = if vpn.app_uses_vpn {
                "into"@
            } else {
                "around"@
            };
            c.push(
                marked_said(
                    "Disagreement"@,
                    "the framework says this app is "@ +
                        said +
                        " the VPN, but the kernel routes it "@ +
                        done +
                        " the tunnel"@,
                    Status::Fail,
                ),
            )
        } else {
            c
        }
    }
}

fn show_vpn(vpn: &VpnAssessment) -> (r: Vec<Field>)
    ensures
        fields_said(r@) == vpn_fields(*vpn),
{
    let mut r: Vec<Field> = Vec::new();
    assert(fields_said(r@) =~= Seq::empty());
    if vpn.vpn_present {
        add_field(&mut r, field("Interface", vpn.vpn_interface.clone()));
        add_field(
            &mut r,
            field_prose(
                "This app",
                String::from_str(
                    if vpn.app_uses_vpn {
                        "goes through the VPN"
                    } else {
                        "bypasses the VPN"
                    },
                ),
            ),
        );
        if !is_empty(vpn.bypass_reason.as_str()) {
            add_field(&mut r, field_prose("Reason", vpn.bypass_reason.clone()));
        }
        if vpn.split_tunnel {
            add_field(
                &mut r,
                field_status(
                    "Split tunnel",
                    String::from_str("one address family is inside the tunnel and the other is not"),
                    Status::Warn,
                ),
            );
        }
        if vpn.disagreement {
            let said = if vpn.framework_says_in_vpn {
                "inside"
            } else {
                "outside"
            };
            let done = if vpn.app_uses_vpn {
                "into"
            } else {
                "around"
            };
            add_field(
                &mut r,
                field_status(
                    "Disagreement",
                    String::from_str("the framework says this app is ")
                        .concat(said)
                        .concat(" the VPN, but the kernel routes it ")
                        .concat(done)
                        .concat(" the tunnel"),
                    Status::Fail,
                ),
            );
        }
    }
    assert(fields_said(r@) =~= vpn_fields(*vpn));
    r
}

pub open spec fn path_chip(ok: bool, good: Seq<char>, bad: Seq<char>) -> ChipDataSaid {
    if ok {
        chip_said(good, Status::Pass)
    } else {
        chip_said(bad, Status::Fail)
    }
}

/// The app's lookups as fields. What is not known was not looked up.
pub open spec fn routing_fields(routing: Option<UidRoutingPath>) -> Seq<FieldSaid> {
    match routing {
        Some(p) => seq![
            lookup_said("IPv4"@, p.lookup_v4, p.egress_interface_v4@, p.table_v4),
            lookup_said("IPv6"@, p.lookup_v6, p.egress_interface_v6@, p.table_v6),
        ],
        None => seq![
            field_said("IPv4"@, "not looked up"@),
            field_said("IPv6"@, "not looked up"@),
        ],
    }
}

pub open spec fn every_rule() -> spec_fn(RoutingRule) -> bool {
    |r: RoutingRule| true
}

/// A socket as a row under its owner's heading, which leaves the owner blank.
pub open spec fn own_socket_said() -> spec_fn(Socket) -> SocketRowSaid {
    |s: Socket| socket_row_said(s, ""@)
}

fn own_socket_row(s: &Socket) -> (r: SocketRow)
    ensures
        socket_row_says()(r) == own_socket_said()(*s),
{
    socket_row(s, String::from_str(""))
}

pub open spec fn every_socket() -> spec_fn(Socket) -> bool {
    |s: Socket| true
}

/// One app.
pub open spec fn app_detail_said(state: AppNetworkState) -> AppDetailDataSaid {
    let package = match state.app {
        Some(a) => a.package_name@,
        None => ""@,
    };
    let label = match state.app {
        Some(a) => a.label@,
        None => ""@,
    };
    let present = state.vpn is Some && (state.vpn->0).vpn_present;
    let in_tunnel = state.vpn is Some && (state.vpn->0).app_uses_vpn;
    let (total, established, syn_sent) = match state.socket_summary {
        Some(m) => (m.total, m.established, m.syn_sent),
        None => (0u32, 0u32, 0u32),
    };
    let tunnel = match state.vpn {
        Some(v) => v.vpn_interface@,
        None => ""@,
    };
    AppDetailDataSaid {
        present: true,
        label: if label.len() == 0 {
            package
        } else {
            label
        },
        package,
        uid: match state.app {
            Some(a) => as_signed(a.uid) as i32,
            None => 0,
        },
        summary: state.summary@,
        chips: seq![
            path_chip(state.ipv4_path_ok, "IPv4 OK"@, "IPv4 FAILED"@),
            path_chip(state.ipv6_path_ok, "IPv6 OK"@, "IPv6 FAILED"@),
        ],
        framework: network_fields(state.android_network),
        rules: match state.routing {
            Some(p) => first(p.matching_rules@, 12).map_values(rule_said()),
            None => Seq::empty(),
        },
        routing: routing_fields(state.routing),
        vpn_present: present,
        vpn_title: "VPN · "@ + tunnel,
        vpn_chip: if in_tunnel {
            chip_said("IN TUNNEL"@, Status::Pass)
        } else {
            chip_said("BYPASSES"@, Status::Warn)
        },
        vpn: match state.vpn {
            Some(v) => vpn_fields(v),
            None => Seq::empty(),
        },
        sockets: first(state.sockets@, 40).map_values(own_socket_said()),
        socket_summary: dec(total as nat) +
            " open, "@ +
            dec(established as nat) +
            " established, "@ +
            dec(syn_sent as nat) +
            " in SYN_SENT"@,
        firewall: state.firewall_note@,
    }
}

fn show_path_chips(state: &AppNetworkState) -> (r: Vec<ChipData>)
    ensures
        chips_said(r@) == seq![
            path_chip(state.ipv4_path_ok, "IPv4 OK"@, "IPv4 FAILED"@),
            path_chip(state.ipv6_path_ok, "IPv6 OK"@, "IPv6 FAILED"@),
        ],
{
    let mut r: Vec<ChipData> = Vec::new();
    assert(chips_said(r@) =~= Seq::empty());
    if state.ipv4_path_ok {
        add_chip(&mut r, "IPv4 OK", Status::Pass);
    } else {
        add_chip(&mut r, "IPv4 FAILED", Status::Fail);
    }
    if state.ipv6_path_ok {
        add_chip(&mut r, "IPv6 OK", Status::Pass);
    } else {
        add_chip(&mut r, "IPv6 FAILED", Status::Fail);
    }
    assert(chips_said(r@) =~= seq![
        path_chip(state.ipv4_path_ok, "IPv4 OK"@, "IPv4 FAILED"@),
        path_chip(state.ipv6_path_ok, "IPv6 OK"@, "IPv6 FAILED"@),
    ]);
    r
}

fn show_routing(routing: &Option<UidRoutingPath>) -> (r: Vec<Field>)
    ensures
        fields_said(r@) == routing_fields(*routing),
{
    let mut r: Vec<Field> = Vec::new();
    assert(fields_said(r@) =~= Seq::empty());
    match routing {
        Some(p) => {
            add_field(
                &mut r,
                lookup_field("IPv4", &p.lookup_v4, p.egress_interface_v4.as_str(), p.table_v4),
            );
            add_field(
                &mut r,
                lookup_field("IPv6", &p.lookup_v6, p.egress_interface_v6.as_str(), p.table_v6),
            );
        },
        None => {
            add_field(&mut r, field("IPv4", String::from_str("not looked up")));
            add_field(&mut r, field("IPv6", String::from_str("not looked up")));
        },
    }
    assert(fields_said(r@) =~= routing_fields(*routing));
    r
}

fn show_own_rules(routing: &Option<UidRoutingPath>) -> (r: Vec<String>)
    ensures
        texts(r@) == match routing {
            Some(p) => first(p.matching_rules@, 12).map_values(rule_said()),
            None => Seq::empty(),
        },
{
    match routing {
        Some(p) => {
            let all = |r: &RoutingRule| -> (b: bool)
                ensures
                    b == every_rule()(*r),
                { true };
            proof {
                crate::seqs::lemma_filter_all(p.matching_rules@, every_rule());
            }
            some_texts(
                &p.matching_rules,
                all,
                say_rule,
                12,
                Ghost(every_rule()),
                Ghost(rule_said()),
            )
        },
        None => {
            let r: Vec<String> = Vec::new();
            assert(texts(r@) =~= Seq::empty());
            r
        },
    }
}

fn show_own_sockets(v: &Vec<Socket>) -> (r: Vec<SocketRow>)
    ensures
        socket_rows_said(r@) == first(v@, 40).map_values(own_socket_said()),
{
    let all = |s: &Socket| -> (b: bool)
        ensures
            b == every_socket()(*s),
        { true };
    proof {
        crate::seqs::lemma_filter_all(v@, every_socket());
    }
    collect_some::<Socket, SocketRow, SocketRowSaid, _, _>(
        v,
        all,
        own_socket_row,
        40,
        Ghost(every_socket()),
        Ghost(socket_row_says()),
        Ghost(own_socket_said()),
    )
}

/// One app, from the daemon's answer.
pub fn app_detail(state: &AppNetworkState) -> (r: AppDetailData)
    ensures
        r.said() == app_detail_said(*state),
{
    let (package, app_label, uid) = match &state.app {
        Some(a) => (a.package_name.clone(), a.label.clone(), signed_of(a.uid)),
        None => (String::from_str(""), String::from_str(""), 0),
    };
    let (present, in_tunnel, tunnel, vpn) = match &state.vpn {
        Some(v) => (v.vpn_present, v.app_uses_vpn, v.vpn_interface.clone(), show_vpn(v)),
        None => {
            let none: Vec<Field> = Vec::new();
            assert(fields_said(none@) =~= Seq::empty());
            (false, false, String::from_str(""), none)
        },
    };
    let (total, established, syn_sent) = match &state.socket_summary {
        Some(m) => (m.total, m.established, m.syn_sent),
        None => (0, 0, 0),
    };
    let total = dec_string(total as u64);
    let established = dec_string(established as u64);
    let syn_sent = dec_string(syn_sent as u64);
    let label = if is_empty(app_label.as_str()) {
        package.clone()
    } else {
        app_label
    };
    let vpn_chip = if in_tunnel {
        chip("IN TUNNEL", Status::Pass)
    } else {
        chip("BYPASSES", Status::Warn)
    };
    AppDetailData {
        present: true,
        label,
        package,
        uid,
        summary: state.summary.clone(),
        chips: show_path_chips(state),
        framework: show_network(&state.android_network),
        rules: show_own_rules(&state.routing),
        routing: show_routing(&state.routing),
        vpn_present: present,
        vpn_title: String::from_str("VPN · ").concat(tunnel.as_str()),
        vpn_chip,
        vpn,
        sockets: show_own_sockets(&state.sockets),
        socket_summary: String::from_str(total.as_str())
            .concat(" open, ")
            .concat(established.as_str())
            .concat(" established, ")
            .concat(syn_sent.as_str())
            .concat(" in SYN_SENT"),
        firewall: state.firewall_note.clone(),
    }
}

/// No app.
pub fn empty_app_detail() -> (r: AppDetailData)
    ensures
        !r.present && !r.vpn_present && r.uid == 0,
        r.label@ == ""@ && r.package@ == ""@ && r.summary@ == ""@ && r.vpn_title@ == ""@,
        r.socket_summary@ == ""@ && r.firewall@ == ""@,
        r.chips@.len() == 0 && r.framework@.len() == 0 && r.rules@.len() == 0,
        r.routing@.len() == 0 && r.vpn@.len() == 0 && r.sockets@.len() == 0,
        r.vpn_chip.said() == chip_said(""@, Status::Skip),
{
    AppDetailData {
        present: false,
        label: String::from_str(""),
        package: String::from_str(""),
        uid: 0,
        summary: String::from_str(""),
        chips: Vec::new(),
        framework: Vec::new(),
        rules: Vec::new(),
        routing: Vec::new(),
        vpn_present: false,
        vpn_title: String::from_str(""),
        vpn_chip: chip("", Status::Skip),
        vpn: Vec::new(),
        sockets: Vec::new(),
        socket_summary: String::from_str(""),
        firewall: String::from_str(""),
    }
}

// ---- Timeline ---------------------------------------------------------------

pub open spec fn source_text(source: EventSource) -> Seq<char> {
    match source {
        EventSource::Kernel => "KRNL"@,
        EventSource::Framework => "FMWK"@,
        EventSource::Daemon => "DMON"@,
        EventSource::Unspecified => "????"@,
    }
}

pub open spec fn status_of_event(severity: EventSeverity) -> Status {
    match severity {
        EventSeverity::Warning => Status::Fail,
        EventSeverity::Notice => Status::Warn,
        EventSeverity::Info => Status::Info,
        _ => Status::Skip,
    }
}

/// An event as a row, with the offset from UTC at its time.
pub fn event_row(event: &NetworkEvent, utc_offset_seconds: i32) -> (r: EventRow)
    ensures
        r.said() == (EventRowSaid {
            time: clock_text(event.unix_ms, utc_offset_seconds),
            source: source_text(event.source),
            status: status_of_event(event.severity),
            summary: event.summary@,
        }),
{
    EventRow {
        time: time_of_day(event.unix_ms, utc_offset_seconds),
        source: String::from_str(
            match event.source {
                EventSource::Kernel => "KRNL",
                EventSource::Framework => "FMWK",
                EventSource::Daemon => "DMON",
                EventSource::Unspecified => "????",
            },
        ),
        status: match event.severity {
            EventSeverity::Warning => Status::Fail,
            EventSeverity::Notice => Status::Warn,
            EventSeverity::Info => Status::Info,
            _ => Status::Skip,
        },
        summary: event.summary.clone(),
    }
}

// ---- Capture ----------------------------------------------------------------

/// A port behind an address; none where there is none.
pub open spec fn port_text(port: u32) -> Seq<char> {
    if port == 0 {
        ""@
    } else {
        ":"@ + dec(port as nat)
    }
}

fn show_port(port: u32) -> (r: String)
    ensures
        r@ == port_text(port),
{
    if port == 0 {
        String::from_str("")
    } else {
        let n = dec_string(port as u64);
        String::from_str(":").concat(n.as_str())
    }
}

pub open spec fn arrow(outgoing: bool) -> Seq<char> {
    if outgoing {
        "→"@
    } else {
        "←"@
    }
}

/// The two ends of a packet, where both were decoded.
pub open spec fn ends_text(s: PacketSaid, outgoing: bool) -> Option<Seq<char>> {
    match (s.source, s.destination) {
        (Some(_), Some(_)) => Some(
            crate::capture::endpoint_text(s.source) +
                port_text(s.source_port) +
                " "@ +
                arrow(outgoing) +
                " "@ +
                crate::capture::endpoint_text(s.destination) +
                port_text(s.destination_port),
        ),
        _ => None,
    }
}

/// What else there is to say of a packet. The description restates the ends
/// that were decoded, so it is only worth printing where they were not.
pub open spec fn packet_detail(s: PacketSaid, length: u32, data: nat, decoded: bool) -> Seq<char> {
    let protocol = if s.protocol_name.len() == 0 {
        "ip proto "@ + dec(s.ip_protocol as nat)
    } else {
        s.protocol_name
    };
    let cut = if length > data && data > 0 {
        " (captured "@ + dec(data) + ")"@
    } else {
        ""@
    };
    let set = join(flags_said(s), " "@);
    let flags = if set.len() == 0 {
        ""@
    } else {
        "  ["@ + set + "]"@
    };
    let words = if s.description.len() > 0 && !decoded {
        "  "@ + s.description
    } else {
        ""@
    };
    protocol + "  "@ + dec(length as nat) + " B"@ + cut + flags + words
}

/// A captured frame as a row. A frame that could not be decoded is still worth
/// showing. An ICMP message that carries an MTU is coloured as a finding.
pub open spec fn packet_row_said(p: CapturedPacket, utc_offset_seconds: i32) -> PacketRowSaid {
    let s = match p.summary {
        Some(s) => packet_said(s),
        None => nothing_said(),
    };
    PacketRowSaid {
        time: clock_text(p.unix_ms, utc_offset_seconds),
        status: if s.mtu != 0 {
            Status::Fail
        } else if s.rst {
            Status::Warn
        } else {
            Status::Skip
        },
        summary: match ends_text(s, p.outgoing) {
            Some(text) => text,
            None => arrow(p.outgoing) + " "@ + dec(p.original_length as nat) + " bytes"@,
        },
        detail: packet_detail(
            s,
            p.original_length,
            p.data@.len(),
            ends_text(s, p.outgoing) is Some,
        ),
    }
}

fn show_arrow(outgoing: bool) -> (r: &'static str)
    ensures
        r@ == arrow(outgoing),
{
    if outgoing {
        "→"
    } else {
        "←"
    }
}

fn show_ends(s: &PacketSummary, outgoing: bool) -> (r: Option<String>)
    ensures
        match r {
            Some(text) => ends_text(packet_said(*s), outgoing) == Some(text@),
            None => ends_text(packet_said(*s), outgoing) is None,
        },
{
    match (&s.source, &s.destination) {
        (Some(source), Some(destination)) => {
            let a = ip(source);
            let b = ip(destination);
            let from = show_port(s.source_port);
            let to = show_port(s.destination_port);
            Some(
                String::from_str(a.as_str())
                    .concat(from.as_str())
                    .concat(" ")
                    .concat(show_arrow(outgoing))
                    .concat(" ")
                    .concat(b.as_str())
                    .concat(to.as_str()),
            )
        },
        _ => None,
    }
}

fn show_detail(s: &PacketSummary, length: u32, data: usize, decoded: bool) -> (r: String)
    ensures
        r@ == packet_detail(packet_said(*s), length, data as nat, decoded),
{
    let protocol = if is_empty(s.protocol_name.as_str()) {
        let n = dec_string(s.ip_protocol as u64);
        String::from_str("ip proto ").concat(n.as_str())
    } else {
        s.protocol_name.clone()
    };
    let cut = if length as u64 > data as u64 && data > 0 {
        let n = dec_string(data as u64);
        String::from_str(" (captured ").concat(n.as_str()).concat(")")
    } else {
        String::from_str("")
    };
    let set = join_texts(&flag_names(s), " ");
    let flags = if is_empty(set.as_str()) {
        String::from_str("")
    } else {
        String::from_str("  [").concat(set.as_str()).concat("]")
    };
    let words = if !is_empty(s.description.as_str()) && !decoded {
        String::from_str("  ").concat(s.description.as_str())
    } else {
        String::from_str("")
    };
    let n = dec_string(length as u64);
    String::from_str(protocol.as_str())
        .concat("  ")
        .concat(n.as_str())
        .concat(" B")
        .concat(cut.as_str())
        .concat(flags.as_str())
        .concat(words.as_str())
}

fn packet_status(s: &PacketSummary) -> (r: Status)
    ensures
        ({
            let said = packet_said(*s);
            r == if said.mtu != 0 {
                Status::Fail
            } else if said.rst {
                Status::Warn
            } else {
                Status::Skip
            }
        }),
{
    if s.icmp_mtu != 0 {
        Status::Fail
    } else if s.rst {
        Status::Warn
    } else {
        Status::Skip
    }
}

/// One captured frame as a line a person can scan, with the offset from UTC at
/// its time.
///
/// The headers were decoded when the frame was captured, so this does no
/// parsing: guessing at bytes in two places is how the two sides end up
/// disagreeing about what was on the wire.
pub fn packet_row(packet: &CapturedPacket, utc_offset_seconds: i32) -> (r: PacketRow)
    ensures
        r.said() == packet_row_said(*packet, utc_offset_seconds),
{
    let time = time_of_day(packet.unix_ms, utc_offset_seconds);
    let none = empty_summary();
    let s = match &packet.summary {
        Some(s) => s,
        None => &none,
    };
    let ends = show_ends(s, packet.outgoing);
    let detail = show_detail(s, packet.original_length, packet.data.len(), ends.is_some());
    let status = packet_status(s);
    let summary = match ends {
        Some(text) => text,
        None => {
            let n = dec_string(packet.original_length as u64);
            String::from_str(show_arrow(packet.outgoing))
                .concat(" ")
                .concat(n.as_str())
                .concat(" bytes")
        },
    };
    PacketRow { time, status, summary, detail }
}

/// The capture screen before there is a capture.
pub fn empty_capture() -> (r: CaptureData)
    ensures
        !r.running,
        r.interface@ == ""@ && r.summary@ == ""@ && r.error@ == ""@ && r.saved_path@ == ""@,
        r.packets@.len() == 0,
{
    CaptureData {
        running: false,
        interface: String::from_str(""),
        summary: String::from_str(""),
        error: String::from_str(""),
        saved_path: String::from_str(""),
        packets: Vec::new(),
    }
}

/// The interfaces shown are all there are, and none that is down stands before
/// one that is up.
pub proof fn law_interfaces_up_come_first(v: Seq<Interface>)
    ensures
        sort_by(v, interface_before()).to_multiset() == v.to_multiset(),
        forall|i: int, j: int|
            0 <= i < j < v.len() ==> (up(#[trigger] sort_by(v, interface_before())[j]) ==> up(
                #[trigger] sort_by(v, interface_before())[i],
            )),
{
    law_sort_by(v, interface_before());
    let r = sort_by(v, interface_before());
    assert forall|i: int, j: int| 0 <= i < j < v.len() && up(#[trigger] r[j]) implies up(
        #[trigger] r[i],
    ) by {
        assert(!interface_before()(r[j], r[i]));
    }
}

/// The sockets of one uid sit together: between two of them stands none of
/// another.
pub proof fn law_sockets_sit_by_uid(v: Seq<Socket>)
    ensures
        sort_by(v, socket_before()).to_multiset() == v.to_multiset(),
        forall|i: int, j: int|
            0 <= i < j < v.len() ==> (#[trigger] sort_by(v, socket_before())[i]).uid <= (
            #[trigger] sort_by(v, socket_before())[j]).uid,
{
    law_sort_by(v, socket_before());
    let r = sort_by(v, socket_before());
    assert forall|i: int, j: int| 0 <= i < j < v.len() implies (#[trigger] r[i]).uid <= (
    #[trigger] r[j]).uid by {
        assert(!socket_before()(r[j], r[i]));
    }
}

/// The evidence of a check is shown piece by piece, each name once and in strictly
/// ascending order, with its value: all of it and nothing else.
pub proof fn law_evidence_is_shown_once(evidence: TextMap)
    requires
        evidence.wf(),
    ensures
        ({
            let f = evidence_fields(evidence.entries@);
            &&& f.len() == evidence.entries@.len()
            &&& forall|i: int, j: int|
                0 <= i < j < f.len() ==> precedes((#[trigger] f[i]).key, (#[trigger] f[j]).key)
            &&& forall|i: int|
                0 <= i < f.len() ==> evidence@.contains_key((#[trigger] f[i]).key)
                    && evidence@[f[i].key] == f[i].value
            &&& forall|k: Seq<char>| #[trigger]
                evidence@.contains_key(k) ==> exists|i: int|
                    0 <= i < f.len() && (#[trigger] f[i]).key == k
        }),
{
    let s = evidence.entries@;
    let p = evidence_before();
    assert forall|a: (String, String), b: (String, String)|
        #![trigger p(a, b)]
        p(a, b) implies !p(b, a) by {
        lemma_precedes_total(a.0@, b.0@);
    }
    assert forall|a: (String, String), b: (String, String), c: (String, String)|
        #![trigger p(a, b), p(b, c)]
        !p(a, b) && !p(b, c) implies !p(a, c) by {
        let (x, y, z) = (a.0@, b.0@, c.0@);
        lemma_precedes_total(x, y);
        lemma_precedes_total(y, z);
        lemma_precedes_total(x, z);
        if precedes(z, y) && precedes(y, x) {
            lemma_precedes_transitive(z, y, x);
        }
    }
    law_sort_by(s, p);
    let r = sort_by(s, p);
    let f = evidence_fields(s);
    assert(s.no_duplicates());
    s.lemma_multiset_has_no_duplicates();
    r.lemma_multiset_has_no_duplicates_conv();
    assert forall|i: int| 0 <= i < r.len() implies s.contains(#[trigger] r[i]) by {
        broadcast use vstd::seq_lib::group_to_multiset_ensures;

        assert(r.contains(r[i]));
        assert(r.to_multiset().count(r[i]) > 0);
    }
    assert forall|i: int| 0 <= i < s.len() implies r.contains(#[trigger] s[i]) by {
        broadcast use vstd::seq_lib::group_to_multiset_ensures;

        assert(s.contains(s[i]));
        assert(s.to_multiset().count(s[i]) > 0);
    }
    assert forall|i: int, j: int| 0 <= i < j < f.len() implies precedes(
        (#[trigger] f[i]).key,
        (#[trigger] f[j]).key,
    ) by {
        assert(!p(r[j], r[i]));
        assert(s.contains(r[i]) && s.contains(r[j]));
        let (x, y) = (s.index_of(r[i]), s.index_of(r[j]));
        assert(s[x] == r[i] && s[y] == r[j]);
        assert(r[i] != r[j]);
        if x < y {
            assert(s[x].0@ != s[y].0@);
        } else {
            assert(s[y].0@ != s[x].0@);
        }
        lemma_precedes_total(r[i].0@, r[j].0@);
    }
    assert forall|i: int| 0 <= i < f.len() implies evidence@.contains_key((#[trigger] f[i]).key)
        && evidence@[f[i].key] == f[i].value by {
        assert(s.contains(r[i]));
        let x = s.index_of(r[i]);
        assert(s[x] == r[i]);
        lemma_last_pair(s, x);
    }
    assert forall|k: Seq<char>| #[trigger] evidence@.contains_key(k) implies exists|i: int|
        0 <= i < f.len() && (#[trigger] f[i]).key == k by {
        lemma_key_has_pair(s, k);
        let x = choose|x: int| 0 <= x < s.len() && (#[trigger] s[x]).0@ == k;
        assert(r.contains(s[x]));
        let i = r.index_of(s[x]);
        assert(f[i].key == k);
    }
}

} // verus!
