//! Turning messages into the words that the screens show: how an address is
//! written, which status a check maps to, how a rule reads.
use vstd::prelude::*;

use crate::proto::{
    CheckStatus, FindingSeverity, IpAddress, IpPrefix, LinkKind, Route, RoutingRule, Socket,
    TcpState, Transport,
};
use crate::text::{dec, dec_string, hex, hex_string, is_empty, zero_pad, zero_padded};
use crate::ui::{ChipData, ChipDataSaid, Field, FieldSaid, Status};

verus! {

// ---- Primitives -------------------------------------------------------------

pub fn ip(address: &IpAddress) -> (r: String)
    ensures
        r@ == address.text(),
{
    address.display()
}

/// A prefix as it is written. Without an address it covers everything.
pub open spec fn prefix_text(value: IpPrefix) -> Seq<char> {
    match value.address {
        Some(a) if a.addr@.len() > 0 => a.text() + "/"@ + dec(value.prefix_len as nat),
        _ => "*/"@ + dec(value.prefix_len as nat),
    }
}

pub fn prefix(value: &IpPrefix) -> (r: String)
    ensures
        r@ == prefix_text(*value),
{
    let len = dec_string(value.prefix_len as u64);
    match &value.address {
        Some(a) => {
            if a.addr.len() > 0 {
                let text = ip(a);
                return String::from_str(text.as_str()).concat("/").concat(len.as_str());
            }
        },
        None => {},
    }
    String::from_str("*/").concat(len.as_str())
}

pub fn check_status(status: CheckStatus) -> (r: Status)
    ensures
        r == status_of(status),
{
    match status {
        CheckStatus::Pass => Status::Pass,
        CheckStatus::Fail => Status::Fail,
        CheckStatus::Warn => Status::Warn,
        CheckStatus::Info => Status::Info,
        _ => Status::Skip,
    }
}

pub open spec fn status_of(status: CheckStatus) -> Status {
    match status {
        CheckStatus::Pass => Status::Pass,
        CheckStatus::Fail => Status::Fail,
        CheckStatus::Warn => Status::Warn,
        CheckStatus::Info => Status::Info,
        _ => Status::Skip,
    }
}

pub open spec fn status_of_severity(severity: FindingSeverity) -> Status {
    match severity {
        FindingSeverity::Critical | FindingSeverity::High => Status::Fail,
        FindingSeverity::Medium => Status::Warn,
        FindingSeverity::Low => Status::Info,
        _ => Status::Skip,
    }
}

pub fn severity_status(severity: FindingSeverity) -> (r: Status)
    ensures
        r == status_of_severity(severity),
{
    match severity {
        FindingSeverity::Critical | FindingSeverity::High => Status::Fail,
        FindingSeverity::Medium => Status::Warn,
        FindingSeverity::Low => Status::Info,
        _ => Status::Skip,
    }
}

pub open spec fn severity_text(severity: FindingSeverity) -> Seq<char> {
    match severity {
        FindingSeverity::Critical => "Critical"@,
        FindingSeverity::High => "High"@,
        FindingSeverity::Medium => "Medium"@,
        FindingSeverity::Low => "Low"@,
        FindingSeverity::Info => "Info"@,
        _ => "Unknown"@,
    }
}

pub fn severity_label(severity: FindingSeverity) -> (r: &'static str)
    ensures
        r@ == severity_text(severity),
{
    match severity {
        FindingSeverity::Critical => "Critical",
        FindingSeverity::High => "High",
        FindingSeverity::Medium => "Medium",
        FindingSeverity::Low => "Low",
        FindingSeverity::Info => "Info",
        _ => "Unknown",
    }
}

pub open spec fn check_status_text(status: CheckStatus) -> Seq<char> {
    match status {
        CheckStatus::Pass => "PASS"@,
        CheckStatus::Fail => "FAIL"@,
        CheckStatus::Warn => "WARN"@,
        CheckStatus::Info => "INFO"@,
        CheckStatus::Skip => "SKIP"@,
        _ => "…."@,
    }
}

pub fn status_label(status: CheckStatus) -> (r: &'static str)
    ensures
        r@ == check_status_text(status),
{
    match status {
        CheckStatus::Pass => "PASS",
        CheckStatus::Fail => "FAIL",
        CheckStatus::Warn => "WARN",
        CheckStatus::Info => "INFO",
        CheckStatus::Skip => "SKIP",
        _ => "….",
    }
}

pub open spec fn tcp_state_text(state: TcpState) -> Seq<char> {
    match state {
        TcpState::Established => "ESTABLISHED"@,
        TcpState::SynSent => "SYN_SENT"@,
        TcpState::SynRecv => "SYN_RECV"@,
        TcpState::FinWait1 => "FIN_WAIT1"@,
        TcpState::FinWait2 => "FIN_WAIT2"@,
        TcpState::TimeWait => "TIME_WAIT"@,
        TcpState::Close => "CLOSE"@,
        TcpState::CloseWait => "CLOSE_WAIT"@,
        TcpState::LastAck => "LAST_ACK"@,
        TcpState::Listen => "LISTEN"@,
        TcpState::Closing => "CLOSING"@,
        _ => "UNKNOWN"@,
    }
}

pub fn tcp_state_label(state: TcpState) -> (r: &'static str)
    ensures
        r@ == tcp_state_text(state),
{
    match state {
        TcpState::Established => "ESTABLISHED",
        TcpState::SynSent => "SYN_SENT",
        TcpState::SynRecv => "SYN_RECV",
        TcpState::FinWait1 => "FIN_WAIT1",
        TcpState::FinWait2 => "FIN_WAIT2",
        TcpState::TimeWait => "TIME_WAIT",
        TcpState::Close => "CLOSE",
        TcpState::CloseWait => "CLOSE_WAIT",
        TcpState::LastAck => "LAST_ACK",
        TcpState::Listen => "LISTEN",
        TcpState::Closing => "CLOSING",
        _ => "UNKNOWN",
    }
}

pub open spec fn transport_text(transport: Transport) -> Seq<char> {
    match transport {
        Transport::Cellular => "Cellular"@,
        Transport::Wifi => "Wi-Fi"@,
        Transport::Bluetooth => "Bluetooth"@,
        Transport::Ethernet => "Ethernet"@,
        Transport::Vpn => "VPN"@,
        Transport::Usb => "USB"@,
        Transport::Thread => "Thread"@,
        Transport::Satellite => "Satellite"@,
        _ => "Unknown"@,
    }
}

pub fn transport_label(transport: Transport) -> (r: &'static str)
    ensures
        r@ == transport_text(transport),
{
    match transport {
        Transport::Cellular => "Cellular",
        Transport::Wifi => "Wi-Fi",
        Transport::Bluetooth => "Bluetooth",
        Transport::Ethernet => "Ethernet",
        Transport::Vpn => "VPN",
        Transport::Usb => "USB",
        Transport::Thread => "Thread",
        Transport::Satellite => "Satellite",
        _ => "Unknown",
    }
}

pub open spec fn link_kind_text(kind: LinkKind) -> Seq<char> {
    match kind {
        LinkKind::Loopback => "loopback"@,
        LinkKind::Wifi => "Wi-Fi"@,
        LinkKind::Cellular => "cellular"@,
        LinkKind::Ethernet => "Ethernet"@,
        LinkKind::VpnTun => "VPN"@,
        LinkKind::Bluetooth => "Bluetooth"@,
        LinkKind::Clat => "464XLAT"@,
        LinkKind::Bridge => "bridge"@,
        LinkKind::Dummy => "dummy"@,
        _ => "other"@,
    }
}

pub fn link_kind_label(kind: LinkKind) -> (r: &'static str)
    ensures
        r@ == link_kind_text(kind),
{
    match kind {
        LinkKind::Loopback => "loopback",
        LinkKind::Wifi => "Wi-Fi",
        LinkKind::Cellular => "cellular",
        LinkKind::Ethernet => "Ethernet",
        LinkKind::VpnTun => "VPN",
        LinkKind::Bluetooth => "Bluetooth",
        LinkKind::Clat => "464XLAT",
        LinkKind::Bridge => "bridge",
        LinkKind::Dummy => "dummy",
        _ => "other",
    }
}

pub open spec fn field_said(key: Seq<char>, value: Seq<char>) -> FieldSaid {
    FieldSaid { key, value, status: Status::Skip, mono: true }
}

pub fn field(key: &str, value: String) -> (r: Field)
    ensures
        r.said() == field_said(key@, value@),
{
    Field { key: String::from_str(key), value, status: Status::Skip, mono: true }
}

pub open spec fn prose_said(key: Seq<char>, value: Seq<char>) -> FieldSaid {
    FieldSaid { key, value, status: Status::Skip, mono: false }
}

pub fn field_prose(key: &str, value: String) -> (r: Field)
    ensures
        r.said() == prose_said(key@, value@),
{
    Field { key: String::from_str(key), value, status: Status::Skip, mono: false }
}

pub open spec fn marked_said(key: Seq<char>, value: Seq<char>, status: Status) -> FieldSaid {
    FieldSaid { key, value, status, mono: true }
}

pub fn field_status(key: &str, value: String, status: Status) -> (r: Field)
    ensures
        r.said() == marked_said(key@, value@, status),
{
    Field { key: String::from_str(key), value, status, mono: true }
}

pub open spec fn chip_said(text: Seq<char>, status: Status) -> ChipDataSaid {
    ChipDataSaid { text, status }
}

pub fn chip(text: &str, status: Status) -> (r: ChipData)
    ensures
        r.said() == chip_said(text@, status),
{
    ChipData { text: String::from_str(text), status }
}

// ---- Routes and rules -------------------------------------------------------

/// A route the way `ip route` shows it.
pub open spec fn route_text(route: Route) -> Seq<char> {
    let destination = if route.is_default {
        "default"@
    } else {
        match route.destination {
            Some(d) => prefix_text(d),
            None => "?"@,
        }
    };
    let hop = if route.next_hops@.len() > 0 {
        Some(route.next_hops@[0])
    } else {
        None
    };
    let via = match hop {
        Some(h) => match h.gateway {
            Some(g) if g.addr@.len() > 0 => "via "@ + g.text() + " "@,
            _ => ""@,
        },
        None => ""@,
    };
    let dev = match hop {
        Some(h) => if h.out_interface_name@.len() == 0 {
            "dev if"@ + dec(h.out_interface_index as nat)
        } else {
            "dev "@ + h.out_interface_name@
        },
        None => ""@,
    };
    let metric = if route.priority != 0 {
        " metric "@ + dec(route.priority as nat)
    } else {
        ""@
    };
    let mtu = match route.metrics {
        Some(m) => if m.mtu != 0 {
            " mtu "@ + dec(m.mtu as nat)
        } else {
            ""@
        },
        None => ""@,
    };
    destination + " "@ + via + dev + metric + mtu
}

/// Render a route the way `ip route` shows it, because that is the form anyone
/// debugging this recognises from a terminal.
pub fn route_line(route: &Route) -> (r: String)
    ensures
        r@ == route_text(*route),
{
    let destination = if route.is_default {
        String::from_str("default")
    } else {
        match &route.destination {
            Some(d) => prefix(d),
            None => String::from_str("?"),
        }
    };
    let mut via = String::from_str("");
    let mut dev = String::from_str("");
    if route.next_hops.len() > 0 {
        let hop = &route.next_hops[0];
        if let Some(g) = &hop.gateway {
            if g.addr.len() > 0 {
                let text = ip(g);
                via = String::from_str("via ").concat(text.as_str()).concat(" ");
            }
        }
        if is_empty(hop.out_interface_name.as_str()) {
            let index = dec_string(hop.out_interface_index as u64);
            dev = String::from_str("dev if").concat(index.as_str());
        } else {
            dev = String::from_str("dev ").concat(hop.out_interface_name.as_str());
        }
    }
    let metric = if route.priority != 0 {
        let n = dec_string(route.priority as u64);
        String::from_str(" metric ").concat(n.as_str())
    } else {
        String::from_str("")
    };
    let mut mtu = String::from_str("");
    if let Some(m) = &route.metrics {
        if m.mtu != 0 {
            let n = dec_string(m.mtu as u64);
            mtu = String::from_str(" mtu ").concat(n.as_str());
        }
    }
    String::from_str(destination.as_str())
        .concat(" ")
        .concat(via.as_str())
        .concat(dev.as_str())
        .concat(metric.as_str())
        .concat(mtu.as_str())
}

/// A selector of a rule by address, behind a word.
pub open spec fn selector_text(word: Seq<char>, p: Option<IpPrefix>) -> Seq<char> {
    match p {
        Some(p) => if p.address is Some {
            word + " "@ + prefix_text(p) + " "@
        } else {
            ""@
        },
        None => ""@,
    }
}

fn show_selector(word: &str, p: &Option<IpPrefix>) -> (r: String)
    ensures
        r@ == selector_text(word@, *p),
{
    match p {
        Some(p) => if p.address.is_some() {
            let text = prefix(p);
            String::from_str(word).concat(" ").concat(text.as_str()).concat(" ")
        } else {
            String::from_str("")
        },
        None => String::from_str(""),
    }
}

/// A selector of a rule by interface, behind a word.
pub open spec fn interface_text(word: Seq<char>, name: Seq<char>) -> Seq<char> {
    if name.len() == 0 {
        ""@
    } else {
        word + " "@ + name + " "@
    }
}

fn show_interface(word: &str, name: &str) -> (r: String)
    ensures
        r@ == interface_text(word@, name@),
{
    if is_empty(name) {
        String::from_str("")
    } else {
        String::from_str(word).concat(" ").concat(name).concat(" ")
    }
}

/// A rule the way `ip rule` shows it.
pub open spec fn rule_text(rule: RoutingRule) -> Seq<char> {
    let mask = if rule.fwmask != 0 {
        "/0x"@ + hex(rule.fwmask as nat)
    } else {
        ""@
    };
    let mark = if rule.has_fwmark {
        "fwmark 0x"@ + hex(rule.fwmark as nat) + mask + " "@
    } else {
        ""@
    };
    let not = if rule.invert {
        "not "@
    } else {
        ""@
    };
    let uids = if rule.has_uid_range {
        not +
            "uidrange "@ +
            dec(rule.uid_range_start as nat) +
            "-"@ +
            dec(rule.uid_range_end as nat) +
            " "@
    } else {
        ""@
    };
    let table = if rule.table_name@.len() == 0 {
        dec(rule.table as nat)
    } else {
        rule.table_name@
    };
    dec(rule.priority as nat) +
        ": "@ +
        selector_text("from"@, rule.source) +
        selector_text("to"@, rule.destination) +
        interface_text("iif"@, rule.input_interface@) +
        interface_text("oif"@, rule.output_interface@) +
        mark +
        uids +
        "lookup "@ +
        table
}

/// Render a rule the way `ip rule` shows it.
///
/// `ip rule` separates the priority with a tab. This does not: text rendering
/// without tab stops draws the character as a missing glyph.
pub fn rule_line(rule: &RoutingRule) -> (r: String)
    ensures
        r@ == rule_text(*rule),
{
    let priority = dec_string(rule.priority as u64);
    let from = show_selector("from", &rule.source);
    let to = show_selector("to", &rule.destination);
    let iif = show_interface("iif", rule.input_interface.as_str());
    let oif = show_interface("oif", rule.output_interface.as_str());
    let mask = if rule.fwmask != 0 {
        let n = hex_string(rule.fwmask as u64);
        String::from_str("/0x").concat(n.as_str())
    } else {
        String::from_str("")
    };
    let mark = if rule.has_fwmark {
        let n = hex_string(rule.fwmark as u64);
        String::from_str("fwmark 0x").concat(n.as_str()).concat(mask.as_str()).concat(" ")
    } else {
        String::from_str("")
    };
    let not = if rule.invert {
        "not "
    } else {
        ""
    };
    let uids = if rule.has_uid_range {
        let a = dec_string(rule.uid_range_start as u64);
        let b = dec_string(rule.uid_range_end as u64);
        String::from_str(not)
            .concat("uidrange ")
            .concat(a.as_str())
            .concat("-")
            .concat(b.as_str())
            .concat(" ")
    } else {
        String::from_str("")
    };
    let table = if is_empty(rule.table_name.as_str()) {
        dec_string(rule.table as u64)
    } else {
        rule.table_name.clone()
    };
    String::from_str(priority.as_str())
        .concat(": ")
        .concat(from.as_str())
        .concat(to.as_str())
        .concat(iif.as_str())
        .concat(oif.as_str())
        .concat(mark.as_str())
        .concat(uids.as_str())
        .concat("lookup ")
        .concat(table.as_str())
}

pub open spec fn address_or_dash(a: Option<IpAddress>) -> Seq<char> {
    match a {
        Some(a) => a.text(),
        None => "-"@,
    }
}

fn show_address(a: &Option<IpAddress>) -> (r: String)
    ensures
        r@ == address_or_dash(*a),
{
    match a {
        Some(a) => ip(a),
        None => String::from_str("-"),
    }
}

/// The two ends of a socket. One without a remote port has no remote.
pub open spec fn tuple_text(socket: Socket) -> Seq<char> {
    let remote = if socket.remote_port == 0 {
        "*:*"@
    } else {
        address_or_dash(socket.remote_address) + ":"@ + dec(socket.remote_port as nat)
    };
    address_or_dash(socket.local_address) +
        ":"@ +
        dec(socket.local_port as nat) +
        " -> "@ +
        remote
}

pub fn socket_tuple(socket: &Socket) -> (r: String)
    ensures
        r@ == tuple_text(*socket),
{
    let local = show_address(&socket.local_address);
    let local_port = dec_string(socket.local_port as u64);
    let remote = if socket.remote_port == 0 {
        String::from_str("*:*")
    } else {
        let address = show_address(&socket.remote_address);
        let port = dec_string(socket.remote_port as u64);
        String::from_str(address.as_str()).concat(":").concat(port.as_str())
    };
    String::from_str(local.as_str())
        .concat(":")
        .concat(local_port.as_str())
        .concat(" -> ")
        .concat(remote.as_str())
}

pub open spec fn status_of_state(state: TcpState) -> Status {
    match state {
        TcpState::Established => Status::Pass,
        TcpState::SynSent | TcpState::CloseWait => Status::Warn,
        TcpState::Listen => Status::Info,
        _ => Status::Skip,
    }
}

pub fn socket_status(state: TcpState) -> (r: Status)
    ensures
        r == status_of_state(state),
{
    match state {
        TcpState::Established => Status::Pass,
        TcpState::SynSent | TcpState::CloseWait => Status::Warn,
        TcpState::Listen => Status::Info,
        _ => Status::Skip,
    }
}

// ---- Time -------------------------------------------------------------------

/// HH:MM:SS.mmm of an instant, at an offset east of UTC.
pub open spec fn clock_text(unix_ms: i64, utc_offset_seconds: i32) -> Seq<char> {
    let today = (unix_ms as int / 1000 + utc_offset_seconds) % 86_400;
    zero_padded(dec((today / 3600) as nat), 2) +
        ":"@ +
        zero_padded(dec((today % 3600 / 60) as nat), 2) +
        ":"@ +
        zero_padded(dec((today % 60) as nat), 2) +
        "."@ +
        zero_padded(dec((unix_ms as int % 1000) as nat), 3)
}

/// HH:MM:SS.mmm in local time, from the offset in force at that instant.
///
/// The timeline is read next to the device's own clock — the user notices a
/// three-hour offset immediately — so this has to be local, not UTC.
pub fn time_of_day(unix_ms: i64, utc_offset_seconds: i32) -> (r: String)
    ensures
        r@ == clock_text(unix_ms, utc_offset_seconds),
{
    // So many whole days that no instant lies before them.
    let days: i128 = 200_000_000_000;
    let ms: i128 = unix_ms as i128 + days * 86_400_000;
    let millis = (ms % 1000) as u64;
    let seconds: i128 = ms / 1000 + utc_offset_seconds as i128;
    let today = (seconds % 86_400) as u64;
    assert(ms / 1000 == unix_ms as int / 1000 + 200_000_000_000 * 86_400);
    assert(millis == unix_ms as int % 1000);
    assert(seconds == (unix_ms as int / 1000 + utc_offset_seconds) + 200_000_000_000 * 86_400);
    assert(today == (unix_ms as int / 1000 + utc_offset_seconds) % 86_400);
    let hours = two_digits(today / 3600);
    let minutes = two_digits(today % 3600 / 60);
    let seconds = two_digits(today % 60);
    let rest = dec_string(millis);
    let rest = zero_pad(rest.as_str(), 3);
    String::from_str(hours.as_str())
        .concat(":")
        .concat(minutes.as_str())
        .concat(":")
        .concat(seconds.as_str())
        .concat(".")
        .concat(rest.as_str())
}

fn two_digits(n: u64) -> (r: String)
    ensures
        r@ == zero_padded(dec(n as nat), 2),
{
    let s = dec_string(n);
    zero_pad(s.as_str(), 2)
}

// ---- Sizes ------------------------------------------------------------------

/// A quotient, rounded to the nearest whole number, and a tie to the even one.
pub open spec fn nearest(n: nat, unit: nat) -> nat {
    let q = n / unit;
    let r = n % unit;
    if 2 * r > unit || (2 * r == unit && q % 2 == 1) {
        q + 1
    } else {
        q
    }
}

/// The distance between the numbers of 53 significant bits around a number.
pub open spec fn spacing(n: nat) -> nat
    decreases n,
{
    if n < 0x20_0000_0000_0000 {
        1
    } else {
        2 * spacing(n / 2)
    }
}

/// A number to 53 significant bits.
pub open spec fn to_53_bits(n: nat) -> nat {
    nearest(n, spacing(n)) * spacing(n)
}

/// A quotient with so many decimals (one or two).
pub open spec fn decimal(n: nat, unit: nat, one: nat, decimals: nat) -> Seq<char> {
    let x = nearest(n * one, unit);
    dec(x / one) + "."@ + zero_padded(dec(x % one), decimals)
}

/// A size in words, of a number to 53 significant bits: below a kibibyte in
/// bytes, then with one decimal, and from a gibibyte on with two.
pub open spec fn size_text(value: u64) -> Seq<char> {
    let n = to_53_bits(value as nat);
    if n < 0x400 {
        dec(n) + " B"@
    } else if n < 0x10_0000 {
        decimal(n, 0x400, 10, 1) + " KiB"@
    } else if n < 0x4000_0000 {
        decimal(n, 0x10_0000, 10, 1) + " MiB"@
    } else {
        decimal(n, 0x4000_0000, 100, 2) + " GiB"@
    }
}

fn round_to_nearest(n: u128, unit: u128) -> (r: u128)
    requires
        0 < unit <= 0x1_0000_0000,
        n <= 0xff_ffff_ffff_ffff_ffff,
    ensures
        r == nearest(n as nat, unit as nat),
{
    let q = n / unit;
    let rest = n % unit;
    assert(q <= n) by (nonlinear_arith)
        requires
            q == n / unit,
            unit > 0,
    ;
    if 2 * rest > unit || (2 * rest == unit && q % 2 == 1) {
        q + 1
    } else {
        q
    }
}

proof fn lemma_spacing(n: nat, u: nat)
    requires
        u > 0,
    ensures
        n / u >= 0x20_0000_0000_0000 ==> spacing(n / u) == 2 * spacing(n / (2 * u)),
{
    if n / u >= 0x20_0000_0000_0000 {
        vstd::arithmetic::div_mod::lemma_div_denominator(n as int, u as int, 2);
        assert(u * 2 == 2 * u);
    }
}

fn significant(value: u64) -> (r: u128)
    ensures
        r == to_53_bits(value as nat),
        r <= 0x2_0000_0000_0000_0000,
{
    let n: u128 = value as u128;
    let mut unit: u128 = 1;
    assert(n / 1 == n);
    assert(1 * spacing(n as nat) == spacing(n as nat));
    while n / unit >= 0x20_0000_0000_0000
        invariant
            n == value,
            0 < unit,
            unit <= 0x1000,
            spacing(n as nat) == unit * spacing((n / unit) as nat),
        decreases 0x1000 - unit,
    {
        let ghost u = unit as nat;
        proof {
            lemma_spacing(n as nat, u);
            let (a, b) = (u, spacing((n as nat) / (2 * u)));
            assert(a * (2 * b) == (2 * a) * b) by (nonlinear_arith);
            // A quotient of 2^53 or more leaves the divisor below 2^11.
            assert(u < 0x800) by (nonlinear_arith)
                requires
                    u > 0,
                    (n as nat) / u >= 0x20_0000_0000_0000,
                    n <= 0xffff_ffff_ffff_ffff,
            ;
        }
        unit = unit * 2;
    }
    let ghost q = (n / unit) as nat;
    assert(spacing(q) == 1);
    assert(spacing(n as nat) == unit) by {
        let u = unit as nat;
        let one = spacing(q);
        assert(u * one == u) by (nonlinear_arith)
            requires
                one == 1,
        ;
    }
    let rounded = round_to_nearest(n, unit);
    assert(rounded <= 0x20_0000_0000_0000) by {
        assert(n / unit < 0x20_0000_0000_0000);
    }
    assert(rounded * unit <= 0x20_0000_0000_0000 * unit) by (nonlinear_arith)
        requires
            rounded <= 0x20_0000_0000_0000,
            unit > 0,
    ;
    rounded * unit
}

fn show_decimal(n: u128, unit: u128, one: u128, decimals: usize) -> (r: String)
    requires
        0 < unit <= 0x1_0000_0000,
        0 < one <= 100,
        n <= 0x2_0000_0000_0000_0000,
        n * one / (unit as int) < 0xffff_ffff_ffff_ffff,
    ensures
        r@ == decimal(n as nat, unit as nat, one as nat, decimals as nat),
{
    assert(n * one <= 0x2_0000_0000_0000_0000 * 100) by (nonlinear_arith)
        requires
            n <= 0x2_0000_0000_0000_0000,
            one <= 100,
    ;
    let x = round_to_nearest(n * one, unit);
    assert(x / one <= x && x % one < one) by (nonlinear_arith)
        requires
            one > 0,
    ;
    let whole = dec_string((x / one) as u64);
    let part = dec_string((x % one) as u64);
    let part = zero_pad(part.as_str(), decimals);
    String::from_str(whole.as_str()).concat(".").concat(part.as_str())
}

/// A size in words.
pub fn bytes(value: u64) -> (r: String)
    ensures
        r@ == size_text(value),
{
    let n = significant(value);
    if n < 0x400 {
        let s = dec_string(n as u64);
        String::from_str(s.as_str()).concat(" B")
    } else if n < 0x10_0000 {
        let s = show_decimal(n, 0x400, 10, 1);
        String::from_str(s.as_str()).concat(" KiB")
    } else if n < 0x4000_0000 {
        let s = show_decimal(n, 0x10_0000, 10, 1);
        String::from_str(s.as_str()).concat(" MiB")
    } else {
        let s = show_decimal(n, 0x4000_0000, 100, 2);
        String::from_str(s.as_str()).concat(" GiB")
    }
}

} // verus!
