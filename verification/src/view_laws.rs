//! What the screens, the command line and a snapshot show of what they are given.
use vstd::prelude::*;

use crate::app::{matches_query, place_of, with_check};
use crate::capture::PacketSaid;
use crate::cli::{
    check_line, default_options, default_route_lines, read_options, status_mark, InvocationSaid,
    Options,
};
use crate::format::{
    chip_said, clock_text, nearest, route_text, rule_text, severity_text, size_text, status_of,
    status_of_severity, status_of_state, to_53_bits, tuple_text,
};
use crate::platform::start::InstalledApp;
use crate::proto::{
    AndroidNetwork, AndroidNetworkState, AppNetworkState, CapturedPacket, Check, CheckStatus,
    DiagnoseResponse, EventSeverity, EventSource, Finding, FindingSeverity, GetSnapshotRequest,
    Interface, Route, RouteLookup, RoutingRule, Snapshot, Socket, TcpState, Transport,
    VpnAssessment,
};
use crate::snapshot::{
    after_attribute, after_stat, counts_told, no_counts, shows, QdiscCounts, SnapshotParts,
    TcAttribute, TcStats2,
};
use crate::text::{dec, hex, lowercase, occurs_in, sdec, starts_with, trim};
use crate::text_laws::law_a_decimal_is_read_back;
use crate::ui::{CheckRow, Status};
use crate::view::{
    active_network, app_detail_said, check_row_said, count_chips, default_in_table, ends_text,
    finding_row_said, framework_chips, has_selector, in_table, interface_before, interface_chips,
    ipv6_off, kept, lookup_said, overview_said, packet_row_said, socket_before, socket_row_said,
    source_text, status_of_event, vpn_fields, SocketFilters,
};

verus! {

// ---- Statuses -------------------------------------------------------------------------

/// A check is shown in the colour of its outcome.
pub proof fn law_colours_of_checks(s: CheckStatus)
    ensures
        status_of(s) == Status::Pass <==> s == CheckStatus::Pass,
        status_of(s) == Status::Fail <==> s == CheckStatus::Fail,
        status_of(s) == Status::Warn <==> s == CheckStatus::Warn,
        status_of(s) == Status::Info <==> s == CheckStatus::Info,
{
}

/// A finding is shown as a failure from a high severity on, a medium one as a warning,
/// and a low one for information.
pub proof fn law_colours_of_findings(s: FindingSeverity)
    ensures
        status_of_severity(s) == Status::Fail <==> s == FindingSeverity::Critical || s
            == FindingSeverity::High,
        status_of_severity(s) == Status::Warn <==> s == FindingSeverity::Medium,
        status_of_severity(s) == Status::Info <==> s == FindingSeverity::Low,
        status_of_severity(s) != Status::Pass,
{
}

/// An established socket is well, one that waits for an answer or for its app is worth a
/// warning, and one that listens is told.
pub proof fn law_colours_of_sockets(s: TcpState)
    ensures
        status_of_state(s) == Status::Pass <==> s == TcpState::Established,
        status_of_state(s) == Status::Warn <==> s == TcpState::SynSent || s == TcpState::CloseWait,
        status_of_state(s) == Status::Info <==> s == TcpState::Listen,
        status_of_state(s) != Status::Fail,
{
}

/// An event is shown the more strongly the more it matters, and with its source.
pub proof fn law_colours_of_events(s: EventSeverity)
    ensures
        status_of_event(s) == Status::Fail <==> s == EventSeverity::Warning,
        status_of_event(s) == Status::Warn <==> s == EventSeverity::Notice,
        status_of_event(s) == Status::Info <==> s == EventSeverity::Info,
        source_text(EventSource::Kernel) == "KRNL"@,
        source_text(EventSource::Framework) == "FMWK"@,
        source_text(EventSource::Daemon) == "DMON"@,
{
}

// ---- Lines ----------------------------------------------------------------------------

/// A default route by a gateway reads as such, with the interface of its first hop.
pub proof fn law_a_default_route_reads(r: Route)
    requires
        r.is_default,
        r.next_hops@.len() > 0,
        r.next_hops@[0].out_interface_name@.len() > 0,
    ensures
        r.next_hops@[0].gateway is None ==> starts_with(
            route_text(r),
            "default dev "@ + r.next_hops@[0].out_interface_name@,
        ),
        r.next_hops@[0].gateway matches Some(g) ==> (g.addr@.len() > 0 ==> starts_with(
            route_text(r),
            "default via "@ + g.text() + " dev "@ + r.next_hops@[0].out_interface_name@,
        )),
{
    reveal_strlit("default");
    reveal_strlit(" ");
    reveal_strlit("default via ");
    reveal_strlit("default dev ");
    reveal_strlit("via ");
    reveal_strlit("dev ");
    reveal_strlit(" dev ");
    reveal_strlit("");
    let t = route_text(r);
    let name = r.next_hops@[0].out_interface_name@;
    assert("default"@ + " "@ + "via "@ =~= "default via "@);
    assert("default"@ + " "@ + "dev "@ =~= "default dev "@);
    assert(" "@ + "dev "@ =~= " dev "@);
    match r.next_hops@[0].gateway {
        Some(g) => if g.addr@.len() > 0 {
            let head = "default via "@ + g.text() + " dev "@ + name;
            assert(t.take(head.len() as int) =~= head);
        },
        None => {
            let head = "default dev "@ + name;
            assert(t.take(head.len() as int) =~= head);
        },
    }
}

/// A rule reads from its number to its table: a rule without selectors says nothing in
/// between.
pub proof fn law_a_rule_reads(r: RoutingRule)
    requires
        r.source is None && r.destination is None && r.input_interface@.len() == 0
            && r.output_interface@.len() == 0,
        r.table_name@.len() > 0,
    ensures
        starts_with(rule_text(r), dec(r.priority as nat) + ": "@),
        !r.has_fwmark && !r.has_uid_range ==> rule_text(r) == dec(r.priority as nat) + ": lookup "@
            + r.table_name@,
        !r.has_fwmark && r.has_uid_range && r.invert ==> starts_with(
            rule_text(r),
            dec(r.priority as nat) + ": not uidrange "@ + dec(r.uid_range_start as nat) + "-"@ + dec(
                r.uid_range_end as nat,
            ),
        ),
        !r.has_fwmark && r.has_uid_range && !r.invert ==> starts_with(
            rule_text(r),
            dec(r.priority as nat) + ": uidrange "@ + dec(r.uid_range_start as nat) + "-"@ + dec(
                r.uid_range_end as nat,
            ),
        ),
        r.has_fwmark ==> starts_with(
            rule_text(r),
            dec(r.priority as nat) + ": fwmark 0x"@ + hex(r.fwmark as nat),
        ),
{
    reveal_strlit("");
    reveal_strlit(": ");
    reveal_strlit("lookup ");
    reveal_strlit(": lookup ");
    reveal_strlit("not ");
    reveal_strlit("uidrange ");
    reveal_strlit(": not uidrange ");
    reveal_strlit(": uidrange ");
    reveal_strlit("fwmark 0x");
    reveal_strlit(": fwmark 0x");
    assert(": "@ + "lookup "@ =~= ": lookup "@);
    assert(": "@ + "not "@ + "uidrange "@ =~= ": not uidrange "@);
    assert(": "@ + "uidrange "@ =~= ": uidrange "@);
    assert(": "@ + "fwmark 0x"@ =~= ": fwmark 0x"@);
    let t = rule_text(r);
    let p = dec(r.priority as nat);
    assert(t.take((p + ": "@).len() as int) =~= p + ": "@);
    let range = dec(r.uid_range_start as nat) + "-"@ + dec(r.uid_range_end as nat);
    if r.has_fwmark {
        let head = p + ": fwmark 0x"@ + hex(r.fwmark as nat);
        assert(t.take(head.len() as int) =~= head);
    } else if r.has_uid_range {
        if r.invert {
            let head = p + ": not uidrange "@ + dec(r.uid_range_start as nat) + "-"@ + dec(
                r.uid_range_end as nat,
            );
            assert(t.take(head.len() as int) =~= head);
        } else {
            let head = p + ": uidrange "@ + dec(r.uid_range_start as nat) + "-"@ + dec(
                r.uid_range_end as nat,
            );
            assert(t.take(head.len() as int) =~= head);
        }
    } else {
        assert(t =~= p + ": lookup "@ + r.table_name@);
    }
}

/// A socket reads from this end to the other; without a port there is no other end.
pub proof fn law_a_socket_reads_from_this_end(s: Socket)
    requires
        s.local_address is Some,
        s.remote_address is Some,
    ensures
        starts_with(tuple_text(s), (s.local_address->0).text() + ":"@ + dec(s.local_port as nat) + " -> "@),
        s.remote_port != 0 ==> tuple_text(s) == (s.local_address->0).text() + ":"@ + dec(s.local_port as nat)
            + " -> "@ + ((s.remote_address->0).text() + ":"@ + dec(s.remote_port as nat)),
        s.remote_port == 0 ==> tuple_text(s) == (s.local_address->0).text() + ":"@ + dec(s.local_port as nat)
            + " -> "@ + "*:*"@,
{
    let head = (s.local_address->0).text() + ":"@ + dec(s.local_port as nat) + " -> "@;
    assert(tuple_text(s).take(head.len() as int) =~= head);
}

/// A clock shows the same at an offset as it would at that much later without one, and
/// the same every day.
pub proof fn law_a_clock_goes_by_its_offset(ms: i64, offset: i32)
    requires
        -0x7fff_ffff_ffff < ms < 0x7fff_ffff_ffff,
    ensures
        clock_text(ms, offset) == clock_text((ms + 1000 * offset) as i64, 0),
        clock_text(ms, offset) == clock_text((ms + 86_400_000) as i64, offset),
{
    let m = ms as int;
    assert((m + 1000 * offset) / 1000 == m / 1000 + offset);
    assert((m + 1000 * offset) % 1000 == m % 1000);
    assert((m + 86_400_000) / 1000 == m / 1000 + 86_400);
    assert((m + 86_400_000) % 1000 == m % 1000);
    let t = m / 1000 + offset;
    assert((t + 86_400) % 86_400 == t % 86_400);
}

/// A quotient is rounded to the nearest whole number.
pub proof fn law_rounding_goes_to_the_nearest(n: nat, unit: nat)
    requires
        unit > 0,
    ensures
        2 * (nearest(n, unit) * unit - n) <= unit,
        2 * (n - nearest(n, unit) * unit) <= unit,
        n % unit == 0 ==> nearest(n, unit) * unit == n,
{
    let (q, r) = (n / unit, n % unit);
    vstd::arithmetic::div_mod::lemma_fundamental_div_mod(n as int, unit as int);
    assert(q * unit == unit * q) by (nonlinear_arith);
    assert((q + 1) * unit == q * unit + unit) by (nonlinear_arith);
    assert(0 <= r < unit);
}

/// Sizes below a kibibyte are told in bytes, as they are.
pub proof fn law_small_sizes_are_told_as_they_are(n: u64)
    requires
        n < 1024,
    ensures
        size_text(n) == dec(n as nat) + " B"@,
{
    assert(to_53_bits(n as nat) == n) by {
        assert(crate::format::spacing(n as nat) == 1);
        law_rounding_goes_to_the_nearest(n as nat, 1);
    }
}

// ---- Screens --------------------------------------------------------------------------

/// The network that is shown is the framework's first with the netId in use, and without
/// one the first default one.
pub proof fn law_which_network_is_shown(state: AndroidNetworkState, k: int)
    requires
        0 <= k < state.networks@.len(),
    ensures
        state.networks@[k].net_id == state.active_net_id && (forall|i: int|
            0 <= i < k ==> (#[trigger] state.networks@[i]).net_id != state.active_net_id) ==> active_network(
            Some(state),
        ) == Some(state.networks@[k]),
        active_network(None) is None,
{
    crate::diag::report_laws::law_which_network_is_read(state, state.active_net_id, k);
}

/// The overview shows the network in use: its netId, its interface, its MTU where it has
/// one; and how much was collected.
pub proof fn law_what_the_overview_shows(s: Snapshot, n: AndroidNetwork)
    requires
        active_network(s.android_state) == Some(n),
    ensures
        ({
            let o = overview_said(s);
            &&& o.connected
            &&& o.net_id == sdec(n.net_id as int)
            &&& n.link_properties matches Some(lp) ==> (lp.interface_name@.len() > 0 ==> o.interface_name
                == lp.interface_name@) && (lp.mtu > 0 ==> o.mtu == sdec(lp.mtu as int))
            &&& o.framework_chips == framework_chips(Some(n))
            &&& o.warnings.len() == s.collection_warnings@.len()
            &&& s.socket_summary matches Some(m) ==> o.sockets_line == dec(m.total as nat) + " total, "@
                + dec(m.established as nat) + " established"@
            &&& s.clat matches Some(c) ==> (!c.active ==> o.clat_line.len() == 0)
        }),
{
    reveal_strlit("");
}

/// An app is shown with its paths, IPv4's and then IPv6's, each well or failed, and with
/// its VPN where there is one.
pub proof fn law_an_app_is_shown(state: AppNetworkState)
    ensures
        ({
            let a = app_detail_said(state);
            &&& a.chips.len() == 2
            &&& a.chips[0].status == Status::Pass <==> state.ipv4_path_ok
            &&& a.chips[1].status == Status::Pass <==> state.ipv6_path_ok
            &&& a.vpn_present <==> (state.vpn matches Some(v) && v.vpn_present)
            &&& a.vpn_chip.status == Status::Pass <==> (state.vpn matches Some(v) && v.app_uses_vpn)
            &&& state.app matches Some(app) ==> a.package == app.package_name@ && (app.label@.len() > 0
                ==> a.label == app.label@)
            &&& a.summary == state.summary@ && a.firewall == state.firewall_note@
            &&& a.sockets.len() <= 40 && a.rules.len() <= 12
        }),
{
}

/// A socket is shown with its state, its ends and its owner, and with its netId where it
/// is pinned to one.
pub proof fn law_a_socket_is_shown(s: Socket, owner: Seq<char>)
    ensures
        ({
            let row = socket_row_said(s, owner);
            &&& row.owner == owner && row.status == status_of_state(s.state) && row.tuple == tuple_text(s)
            &&& starts_with(row.meta, "uid "@ + dec(s.uid as nat))
            &&& s.has_mark && s.net_id != 0 ==> starts_with(
                row.meta,
                "uid "@ + dec(s.uid as nat) + ("  netId "@ + dec(s.net_id as nat)),
            )
        }),
{
    let row = socket_row_said(s, owner);
    let head = "uid "@ + dec(s.uid as nat);
    assert(row.meta.take(head.len() as int) =~= head);
    if s.has_mark && s.net_id != 0 {
        let more = head + ("  netId "@ + dec(s.net_id as nat));
        assert(row.meta.take(more.len() as int) =~= more);
    }
}

/// A chip is shown of a network for what it is: validated or not, metered or not, behind
/// a portal, a VPN, with the internet.
pub proof fn law_chips_of_a_network(n: AndroidNetwork)
    ensures
        ({
            let chips = framework_chips(Some(n));
            let c = n.capabilities;
            &&& chips[0] == chip_said("VALIDATED"@, Status::Pass) <==> (c matches Some(c) && c.validated)
            &&& chips[1] == chip_said("UNMETERED"@, Status::Pass) <==> (c matches Some(c) && c.not_metered)
            &&& chips.contains(chip_said("PORTAL"@, Status::Fail)) <==> (c matches Some(c)
                && c.captive_portal)
            &&& chips.contains(chip_said("VPN"@, Status::Info)) <==> n.transports@.contains(Transport::Vpn)
            &&& chips.contains(chip_said("INTERNET"@, Status::Pass)) <==> (c matches Some(c) && c.internet)
        }),
        framework_chips(None).len() == 1 && framework_chips(None)[0].status == Status::Skip,
{
    reveal_strlit("VALIDATED");
    reveal_strlit("NOT VALIDATED");
    reveal_strlit("UNMETERED");
    reveal_strlit("METERED");
    reveal_strlit("PORTAL");
    reveal_strlit("VPN");
    reveal_strlit("INTERNET");
    assert("VALIDATED"@.len() == 9 && "UNMETERED"@.len() == 9 && "METERED"@.len() == 7);
    assert("PORTAL"@.len() == 6 && "VPN"@.len() == 3 && "INTERNET"@.len() == 8);
    assert("NOT VALIDATED"@.len() == 13);
    let chips = framework_chips(Some(n));
    let portal = n.capabilities is Some && (n.capabilities->0).captive_portal;
    let vpn = n.transports@.contains(Transport::Vpn);
    let net = n.capabilities is Some && (n.capabilities->0).internet;
    let a: int = if portal { 3 } else { 2 };
    let b: int = if vpn { a + 1 } else { a };
    if portal {
        assert(chips[2] == chip_said("PORTAL"@, Status::Fail));
    }
    if vpn {
        assert(chips[a] == chip_said("VPN"@, Status::Info));
    }
    if net {
        assert(chips[b] == chip_said("INTERNET"@, Status::Pass));
    }
}

/// An interface is shown to be up or down, without a carrier where it is up and not
/// running, and with IPv6 off where it is.
pub proof fn law_chips_of_an_interface(i: Interface)
    ensures
        ({
            let chips = interface_chips(i);
            let up = i.flags matches Some(f) && f.up;
            &&& up ==> chips[0] == chip_said("UP"@, Status::Pass)
            &&& !up ==> chips[0] == chip_said("DOWN"@, Status::Skip)
            &&& chips.contains(chip_said("NO CARRIER"@, Status::Warn)) <==> (i.flags matches Some(f) && f.up
                && !f.running)
            &&& chips.contains(chip_said("IPv6 OFF"@, Status::Fail)) <==> (i.sysctls matches Some(s)
                && s.ipv6_disabled)
        }),
{
    let chips = interface_chips(i);
    let quiet = i.flags is Some && (i.flags->0).up && !(i.flags->0).running;
    if quiet {
        assert(chips[1] == chip_said("NO CARRIER"@, Status::Warn));
    }
    if ipv6_off(i) {
        assert(chips.last() == chip_said("IPv6 OFF"@, Status::Fail));
    }
}

/// Interfaces that are up come first, then those with more addresses, then by number.
pub proof fn law_which_interface_comes_first(a: Interface, b: Interface)
    ensures
        (a.flags matches Some(f) && f.up) && !(b.flags matches Some(f) && f.up) ==> interface_before()(a, b)
            && !interface_before()(b, a),
        a.flags == b.flags && a.addresses@.len() > b.addresses@.len() ==> interface_before()(a, b)
            && !interface_before()(b, a),
        a.flags == b.flags && a.addresses@.len() == b.addresses@.len() ==> (interface_before()(a, b)
            <==> a.index < b.index),
{
}

/// The rules that define a policy are those that select by uid or by mark.
pub proof fn law_which_rules_are_shown(r: RoutingRule)
    ensures
        has_selector()(r) <==> r.has_uid_range || r.has_fwmark,
{
}

/// A table holds its own routes, and among them its default ones.
pub proof fn law_which_routes_a_table_holds(r: Route, table: u32)
    ensures
        in_table(table)(r) <==> r.table == table,
        default_in_table(table)(r) <==> in_table(table)(r) && r.is_default,
{
}

/// A check is shown under its title, or under its key where it has none, with its
/// outcome and its words.
pub proof fn law_a_check_is_shown(c: Check)
    ensures
        ({
            let row = check_row_said()(c);
            &&& row.key == c.key@ && row.detail == c.detail@ && row.status == status_of(c.status)
            &&& c.title@.len() > 0 ==> row.title == c.title@
            &&& c.title@.len() == 0 ==> row.title == c.key@
            &&& c.duration_ms > 0 ==> row.duration == dec(c.duration_ms as nat) + " ms"@
        }),
{
}

/// A finding is shown with its severity, its confidence and what to do about it.
pub proof fn law_a_finding_is_shown(f: Finding)
    requires
        f.confidence <= 100,
    ensures
        ({
            let row = finding_row_said()(f);
            &&& row.key == f.key@ && row.title == f.title@ && row.confidence == f.confidence
            &&& row.status == status_of_severity(f.severity)
            &&& row.severity == severity_text(f.severity)
            &&& row.actions.len() == f.suggested_actions@.len()
            &&& forall|i: int| 0 <= i < row.actions.len() ==> #[trigger] row.actions[i]
                == f.suggested_actions@[i]@
        }),
{
}

/// The counts of a report are shown in its order, and none of nothing but the passes.
pub proof fn law_counts_of_a_report(r: DiagnoseResponse)
    ensures
        ({
            let chips = count_chips(r);
            &&& chips[0] == chip_said(dec(r.passed as nat) + " pass"@, Status::Pass)
            &&& r.failed > 0 ==> chips[1] == chip_said(dec(r.failed as nat) + " fail"@, Status::Fail)
            &&& r.skipped > 0 ==> chips.last() == chip_said(dec(r.skipped as nat) + " skip"@, Status::Skip)
            &&& r.failed == 0 && r.warned > 0 ==> chips[1] == chip_said(
                dec(r.warned as nat) + " warn"@,
                Status::Warn,
            )
            &&& chips.len() == 1 + (if r.failed > 0 { 1int } else { 0 }) + (if r.warned > 0 { 1int } else { 0 })
                + (if r.skipped > 0 { 1int } else { 0 })
        }),
{
}

/// A filter keeps the sockets that each of its parts keeps: the established ones, those
/// of apps, and those that do not listen.
pub proof fn law_which_sockets_are_shown(f: SocketFilters, s: Socket)
    ensures
        !f.only_established && !f.only_apps && !f.hide_listen ==> kept(f)(s),
        f.only_established && s.state != TcpState::Established ==> !kept(f)(s),
        f.only_apps && s.uid < f.app_uid_floor ==> !kept(f)(s),
        f.hide_listen && s.state == TcpState::Listen ==> !kept(f)(s),
        s.state == TcpState::Established && s.uid >= f.app_uid_floor ==> kept(f)(s),
{
}

/// Sockets come by their uid, and those of one uid by the number of their state.
pub proof fn law_which_socket_comes_first(a: Socket, b: Socket)
    ensures
        a.uid < b.uid ==> socket_before()(a, b) && !socket_before()(b, a),
        a.uid == b.uid && a.state == TcpState::Established && b.state == TcpState::Listen
            ==> socket_before()(a, b) && !socket_before()(b, a),
        a.uid == b.uid && a.state == b.state ==> !socket_before()(a, b),
{
}

/// A lookup that failed is shown as a failure in the kernel's words, and one that was
/// not made as such.
pub proof fn law_a_lookup_is_shown(family: Seq<char>, lookup: Option<RouteLookup>, egress: Seq<char>, table: u32)
    ensures
        ({
            let f = lookup_said(family, lookup, egress, table);
            &&& f.key == family
            &&& f.status == Status::Fail <==> (lookup matches Some(l) && l.error is Some)
            &&& lookup is None ==> f.value == "not looked up"@
            &&& lookup matches Some(l) ==> (l.error matches Some(e) ==> f.value == "no route: "@ + e.message@)
            &&& lookup matches Some(l) ==> (l.error is None && l.route is Some ==> starts_with(
                f.value,
                "table "@ + dec(table as nat) + " via "@,
            ))
        }),
{
    if lookup is Some && (lookup->0).error is None && (lookup->0).route is Some {
        let f = lookup_said(family, lookup, egress, table);
        let head = "table "@ + dec(table as nat) + " via "@;
        assert(f.value.take(head.len() as int) =~= head);
    }
}

/// Nothing is shown of a VPN that is not there. Of one that is it is shown whether the
/// app goes through it, and a failure exactly where framework and kernel disagree.
pub proof fn law_a_vpn_is_shown(v: VpnAssessment)
    ensures
        ({
            let f = vpn_fields(v);
            &&& f.len() == 0 <==> !v.vpn_present
            &&& v.vpn_present ==> f[0].value == v.vpn_interface@ && f[1].value == if v.app_uses_vpn {
                "goes through the VPN"@
            } else {
                "bypasses the VPN"@
            }
            &&& (exists|i: int| 0 <= i < f.len() && (#[trigger] f[i]).status == Status::Fail)
                <==> v.vpn_present && v.disagreement
            &&& (exists|i: int| 0 <= i < f.len() && (#[trigger] f[i]).status == Status::Warn)
                <==> v.vpn_present && v.split_tunnel
        }),
{
    let f = vpn_fields(v);
    if v.vpn_present {
        let a: int = if v.bypass_reason@.len() > 0 { 3 } else { 2 };
        let b: int = if v.split_tunnel { a + 1 } else { a };
        if v.split_tunnel {
            assert(f[a].status == Status::Warn);
        }
        if v.disagreement {
            assert(f[b].status == Status::Fail);
        }
    }
}

/// A packet with an MTU is shown as a failure, a reset as a warning, and every other
/// without a colour.
pub proof fn law_a_packet_is_shown(p: CapturedPacket, offset: i32)
    ensures
        p.summary matches Some(s) ==> {
            let row = packet_row_said(p, offset);
            let said = crate::capture::packet_said(s);
            &&& row.status == Status::Fail <==> said.mtu != 0
            &&& row.status == Status::Warn <==> said.mtu == 0 && said.rst
        },
        p.summary is None ==> packet_row_said(p, offset).status == Status::Skip,
{
}

/// The ends of a packet are shown with the source first, and the arrow points away from
/// this device where the packet goes out.
pub proof fn law_ends_of_a_packet_are_shown(s: PacketSaid)
    ensures
        ends_text(s, true) is Some <==> s.source is Some && s.destination is Some,
        s.source is Some && s.destination is Some && s.source_port == 0 && s.destination_port == 0 ==> {
            &&& ends_text(s, true) == Some(
                crate::capture::endpoint_text(s.source) + " → "@ + crate::capture::endpoint_text(
                    s.destination,
                ),
            )
            &&& ends_text(s, false) == Some(
                crate::capture::endpoint_text(s.source) + " ← "@ + crate::capture::endpoint_text(
                    s.destination,
                ),
            )
        },
{
    reveal_strlit("");
    reveal_strlit(" ");
    reveal_strlit("→");
    reveal_strlit("←");
    reveal_strlit(" → ");
    reveal_strlit(" ← ");
    if s.source is Some && s.destination is Some && s.source_port == 0 && s.destination_port == 0 {
        let (a, b) = (
            crate::capture::endpoint_text(s.source),
            crate::capture::endpoint_text(s.destination),
        );
        assert(ends_text(s, true)->0 =~= a + " → "@ + b);
        assert(ends_text(s, false)->0 =~= a + " ← "@ + b);
    }
}

// ---- Lists ----------------------------------------------------------------------------

/// An app is found by a part of its label or of its package, in any case, or by its uid.
pub proof fn law_which_apps_are_found(query: Seq<char>, a: InstalledApp)
    requires
        trim(query).len() > 0,
    ensures
        occurs_in(lowercase(a.label@), lowercase(query)) ==> matches_query(query)(a),
        occurs_in(lowercase(a.package@), lowercase(query)) ==> matches_query(query)(a),
        lowercase(query) == dec(a.uid as nat) ==> matches_query(query)(a),
        matches_query(query)(a) ==> occurs_in(lowercase(a.label@), lowercase(query)) || occurs_in(
            lowercase(a.package@),
            lowercase(query),
        ) || lowercase(query) == dec(a.uid as nat),
{
}

/// A check that is restated takes the place of its row, and one that is new comes last;
/// the other rows stay.
pub proof fn law_a_check_takes_its_row(rows: Seq<CheckRow>, row: CheckRow, k: int)
    ensures
        0 <= k < rows.len() && rows[k].key@ == row.key@ && (forall|i: int|
            0 <= i < k ==> (#[trigger] rows[i]).key@ != row.key@) ==> with_check(rows, row) == rows.update(
            k,
            row,
        ),
        (forall|i: int| 0 <= i < rows.len() ==> (#[trigger] rows[i]).key@ != row.key@) ==> with_check(
            rows,
            row,
        ) == rows.push(row),
{
    if 0 <= k < rows.len() && rows[k].key@ == row.key@ && (forall|i: int|
        0 <= i < k ==> (#[trigger] rows[i]).key@ != row.key@) {
        lemma_place(rows, row.key@, k);
    }
    if forall|i: int| 0 <= i < rows.len() ==> (#[trigger] rows[i]).key@ != row.key@ {
        lemma_no_place(rows, row.key@);
    }
}

proof fn lemma_place(rows: Seq<CheckRow>, key: Seq<char>, k: int)
    requires
        0 <= k < rows.len(),
        rows[k].key@ == key,
        forall|i: int| 0 <= i < k ==> (#[trigger] rows[i]).key@ != key,
    ensures
        place_of(rows, key) == k,
    decreases k,
{
    if k > 0 {
        let t = rows.skip(1);
        assert(rows[0].key@ != key);
        assert forall|i: int| 0 <= i < k - 1 implies (#[trigger] t[i]).key@ != key by {
            assert(rows[i + 1].key@ != key);
        }
        lemma_place(t, key, k - 1);
    }
}

proof fn lemma_no_place(rows: Seq<CheckRow>, key: Seq<char>)
    requires
        forall|i: int| 0 <= i < rows.len() ==> (#[trigger] rows[i]).key@ != key,
    ensures
        place_of(rows, key) == rows.len(),
    decreases rows.len(),
{
    if rows.len() > 0 {
        let t = rows.skip(1);
        assert(rows[0].key@ != key);
        assert forall|i: int| 0 <= i < t.len() implies (#[trigger] t[i]).key@ != key by {
            assert(rows[i + 1].key@ != key);
        }
        lemma_no_place(t, key);
    }
}

// ---- The command line --------------------------------------------------------------------

/// A command line of the daemon means what its options mean one after the other. The
/// first uid that is allowed owns the socket.
pub proof fn law_an_option_of_the_daemon_sets_its_own(
    rest: Seq<Seq<char>>,
    o: Options,
    uid: u32,
    text: Seq<char>,
)
    ensures
        read_options(seq!["--socket"@, text] + rest, o) == read_options(rest, Options { socket: text, ..o }),
        read_options(seq!["--log"@, text] + rest, o) == read_options(rest, Options { log_filter: text, ..o }),
        read_options(seq!["--expect-package"@, text] + rest, o) == read_options(
            rest,
            Options { expect_package: Some(text), ..o },
        ),
        read_options(seq!["--allow-uid"@, dec(uid as nat)] + rest, o) == read_options(
            rest,
            Options {
                allowed_uids: o.allowed_uids.push(uid),
                socket_owner: if o.socket_owner is None {
                    Some(uid)
                } else {
                    o.socket_owner
                },
                ..o
            },
        ),
        read_options(seq!["--self-test"@] + rest, o) == read_options(rest, Options { self_test: true, ..o }),
        read_options(seq!["--help"@] + rest, o) is Help,
        read_options(seq!["--version"@] + rest, o) is Version,
        read_options(seq!["--socket"@], o) is Refused,
        read_options(Seq::empty(), o) == InvocationSaid::Run(o),
{
    law_a_decimal_is_read_back(uid as nat, u32::MAX as nat);
    reveal_strlit("--socket");
    reveal_strlit("--log");
    reveal_strlit("--expect-package");
    reveal_strlit("--allow-uid");
    reveal_strlit("--self-test");
    reveal_strlit("--help");
    reveal_strlit("--version");
    reveal_strlit("-h");
    assert("--socket"@.len() == 8 && "--log"@.len() == 5 && "--expect-package"@.len() == 16);
    assert("--allow-uid"@.len() == 11 && "--self-test"@.len() == 11 && "--help"@.len() == 6);
    assert("--allow-uid"@[2] != "--self-test"@[2] && "--version"@.len() == 9 && "-h"@.len() == 2);
    let (a, b, c, d) = (
        seq!["--socket"@, text],
        seq!["--log"@, text],
        seq!["--expect-package"@, text],
        seq!["--allow-uid"@, dec(uid as nat)],
    );
    assert((a + rest).skip(2) =~= rest);
    assert((b + rest).skip(2) =~= rest);
    assert((c + rest).skip(2) =~= rest);
    assert((d + rest).skip(2) =~= rest);
    assert((seq!["--self-test"@] + rest).skip(1) =~= rest);
    if o.socket_owner is Some {
        assert(Some(o.socket_owner->0) == o.socket_owner);
    }
}

/// A daemon that is told nothing listens on its own name, for root alone.
pub proof fn law_what_a_daemon_does_by_default()
    ensures
        ({
            let o = default_options();
            &&& o.socket == "@netdiag"@
            &&& o.allowed_uids.len() == 0 && o.expect_package is None && o.socket_owner is None
            &&& !o.self_test
        }),
{
}

/// A check is printed with the mark of its outcome first.
pub proof fn law_a_check_is_printed_with_its_mark(c: Check)
    ensures
        c.status == CheckStatus::Pass ==> starts_with(check_line(c), "  [PASS] "@),
        c.status == CheckStatus::Fail ==> starts_with(check_line(c), "  [FAIL] "@),
        c.status == CheckStatus::Warn ==> starts_with(check_line(c), "  [WARN] "@),
        c.status == CheckStatus::Skip ==> starts_with(check_line(c), "  [SKIP] "@),
        c.status == CheckStatus::Info ==> starts_with(check_line(c), "  [INFO] "@),
{
    reveal_strlit("  [");
    reveal_strlit("] ");
    reveal_strlit("PASS");
    reveal_strlit("FAIL");
    reveal_strlit("WARN");
    reveal_strlit("SKIP");
    reveal_strlit("INFO");
    reveal_strlit("  [PASS] ");
    reveal_strlit("  [FAIL] ");
    reveal_strlit("  [WARN] ");
    reveal_strlit("  [SKIP] ");
    reveal_strlit("  [INFO] ");
    let t = check_line(c);
    assert("  ["@ + "PASS"@ + "] "@ =~= "  [PASS] "@);
    assert("  ["@ + "FAIL"@ + "] "@ =~= "  [FAIL] "@);
    assert("  ["@ + "WARN"@ + "] "@ =~= "  [WARN] "@);
    assert("  ["@ + "SKIP"@ + "] "@ =~= "  [SKIP] "@);
    assert("  ["@ + "INFO"@ + "] "@ =~= "  [INFO] "@);
    let head = "  ["@ + status_mark(c.status) + "] "@;
    assert(t.take(head.len() as int) =~= head);
}

/// Only default routes are printed, each once and in order.
pub proof fn law_only_default_routes_are_printed(routes: Seq<Route>, r: Route)
    ensures
        default_route_lines(routes.push(r)).len() == default_route_lines(routes).len() + if r.is_default {
            1int
        } else {
            0
        },
        default_route_lines(Seq::empty()).len() == 0,
{
    assert(routes.push(r).drop_last() =~= routes);
}

// ---- Snapshots ----------------------------------------------------------------------------

/// The newer statistics of a queue set what they count, and leave the rest.
pub proof fn law_newer_statistics_count(
    c: QdiscCounts,
    bytes: u64,
    packets: u32,
    qlen: u32,
    backlog: u32,
    drops: u32,
    requeues: u32,
    overlimits: u32,
)
    ensures
        after_stat(c, TcStats2::Basic { bytes, packets }) == (QdiscCounts {
            bytes: bytes as int,
            packets: packets as int,
            ..c
        }),
        ({
            let q = after_stat(c, TcStats2::Queue { qlen, backlog, drops, requeues, overlimits });
            &&& q.drops == drops && q.overlimits == overlimits && q.requeues == requeues
            &&& q.backlog_bytes == backlog && q.backlog_packets == qlen
            &&& q.bytes == c.bytes && q.packets == c.packets
        }),
{
}

/// The older statistics count only where the newer ones have said nothing.
pub proof fn law_older_statistics_fill_in(
    c: QdiscCounts,
    bytes: u64,
    packets: u32,
    drops: u32,
    overlimits: u32,
)
    ensures
        ({
            let q = after_attribute(c, TcAttribute::Stats { bytes, packets, drops, overlimits });
            &&& c.bytes != 0 ==> q.bytes == c.bytes && q.packets == c.packets
            &&& c.bytes == 0 ==> q.bytes == bytes && q.packets == packets
            &&& c.drops != 0 ==> q.drops == c.drops && q.overlimits == c.overlimits
            &&& c.drops == 0 ==> q.drops == drops && q.overlimits == overlimits
            &&& q.requeues == c.requeues && q.backlog_bytes == c.backlog_bytes
        }),
        counts_told(Seq::empty()) == no_counts(),
{
}

/// A snapshot shows what was asked for and nothing else: what was not asked for is not
/// shown, though it was had.
pub proof fn law_a_snapshot_shows_what_was_asked_for(
    s: Snapshot,
    request: GetSnapshotRequest,
    parts: SnapshotParts,
)
    requires
        shows(s, request, parts),
    ensures
        s.interfaces == parts.interfaces && s.android_state == request.android_state,
        s.routes@.to_multiset() == parts.routes@.to_multiset(),
        !request.include_sockets ==> s.sockets@.len() == 0 && s.socket_summary is None,
        !request.include_neighbors ==> s.neighbors@.len() == 0,
        !request.include_qdiscs ==> s.qdiscs@.len() == 0,
        !request.include_firewall ==> s.firewall is None,
        !request.include_sysctls ==> s.sysctls is None,
        !request.include_counters ==> s.counters is None,
        request.include_firewall ==> s.firewall == parts.firewall,
        request.include_sysctls ==> s.sysctls == parts.sysctls,
        request.include_counters ==> s.counters == parts.counters,
        request.include_sockets ==> (parts.sockets matches Ok(all) ==> (all@.len() <= 4096 ==> s.sockets@
            == all@)),
        request.include_neighbors ==> (parts.neighbors matches Ok(all) ==> s.neighbors@.to_multiset()
            == all@.to_multiset()),
{
    crate::collect::routes::law_routes_in_order(parts.routes@);
    if let Ok(all) = parts.neighbors {
        crate::collect::neigh::law_neighbors_in_order(all@);
    }
}

} // verus!
