//! What the shim's lines and numbers mean, told by how they are written, and what a
//! command line of the desktop asks for.
use vstd::prelude::*;

use crate::ip_parse::parse_ip;
use crate::platform::android::{su_text, AndroidPlatform, DaemonStart, StartAction};
use crate::platform::desktop::{read_desktop, DesktopOptions};
use crate::platform::shim::{
    after_line, capabilities_named, dns_mode, framework_told, handle_in, handle_net_id, header_of,
    kind_of, named_transport, named_transports, network_told, nonempty, package_line, said_before,
    severity_of, tells_callback, unscoped, unscoped_addresses, AppSaid, FrameworkSaid,
};
use crate::platform::start::{command_text, quoted, unquoted};
use crate::proto::{
    AndroidNetwork, AndroidNetworkState, EventSeverity, EventSource, FrameworkEventKind,
    NetworkCapabilitiesInfo, NetworkEvent, NetworkEventPayload, PrivateDnsMode, Transport,
};
use crate::text::{dec, join, sdec, split, starts_with, trim};
use crate::text_laws::{
    free_of, is_digit, law_a_decimal_is_read_back, law_a_numeral_is_read_back,
    law_a_signed_number_is_read_back, law_a_text_is_split_at_the_first, law_join_then_split,
};

verus! {

// ---- Events ---------------------------------------------------------------------------

/// The kinds and severities of the shim have its numbers; others are of no kind, and
/// matter as little as can be told.
pub proof fn law_numbers_of_the_shim(n: i32)
    ensures
        kind_of(n) == FrameworkEventKind::Available <==> n == 1,
        kind_of(n) == FrameworkEventKind::Lost <==> n == 2,
        kind_of(n) == FrameworkEventKind::Losing <==> n == 3,
        kind_of(n) == FrameworkEventKind::LinkPropertiesChanged <==> n == 4,
        kind_of(n) == FrameworkEventKind::BlockedStatusChanged <==> n == 5,
        kind_of(n) == FrameworkEventKind::ValidationChanged <==> n == 6,
        kind_of(n) == FrameworkEventKind::DnsServersChanged <==> n == 7,
        kind_of(n) == FrameworkEventKind::Unspecified <==> n < 1 || n > 7,
        severity_of(n) == EventSeverity::Notice <==> n == 2,
        severity_of(n) == EventSeverity::Warning <==> n == 3,
        severity_of(n) == EventSeverity::Info <==> n != 2 && n != 3,
{
}

/// The netId of a handle is its high half: what is in the low half does not matter.
pub proof fn law_a_handle_holds_its_net_id(net_id: u64, low: u64)
    requires
        net_id < 0x8000_0000,
        low < 0x1_0000_0000,
    ensures
        handle_net_id((net_id * 0x1_0000_0000 + low) as u64) == net_id,
{
    assert((net_id * 0x1_0000_0000 + low) / 0x1_0000_0000 == net_id);
}

/// A callback is told as an event of the framework, about the network of its handle.
pub proof fn law_how_a_callback_is_told(
    e: NetworkEvent,
    kind: i32,
    severity: i32,
    handle: u64,
    summary: String,
)
    requires
        tells_callback(e, kind, severity, handle, summary),
    ensures
        e.source == EventSource::Framework && e.summary == summary,
        severity == 3 <==> e.severity == EventSeverity::Warning,
        severity == 2 <==> e.severity == EventSeverity::Notice,
        e.payload matches Some(NetworkEventPayload::Framework(f)) && (kind == 2 <==> f.kind
            == FrameworkEventKind::Lost) && (f.network matches Some(n) && n.network_handle == handle
            && n.net_id == handle_net_id(handle) && f.current_net_id == n.net_id),
{
}

// ---- Packages -------------------------------------------------------------------------

/// A line that was written for an app is read as that app. Its label may hold anything,
/// and an empty one is the package.
pub proof fn law_a_line_of_packages_is_read_back(a: AppSaid)
    requires
        free_of(a.package, '\t'),
    ensures
        ({
            let head = dec(a.uid as nat) + seq!['\t'] + (if a.is_system {
                "1"@
            } else {
                "0"@
            }) + seq!['\t'] + a.package;
            &&& package_line(head + seq!['\t'] + a.label) == Some(
                AppSaid {
                    label: if a.label.len() == 0 {
                        a.package
                    } else {
                        a.label
                    },
                    ..a
                },
            )
            &&& package_line(head) == Some(AppSaid { label: a.package, ..a })
        }),
{
    let uid = dec(a.uid as nat);
    let flag = if a.is_system {
        "1"@
    } else {
        "0"@
    };
    reveal_strlit("1");
    reveal_strlit("0");
    assert("0"@[0] != "1"@[0]);
    law_a_numeral_is_read_back(a.uid as nat, 10);
    law_a_decimal_is_read_back(a.uid as nat, u32::MAX as nat);
    assert(free_of(uid, '\t')) by {
        assert forall|i: int| 0 <= i < uid.len() implies #[trigger] uid[i] != '\t' by {
            assert(is_digit(crate::text::numeral(a.uid as nat, 10)[i]));
        }
    }
    assert(free_of(flag, '\t'));
    let tab = seq!['\t'];
    let head = uid + tab + flag + tab + a.package;
    let full = head + tab + a.label;
    law_a_text_is_split_at_the_first(uid, '\t', flag + tab + a.package + tab + a.label);
    law_a_text_is_split_at_the_first(uid, '\t', flag + tab + a.package);
    law_a_text_is_split_at_the_first(flag, '\t', a.package + tab + a.label);
    law_a_text_is_split_at_the_first(flag, '\t', a.package);
    law_a_text_is_split_at_the_first(a.package, '\t', a.label);
    assert(full =~= uid + tab + (flag + tab + a.package + tab + a.label));
    assert(head =~= uid + tab + (flag + tab + a.package));
    assert(flag + tab + a.package + tab + a.label =~= flag + tab + (a.package + tab + a.label));
}

/// An app of the user comes before one of the system, whatever they are called.
pub proof fn law_whose_apps_come_first(a: AppSaid, b: AppSaid)
    requires
        !a.is_system,
        b.is_system,
    ensures
        said_before()(a, b),
        !said_before()(b, a),
{
}

// ---- Networks ---------------------------------------------------------------------------

/// The names of transports are those of the protocol; each that is known is kept, in
/// order.
pub proof fn law_transports_by_name(names: Seq<Seq<char>>, name: Seq<char>)
    ensures
        named_transport("CELLULAR"@) == Some(Transport::Cellular),
        named_transport("WIFI"@) == Some(Transport::Wifi),
        named_transport("BLUETOOTH"@) == Some(Transport::Bluetooth),
        named_transport("ETHERNET"@) == Some(Transport::Ethernet),
        named_transport("VPN"@) == Some(Transport::Vpn),
        named_transport("USB"@) == Some(Transport::Usb),
        named_transports(names.push(name)) == match named_transport(name) {
            Some(t) => named_transports(names).push(t),
            None => named_transports(names),
        },
        named_transports(Seq::empty()).len() == 0,
{
    reveal_strlit("CELLULAR");
    reveal_strlit("WIFI");
    reveal_strlit("BLUETOOTH");
    reveal_strlit("ETHERNET");
    reveal_strlit("VPN");
    reveal_strlit("USB");
    assert("CELLULAR"@.len() == 8 && "ETHERNET"@.len() == 8 && "CELLULAR"@[0] != "ETHERNET"@[0]);
    assert("VPN"@[0] != "USB"@[0] && "VPN"@.len() == 3 && "USB"@.len() == 3);
    assert("WIFI"@.len() == 4 && "BLUETOOTH"@.len() == 9);
    assert(names.push(name).drop_last() =~= names);
}

/// A server's name means that Private DNS is strict; without one it is opportunistic
/// where it is active, and off where it is not.
pub proof fn law_modes_of_private_dns(server: Seq<char>, active: bool)
    ensures
        dns_mode(server, active) == PrivateDnsMode::Strict <==> server.len() > 0,
        dns_mode(server, active) == PrivateDnsMode::Opportunistic <==> server.len() == 0 && active,
        dns_mode(server, active) == PrivateDnsMode::Off <==> server.len() == 0 && !active,
{
}

/// A scope behind an address is left out.
pub proof fn law_scopes_are_left_out(address: Seq<char>, scope: Seq<char>)
    requires
        free_of(address, '%'),
        free_of(scope, '%'),
    ensures
        unscoped(address + seq!['%'] + scope) == parse_ip(trim(address)),
        unscoped(address) == parse_ip(trim(address)),
{
    let two = seq![address, scope];
    assert forall|i: int| 0 <= i < two.len() implies free_of(#[trigger] two[i], '%') by {}
    law_join_then_split(two, '%');
    reveal_with_fuel(join, 2);
    assert(two.drop_last() =~= seq![address]);
    assert(join(two, seq!['%']) =~= address + seq!['%'] + scope);
    let one = seq![address];
    assert forall|i: int| 0 <= i < one.len() implies free_of(#[trigger] one[i], '%') by {}
    law_join_then_split(one, '%');
}

/// Addresses are kept in order, and what is none is skipped; so are names that are
/// empty.
pub proof fn law_lists_keep_their_order(names: Seq<Seq<char>>, name: Seq<char>)
    ensures
        unscoped_addresses(names.push(name)) == match unscoped(name) {
            Some(ip) => unscoped_addresses(names).push(ip),
            None => unscoped_addresses(names),
        },
        nonempty(names.push(name)) == if name.len() > 0 {
            nonempty(names).push(name)
        } else {
            nonempty(names)
        },
        unscoped_addresses(Seq::empty()).len() == 0,
        nonempty(Seq::empty()).len() == 0,
{
    assert(names.push(name).drop_last() =~= names);
}

/// The capabilities of a network are those whose names are listed. The ranges of a VPN
/// are not among what the shim tells.
pub proof fn law_capabilities_by_name(c: NetworkCapabilitiesInfo, names: Seq<Seq<char>>)
    requires
        capabilities_named(c, names),
    ensures
        c.internet <==> names.contains("INTERNET"@),
        c.validated <==> names.contains("VALIDATED"@),
        c.captive_portal <==> names.contains("CAPTIVE_PORTAL"@),
        c.not_metered <==> names.contains("NOT_METERED"@),
        c.not_vpn <==> names.contains("NOT_VPN"@),
        c.not_roaming <==> names.contains("NOT_ROAMING"@),
        c.not_suspended <==> names.contains("NOT_SUSPENDED"@),
        c.foreground <==> names.contains("FOREGROUND"@),
        c.vpn_uid_ranges@.len() == 0,
{
}

/// A network is told by its fields: the handle, the transports, the capabilities, the
/// interface, its MTU, Private DNS, the domains and the servers, in this order. It is the
/// default one exactly if it is the one in use.
pub proof fn law_a_network_is_told_by_its_fields(
    n: AndroidNetwork,
    fields: Seq<Seq<char>>,
    handle: u64,
    mtu: i32,
    active: u64,
)
    requires
        network_told(n, fields, active),
        fields.len() == 10,
        fields[1] == dec(handle as nat),
        fields[5] == sdec(mtu as int),
    ensures
        n.network_handle == handle,
        n.net_id == handle_net_id(handle),
        n.is_default <==> handle == active && handle != 0,
        n.transports@ == named_transports(split(fields[2], ',')),
        n.capabilities matches Some(c) && (c.internet <==> split(fields[3], ',').contains("INTERNET"@)),
        n.link_properties matches Some(lp) && {
            &&& lp.interface_name@ == fields[4]
            &&& lp.mtu == mtu
            &&& lp.private_dns_active <==> fields[6] == "1"@
            &&& lp.private_dns_server_name@ == fields[7]
            &&& lp.private_dns_mode == PrivateDnsMode::Strict <==> fields[7].len() > 0
            &&& lp.dns_servers@.len() == unscoped_addresses(split(fields[9], ',')).len()
        },
{
    law_a_decimal_is_read_back(handle as nat, u64::MAX as nat);
    law_a_signed_number_is_read_back(mtu as int, i32::MAX as nat);
}

/// A header is read back: the number of the SDK, the handle of the network in use and
/// the background restriction.
pub proof fn law_a_header_is_read_back(fields: Seq<Seq<char>>, sdk: i32, handle: u64, restrict: i32)
    requires
        fields.len() == 5,
        fields[1] == "1"@,
        fields[2] == sdec(sdk as int),
        fields[3] == dec(handle as nat),
        fields[4] == sdec(restrict as int),
    ensures
        header_of(fields) == Some((sdk as int, handle, restrict as int)),
{
    law_a_decimal_is_read_back(handle as nat, u64::MAX as nat);
    law_a_signed_number_is_read_back(sdk as int, i32::MAX as nat);
    law_a_signed_number_is_read_back(restrict as int, i32::MAX as nat);
}

/// What the header says stands in the state; the saver is on where the restriction is
/// the third.
pub proof fn law_a_state_holds_its_header(
    state: AndroidNetworkState,
    s: FrameworkSaid,
    sdk: int,
    handle: u64,
    restrict: int,
)
    requires
        framework_told(state, s),
        s.header == Some((sdk, handle, restrict)),
    ensures
        state.sdk_int == sdk && state.active_network_handle == handle,
        state.active_net_id == handle_net_id(handle),
        state.has_active_network <==> handle != 0,
        state.restrict_background_status == restrict,
        state.data_saver_enabled <==> restrict == 3,
        state.networks@.len() == s.networks.len(),
{
}

/// A line for a network adds it behind the others, with the network in use that stood
/// before it; other lines add none.
pub proof fn law_a_line_adds_its_network(s: FrameworkSaid, fields: Seq<Seq<char>>, handle: u64)
    requires
        fields.len() > 1,
        forall|i: int| 0 <= i < fields.len() ==> free_of(#[trigger] fields[i], '\t'),
        fields[1] == dec(handle as nat),
    ensures
        fields[0] == "N"@ ==> after_line(s, join(fields, seq!['\t'])) == Some(
            FrameworkSaid { networks: s.networks.push((fields, handle_in(s))), ..s },
        ),
        fields[0] != "N"@ && fields[0] != "V"@ ==> after_line(s, join(fields, seq!['\t'])) == Some(s),
{
    law_join_then_split(fields, '\t');
    law_a_decimal_is_read_back(handle as nat, u64::MAX as nat);
    reveal_strlit("N");
    reveal_strlit("V");
    assert("N"@[0] != "V"@[0]);
}

// ---- Starting ---------------------------------------------------------------------------

/// The first `su` that is there is run, and the one on the path where none is.
pub proof fn law_which_su_is_run(in_system: bool, in_su: bool)
    ensures
        in_system ==> su_text(in_system, in_su) == "/system/bin/su"@,
        !in_system && in_su ==> su_text(in_system, in_su) == "/su/bin/su"@,
        !in_system && !in_su ==> su_text(in_system, in_su) == "su"@,
{
}

/// A daemon that answers is not started again; one that does not is started once, and
/// then looked for, each look taking one of those that are left.
pub proof fn law_a_daemon_is_started_once(
    before: DaemonStart,
    platform: AndroidPlatform,
    answers: bool,
    after: DaemonStart,
    r: StartAction,
)
    requires
        before.goes_on(platform, answers, after, r),
    ensures
        r is Done <==> answers,
        r is Run <==> !answers && before.polls is None,
        r is Wait <==> !answers && before.polls is Some,
        r is Wait && before.polls->0 > 0 ==> after.polls == Some((before.polls->0 - 1) as u32),
{
}

/// The command that starts a daemon holds the path of the program and names the app's
/// uid; the shell reads the path as it is.
pub proof fn law_a_start_command_runs_the_program(path: Seq<char>, package: Seq<char>, uid: u32)
    ensures
        starts_with(command_text(path, package, uid), "nohup '"@ + quoted(path) + "' "@),
        unquoted(quoted(path)) == path,
{
    reveal_strlit("' ");
    reveal_strlit("' --socket @netdiag --allow-uid ");
    let t = command_text(path, package, uid);
    let head = "nohup '"@ + quoted(path) + "' "@;
    assert(t.take(head.len() as int) =~= head);
    crate::platform::start::law_quoting_keeps_the_text(path);
}

/// A command line of the desktop means what its options mean one after the other: a
/// switch turns its own on, and a number sets its own.
pub proof fn law_an_option_sets_its_own(rest: Seq<Seq<char>>, o: DesktopOptions, n: i32, ms: u64, text: Seq<char>)
    ensures
        read_desktop(seq!["--connect"@] + rest, o) == read_desktop(rest, DesktopOptions { connect: true, ..o }),
        read_desktop(seq!["--diagnose"@] + rest, o) == read_desktop(rest, DesktopOptions { diagnose: true, ..o }),
        read_desktop(seq!["--save-capture"@] + rest, o) == read_desktop(
            rest,
            DesktopOptions { save_capture: true, ..o },
        ),
        read_desktop(seq!["--tab"@, sdec(n as int)] + rest, o) == read_desktop(
            rest,
            DesktopOptions { tab: n as int, ..o },
        ),
        read_desktop(seq!["--settle-ms"@, dec(ms as nat)] + rest, o) == read_desktop(
            rest,
            DesktopOptions { settle_ms: ms as int, ..o },
        ),
        read_desktop(seq!["--snapshot"@, text] + rest, o) == read_desktop(
            rest,
            DesktopOptions { snapshot: Some(text), ..o },
        ),
        read_desktop(seq!["--capture"@, text] + rest, o) == read_desktop(
            rest,
            DesktopOptions { capture: Some(text), ..o },
        ),
        read_desktop(seq!["--help"@] + rest, o) is None,
        read_desktop(Seq::empty(), o) == Some(o),
{
    law_a_signed_number_is_read_back(n as int, i32::MAX as nat);
    law_a_decimal_is_read_back(ms as nat, u64::MAX as nat);
    reveal_strlit("--connect");
    reveal_strlit("--tab");
    reveal_strlit("--snapshot");
    reveal_strlit("--diagnose");
    reveal_strlit("--capture");
    reveal_strlit("--save-capture");
    reveal_strlit("--settle-ms");
    reveal_strlit("-h");
    reveal_strlit("--help");
    assert("--connect"@.len() == 9 && "--tab"@.len() == 5 && "--snapshot"@.len() == 10);
    assert("--diagnose"@.len() == 10 && "--snapshot"@[2] != "--diagnose"@[2]);
    assert("--capture"@.len() == 9 && "--connect"@[3] != "--capture"@[3]);
    assert("--save-capture"@.len() == 14 && "--settle-ms"@.len() == 11 && "--help"@.len() == 6);
    lemma_one(seq!["--connect"@], rest);
    lemma_one(seq!["--diagnose"@], rest);
    lemma_one(seq!["--save-capture"@], rest);
    lemma_one(seq!["--help"@], rest);
    lemma_two(seq!["--tab"@, sdec(n as int)], rest);
    lemma_two(seq!["--settle-ms"@, dec(ms as nat)], rest);
    lemma_two(seq!["--snapshot"@, text], rest);
    lemma_two(seq!["--capture"@, text], rest);
}

proof fn lemma_one(a: Seq<Seq<char>>, rest: Seq<Seq<char>>)
    requires
        a.len() == 1,
    ensures
        (a + rest).skip(1) == rest,
        (a + rest)[0] == a[0],
        (a + rest).len() > 0,
{
    assert((a + rest).skip(1) =~= rest);
}

proof fn lemma_two(a: Seq<Seq<char>>, rest: Seq<Seq<char>>)
    requires
        a.len() == 2,
    ensures
        (a + rest).skip(2) == rest,
        (a + rest)[0] == a[0],
        (a + rest)[1] == a[1],
        (a + rest).len() > 1,
{
    assert((a + rest).skip(2) =~= rest);
}

} // verus!
