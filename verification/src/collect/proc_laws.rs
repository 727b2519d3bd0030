//! What netd's map, the tools of netfilter and the files of the kernel say.
use vstd::prelude::*;

use crate::collect::firewall::{
    after_lines, backends, chains_said, declared_chain, firewall_told, is_network_pin, match_text,
    match_texts, network_pins, printed_chains, rule_body, rule_chain, surface_told, with_rule,
    ChainSaid, MapReading, ToolOutputs,
};
use crate::collect::links::{interface_settings_told, InterfaceSysctlFiles};
use crate::collect::procnet::{
    after_pair, clat_told, counter_map, counters_told, flat_counters, group_map, has_v4, has_v6,
    is_clat, paired, range_allows, resolver_lines, setting_number, setting_text, settings,
    settings_told, snmp_counters,
};
use crate::collect::routes::table_text;
use crate::collect::sockdiag::{address_in, ended_by, request_bytes, DumpEnd, DumpMessage};
use crate::ip_parse::parse_ip;
use crate::proto::{
    Clat464State, FirewallBackend, FirewallState, GlobalSysctls, Interface, InterfaceSysctls,
    LinkAddress, LinkKind, ProtocolCounters,
};
use crate::seq_laws::{law_nothing_is_found, law_the_first_is_found};
use crate::text::{
    ascii_lowercase, dec, join, lines, occurs_at, occurs_in, sdec, signed, starts_with, trim,
    trim_end_of, trim_start_of, unsigned, words,
};
use crate::text_laws::{
    free_of, is_digit, is_word, law_a_decimal_is_read_back, law_a_numeral_is_read_back,
    law_a_signed_number_is_read_back, law_a_text_is_split_at_the_first, law_words_are_read_back,
};

verus! {

// ---- netd's map ---------------------------------------------------------------------

/// What the map says of a uid is said of that uid, and known only where the map could be
/// read.
pub proof fn law_what_the_map_says(uid: u32, reading: MapReading)
    ensures
        ({
            let s = firewall_told(uid, reading);
            &&& s.uid == uid
            &&& s.source_available <==> reading is Rule || reading is NoEntry
            &&& reading matches MapReading::Rule(m) ==> {
                &&& s.raw_match == m
                &&& s.blocked_metered_allow <==> m & 0x1 != 0
                &&& s.blocked_metered_deny_user <==> m & 0x2 != 0
                &&& s.blocked_dozable <==> m & 0x4 == 0
                &&& s.blocked_standby <==> m & 0x8 != 0
                &&& s.blocked_powersave <==> m & 0x10 == 0
                &&& s.blocked_restricted <==> m & 0x20 == 0
                &&& s.blocked_low_power_standby <==> m & 0x40 == 0
                &&& s.blocked_metered_deny_admin <==> m & 0x100 != 0 || m & 0x200 != 0 || m & 0x400 != 0
                    || m & 0x800 != 0
            }
            &&& !(reading is Rule) ==> s.raw_match == 0 && !s.blocked_dozable && !s.blocked_standby
                && !s.blocked_powersave && !s.blocked_restricted && !s.blocked_low_power_standby
                && !s.blocked_metered_allow && !s.blocked_metered_deny_user
                && !s.blocked_metered_deny_admin
        }),
{
    if let MapReading::Rule(m) = reading {
        assert(m & 0xf00 != 0 <==> m & 0x100 != 0 || m & 0x200 != 0 || m & 0x400 != 0 || m & 0x800 != 0)
            by (bit_vector);
    } else {
        assert(0u32 & 0x1 == 0 && 0u32 & 0x2 == 0 && 0u32 & 0x8 == 0 && 0u32 & 0xf00 == 0) by (bit_vector);
    }
}

/// The bits of a rule have names of their own.
proof fn lemma_names_differ(a: u32, b: u32)
    requires
        a < 13,
        b < 13,
        match_text(a) == match_text(b),
    ensures
        a == b,
{
    reveal_strlit("HAPPY_BOX (metered allowlist)");
    reveal_strlit("PENALTY_BOX (metered denylist)");
    reveal_strlit("DOZABLE (allowlisted while dozing)");
    reveal_strlit("STANDBY (denied while in app standby)");
    reveal_strlit("POWERSAVE (allowlisted in battery saver)");
    reveal_strlit("RESTRICTED (allowlisted in restricted mode)");
    reveal_strlit("LOW_POWER_STANDBY (allowlisted)");
    reveal_strlit("IIF (restricted to an input interface)");
    reveal_strlit("LOCKDOWN_VPN (blocked outside the VPN)");
    reveal_strlit("OEM_DENY_1");
    reveal_strlit("OEM_DENY_2");
    reveal_strlit("OEM_DENY_3");
    reveal_strlit("BACKGROUND (denied in background)");
    assert("OEM_DENY_1"@[9] == '1' && "OEM_DENY_2"@[9] == '2' && "OEM_DENY_3"@[9] == '3');
    assert("IIF (restricted to an input interface)"@[0] == 'I');
    assert("LOCKDOWN_VPN (blocked outside the VPN)"@[0] == 'L');
    lemma_name_size(a);
    lemma_name_size(b);
    assert(size_of_name(a) == size_of_name(b));
    assert(match_text(a)[0] == match_text(b)[0] && match_text(a)[9] == match_text(b)[9]);
}

spec fn size_of_name(bit: u32) -> nat {
    match bit {
        0 => 29,
        1 => 30,
        2 => 34,
        3 => 37,
        4 => 40,
        5 => 43,
        6 => 31,
        7 | 8 => 38,
        9 | 10 | 11 => 10,
        _ => 33,
    }
}

proof fn lemma_name_size(bit: u32)
    ensures
        match_text(bit).len() == size_of_name(bit),
{
    reveal_strlit("HAPPY_BOX (metered allowlist)");
    reveal_strlit("PENALTY_BOX (metered denylist)");
    reveal_strlit("DOZABLE (allowlisted while dozing)");
    reveal_strlit("STANDBY (denied while in app standby)");
    reveal_strlit("POWERSAVE (allowlisted in battery saver)");
    reveal_strlit("RESTRICTED (allowlisted in restricted mode)");
    reveal_strlit("LOW_POWER_STANDBY (allowlisted)");
    reveal_strlit("IIF (restricted to an input interface)");
    reveal_strlit("LOCKDOWN_VPN (blocked outside the VPN)");
    reveal_strlit("OEM_DENY_1");
    reveal_strlit("OEM_DENY_2");
    reveal_strlit("OEM_DENY_3");
    reveal_strlit("BACKGROUND (denied in background)");
}

/// A bit of a rule is named exactly where it is set.
pub proof fn law_a_bit_is_named_where_it_is_set(rule: u32, bit: u32, n: nat)
    requires
        bit < 13,
        n <= 13,
    ensures
        match_texts(rule, n).contains(match_text(bit)) <==> bit < n && rule & (1u32 << bit) != 0,
    decreases n,
{
    if n > 0 {
        law_a_bit_is_named_where_it_is_set(rule, bit, (n - 1) as nat);
        let front = match_texts(rule, (n - 1) as nat);
        let name = match_text((n - 1) as u32);
        let all = match_texts(rule, n);
        if all.contains(match_text(bit)) {
            let k = all.index_of(match_text(bit));
            if k < front.len() {
                assert(front[k] == match_text(bit));
            } else {
                lemma_names_differ(bit, (n - 1) as u32);
            }
        }
        if front.contains(match_text(bit)) {
            let k = front.index_of(match_text(bit));
            assert(all[k] == match_text(bit));
        }
        if bit == n - 1 && rule & (1u32 << bit) != 0 {
            assert(all[front.len() as int] == name);
        }
    }
}

/// The bits that deny a uid have the names of what denies it.
pub proof fn law_names_of_the_bits_that_deny()
    ensures
        starts_with(match_text(1), "PENALTY_BOX"@),
        starts_with(match_text(8), "LOCKDOWN_VPN"@),
        starts_with(match_text(9), "OEM_DENY_1"@),
        starts_with(match_text(10), "OEM_DENY_2"@),
        starts_with(match_text(11), "OEM_DENY_3"@),
        starts_with(match_text(3), "STANDBY"@),
        starts_with(match_text(12), "BACKGROUND"@),
{
    reveal_strlit("PENALTY_BOX (metered denylist)");
    reveal_strlit("LOCKDOWN_VPN (blocked outside the VPN)");
    reveal_strlit("OEM_DENY_1");
    reveal_strlit("OEM_DENY_2");
    reveal_strlit("OEM_DENY_3");
    reveal_strlit("STANDBY (denied while in app standby)");
    reveal_strlit("BACKGROUND (denied in background)");
    reveal_strlit("PENALTY_BOX");
    reveal_strlit("LOCKDOWN_VPN");
    reveal_strlit("STANDBY");
    reveal_strlit("BACKGROUND");
    assert(match_text(1).take(11) =~= "PENALTY_BOX"@);
    assert(match_text(8).take(12) =~= "LOCKDOWN_VPN"@);
    assert(match_text(9).take(10) =~= "OEM_DENY_1"@);
    assert(match_text(10).take(10) =~= "OEM_DENY_2"@);
    assert(match_text(11).take(10) =~= "OEM_DENY_3"@);
    assert(match_text(3).take(7) =~= "STANDBY"@);
    assert(match_text(12).take(10) =~= "BACKGROUND"@);
}

// ---- Netfilter ----------------------------------------------------------------------

/// A rule joins the last chain of its table with its name, behind the rules that are
/// there, and leaves every other chain alone.
pub proof fn law_a_rule_joins_its_chain(
    chains: Seq<ChainSaid>,
    table: Seq<char>,
    name: Seq<char>,
    rule: Seq<char>,
    k: int,
)
    requires
        0 <= k < chains.len(),
        chains[k].name == name && chains[k].table == table,
        forall|i: int|
            k < i < chains.len() ==> !((#[trigger] chains[i]).name == name && chains[i].table == table),
    ensures
        ({
            let after = with_rule(chains, table, name, rule);
            &&& after.len() == chains.len()
            &&& after[k].rules == chains[k].rules.push(rule)
            &&& after[k].name == name && after[k].table == table && after[k].policy == chains[k].policy
            &&& after[k].packets == chains[k].packets && after[k].bytes == chains[k].bytes
            &&& forall|i: int| 0 <= i < chains.len() && i != k ==> #[trigger] after[i] == chains[i]
        }),
    decreases chains.len(),
{
    let t = chains.drop_last();
    let last = chains.len() - 1;
    if k < last {
        assert(!(chains[last].name == name && chains[last].table == table));
        assert forall|i: int| k < i < t.len() implies !((#[trigger] t[i]).name == name && t[i].table
            == table) by {
            assert(t[i] == chains[i]);
        }
        law_a_rule_joins_its_chain(t, table, name, rule, k);
        let after = with_rule(chains, table, name, rule);
        assert forall|i: int| 0 <= i < chains.len() && i != k implies #[trigger] after[i] == chains[i] by {
            if i < t.len() {
                assert(with_rule(t, table, name, rule)[i] == t[i]);
            }
        }
    }
}

/// A line that declares a chain declares the one of that name, with its policy and its
/// counters of packets and of bytes.
pub proof fn law_a_declared_chain_is_read_back(
    table: Seq<char>,
    name: Seq<char>,
    policy: Seq<char>,
    packets: u64,
    bytes: u64,
)
    requires
        is_word(name),
        is_word(policy),
    ensures
        ({
            let count = seq!['['] + dec(packets as nat) + seq![':'] + dec(bytes as nat) + seq![']'];
            declared_chain(table, join(seq![name, policy, count], seq![' '])) == Some(
                ChainSaid {
                    table,
                    name,
                    policy,
                    packets: packets as nat,
                    bytes: bytes as nat,
                    rules: Seq::empty(),
                },
            )
        }),
{
    let (p, b) = (dec(packets as nat), dec(bytes as nat));
    let inner = p + seq![':'] + b;
    let count = seq!['['] + p + seq![':'] + b + seq![']'];
    law_a_numeral_is_read_back(packets as nat, 10);
    law_a_numeral_is_read_back(bytes as nat, 10);
    law_a_decimal_is_read_back(packets as nat, u64::MAX as nat);
    law_a_decimal_is_read_back(bytes as nat, u64::MAX as nat);
    assert forall|i: int| 0 <= i < p.len() implies #[trigger] p[i] != ':' by {
        assert(is_digit(crate::text::numeral(packets as nat, 10)[i]));
    }
    law_a_text_is_split_at_the_first(p, ':', b);
    assert forall|i: int| 0 <= i < count.len() implies !crate::text::is_space(#[trigger] count[i]) by {
        if 1 <= i < 1 + p.len() {
            assert(count[i] == p[i - 1]);
            assert(is_digit(crate::text::numeral(packets as nat, 10)[i - 1]));
        } else if 2 + p.len() <= i < 2 + p.len() + b.len() {
            assert(count[i] == b[i - 2 - p.len()]);
            assert(is_digit(crate::text::numeral(bytes as nat, 10)[i - 2 - p.len()]));
        }
    }
    assert(is_word(count));
    let w = seq![name, policy, count];
    assert forall|i: int| 0 <= i < w.len() implies is_word(#[trigger] w[i]) by {}
    law_words_are_read_back(w);
    // The counter without its marks.
    let body = inner + seq![']'];
    assert(is_digit(crate::text::numeral(packets as nat, 10)[0]));
    assert(is_digit(crate::text::numeral(bytes as nat, 10)[b.len() - 1]));
    assert(count.skip(1) =~= body);
    assert(body[0] == p[0]);
    reveal_with_fuel(trim_start_of, 2);
    reveal_with_fuel(trim_end_of, 2);
    assert(trim_start_of(count, '[') == body);
    assert(body.drop_last() =~= inner);
    assert(inner.last() == b[b.len() - 1]);
    assert(trim_end_of(body, ']') == inner);
}

/// A rule belongs to the chain that it is appended to; a counter in front of it is left
/// out of it.
pub proof fn law_a_rule_names_its_chain(name: Seq<char>, rest: Seq<Seq<char>>, count: Seq<char>)
    requires
        is_word(name),
        forall|i: int| 0 <= i < rest.len() ==> is_word(#[trigger] rest[i]),
        free_of(count, ']'),
    ensures
        ({
            let rule = "-A "@ + join(seq![name] + rest, seq![' ']);
            &&& rule_chain(rule) == Some(name)
            &&& rule_body(rule) == rule
            &&& rule_body("["@ + count + seq![']'] + rule) == trim(rule)
        }),
{
    reveal_strlit("-A ");
    reveal_strlit("[");
    let w = seq![name] + rest;
    assert forall|i: int| 0 <= i < w.len() implies is_word(#[trigger] w[i]) by {
        if i > 0 {
            assert(w[i] == rest[i - 1]);
        }
    }
    law_words_are_read_back(w);
    let words_text = join(w, seq![' ']);
    let rule = "-A "@ + words_text;
    assert(rule.take(3) =~= "-A "@);
    assert(rule.skip(3) =~= words_text);
    assert(rule[0] == '-');
    if starts_with(rule, "["@) {
        assert(rule.take(1)[0] == '[');
    }
    let line = "["@ + count + seq![']'] + rule;
    assert(line.take(1) =~= "["@);
    assert(line.skip(1) =~= count + seq![']'] + rule);
    law_a_text_is_split_at_the_first(count, ']', rule);
}

/// A backend is found where it shows: eBPF by its map or by pinned objects, iptables by
/// chains that it printed, and nftables by its tool.
pub proof fn law_which_backends_are_found(
    pins: Seq<Seq<char>>,
    uid_map_present: bool,
    tools: Option<ToolOutputs>,
)
    ensures
        ({
            let found = backends(pins, uid_map_present, tools);
            &&& found.contains(FirewallBackend::Ebpf) <==> uid_map_present || pins.len() > 0
            &&& found.contains(FirewallBackend::Iptables) <==> (tools matches Some(t) && printed_chains(
                t.iptables_save,
            ).len() > 0)
            &&& found.contains(FirewallBackend::Nftables) <==> (tools matches Some(t) && t.nft_tables is Some)
        }),
{
    let found = backends(pins, uid_map_present, tools);
    let a: int = if uid_map_present || pins.len() > 0 { 1 } else { 0 };
    let b: int = if tools is Some && printed_chains((tools->0).iptables_save).len() > 0 { a + 1 } else { a };
    if a == 1 {
        assert(found[0] == FirewallBackend::Ebpf);
    }
    if b == a + 1 {
        assert(found[a] == FirewallBackend::Iptables);
    }
    if tools is Some && (tools->0).nft_tables is Some {
        assert(found[b] == FirewallBackend::Nftables);
    }
}

/// The chains of each family are those that its own tool printed, and a tool that printed
/// nothing leaves none; what was found of eBPF is told as it is.
pub proof fn law_what_is_told_of_filters(
    r: FirewallState,
    pins: Vec<String>,
    bpf_readable: bool,
    uid_map_present: bool,
    tools: Option<ToolOutputs>,
)
    requires
        surface_told(r, pins, bpf_readable, uid_map_present, tools),
    ensures
        r.bpf_pinned_objects == pins && r.bpf_maps_readable == bpf_readable,
        tools is None ==> r.ipv4_chains@.len() == 0 && r.ipv6_chains@.len() == 0 && !r.used_shell_fallback,
        tools matches Some(t) ==> {
            &&& t.iptables_save is None ==> r.ipv4_chains@.len() == 0
            &&& t.ip6tables_save is None ==> r.ipv6_chains@.len() == 0
            &&& t.iptables_save matches Some(text) ==> chains_said(r.ipv4_chains@) == after_lines(
                lines(text@),
            ).1
            &&& t.ip6tables_save matches Some(text) ==> chains_said(r.ipv6_chains@) == after_lines(
                lines(text@),
            ).1
            &&& r.used_shell_fallback <==> t.iptables_save is Some || t.ip6tables_save is Some
        },
        uid_map_present ==> r.collection_note@ == "per-uid rules read from netd's eBPF uid_owner_map"@,
        !uid_map_present && !bpf_readable ==> r.collection_note@ == "no readable eBPF or netfilter state"@,
{
    assert(chains_said(r.ipv4_chains@).len() == r.ipv4_chains@.len());
    assert(chains_said(r.ipv6_chains@).len() == r.ipv6_chains@.len());
}

/// A pinned object is about the network where its name holds one of five words.
pub proof fn law_which_pins_are_about_the_network(a: Seq<char>, b: Seq<char>)
    ensures
        is_network_pin(a + "net"@ + b),
        is_network_pin(a + "uid"@ + b),
        is_network_pin(a + "clat"@ + b),
        is_network_pin(a + "tether"@ + b),
        is_network_pin(a + "cookie"@ + b),
{
    lemma_occurs(a, "net"@, b);
    lemma_occurs(a, "uid"@, b);
    lemma_occurs(a, "clat"@, b);
    lemma_occurs(a, "tether"@, b);
    lemma_occurs(a, "cookie"@, b);
}

proof fn lemma_occurs(a: Seq<char>, w: Seq<char>, b: Seq<char>)
    ensures
        occurs_in(a + w + b, w),
{
    let s = a + w + b;
    assert(s.subrange(a.len() as int, (a.len() + w.len()) as int) =~= w);
    assert(occurs_at(s, w, a.len() as int));
}

/// Each name of a directory that is about the network is listed with the directory, and
/// no other.
pub proof fn law_pins_are_listed_with_their_directory(
    root: Seq<char>,
    names: Seq<Seq<char>>,
    name: Seq<char>,
)
    ensures
        network_pins(root, names.push(name)) == if is_network_pin(name) {
            network_pins(root, names).push(root + "/"@ + name)
        } else {
            network_pins(root, names)
        },
        network_pins(root, Seq::empty()).len() == 0,
{
    assert(names.push(name).drop_last() =~= names);
}

// ---- Files of the kernel --------------------------------------------------------------

/// A setting that is read last counts, with single spaces between its values; one that
/// was not read is nothing.
pub proof fn law_a_setting_is_what_was_read(
    read: Seq<(String, String)>,
    key: String,
    value: String,
    other: Seq<char>,
)
    ensures
        setting_text(settings(read.push((key, value))), key@) == join(words(value@), " "@),
        other != key@ ==> setting_text(settings(read.push((key, value))), other) == setting_text(
            settings(read),
            other,
        ),
        setting_text(settings(Seq::empty()), other).len() == 0,
{
    assert(read.push((key, value)).drop_last() =~= read);
}

/// A setting of one number is that number, and one that was not read is minus one.
pub proof fn law_a_setting_of_a_number(raw: Map<Seq<char>, Seq<char>>, key: Seq<char>, n: i32)
    ensures
        raw.contains_key(key) && raw[key] == sdec(n as int) ==> setting_number(raw, key) == n,
        !raw.contains_key(key) ==> setting_number(raw, key) == -1,
{
    lemma_number_is_a_word(n as int);
    law_a_signed_number_is_read_back(n as int, i32::MAX as nat);
}

proof fn lemma_number_is_a_word(n: int)
    ensures
        words(sdec(n)) == seq![sdec(n)],
{
    let s = sdec(n);
    let m: nat = if n < 0 {
        (-n) as nat
    } else {
        n as nat
    };
    law_a_numeral_is_read_back(m, 10);
    assert forall|i: int| 0 <= i < s.len() implies !crate::text::is_space(#[trigger] s[i]) by {
        if n < 0 {
            if i > 0 {
                assert(s[i] == dec(m)[i - 1]);
                assert(is_digit(crate::text::numeral(m, 10)[i - 1]));
            }
        } else {
            assert(is_digit(crate::text::numeral(m, 10)[i]));
        }
    }
    let one = seq![s];
    assert(is_word(s));
    assert forall|i: int| 0 <= i < one.len() implies is_word(#[trigger] one[i]) by {}
    law_words_are_read_back(one);
}

/// The global settings go by the names of their files.
pub proof fn law_settings_go_by_their_files(r: GlobalSysctls, raw: Map<Seq<char>, Seq<char>>, n: i32)
    requires
        settings_told(r, raw),
    ensures
        reads_as(raw, "ipv4/ip_forward"@, n) ==> r.ipv4_forwarding == n,
        reads_as(raw, "ipv6/conf/all/forwarding"@, n) ==> r.ipv6_forwarding == n,
        reads_as(raw, "ipv6/conf/all/disable_ipv6"@, n) ==> r.ipv6_disable == n,
        reads_as(raw, "ipv4/tcp_fastopen"@, n) ==> r.tcp_fastopen == n,
        reads_as(raw, "ipv4/tcp_mtu_probing"@, n) ==> r.tcp_mtu_probing == n,
        reads_as(raw, "ipv4/tcp_base_mss"@, n) ==> r.tcp_base_mss == n,
        reads_as(raw, "ipv4/tcp_syn_retries"@, n) ==> r.tcp_syn_retries == n,
        reads_as(raw, "ipv4/tcp_synack_retries"@, n) ==> r.tcp_synack_retries == n,
        reads_as(raw, "ipv4/tcp_retries2"@, n) ==> r.tcp_retries2 == n,
        reads_as(raw, "ipv4/tcp_fin_timeout"@, n) ==> r.tcp_fin_timeout == n,
        reads_as(raw, "ipv4/tcp_keepalive_time"@, n) ==> r.tcp_keepalive_time == n,
        reads_as(raw, "ipv4/tcp_ecn"@, n) ==> r.tcp_ecn == n,
        reads_as(raw, "ipv4/tcp_timestamps"@, n) ==> r.tcp_timestamps == n,
        reads_as(raw, "ipv4/tcp_sack"@, n) ==> r.tcp_sack == n,
        reads_as(raw, "ipv4/ip_no_pmtu_disc"@, n) ==> r.ip_no_pmtu_disc == n,
        reads_as(raw, "ipv4/route/min_pmtu"@, n) ==> r.route_min_pmtu == n,
{
    assert forall|key: Seq<char>| #[trigger] reads_as(raw, key, n) implies setting_number(raw, key) == n by {
        law_a_setting_of_a_number(raw, key, n);
    }
}

/// Whether a file was read and holds a number.
pub open spec fn reads_as(raw: Map<Seq<char>, Seq<char>>, key: Seq<char>, n: i32) -> bool {
    raw.contains_key(key) && raw[key] == sdec(n as int)
}

/// The settings of an interface go by the names of their files: IPv6 is off exactly where
/// its file holds anything but zero, and a file that could not be read is minus one.
pub proof fn law_settings_of_an_interface(r: InterfaceSysctls, files: InterfaceSysctlFiles, n: i32)
    requires
        interface_settings_told(r, files),
    ensures
        holds_number(files.disable_ipv6, n) ==> (r.ipv6_disabled <==> n != 0),
        files.disable_ipv6 is None ==> !r.ipv6_disabled,
        holds_number(files.accept_ra, n) ==> r.accept_ra == n,
        files.accept_ra is None ==> r.accept_ra == -1,
        holds_number(files.accept_ra_defrtr, n) ==> r.accept_ra_defrtr == n,
        holds_number(files.autoconf, n) ==> r.autoconf == n,
        holds_number(files.use_tempaddr, n) ==> r.use_tempaddr == n,
        holds_number(files.forwarding_v4, n) ==> r.forwarding_v4 == n,
        holds_number(files.forwarding_v6, n) ==> r.forwarding_v6 == n,
        holds_number(files.rp_filter, n) ==> r.rp_filter == n,
        holds_number(files.arp_ignore, n) ==> r.arp_ignore == n,
        holds_number(files.dad_transmits, n) ==> r.dad_transmits == n,
        holds_number(files.mtu_v6, n) ==> r.mtu_v6 == n,
        holds_number(files.hop_limit, n) ==> r.hop_limit == n,
{
    lemma_number_is_a_word(n as int);
    law_a_signed_number_is_read_back(n as int, i32::MAX as nat);
}

/// Whether a file was read and holds a number.
pub open spec fn holds_number(file: Option<String>, n: i32) -> bool {
    match file {
        Some(text) => text@ == sdec(n as int),
        None => false,
    }
}

/// A group may ping where the range of two numbers holds it, both ends counted in.
pub proof fn law_which_groups_may_ping(text: Seq<char>, gid: u32, lo: nat, hi: nat)
    requires
        words(text).len() >= 2,
        unsigned(words(text)[0], u64::MAX as nat) == Some(lo),
        unsigned(words(text)[1], u64::MAX as nat) == Some(hi),
    ensures
        range_allows(Some(text), gid) <==> lo <= gid && gid <= hi,
        !range_allows(None, gid),
{
}

/// Of a line of names and a line of values each name has the value at its place, where
/// that is a number and the name does not come again.
pub proof fn law_a_name_has_the_value_at_its_place(
    m: Map<(Seq<char>, Seq<char>), i64>,
    group: Seq<char>,
    names: Seq<Seq<char>>,
    values: Seq<Seq<char>>,
    n: nat,
    k: int,
    v: int,
)
    requires
        n <= names.len() && n <= values.len(),
        0 <= k < n,
        signed(values[k], i64::MAX as nat) == Some(v),
        i64::MIN <= v <= i64::MAX,
        forall|i: int| k < i < n ==> #[trigger] names[i] != names[k],
    ensures
        paired(m, group, names, values, n).contains_key((group, names[k])),
        paired(m, group, names, values, n)[(group, names[k])] == v,
    decreases n,
{
    if k < n - 1 {
        law_a_name_has_the_value_at_its_place(m, group, names, values, (n - 1) as nat, k, v);
        assert(names[n - 1] != names[k]);
    }
}

/// Two lines about one protocol pair its names with its values, under the name of the
/// protocol in small letters; lines about two protocols say nothing.
pub proof fn law_two_lines_are_about_one_protocol(
    m: Map<(Seq<char>, Seq<char>), i64>,
    a: Seq<char>,
    b: Seq<char>,
    names: Seq<char>,
    values: Seq<char>,
)
    requires
        free_of(a, ':'),
        free_of(b, ':'),
        words(names).len() == words(values).len(),
    ensures
        after_pair(m, a + seq![':'] + names, a + seq![':'] + values) == paired(
            m,
            ascii_lowercase(a),
            words(names),
            words(values),
            words(names).len(),
        ),
        a != b ==> after_pair(m, a + seq![':'] + names, b + seq![':'] + values) == m,
{
    law_a_text_is_split_at_the_first(a, ':', names);
    law_a_text_is_split_at_the_first(a, ':', values);
    law_a_text_is_split_at_the_first(b, ':', values);
}

/// Counters of other protocols stay as they are.
pub proof fn law_lines_say_nothing_of_other_protocols(
    m: Map<(Seq<char>, Seq<char>), i64>,
    group: Seq<char>,
    names: Seq<Seq<char>>,
    values: Seq<Seq<char>>,
    n: nat,
    key: (Seq<char>, Seq<char>),
)
    requires
        key.0 != group,
    ensures
        paired(m, group, names, values, n).contains_key(key) == m.contains_key(key),
        m.contains_key(key) ==> paired(m, group, names, values, n)[key] == m[key],
    decreases n,
{
    if n > 0 {
        law_lines_say_nothing_of_other_protocols(m, group, names, values, (n - 1) as nat, key);
    }
}

/// The counters of a protocol are those whose names begin with its prefix, by what is
/// left of the name.
pub proof fn law_counters_of_a_protocol(
    m: Map<(Seq<char>, Seq<char>), i64>,
    group: Seq<char>,
    prefix: Seq<char>,
    name: Seq<char>,
)
    ensures
        group_map(m, group, prefix).contains_key(name) <==> m.contains_key((group, prefix + name)),
        m.contains_key((group, prefix + name)) ==> group_map(m, group, prefix)[name] == m[(
            group,
            prefix + name,
        )],
{
}

/// The counters of each protocol are those of its lines: the ones of IPv4 and the
/// transports in the first file, the extended ones in the second, and the ones of IPv6,
/// by their prefix, in the third.
pub proof fn law_counters_by_protocol(
    r: ProtocolCounters,
    snmp: Seq<char>,
    netstat: Seq<char>,
    snmp6: Seq<char>,
    name: Seq<char>,
)
    requires
        counters_told(r, snmp, netstat, snmp6),
    ensures
        ({
            let a = snmp_counters(lines(snmp), lines(snmp).len() / 2);
            let b = snmp_counters(lines(netstat), lines(netstat).len() / 2);
            let c = flat_counters(lines(snmp6));
            &&& counter_map(r.ip@).contains_key(name) <==> a.contains_key(("ip"@, name))
            &&& counter_map(r.icmp@).contains_key(name) <==> a.contains_key(("icmp"@, name))
            &&& counter_map(r.tcp@).contains_key(name) <==> a.contains_key(("tcp"@, name))
            &&& counter_map(r.udp@).contains_key(name) <==> a.contains_key(("udp"@, name))
            &&& counter_map(r.tcp_ext@).contains_key(name) <==> b.contains_key(("tcpext"@, name))
            &&& counter_map(r.ip_ext@).contains_key(name) <==> b.contains_key(("ipext"@, name))
            &&& counter_map(r.ip6@).contains_key(name) <==> c.contains_key((""@, "Ip6"@ + name))
            &&& counter_map(r.icmp6@).contains_key(name) <==> c.contains_key((""@, "Icmp6"@ + name))
            &&& counter_map(r.udp6@).contains_key(name) <==> c.contains_key((""@, "Udp6"@ + name))
            &&& a.contains_key(("tcp"@, name)) ==> counter_map(r.tcp@)[name] == a[("tcp"@, name)]
            &&& b.contains_key(("tcpext"@, name)) ==> counter_map(r.tcp_ext@)[name] == b[(
                "tcpext"@,
                name,
            )]
        }),
{
    reveal_strlit("");
    assert(""@ + name =~= name);
}

/// A line of a name and a number gives the counter of that name that number.
pub proof fn law_a_flat_counter_is_its_line(ls: Seq<Seq<char>>, line: Seq<char>, v: int)
    requires
        words(line).len() >= 2,
        signed(words(line)[1], i64::MAX as nat) == Some(v),
        i64::MIN <= v <= i64::MAX,
    ensures
        flat_counters(ls.push(line)).contains_key((""@, words(line)[0])),
        flat_counters(ls.push(line))[(""@, words(line)[0])] == v,
{
    assert(ls.push(line).drop_last() =~= ls);
}

/// A line that names a server adds it, one that names domains to search adds these, and
/// neither changes the other list.
pub proof fn law_what_a_line_of_the_resolver_adds(ls: Seq<Seq<char>>, line: Seq<char>, rest: Seq<char>)
    ensures
        ({
            let before = resolver_lines(ls);
            let after = resolver_lines(ls.push(line));
            &&& trim(line) == "nameserver"@ + rest ==> after.1 == before.1 && match parse_ip(trim(rest)) {
                Some(ip) => after.0 == before.0.push(ip),
                None => after.0 == before.0,
            }
            &&& trim(line) == "search"@ + rest ==> after.0 == before.0 && after.1 == before.1 + words(rest)
        }),
{
    assert(ls.push(line).drop_last() =~= ls);
    reveal_strlit("nameserver");
    reveal_strlit("search");
    let t = trim(line);
    if t == "nameserver"@ + rest {
        assert(t.take(10) =~= "nameserver"@);
        assert(t.skip(10) =~= rest);
    }
    if t == "search"@ + rest {
        assert(t.take(6) =~= "search"@);
        assert(t.skip(6) =~= rest);
        assert(t[0] == 's');
        if starts_with(t, "nameserver"@) {
            assert(t.take(10)[0] == 'n');
        }
    }
}

/// Whether an interface is a translator's.
pub open spec fn is_a_translator(i: Interface) -> bool {
    i.kind == LinkKind::Clat || starts_with(i.name@, "v4-"@)
}

/// The translator is the first interface of one. It is active where that is up and
/// running, and it works for the interface that its name ends in.
pub proof fn law_which_translator_is_active(r: Clat464State, interfaces: Seq<Interface>, k: int)
    requires
        clat_told(r, interfaces),
    ensures
        (forall|i: int| 0 <= i < interfaces.len() ==> !is_a_translator(#[trigger] interfaces[i]))
            ==> !r.active && r.clat_interface@.len() == 0 && r.clat_ipv4_address is None,
        0 <= k < interfaces.len() && is_a_translator(interfaces[k]) && (forall|i: int|
            0 <= i < k ==> !is_a_translator(#[trigger] interfaces[i])) ==> {
            let i = interfaces[k];
            &&& r.active <==> (i.flags matches Some(f) && f.up && f.running)
            &&& r.clat_interface@ == i.name@
            &&& starts_with(i.name@, "v4-"@) ==> i.name@ == "v4-"@ + r.base_interface@
        },
{
    let p = is_clat();
    assert(forall|i: Interface| #[trigger] p(i) == is_a_translator(i));
    if forall|i: int| 0 <= i < interfaces.len() ==> !is_a_translator(#[trigger] interfaces[i]) {
        law_nothing_is_found(interfaces, p);
    }
    if 0 <= k < interfaces.len() && is_a_translator(interfaces[k]) && (forall|i: int|
        0 <= i < k ==> !is_a_translator(#[trigger] interfaces[i])) {
        assert(p(interfaces[k]));
        law_the_first_is_found(interfaces, p, k);
        let name = interfaces[k].name@;
        if starts_with(name, "v4-"@) {
            assert(name =~= name.take("v4-"@.len() as int) + name.skip("v4-"@.len() as int));
        }
    }
}

/// The addresses of a translator are its first of four bytes and its first of sixteen.
pub proof fn law_addresses_of_a_translator(
    r: Clat464State,
    interfaces: Seq<Interface>,
    clat: Interface,
    k: int,
)
    requires
        clat_told(r, interfaces),
        crate::seqs::find(interfaces, is_clat()) == Some(clat),
        0 <= k < clat.addresses@.len(),
    ensures
        crate::diag::check_laws::bytes_of(clat.addresses@[k]).len() == 4 && (forall|i: int|
            0 <= i < k ==> crate::diag::check_laws::bytes_of(#[trigger] clat.addresses@[i]).len() != 4)
            ==> (r.clat_ipv4_address matches Some(a) && crate::ip::IpAddr::of(a.addr@)
            == crate::ip::IpAddr::of(crate::diag::check_laws::bytes_of(clat.addresses@[k]))),
        crate::diag::check_laws::bytes_of(clat.addresses@[k]).len() == 16 && (forall|i: int|
            0 <= i < k ==> crate::diag::check_laws::bytes_of(#[trigger] clat.addresses@[i]).len() != 16)
            ==> (r.clat_ipv6_address matches Some(a) && crate::ip::IpAddr::of(a.addr@)
            == crate::ip::IpAddr::of(crate::diag::check_laws::bytes_of(clat.addresses@[k]))),
{
    let v = clat.addresses@;
    let (p, q) = (has_v4(), has_v6());
    assert(forall|a: LinkAddress| #[trigger]
        p(a) == (crate::diag::check_laws::bytes_of(a).len() == 4));
    assert(forall|a: LinkAddress| #[trigger]
        q(a) == (crate::diag::check_laws::bytes_of(a).len() == 16));
    if p(v[k]) && (forall|i: int|
        0 <= i < k ==> crate::diag::check_laws::bytes_of(#[trigger] v[i]).len() != 4) {
        law_the_first_is_found(v, p, k);
    }
    if q(v[k]) && (forall|i: int|
        0 <= i < k ==> crate::diag::check_laws::bytes_of(#[trigger] v[i]).len() != 16) {
        law_the_first_is_found(v, q, k);
    }
}

// ---- Names and addresses -----------------------------------------------------------------

/// The fixed tables have their names, and every other is that of a network.
pub proof fn law_names_of_tables(table: u32)
    ensures
        table_text(255) == "local"@,
        table_text(254) == "main"@,
        table_text(253) == "default"@,
        table_text(97) == "local_network"@,
        table_text(1003) == "vpn_fallthrough"@,
        table > 1003 ==> table_text(table) == "net"@ + dec(table as nat),
{
}

/// A socket of IPv4 has its address in the first four of sixteen bytes, and one of IPv6
/// in all of them.
pub proof fn law_where_a_socket_has_its_address(raw: [u8; 16])
    ensures
        address_in(2, raw).octets() == raw@.take(4),
        address_in(10, raw).octets() == raw@,
{
    assert(address_in(2, raw).octets() =~= raw@.take(4));
    assert(address_in(10, raw).octets() =~= raw@);
}

/// A request names the family, the protocol and the extensions in the bytes behind its
/// header, and the states in the four that follow; it is as long as it says.
pub proof fn law_a_request_names_what_it_asks_for(family: u8, protocol: u8, extensions: u8, states: u32)
    ensures
        ({
            let little = request_bytes(family, protocol, extensions, states, true);
            let big = request_bytes(family, protocol, extensions, states, false);
            &&& little.len() == 72 && big.len() == 72
            &&& little[0] == 72 && big[3] == 72
            &&& little[16] == family && little[17] == protocol && little[18] == extensions
            &&& big[16] == family && big[17] == protocol && big[18] == extensions
            &&& little[20] + 0x100 * little[21] + 0x1_0000 * little[22] + 0x100_0000 * little[23] == states
            &&& big[23] + 0x100 * big[22] + 0x1_0000 * big[21] + 0x100_0000 * big[20] == states
            &&& forall|i: int| 24 <= i < 72 ==> little[i] == 0 && big[i] == 0
        }),
{
}

/// A dump ends with its end marker, with an error, and with bytes that are no message;
/// that there are no such sockets is no error. Everything else goes on.
pub proof fn law_when_a_dump_ends(length: u32, code: i32)
    requires
        length > 0,
    ensures
        ended_by(None) == Some(DumpEnd::Malformed),
        ended_by(Some((length, DumpMessage::Done))) == Some(DumpEnd::Finished),
        ended_by(Some((length, DumpMessage::Failed(-2i32)))) == Some(DumpEnd::Finished),
        code != -2 ==> ended_by(Some((length, DumpMessage::Failed(code)))) == Some(DumpEnd::Failed(code)),
        ended_by(Some((length, DumpMessage::Socket))) is None,
        ended_by(Some((length, DumpMessage::Ignored))) is None,
{
}

} // verus!
