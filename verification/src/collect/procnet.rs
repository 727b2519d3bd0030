//! State that has no netlink interface: sysctls, SNMP counters, the resolver
//! configuration, network namespaces and 464XLAT.
use vstd::prelude::*;

use crate::collect::links::{link_address_ip, prefix_ip};
use crate::ip::IpAddr;
use crate::ip_parse::{parse_ip, read_ip};
use crate::proto::{
    address_ip, Clat464State, Counter, GlobalSysctls, Interface, IpAddress, LinkAddress, LinkKind,
    NetworkNamespace, ProtocolCounters, ResolverState,
};
use crate::seqs::{find, lemma_find_step, or};
use crate::text::{
    ascii_lowercase, is_empty, join, join_texts, lines, lines_of, parse_i32, parse_i64, parse_u64,
    same, signed, split_once, split_text_once, starts_with, strip_prefix, strip_text_prefix,
    text_starts_with, texts, to_ascii_lowercase, trim, trim_text, unsigned, words, words_of,
};
use crate::textmap::TextMap;

verus! {

// ---- Sysctls ----------------------------------------------------------------

/// The settings that are read for the global view, below /proc/sys/net/. An
/// explicit list: a walk of the whole directory is slow and mostly noise.
pub open spec fn sysctl_keys() -> Seq<Seq<char>> {
    seq![
        "ipv4/ip_forward"@,
        "ipv4/tcp_congestion_control"@,
        "ipv4/tcp_available_congestion_control"@,
        "ipv4/tcp_fastopen"@,
        "ipv4/tcp_mtu_probing"@,
        "ipv4/tcp_base_mss"@,
        "ipv4/tcp_syn_retries"@,
        "ipv4/tcp_synack_retries"@,
        "ipv4/tcp_retries2"@,
        "ipv4/tcp_fin_timeout"@,
        "ipv4/tcp_keepalive_time"@,
        "ipv4/tcp_keepalive_intvl"@,
        "ipv4/tcp_keepalive_probes"@,
        "ipv4/tcp_ecn"@,
        "ipv4/tcp_timestamps"@,
        "ipv4/tcp_sack"@,
        "ipv4/tcp_rmem"@,
        "ipv4/tcp_wmem"@,
        "ipv4/ip_no_pmtu_disc"@,
        "ipv4/route/min_pmtu"@,
        "ipv4/route/mtu_expires"@,
        "ipv4/ping_group_range"@,
        "ipv4/conf/all/rp_filter"@,
        "ipv6/conf/all/forwarding"@,
        "ipv6/conf/all/disable_ipv6"@,
        "ipv6/conf/all/accept_ra"@,
        "ipv6/conf/default/accept_ra"@,
        "ipv6/conf/all/use_tempaddr"@,
        "ipv6/route/max_size"@,
        "core/default_qdisc"@,
        "core/somaxconn"@,
        "core/rmem_max"@,
        "core/wmem_max"@,
    ]
}

/// The settings that are read for the global view.
pub fn global_sysctl_keys() -> (r: Vec<String>)
    ensures
        texts(r@) == sysctl_keys(),
{
    let mut v: Vec<String> = Vec::new();
    v.push(String::from_str("ipv4/ip_forward"));
    v.push(String::from_str("ipv4/tcp_congestion_control"));
    v.push(String::from_str("ipv4/tcp_available_congestion_control"));
    v.push(String::from_str("ipv4/tcp_fastopen"));
    v.push(String::from_str("ipv4/tcp_mtu_probing"));
    v.push(String::from_str("ipv4/tcp_base_mss"));
    v.push(String::from_str("ipv4/tcp_syn_retries"));
    v.push(String::from_str("ipv4/tcp_synack_retries"));
    v.push(String::from_str("ipv4/tcp_retries2"));
    v.push(String::from_str("ipv4/tcp_fin_timeout"));
    v.push(String::from_str("ipv4/tcp_keepalive_time"));
    v.push(String::from_str("ipv4/tcp_keepalive_intvl"));
    v.push(String::from_str("ipv4/tcp_keepalive_probes"));
    v.push(String::from_str("ipv4/tcp_ecn"));
    v.push(String::from_str("ipv4/tcp_timestamps"));
    v.push(String::from_str("ipv4/tcp_sack"));
    v.push(String::from_str("ipv4/tcp_rmem"));
    v.push(String::from_str("ipv4/tcp_wmem"));
    v.push(String::from_str("ipv4/ip_no_pmtu_disc"));
    v.push(String::from_str("ipv4/route/min_pmtu"));
    v.push(String::from_str("ipv4/route/mtu_expires"));
    v.push(String::from_str("ipv4/ping_group_range"));
    v.push(String::from_str("ipv4/conf/all/rp_filter"));
    v.push(String::from_str("ipv6/conf/all/forwarding"));
    v.push(String::from_str("ipv6/conf/all/disable_ipv6"));
    v.push(String::from_str("ipv6/conf/all/accept_ra"));
    v.push(String::from_str("ipv6/conf/default/accept_ra"));
    v.push(String::from_str("ipv6/conf/all/use_tempaddr"));
    v.push(String::from_str("ipv6/route/max_size"));
    v.push(String::from_str("core/default_qdisc"));
    v.push(String::from_str("core/somaxconn"));
    v.push(String::from_str("core/rmem_max"));
    v.push(String::from_str("core/wmem_max"));
    assert(texts(v@) =~= sysctl_keys());
    v
}

/// The settings that could be read, each with single spaces between its values.
pub open spec fn settings(read: Seq<(String, String)>) -> Map<Seq<char>, Seq<char>>
    decreases read.len(),
{
    if read.len() == 0 {
        Map::empty()
    } else {
        settings(read.drop_last()).insert(
            read.last().0@,
            join(words(read.last().1@), " "@),
        )
    }
}

/// The text of a setting, or nothing.
pub open spec fn setting_text(raw: Map<Seq<char>, Seq<char>>, key: Seq<char>) -> Seq<char> {
    if raw.contains_key(key) {
        raw[key]
    } else {
        Seq::empty()
    }
}

/// The number that a setting starts with, or -1.
pub open spec fn setting_number(raw: Map<Seq<char>, Seq<char>>, key: Seq<char>) -> int {
    if raw.contains_key(key) && words(raw[key]).len() > 0 {
        or(signed(words(raw[key])[0], i32::MAX as nat), -1)
    } else {
        -1
    }
}

fn text_setting(raw: &TextMap, key: &str) -> (r: String)
    ensures
        r@ == setting_text(raw@, key@),
{
    match raw.get(key) {
        Some(v) => String::from_str(v),
        None => String::new(),
    }
}

fn number_setting(raw: &TextMap, key: &str) -> (r: i32)
    ensures
        r == setting_number(raw@, key@),
{
    match raw.get(key) {
        Some(v) => {
            let w = words_of(v);
            assert(w.len() == words(v@).len());
            if w.len() == 0 {
                return -1;
            }
            assert(w@[0]@ == words(v@)[0]);
            match parse_i32(w[0].as_str()) {
                Some(n) => n,
                None => -1,
            }
        },
        None => -1,
    }
}

/// The settings that could be read, by their keys.
fn read_settings(read: &Vec<(String, String)>) -> (raw: TextMap)
    ensures
        raw@ == settings(read@),
        raw.wf(),
{
    let mut raw = TextMap::new();
    let ghost all = read@;
    let mut i: usize = 0;
    assert(all.take(0) =~= Seq::empty());
    while i < read.len()
        invariant
            i <= read.len(),
            all == read@,
            raw@ == settings(all.take(i as int)),
            raw.wf(),
        decreases read.len() - i,
    {
        assert(all.take(i + 1).drop_last() =~= all.take(i as int));
        // Multi-value settings are tab separated in /proc.
        let value = join_texts(&words_of(read[i].1.as_str()), " ");
        raw.insert(read[i].0.clone(), value);
        i += 1;
    }
    assert(all.take(all.len() as int) =~= all);
    raw
}

/// Whether these are the global settings, of those that could be read.
pub open spec fn settings_told(r: GlobalSysctls, raw: Map<Seq<char>, Seq<char>>) -> bool {
    &&& r.raw@ == raw
    &&& r.raw.wf()
    &&& r.ipv4_forwarding == setting_number(raw, "ipv4/ip_forward"@)
    &&& r.ipv6_forwarding == setting_number(raw, "ipv6/conf/all/forwarding"@)
    &&& r.ipv6_disable == setting_number(raw, "ipv6/conf/all/disable_ipv6"@)
    &&& r.tcp_fastopen == setting_number(raw, "ipv4/tcp_fastopen"@)
    &&& r.tcp_mtu_probing == setting_number(raw, "ipv4/tcp_mtu_probing"@)
    &&& r.tcp_base_mss == setting_number(raw, "ipv4/tcp_base_mss"@)
    &&& r.tcp_syn_retries == setting_number(raw, "ipv4/tcp_syn_retries"@)
    &&& r.tcp_synack_retries == setting_number(raw, "ipv4/tcp_synack_retries"@)
    &&& r.tcp_retries2 == setting_number(raw, "ipv4/tcp_retries2"@)
    &&& r.tcp_fin_timeout == setting_number(raw, "ipv4/tcp_fin_timeout"@)
    &&& r.tcp_keepalive_time == setting_number(raw, "ipv4/tcp_keepalive_time"@)
    &&& r.tcp_ecn == setting_number(raw, "ipv4/tcp_ecn"@)
    &&& r.tcp_timestamps == setting_number(raw, "ipv4/tcp_timestamps"@)
    &&& r.tcp_sack == setting_number(raw, "ipv4/tcp_sack"@)
    &&& r.ip_no_pmtu_disc == setting_number(raw, "ipv4/ip_no_pmtu_disc"@)
    &&& r.route_min_pmtu == setting_number(raw, "ipv4/route/min_pmtu"@)
    &&& r.tcp_congestion_control@ == setting_text(raw, "ipv4/tcp_congestion_control"@)
    &&& r.tcp_available_congestion_control@ == setting_text(raw, "ipv4/tcp_available_congestion_control"@)
    &&& r.default_qdisc@ == setting_text(raw, "core/default_qdisc"@)
    &&& r.ping_group_range@ == setting_text(raw, "ipv4/ping_group_range"@)
    &&& r.default_qdisc_present == if r.default_qdisc@.len() == 0 {
        0i32
    } else {
        1i32
    }
}

/// The global settings, from the files that could be read: pairs of a key and
/// the contents.
pub fn read_global_sysctls(read: &Vec<(String, String)>) -> (r: GlobalSysctls)
    ensures
        settings_told(r, settings(read@)),
{
    let raw = read_settings(read);
    let default_qdisc = text_setting(&raw, "core/default_qdisc");
    GlobalSysctls {
        ipv4_forwarding: number_setting(&raw, "ipv4/ip_forward"),
        ipv6_forwarding: number_setting(&raw, "ipv6/conf/all/forwarding"),
        ipv6_disable: number_setting(&raw, "ipv6/conf/all/disable_ipv6"),
        tcp_fastopen: number_setting(&raw, "ipv4/tcp_fastopen"),
        tcp_mtu_probing: number_setting(&raw, "ipv4/tcp_mtu_probing"),
        tcp_base_mss: number_setting(&raw, "ipv4/tcp_base_mss"),
        tcp_syn_retries: number_setting(&raw, "ipv4/tcp_syn_retries"),
        tcp_synack_retries: number_setting(&raw, "ipv4/tcp_synack_retries"),
        tcp_retries2: number_setting(&raw, "ipv4/tcp_retries2"),
        tcp_fin_timeout: number_setting(&raw, "ipv4/tcp_fin_timeout"),
        tcp_keepalive_time: number_setting(&raw, "ipv4/tcp_keepalive_time"),
        tcp_ecn: number_setting(&raw, "ipv4/tcp_ecn"),
        tcp_timestamps: number_setting(&raw, "ipv4/tcp_timestamps"),
        tcp_sack: number_setting(&raw, "ipv4/tcp_sack"),
        ip_no_pmtu_disc: number_setting(&raw, "ipv4/ip_no_pmtu_disc"),
        route_min_pmtu: number_setting(&raw, "ipv4/route/min_pmtu"),
        tcp_congestion_control: text_setting(&raw, "ipv4/tcp_congestion_control"),
        tcp_available_congestion_control: text_setting(&raw, "ipv4/tcp_available_congestion_control"),
        ping_group_range: text_setting(&raw, "ipv4/ping_group_range"),
        default_qdisc_present: if is_empty(default_qdisc.as_str()) {
            0
        } else {
            1
        },
        default_qdisc,
        raw,
    }
}

/// Whether the range in a file such as "0 2147483647" includes a group.
pub open spec fn range_allows(content: Option<Seq<char>>, gid: u32) -> bool {
    match content {
        Some(text) if words(text).len() >= 2 => match (
            unsigned(words(text)[0], u64::MAX as nat),
            unsigned(words(text)[1], u64::MAX as nat),
        ) {
            (Some(lo), Some(hi)) => lo <= gid <= hi,
            _ => false,
        },
        _ => false,
    }
}

/// Can a process of this group open an ICMP datagram socket? The argument is
/// what /proc/sys/net/ipv4/ping_group_range holds, if it could be read.
pub fn ping_group_range_allows(range: &Option<String>, gid: u32) -> (r: bool)
    ensures
        r == range_allows(crate::util::content_of(*range), gid),
{
    match range {
        None => false,
        Some(text) => {
            let w = words_of(text.as_str());
            let ghost ws = words(text@);
            assert(w.len() == ws.len());
            if w.len() < 2 {
                return false;
            }
            assert(w@[0]@ == ws[0] && w@[1]@ == ws[1]);
            match (parse_u64(w[0].as_str()), parse_u64(w[1].as_str())) {
                (Some(lo), Some(hi)) => lo <= gid as u64 && gid as u64 <= hi,
                _ => false,
            }
        },
    }
}

// ---- Counters ---------------------------------------------------------------

/// Counters by the name of their protocol and their own name.
#[derive(Clone, Debug, Default, PartialEq)]
pub struct CounterTable {
    pub entries: Vec<(String, String, i64)>,
}

pub open spec fn counters(entries: Seq<(String, String, i64)>) -> Map<(Seq<char>, Seq<char>), i64>
    decreases entries.len(),
{
    if entries.len() == 0 {
        Map::empty()
    } else {
        counters(entries.drop_last()).insert(
            (entries.last().0@, entries.last().1@),
            entries.last().2,
        )
    }
}

/// Whether no counter stands in the table twice.
pub open spec fn distinct_counters(entries: Seq<(String, String, i64)>) -> bool {
    forall|i: int, j: int|
        0 <= i < j < entries.len() ==> !((#[trigger] entries[i]).0@ == (#[trigger] entries[j]).0@
            && entries[i].1@ == entries[j].1@)
}

impl View for CounterTable {
    type V = Map<(Seq<char>, Seq<char>), i64>;

    open spec fn view(&self) -> Map<(Seq<char>, Seq<char>), i64> {
        counters(self.entries@)
    }
}

proof fn lemma_counter_at(entries: Seq<(String, String, i64)>, i: int)
    requires
        0 <= i < entries.len(),
        distinct_counters(entries),
    ensures
        counters(entries).contains_key((entries[i].0@, entries[i].1@)),
        counters(entries)[(entries[i].0@, entries[i].1@)] == entries[i].2,
    decreases entries.len(),
{
    if i < entries.len() - 1 {
        assert(!(entries[i].0@ == entries[entries.len() - 1].0@ && entries[i].1@
            == entries[entries.len() - 1].1@));
        lemma_counter_at(entries.drop_last(), i);
    }
}

proof fn lemma_counter_absent(entries: Seq<(String, String, i64)>, k: (Seq<char>, Seq<char>))
    requires
        forall|i: int|
            0 <= i < entries.len() ==> !((#[trigger] entries[i]).0@ == k.0 && entries[i].1@ == k.1),
    ensures
        !counters(entries).contains_key(k),
    decreases entries.len(),
{
    if entries.len() > 0 {
        let last = entries[entries.len() - 1];
        assert(!(last.0@ == k.0 && last.1@ == k.1));
        lemma_counter_absent(entries.drop_last(), k);
    }
}

proof fn lemma_counter_update(
    entries: Seq<(String, String, i64)>,
    i: int,
    e: (String, String, i64),
)
    requires
        0 <= i < entries.len(),
        distinct_counters(entries),
        e.0@ == entries[i].0@,
        e.1@ == entries[i].1@,
    ensures
        counters(entries.update(i, e)) == counters(entries).insert((e.0@, e.1@), e.2),
        distinct_counters(entries.update(i, e)),
    decreases entries.len(),
{
    let after = entries.update(i, e);
    let front = entries.drop_last();
    assert forall|a: int, b: int| 0 <= a < b < after.len() implies !((#[trigger] after[a]).0@ == (
    #[trigger] after[b]).0@ && after[a].1@ == after[b].1@) by {
        assert(!(entries[a].0@ == entries[b].0@ && entries[a].1@ == entries[b].1@));
    }
    if i < entries.len() - 1 {
        lemma_counter_update(front, i, e);
        assert(after.drop_last() =~= front.update(i, e));
        assert(!(entries[i].0@ == entries[entries.len() - 1].0@ && entries[i].1@
            == entries[entries.len() - 1].1@));
        assert(counters(after) =~= counters(entries).insert((e.0@, e.1@), e.2));
    } else {
        assert(after.drop_last() =~= front);
        assert(counters(after) =~= counters(entries).insert((e.0@, e.1@), e.2));
    }
}

impl CounterTable {
    pub fn new() -> (r: Self)
        ensures
            r@ == Map::<(Seq<char>, Seq<char>), i64>::empty(),
            distinct_counters(r.entries@),
    {
        CounterTable { entries: Vec::new() }
    }

    /// Gives a counter a value, in place of the one that it had.
    pub fn insert(&mut self, group: String, name: String, value: i64)
        requires
            distinct_counters(old(self).entries@),
        ensures
            final(self)@ == old(self)@.insert((group@, name@), value),
            distinct_counters(final(self).entries@),
    {
        let ghost start = self.entries@;
        let n = self.entries.len();
        let mut i: usize = 0;
        while i < n
            invariant
                i <= n,
                n == self.entries.len(),
                self.entries@ == start,
                start == old(self).entries@,
                distinct_counters(start),
                forall|k: int|
                    0 <= k < i ==> !((#[trigger] start[k]).0@ == group@ && start[k].1@ == name@),
            decreases n - i,
        {
            if same(self.entries[i].0.as_str(), group.as_str()) && same(
                self.entries[i].1.as_str(),
                name.as_str(),
            ) {
                let entry = (group, name, value);
                proof {
                    lemma_counter_update(start, i as int, entry);
                }
                self.entries.set(i, entry);
                return;
            }
            i += 1;
        }
        self.entries.push((group, name, value));
        assert(self.entries@.drop_last() =~= start);
    }

    /// The value of a counter.
    pub fn get(&self, group: &str, name: &str) -> (r: Option<i64>)
        requires
            distinct_counters(self.entries@),
        ensures
            match r {
                Some(v) => self@.contains_key((group@, name@)) && self@[(group@, name@)] == v,
                None => !self@.contains_key((group@, name@)),
            },
    {
        let mut i: usize = 0;
        while i < self.entries.len()
            invariant
                i <= self.entries.len(),
                distinct_counters(self.entries@),
                forall|k: int|
                    0 <= k < i ==> !((#[trigger] self.entries@[k]).0@ == group@
                        && self.entries@[k].1@ == name@),
            decreases self.entries.len() - i,
        {
            if same(self.entries[i].0.as_str(), group) && same(self.entries[i].1.as_str(), name) {
                proof {
                    lemma_counter_at(self.entries@, i as int);
                }
                return Some(self.entries[i].2);
            }
            i += 1;
        }
        proof {
            lemma_counter_absent(self.entries@, (group@, name@));
        }
        None
    }
}

/// The map that a list of counters stands for.
pub open spec fn counter_map(v: Seq<Counter>) -> Map<Seq<char>, i64>
    decreases v.len(),
{
    if v.len() == 0 {
        Map::empty()
    } else {
        counter_map(v.drop_last()).insert(v.last().name@, v.last().value)
    }
}

/// Whether a list of counters is a map: no name occurs in it twice.
pub open spec fn distinct_names(v: Seq<Counter>) -> bool {
    forall|i: int, j: int|
        0 <= i < j < v.len() ==> (#[trigger] v[i]).name@ != (#[trigger] v[j]).name@
}

/// A name of a list is one of the map that it stands for.
proof fn lemma_counter_listed(v: Seq<Counter>, i: int)
    requires
        0 <= i < v.len(),
    ensures
        counter_map(v).contains_key(v[i].name@),
    decreases v.len(),
{
    if i < v.len() - 1 {
        lemma_counter_listed(v.drop_last(), i);
    }
}

/// A counter of a table without repetitions does not stand in the part before it.
proof fn lemma_counter_is_new(entries: Seq<(String, String, i64)>, i: int, k: int)
    requires
        distinct_counters(entries),
        0 <= k <= i < entries.len(),
    ensures
        !counters(entries.take(k)).contains_key((entries[i].0@, entries[i].1@)),
    decreases k,
{
    if k > 0 {
        lemma_counter_is_new(entries, i, k - 1);
        assert(entries.take(k).drop_last() =~= entries.take(k - 1));
        assert(!(entries[k - 1].0@ == entries[i].0@ && entries[k - 1].1@ == entries[i].1@));
    }
}

/// The counters of one protocol whose names begin with a prefix, by what
/// follows the prefix.
pub open spec fn group_map(
    m: Map<(Seq<char>, Seq<char>), i64>,
    group: Seq<char>,
    prefix: Seq<char>,
) -> Map<Seq<char>, i64> {
    Map::new(
        |n: Seq<char>| m.contains_key((group, prefix + n)),
        |n: Seq<char>| m[(group, prefix + n)],
    )
}

proof fn lemma_group_map_insert(
    m: Map<(Seq<char>, Seq<char>), i64>,
    e: (Seq<char>, Seq<char>),
    v: i64,
    group: Seq<char>,
    prefix: Seq<char>,
)
    ensures
        group_map(m.insert(e, v), group, prefix) == if e.0 == group && starts_with(e.1, prefix) {
            group_map(m, group, prefix).insert(e.1.skip(prefix.len() as int), v)
        } else {
            group_map(m, group, prefix)
        },
{
    let after = group_map(m.insert(e, v), group, prefix);
    let before = group_map(m, group, prefix);
    if e.0 == group && starts_with(e.1, prefix) {
        let rest = e.1.skip(prefix.len() as int);
        assert(prefix + rest =~= e.1);
        assert forall|n: Seq<char>| n != rest implies prefix + n != e.1 by {
            if prefix + n == e.1 {
                assert((prefix + n).skip(prefix.len() as int) =~= n);
            }
        }
        assert(after =~= before.insert(rest, v));
    } else {
        assert forall|n: Seq<char>| e.0 == group implies prefix + n != e.1 by {
            if e.0 == group && prefix + n == e.1 {
                assert(e.1.take(prefix.len() as int) =~= prefix);
            }
        }
        assert(after =~= before);
    }
}

fn select(table: &CounterTable, group: &str, prefix: &str) -> (r: Vec<Counter>)
    requires
        distinct_counters(table.entries@),
    ensures
        counter_map(r@) == group_map(table@, group@, prefix@),
        distinct_names(r@),
{
    let ghost all = table.entries@;
    let mut r: Vec<Counter> = Vec::new();
    let mut i: usize = 0;
    assert(all.take(0) =~= Seq::empty());
    assert(group_map(counters(all.take(0)), group@, prefix@) =~= Map::empty());
    while i < table.entries.len()
        invariant
            i <= table.entries.len(),
            all == table.entries@,
            counter_map(r@) == group_map(counters(all.take(i as int)), group@, prefix@),
            distinct_counters(all),
            distinct_names(r@),
        decreases table.entries.len() - i,
    {
        assert(all.take(i + 1).drop_last() =~= all.take(i as int));
        let ghost before = r@;
        let e = &table.entries[i];
        proof {
            lemma_group_map_insert(
                counters(all.take(i as int)),
                (e.0@, e.1@),
                e.2,
                group@,
                prefix@,
            );
        }
        if same(e.0.as_str(), group) {
            if let Some(name) = strip_text_prefix(e.1.as_str(), prefix) {
                proof {
                    lemma_counter_is_new(all, i as int, i as int);
                    assert(prefix@ + name@ =~= e.1@);
                    assert(!counter_map(before).contains_key(name@));
                    assert forall|k: int| 0 <= k < before.len() implies (
                    #[trigger] before[k]).name@ != name@ by {
                        lemma_counter_listed(before, k);
                    }
                }
                r.push(Counter { name, value: e.2 });
                assert(r@.drop_last() =~= before);
            }
        }
        i += 1;
    }
    assert(all.take(all.len() as int) =~= all);
    r
}

/// The counters with the first `n` names paired with their values; a value
/// that is no number is left out.
pub open spec fn paired(
    m: Map<(Seq<char>, Seq<char>), i64>,
    group: Seq<char>,
    names: Seq<Seq<char>>,
    values: Seq<Seq<char>>,
    n: nat,
) -> Map<(Seq<char>, Seq<char>), i64>
    decreases n,
{
    if n == 0 {
        m
    } else {
        let front = paired(m, group, names, values, (n - 1) as nat);
        match signed(values[n - 1], i64::MAX as nat) {
            Some(v) => front.insert((group, names[n - 1]), v as i64),
            None => front,
        }
    }
}

pub open spec fn shorter(a: nat, b: nat) -> nat {
    if a < b {
        a
    } else {
        b
    }
}

/// The counters after a header line and a value line. Lines that are not about
/// the same protocol say nothing.
pub open spec fn after_pair(
    m: Map<(Seq<char>, Seq<char>), i64>,
    header: Seq<char>,
    values: Seq<char>,
) -> Map<(Seq<char>, Seq<char>), i64> {
    match (split_once(header, ':'), split_once(values, ':')) {
        (Some((a, h)), Some((b, v))) if a == b => paired(
            m,
            ascii_lowercase(a),
            words(h),
            words(v),
            shorter(words(h).len(), words(v).len()),
        ),
        _ => m,
    }
}

/// The counters in the first `n` pairs of lines.
pub open spec fn snmp_counters(ls: Seq<Seq<char>>, n: nat) -> Map<(Seq<char>, Seq<char>), i64>
    decreases n,
{
    if n == 0 {
        Map::empty()
    } else {
        after_pair(snmp_counters(ls, (n - 1) as nat), ls[2 * n - 2], ls[2 * n - 1])
    }
}

fn read_pair(out: &mut CounterTable, header: &str, values: &str)
    requires
        distinct_counters(old(out).entries@),
    ensures
        final(out)@ == after_pair(old(out)@, header@, values@),
        distinct_counters(final(out).entries@),
{
    match (split_text_once(header, ':'), split_text_once(values, ':')) {
        (Some((a, h)), Some((b, v))) => {
            if !same(a.as_str(), b.as_str()) {
                return;
            }
            let group = to_ascii_lowercase(a.as_str());
            let names = words_of(h.as_str());
            let numbers = words_of(v.as_str());
            let ghost start = out@;
            let ghost hs = words(h@);
            let ghost vs = words(v@);
            let n = if names.len() < numbers.len() {
                names.len()
            } else {
                numbers.len()
            };
            let mut i: usize = 0;
            while i < n
                invariant
                    i <= n,
                    n <= names.len(),
                    n <= numbers.len(),
                    texts(names@) == hs,
                    texts(numbers@) == vs,
                    distinct_counters(out.entries@),
                    out@ == paired(start, group@, hs, vs, i as nat),
                decreases n - i,
            {
                assert(names@[i as int]@ == hs[i as int]);
                assert(numbers@[i as int]@ == vs[i as int]);
                if let Some(v) = parse_i64(numbers[i].as_str()) {
                    out.insert(group.clone(), names[i].clone(), v);
                }
                i += 1;
            }
            assert(n == shorter(hs.len(), vs.len()));
        },
        _ => {},
    }
}

/// Parse the two-line-per-protocol format used by /proc/net/snmp and
/// /proc/net/netstat:
///
/// ```text
/// Tcp: RtoAlgorithm RtoMin ... InSegs OutSegs
/// Tcp: 1 200 ... 12345 67890
/// ```
pub fn parse_snmp_style(text: &str) -> (r: CounterTable)
    ensures
        r@ == snmp_counters(lines(text@), lines(text@).len() / 2),
        distinct_counters(r.entries@),
{
    let ls = lines_of(text);
    let ghost all = lines(text@);
    let n = ls.len() / 2;
    let mut out = CounterTable::new();
    let mut i: usize = 0;
    while i < n
        invariant
            i <= n,
            2 * n <= ls.len(),
            all == texts(ls@),
            out@ == snmp_counters(all, i as nat),
            distinct_counters(out.entries@),
        decreases n - i,
    {
        assert(ls@[2 * i]@ == all[2 * i]);
        assert(ls@[2 * i + 1]@ == all[2 * i + 1]);
        read_pair(&mut out, ls[2 * i].as_str(), ls[2 * i + 1].as_str());
        i += 1;
    }
    out
}

/// The counters in lines of a name and a value; other lines say nothing. They
/// belong to no protocol.
pub open spec fn flat_counters(ls: Seq<Seq<char>>) -> Map<(Seq<char>, Seq<char>), i64>
    decreases ls.len(),
{
    if ls.len() == 0 {
        Map::empty()
    } else {
        let front = flat_counters(ls.drop_last());
        let w = words(ls.last());
        if w.len() >= 2 && signed(w[1], i64::MAX as nat) is Some {
            front.insert((""@, w[0]), signed(w[1], i64::MAX as nat)->0 as i64)
        } else {
            front
        }
    }
}

/// /proc/net/snmp6 and /proc/net/dev_snmp6/* use a flat `Name value` layout.
pub fn parse_flat_counters(text: &str) -> (r: CounterTable)
    ensures
        r@ == flat_counters(lines(text@)),
        distinct_counters(r.entries@),
{
    let ls = lines_of(text);
    let ghost all = lines(text@);
    let mut out = CounterTable::new();
    let mut i: usize = 0;
    assert(all.take(0) =~= Seq::empty());
    while i < ls.len()
        invariant
            i <= ls.len(),
            all == texts(ls@),
            out@ == flat_counters(all.take(i as int)),
            distinct_counters(out.entries@),
        decreases ls.len() - i,
    {
        assert(all.take(i + 1).drop_last() =~= all.take(i as int));
        assert(ls@[i as int]@ == all[i as int]);
        let w = words_of(ls[i].as_str());
        let ghost ws = words(all[i as int]);
        assert(w.len() == ws.len());
        if w.len() >= 2 {
            assert(w@[0]@ == ws[0] && w@[1]@ == ws[1]);
            if let Some(v) = parse_i64(w[1].as_str()) {
                out.insert(String::from_str(""), w[0].clone(), v);
            }
        }
        i += 1;
    }
    assert(all.take(all.len() as int) =~= all);
    out
}

/// Whether these are the counters by protocol, in what the three files hold.
pub open spec fn counters_told(
    r: ProtocolCounters,
    snmp: Seq<char>,
    netstat: Seq<char>,
    snmp6: Seq<char>,
) -> bool {
    let a = snmp_counters(lines(snmp), lines(snmp).len() / 2);
    let b = snmp_counters(lines(netstat), lines(netstat).len() / 2);
    let c = flat_counters(lines(snmp6));
    &&& counter_map(r.ip@) == group_map(a, "ip"@, ""@)
    &&& counter_map(r.icmp@) == group_map(a, "icmp"@, ""@)
    &&& counter_map(r.tcp@) == group_map(a, "tcp"@, ""@)
    &&& counter_map(r.udp@) == group_map(a, "udp"@, ""@)
    &&& counter_map(r.ip6@) == group_map(c, ""@, "Ip6"@)
    &&& counter_map(r.icmp6@) == group_map(c, ""@, "Icmp6"@)
    &&& counter_map(r.udp6@) == group_map(c, ""@, "Udp6"@)
    &&& counter_map(r.tcp_ext@) == group_map(b, "tcpext"@, ""@)
    &&& counter_map(r.ip_ext@) == group_map(b, "ipext"@, ""@)
    &&& distinct_names(r.ip@) && distinct_names(r.icmp@) && distinct_names(r.tcp@)
    &&& distinct_names(r.udp@) && distinct_names(r.ip6@) && distinct_names(r.icmp6@)
    &&& distinct_names(r.udp6@) && distinct_names(r.tcp_ext@) && distinct_names(r.ip_ext@)
}

/// The counters of the kernel by protocol, from what /proc/net/snmp,
/// /proc/net/netstat and /proc/net/snmp6 hold. The last one is a single
/// namespace with Ip6/Icmp6/Udp6 prefixes.
pub fn read_counters(snmp: &str, netstat: &str, snmp6: &str) -> (r: ProtocolCounters)
    ensures
        counters_told(r, snmp@, netstat@, snmp6@),
{
    let a = parse_snmp_style(snmp);
    let b = parse_snmp_style(netstat);
    let c = parse_flat_counters(snmp6);
    ProtocolCounters {
        ip: select(&a, "ip", ""),
        icmp: select(&a, "icmp", ""),
        tcp: select(&a, "tcp", ""),
        udp: select(&a, "udp", ""),
        ip6: select(&c, "", "Ip6"),
        icmp6: select(&c, "", "Icmp6"),
        udp6: select(&c, "", "Udp6"),
        tcp_ext: select(&b, "tcpext", ""),
        ip_ext: select(&b, "ipext", ""),
    }
}

// ---- The resolver -----------------------------------------------------------

/// The servers and the search domains that lines of /etc/resolv.conf name.
pub open spec fn resolver_lines(ls: Seq<Seq<char>>) -> (Seq<IpAddr>, Seq<Seq<char>>)
    decreases ls.len(),
{
    if ls.len() == 0 {
        (Seq::empty(), Seq::empty())
    } else {
        let (servers, domains) = resolver_lines(ls.drop_last());
        let line = trim(ls.last());
        if strip_prefix(line, "nameserver"@) is Some {
            match parse_ip(trim(strip_prefix(line, "nameserver"@)->0)) {
                Some(ip) => (servers.push(ip), domains),
                None => (servers, domains),
            }
        } else if strip_prefix(line, "search"@) is Some {
            (servers, domains + words(strip_prefix(line, "search"@)->0))
        } else {
            (servers, domains)
        }
    }
}

/// Whether messages hold these addresses.
pub open spec fn hold_addresses(v: Seq<IpAddress>, ips: Seq<IpAddr>) -> bool {
    v.len() == ips.len() && forall|i: int|
        0 <= i < v.len() ==> (#[trigger] v[i]).ip_of() == Some(ips[i])
}

fn add_words(list: &mut Vec<String>, text: &str)
    ensures
        texts(final(list)@) == texts(old(list)@) + words(text@),
{
    let w = words_of(text);
    let ghost start = texts(list@);
    let ghost ws = words(text@);
    let mut i: usize = 0;
    assert(start + ws.take(0) =~= start);
    while i < w.len()
        invariant
            i <= w.len(),
            texts(w@) == ws,
            texts(list@) == start + ws.take(i as int),
        decreases w.len() - i,
    {
        let ghost before = texts(list@);
        assert(w@[i as int]@ == ws[i as int]);
        list.push(w[i].clone());
        i += 1;
        assert(texts(list@) =~= before.push(ws[i - 1]));
        assert(texts(list@) =~= start + ws.take(i as int));
    }
    assert(ws.take(ws.len() as int) =~= ws);
}

/// What /etc/resolv.conf says, from its trimmed contents. On Android the file
/// normally does not exist: netd owns DNS and hands resolver configuration to
/// apps through the framework instead. Reporting that absence explicitly stops
/// it from looking like a collection failure.
pub fn read_resolver_state(conf: &Option<String>) -> (r: ResolverState)
    ensures
        r.resolv_conf_present == conf is Some,
        match *conf {
            Some(text) => {
                &&& hold_addresses(r.resolv_conf_servers@, resolver_lines(lines(text@)).0)
                &&& texts(r.resolv_conf_domains@) == resolver_lines(lines(text@)).1
                &&& r.resolv_conf_note@.len() == 0
            },
            None => {
                &&& r.resolv_conf_servers@.len() == 0
                &&& r.resolv_conf_domains@.len() == 0
                &&& r.resolv_conf_note@
                    == "no /etc/resolv.conf; on Android the resolver lives in netd and DNS servers are published through LinkProperties instead"@
            },
        },
{
    let mut servers: Vec<IpAddress> = Vec::new();
    let mut domains: Vec<String> = Vec::new();
    match conf {
        None => ResolverState {
            resolv_conf_servers: servers,
            resolv_conf_domains: domains,
            resolv_conf_present: false,
            resolv_conf_note: String::from_str(
                "no /etc/resolv.conf; on Android the resolver lives in netd and DNS servers are published through LinkProperties instead",
            ),
        },
        Some(text) => {
            let ls = lines_of(text.as_str());
            let ghost all = lines(text@);
            let mut i: usize = 0;
            assert(all.take(0) =~= Seq::empty());
            assert(texts(domains@) =~= Seq::empty());
            while i < ls.len()
                invariant
                    i <= ls.len(),
                    all == texts(ls@),
                    hold_addresses(servers@, resolver_lines(all.take(i as int)).0),
                    texts(domains@) == resolver_lines(all.take(i as int)).1,
                decreases ls.len() - i,
            {
                assert(all.take(i + 1).drop_last() =~= all.take(i as int));
                assert(ls@[i as int]@ == all[i as int]);
                let line = trim_text(ls[i].as_str());
                if let Some(rest) = strip_text_prefix(line.as_str(), "nameserver") {
                    let name = trim_text(rest.as_str());
                    if let Some(ip) = read_ip(name.as_str()) {
                        servers.push(IpAddress::from_ip(ip));
                    }
                } else if let Some(rest) = strip_text_prefix(line.as_str(), "search") {
                    add_words(&mut domains, rest.as_str());
                }
                i += 1;
            }
            assert(all.take(all.len() as int) =~= all);
            ResolverState {
                resolv_conf_servers: servers,
                resolv_conf_domains: domains,
                resolv_conf_present: true,
                resolv_conf_note: String::new(),
            }
        },
    }
}

// ---- Namespaces ---------------------------------------------------------------

/// What a namespace says.
pub open spec fn namespace_said(n: NetworkNamespace) -> (int, Seq<char>, u64, bool) {
    (n.id as int, n.name@, n.inode, n.is_current)
}

/// The namespace of this process, and those that have a name: pairs of a name
/// and an inode. A route that "does not exist" because it is in another
/// namespace is worth spotting.
pub fn read_namespaces(current_inode: u64, named: Vec<(String, u64)>) -> (r: Vec<NetworkNamespace>)
    ensures
        r.len() == named.len() + 1,
        namespace_said(r@[0]) == (-1int, "self"@, current_inode, true),
        forall|i: int|
            0 <= i < named.len() ==> #[trigger] namespace_said(r@[i + 1]) == (
                -1int,
                named@[i].0@,
                named@[i].1,
                named@[i].1 == current_inode,
            ),
{
    let ghost all = named@;
    let mut out: Vec<NetworkNamespace> = Vec::new();
    out.push(
        NetworkNamespace {
            id: -1,
            name: String::from_str("self"),
            inode: current_inode,
            is_current: true,
        },
    );
    for entry in it: named
        invariant
            it.seq() == all,
            out.len() == it.index() + 1,
            namespace_said(out@[0]) == (-1int, "self"@, current_inode, true),
            forall|i: int|
                0 <= i < it.index() ==> #[trigger] namespace_said(out@[i + 1]) == (
                    -1int,
                    all[i].0@,
                    all[i].1,
                    all[i].1 == current_inode,
                ),
    {
        out.push(
            NetworkNamespace {
                id: -1,
                name: entry.0,
                inode: entry.1,
                is_current: entry.1 == current_inode,
            },
        );
    }
    out
}

// ---- 464XLAT ------------------------------------------------------------------

/// Whether an interface is clatd's.
pub open spec fn is_clat() -> spec_fn(Interface) -> bool {
    |i: Interface| i.kind == LinkKind::Clat || starts_with(i.name@, "v4-"@)
}

/// Whether an address of an interface is an IPv4 address.
pub open spec fn has_v4() -> spec_fn(LinkAddress) -> bool {
    |a: LinkAddress| prefix_ip(a.prefix) is Some && prefix_ip(a.prefix)->0 is V4
}

/// Whether an address of an interface is an IPv6 address.
pub open spec fn has_v6() -> spec_fn(LinkAddress) -> bool {
    |a: LinkAddress| prefix_ip(a.prefix) is Some && prefix_ip(a.prefix)->0 is V6
}

/// The first address of an interface with a property.
pub open spec fn first_ip(addresses: Seq<LinkAddress>, p: spec_fn(LinkAddress) -> bool) -> Option<
    IpAddr,
> {
    match find(addresses, p) {
        Some(a) => prefix_ip(a.prefix),
        None => None,
    }
}

fn find_address(addresses: &Vec<LinkAddress>, want_v6: bool) -> (r: Option<IpAddr>)
    ensures
        r == first_ip(
            addresses@,
            if want_v6 {
                has_v6()
            } else {
                has_v4()
            },
        ),
{
    let ghost p = if want_v6 {
        has_v6()
    } else {
        has_v4()
    };
    let mut i: usize = 0;
    assert(addresses@.skip(0) =~= addresses@);
    while i < addresses.len()
        invariant
            i <= addresses.len(),
            p == if want_v6 {
                has_v6()
            } else {
                has_v4()
            },
            find(addresses@, p) == find(addresses@.skip(i as int), p),
        decreases addresses.len() - i,
    {
        proof {
            lemma_find_step(addresses@, p, i as int);
        }
        if let Some(ip) = link_address_ip(&addresses[i]) {
            if ip.is_ipv6() == want_v6 {
                return Some(ip);
            }
        }
        i += 1;
    }
    None
}

/// Whether the state is what the interfaces say of 464XLAT.
pub open spec fn clat_told(r: Clat464State, interfaces: Seq<Interface>) -> bool {
    &&& r.detected_nat64_prefix is None
    &&& match find(interfaces, is_clat()) {
        None => {
            &&& !r.active
            &&& r.clat_interface@.len() == 0
            &&& r.base_interface@.len() == 0
            &&& r.clat_ipv4_address is None
            &&& r.clat_ipv6_address is None
            &&& r.detection_method@ == "no v4-* interface present"@
        },
        Some(clat) => {
            &&& r.active == (clat.flags is Some && (clat.flags->0).up && (
            clat.flags->0).running)
            &&& r.clat_interface@ == clat.name@
            &&& r.base_interface@ == or(strip_prefix(clat.name@, "v4-"@), Seq::empty())
            &&& address_ip(r.clat_ipv4_address) == first_ip(clat.addresses@, has_v4())
            &&& address_ip(r.clat_ipv6_address) == first_ip(clat.addresses@, has_v6())
            &&& r.detection_method@ == "clat interface "@ + clat.name@ + " present"@
        },
    }
}

/// Whether 464XLAT is running, from the interfaces. Android runs clatd when a
/// network is IPv6-only, creating a `v4-<iface>` tun; its presence is proof the
/// network has no native IPv4.
pub fn detect_clat(interfaces: &Vec<Interface>) -> (r: Clat464State)
    ensures
        clat_told(r, interfaces@),
{
    let ghost p = is_clat();
    let mut i: usize = 0;
    assert(interfaces@.skip(0) =~= interfaces@);
    while i < interfaces.len()
        invariant
            i <= interfaces.len(),
            p == is_clat(),
            find(interfaces@, p) == find(interfaces@.skip(i as int), p),
        decreases interfaces.len() - i,
    {
        proof {
            lemma_find_step(interfaces@, p, i as int);
        }
        let clat = &interfaces[i];
        if clat.kind == LinkKind::Clat || text_starts_with(clat.name.as_str(), "v4-") {
            let base_interface = match strip_text_prefix(clat.name.as_str(), "v4-") {
                Some(rest) => rest,
                None => String::new(),
            };
            return Clat464State {
                active: match &clat.flags {
                    Some(f) => f.up && f.running,
                    None => false,
                },
                clat_interface: clat.name.clone(),
                base_interface,
                clat_ipv4_address: match find_address(&clat.addresses, false) {
                    Some(ip) => Some(IpAddress::from_ip(ip)),
                    None => None,
                },
                clat_ipv6_address: match find_address(&clat.addresses, true) {
                    Some(ip) => Some(IpAddress::from_ip(ip)),
                    None => None,
                },
                detected_nat64_prefix: None,
                detection_method: String::from_str("clat interface ")
                    .concat(clat.name.as_str())
                    .concat(" present"),
            };
        }
        i += 1;
    }
    Clat464State {
        active: false,
        clat_interface: String::new(),
        base_interface: String::new(),
        clat_ipv4_address: None,
        clat_ipv6_address: None,
        detected_nat64_prefix: None,
        detection_method: String::from_str("no v4-* interface present"),
    }
}

} // verus!
