//! One consistent-ish capture of every layer at once.
//!
//! "Consistent-ish" is deliberate: there is no way to freeze the kernel's
//! networking state across several netlink dumps, so a snapshot taken during a
//! Wi-Fi to cellular handover can contain routes for an interface that has
//! already gone. The elapsed time is recorded, and anything that failed is
//! listed among the warnings instead of being silently dropped.
use std::collections::HashMap;

use vstd::prelude::*;

use crate::collect::neigh::{get_neighbors, neighbor_before, neighbor_wanted};
use crate::collect::procnet::{clat_told, detect_clat};
use crate::collect::routes::{
    get_routes, get_rules, route_before, route_wanted, rule_before, rule_wanted, table_names_of,
};
use crate::collect::sockets::{counted, get_sockets, passes, DEFAULT_SOCKET_LIMIT};
use crate::collect::{name_in, name_or_empty};
use crate::proto::{
    FirewallState, GetSnapshotRequest, GlobalSysctls, Interface, Neighbor, NetworkNamespace,
    ProtocolCounters, Qdisc, ResolverState, Route, RoutingRule, Snapshot, Socket, SocketFilter,
};
use crate::seqs::{last_some, lemma_filter_all, or, sort_by};
use crate::text::{is_empty, texts};
use crate::util::{now_unix_ms, Stopwatch};

verus! {

// ---- Queueing disciplines -------------------------------------------------------

/// One of the newer statistics of a queueing discipline.
#[derive(Clone, Copy, Debug, PartialEq)]
pub enum TcStats2 {
    Basic { bytes: u64, packets: u32 },
    Queue { qlen: u32, backlog: u32, drops: u32, requeues: u32, overlimits: u32 },
}

/// One attribute of an RTM_NEWQDISC message.
pub enum TcAttribute {
    Kind(String),
    Stats2(Vec<TcStats2>),
    Stats { bytes: u64, packets: u32, drops: u32, overlimits: u32 },
}

/// An RTM_NEWQDISC message.
pub struct TcMessage {
    pub index: u32,
    pub handle: u32,
    pub parent: u32,
    pub attributes: Vec<TcAttribute>,
}

/// The counters of a queueing discipline.
pub struct QdiscCounts {
    pub bytes: int,
    pub packets: int,
    pub drops: int,
    pub overlimits: int,
    pub requeues: int,
    pub backlog_bytes: int,
    pub backlog_packets: int,
}

pub open spec fn counts_of(q: Qdisc) -> QdiscCounts {
    QdiscCounts {
        bytes: q.bytes_sent as int,
        packets: q.packets_sent as int,
        drops: q.drops as int,
        overlimits: q.overlimits as int,
        requeues: q.requeues as int,
        backlog_bytes: q.backlog_bytes as int,
        backlog_packets: q.backlog_packets as int,
    }
}

pub open spec fn no_counts() -> QdiscCounts {
    QdiscCounts {
        bytes: 0,
        packets: 0,
        drops: 0,
        overlimits: 0,
        requeues: 0,
        backlog_bytes: 0,
        backlog_packets: 0,
    }
}

/// The counters after a newer statistic, which counts over what was there.
pub open spec fn after_stat(c: QdiscCounts, stat: TcStats2) -> QdiscCounts {
    match stat {
        TcStats2::Basic { bytes, packets } => QdiscCounts {
            bytes: bytes as int,
            packets: packets as int,
            ..c
        },
        TcStats2::Queue { qlen, backlog, drops, requeues, overlimits } => QdiscCounts {
            drops: drops as int,
            overlimits: overlimits as int,
            requeues: requeues as int,
            backlog_bytes: backlog as int,
            backlog_packets: qlen as int,
            ..c
        },
    }
}

pub open spec fn after_stats(c: QdiscCounts, stats: Seq<TcStats2>) -> QdiscCounts
    decreases stats.len(),
{
    if stats.len() == 0 {
        c
    } else {
        after_stat(after_stats(c, stats.drop_last()), stats.last())
    }
}

/// The counters after an attribute. The older statistics fill in only what is
/// still zero.
pub open spec fn after_attribute(c: QdiscCounts, attr: TcAttribute) -> QdiscCounts {
    match attr {
        TcAttribute::Kind(_) => c,
        TcAttribute::Stats2(stats) => after_stats(c, stats@),
        TcAttribute::Stats { bytes, packets, drops, overlimits } => QdiscCounts {
            bytes: if c.bytes == 0 {
                bytes as int
            } else {
                c.bytes
            },
            packets: if c.bytes == 0 {
                packets as int
            } else {
                c.packets
            },
            drops: if c.drops == 0 {
                drops as int
            } else {
                c.drops
            },
            overlimits: if c.drops == 0 {
                overlimits as int
            } else {
                c.overlimits
            },
            ..c
        },
    }
}

/// The counters that the attributes of a message tell.
pub open spec fn counts_told(attrs: Seq<TcAttribute>) -> QdiscCounts
    decreases attrs.len(),
{
    if attrs.len() == 0 {
        no_counts()
    } else {
        after_attribute(counts_told(attrs.drop_last()), attrs.last())
    }
}

pub open spec fn qdisc_kind() -> spec_fn(TcAttribute) -> Option<Seq<char>> {
    |a: TcAttribute|
        match a {
            TcAttribute::Kind(k) => Some(k@),
            _ => None,
        }
}

/// An RTM_NEWQDISC message as a queueing discipline. One without a kind is
/// skipped.
pub fn qdisc_to_proto(msg: TcMessage, if_names: &HashMap<u32, String>) -> (r: Option<Qdisc>)
    ensures
        r is Some <==> or(last_some(msg.attributes@, qdisc_kind()), Seq::empty()).len() > 0,
        r is Some ==> {
            let q = r->0;
            &&& q.interface_index == msg.index
            &&& q.interface_name@ == name_in(if_names@, msg.index)
            &&& q.handle == msg.handle
            &&& q.parent == msg.parent
            &&& Some(q.kind@) == last_some(msg.attributes@, qdisc_kind())
            &&& counts_of(q) == counts_told(msg.attributes@)
        },
{
    let ghost attrs = msg.attributes@;
    let mut q = Qdisc {
        interface_index: msg.index,
        interface_name: name_or_empty(if_names, msg.index),
        kind: String::new(),
        handle: msg.handle,
        parent: msg.parent,
        bytes_sent: 0,
        packets_sent: 0,
        drops: 0,
        overlimits: 0,
        requeues: 0,
        backlog_bytes: 0,
        backlog_packets: 0,
    };
    let ghost start = q;
    assert(attrs.take(0) =~= Seq::empty());
    for attr in it: msg.attributes
        invariant
            it.seq() == attrs,
            q.interface_index == start.interface_index,
            q.interface_name == start.interface_name,
            q.handle == start.handle,
            q.parent == start.parent,
            q.kind@ == or(last_some(attrs.take(it.index()), qdisc_kind()), Seq::empty()),
            counts_of(q) == counts_told(attrs.take(it.index())),
    {
        let ghost i = it.index();
        assert(attrs.take(i + 1).drop_last() =~= attrs.take(i));
        assert(attrs.take(i + 1).last() == attr);
        match attr {
            TcAttribute::Kind(kind) => q.kind = kind,
            TcAttribute::Stats2(stats) => add_stats(&mut q, &stats),
            TcAttribute::Stats { bytes, packets, drops, overlimits } => {
                if q.bytes_sent == 0 {
                    q.bytes_sent = bytes;
                    q.packets_sent = packets as u64;
                }
                if q.drops == 0 {
                    q.drops = drops as u64;
                    q.overlimits = overlimits as u64;
                }
            },
        }
    }
    assert(attrs.take(attrs.len() as int) =~= attrs);
    if is_empty(q.kind.as_str()) {
        None
    } else {
        Some(q)
    }
}

fn add_stats(q: &mut Qdisc, stats: &Vec<TcStats2>)
    ensures
        counts_of(*final(q)) == after_stats(counts_of(*old(q)), stats@),
        final(q).interface_index == old(q).interface_index,
        final(q).interface_name == old(q).interface_name,
        final(q).handle == old(q).handle,
        final(q).parent == old(q).parent,
        final(q).kind == old(q).kind,
{
    let ghost start = *q;
    let mut i: usize = 0;
    while i < stats.len()
        invariant
            i <= stats.len(),
            counts_of(*q) == after_stats(counts_of(start), stats@.take(i as int)),
            q.interface_index == start.interface_index,
            q.interface_name == start.interface_name,
            q.handle == start.handle,
            q.parent == start.parent,
            q.kind == start.kind,
        decreases stats.len() - i,
    {
        assert(stats@.take(i + 1).drop_last() =~= stats@.take(i as int));
        match stats[i] {
            TcStats2::Basic { bytes, packets } => {
                q.bytes_sent = bytes;
                q.packets_sent = packets as u64;
            },
            TcStats2::Queue { qlen, backlog, drops, requeues, overlimits } => {
                q.drops = drops as u64;
                q.overlimits = overlimits as u64;
                q.requeues = requeues as u64;
                q.backlog_bytes = backlog;
                q.backlog_packets = qlen;
            },
        }
        i += 1;
    }
    assert(stats@.take(stats.len() as int) =~= stats@);
}

// ---- Snapshots ------------------------------------------------------------------

/// What the layers gave. What the request does not ask for is not looked at.
pub struct SnapshotParts {
    pub kernel_release: String,
    pub interfaces: Vec<Interface>,
    pub routes: Vec<Route>,
    pub rules: Result<Vec<RoutingRule>, String>,
    pub neighbors: Result<Vec<Neighbor>, String>,
    pub sockets: Result<Vec<Socket>, String>,
    pub firewall: Option<FirewallState>,
    pub qdiscs: Result<Vec<Qdisc>, String>,
    pub sysctls: Option<GlobalSysctls>,
    pub counters: Option<ProtocolCounters>,
    pub namespaces: Vec<NetworkNamespace>,
    pub resolver: ResolverState,
}

/// The filter of a snapshot's socket dump.
pub fn snapshot_socket_filter(request: &GetSnapshotRequest) -> (r: SocketFilter)
    ensures
        r.include_tcp_info == request.include_socket_tcp_info,
        r.protocols@.len() == 0,
        r.families@.len() == 0,
        r.states@.len() == 0,
        r.uids@.len() == 0,
        r.interface_indexes@.len() == 0,
        r.local_port == 0,
        r.remote_port == 0,
        r.limit == 0,
{
    SocketFilter {
        protocols: Vec::new(),
        families: Vec::new(),
        states: Vec::new(),
        uids: Vec::new(),
        interface_indexes: Vec::new(),
        local_port: 0,
        remote_port: 0,
        include_tcp_info: request.include_socket_tcp_info,
        limit: 0,
    }
}

/// The sockets of a snapshot: all, up to the limit of a dump.
pub open spec fn listed_sockets(all: Seq<Socket>) -> Seq<Socket> {
    if all.len() > DEFAULT_SOCKET_LIMIT {
        all.take(DEFAULT_SOCKET_LIMIT as int)
    } else {
        all
    }
}

/// A warning where a part could not be had.
pub open spec fn unavailable<A>(part: Result<A, String>, what: Seq<char>) -> Seq<Seq<char>> {
    match part {
        Ok(_) => Seq::empty(),
        Err(e) => seq![what + e@],
    }
}

/// The warnings of a snapshot, in the order of the parts.
pub open spec fn snapshot_warnings(request: GetSnapshotRequest, parts: SnapshotParts) -> Seq<Seq<char>> {
    unavailable(parts.rules, "routing rules unavailable: "@) + (if request.include_neighbors {
        unavailable(parts.neighbors, "neighbour table unavailable: "@)
    } else {
        Seq::empty()
    }) + (if request.include_sockets {
        match parts.sockets {
            Ok(all) => if all@.len() > DEFAULT_SOCKET_LIMIT {
                seq!["the socket list was truncated at the daemon's row limit"@]
            } else {
                Seq::empty()
            },
            Err(e) => seq!["socket diagnostics unavailable: "@ + e@],
        }
    } else {
        Seq::empty()
    }) + (if request.include_qdiscs {
        unavailable(parts.qdiscs, "qdisc dump unavailable: "@)
    } else {
        Seq::empty()
    })
}

/// Whether a snapshot shows the parts that the request asks for.
pub open spec fn shows(s: Snapshot, request: GetSnapshotRequest, parts: SnapshotParts) -> bool {
    &&& s.kernel_release == parts.kernel_release
    &&& s.interfaces == parts.interfaces
    &&& s.routes@ == sort_by(parts.routes@, route_before())
    &&& s.table_names@ == table_names_of(s.routes@)
    &&& s.rules@ == match parts.rules {
        Ok(all) => sort_by(all@, rule_before()),
        Err(_) => Seq::empty(),
    }
    &&& s.neighbors@ == match parts.neighbors {
        Ok(all) if request.include_neighbors => sort_by(all@, neighbor_before()),
        _ => Seq::empty(),
    }
    &&& match parts.sockets {
        Ok(all) if request.include_sockets => {
            &&& s.sockets@ == listed_sockets(all@)
            &&& s.socket_summary is Some
            &&& counted(s.socket_summary->0, s.sockets@)
        },
        _ => s.sockets@.len() == 0 && s.socket_summary is None,
    }
    &&& s.qdiscs@ == match parts.qdiscs {
        Ok(all) if request.include_qdiscs => all@,
        _ => Seq::empty(),
    }
    &&& s.firewall == if request.include_firewall {
        parts.firewall
    } else {
        None
    }
    &&& s.sysctls == if request.include_sysctls {
        parts.sysctls
    } else {
        None
    }
    &&& s.counters == if request.include_counters {
        parts.counters
    } else {
        None
    }
    &&& s.namespaces == parts.namespaces
    &&& s.resolver == Some(parts.resolver)
    &&& s.clat is Some
    &&& clat_told(s.clat->0, parts.interfaces@)
    &&& s.android_state == request.android_state
    &&& texts(s.collection_warnings@) == snapshot_warnings(request, parts)
}

/// The snapshot that a request asks for. A part that failed leaves a warning;
/// the interfaces and routes are what it cannot do without.
pub fn collect_snapshot(clock: &Stopwatch, request: GetSnapshotRequest, parts: SnapshotParts) -> (r: Snapshot)
    ensures
        shows(r, request, parts),
{
    let ghost given = parts;
    let mut warnings: Vec<String> = Vec::new();
    assert(texts(warnings@) =~= Seq::<Seq<char>>::empty());
    let clat = detect_clat(&parts.interfaces);
    proof {
        lemma_filter_all(parts.routes@, route_wanted(0, false, 0));
    }
    let dump = get_routes(parts.routes, 0, false, 0);
    let rules = match parts.rules {
        Ok(all) => {
            proof {
                lemma_filter_all(all@, rule_wanted(None));
            }
            get_rules(all, None)
        },
        Err(e) => {
            warnings.push(String::from_str("routing rules unavailable: ").concat(e.as_str()));
            Vec::new()
        },
    };
    let ghost w1 = unavailable(given.rules, "routing rules unavailable: "@);
    assert(texts(warnings@) =~= w1);
    let mut neighbors: Vec<Neighbor> = Vec::new();
    if request.include_neighbors {
        match parts.neighbors {
            Ok(all) => {
                proof {
                    lemma_filter_all(all@, neighbor_wanted(0, false));
                }
                neighbors = get_neighbors(all, 0, false);
            },
            Err(e) => {
                warnings.push(String::from_str("neighbour table unavailable: ").concat(e.as_str()));
            },
        }
    }
    let ghost w2 = w1 + (if request.include_neighbors {
        unavailable(given.neighbors, "neighbour table unavailable: "@)
    } else {
        Seq::empty()
    });
    assert(texts(warnings@) =~= w2);
    let mut sockets: Vec<Socket> = Vec::new();
    let mut socket_summary = None;
    if request.include_sockets {
        match parts.sockets {
            Ok(all) => {
                let filter = snapshot_socket_filter(&request);
                proof {
                    lemma_filter_all(all@, passes(filter));
                }
                let dump = get_sockets(all, &filter);
                if dump.truncated {
                    warnings.push(
                        String::from_str("the socket list was truncated at the daemon's row limit"),
                    );
                }
                sockets = dump.sockets;
                socket_summary = Some(dump.summary);
            },
            Err(e) => {
                warnings.push(String::from_str("socket diagnostics unavailable: ").concat(e.as_str()));
            },
        }
    }
    let mut qdiscs: Vec<Qdisc> = Vec::new();
    if request.include_qdiscs {
        match parts.qdiscs {
            Ok(all) => qdiscs = all,
            Err(e) => {
                warnings.push(String::from_str("qdisc dump unavailable: ").concat(e.as_str()));
            },
        }
    }
    assert(texts(warnings@) =~= snapshot_warnings(request, given));
    Snapshot {
        captured_at_unix_ms: now_unix_ms(),
        kernel_release: parts.kernel_release,
        interfaces: parts.interfaces,
        routes: dump.routes,
        table_names: dump.table_names,
        rules,
        neighbors,
        sockets,
        socket_summary,
        sysctls: if request.include_sysctls {
            parts.sysctls
        } else {
            None
        },
        counters: if request.include_counters {
            parts.counters
        } else {
            None
        },
        firewall: if request.include_firewall {
            parts.firewall
        } else {
            None
        },
        qdiscs,
        namespaces: parts.namespaces,
        resolver: Some(parts.resolver),
        clat: Some(clat),
        android_state: request.android_state,
        collection_duration_ms: clock.elapsed_ms(),
        collection_warnings: warnings,
    }
}

/// A snapshot warns of nothing exactly where everything it was asked for could
/// be had whole.
pub proof fn law_no_warning_means_complete(request: GetSnapshotRequest, parts: SnapshotParts)
    ensures
        snapshot_warnings(request, parts).len() == 0 <==> {
            &&& parts.rules is Ok
            &&& request.include_neighbors ==> parts.neighbors is Ok
            &&& request.include_sockets ==> parts.sockets is Ok && (parts.sockets->Ok_0)@.len()
                <= DEFAULT_SOCKET_LIMIT
            &&& request.include_qdiscs ==> parts.qdiscs is Ok
        },
{
}

} // verus!
