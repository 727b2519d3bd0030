//! Path MTU discovery.
//!
//! Don't-fragment echoes at decreasing sizes find the real limit when the
//! kernel has not learned one, and they are the only way to see a black hole:
//! a path where large packets vanish and no ICMP error comes back.
use vstd::prelude::*;

use crate::ip::IpAddr;
use crate::probe::{said_pairs, ProbeContext, ProbeResult};
use crate::text::{dec, dec_string, join, join_texts, texts};

verus! {

/// The smallest MTU IPv6 permits; nothing below this is worth probing.
pub const IPV6_MIN_MTU: usize = 1280;

/// Classic Ethernet MTU, the value almost every path is trying to be.
pub const ETHERNET_MTU: usize = 1500;

/// IP and ICMP header bytes in front of the payload of an echo.
pub open spec fn overhead(v6: bool) -> int {
    if v6 {
        48
    } else {
        28
    }
}

/// Payload size that makes a DF echo request exactly `mtu` bytes on the wire.
pub fn payload_for_mtu(mtu: usize, v6: bool) -> (r: usize)
    ensures
        r == if mtu >= overhead(v6) {
            mtu - overhead(v6)
        } else {
            0
        },
{
    let n: usize = if v6 {
        48
    } else {
        28
    };
    if mtu >= n {
        mtu - n
    } else {
        0
    }
}

/// The sizes that actually occur, largest first: Ethernet, PPPoE,
/// IPv4-in-IPv4, common VPN overheads, the IPv6 floor, and two small ones.
pub open spec fn usual_mtus() -> Seq<usize> {
    seq![1500usize, 1492, 1480, 1450, 1420, 1400, 1280, 1024, 576]
}

/// Whether a size is worth a probe. Above the local link MTU a probe fails
/// before a packet ever leaves the device, which says nothing about the path.
pub open spec fn worth_probing(m: usize, interface_mtu: usize, v6: bool) -> bool {
    m <= interface_mtu && m >= if v6 {
        IPV6_MIN_MTU
    } else {
        576
    }
}

/// Whether each number is larger than the next ones.
pub open spec fn descending(s: Seq<usize>) -> bool {
    forall|i: int, j: int| 0 <= i < j < s.len() ==> s[i] > s[j]
}

/// Candidate MTUs to probe: the interface's own and the usual ones, as far as
/// they are worth a probe, largest first and each once.
pub fn candidate_mtus(interface_mtu: usize, v6: bool) -> (r: Vec<usize>)
    ensures
        descending(r@),
        forall|m: usize| #[trigger]
            r@.contains(m) <==> worth_probing(m, interface_mtu, v6) && (m == interface_mtu
                || usual_mtus().contains(m)),
{
    let floor: usize = if v6 {
        IPV6_MIN_MTU
    } else {
        576
    };
    let usual: [usize; 9] = [1500, 1492, 1480, 1450, 1420, 1400, 1280, 1024, 576];
    let mut out: Vec<usize> = Vec::new();
    if interface_mtu >= floor {
        out.push(interface_mtu);
        assert(out@[0] == interface_mtu);
    }
    let ghost known = usual@;
    assert(known =~= usual_mtus());
    let mut i: usize = 0;
    while i < 9
        invariant
            i <= 9,
            known == usual@,
            known == usual_mtus(),
            floor == if v6 {
                IPV6_MIN_MTU
            } else {
                576
            },
            descending(out@),
            forall|k: int| 0 <= k < out.len() ==> out@[k] <= interface_mtu,
            forall|k: int|
                0 <= k < out.len() ==> #[trigger] out@[k] == interface_mtu || (exists|j: int|
                    0 <= j < i && known[j] == out@[k]),
            forall|k: int| 0 <= k < out.len() ==> #[trigger] out@[k] >= floor,
            interface_mtu >= floor ==> out@.contains(interface_mtu),
            forall|j: int|
                0 <= j < i && #[trigger] known[j] >= floor && known[j] <= interface_mtu
                    ==> out@.contains(known[j]),
        decreases 9 - i,
    {
        let m = usual[i];
        let ghost before = out@;
        assert(known[i as int] == m);
        if m >= floor && m < interface_mtu {
            assert forall|k: int| 0 <= k < before.len() implies before[k] > m by {
                if before[k] != interface_mtu {
                    let j = choose|j: int| 0 <= j < i && known[j] == before[k];
                    assert(usual_mtus()[j] > usual_mtus()[i as int]);
                }
            }
            out.push(m);
            assert(out@[before.len() as int] == m);
            assert forall|x: usize| before.contains(x) implies out@.contains(x) by {
                let k = choose|k: int| 0 <= k < before.len() && before[k] == x;
                assert(out@[k] == x);
            }
            assert forall|k: int| 0 <= k < out.len() implies #[trigger] out@[k] == interface_mtu || (
            exists|j: int| 0 <= j < i + 1 && known[j] == out@[k]) by {
                if k < before.len() && before[k] != interface_mtu {
                    let j = choose|j: int| 0 <= j < i && known[j] == before[k];
                    assert(known[j] == out@[k]);
                } else if k == before.len() {
                    assert(known[i as int] == out@[k]);
                }
            }
        } else {
            assert forall|k: int| 0 <= k < out.len() implies #[trigger] out@[k] == interface_mtu || (
            exists|j: int| 0 <= j < i + 1 && known[j] == out@[k]) by {
                if out@[k] != interface_mtu {
                    let j = choose|j: int| 0 <= j < i && known[j] == out@[k];
                    assert(known[j] == out@[k]);
                }
            }
        }
        i += 1;
    }
    assert forall|m: usize| #[trigger] out@.contains(m) <==> worth_probing(m, interface_mtu, v6) && (
    m == interface_mtu || usual_mtus().contains(m)) by {
        if out@.contains(m) {
            let k = choose|k: int| 0 <= k < out.len() && out@[k] == m;
            assert(out@[k] >= floor);
            if m != interface_mtu {
                let j = choose|j: int| 0 <= j < 9 && known[j] == out@[k];
                assert(usual_mtus()[j] == m);
            }
        }
        if worth_probing(m, interface_mtu, v6) && usual_mtus().contains(m) {
            let j = choose|j: int| 0 <= j < usual_mtus().len() && usual_mtus()[j] == m;
            assert(known[j] == m);
        }
    }
    out
}

/// The candidate to probe next, after the answers to the ones before it: the
/// first that got no answer yet, unless one was answered.
pub open spec fn next_candidate(candidates: Seq<usize>, answered: Seq<bool>) -> Option<usize> {
    if answered.contains(true) || answered.len() >= candidates.len() {
        None
    } else {
        Some(candidates[answered.len() as int])
    }
}

fn first_answered(answered: &Vec<bool>) -> (r: usize)
    ensures
        r <= answered.len(),
        r < answered.len() ==> answered@[r as int],
        forall|k: int| 0 <= k < r ==> !answered@[k],
{
    let mut i: usize = 0;
    while i < answered.len() && !answered[i]
        invariant
            i <= answered.len(),
            forall|k: int| 0 <= k < i ==> !answered@[k],
        decreases answered.len() - i,
    {
        i += 1;
    }
    i
}

pub fn next_probe(candidates: &Vec<usize>, answered: &Vec<bool>) -> (r: Option<usize>)
    ensures
        r == next_candidate(candidates@, answered@),
{
    let first = first_answered(answered);
    if first < answered.len() {
        assert(answered@.contains(true));
        return None;
    }
    assert(!answered@.contains(true));
    if answered.len() < candidates.len() {
        Some(candidates[answered.len()])
    } else {
        None
    }
}

/// The largest candidate that was answered, and the smallest one before it
/// that was not.
pub open spec fn measured(candidates: Seq<usize>, answered: Seq<bool>) -> (Option<usize>, Option<usize>)
    decreases answered.len(),
{
    if answered.len() == 0 {
        (None, None)
    } else {
        let (ok, failed) = measured(candidates, answered.drop_last());
        if ok is Some {
            (ok, failed)
        } else if answered.last() {
            (Some(candidates[answered.len() - 1]), failed)
        } else {
            (None, Some(candidates[answered.len() - 1]))
        }
    }
}

pub open spec fn size_texts(list: Seq<usize>) -> Seq<Seq<char>> {
    Seq::new(list.len(), |i: int| dec(list[i] as nat))
}

fn write_sizes(list: &Vec<usize>) -> (r: Vec<String>)
    ensures
        texts(r@) == size_texts(list@),
{
    let mut r: Vec<String> = Vec::new();
    let mut i: usize = 0;
    while i < list.len()
        invariant
            i <= list.len(),
            r.len() == i,
            forall|k: int| 0 <= k < i ==> #[trigger] r@[k]@ == dec(list@[k] as nat),
        decreases list.len() - i,
    {
        r.push(dec_string(list[i] as u64));
        i += 1;
    }
    assert(texts(r@) =~= size_texts(list@));
    r
}

/// The MTU that bounds the search.
pub open spec fn search_bound(interface_mtu: u32) -> usize {
    if interface_mtu == 0 {
        ETHERNET_MTU
    } else {
        interface_mtu as usize
    }
}

/// The MTU that bounds the search: the interface's, or Ethernet's where it is
/// not known.
pub fn bounding_mtu(interface_mtu: u32) -> (r: usize)
    ensures
        r == search_bound(interface_mtu),
{
    if interface_mtu == 0 {
        ETHERNET_MTU
    } else {
        interface_mtu as usize
    }
}

pub open spec fn discover_detail(target: Seq<char>, m: (Option<usize>, Option<usize>)) -> Seq<char> {
    match m {
        // Everything got through at full size: the path is clean.
        (Some(mtu), None) => dec(mtu as nat) + " byte packets reach "@ + target + " without fragmentation"@,
        // Something in between works: there is a smaller MTU on the path.
        (Some(ok), Some(failed)) => dec(failed as nat) +
            " byte packets do not reach "@ +
            target +
            " but "@ +
            dec(ok as nat) +
            " byte packets do; the path MTU is between "@ +
            dec(ok as nat) +
            " and "@ +
            dec(failed as nat),
        // Nothing got through. Either ICMP is filtered outright or the path is
        // badly broken; no MTU is claimed.
        (None, _) => "no echo reply from "@ +
            target +
            " at any size; ICMP is probably filtered, so path MTU could not be measured"@,
    }
}

pub open spec fn discover_evidence(
    target: Seq<char>,
    bound: usize,
    routing: Seq<char>,
    candidates: Seq<usize>,
    kernel_mtu: Option<u32>,
    largest_ok: Option<usize>,
) -> Seq<(Seq<char>, Seq<char>)> {
    (match largest_ok {
        Some(mtu) => seq![("measured_path_mtu"@, dec(mtu as nat))],
        None => Seq::empty(),
    }) + seq![
        ("target"@, target),
        ("interface_mtu"@, dec(bound as nat)),
        ("routing"@, routing),
        ("probed_sizes"@, join(size_texts(candidates), ", "@)),
    ] + (match kernel_mtu {
        Some(mtu) => seq![("kernel_path_mtu"@, dec(mtu as nat))],
        None => Seq::empty(),
    })
}

fn read_measured(candidates: &Vec<usize>, answered: &Vec<bool>) -> (r: (Option<usize>, Option<usize>))
    requires
        answered.len() <= candidates.len(),
    ensures
        r == measured(candidates@, answered@),
{
    let mut ok: Option<usize> = None;
    let mut failed: Option<usize> = None;
    let mut i: usize = 0;
    assert(answered@.take(0) =~= Seq::empty());
    while i < answered.len()
        invariant
            i <= answered.len() <= candidates.len(),
            (ok, failed) == measured(candidates@, answered@.take(i as int)),
        decreases answered.len() - i,
    {
        assert(answered@.take(i + 1).drop_last() =~= answered@.take(i as int));
        if ok.is_none() {
            if answered[i] {
                ok = Some(candidates[i]);
            } else {
                failed = Some(candidates[i]);
            }
        }
        i += 1;
    }
    assert(answered@.take(answered@.len() as int) =~= answered@);
    (ok, failed)
}

/// Package the answers to a series of don't-fragment echoes, one for each
/// candidate in turn, as a probe result.
pub fn discover(
    target: IpAddr,
    interface_mtu: u32,
    ctx: &ProbeContext,
    kernel_mtu: Option<u32>,
    candidates: &Vec<usize>,
    answered: &Vec<bool>,
    duration_ms: u64,
) -> (r: ProbeResult)
    requires
        answered.len() <= candidates.len(),
    ensures
        ({
            let m = measured(candidates@, answered@);
            &&& r.ok == (m.0 is Some && m.1 is None)
            &&& r.duration_ms == duration_ms
            &&& r.detail@ == discover_detail(target.text(), m)
            &&& r.error == if r.ok {
                None
            } else {
                Some(r.detail)
            }
            &&& said_pairs(r.evidence@) == discover_evidence(
                target.text(),
                search_bound(interface_mtu),
                ctx.text(),
                candidates@,
                kernel_mtu,
                m.0,
            )
        }),
{
    let to = target.to_text();
    let (largest_ok, smallest_failed) = read_measured(candidates, answered);
    let result = match (largest_ok, smallest_failed) {
        (Some(mtu), None) => {
            let m = dec_string(mtu as u64);
            ProbeResult::success(duration_ms, String::from_str(m.as_str())
                .concat(" byte packets reach ")
                .concat(to.as_str())
                .concat(" without fragmentation"))
        },
        (Some(ok), Some(failed)) => {
            let a = dec_string(ok as u64);
            let b = dec_string(failed as u64);
            ProbeResult::failure(duration_ms, String::from_str(b.as_str())
                .concat(" byte packets do not reach ")
                .concat(to.as_str())
                .concat(" but ")
                .concat(a.as_str())
                .concat(" byte packets do; the path MTU is between ")
                .concat(a.as_str())
                .concat(" and ")
                .concat(b.as_str()))
        },
        (None, _) => ProbeResult::failure(duration_ms, String::from_str("no echo reply from ")
            .concat(to.as_str())
            .concat(" at any size; ICMP is probably filtered, so path MTU could not be measured")),
    };
    let result = match largest_ok {
        Some(mtu) => result.note("measured_path_mtu", dec_string(mtu as u64).as_str()),
        None => result,
    };
    let result = result.note("target", to.as_str()).note(
        "interface_mtu",
        dec_string(bounding_mtu(interface_mtu) as u64).as_str(),
    ).note("routing", ctx.describe().as_str()).note(
        "probed_sizes",
        join_texts(&write_sizes(candidates), ", ").as_str(),
    );
    let result = match kernel_mtu {
        Some(mtu) => result.note("kernel_path_mtu", dec_string(mtu as u64).as_str()),
        None => result,
    };
    assert(said_pairs(result.evidence@) =~= discover_evidence(
        target.text(),
        search_bound(interface_mtu),
        ctx.text(),
        candidates@,
        kernel_mtu,
        largest_ok,
    ));
    result
}

} // verus!
