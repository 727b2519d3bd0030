//! The daemon's command line, and its self-test in words.
use vstd::prelude::*;

use crate::ipc::auth::AuthPolicy;
use crate::ipc::listener::{named_by, SocketAddress};
use crate::proto::{
    Check, CheckStatus, DiagnoseResponse, Finding, GetSnapshotRequest, Interface, LinkAddress,
    Route, Snapshot,
};
use crate::text::{
    dec, dec_string, join, join_texts, lines, lines_of, pad_right, padded, parse_u32, same, texts,
    unsigned,
};

verus! {

/// Where the daemon listens by default.
pub const DEFAULT_SOCKET: &'static str = "@netdiag";

// ---- Arguments ------------------------------------------------------------------

/// What the daemon was told.
pub struct Args {
    pub socket: SocketAddress,
    pub policy: AuthPolicy,
    /// Chown a filesystem socket to this uid. Ignored for abstract sockets.
    pub socket_owner: Option<u32>,
    pub log_filter: String,
    pub self_test: bool,
}

/// What a command line asks for.
pub enum Invocation {
    Help,
    Version,
    Run(Args),
}

/// The options of a command line.
pub struct Options {
    pub socket: Seq<char>,
    pub allowed_uids: Seq<u32>,
    pub expect_package: Option<Seq<char>>,
    pub socket_owner: Option<u32>,
    pub log_filter: Seq<char>,
    pub self_test: bool,
}

/// What a command line says.
pub enum InvocationSaid {
    Help,
    Version,
    Run(Options),
    /// It is refused in these words.
    Refused(Seq<char>),
}

pub open spec fn default_options() -> Options {
    Options {
        socket: "@netdiag"@,
        allowed_uids: Seq::empty(),
        expect_package: None,
        socket_owner: None,
        log_filter: "info"@,
        self_test: false,
    }
}

/// What the rest of a command line says, after some options.
pub open spec fn read_options(args: Seq<Seq<char>>, o: Options) -> InvocationSaid
    decreases args.len(),
{
    if args.len() == 0 {
        InvocationSaid::Run(o)
    } else {
        let arg = args[0];
        let takes_value = arg == "--socket"@ || arg == "--allow-uid"@ || arg == "--expect-package"@
            || arg == "--log"@;
        if arg == "-h"@ || arg == "--help"@ {
            InvocationSaid::Help
        } else if arg == "--version"@ {
            InvocationSaid::Version
        } else if takes_value && args.len() < 2 {
            InvocationSaid::Refused(arg + " needs a value"@)
        } else if arg == "--socket"@ {
            read_options(args.skip(2), Options { socket: args[1], ..o })
        } else if arg == "--allow-uid"@ {
            match unsigned(args[1], u32::MAX as nat) {
                None => InvocationSaid::Refused("--allow-uid: '"@ + args[1] + "' is not a uid"@),
                Some(uid) => read_options(
                    args.skip(2),
                    Options {
                        allowed_uids: o.allowed_uids.push(uid as u32),
                        // The first allowed uid also owns a filesystem socket,
                        // which is almost always what is wanted.
                        socket_owner: match o.socket_owner {
                            Some(first) => Some(first),
                            None => Some(uid as u32),
                        },
                        ..o
                    },
                ),
            }
        } else if arg == "--expect-package"@ {
            read_options(args.skip(2), Options { expect_package: Some(args[1]), ..o })
        } else if arg == "--log"@ {
            read_options(args.skip(2), Options { log_filter: args[1], ..o })
        } else if arg == "--self-test"@ {
            read_options(args.skip(1), Options { self_test: true, ..o })
        } else {
            InvocationSaid::Refused("unknown argument '"@ + arg + "'; try --help"@)
        }
    }
}

pub open spec fn optional_text(s: Option<String>) -> Option<Seq<char>> {
    match s {
        Some(s) => Some(s@),
        None => None,
    }
}

/// Whether the arguments hold the options.
pub open spec fn hold(a: Args, o: Options) -> bool {
    &&& named_by(a.socket, o.socket)
    &&& a.policy.allowed_uids@ == o.allowed_uids
    &&& optional_text(a.policy.expect_package) == o.expect_package
    &&& a.socket_owner == o.socket_owner
    &&& a.log_filter@ == o.log_filter
    &&& a.self_test == o.self_test
}

fn needs_value(arg: &str) -> (r: String)
    ensures
        r@ == arg@ + " needs a value"@,
{
    String::from_str(arg).concat(" needs a value")
}

proof fn lemma_rest(args: Seq<String>, i: int, n: int)
    requires
        0 <= i <= i + n <= args.len(),
    ensures
        texts(args).skip(i).skip(n) == texts(args).skip(i + n),
{
    assert(texts(args).skip(i).skip(n) =~= texts(args).skip(i + n));
}

/// Reads the arguments behind the program's name.
pub fn parse_args(args: &Vec<String>) -> (r: Result<Invocation, String>)
    ensures
        match read_options(texts(args@), default_options()) {
            InvocationSaid::Help => r matches Ok(Invocation::Help),
            InvocationSaid::Version => r matches Ok(Invocation::Version),
            InvocationSaid::Run(o) => r matches Ok(Invocation::Run(a)) && hold(a, o),
            InvocationSaid::Refused(words) => r matches Err(e) && e@ == words,
        },
{
    let mut socket = SocketAddress::parse(DEFAULT_SOCKET);
    let mut allowed_uids: Vec<u32> = Vec::new();
    let mut expect_package: Option<String> = None;
    let mut socket_owner: Option<u32> = None;
    let mut log_filter = String::from_str("info");
    let mut self_test = false;
    let ghost mut o = default_options();
    let ghost all = texts(args@);
    let mut i: usize = 0;
    assert(all.skip(0) =~= all);
    assert(allowed_uids@ =~= o.allowed_uids);
    while i < args.len()
        invariant
            i <= args.len(),
            all == texts(args@),
            read_options(all, default_options()) == read_options(all.skip(i as int), o),
            named_by(socket, o.socket),
            allowed_uids@ == o.allowed_uids,
            optional_text(expect_package) == o.expect_package,
            socket_owner == o.socket_owner,
            log_filter@ == o.log_filter,
            self_test == o.self_test,
        decreases args.len() - i,
    {
        let arg = args[i].as_str();
        let ghost rest = all.skip(i as int);
        assert(rest[0] == arg@);
        if same(arg, "-h") || same(arg, "--help") {
            return Ok(Invocation::Help);
        }
        if same(arg, "--version") {
            return Ok(Invocation::Version);
        }
        if same(arg, "--self-test") {
            proof {
                reveal_strlit("--socket");
                reveal_strlit("--allow-uid");
                reveal_strlit("--expect-package");
                reveal_strlit("--log");
                reveal_strlit("--self-test");
                assert("--allow-uid"@[2] != "--self-test"@[2]);
                lemma_rest(args@, i as int, 1);
                o = Options { self_test: true, ..o };
            }
            self_test = true;
            i += 1;
            continue ;
        }
        let takes_value = same(arg, "--socket") || same(arg, "--allow-uid") || same(
            arg,
            "--expect-package",
        ) || same(arg, "--log");
        if !takes_value {
            return Err(String::from_str("unknown argument '").concat(arg).concat("'; try --help"));
        }
        if i + 1 >= args.len() {
            return Err(needs_value(arg));
        }
        let value = &args[i + 1];
        assert(rest[1] == value@);
        proof {
            lemma_rest(args@, i as int, 2);
        }
        if same(arg, "--socket") {
            socket = SocketAddress::parse(value.as_str());
            proof {
                o = Options { socket: value@, ..o };
            }
        } else if same(arg, "--allow-uid") {
            match parse_u32(value.as_str()) {
                None => {
                    return Err(String::from_str("--allow-uid: '")
                        .concat(value.as_str())
                        .concat("' is not a uid"));
                },
                Some(uid) => {
                    allowed_uids.push(uid);
                    if socket_owner.is_none() {
                        socket_owner = Some(uid);
                    }
                    proof {
                        o = Options {
                            allowed_uids: o.allowed_uids.push(uid),
                            socket_owner: match o.socket_owner {
                                Some(first) => Some(first),
                                None => Some(uid),
                            },
                            ..o
                        };
                    }
                },
            }
        } else if same(arg, "--expect-package") {
            expect_package = Some(value.clone());
            proof {
                o = Options { expect_package: Some(value@), ..o };
            }
        } else {
            log_filter = value.clone();
            proof {
                o = Options { log_filter: value@, ..o };
            }
        }
        i += 2;
    }
    assert(all.skip(i as int) =~= Seq::empty());
    Ok(
        Invocation::Run(
            Args {
                socket,
                policy: AuthPolicy { allowed_uids, expect_package },
                socket_owner,
                log_filter,
                self_test,
            },
        ),
    )
}

// ---- The self-test --------------------------------------------------------------

/// A request for everything, which is what the self-test collects.
pub fn self_test_request() -> (r: GetSnapshotRequest)
    ensures
        r.include_sockets && r.include_socket_tcp_info && r.include_neighbors && r.include_firewall
            && r.include_qdiscs && r.include_counters && r.include_sysctls,
        r.android_state is None,
{
    GetSnapshotRequest {
        include_sockets: true,
        include_socket_tcp_info: true,
        include_neighbors: true,
        include_firewall: true,
        include_sysctls: true,
        include_counters: true,
        include_qdiscs: true,
        android_state: None,
    }
}

/// The prefixes of addresses as they are written.
pub open spec fn prefix_texts(list: Seq<LinkAddress>) -> Seq<Seq<char>>
    decreases list.len(),
{
    if list.len() == 0 {
        Seq::empty()
    } else {
        let before = prefix_texts(list.drop_last());
        match list.last().prefix {
            Some(p) => before.push(p.text()),
            None => before,
        }
    }
}

fn show_prefixes(list: &Vec<LinkAddress>) -> (r: Vec<String>)
    ensures
        texts(r@) == prefix_texts(list@),
{
    let mut r: Vec<String> = Vec::new();
    let mut i: usize = 0;
    assert(texts(r@) =~= prefix_texts(list@.take(0)));
    while i < list.len()
        invariant
            i <= list.len(),
            texts(r@) == prefix_texts(list@.take(i as int)),
        decreases list.len() - i,
    {
        let ghost before = texts(r@);
        assert(list@.take(i + 1).drop_last() =~= list@.take(i as int));
        if let Some(p) = &list[i].prefix {
            r.push(p.display());
            assert(texts(r@) =~= before.push(p.text()));
        }
        i += 1;
    }
    assert(list@.take(list.len() as int) =~= list@);
    r
}

/// An interface in a line.
pub open spec fn interface_line(i: Interface) -> Seq<char> {
    let state = if i.flags is Some && (i.flags->0).up {
        "UP"@
    } else {
        "DOWN"@
    };
    "    "@ +
        padded(i.name@, 16) +
        " idx "@ +
        padded(dec(i.index as nat), 3) +
        " mtu "@ +
        padded(dec(i.mtu as nat), 5) +
        " "@ +
        padded(state, 10) +
        " "@ +
        join(prefix_texts(i.addresses@), " "@)
}

fn show_interface(i: &Interface) -> (r: String)
    ensures
        r@ == interface_line(*i),
{
    let up = match &i.flags {
        Some(f) => f.up,
        None => false,
    };
    let state = if up {
        "UP"
    } else {
        "DOWN"
    };
    let name = pad_right(i.name.as_str(), 16);
    let index = dec_string(i.index as u64);
    let index = pad_right(index.as_str(), 3);
    let mtu = dec_string(i.mtu as u64);
    let mtu = pad_right(mtu.as_str(), 5);
    let state = pad_right(state, 10);
    let addresses = join_texts(&show_prefixes(&i.addresses), " ");
    String::from_str("    ")
        .concat(name.as_str())
        .concat(" idx ")
        .concat(index.as_str())
        .concat(" mtu ")
        .concat(mtu.as_str())
        .concat(" ")
        .concat(state.as_str())
        .concat(" ")
        .concat(addresses.as_str())
}

/// A default route in a line: its first hop counts.
pub open spec fn default_route_line(r: Route) -> Seq<char> {
    let hop = if r.next_hops@.len() > 0 {
        Some(r.next_hops@[0])
    } else {
        None
    };
    let gateway = match hop {
        Some(h) => match h.gateway {
            Some(g) => g.text(),
            None => "on-link"@,
        },
        None => "on-link"@,
    };
    let device = match hop {
        Some(h) => h.out_interface_name@,
        None => ""@,
    };
    "    default via "@ +
        padded(gateway, 24) +
        " dev "@ +
        padded(device, 14) +
        " table "@ +
        dec(r.table as nat)
}

fn show_default_route(r: &Route) -> (line: String)
    ensures
        line@ == default_route_line(*r),
{
    let mut gateway = String::from_str("on-link");
    let mut device = String::from_str("");
    if r.next_hops.len() > 0 {
        let hop = &r.next_hops[0];
        if let Some(g) = &hop.gateway {
            gateway = g.display();
        }
        device = hop.out_interface_name.clone();
    }
    let gateway = pad_right(gateway.as_str(), 24);
    let device = pad_right(device.as_str(), 14);
    let table = dec_string(r.table as u64);
    String::from_str("    default via ")
        .concat(gateway.as_str())
        .concat(" dev ")
        .concat(device.as_str())
        .concat(" table ")
        .concat(table.as_str())
}

/// The default routes, each in a line.
pub open spec fn default_route_lines(routes: Seq<Route>) -> Seq<Seq<char>>
    decreases routes.len(),
{
    if routes.len() == 0 {
        Seq::empty()
    } else {
        let before = default_route_lines(routes.drop_last());
        if routes.last().is_default {
            before.push(default_route_line(routes.last()))
        } else {
            before
        }
    }
}

/// The warnings, each in a line.
pub open spec fn warning_lines(warnings: Seq<String>) -> Seq<Seq<char>> {
    warnings.map_values(|w: String| "  warning:           "@ + w@)
}

pub open spec fn interface_lines(v: Seq<Interface>) -> Seq<Seq<char>> {
    v.map_values(|i: Interface| interface_line(i))
}

/// A snapshot in a summary for a person, line by line.
pub open spec fn snapshot_lines(s: Snapshot) -> Seq<Seq<char>> {
    seq![
        "netdiagd self-test"@,
        "  kernel:            "@ + s.kernel_release@,
        "  collection took:   "@ + dec(s.collection_duration_ms as nat) + " ms"@,
        "  interfaces:        "@ + dec(s.interfaces@.len()),
    ] + interface_lines(s.interfaces@) + seq!["  routes:            "@ + dec(s.routes@.len())]
        + default_route_lines(s.routes@) + seq![
        "  rules:             "@ + dec(s.rules@.len()),
        "  neighbours:        "@ + dec(s.neighbors@.len()),
        "  sockets:           "@ + dec(s.sockets@.len()),
    ] + (match s.socket_summary {
        Some(m) => seq![
            "    established "@ +
                dec(m.established as nat) +
                "  syn-sent "@ +
                dec(m.syn_sent as nat) +
                "  listen "@ +
                dec(m.listen as nat) +
                "  time-wait "@ +
                dec(m.time_wait as nat),
        ],
        None => Seq::empty(),
    }) + (match s.firewall {
        Some(f) => seq!["  firewall:          "@ + f.collection_note@],
        None => Seq::empty(),
    }) + (match s.clat {
        Some(c) => seq![
            if c.active {
                "  464xlat:           active on "@ + c.clat_interface@
            } else {
                "  464xlat:           not active"@
            },
        ],
        None => Seq::empty(),
    }) + warning_lines(s.collection_warnings@)
}

fn add(lines: &mut Vec<String>, line: String)
    ensures
        texts(final(lines)@) == texts(old(lines)@).push(line@),
{
    let ghost before = texts(lines@);
    lines.push(line);
    assert(texts(lines@) =~= before.push(line@));
}

fn add_count(lines: &mut Vec<String>, label: &str, n: usize)
    ensures
        texts(final(lines)@) == texts(old(lines)@).push(label@ + dec(n as nat)),
{
    let count = dec_string(n as u64);
    self::add(lines, String::from_str(label).concat(count.as_str()));
}

fn add_interfaces(lines: &mut Vec<String>, v: &Vec<Interface>)
    ensures
        texts(final(lines)@) == texts(old(lines)@) + interface_lines(v@),
{
    let ghost before = texts(lines@);
    let mut i: usize = 0;
    assert(before + interface_lines(v@.take(0)) =~= before);
    while i < v.len()
        invariant
            i <= v.len(),
            texts(lines@) == before + interface_lines(v@.take(i as int)),
        decreases v.len() - i,
    {
        self::add(lines, show_interface(&v[i]));
        i += 1;
        assert(texts(lines@) =~= before + interface_lines(v@.take(i as int)));
    }
    assert(v@.take(v.len() as int) =~= v@);
}

fn add_default_routes(lines: &mut Vec<String>, v: &Vec<Route>)
    ensures
        texts(final(lines)@) == texts(old(lines)@) + default_route_lines(v@),
{
    let ghost before = texts(lines@);
    let mut i: usize = 0;
    assert(before + default_route_lines(v@.take(0)) =~= before);
    while i < v.len()
        invariant
            i <= v.len(),
            texts(lines@) == before + default_route_lines(v@.take(i as int)),
        decreases v.len() - i,
    {
        assert(v@.take(i + 1).drop_last() =~= v@.take(i as int));
        if v[i].is_default {
            self::add(lines, show_default_route(&v[i]));
        }
        i += 1;
        assert(texts(lines@) =~= before + default_route_lines(v@.take(i as int)));
    }
    assert(v@.take(v.len() as int) =~= v@);
}

fn add_warnings(lines: &mut Vec<String>, v: &Vec<String>)
    ensures
        texts(final(lines)@) == texts(old(lines)@) + warning_lines(v@),
{
    let ghost before = texts(lines@);
    let mut i: usize = 0;
    assert(before + warning_lines(v@.take(0)) =~= before);
    while i < v.len()
        invariant
            i <= v.len(),
            texts(lines@) == before + warning_lines(v@.take(i as int)),
        decreases v.len() - i,
    {
        self::add(lines, String::from_str("  warning:           ").concat(v[i].as_str()));
        i += 1;
        assert(texts(lines@) =~= before + warning_lines(v@.take(i as int)));
    }
    assert(v@.take(v.len() as int) =~= v@);
}

/// A snapshot in a summary for a person, line by line.
pub fn snapshot_report(s: &Snapshot) -> (r: Vec<String>)
    ensures
        texts(r@) == snapshot_lines(*s),
{
    let mut r: Vec<String> = Vec::new();
    assert(texts(r@) =~= Seq::<Seq<char>>::empty());
    self::add(&mut r, String::from_str("netdiagd self-test"));
    self::add(&mut r, String::from_str("  kernel:            ").concat(s.kernel_release.as_str()));
    let took = dec_string(s.collection_duration_ms);
    self::add(&mut r, String::from_str("  collection took:   ").concat(took.as_str()).concat(" ms"));
    add_count(&mut r, "  interfaces:        ", s.interfaces.len());
    add_interfaces(&mut r, &s.interfaces);
    add_count(&mut r, "  routes:            ", s.routes.len());
    add_default_routes(&mut r, &s.routes);
    add_count(&mut r, "  rules:             ", s.rules.len());
    add_count(&mut r, "  neighbours:        ", s.neighbors.len());
    add_count(&mut r, "  sockets:           ", s.sockets.len());
    if let Some(m) = &s.socket_summary {
        let established = dec_string(m.established as u64);
        let syn_sent = dec_string(m.syn_sent as u64);
        let listen = dec_string(m.listen as u64);
        let time_wait = dec_string(m.time_wait as u64);
        self::add(
            &mut r,
            String::from_str("    established ")
                .concat(established.as_str())
                .concat("  syn-sent ")
                .concat(syn_sent.as_str())
                .concat("  listen ")
                .concat(listen.as_str())
                .concat("  time-wait ")
                .concat(time_wait.as_str()),
        );
    }
    if let Some(f) = &s.firewall {
        self::add(&mut r, String::from_str("  firewall:          ").concat(f.collection_note.as_str()));
    }
    if let Some(c) = &s.clat {
        self::add(
            &mut r,
            if c.active {
                String::from_str("  464xlat:           active on ")
                    .concat(c.clat_interface.as_str())
            } else {
                String::from_str("  464xlat:           not active")
            },
        );
    }
    add_warnings(&mut r, &s.collection_warnings);
    assert(texts(r@) =~= snapshot_lines(*s));
    r
}

/// The mark of a check's outcome.
pub open spec fn status_mark(status: CheckStatus) -> Seq<char> {
    match status {
        CheckStatus::Pass => "PASS"@,
        CheckStatus::Fail => "FAIL"@,
        CheckStatus::Warn => "WARN"@,
        CheckStatus::Skip => "SKIP"@,
        CheckStatus::Info => "INFO"@,
        CheckStatus::Unspecified => "...."@,
    }
}

fn mark_of(status: CheckStatus) -> (r: &'static str)
    ensures
        r@ == status_mark(status),
{
    match status {
        CheckStatus::Pass => "PASS",
        CheckStatus::Fail => "FAIL",
        CheckStatus::Warn => "WARN",
        CheckStatus::Skip => "SKIP",
        CheckStatus::Info => "INFO",
        CheckStatus::Unspecified => "....",
    }
}

pub open spec fn check_line(c: Check) -> Seq<char> {
    "  ["@ + status_mark(c.status) + "] "@ + padded(c.key@, 22) + " "@ + c.detail@
}

pub open spec fn check_lines(v: Seq<Check>) -> Seq<Seq<char>> {
    v.map_values(|c: Check| check_line(c))
}

/// Lines with four spaces before each.
pub open spec fn indented(ls: Seq<Seq<char>>) -> Seq<Seq<char>> {
    ls.map_values(|l: Seq<char>| "    "@ + l)
}

/// A finding: its title, its interpretation, and what to do about it.
pub open spec fn finding_lines(f: Finding) -> Seq<Seq<char>> {
    seq![
        "\n  "@ +
            f.title@ +
            " (confidence "@ +
            dec(f.confidence as nat) +
            "%)\n"@ +
            join(indented(lines(f.interpretation@)), "\n"@),
    ] + texts(f.suggested_actions@).map_values(|a: Seq<char>| "    -> "@ + a)
}

pub open spec fn all_finding_lines(v: Seq<Finding>) -> Seq<Seq<char>>
    decreases v.len(),
{
    if v.len() == 0 {
        Seq::empty()
    } else {
        all_finding_lines(v.drop_last()) + finding_lines(v.last())
    }
}

/// A report in a summary for a person, line by line.
pub open spec fn report_lines(r: DiagnoseResponse) -> Seq<Seq<char>> {
    seq![
        "  "@ +
            dec(r.passed as nat) +
            " passed, "@ +
            dec(r.failed as nat) +
            " failed, "@ +
            dec(r.warned as nat) +
            " warned, "@ +
            dec(r.skipped as nat) +
            " skipped in "@ +
            dec(r.total_duration_ms as nat) +
            " ms"@,
    ] + check_lines(r.checks@) + seq!["\n  "@ + r.summary@] + all_finding_lines(r.findings@)
}

fn add_checks(out: &mut Vec<String>, v: &Vec<Check>)
    ensures
        texts(final(out)@) == texts(old(out)@) + check_lines(v@),
{
    let ghost before = texts(out@);
    let mut i: usize = 0;
    assert(before + check_lines(v@.take(0)) =~= before);
    while i < v.len()
        invariant
            i <= v.len(),
            texts(out@) == before + check_lines(v@.take(i as int)),
        decreases v.len() - i,
    {
        let c = &v[i];
        let key = pad_right(c.key.as_str(), 22);
        self::add(out, String::from_str("  [")
            .concat(mark_of(c.status))
            .concat("] ")
            .concat(key.as_str())
            .concat(" ")
            .concat(c.detail.as_str()));
        i += 1;
        assert(texts(out@) =~= before + check_lines(v@.take(i as int)));
    }
    assert(v@.take(v.len() as int) =~= v@);
}

fn indent(text: &str) -> (r: Vec<String>)
    ensures
        texts(r@) == indented(lines(text@)),
{
    let ls = lines_of(text);
    let mut r: Vec<String> = Vec::new();
    let mut i: usize = 0;
    while i < ls.len()
        invariant
            i <= ls.len(),
            r.len() == i,
            forall|k: int| 0 <= k < i ==> (#[trigger] r@[k])@ == "    "@ + ls@[k]@,
        decreases ls.len() - i,
    {
        r.push(String::from_str("    ").concat(ls[i].as_str()));
        i += 1;
    }
    assert(texts(ls@) == lines(text@));
    assert(texts(r@) =~= indented(texts(ls@)));
    r
}

fn add_finding(out: &mut Vec<String>, f: &Finding)
    ensures
        texts(final(out)@) == texts(old(out)@) + finding_lines(*f),
{
    let ghost before = texts(out@);
    let confidence = dec_string(f.confidence as u64);
    let body = join_texts(&indent(f.interpretation.as_str()), "\n");
    let head = String::from_str("\n  ")
        .concat(f.title.as_str())
        .concat(" (confidence ")
        .concat(confidence.as_str())
        .concat("%)\n")
        .concat(body.as_str());
    let ghost first = head@;
    self::add(out, head);
    let ghost actions = texts(f.suggested_actions@).map_values(
        |a: Seq<char>| "    -> "@ + a,
    );
    let mut i: usize = 0;
    assert(texts(out@) =~= before.push(first) + actions.take(0));
    while i < f.suggested_actions.len()
        invariant
            i <= f.suggested_actions.len(),
            actions == texts(f.suggested_actions@).map_values(|a: Seq<char>| "    -> "@ + a),
            texts(out@) == before.push(first) + actions.take(i as int),
        decreases f.suggested_actions.len() - i,
    {
        self::add(out, String::from_str("    -> ").concat(f.suggested_actions[i].as_str()));
        i += 1;
        assert(texts(out@) =~= before.push(first) + actions.take(i as int));
    }
    assert(texts(out@) =~= before + finding_lines(*f));
}

/// A report in a summary for a person, line by line.
pub fn diagnosis_report(report: &DiagnoseResponse) -> (r: Vec<String>)
    ensures
        texts(r@) == report_lines(*report),
{
    let mut r: Vec<String> = Vec::new();
    assert(texts(r@) =~= Seq::<Seq<char>>::empty());
    let passed = dec_string(report.passed as u64);
    let failed = dec_string(report.failed as u64);
    let warned = dec_string(report.warned as u64);
    let skipped = dec_string(report.skipped as u64);
    let took = dec_string(report.total_duration_ms);
    self::add(
        &mut r,
        String::from_str("  ")
            .concat(passed.as_str())
            .concat(" passed, ")
            .concat(failed.as_str())
            .concat(" failed, ")
            .concat(warned.as_str())
            .concat(" warned, ")
            .concat(skipped.as_str())
            .concat(" skipped in ")
            .concat(took.as_str())
            .concat(" ms"),
    );
    add_checks(&mut r, &report.checks);
    self::add(&mut r, String::from_str("\n  ").concat(report.summary.as_str()));
    let ghost before = texts(r@);
    let mut i: usize = 0;
    assert(texts(r@) =~= before + all_finding_lines(report.findings@.take(0)));
    while i < report.findings.len()
        invariant
            i <= report.findings.len(),
            texts(r@) == before + all_finding_lines(report.findings@.take(i as int)),
        decreases report.findings.len() - i,
    {
        assert(report.findings@.take(i + 1).drop_last() =~= report.findings@.take(i as int));
        add_finding(&mut r, &report.findings[i]);
        i += 1;
        assert(texts(r@) =~= before + all_finding_lines(report.findings@.take(i as int)));
    }
    assert(report.findings@.take(report.findings.len() as int) =~= report.findings@);
    assert(texts(r@) =~= report_lines(*report));
    r
}

} // verus!
