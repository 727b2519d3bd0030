//! Firewall state.
//!
//! Android used to implement per-app network restrictions as iptables chains.
//! Since Android 13 that logic lives in eBPF programs driven by maps that netd
//! owns, so an `iptables-save` dump can look completely empty on a device that
//! is actively blocking an app's traffic. What is reported here always says
//! which source produced data, so that a reader can be told "not determinable"
//! instead of "fine".
use vstd::prelude::*;

use crate::proto::{FirewallBackend, FirewallChain, FirewallState, UidFirewallState};
use crate::seqs::or;
use crate::text::{
    distinct_texts, hex, hex_string, lines, lines_of, occurs_in, parse_u64, same, sort_dedup_texts,
    split_once, split_text_once, starts_with, strip_prefix, strip_text_prefix, text_contains,
    text_starts_with, texts, trim, trim_end_of, trim_marks, trim_start_of, trim_text, unsigned,
    words, words_of,
};

verus! {

// ---- Per-uid rules --------------------------------------------------------------

/// How many bits of a rule have a name.
pub const MATCH_BITS: u32 = 13;

/// The bits of a rule without a name.
pub const UNKNOWN_BITS: u32 = 0xffff_e000;

/// Bits that unambiguously mean "this uid is denied", regardless of whether
/// the corresponding chain is currently enabled.
pub const DENY_BITS: u32 = 0xf02;

/// The name of a bit of `UidOwnerValue.rule` in netd.
pub open spec fn match_text(bit: u32) -> Seq<char> {
    match bit {
        0 => "HAPPY_BOX (metered allowlist)"@,
        1 => "PENALTY_BOX (metered denylist)"@,
        2 => "DOZABLE (allowlisted while dozing)"@,
        3 => "STANDBY (denied while in app standby)"@,
        4 => "POWERSAVE (allowlisted in battery saver)"@,
        5 => "RESTRICTED (allowlisted in restricted mode)"@,
        6 => "LOW_POWER_STANDBY (allowlisted)"@,
        7 => "IIF (restricted to an input interface)"@,
        8 => "LOCKDOWN_VPN (blocked outside the VPN)"@,
        9 => "OEM_DENY_1"@,
        10 => "OEM_DENY_2"@,
        11 => "OEM_DENY_3"@,
        _ => "BACKGROUND (denied in background)"@,
    }
}

fn match_name(bit: u32) -> (r: &'static str)
    requires
        bit < MATCH_BITS,
    ensures
        r@ == match_text(bit),
{
    match bit {
        0 => "HAPPY_BOX (metered allowlist)",
        1 => "PENALTY_BOX (metered denylist)",
        2 => "DOZABLE (allowlisted while dozing)",
        3 => "STANDBY (denied while in app standby)",
        4 => "POWERSAVE (allowlisted in battery saver)",
        5 => "RESTRICTED (allowlisted in restricted mode)",
        6 => "LOW_POWER_STANDBY (allowlisted)",
        7 => "IIF (restricted to an input interface)",
        8 => "LOCKDOWN_VPN (blocked outside the VPN)",
        9 => "OEM_DENY_1",
        10 => "OEM_DENY_2",
        11 => "OEM_DENY_3",
        _ => "BACKGROUND (denied in background)",
    }
}

/// The names of those of the lowest `n` bits that are set.
pub open spec fn match_texts(rule: u32, n: nat) -> Seq<Seq<char>>
    decreases n,
{
    if n == 0 {
        Seq::empty()
    } else {
        let front = match_texts(rule, (n - 1) as nat);
        if rule & (1u32 << ((n - 1) as u32)) != 0 {
            front.push(match_text((n - 1) as u32))
        } else {
            front
        }
    }
}

/// What a rule says: a name for each bit that is set, and what is left of it
/// as a number.
pub open spec fn rule_texts(rule: u32) -> Seq<Seq<char>> {
    let names = match_texts(rule, MATCH_BITS as nat);
    if rule & UNKNOWN_BITS != 0 {
        names.push("unknown bits 0x"@ + hex((rule & UNKNOWN_BITS) as nat))
    } else {
        names
    }
}

/// What a rule says. The bits are stable enough to be useful and not stable
/// enough to be trusted blindly, so that unknown ones are reported too.
pub fn decode_match_bits(rule: u32) -> (r: Vec<String>)
    ensures
        texts(r@) == rule_texts(rule),
{
    let mut names: Vec<String> = Vec::new();
    let mut i: u32 = 0;
    assert(texts(names@) =~= Seq::empty());
    while i < MATCH_BITS
        invariant
            i <= MATCH_BITS,
            texts(names@) == match_texts(rule, i as nat),
        decreases MATCH_BITS - i,
    {
        let ghost before = texts(names@);
        if rule & (1u32 << i) != 0 {
            names.push(String::from_str(match_name(i)));
            assert(texts(names@) =~= before.push(match_text(i)));
        }
        i += 1;
    }
    let ghost before = texts(names@);
    let unknown = rule & UNKNOWN_BITS;
    if unknown != 0 {
        let h = hex_string(unknown as u64);
        names.push(String::from_str("unknown bits 0x").concat(h.as_str()));
        assert(texts(names@) =~= before.push("unknown bits 0x"@ + hex(unknown as nat)));
    }
    names
}

/// What came of a look into netd's uid_owner_map.
#[derive(Clone, Copy, Debug, PartialEq, Eq, Structural)]
pub enum MapReading {
    /// There is no map, or it could not be opened.
    Unavailable,
    /// The map has no entry for the uid.
    NoEntry,
    /// The rule of the uid's entry.
    Rule(u32),
    /// The look into the map failed.
    Failed,
}

/// What the map says of a uid. A missing entry is a real answer: no special
/// rules apply.
pub open spec fn firewall_told(uid: u32, reading: MapReading) -> UidFirewallState {
    let rule = match reading {
        MapReading::Rule(r) => r,
        _ => 0,
    };
    let present = reading is Rule;
    UidFirewallState {
        uid,
        source_available: reading is Rule || reading is NoEntry,
        raw_match: rule,
        blocked_metered_deny_user: rule & 0x2 != 0,
        blocked_standby: rule & 0x8 != 0,
        blocked_dozable: present && rule & 0x4 == 0,
        blocked_powersave: present && rule & 0x10 == 0,
        blocked_restricted: present && rule & 0x20 == 0,
        blocked_low_power_standby: present && rule & 0x40 == 0,
        blocked_metered_allow: rule & 0x1 != 0,
        blocked_metered_deny_admin: rule & 0xf00 != 0,
    }
}

/// What the map says of a uid.
pub fn read_uid_firewall(uid: u32, reading: MapReading) -> (r: UidFirewallState)
    ensures
        r == firewall_told(uid, reading),
{
    assert(0u32 & 0x2 == 0 && 0u32 & 0x8 == 0 && 0u32 & 0x1 == 0 && 0u32 & 0xf00 == 0)
        by (bit_vector);
    let mut state = UidFirewallState {
        uid,
        source_available: false,
        raw_match: 0,
        blocked_metered_deny_user: false,
        blocked_standby: false,
        blocked_dozable: false,
        blocked_powersave: false,
        blocked_restricted: false,
        blocked_low_power_standby: false,
        blocked_metered_allow: false,
        blocked_metered_deny_admin: false,
    };
    match reading {
        MapReading::Unavailable | MapReading::Failed => {},
        MapReading::NoEntry => {
            state.source_available = true;
        },
        MapReading::Rule(rule) => {
            state.source_available = true;
            state.raw_match = rule;
            state.blocked_metered_deny_user = rule & 0x2 != 0;
            state.blocked_standby = rule & 0x8 != 0;
            state.blocked_dozable = rule & 0x4 == 0;
            state.blocked_powersave = rule & 0x10 == 0;
            state.blocked_restricted = rule & 0x20 == 0;
            state.blocked_low_power_standby = rule & 0x40 == 0;
            state.blocked_metered_allow = rule & 0x1 != 0;
            state.blocked_metered_deny_admin = rule & 0xf00 != 0;
        },
    }
    state
}

/// Whether a uid is denied whatever chains are enabled.
pub open spec fn denied(state: UidFirewallState) -> bool {
    state.source_available && state.raw_match & DENY_BITS != 0
}

/// Is this uid denied by a rule whose meaning does not depend on which chains
/// are currently enabled?
pub fn is_unambiguously_denied(state: &UidFirewallState) -> (r: bool)
    ensures
        r == denied(*state),
{
    state.source_available && state.raw_match & DENY_BITS != 0
}

/// A map that could not be read never gives a verdict, whatever the reading
/// holds.
pub proof fn law_unreadable_map_gives_no_verdict(uid: u32, reading: MapReading)
    requires
        !(reading is Rule),
    ensures
        !denied(firewall_told(uid, reading)),
{
    assert(0u32 & DENY_BITS == 0) by (bit_vector);
}

// ---- Netfilter --------------------------------------------------------------

/// The two numbers of a counter such as `[12:3456]`.
pub open spec fn counter(token: Seq<char>) -> Option<(nat, nat)> {
    match split_once(trim_end_of(trim_start_of(token, '['), ']'), ':') {
        Some((p, b)) => match (unsigned(p, u64::MAX as nat), unsigned(b, u64::MAX as nat)) {
            (Some(p), Some(b)) => Some((p, b)),
            _ => None,
        },
        None => None,
    }
}

/// "[12:3456]" -> (12, 3456)
pub fn parse_counter(token: &str) -> (r: Option<(u64, u64)>)
    ensures
        match r {
            Some((p, b)) => counter(token@) == Some((p as nat, b as nat)),
            None => counter(token@) is None,
        },
{
    let inner = trim_marks(token, '[', ']');
    match split_text_once(inner.as_str(), ':') {
        Some((p, b)) => match (parse_u64(p.as_str()), parse_u64(b.as_str())) {
            (Some(p), Some(b)) => Some((p, b)),
            _ => None,
        },
        None => None,
    }
}

/// What a chain says.
pub struct ChainSaid {
    pub table: Seq<char>,
    pub name: Seq<char>,
    pub policy: Seq<char>,
    pub packets: nat,
    pub bytes: nat,
    pub rules: Seq<Seq<char>>,
}

pub open spec fn chain_said(c: FirewallChain) -> ChainSaid {
    ChainSaid {
        table: c.table@,
        name: c.name@,
        policy: c.policy@,
        packets: c.packets as nat,
        bytes: c.bytes as nat,
        rules: texts(c.rules@),
    }
}

pub open spec fn chains_said(v: Seq<FirewallChain>) -> Seq<ChainSaid> {
    Seq::new(v.len(), |i: int| chain_said(v[i]))
}

/// The chain that a line such as `:INPUT ACCEPT [0:0]` declares.
pub open spec fn declared_chain(table: Seq<char>, rest: Seq<char>) -> Option<ChainSaid> {
    let w = words(rest);
    if w.len() < 2 {
        None
    } else {
        let (packets, bytes) = if w.len() > 2 {
            or(counter(w[2]), (0nat, 0nat))
        } else {
            (0nat, 0nat)
        };
        Some(
            ChainSaid { table, name: w[0], policy: w[1], packets, bytes, rules: Seq::empty() },
        )
    }
}

/// A rule without the counter in front of it.
pub open spec fn rule_body(line: Seq<char>) -> Seq<char> {
    match strip_prefix(line, "["@) {
        Some(rest) => match split_once(rest, ']') {
            Some((_, body)) => trim(body),
            None => line,
        },
        None => line,
    }
}

/// The chain that a rule such as `-A INPUT -i lo -j ACCEPT` belongs to.
pub open spec fn rule_chain(body: Seq<char>) -> Option<Seq<char>> {
    match strip_prefix(body, "-A "@) {
        Some(rest) if words(rest).len() > 0 => Some(words(rest)[0]),
        _ => None,
    }
}

/// The chains with a rule added to the last one of a table with a name.
pub open spec fn with_rule(
    chains: Seq<ChainSaid>,
    table: Seq<char>,
    name: Seq<char>,
    rule: Seq<char>,
) -> Seq<ChainSaid>
    decreases chains.len(),
{
    if chains.len() == 0 {
        chains
    } else {
        let c = chains.last();
        if c.name == name && c.table == table {
            chains.drop_last().push(ChainSaid { rules: c.rules.push(rule), ..c })
        } else {
            with_rule(chains.drop_last(), table, name, rule).push(c)
        }
    }
}

/// The table that the last lines were about, and the chains so far.
pub open spec fn after_line(
    state: (Seq<char>, Seq<ChainSaid>),
    raw: Seq<char>,
) -> (Seq<char>, Seq<ChainSaid>) {
    let (table, chains) = state;
    let line = trim(raw);
    if strip_prefix(line, "*"@) is Some {
        (strip_prefix(line, "*"@)->0, chains)
    } else if strip_prefix(line, ":"@) is Some {
        match declared_chain(table, strip_prefix(line, ":"@)->0) {
            Some(c) => (table, chains.push(c)),
            None => state,
        }
    } else if starts_with(line, "-A "@) || starts_with(line, "["@) {
        match rule_chain(rule_body(line)) {
            Some(name) => (table, with_rule(chains, table, name, rule_body(line))),
            None => state,
        }
    } else {
        state
    }
}

pub open spec fn after_lines(ls: Seq<Seq<char>>) -> (Seq<char>, Seq<ChainSaid>)
    decreases ls.len(),
{
    if ls.len() == 0 {
        (Seq::empty(), Seq::empty())
    } else {
        after_line(after_lines(ls.drop_last()), ls.last())
    }
}

fn read_rule_body(line: &str) -> (r: String)
    ensures
        r@ == rule_body(line@),
{
    match strip_text_prefix(line, "[") {
        Some(rest) => match split_text_once(rest.as_str(), ']') {
            Some((_, body)) => trim_text(body.as_str()),
            None => String::from_str(line),
        },
        None => String::from_str(line),
    }
}

fn read_rule_chain(body: &str) -> (r: Option<String>)
    ensures
        match r {
            Some(name) => rule_chain(body@) == Some(name@),
            None => rule_chain(body@) is None,
        },
{
    match strip_text_prefix(body, "-A ") {
        Some(rest) => {
            let w = words_of(rest.as_str());
            assert(w.len() == words(rest@).len());
            if w.len() > 0 {
                assert(w@[0]@ == words(rest@)[0]);
                Some(w[0].clone())
            } else {
                None
            }
        },
        None => None,
    }
}

fn read_declared_chain(table: &str, rest: &str) -> (r: Option<FirewallChain>)
    ensures
        match r {
            Some(c) => declared_chain(table@, rest@) == Some(chain_said(c)),
            None => declared_chain(table@, rest@) is None,
        },
{
    let w = words_of(rest);
    let ghost ws = words(rest@);
    assert(w.len() == ws.len());
    if w.len() < 2 {
        return None;
    }
    assert(w@[0]@ == ws[0] && w@[1]@ == ws[1]);
    let (packets, bytes) = if w.len() > 2 {
        assert(w@[2]@ == ws[2]);
        match parse_counter(w[2].as_str()) {
            Some((p, b)) => (p, b),
            None => (0u64, 0u64),
        }
    } else {
        (0u64, 0u64)
    };
    let c = FirewallChain {
        table: String::from_str(table),
        name: w[0].clone(),
        policy: w[1].clone(),
        packets,
        bytes,
        rules: Vec::new(),
    };
    assert(texts(c.rules@) =~= Seq::empty());
    Some(c)
}

proof fn lemma_with_rule_at(
    chains: Seq<ChainSaid>,
    table: Seq<char>,
    name: Seq<char>,
    rule: Seq<char>,
    i: int,
)
    requires
        0 <= i < chains.len(),
        chains[i].name == name && chains[i].table == table,
        forall|k: int|
            i < k < chains.len() ==> !((#[trigger] chains[k]).name == name && chains[k].table
                == table),
    ensures
        with_rule(chains, table, name, rule) == chains.update(
            i,
            ChainSaid { rules: chains[i].rules.push(rule), ..chains[i] },
        ),
    decreases chains.len(),
{
    let c = ChainSaid { rules: chains[i].rules.push(rule), ..chains[i] };
    if i < chains.len() - 1 {
        assert(!(chains[chains.len() - 1].name == name && chains[chains.len() - 1].table == table));
        lemma_with_rule_at(chains.drop_last(), table, name, rule, i);
        assert(chains.drop_last().update(i, c).push(chains.last()) =~= chains.update(i, c));
    } else {
        assert(chains.drop_last().push(c) =~= chains.update(i, c));
    }
}

proof fn lemma_with_rule_nowhere(
    chains: Seq<ChainSaid>,
    table: Seq<char>,
    name: Seq<char>,
    rule: Seq<char>,
)
    requires
        forall|k: int|
            0 <= k < chains.len() ==> !((#[trigger] chains[k]).name == name && chains[k].table
                == table),
    ensures
        with_rule(chains, table, name, rule) == chains,
    decreases chains.len(),
{
    if chains.len() > 0 {
        assert(!(chains[chains.len() - 1].name == name && chains[chains.len() - 1].table == table));
        lemma_with_rule_nowhere(chains.drop_last(), table, name, rule);
        assert(chains.drop_last().push(chains.last()) =~= chains);
    }
}

fn attach_rule(chains: &mut Vec<FirewallChain>, table: &str, name: &str, rule: String)
    ensures
        chains_said(final(chains)@) == with_rule(
            chains_said(old(chains)@),
            table@,
            name@,
            rule@,
        ),
{
    let ghost start = chains_said(chains@);
    let n = chains.len();
    let mut i: usize = n;
    while i > 0
        invariant
            i <= n,
            n == chains.len(),
            chains@ == old(chains)@,
            start == chains_said(chains@),
            forall|k: int|
                i <= k < n ==> !((#[trigger] start[k]).name == name@ && start[k].table == table@),
        decreases i,
    {
        i -= 1;
        if same(chains[i].name.as_str(), name) && same(chains[i].table.as_str(), table) {
            proof {
                lemma_with_rule_at(start, table@, name@, rule@, i as int);
            }
            let ghost before = chains@[i as int];
            let mut c = chains.remove(i);
            let ghost rest = chains@;
            c.rules.push(rule);
            assert(texts(c.rules@) =~= texts(before.rules@).push(rule@));
            chains.insert(i, c);
            assert(chains_said(chains@) =~= start.update(
                i as int,
                ChainSaid { rules: start[i as int].rules.push(rule@), ..start[i as int] },
            ));
            return;
        }
    }
    proof {
        lemma_with_rule_nowhere(start, table@, name@, rule@);
    }
}

/// Parse `iptables-save -c` output into chains with their counters. A rule
/// belongs to the last chain of its table with its name; a rule of no known
/// chain, and a line that says nothing of the kind, is left out.
pub fn parse_iptables_save(text: &str) -> (r: Vec<FirewallChain>)
    ensures
        chains_said(r@) == after_lines(lines(text@)).1,
{
    let ls = lines_of(text);
    let ghost all = lines(text@);
    let mut chains: Vec<FirewallChain> = Vec::new();
    let mut table = String::new();
    let mut i: usize = 0;
    assert(all.take(0) =~= Seq::empty());
    assert(chains_said(chains@) =~= Seq::empty());
    while i < ls.len()
        invariant
            i <= ls.len(),
            all == texts(ls@),
            (table@, chains_said(chains@)) == after_lines(all.take(i as int)),
        decreases ls.len() - i,
    {
        assert(all.take(i + 1).drop_last() =~= all.take(i as int));
        assert(all[i as int] == ls@[i as int]@);
        let ghost before = chains_said(chains@);
        let line = trim_text(ls[i].as_str());
        if let Some(name) = strip_text_prefix(line.as_str(), "*") {
            table = name;
        } else if let Some(rest) = strip_text_prefix(line.as_str(), ":") {
            if let Some(c) = read_declared_chain(table.as_str(), rest.as_str()) {
                let ghost said = chain_said(c);
                chains.push(c);
                assert(chains_said(chains@) =~= before.push(said));
            }
        } else if text_starts_with(line.as_str(), "-A ") || text_starts_with(line.as_str(), "[") {
            let body = read_rule_body(line.as_str());
            if let Some(name) = read_rule_chain(body.as_str()) {
                attach_rule(&mut chains, table.as_str(), name.as_str(), body);
            }
        }
        i += 1;
    }
    assert(all.take(all.len() as int) =~= all);
    chains
}

// ---- Pinned eBPF objects --------------------------------------------------------

/// What a directory of pinned objects holds; none if it could not be read.
pub struct PinListing {
    pub root: String,
    pub names: Option<Vec<String>>,
}

/// Whether the name of a pinned object looks network related.
pub open spec fn is_network_pin(name: Seq<char>) -> bool {
    occurs_in(name, "net"@) || occurs_in(name, "uid"@) || occurs_in(name, "clat"@) || occurs_in(
        name,
        "tether"@,
    ) || occurs_in(name, "cookie"@)
}

/// The network related objects of a list of names, with their directory.
pub open spec fn network_pins(root: Seq<char>, names: Seq<Seq<char>>) -> Seq<Seq<char>>
    decreases names.len(),
{
    if names.len() == 0 {
        Seq::empty()
    } else {
        let front = network_pins(root, names.drop_last());
        if is_network_pin(names.last()) {
            front.push(root + "/"@ + names.last())
        } else {
            front
        }
    }
}

/// The network related objects of all directories that could be read.
pub open spec fn all_pins(listings: Seq<PinListing>) -> Seq<Seq<char>>
    decreases listings.len(),
{
    if listings.len() == 0 {
        Seq::empty()
    } else {
        let front = all_pins(listings.drop_last());
        match listings.last().names {
            Some(names) => front + network_pins(listings.last().root@, texts(names@)),
            None => front,
        }
    }
}

/// Whether a directory could be read.
pub open spec fn any_readable(listings: Seq<PinListing>) -> bool {
    exists|i: int| 0 <= i < listings.len() && (#[trigger] listings[i]).names is Some
}

fn add_pins(found: &mut Vec<String>, root: &str, names: &Vec<String>)
    ensures
        texts(final(found)@) == texts(old(found)@) + network_pins(root@, texts(names@)),
{
    let ghost start = texts(found@);
    let ghost all = texts(names@);
    let mut i: usize = 0;
    assert(all.take(0) =~= Seq::empty());
    assert(start + network_pins(root@, all.take(0)) =~= start);
    while i < names.len()
        invariant
            i <= names.len(),
            all == texts(names@),
            texts(found@) == start + network_pins(root@, all.take(i as int)),
        decreases names.len() - i,
    {
        let name = names[i].as_str();
        let ghost before = texts(found@);
        assert(all.take(i + 1).drop_last() =~= all.take(i as int));
        assert(all[i as int] == name@);
        if text_contains(name, "net") || text_contains(name, "uid") || text_contains(name, "clat")
            || text_contains(name, "tether") || text_contains(name, "cookie") {
            let path = String::from_str(root).concat("/").concat(name);
            let ghost p = path@;
            found.push(path);
            assert(texts(found@) =~= before.push(p));
            assert(texts(found@) =~= start + network_pins(root@, all.take(i + 1)));
        }
        i += 1;
    }
    assert(all.take(all.len() as int) =~= all);
}

/// Every pinned eBPF object that looks network related, in order and without
/// repetition, and whether any directory could be read. Listing these is cheap
/// and tells the user whether the eBPF firewall is even present.
pub fn list_bpf_pins(listings: &Vec<PinListing>) -> (r: (Vec<String>, bool))
    ensures
        texts(r.0@) == distinct_texts(all_pins(listings@)),
        r.1 == any_readable(listings@),
{
    let mut found: Vec<String> = Vec::new();
    let mut readable = false;
    let mut i: usize = 0;
    let ghost all = listings@;
    assert(all.take(0) =~= Seq::empty());
    assert(texts(found@) =~= Seq::empty());
    while i < listings.len()
        invariant
            i <= listings.len(),
            all == listings@,
            texts(found@) == all_pins(all.take(i as int)),
            readable == exists|k: int| 0 <= k < i && (#[trigger] all[k]).names is Some,
        decreases listings.len() - i,
    {
        assert(all.take(i + 1).drop_last() =~= all.take(i as int));
        if let Some(names) = &listings[i].names {
            assert(all[i as int].names is Some);
            readable = true;
            add_pins(&mut found, listings[i].root.as_str(), names);
        }
        i += 1;
    }
    assert(all.take(all.len() as int) =~= all);
    (sort_dedup_texts(found), readable)
}

// ---- Everything together --------------------------------------------------------

/// What the tools of netfilter printed; none where a tool is missing or failed.
pub struct ToolOutputs {
    pub iptables_save: Option<String>,
    pub ip6tables_save: Option<String>,
    pub nft_tables: Option<String>,
}

/// The chains that a tool printed.
pub open spec fn printed_chains(out: Option<String>) -> Seq<ChainSaid> {
    match out {
        Some(text) => after_lines(lines(text@)).1,
        None => Seq::empty(),
    }
}

/// The backends that were found, in the order of their numbers.
pub open spec fn backends(
    pins: Seq<Seq<char>>,
    uid_map_present: bool,
    tools: Option<ToolOutputs>,
) -> Seq<FirewallBackend> {
    (if uid_map_present || pins.len() > 0 {
        seq![FirewallBackend::Ebpf]
    } else {
        Seq::empty()
    }) + (if tools is Some && printed_chains((tools->0).iptables_save).len() > 0 {
        seq![FirewallBackend::Iptables]
    } else {
        Seq::empty()
    }) + (if tools is Some && (tools->0).nft_tables is Some {
        seq![FirewallBackend::Nftables]
    } else {
        Seq::empty()
    })
}

pub open spec fn collection_note(uid_map_present: bool, bpf_readable: bool) -> Seq<char> {
    if uid_map_present {
        "per-uid rules read from netd's eBPF uid_owner_map"@
    } else if bpf_readable {
        "eBPF filesystem is present but netd's uid_owner_map was not found; per-uid blocking state is not determinable"@
    } else {
        "no readable eBPF or netfilter state"@
    }
}

/// Whether this is the state of the packet filters, of what was found of them.
pub open spec fn surface_told(
    r: FirewallState,
    pins: Vec<String>,
    bpf_readable: bool,
    uid_map_present: bool,
    tools: Option<ToolOutputs>,
) -> bool {
    &&& r.bpf_pinned_objects == pins
    &&& r.bpf_maps_readable == bpf_readable
    &&& chains_said(r.ipv4_chains@) == match tools {
        Some(t) => printed_chains(t.iptables_save),
        None => Seq::empty(),
    }
    &&& chains_said(r.ipv6_chains@) == match tools {
        Some(t) => printed_chains(t.ip6tables_save),
        None => Seq::empty(),
    }
    &&& r.used_shell_fallback == (tools is Some && ((tools->0).iptables_save is Some || (
    tools->0).ip6tables_save is Some))
    &&& r.backends_detected@ == backends(texts(pins@), uid_map_present, tools)
    &&& r.collection_note@ == collection_note(uid_map_present, bpf_readable)
}

/// Which packet filters exist and what they hold. The tools of netfilter are
/// an explicit opt-in: they may not exist, and on a device that has moved to
/// eBPF their output is misleadingly empty.
pub fn collect(
    pins: Vec<String>,
    bpf_readable: bool,
    uid_map_present: bool,
    tools: Option<ToolOutputs>,
) -> (r: FirewallState)
    ensures
        surface_told(r, pins, bpf_readable, uid_map_present, tools),
{
    let mut found: Vec<FirewallBackend> = Vec::new();
    let mut ipv4_chains: Vec<FirewallChain> = Vec::new();
    let mut ipv6_chains: Vec<FirewallChain> = Vec::new();
    let mut used_shell_fallback = false;
    assert(chains_said(ipv4_chains@) =~= Seq::empty());
    assert(chains_said(ipv6_chains@) =~= Seq::empty());
    if uid_map_present || pins.len() > 0 {
        found.push(FirewallBackend::Ebpf);
    }
    if let Some(t) = &tools {
        if let Some(text) = &t.iptables_save {
            ipv4_chains = parse_iptables_save(text.as_str());
            assert(chains_said(ipv4_chains@).len() == ipv4_chains.len());
            if ipv4_chains.len() > 0 {
                found.push(FirewallBackend::Iptables);
            }
            used_shell_fallback = true;
        }
        if let Some(text) = &t.ip6tables_save {
            ipv6_chains = parse_iptables_save(text.as_str());
            used_shell_fallback = true;
        }
        if t.nft_tables.is_some() {
            found.push(FirewallBackend::Nftables);
        }
    }
    assert(found@ =~= backends(texts(pins@), uid_map_present, tools));
    let collection_note = if uid_map_present {
        String::from_str("per-uid rules read from netd's eBPF uid_owner_map")
    } else if bpf_readable {
        String::from_str(
            "eBPF filesystem is present but netd's uid_owner_map was not found; per-uid blocking state is not determinable",
        )
    } else {
        String::from_str("no readable eBPF or netfilter state")
    };
    FirewallState {
        bpf_pinned_objects: pins,
        bpf_maps_readable: bpf_readable,
        ipv4_chains,
        ipv6_chains,
        used_shell_fallback,
        backends_detected: found,
        collection_note,
    }
}

proof fn lemma_unset_bits(rule: u32, n: nat)
    requires
        n <= 13,
    ensures
        match_texts(rule, n).len() == 0 <==> (forall|b: u32|
            b < n ==> rule & #[trigger] (1u32 << b) == 0),
    decreases n,
{
    if n > 0 {
        lemma_unset_bits(rule, (n - 1) as nat);
        let last = (n - 1) as u32;
        if match_texts(rule, n).len() == 0 {
            assert forall|b: u32| b < n implies rule & #[trigger] (1u32 << b) == 0 by {
                if b == last {
                    assert(rule & (1u32 << last) == 0);
                }
            }
        } else if forall|b: u32| b < n ==> rule & #[trigger] (1u32 << b) == 0 {
            assert(rule & (1u32 << last) == 0);
        }
    }
}

/// Every bit of a rule is reported, known or not: a rule says nothing only where
/// no bit is set.
pub proof fn law_no_bit_is_dropped(rule: u32)
    ensures
        rule_texts(rule).len() == 0 <==> rule == 0,
{
    lemma_unset_bits(rule, MATCH_BITS as nat);
    if rule == 0 {
        assert(0u32 & 0xffff_e000 == 0) by (bit_vector);
        assert forall|b: u32| b < 13 implies 0u32 & #[trigger] (1u32 << b) == 0 by {
            assert(0u32 & (1u32 << b) == 0) by (bit_vector);
        }
    } else if rule_texts(rule).len() == 0 {
        assert(rule == 0) by (bit_vector)
            requires
                rule & 0xffff_e000 == 0,
                rule & (1u32 << 0u32) == 0,
                rule & (1u32 << 1u32) == 0,
                rule & (1u32 << 2u32) == 0,
                rule & (1u32 << 3u32) == 0,
                rule & (1u32 << 4u32) == 0,
                rule & (1u32 << 5u32) == 0,
                rule & (1u32 << 6u32) == 0,
                rule & (1u32 << 7u32) == 0,
                rule & (1u32 << 8u32) == 0,
                rule & (1u32 << 9u32) == 0,
                rule & (1u32 << 10u32) == 0,
                rule & (1u32 << 11u32) == 0,
                rule & (1u32 << 12u32) == 0,
        ;
    }
}

} // verus!
