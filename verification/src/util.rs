//! Small shared helpers: clocks, Android fwmark decoding, table names.
use vstd::prelude::*;

use crate::text::{digit, digit_char, join, join_texts, parse_i32, signed, texts, words, words_of};

verus! {

// ---- Clocks -----------------------------------------------------------------

/// `std::time::Instant`, a reading of the monotonic clock.
#[verifier::external_type_specification]
#[verifier::external_body]
pub struct ExInstant(std::time::Instant);

/// Duration helper used for check timings.
pub struct Stopwatch {
    started: std::time::Instant,
}

impl Stopwatch {
    /// Starts a stopwatch at `std::time::Instant::now`. Nothing is said of the
    /// instant.
    #[verifier::external_body]
    pub fn start() -> Self {
        Stopwatch { started: std::time::Instant::now() }
    }

    /// The whole milliseconds that `std::time::Instant::elapsed` reports. They
    /// depend on the clock, so nothing is said of them.
    #[verifier::external_body]
    pub fn elapsed_ms(&self) -> u64 {
        self.started.elapsed().as_millis() as u64
    }
}

/// Wall-clock milliseconds since the epoch, from `std::time::SystemTime::now`,
/// and zero for a clock that stands before the epoch. They depend on the
/// clock, so nothing is said of them.
#[verifier::external_body]
pub fn now_unix_ms() -> i64 {
    std::time::SystemTime::now()
        .duration_since(std::time::UNIX_EPOCH)
        .map(|d| d.as_millis() as i64)
        .unwrap_or(0)
}

// ---- /proc contents ---------------------------------------------------------

/// The number that a file under /proc starts with.
pub open spec fn first_number(content: Option<Seq<char>>) -> Option<int> {
    match content {
        Some(text) if words(text).len() > 0 => signed(words(text)[0], i32::MAX as nat),
        _ => None,
    }
}

/// What a file holds, if it could be read.
pub open spec fn content_of(content: Option<String>) -> Option<Seq<char>> {
    match content {
        Some(text) => Some(text@),
        None => None,
    }
}

/// The number that a file starts with; none if the file could not be read or
/// starts with something else.
pub fn read_i32(content: &Option<String>) -> (r: Option<i32>)
    ensures
        match r {
            Some(v) => first_number(content_of(*content)) == Some(v as int),
            None => first_number(content_of(*content)) is None,
        },
{
    match content {
        None => None,
        Some(text) => {
            let w = words_of(text.as_str());
            assert(w.len() == words(text@).len());
            if w.len() == 0 {
                None
            } else {
                assert(w@[0]@ == words(text@)[0]);
                parse_i32(w[0].as_str())
            }
        },
    }
}

/// The kernel's release, or nothing where it could not be read.
pub fn kernel_release(osrelease: Option<String>) -> (r: String)
    ensures
        match osrelease {
            Some(text) => r == text,
            None => r@.len() == 0,
        },
{
    match osrelease {
        Some(text) => text,
        None => String::new(),
    }
}

// ---- Android's fwmark -------------------------------------------------------

/// The bits of a mark that hold the netId.
pub const FWMARK_NET_ID_MASK: u32 = 0xffff;

/// Set on a socket whose network was chosen by the app.
pub const FWMARK_EXPLICITLY_SELECTED: u32 = 0x1_0000;

/// Set on a socket that may bypass a VPN.
pub const FWMARK_PROTECTED_FROM_VPN: u32 = 0x2_0000;

/// The netId in a mark: its low sixteen bits.
pub fn net_id_from_mark(mark: u32) -> (r: u32)
    ensures
        r == mark % 0x1_0000,
        r == mark & FWMARK_NET_ID_MASK,
{
    assert(mark & 0xffff == mark % 0x1_0000) by (bit_vector);
    mark & FWMARK_NET_ID_MASK
}

/// The mark of a socket that is pinned to `net_id`.
pub open spec fn pinning_mark(net_id: u32) -> u32 {
    (net_id % 0x1_0000 + 0x1_0000) as u32
}

/// The mark of a socket that is pinned to `net_id`. Probes set it to send
/// traffic over a chosen network.
pub fn mark_for_net_id(net_id: u32) -> (r: u32)
    ensures
        r == pinning_mark(net_id),
{
    assert((net_id & 0xffff) | 0x1_0000 == net_id % 0x1_0000 + 0x1_0000) by (bit_vector);
    (net_id & FWMARK_NET_ID_MASK) | FWMARK_EXPLICITLY_SELECTED
}

/// The netId that a mark was built from is found in it again.
pub proof fn law_mark_keeps_net_id(net_id: u32)
    requires
        net_id < 0x1_0000,
    ensures
        pinning_mark(net_id) % 0x1_0000 == net_id,
{
}

/// The name of a routing table with a fixed number.
pub open spec fn fixed_table_name(table: u32) -> Option<Seq<char>> {
    if table == 255 {
        Some("local"@)
    } else if table == 254 {
        Some("main"@)
    } else if table == 253 {
        Some("default"@)
    } else if table == 0 {
        Some("unspec"@)
    } else if table == 97 {
        Some("local_network"@)
    } else if table == 98 {
        Some("legacy_system"@)
    } else if table == 99 {
        Some("legacy_network"@)
    } else if table == 1003 {
        Some("vpn_fallthrough"@)
    } else {
        None
    }
}

/// The name of a routing table with a fixed number: Linux's own and those that
/// netd allocates.
pub fn well_known_table_name(table: u32) -> (r: Option<&'static str>)
    ensures
        match r {
            Some(name) => fixed_table_name(table) == Some(name@),
            None => fixed_table_name(table) is None,
        },
{
    match table {
        255 => Some("local"),
        254 => Some("main"),
        253 => Some("default"),
        0 => Some("unspec"),
        97 => Some("local_network"),
        98 => Some("legacy_system"),
        99 => Some("legacy_network"),
        1003 => Some("vpn_fallthrough"),
        _ => None,
    }
}

// ---- MAC addresses ----------------------------------------------------------

/// A byte as two hexadecimal digits.
pub open spec fn hex_byte(b: u8) -> Seq<char> {
    seq![digit((b / 16) as nat), digit((b % 16) as nat)]
}

/// Bytes as two hexadecimal digits each, with colons between them.
pub open spec fn hex_pairs_text(bytes: Seq<u8>) -> Seq<char> {
    join(Seq::new(bytes.len(), |i: int| hex_byte(bytes[i])), ":"@)
}

pub fn hex_pairs(bytes: &[u8]) -> (r: String)
    ensures
        r@ == hex_pairs_text(bytes@),
{
    let mut parts: Vec<String> = Vec::new();
    let mut i: usize = 0;
    while i < bytes.len()
        invariant
            i <= bytes.len(),
            parts.len() == i,
            forall|k: int| 0 <= k < i ==> #[trigger] parts@[k]@ == hex_byte(bytes@[k]),
        decreases bytes.len() - i,
    {
        let mut part = String::new();
        part.push(digit_char(bytes[i] / 16));
        part.push(digit_char(bytes[i] % 16));
        assert(part@ =~= hex_byte(bytes@[i as int]));
        parts.push(part);
        i += 1;
    }
    assert(texts(parts@) =~= Seq::new(bytes@.len(), |k: int| hex_byte(bytes@[k])));
    join_texts(&parts, ":")
}

/// A MAC address as it is written, and nothing for bytes that are none: it has
/// six.
pub open spec fn mac_text(bytes: Seq<u8>) -> Seq<char> {
    if bytes.len() == 6 {
        hex_pairs_text(bytes)
    } else {
        ""@
    }
}

/// Format a byte slice as a MAC address, or an empty string when it is not one.
pub fn format_mac(bytes: &[u8]) -> (r: String)
    ensures
        r@ == mac_text(bytes@),
{
    if bytes.len() == 6 {
        hex_pairs(bytes)
    } else {
        String::from_str("")
    }
}

} // verus!
