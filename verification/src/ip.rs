//! IP addresses: their bytes and their text.
use vstd::prelude::*;

use crate::text::{dec, dec_string, hex, hex_string, join, join_texts, texts};

verus! {

/// An IPv4 or IPv6 address, as its bytes in network order.
#[derive(Clone, Copy, Debug, PartialEq, Eq)]
pub enum IpAddr {
    V4([u8; 4]),
    V6([u8; 16]),
}

/// An address and a port.
#[derive(Clone, Copy, Debug, PartialEq, Eq)]
pub struct SocketAddr {
    pub ip: IpAddr,
    pub port: u16,
}

/// Four bytes as they are written: decimal numbers with dots between them.
pub open spec fn v4_text(o: Seq<u8>) -> Seq<char> {
    dec(o[0] as nat) +
        "."@ +
        dec(o[1] as nat) +
        "."@ +
        dec(o[2] as nat) +
        "."@ +
        dec(o[3] as nat)
}

/// The eight 16-bit groups of an IPv6 address.
pub open spec fn groups(o: Seq<u8>) -> Seq<nat> {
    Seq::new(8, |i: int| (o[2 * i] * 256 + o[2 * i + 1]) as nat)
}

/// How many groups from `i` on are zero without a gap.
pub open spec fn run_len(g: Seq<nat>, i: int) -> nat
    decreases g.len() - i,
{
    if 0 <= i < g.len() && g[i] == 0 {
        1 + run_len(g, i + 1)
    } else {
        0
    }
}

/// Where the longest run of zero groups that starts before `n` starts; the
/// first of several that are equally long.
pub open spec fn longest_run(g: Seq<nat>, n: nat) -> int
    decreases n,
{
    if n == 0 {
        0
    } else {
        let before = longest_run(g, (n - 1) as nat);
        if run_len(g, n - 1) > run_len(g, before) {
            n - 1
        } else {
            before
        }
    }
}

/// Groups as they are written: hexadecimal with colons between them.
pub open spec fn groups_text(g: Seq<nat>) -> Seq<char> {
    join(Seq::new(g.len(), |i: int| hex(g[i])), ":"@)
}

/// Whether the address stands for an IPv4 address (`::ffff:a.b.c.d`).
pub open spec fn is_mapped(o: Seq<u8>) -> bool {
    (forall|i: int| 0 <= i < 10 ==> o[i] == 0) && o[10] == 0xff && o[11] == 0xff
}

/// Sixteen bytes as they are written: the longest run of two zero groups or
/// more is left out, and a mapped IPv4 address is written as one.
pub open spec fn v6_text(o: Seq<u8>) -> Seq<char> {
    if is_mapped(o) {
        "::ffff:"@ + v4_text(o.subrange(12, 16))
    } else {
        let g = groups(o);
        let start = longest_run(g, 8);
        let len = run_len(g, start);
        if len > 1 {
            groups_text(g.take(start)) + "::"@ + groups_text(g.skip(start + len))
        } else {
            groups_text(g)
        }
    }
}

impl IpAddr {
    /// The bytes of the address.
    pub open spec fn octets(self) -> Seq<u8> {
        match self {
            IpAddr::V4(o) => o@,
            IpAddr::V6(o) => o@,
        }
    }

    /// The address as it is written.
    pub open spec fn text(self) -> Seq<char> {
        match self {
            IpAddr::V4(o) => v4_text(o@),
            IpAddr::V6(o) => v6_text(o@),
        }
    }

    pub fn is_ipv4(&self) -> (r: bool)
        ensures
            r == (*self is V4),
    {
        matches!(self, IpAddr::V4(_))
    }

    pub fn is_ipv6(&self) -> (r: bool)
        ensures
            r == (*self is V6),
    {
        matches!(self, IpAddr::V6(_))
    }

    /// Whether two addresses are the same.
    pub fn same(&self, other: &IpAddr) -> (r: bool)
        ensures
            r == (*self == *other),
    {
        match (self, other) {
            (IpAddr::V4(a), IpAddr::V4(b)) => same_octets(a, b),
            (IpAddr::V6(a), IpAddr::V6(b)) => same_octets(a, b),
            _ => false,
        }
    }

    pub fn to_text(&self) -> (r: String)
        ensures
            r@ == self.text(),
    {
        match self {
            IpAddr::V4(o) => v4_string(o[0], o[1], o[2], o[3]),
            IpAddr::V6(o) => v6_string(o),
        }
    }

    /// The bytes of the address, as a vector.
    pub fn to_vec(&self) -> (r: Vec<u8>)
        ensures
            r@ == self.octets(),
    {
        match self {
            IpAddr::V4(o) => octets_vec(o),
            IpAddr::V6(o) => octets_vec(o),
        }
    }

    /// The address with these bytes; there is one for four bytes and for
    /// sixteen.
    pub open spec fn of(bytes: Seq<u8>) -> Option<IpAddr> {
        if bytes.len() == 4 {
            Some(IpAddr::V4([bytes[0], bytes[1], bytes[2], bytes[3]]))
        } else if bytes.len() == 16 {
            Some(
                IpAddr::V6(
                    [
                        bytes[0], bytes[1], bytes[2], bytes[3],
                        bytes[4], bytes[5], bytes[6], bytes[7],
                        bytes[8], bytes[9], bytes[10], bytes[11],
                        bytes[12], bytes[13], bytes[14], bytes[15],
                    ],
                ),
            )
        } else {
            None
        }
    }

    pub fn from_bytes(bytes: &[u8]) -> (r: Option<IpAddr>)
        ensures
            r == IpAddr::of(bytes@),
    {
        if bytes.len() == 4 {
            Some(IpAddr::V4([bytes[0], bytes[1], bytes[2], bytes[3]]))
        } else if bytes.len() == 16 {
            Some(
                IpAddr::V6(
                    [
                        bytes[0], bytes[1], bytes[2], bytes[3],
                        bytes[4], bytes[5], bytes[6], bytes[7],
                        bytes[8], bytes[9], bytes[10], bytes[11],
                        bytes[12], bytes[13], bytes[14], bytes[15],
                    ],
                ),
            )
        } else {
            None
        }
    }
}

/// An address is found again from its bytes.
pub proof fn law_address_bytes_round_trip(ip: IpAddr)
    ensures
        IpAddr::of(ip.octets()) == Some(ip),
{
    match ip {
        IpAddr::V4(o) => {
            assert([o@[0], o@[1], o@[2], o@[3]] =~= o);
        },
        IpAddr::V6(o) => {
            assert([
                o@[0], o@[1], o@[2], o@[3], o@[4], o@[5], o@[6], o@[7],
                o@[8], o@[9], o@[10], o@[11], o@[12], o@[13], o@[14], o@[15],
            ] =~= o);
        },
    }
}

/// Bytes that make an address are the bytes of that address.
pub proof fn law_bytes_of_address(bytes: Seq<u8>)
    requires
        IpAddr::of(bytes) is Some,
    ensures
        (IpAddr::of(bytes)->0).octets() == bytes,
{
    assert((IpAddr::of(bytes)->0).octets() =~= bytes);
}

fn same_octets<const N: usize>(a: &[u8; N], b: &[u8; N]) -> (r: bool)
    ensures
        r == (*a == *b),
{
    let mut i: usize = 0;
    while i < N
        invariant
            i <= N,
            forall|k: int| 0 <= k < i ==> a@[k] == b@[k],
        decreases N - i,
    {
        if a[i] != b[i] {
            return false;
        }
        i += 1;
    }
    assert(*a =~= *b);
    true
}

fn octets_vec<const N: usize>(a: &[u8; N]) -> (r: Vec<u8>)
    ensures
        r@ == a@,
{
    let mut r: Vec<u8> = Vec::new();
    let mut i: usize = 0;
    while i < N
        invariant
            i <= N,
            r@ == a@.take(i as int),
        decreases N - i,
    {
        r.push(a[i]);
        i += 1;
        assert(a@.take(i as int) =~= a@.take(i - 1).push(a@[i - 1]));
    }
    assert(a@.take(N as int) =~= a@);
    r
}

fn v4_string(a: u8, b: u8, c: u8, d: u8) -> (r: String)
    ensures
        r@ == v4_text(seq![a, b, c, d]),
        forall|o: Seq<u8>|
            o.len() == 4 && o[0] == a && o[1] == b && o[2] == c && o[3] == d ==> r@ == v4_text(o),
{
    String::from_str(dec_string(a as u64).as_str())
        .concat(".")
        .concat(dec_string(b as u64).as_str())
        .concat(".")
        .concat(dec_string(c as u64).as_str())
        .concat(".")
        .concat(dec_string(d as u64).as_str())
}

fn groups_vec(o: &[u8; 16]) -> (r: Vec<u64>)
    ensures
        r.len() == 8,
        forall|i: int| 0 <= i < 8 ==> #[trigger] r@[i] == groups(o@)[i],
{
    let mut r: Vec<u64> = Vec::new();
    let mut i: usize = 0;
    while i < 8
        invariant
            i <= 8,
            r.len() == i,
            forall|k: int| 0 <= k < i ==> #[trigger] r@[k] == groups(o@)[k],
        decreases 8 - i,
    {
        r.push(o[2 * i] as u64 * 256 + o[2 * i + 1] as u64);
        i += 1;
    }
    r
}

fn zero_run(g: &Vec<u64>, i: usize, Ghost(s): Ghost<Seq<nat>>) -> (r: usize)
    requires
        i <= g.len(),
        s.len() == g.len(),
        forall|k: int| 0 <= k < g.len() ==> #[trigger] g@[k] == s[k],
    ensures
        r == run_len(s, i as int),
        r <= g.len() - i,
    decreases g.len() - i,
{
    if i < g.len() && g[i] == 0 {
        1 + zero_run(g, i + 1, Ghost(s))
    } else {
        0
    }
}

fn groups_string(g: &Vec<u64>, from: usize, to: usize, Ghost(s): Ghost<Seq<nat>>) -> (r: String)
    requires
        from <= to <= g.len(),
        s.len() == g.len(),
        forall|k: int| 0 <= k < g.len() ==> #[trigger] g@[k] == s[k],
    ensures
        r@ == groups_text(s.subrange(from as int, to as int)),
{
    let ghost part = s.subrange(from as int, to as int);
    let mut pieces: Vec<String> = Vec::new();
    let mut i: usize = from;
    while i < to
        invariant
            from <= i <= to <= g.len(),
            s.len() == g.len(),
            part == s.subrange(from as int, to as int),
            forall|k: int| 0 <= k < g.len() ==> #[trigger] g@[k] == s[k],
            pieces.len() == i - from,
            forall|k: int| 0 <= k < i - from ==> #[trigger] pieces@[k]@ == hex(part[k]),
        decreases to - i,
    {
        pieces.push(hex_string(g[i]));
        i += 1;
    }
    assert(texts(pieces@) =~= Seq::new(part.len(), |k: int| hex(part[k])));
    join_texts(&pieces, ":")
}

pub(crate) fn mapped(o: &[u8; 16]) -> (r: bool)
    ensures
        r == is_mapped(o@),
{
    let mut i: usize = 0;
    while i < 10
        invariant
            i <= 10,
            forall|k: int| 0 <= k < i ==> o@[k] == 0,
        decreases 10 - i,
    {
        if o[i] != 0 {
            return false;
        }
        i += 1;
    }
    o[10] == 0xff && o[11] == 0xff
}

fn v6_string(o: &[u8; 16]) -> (r: String)
    ensures
        r@ == v6_text(o@),
{
    if mapped(o) {
        let tail = v4_string(o[12], o[13], o[14], o[15]);
        assert(o@.subrange(12, 16) =~= seq![o@[12], o@[13], o@[14], o@[15]]);
        return String::from_str("::ffff:").concat(tail.as_str());
    }
    let g = groups_vec(o);
    let ghost s = groups(o@);
    let mut start: usize = 0;
    let mut len: usize = zero_run(&g, 0, Ghost(s));
    let mut i: usize = 0;
    while i < 8
        invariant
            i <= 8,
            g.len() == 8,
            s.len() == 8,
            forall|k: int| 0 <= k < 8 ==> #[trigger] g@[k] == s[k],
            start < 8,
            start == longest_run(s, i as nat),
            len == run_len(s, start as int),
            start + len <= 8,
        decreases 8 - i,
    {
        let n = zero_run(&g, i, Ghost(s));
        if n > len {
            start = i;
            len = n;
        }
        i += 1;
    }
    if len > 1 {
        let head = groups_string(&g, 0, start, Ghost(s));
        let tail = groups_string(&g, start + len, 8, Ghost(s));
        assert(s.subrange(0, start as int) =~= s.take(start as int));
        assert(s.subrange(start + len, 8) =~= s.skip(start + len));
        String::from_str(head.as_str()).concat("::").concat(tail.as_str())
    } else {
        assert(s.subrange(0, 8) =~= s);
        groups_string(&g, 0, 8, Ghost(s))
    }
}

impl SocketAddr {
    /// The address and the port as they are written; an IPv6 address stands in
    /// square brackets.
    pub open spec fn text(self) -> Seq<char> {
        match self.ip {
            IpAddr::V4(_) => self.ip.text() + ":"@ + dec(self.port as nat),
            IpAddr::V6(_) => "["@ + self.ip.text() + "]:"@ + dec(self.port as nat),
        }
    }

    pub fn to_text(&self) -> (r: String)
        ensures
            r@ == self.text(),
    {
        let ip = self.ip.to_text();
        let port = dec_string(self.port as u64);
        match self.ip {
            IpAddr::V4(_) => String::from_str(ip.as_str()).concat(":").concat(port.as_str()),
            IpAddr::V6(_) => String::from_str("[").concat(ip.as_str()).concat("]:").concat(port.as_str()),
        }
    }
}

} // verus!
