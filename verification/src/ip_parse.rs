//! Reading an IP address from its text.
use vstd::prelude::*;

use crate::ip::IpAddr;
use crate::text::{digits_value, from_chars, parse_unsigned_in, split, split_text, texts, to_chars};

verus! {

/// The number between two dots: one to three digits, no zero in front of
/// another digit, and at most 255.
pub open spec fn octet(s: Seq<char>) -> Option<nat> {
    match digits_value(s, 10) {
        Some(v) if 1 <= s.len() <= 3 && (s.len() == 1 || s[0] != '0') && v <= 255 => Some(v),
        _ => None,
    }
}

/// The number between two colons: one to four hexadecimal digits.
pub open spec fn group(s: Seq<char>) -> Option<nat> {
    if 1 <= s.len() <= 4 {
        digits_value(s, 16)
    } else {
        None
    }
}

/// The bytes that a dotted text denotes.
pub open spec fn parse_v4(s: Seq<char>) -> Option<Seq<u8>> {
    let p = split(s, '.');
    if p.len() == 4 && (forall|i: int| 0 <= i < 4 ==> #[trigger] octet(p[i]) is Some) {
        Some(Seq::new(4, |i: int| octet(p[i])->0 as u8))
    } else {
        None
    }
}

/// The groups that pieces between colons denote. With `dotted`, the last piece
/// may be an IPv4 address, which counts for two groups.
pub open spec fn parse_groups(p: Seq<Seq<char>>, dotted: bool) -> Option<Seq<nat>>
    decreases p.len(),
{
    if p.len() == 0 {
        Some(Seq::empty())
    } else {
        match parse_groups(p.drop_last(), false) {
            None => None,
            Some(front) => match (group(p.last()), parse_v4(p.last())) {
                (Some(g), _) => Some(front.push(g)),
                (None, Some(b)) if dotted => Some(
                    front.push((b[0] * 256 + b[1]) as nat).push((b[2] * 256 + b[3]) as nat),
                ),
                _ => None,
            },
        }
    }
}

/// The groups that a text on one side of `::`, or one without it, denotes.
pub open spec fn parse_side(s: Seq<char>, dotted: bool) -> Option<Seq<nat>> {
    if s.len() == 0 {
        Some(Seq::empty())
    } else {
        parse_groups(split(s, ':'), dotted)
    }
}

/// The place of the first `::` at `i` or after it, or the length of the text.
pub open spec fn gap_from(s: Seq<char>, i: int) -> int
    decreases s.len() - i,
{
    if i >= s.len() {
        s.len() as int
    } else if i + 1 < s.len() && s[i] == ':' && s[i + 1] == ':' {
        i
    } else {
        gap_from(s, i + 1)
    }
}

/// The eight groups that a text with colons denotes.
pub open spec fn parse_v6(s: Seq<char>) -> Option<Seq<nat>> {
    let i = gap_from(s, 0);
    if i >= s.len() {
        match parse_side(s, true) {
            Some(g) if g.len() == 8 => Some(g),
            _ => None,
        }
    } else {
        match (parse_side(s.take(i), false), parse_side(s.skip(i + 2), true)) {
            (Some(a), Some(b)) if a.len() + b.len() <= 7 => Some(
                a + Seq::new((8 - a.len() - b.len()) as nat, |k: int| 0nat) + b,
            ),
            _ => None,
        }
    }
}

/// The bytes of eight groups.
pub open spec fn group_bytes(g: Seq<nat>) -> Seq<u8> {
    Seq::new(
        16,
        |k: int|
            if k % 2 == 0 {
                (g[k / 2] / 256) as u8
            } else {
                (g[k / 2] % 256) as u8
            },
    )
}

/// The address that a text denotes.
pub open spec fn parse_ip(s: Seq<char>) -> Option<IpAddr> {
    match parse_v4(s) {
        Some(b) => IpAddr::of(b),
        None => match parse_v6(s) {
            Some(g) => IpAddr::of(group_bytes(g)),
            None => None,
        },
    }
}

proof fn lemma_digits_sign(s: Seq<char>, b: nat)
    requires
        s.len() > 0,
        b <= 36,
        digits_value(s, b) is Some,
    ensures
        s[0] != '+',
    decreases s.len(),
{
    if s.len() > 1 {
        lemma_digits_sign(s.drop_last(), b);
    }
}

fn parse_digits(s: &str, b: u64, max: u64) -> (r: Option<u64>)
    requires
        2 <= b <= 36,
        s@.len() > 0,
    ensures
        match r {
            Some(v) => digits_value(s@, b as nat) == Some(v as nat) && v <= max,
            None => match digits_value(s@, b as nat) {
                Some(v) => v > max,
                None => true,
            },
        },
{
    if s.get_char(0) == '+' {
        proof {
            if digits_value(s@, b as nat) is Some {
                lemma_digits_sign(s@, b as nat);
            }
        }
        return None;
    }
    parse_unsigned_in(s, b, max)
}

fn read_octet(s: &str) -> (r: Option<u8>)
    ensures
        match r {
            Some(v) => octet(s@) == Some(v as nat),
            None => octet(s@) is None,
        },
{
    let n = s.unicode_len();
    if n < 1 || n > 3 || (n > 1 && s.get_char(0) == '0') {
        return None;
    }
    match parse_digits(s, 10, 255) {
        Some(v) => Some(v as u8),
        None => None,
    }
}

proof fn lemma_group_bound(s: Seq<char>)
    requires
        group(s) is Some,
    ensures
        group(s)->0 <= 0xffff,
{
    reveal_with_fuel(digits_value, 5);
}

fn read_group(s: &str) -> (r: Option<u64>)
    ensures
        match r {
            Some(v) => group(s@) == Some(v as nat) && v <= 0xffff,
            None => group(s@) is None,
        },
{
    let n = s.unicode_len();
    if n < 1 || n > 4 {
        return None;
    }
    proof {
        if group(s@) is Some {
            lemma_group_bound(s@);
        }
    }
    parse_digits(s, 16, 0xffff)
}

fn read_v4(s: &str) -> (r: Option<[u8; 4]>)
    ensures
        match r {
            Some(b) => parse_v4(s@) == Some(b@),
            None => parse_v4(s@) is None,
        },
{
    let p = split_text(s, '.');
    let ghost g = split(s@, '.');
    assert(p.len() == g.len());
    if p.len() != 4 {
        return None;
    }
    assert(forall|i: int| 0 <= i < 4 ==> #[trigger] g[i] == p@[i]@);
    match (
        read_octet(p[0].as_str()),
        read_octet(p[1].as_str()),
        read_octet(p[2].as_str()),
        read_octet(p[3].as_str()),
    ) {
        (Some(a), Some(b), Some(c), Some(d)) => {
            let r = [a, b, c, d];
            assert(octet(g[0]) is Some && octet(g[1]) is Some && octet(g[2]) is Some && octet(
                g[3],
            ) is Some);
            assert(Seq::new(4, |i: int| octet(g[i])->0 as u8) =~= r@);
            Some(r)
        },
        _ => {
            assert(octet(g[0]) is None || octet(g[1]) is None || octet(g[2]) is None || octet(
                g[3],
            ) is None);
            None
        },
    }
}

/// The numbers in a vector.
spec fn nats(v: Seq<u64>) -> Seq<nat> {
    Seq::new(v.len(), |i: int| v[i] as nat)
}

fn read_groups(p: &Vec<String>, dotted: bool) -> (r: Option<Vec<u64>>)
    ensures
        match r {
            Some(g) => parse_groups(texts(p@), dotted) == Some(nats(g@)) && (forall|i: int|
                0 <= i < g.len() ==> #[trigger] g@[i] <= 0xffff),
            None => parse_groups(texts(p@), dotted) is None,
        },
{
    let ghost all = texts(p@);
    let n = p.len();
    if n == 0 {
        let g: Vec<u64> = Vec::new();
        assert(nats(g@) =~= Seq::empty());
        return Some(g);
    }
    let mut g: Vec<u64> = Vec::new();
    let mut i: usize = 0;
    assert(all.take(0) =~= Seq::empty());
    assert(nats(g@) =~= Seq::empty());
    while i < n - 1
        invariant
            i <= n - 1,
            n == p.len(),
            all == texts(p@),
            parse_groups(all.take(i as int), false) == Some(nats(g@)),
            forall|k: int| 0 <= k < g.len() ==> #[trigger] g@[k] <= 0xffff,
        decreases n - i,
    {
        assert(all.take(i + 1).drop_last() =~= all.take(i as int));
        let ghost before = nats(g@);
        match read_group(p[i].as_str()) {
            Some(v) => {
                g.push(v);
                assert(nats(g@) =~= before.push(v as nat));
            },
            None => {
                proof {
                    lemma_groups_prefix(all, i + 1, dotted);
                }
                return None;
            },
        }
        i += 1;
    }
    let ghost before = nats(g@);
    assert(all.drop_last() =~= all.take(n - 1));
    assert(all.last() == p@[n - 1]@);
    match read_group(p[n - 1].as_str()) {
        Some(v) => {
            g.push(v);
            assert(nats(g@) =~= before.push(v as nat));
            Some(g)
        },
        None => {
            if !dotted {
                return None;
            }
            match read_v4(p[n - 1].as_str()) {
                Some(b) => {
                    g.push(b[0] as u64 * 256 + b[1] as u64);
                    g.push(b[2] as u64 * 256 + b[3] as u64);
                    assert(nats(g@) =~= before.push((b@[0] * 256 + b@[1]) as nat).push(
                        (b@[2] * 256 + b@[3]) as nat,
                    ));
                    Some(g)
                },
                None => None,
            }
        },
    }
}

/// Pieces that do not denote groups make every longer list fail.
proof fn lemma_groups_prefix(p: Seq<Seq<char>>, i: int, dotted: bool)
    requires
        0 < i < p.len(),
        parse_groups(p.take(i), false) is None,
    ensures
        parse_groups(p, dotted) is None,
    decreases p.len() - i,
{
    if i == p.len() - 1 {
        assert(p.drop_last() =~= p.take(i));
    } else {
        assert(p.take(i + 1).drop_last() =~= p.take(i));
        lemma_groups_prefix(p, i + 1, dotted);
    }
}

fn read_side(s: &str, dotted: bool) -> (r: Option<Vec<u64>>)
    ensures
        match r {
            Some(g) => parse_side(s@, dotted) == Some(nats(g@)) && (forall|i: int|
                0 <= i < g.len() ==> #[trigger] g@[i] <= 0xffff),
            None => parse_side(s@, dotted) is None,
        },
{
    if s.unicode_len() == 0 {
        let g: Vec<u64> = Vec::new();
        assert(nats(g@) =~= Seq::empty());
        return Some(g);
    }
    read_groups(&split_text(s, ':'), dotted)
}

fn find_gap(s: &Vec<char>) -> (r: usize)
    ensures
        r == gap_from(s@, 0),
        r <= s.len(),
        r < s.len() ==> r + 1 < s.len(),
{
    let mut i: usize = 0;
    while i < s.len()
        invariant
            i <= s.len(),
            gap_from(s@, 0) == gap_from(s@, i as int),
        decreases s.len() - i,
    {
        if i + 1 < s.len() && s[i] == ':' && s[i + 1] == ':' {
            return i;
        }
        i += 1;
    }
    i
}

fn read_v6(s: &str) -> (r: Option<Vec<u64>>)
    ensures
        match r {
            Some(g) => parse_v6(s@) == Some(nats(g@)) && g.len() == 8 && (forall|i: int|
                0 <= i < g.len() ==> #[trigger] g@[i] <= 0xffff),
            None => parse_v6(s@) is None,
        },
{
    let chars = to_chars(s);
    let i = find_gap(&chars);
    if i >= chars.len() {
        match read_side(s, true) {
            Some(g) => {
                assert(nats(g@).len() == g.len());
                if g.len() == 8 {
                    Some(g)
                } else {
                    None
                }
            },
            None => None,
        }
    } else {
        let left = from_chars(&chars, 0, i);
        let right = from_chars(&chars, i + 2, chars.len());
        assert(left@ =~= s@.take(i as int));
        assert(right@ =~= s@.skip(i + 2));
        match (read_side(left.as_str(), false), read_side(right.as_str(), true)) {
            (Some(a), Some(b)) => {
                let ghost x = nats(a@);
                let ghost y = nats(b@);
                if a.len() > 7 || b.len() > 7 - a.len() {
                    return None;
                }
                let zeros = 8 - a.len() - b.len();
                let mut g: Vec<u64> = a;
                let mut k: usize = 0;
                while k < zeros
                    invariant
                        k <= zeros,
                        x.len() + zeros + y.len() == 8,
                        nats(g@) == x + Seq::new(k as nat, |j: int| 0nat),
                        forall|j: int| 0 <= j < g.len() ==> #[trigger] g@[j] <= 0xffff,
                    decreases zeros - k,
                {
                    let ghost before = nats(g@);
                    g.push(0);
                    k += 1;
                    assert(nats(g@) =~= before.push(0nat));
                    assert(nats(g@) =~= x + Seq::new(k as nat, |j: int| 0nat));
                }
                let ghost mid = nats(g@);
                let mut k: usize = 0;
                assert(mid =~= mid + y.take(0));
                while k < b.len()
                    invariant
                        k <= b.len(),
                        y == nats(b@),
                        nats(g@) == mid + y.take(k as int),
                        forall|j: int| 0 <= j < b.len() ==> #[trigger] b@[j] <= 0xffff,
                        forall|j: int| 0 <= j < g.len() ==> #[trigger] g@[j] <= 0xffff,
                    decreases b.len() - k,
                {
                    let ghost before = nats(g@);
                    g.push(b[k]);
                    k += 1;
                    assert(nats(g@) =~= before.push(y[k - 1]));
                    assert(nats(g@) =~= mid + y.take(k as int));
                }
                assert(y.take(y.len() as int) =~= y);
                assert(nats(g@).len() == g.len());
                Some(g)
            },
            _ => None,
        }
    }
}

/// The address that a text denotes.
pub fn read_ip(s: &str) -> (r: Option<IpAddr>)
    ensures
        r == parse_ip(s@),
{
    match read_v4(s) {
        Some(b) => {
            assert([b@[0], b@[1], b@[2], b@[3]] =~= b);
            Some(IpAddr::V4(b))
        },
        None => match read_v6(s) {
            None => None,
            Some(g) => {
                let mut bytes: Vec<u8> = Vec::new();
                let ghost gs = nats(g@);
                let mut i: usize = 0;
                while i < 8
                    invariant
                        i <= 8,
                        g.len() == 8,
                        gs == nats(g@),
                        forall|j: int| 0 <= j < g.len() ==> #[trigger] g@[j] <= 0xffff,
                        bytes.len() == 2 * i,
                        forall|k: int| 0 <= k < 2 * i ==> #[trigger] bytes@[k] == group_bytes(gs)[k],
                    decreases 8 - i,
                {
                    bytes.push((g[i] / 256) as u8);
                    bytes.push((g[i] % 256) as u8);
                    i += 1;
                }
                assert(bytes@ =~= group_bytes(gs));
                IpAddr::from_bytes(bytes.as_slice())
            },
        },
    }
}

} // verus!
