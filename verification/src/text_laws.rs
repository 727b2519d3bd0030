//! Reading gives back what was written: numbers, pieces of texts and addresses.
use vstd::prelude::*;

use crate::ip::{groups, groups_text, is_mapped, longest_run, run_len, v4_text, v6_text, IpAddr};
use crate::ip_parse::{
    gap_from, group, group_bytes, octet, parse_groups, parse_ip, parse_side, parse_v4, parse_v6,
};
use crate::text::{
    dec, digit, digit_value, digits_value, hex, is_space, join, lines, numeral, padded, place_from,
    sdec, signed, split, split_once, trim, trim_end, trim_start, unsigned, without_cr, words,
    words_and_rest, zero_padded,
};

verus! {

// ---- Numbers ------------------------------------------------------------------------

/// A numeral is read as the number that it was written for, in any base up to sixteen.
pub proof fn law_a_numeral_is_read_back(n: nat, b: nat)
    requires
        2 <= b <= 16,
    ensures
        digits_value(numeral(n, b), b) == Some(n),
        numeral(n, b).len() > 0,
        forall|i: int| 0 <= i < numeral(n, b).len() ==> is_digit(#[trigger] numeral(n, b)[i]),
    decreases n,
{
    if n < b {
        let s = seq![digit(n)];
        assert(numeral(n, b) == s);
        assert(s.drop_last() =~= Seq::empty());
        assert(digit_value(digit(n), b) == Some(n));
        assert(is_digit(digit(n)));
        assert(digits_value(s.drop_last(), b) == Some(0nat));
        assert(0nat * b == 0) by (nonlinear_arith);
        assert(s.last() == digit(n));
    } else {
        assert(n / b < n) by (nonlinear_arith)
            requires
                b >= 2,
                n >= b,
        ;
        let front = numeral(n / b, b);
        law_a_numeral_is_read_back(n / b, b);
        let s = front.push(digit(n % b));
        assert(numeral(n, b) == s);
        assert(s.drop_last() =~= front);
        assert(n % b < b);
        assert(digit_value(digit(n % b), b) == Some(n % b));
        assert(is_digit(digit(n % b)));
        vstd::arithmetic::div_mod::lemma_fundamental_div_mod(n as int, b as int);
        assert((n / b) * b + n % b == n) by (nonlinear_arith)
            requires
                n == b * (n / b) + n % b,
        ;
        assert(s.last() == digit(n % b));
        assert(digits_value(s, b) == Some((n / b) * b + n % b));
        assert forall|i: int| 0 <= i < s.len() implies is_digit(#[trigger] s[i]) by {
            if i < front.len() {
                assert(s[i] == front[i]);
            }
        }
    }
}

/// Whether a character is a digit below sixteen, in lower case.
pub open spec fn is_digit(c: char) -> bool {
    '0' <= c <= '9' || 'a' <= c <= 'f'
}

/// A decimal number is read back where it is within the bound, and refused where it is
/// not.
pub proof fn law_a_decimal_is_read_back(n: nat, max: nat)
    ensures
        n <= max ==> unsigned(dec(n), max) == Some(n),
        n > max ==> unsigned(dec(n), max) is None,
        n <= max ==> signed(dec(n), max) == Some(n as int),
{
    law_a_numeral_is_read_back(n, 10);
    assert(is_digit(dec(n)[0]));
}

/// A number with a sign is read back.
pub proof fn law_a_signed_number_is_read_back(n: int, max: nat)
    requires
        -max - 1 <= n <= max,
    ensures
        signed(sdec(n), max) == Some(n),
{
    if n < 0 {
        law_a_numeral_is_read_back((-n) as nat, 10);
        assert(sdec(n).skip(1) =~= dec((-n) as nat));
        assert(sdec(n)[0] == '-');
    } else {
        law_a_decimal_is_read_back(n as nat, max);
    }
}

/// Filling up leaves the text as it is, at the end with zeros in front or at the start
/// with spaces behind, and makes it as long as asked.
pub proof fn law_filling_up_keeps_the_text(s: Seq<char>, width: nat)
    ensures
        zero_padded(s, width).len() == if s.len() < width { width } else { s.len() },
        zero_padded(s, width).skip(zero_padded(s, width).len() - s.len()) == s,
        forall|i: int|
            0 <= i < zero_padded(s, width).len() - s.len() ==> #[trigger] zero_padded(s, width)[i] == '0',
        padded(s, width).len() == if s.len() < width { width } else { s.len() },
        padded(s, width).take(s.len() as int) == s,
        forall|i: int| s.len() <= i < padded(s, width).len() ==> #[trigger] padded(s, width)[i] == ' ',
{
    assert(zero_padded(s, width).skip(zero_padded(s, width).len() - s.len()) =~= s);
    assert(padded(s, width).take(s.len() as int) =~= s);
}

// ---- Pieces -------------------------------------------------------------------------

/// Whether a character stands in no piece.
pub open spec fn free_of(s: Seq<char>, c: char) -> bool {
    forall|i: int| 0 <= i < s.len() ==> #[trigger] s[i] != c
}

proof fn lemma_split_free(s: Seq<char>, sep: char)
    requires
        free_of(s, sep),
    ensures
        split(s, sep) == seq![s],
    decreases s.len(),
{
    if s.len() > 0 {
        let t = s.drop_last();
        assert forall|i: int| 0 <= i < t.len() implies #[trigger] t[i] != sep by {
            assert(t[i] == s[i]);
        }
        lemma_split_free(t, sep);
        assert(s[s.len() - 1] != sep);
        assert(seq![t].drop_last() =~= Seq::empty());
        assert(t.push(s.last()) =~= s);
        assert(Seq::<Seq<char>>::empty().push(s) =~= seq![s]);
    } else {
        assert(s =~= Seq::empty());
    }
}

/// A piece more is split off where it stands behind a separator.
proof fn lemma_split_snoc(s: Seq<char>, sep: char, piece: Seq<char>)
    requires
        free_of(piece, sep),
    ensures
        split(s.push(sep) + piece, sep) == split(s, sep).push(piece),
    decreases piece.len(),
{
    let all = s.push(sep) + piece;
    if piece.len() == 0 {
        assert(all =~= s.push(sep));
        assert(s.push(sep).drop_last() =~= s);
        assert(piece =~= Seq::empty());
    } else {
        let t = piece.drop_last();
        assert forall|i: int| 0 <= i < t.len() implies #[trigger] t[i] != sep by {
            assert(t[i] == piece[i]);
        }
        lemma_split_snoc(s, sep, t);
        assert(all.drop_last() =~= s.push(sep) + t);
        assert(all.last() == piece.last());
        assert(piece[piece.len() - 1] != sep);
        let before = split(s, sep).push(t);
        assert(before.drop_last() =~= split(s, sep));
        assert(t.push(piece.last()) =~= piece);
    }
}

/// What was joined by a separator is split into its pieces again, where none of them
/// holds it.
pub proof fn law_join_then_split(pieces: Seq<Seq<char>>, sep: char)
    requires
        pieces.len() > 0,
        forall|i: int| 0 <= i < pieces.len() ==> free_of(#[trigger] pieces[i], sep),
    ensures
        split(join(pieces, seq![sep]), sep) == pieces,
    decreases pieces.len(),
{
    if pieces.len() == 1 {
        assert(free_of(pieces[0], sep));
        lemma_split_free(pieces[0], sep);
        assert(seq![pieces[0]] =~= pieces);
    } else {
        let t = pieces.drop_last();
        assert forall|i: int| 0 <= i < t.len() implies free_of(#[trigger] t[i], sep) by {
            assert(t[i] == pieces[i]);
        }
        law_join_then_split(t, sep);
        assert(free_of(pieces[pieces.len() - 1], sep));
        let s = join(t, seq![sep]);
        lemma_split_snoc(s, sep, pieces.last());
        assert(s + seq![sep] + pieces.last() =~= s.push(sep) + pieces.last());
        assert(t.push(pieces.last()) =~= pieces);
    }
}

/// A text is split once at the first separator: what is in front of it holds none.
pub proof fn law_a_text_is_split_at_the_first(a: Seq<char>, c: char, b: Seq<char>)
    requires
        free_of(a, c),
    ensures
        split_once(a + seq![c] + b, c) == Some((a, b)),
        split_once(a, c) is None,
{
    let s = a + seq![c] + b;
    lemma_place(s, c, 0, a.len() as int);
    assert(s.take(a.len() as int) =~= a);
    assert(s.skip(a.len() as int + 1) =~= b);
    lemma_no_place(a, c, 0);
}

proof fn lemma_place(s: Seq<char>, c: char, i: int, k: int)
    requires
        0 <= i <= k < s.len(),
        s[k] == c,
        forall|j: int| i <= j < k ==> #[trigger] s[j] != c,
    ensures
        place_from(s, c, i) == k,
    decreases k - i,
{
    if i < k {
        assert(s[i] != c);
        lemma_place(s, c, i + 1, k);
    }
}

proof fn lemma_no_place(s: Seq<char>, c: char, i: int)
    requires
        0 <= i <= s.len(),
        free_of(s, c),
    ensures
        place_from(s, c, i) == s.len(),
    decreases s.len() - i,
{
    if i < s.len() {
        assert(s[i] != c);
        lemma_no_place(s, c, i + 1);
    }
}

/// Lines that end with a line feed are read as they are, where none holds one, and none
/// ends with a carriage return.
pub proof fn law_lines_are_read_back(ls: Seq<Seq<char>>)
    requires
        forall|i: int|
            0 <= i < ls.len() ==> free_of(#[trigger] ls[i], '\n') && (ls[i].len() > 0 ==> ls[i].last() != '\r'),
    ensures
        lines(join(ls.push(Seq::empty()), seq!['\n'])) == ls,
{
    let pieces = ls.push(Seq::empty());
    assert forall|i: int| 0 <= i < pieces.len() implies free_of(#[trigger] pieces[i], '\n') by {
        if i < ls.len() {
            assert(pieces[i] == ls[i]);
        }
    }
    law_join_then_split(pieces, '\n');
    let ended = Seq::new((pieces.len() - 1) as nat, |i: int| without_cr(pieces[i]));
    assert(ended =~= ls) by {
        assert forall|i: int| 0 <= i < ls.len() implies ended[i] == ls[i] by {
            assert(pieces[i] == ls[i]);
        }
    }
}

/// Trimming takes the white space at the ends off and nothing else.
pub proof fn law_trimming_leaves_the_text(before: Seq<char>, s: Seq<char>, after: Seq<char>)
    requires
        forall|i: int| 0 <= i < before.len() ==> is_space(#[trigger] before[i]),
        forall|i: int| 0 <= i < after.len() ==> is_space(#[trigger] after[i]),
        s.len() > 0 && !is_space(s[0]) && !is_space(s.last()),
    ensures
        trim(before + s + after) == s,
{
    lemma_trim_start(before, s + after);
    assert(before + (s + after) =~= before + s + after);
    lemma_trim_end(s, after);
}

proof fn lemma_trim_start(before: Seq<char>, s: Seq<char>)
    requires
        forall|i: int| 0 <= i < before.len() ==> is_space(#[trigger] before[i]),
        s.len() > 0 && !is_space(s[0]),
    ensures
        trim_start(before + s) == s,
    decreases before.len(),
{
    if before.len() > 0 {
        let t = before.skip(1);
        assert forall|i: int| 0 <= i < t.len() implies is_space(#[trigger] t[i]) by {
            assert(t[i] == before[i + 1]);
        }
        assert(is_space(before[0]));
        lemma_trim_start(t, s);
        assert((before + s).skip(1) =~= t + s);
    } else {
        assert(before + s =~= s);
    }
}

proof fn lemma_trim_end(s: Seq<char>, after: Seq<char>)
    requires
        forall|i: int| 0 <= i < after.len() ==> is_space(#[trigger] after[i]),
        s.len() > 0 && !is_space(s.last()),
    ensures
        trim_end(s + after) == s,
    decreases after.len(),
{
    if after.len() > 0 {
        let t = after.drop_last();
        assert forall|i: int| 0 <= i < t.len() implies is_space(#[trigger] t[i]) by {
            assert(t[i] == after[i]);
        }
        assert(is_space(after[after.len() - 1]));
        lemma_trim_end(s, t);
        assert((s + after).drop_last() =~= s + t);
    } else {
        assert(s + after =~= s);
    }
}

/// Whether a text is a word: not empty, and without white space.
pub open spec fn is_word(s: Seq<char>) -> bool {
    s.len() > 0 && forall|i: int| 0 <= i < s.len() ==> !is_space(#[trigger] s[i])
}

/// Words with a space between each two are read back.
pub proof fn law_words_are_read_back(ws: Seq<Seq<char>>)
    requires
        forall|i: int| 0 <= i < ws.len() ==> is_word(#[trigger] ws[i]),
    ensures
        words(join(ws, seq![' '])) == ws,
    decreases ws.len(),
{
    if ws.len() > 0 {
        lemma_words(ws);
        assert(ws.drop_last() + seq![ws.last()] =~= ws);
        assert(is_word(ws[ws.len() - 1]));
    } else {
        assert(words(join(ws, seq![' '])) =~= ws);
    }
}

proof fn lemma_words(ws: Seq<Seq<char>>)
    requires
        ws.len() > 0,
        forall|i: int| 0 <= i < ws.len() ==> is_word(#[trigger] ws[i]),
    ensures
        words_and_rest(join(ws, seq![' '])) == (ws.drop_last(), ws.last()),
    decreases ws.len(),
{
    let last = ws.last();
    assert(is_word(ws[ws.len() - 1]));
    if ws.len() == 1 {
        lemma_word_behind(Seq::empty(), last);
        assert(Seq::<char>::empty() + last =~= last);
        assert(ws.drop_last() =~= Seq::empty());
    } else {
        let t = ws.drop_last();
        assert forall|i: int| 0 <= i < t.len() implies is_word(#[trigger] t[i]) by {
            assert(t[i] == ws[i]);
        }
        lemma_words(t);
        assert(is_word(t[t.len() - 1]));
        let s = join(t, seq![' ']);
        let spaced = s.push(' ');
        assert(spaced.drop_last() =~= s);
        assert(is_space(' '));
        assert(t.drop_last().push(t.last()) =~= t);
        assert(words_and_rest(spaced) == (t, Seq::<char>::empty()));
        lemma_word_behind(spaced, last);
        assert(s + seq![' '] + last =~= spaced + last);
    }
}

proof fn lemma_word_behind(s: Seq<char>, w: Seq<char>)
    requires
        words_and_rest(s).1.len() == 0,
        forall|i: int| 0 <= i < w.len() ==> !is_space(#[trigger] w[i]),
    ensures
        words_and_rest(s + w) == (words_and_rest(s).0, w),
    decreases w.len(),
{
    if w.len() > 0 {
        let t = w.drop_last();
        assert forall|i: int| 0 <= i < t.len() implies !is_space(#[trigger] t[i]) by {
            assert(t[i] == w[i]);
        }
        lemma_word_behind(s, t);
        assert(!is_space(w[w.len() - 1]));
        assert((s + w).drop_last() =~= s + t);
        assert(t.push(w.last()) =~= w);
    } else {
        assert(s + w =~= s);
        assert(words_and_rest(s).1 =~= w);
    }
}

// ---- Addresses ------------------------------------------------------------------------

/// A byte is read back between dots.
proof fn lemma_octet(n: nat)
    requires
        n <= 255,
    ensures
        octet(dec(n)) == Some(n),
        free_of(dec(n), '.'),
{
    law_a_numeral_is_read_back(n, 10);
    reveal_with_fuel(numeral, 3);
    let s = dec(n);
    if n < 10 {
        assert(s.len() == 1);
    } else if n < 100 {
        assert(n / 10 < 10);
        assert(s.len() == 2);
        assert(s[0] == digit(n / 10));
    } else {
        assert(n / 10 / 10 < 10);
        assert(s.len() == 3);
        assert(s[0] == digit(n / 10 / 10));
    }
    assert forall|i: int| 0 <= i < s.len() implies #[trigger] s[i] != '.' by {
        assert(is_digit(numeral(n, 10)[i]));
    }
}

/// Four bytes are read back from their text, which holds digits and dots alone.
proof fn lemma_v4_read_back(o: Seq<u8>)
    requires
        o.len() == 4,
    ensures
        parse_v4(v4_text(o)) == Some(o),
        free_of(v4_text(o), ':'),
        v4_text(o).len() >= 7,
{
    let d = Seq::new(4, |i: int| dec(o[i] as nat));
    lemma_octet(o[0] as nat);
    lemma_octet(o[1] as nat);
    lemma_octet(o[2] as nat);
    lemma_octet(o[3] as nat);
    assert forall|i: int| 0 <= i < d.len() implies free_of(#[trigger] d[i], '.') by {
        assert(i == 0 || i == 1 || i == 2 || i == 3);
    }
    law_join_then_split(d, '.');
    reveal_strlit(".");
    let dot = seq!['.'];
    assert("."@ =~= dot);
    assert(join(d, dot) =~= v4_text(o)) by {
        reveal_with_fuel(join, 4);
        let d3 = d.drop_last();
        let d2 = d3.drop_last();
        let d1 = d2.drop_last();
        assert(join(d1, dot) == d[0]);
        assert(join(d2, dot) == d[0] + dot + d[1]);
        assert(join(d3, dot) == d[0] + dot + d[1] + dot + d[2]);
    }
    let p = split(v4_text(o), '.');
    assert forall|i: int| 0 <= i < 4 implies #[trigger] octet(p[i]) == Some(o[i] as nat) by {
        assert(i == 0 || i == 1 || i == 2 || i == 3);
    }
    assert(Seq::new(4, |i: int| octet(p[i])->0 as u8) =~= o);
    assert forall|i: int| 0 <= i < d.len() implies free_of(#[trigger] d[i], ':') by {
        law_a_numeral_is_read_back(o[i] as nat, 10);
        assert forall|j: int| 0 <= j < d[i].len() implies #[trigger] d[i][j] != ':' by {
            assert(is_digit(numeral(o[i] as nat, 10)[j]));
        }
    }
    lemma_join_free(d, '.', ':');
}

/// What is joined of pieces without a character has it nowhere.
proof fn lemma_join_free(pieces: Seq<Seq<char>>, sep: char, c: char)
    requires
        sep != c,
        forall|i: int| 0 <= i < pieces.len() ==> free_of(#[trigger] pieces[i], c),
    ensures
        free_of(join(pieces, seq![sep]), c),
    decreases pieces.len(),
{
    if pieces.len() == 1 {
        assert(free_of(pieces[0], c));
    } else if pieces.len() > 1 {
        let t = pieces.drop_last();
        assert forall|i: int| 0 <= i < t.len() implies free_of(#[trigger] t[i], c) by {
            assert(t[i] == pieces[i]);
        }
        lemma_join_free(t, sep, c);
        assert(free_of(pieces[pieces.len() - 1], c));
        let (a, b) = (join(t, seq![sep]), pieces.last());
        let s = a + seq![sep] + b;
        assert forall|i: int| 0 <= i < s.len() implies #[trigger] s[i] != c by {
            if i < a.len() {
                assert(s[i] == a[i]);
            } else if i > a.len() {
                assert(s[i] == b[i - a.len() - 1]);
            }
        }
    }
}

/// A text with a colon is no dotted address.
proof fn lemma_no_v4_with_colon(s: Seq<char>, k: int)
    requires
        0 <= k < s.len(),
        s[k] == ':',
    ensures
        parse_v4(s) is None,
{
    if parse_v4(s) is Some {
        let p = split(s, '.');
        assert forall|i: int| 0 <= i < p.len() implies free_of(#[trigger] p[i], ':') by {
            assert(octet(p[i]) is Some);
            lemma_digits_free(p[i]);
        }
        lemma_join_free(p, '.', ':');
        crate::text::law_split_then_join(s, '.');
    }
}

proof fn lemma_digits_free(s: Seq<char>)
    requires
        digits_value(s, 10) is Some,
    ensures
        free_of(s, ':'),
    decreases s.len(),
{
    if s.len() > 0 {
        let t = s.drop_last();
        lemma_digits_free(t);
        assert forall|i: int| 0 <= i < s.len() implies #[trigger] s[i] != ':' by {
            if i < t.len() {
                assert(s[i] == t[i]);
            }
        }
    }
}

/// An IPv4 address is read back from its text.
pub proof fn law_an_ipv4_address_is_read_back(o: [u8; 4])
    ensures
        parse_ip(IpAddr::V4(o).text()) == Some(IpAddr::V4(o)),
{
    lemma_v4_read_back(o@);
    crate::ip::law_address_bytes_round_trip(IpAddr::V4(o));
}

/// A group is read back between colons.
proof fn lemma_group(n: nat)
    requires
        n <= 0xffff,
    ensures
        group(hex(n)) == Some(n),
        free_of(hex(n), ':'),
        hex(n).len() > 0,
{
    law_a_numeral_is_read_back(n, 16);
    reveal_with_fuel(numeral, 5);
    let s = hex(n);
    assert(s.len() <= 4) by {
        assert(n / 16 <= 0xfff);
        assert(n / 16 / 16 <= 0xff);
        assert(n / 16 / 16 / 16 <= 0xf);
    }
    assert forall|i: int| 0 <= i < s.len() implies #[trigger] s[i] != ':' by {
        assert(is_digit(numeral(n, 16)[i]));
    }
}

/// Whether groups have sixteen bits each.
pub open spec fn are_groups(g: Seq<nat>) -> bool {
    forall|i: int| 0 <= i < g.len() ==> #[trigger] g[i] <= 0xffff
}

spec fn hexes(g: Seq<nat>) -> Seq<Seq<char>> {
    Seq::new(g.len(), |i: int| hex(g[i]))
}

proof fn lemma_parse_groups(g: Seq<nat>, dotted: bool)
    requires
        are_groups(g),
    ensures
        parse_groups(hexes(g), dotted) == Some(g),
    decreases g.len(),
{
    if g.len() == 0 {
        assert(g =~= Seq::empty());
    } else {
        let t = g.drop_last();
        assert(are_groups(t)) by {
            assert forall|i: int| 0 <= i < t.len() implies #[trigger] t[i] <= 0xffff by {
                assert(t[i] == g[i]);
            }
        }
        lemma_parse_groups(t, false);
        assert(hexes(g).drop_last() =~= hexes(t));
        assert(g[g.len() - 1] <= 0xffff);
        lemma_group(g.last());
        assert(t.push(g.last()) =~= g);
    }
}

/// Groups as they are written: none stands beside an empty place, and they are read
/// back.
proof fn lemma_side(g: Seq<nat>, dotted: bool)
    requires
        are_groups(g),
    ensures
        parse_side(groups_text(g), dotted) == Some(g),
        has_no_gap(groups_text(g)),
        g.len() > 0 ==> groups_text(g).len() > 0,
{
    reveal_strlit(":");
    assert(":"@ =~= seq![':']);
    let p = hexes(g);
    assert(groups_text(g) == join(p, seq![':']));
    assert forall|i: int| 0 <= i < p.len() implies free_of(#[trigger] p[i], ':') && p[i].len() > 0 by {
        assert(g[i] <= 0xffff);
        lemma_group(g[i]);
    }
    lemma_joined(p);
    if g.len() > 0 {
        law_join_then_split(p, ':');
        lemma_parse_groups(g, dotted);
    } else {
        assert(g =~= Seq::empty());
    }
}

/// Whether no two colons stand together, and none at either end.
spec fn has_no_gap(s: Seq<char>) -> bool {
    &&& forall|i: int| 0 <= i < s.len() - 1 ==> !(#[trigger] s[i] == ':' && s[i + 1] == ':')
    &&& s.len() > 0 ==> s[0] != ':' && s.last() != ':'
}

proof fn lemma_joined(p: Seq<Seq<char>>)
    requires
        forall|i: int| 0 <= i < p.len() ==> free_of(#[trigger] p[i], ':') && p[i].len() > 0,
    ensures
        has_no_gap(join(p, seq![':'])),
        p.len() > 0 ==> join(p, seq![':']).len() > 0,
    decreases p.len(),
{
    if p.len() == 1 {
        assert(free_of(p[0], ':'));
    } else if p.len() > 1 {
        let t = p.drop_last();
        assert forall|i: int| 0 <= i < t.len() implies free_of(#[trigger] t[i], ':') && t[i].len() > 0 by {
            assert(t[i] == p[i]);
        }
        lemma_joined(t);
        let (a, b) = (join(t, seq![':']), p.last());
        assert(free_of(p[p.len() - 1], ':') && p[p.len() - 1].len() > 0);
        let s = a + seq![':'] + b;
        assert forall|i: int| 0 <= i < s.len() - 1 implies !(#[trigger] s[i] == ':' && s[i + 1] == ':') by {
            if i + 1 < a.len() {
                assert(s[i] == a[i] && s[i + 1] == a[i + 1]);
            } else if i + 1 == a.len() {
                assert(s[i] == a.last());
            } else if i == a.len() {
                assert(s[i + 1] == b[0]);
            } else {
                assert(s[i] == b[i - a.len() - 1]);
            }
        }
        assert(s[0] == a[0]);
        assert(s.last() == b[b.len() - 1]);
    }
}

proof fn lemma_gap(s: Seq<char>, i: int, k: int)
    requires
        0 <= i <= k <= s.len(),
        forall|j: int| i <= j < k && j + 1 < s.len() ==> !(#[trigger] s[j] == ':' && s[j + 1] == ':'),
        k < s.len() ==> k + 1 < s.len() && s[k] == ':' && s[k + 1] == ':',
    ensures
        gap_from(s, i) == k,
    decreases k - i,
{
    if i < k {
        if i + 1 < s.len() {
            assert(!(s[i] == ':' && s[i + 1] == ':'));
        }
        lemma_gap(s, i + 1, k);
    }
}

proof fn lemma_run(g: Seq<nat>, i: int)
    requires
        0 <= i <= g.len(),
    ensures
        i + run_len(g, i) <= g.len(),
        forall|j: int| i <= j < i + run_len(g, i) ==> g[j] == 0,
    decreases g.len() - i,
{
    if i < g.len() && g[i] == 0 {
        lemma_run(g, i + 1);
    }
}

proof fn lemma_longest(g: Seq<nat>, n: nat)
    ensures
        0 <= longest_run(g, n),
        n > 0 ==> longest_run(g, n) < n,
    decreases n,
{
    if n > 0 {
        lemma_longest(g, (n - 1) as nat);
    }
}

/// A mapped address is read back.
proof fn lemma_mapped_read_back(o: Seq<u8>)
    requires
        o.len() == 16,
        is_mapped(o),
    ensures
        parse_v4(v6_text(o)) is None,
        parse_v6(v6_text(o)) == Some(groups(o)),
{
    let s = v6_text(o);
    let g = groups(o);
    let v4 = o.subrange(12, 16);
    lemma_v4_read_back(v4);
    let text = v4_text(v4);
    reveal_strlit("::ffff:");
    assert(s == "::ffff:"@ + text);
    lemma_no_v4_with_colon(s, 0);
    lemma_gap(s, 0, 0);
    assert(s.take(0) =~= Seq::empty());
    let f = seq!['f', 'f', 'f', 'f'];
    let two = seq![f, text];
    assert forall|i: int| 0 <= i < two.len() implies free_of(#[trigger] two[i], ':') by {}
    law_join_then_split(two, ':');
    assert(join(two, seq![':']) =~= f + seq![':'] + text) by {
        reveal_with_fuel(join, 2);
        assert(two.drop_last() =~= seq![f]);
    }
    assert(s.skip(2) =~= f + seq![':'] + text);
    lemma_dotted_side(f, text, v4);
    let b = Seq::<nat>::empty().push(0xffff).push((v4[0] * 256 + v4[1]) as nat).push(
        (v4[2] * 256 + v4[3]) as nat,
    );
    assert(parse_side(s.skip(2), true) == Some(b));
    let e = Seq::<nat>::empty();
    assert(parse_side(s.take(0), false) == Some(e));
    assert(e + Seq::new((8 - e.len() - b.len()) as nat, |k: int| 0nat) + b =~= g) by {
        assert(o[10] == 0xff && o[11] == 0xff);
        assert(0xff * 256 + 0xff == 0xffff);
    }
}

/// A group and a dotted address are read as three groups.
proof fn lemma_dotted_side(f: Seq<char>, text: Seq<char>, v4: Seq<u8>)
    requires
        f == seq!['f', 'f', 'f', 'f'],
        v4.len() == 4,
        text.len() >= 7,
        parse_v4(text) == Some(v4),
    ensures
        parse_groups(seq![f, text], true) == Some(
            Seq::<nat>::empty().push(0xffff).push((v4[0] * 256 + v4[1]) as nat).push(
                (v4[2] * 256 + v4[3]) as nat,
            ),
        ),
{
    assert(group(f) == Some(0xffffnat)) by {
        assert(digit_value('f', 16) == Some(15nat));
        let t3 = f.drop_last();
        let t2 = t3.drop_last();
        let t1 = t2.drop_last();
        assert(t1.drop_last() =~= Seq::empty());
        assert(digits_value(t1.drop_last(), 16) == Some(0nat));
        assert(digits_value(t1, 16) == Some(15nat));
        assert(digits_value(t2, 16) == Some(255nat));
        assert(digits_value(t3, 16) == Some(4095nat));
    }
    let one = seq![f];
    assert(one.drop_last() =~= Seq::empty());
    assert(parse_groups(one.drop_last(), false) == Some(Seq::<nat>::empty()));
    assert(one.last() == f);
    assert(parse_groups(one, false) == Some(Seq::<nat>::empty().push(0xffff)));
    let two = seq![f, text];
    assert(two.drop_last() =~= one);
    assert(two.last() == text);
    assert(group(text) is None);
}

/// An address with a run of zeros left out is read back.
proof fn lemma_run_read_back(g: Seq<nat>, start: int, len: nat, s: Seq<char>)
    requires
        g.len() == 8,
        are_groups(g),
        0 <= start,
        start + len <= 8,
        len > 1,
        forall|j: int| start <= j < start + len ==> g[j] == 0,
        s == groups_text(g.take(start)) + seq![':', ':'] + groups_text(g.skip(start + len)),
    ensures
        parse_v4(s) is None,
        parse_v6(s) == Some(g),
{
    let (a, b) = (g.take(start), g.skip(start + len));
    assert(are_groups(a)) by {
        assert forall|i: int| 0 <= i < a.len() implies #[trigger] a[i] <= 0xffff by {
            assert(a[i] == g[i]);
        }
    }
    assert(are_groups(b)) by {
        assert forall|i: int| 0 <= i < b.len() implies #[trigger] b[i] <= 0xffff by {
            assert(b[i] == g[start + len + i]);
        }
    }
    lemma_side(a, false);
    lemma_side(b, true);
    let left = groups_text(a);
    let k = left.len() as int;
    assert(s[k] == ':' && s[k + 1] == ':');
    lemma_no_v4_with_colon(s, k);
    assert forall|j: int| 0 <= j < k && j + 1 < s.len() implies !(#[trigger] s[j] == ':' && s[j + 1]
        == ':') by {
        if j + 1 < k {
            assert(s[j] == left[j] && s[j + 1] == left[j + 1]);
        } else {
            assert(s[j] == left.last());
        }
    }
    lemma_gap(s, 0, k);
    assert(s.take(k) =~= left);
    assert(s.skip(k + 2) =~= groups_text(b));
    assert(a + Seq::new((8 - a.len() - b.len()) as nat, |i: int| 0nat) + b =~= g);
}

/// An address that is written whole is read back.
proof fn lemma_whole_read_back(g: Seq<nat>)
    requires
        g.len() == 8,
        are_groups(g),
    ensures
        parse_v4(groups_text(g)) is None,
        parse_v6(groups_text(g)) == Some(g),
{
    let s = groups_text(g);
    lemma_side(g, true);
    lemma_gap(s, 0, s.len() as int);
    let p = hexes(g);
    lemma_colon_in(p);
    reveal_strlit(":");
    assert(":"@ =~= seq![':']);
    assert(s == join(p, seq![':']));
    let k = choose|k: int| 0 <= k < join(p, seq![':']).len() && #[trigger] join(p, seq![':'])[k] == ':';
    lemma_no_v4_with_colon(s, k);
}

/// The bytes of groups are the bytes that they were made of.
proof fn lemma_bytes_of_groups(o: Seq<u8>)
    requires
        o.len() == 16,
    ensures
        group_bytes(groups(o)) == o,
{
    let b = group_bytes(groups(o));
    assert forall|k: int| 0 <= k < 16 implies #[trigger] b[k] == o[k] by {
        let i = k / 2;
        let n = o[2 * i] * 256 + o[2 * i + 1];
        assert(0 <= i < 8);
        assert(groups(o)[i] == n);
        assert(n / 256 == o[2 * i] && n % 256 == o[2 * i + 1]);
    }
    assert(b =~= o);
}

proof fn lemma_v6_read_back(o: Seq<u8>)
    requires
        o.len() == 16,
    ensures
        parse_v4(v6_text(o)) is None,
        parse_v6(v6_text(o)) == Some(groups(o)),
{
    if is_mapped(o) {
        lemma_mapped_read_back(o);
    } else {
        let g = groups(o);
        assert forall|i: int| 0 <= i < g.len() implies #[trigger] g[i] <= 0xffff by {
            assert(g[i] == o[2 * i] * 256 + o[2 * i + 1]);
        }
        let start = longest_run(g, 8);
        let len = run_len(g, start);
        lemma_longest(g, 8);
        lemma_run(g, start);
        if len > 1 {
            reveal_strlit("::");
            assert("::"@ =~= seq![':', ':']);
            lemma_run_read_back(g, start, len, v6_text(o));
        } else {
            lemma_whole_read_back(g);
        }
    }
}

/// An IPv6 address is read back from its text: whole, with its longest run of zeros left
/// out, or with an IPv4 address at its end.
pub proof fn law_an_ipv6_address_is_read_back(o: [u8; 16])
    ensures
        parse_ip(IpAddr::V6(o).text()) == Some(IpAddr::V6(o)),
{
    lemma_v6_read_back(o@);
    lemma_bytes_of_groups(o@);
    crate::ip::law_address_bytes_round_trip(IpAddr::V6(o));
    assert(IpAddr::V6(o).text() == v6_text(o@));
    assert(IpAddr::V6(o).octets() == o@);
}

proof fn lemma_colon_in(p: Seq<Seq<char>>)
    requires
        p.len() > 1,
    ensures
        exists|k: int|
            0 <= k < join(p, seq![':']).len() && #[trigger] join(p, seq![':'])[k] == ':',
{
    let a = join(p.drop_last(), seq![':']);
    assert(join(p, seq![':']) == a + seq![':'] + p.last());
    assert(join(p, seq![':'])[a.len() as int] == ':');
}

} // verus!
