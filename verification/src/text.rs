//! Text primitives: decimal and hexadecimal numerals, splitting, trimming and
//! number parsing, each stated over `Seq<char>`.
use vstd::prelude::*;

use crate::seqs::{collect_map, collect_some, first};

verus! {

/// Appends one character.
///
/// `String::push` is documented to append the given character to the end of
/// the string; the contract says exactly that.
pub assume_specification[ String::push ](s: &mut String, c: char)
    ensures
        final(s)@ == old(s)@.push(c),
;

/// What `str::to_lowercase` gives for a text.
pub uninterp spec fn lowercase(s: Seq<char>) -> Seq<char>;

/// The text in lower case, by `str::to_lowercase`, which maps each character
/// by the Unicode tables of the standard library. Its result depends on the
/// text alone; the tables are not stated.
#[verifier::external_body]
pub(crate) fn to_lowercase(s: &str) -> (r: String)
    ensures
        r@ == lowercase(s@),
{
    s.to_lowercase()
}

/// An ASCII capital letter as its small letter, and every other character
/// itself.
pub open spec fn ascii_lower(c: char) -> char {
    if 65 <= c as u32 <= 90 {
        ((c as u32 + 32) as u8) as char
    } else {
        c
    }
}

/// A text with its ASCII capital letters as small letters.
pub open spec fn ascii_lowercase(s: Seq<char>) -> Seq<char> {
    Seq::new(s.len(), |i: int| ascii_lower(s[i]))
}

pub fn to_ascii_lowercase(s: &str) -> (r: String)
    ensures
        r@ == ascii_lowercase(s@),
{
    let chars = to_chars(s);
    let mut r = String::new();
    let mut i: usize = 0;
    while i < chars.len()
        invariant
            i <= chars.len(),
            chars@ == s@,
            r@ == ascii_lowercase(s@).take(i as int),
        decreases chars.len() - i,
    {
        let c = chars[i];
        let n = c as u32;
        if 65 <= n && n <= 90 {
            r.push((n + 32) as u8 as char);
        } else {
            r.push(c);
        }
        i += 1;
        assert(r@ =~= ascii_lowercase(s@).take(i as int));
    }
    assert(r@ =~= ascii_lowercase(s@));
    r
}

/// The contents of a list of strings.
pub open spec fn texts(v: Seq<String>) -> Seq<Seq<char>> {
    Seq::new(v.len(), |i: int| v[i]@)
}

/// What a string says.
pub open spec fn told() -> spec_fn(String) -> Seq<char> {
    |s: String| s@
}

/// The same texts.
pub(crate) fn copy_texts(v: &Vec<String>) -> (r: Vec<String>)
    ensures
        texts(r@) == texts(v@),
{
    let mut r: Vec<String> = Vec::new();
    let mut i: usize = 0;
    while i < v.len()
        invariant
            i <= v.len(),
            r.len() == i,
            forall|k: int| 0 <= k < i ==> (#[trigger] r@[k])@ == v@[k]@,
        decreases v.len() - i,
    {
        r.push(v[i].clone());
        i += 1;
    }
    assert(texts(r@) =~= texts(v@));
    r
}

/// The characters of a string, as a vector that can be indexed.
pub fn to_chars(s: &str) -> (r: Vec<char>)
    ensures
        r@ == s@,
{
    let mut r: Vec<char> = Vec::new();
    for c in it: s.chars()
        invariant
            r@ == s@.take(it.index()),
            it.seq() == s@,
    {
        r.push(c);
        assert(s@.take(it.index() + 1) =~= s@.take(it.index()).push(s@[it.index()]));
    }
    assert(s@.take(s@.len() as int) =~= s@);
    r
}

/// The string that holds the characters `v[from..to]`.
pub fn from_chars(v: &Vec<char>, from: usize, to: usize) -> (r: String)
    requires
        from <= to <= v.len(),
    ensures
        r@ == v@.subrange(from as int, to as int),
{
    let mut r = String::new();
    let mut i: usize = from;
    while i < to
        invariant
            from <= i <= to <= v.len(),
            r@ == v@.subrange(from as int, i as int),
        decreases to - i,
    {
        r.push(v[i]);
        i += 1;
        assert(v@.subrange(from as int, i as int) =~= v@.subrange(from as int, i - 1).push(
            v@[i - 1],
        ));
    }
    r
}

/// Whether two strings hold the same characters.
pub fn same(a: &str, b: &str) -> (r: bool)
    ensures
        r == (a@ == b@),
{
    String::from_str(a) == String::from_str(b)
}

/// How a truth value is written.
pub open spec fn truth(b: bool) -> Seq<char> {
    if b {
        "true"@
    } else {
        "false"@
    }
}

pub fn truth_str(b: bool) -> (r: &'static str)
    ensures
        r@ == truth(b),
{
    if b {
        "true"
    } else {
        "false"
    }
}

/// Whether a string is empty.
pub fn is_empty(s: &str) -> (r: bool)
    ensures
        r == (s@.len() == 0),
{
    s.unicode_len() == 0
}

/// Whether a string is one of a list.
pub fn contains_text(list: &Vec<String>, s: &str) -> (r: bool)
    ensures
        r == texts(list@).contains(s@),
{
    let mut i: usize = 0;
    while i < list.len()
        invariant
            i <= list.len(),
            forall|j: int| 0 <= j < i ==> texts(list@)[j] != s@,
        decreases list.len() - i,
    {
        if same(list[i].as_str(), s) {
            assert(texts(list@)[i as int] == s@);
            return true;
        }
        i += 1;
    }
    false
}

// ---- Numerals ---------------------------------------------------------------

/// The character of a digit below sixteen, lower case.
pub open spec fn digit(d: nat) -> char {
    if d < 10 {
        ((48 + d) as u8) as char
    } else {
        ((87 + d) as u8) as char
    }
}

/// The numeral of `n` in base `b`, most significant digit first and without
/// leading zeros.
pub open spec fn numeral(n: nat, b: nat) -> Seq<char>
    decreases n,
{
    if b < 2 || n < b {
        seq![digit(n)]
    } else {
        proof {
            assert(n / b < n) by (nonlinear_arith)
                requires
                    b >= 2,
                    n >= b,
            ;
        }
        numeral(n / b, b).push(digit(n % b))
    }
}

/// The decimal numeral of a natural number.
pub open spec fn dec(n: nat) -> Seq<char> {
    numeral(n, 10)
}

/// The lower-case hexadecimal numeral of a natural number.
pub open spec fn hex(n: nat) -> Seq<char> {
    numeral(n, 16)
}

/// The decimal numeral of an integer, with a minus sign where it is negative.
pub open spec fn sdec(n: int) -> Seq<char> {
    if n < 0 {
        seq!['-'] + dec((-n) as nat)
    } else {
        dec(n as nat)
    }
}

/// A numeral with zeros put in front until it is at least `width` long.
pub open spec fn zero_padded(s: Seq<char>, width: nat) -> Seq<char> {
    if s.len() < width {
        Seq::new((width - s.len()) as nat, |i: int| '0') + s
    } else {
        s
    }
}

/// The character of a digit below sixteen.
pub fn digit_char(d: u8) -> (r: char)
    requires
        d < 16,
    ensures
        r == digit(d as nat),
{
    if d < 10 {
        (48 + d) as char
    } else {
        (87 + d) as char
    }
}

/// The numeral of `n` in base `b`.
pub fn numeral_string(n: u64, b: u64) -> (r: String)
    requires
        2 <= b <= 16,
    ensures
        r@ == numeral(n as nat, b as nat),
    decreases n,
{
    if n < b {
        let mut s = String::new();
        s.push(digit_char(n as u8));
        assert(s@ =~= seq![digit(n as nat)]);
        s
    } else {
        assert(n / b < n) by (nonlinear_arith)
            requires
                b >= 2,
                n >= b,
        ;
        let mut s = numeral_string(n / b, b);
        s.push(digit_char((n % b) as u8));
        s
    }
}

/// The decimal numeral of `n`.
pub fn dec_string(n: u64) -> (r: String)
    ensures
        r@ == dec(n as nat),
{
    numeral_string(n, 10)
}

/// The hexadecimal numeral of `n`.
pub fn hex_string(n: u64) -> (r: String)
    ensures
        r@ == hex(n as nat),
{
    numeral_string(n, 16)
}

/// The decimal numeral of a signed number.
pub fn sdec_string(n: i64) -> (r: String)
    ensures
        r@ == sdec(n as int),
{
    if n < 0 {
        let mut s = String::new();
        s.push('-');
        assert(s@ =~= seq!['-']);
        let m: u64 = if n == i64::MIN {
            0x8000_0000_0000_0000
        } else {
            (-n) as u64
        };
        s.append(dec_string(m).as_str());
        s
    } else {
        dec_string(n as u64)
    }
}

/// Puts zeros in front of a numeral until it is at least `width` long.
pub fn zero_pad(s: &str, width: usize) -> (r: String)
    ensures
        r@ == zero_padded(s@, width as nat),
{
    let n = s.unicode_len();
    let mut r = String::new();
    if n >= width {
        r.append(s);
        assert(r@ =~= s@);
        return r;
    }
    let mut i: usize = n;
    while i < width
        invariant
            n <= i <= width,
            r@ == Seq::new((i - n) as nat, |k: int| '0'),
        decreases width - i,
    {
        r.push('0');
        i += 1;
        assert(r@ =~= Seq::new((i - n) as nat, |k: int| '0'));
    }
    r.append(s);
    r
}

/// A text with spaces behind it, up to a width.
pub open spec fn padded(s: Seq<char>, width: nat) -> Seq<char> {
    if s.len() >= width {
        s
    } else {
        s + Seq::new((width - s.len()) as nat, |i: int| ' ')
    }
}

pub fn pad_right(s: &str, width: usize) -> (r: String)
    ensures
        r@ == padded(s@, width as nat),
{
    let mut r = String::from_str(s);
    let mut n = to_chars(s).len();
    let ghost len = n;
    while n < width
        invariant
            len == s@.len(),
            len <= n,
            n <= width || n == len,
            r@ == s@ + Seq::new((n - len) as nat, |i: int| ' '),
        decreases width - n,
    {
        let ghost before = r@;
        r.push(' ');
        n += 1;
        assert(r@ =~= s@ + Seq::new((n - len) as nat, |i: int| ' '));
    }
    assert(r@ =~= padded(s@, width as nat));
    r
}

// ---- Splitting --------------------------------------------------------------

/// The pieces of `s` between occurrences of `sep`; one piece more than there
/// are separators.
pub open spec fn split(s: Seq<char>, sep: char) -> Seq<Seq<char>>
    decreases s.len(),
{
    if s.len() == 0 {
        seq![Seq::empty()]
    } else {
        let before = split(s.drop_last(), sep);
        if s.last() == sep {
            before.push(Seq::empty())
        } else {
            before.drop_last().push(before.last().push(s.last()))
        }
    }
}

/// The pieces put together again, with `sep` between each two.
pub open spec fn join(pieces: Seq<Seq<char>>, sep: Seq<char>) -> Seq<char>
    decreases pieces.len(),
{
    if pieces.len() == 0 {
        Seq::empty()
    } else if pieces.len() == 1 {
        pieces[0]
    } else {
        join(pieces.drop_last(), sep) + sep + pieces.last()
    }
}

/// The strings put together, with `sep` between each two.
pub fn join_texts(pieces: &Vec<String>, sep: &str) -> (r: String)
    ensures
        r@ == join(texts(pieces@), sep@),
{
    let mut r = String::new();
    let ghost all = texts(pieces@);
    let mut i: usize = 0;
    while i < pieces.len()
        invariant
            i <= pieces.len(),
            all == texts(pieces@),
            r@ == join(all.take(i as int), sep@),
        decreases pieces.len() - i,
    {
        assert(all.take(i + 1).drop_last() =~= all.take(i as int));
        if i == 0 {
            r = pieces[i].clone();
        } else {
            r.append(sep);
            r.append(pieces[i].as_str());
        }
        i += 1;
    }
    assert(all.take(all.len() as int) =~= all);
    r
}

proof fn lemma_split_nonempty(s: Seq<char>, sep: char)
    ensures
        split(s, sep).len() >= 1,
    decreases s.len(),
{
    if s.len() > 0 {
        lemma_split_nonempty(s.drop_last(), sep);
    }
}

/// Splitting loses nothing: the pieces joined by the separator are the text.
pub proof fn law_split_then_join(s: Seq<char>, sep: char)
    ensures
        join(split(s, sep), seq![sep]) == s,
    decreases s.len(),
{
    reveal_with_fuel(join, 2);
    if s.len() > 0 {
        let before = split(s.drop_last(), sep);
        lemma_split_nonempty(s.drop_last(), sep);
        law_split_then_join(s.drop_last(), sep);
        if s.last() == sep {
            let all = before.push(Seq::empty());
            assert(all.drop_last() =~= before);
            assert(join(all, seq![sep]) =~= s);
        } else {
            let all = before.drop_last().push(before.last().push(s.last()));
            if before.len() == 1 {
                assert(join(all, seq![sep]) =~= s);
            } else {
                assert(all.drop_last() =~= before.drop_last());
                assert(join(all, seq![sep]) =~= join(before, seq![sep]).push(s.last()));
                assert(join(all, seq![sep]) =~= s);
            }
        }
    }
}

/// The pieces of `s` between occurrences of `sep`.
pub fn split_text(s: &str, sep: char) -> (r: Vec<String>)
    ensures
        texts(r@) == split(s@, sep),
        r.len() >= 1,
{
    let chars = to_chars(s);
    let mut done: Vec<String> = Vec::new();
    let mut piece = String::new();
    let mut i: usize = 0;
    proof {
        assert(s@.take(0) =~= Seq::empty());
        assert(texts(done@).push(piece@) =~= split(s@.take(0), sep));
    }
    while i < chars.len()
        invariant
            i <= chars.len(),
            chars@ == s@,
            texts(done@).push(piece@) == split(s@.take(i as int), sep),
        decreases chars.len() - i,
    {
        let c = chars[i];
        assert(s@.take(i + 1).drop_last() =~= s@.take(i as int));
        let ghost before = texts(done@).push(piece@);
        if c == sep {
            done.push(piece);
            piece = String::new();
            assert(texts(done@) =~= before);
            assert(texts(done@).push(piece@) =~= before.push(Seq::empty()));
        } else {
            piece.push(c);
            assert(texts(done@) =~= before.drop_last());
        }
        i += 1;
    }
    assert(s@.take(s@.len() as int) =~= s@);
    let ghost all = texts(done@).push(piece@);
    done.push(piece);
    assert(texts(done@) =~= all);
    done
}

/// A line with the carriage return in front of its line feed taken off.
pub open spec fn without_cr(line: Seq<char>) -> Seq<char> {
    if line.len() > 0 && line.last() == '\r' {
        line.drop_last()
    } else {
        line
    }
}

/// The lines of a text. A line ends with a line feed, which may have a
/// carriage return in front of it; the last line may have no ending.
pub open spec fn lines(s: Seq<char>) -> Seq<Seq<char>> {
    let pieces = split(s, '\n');
    let ended = Seq::new((pieces.len() - 1) as nat, |i: int| without_cr(pieces[i]));
    if pieces.last().len() == 0 {
        ended
    } else {
        ended.push(pieces.last())
    }
}

fn drop_cr(line: &str) -> (r: String)
    ensures
        r@ == without_cr(line@),
{
    let chars = to_chars(line);
    let n = chars.len();
    if n > 0 && chars[n - 1] == '\r' {
        let r = from_chars(&chars, 0, n - 1);
        assert(r@ =~= line@.drop_last());
        r
    } else {
        String::from_str(line)
    }
}

/// The lines of a text.
pub fn lines_of(s: &str) -> (r: Vec<String>)
    ensures
        texts(r@) == lines(s@),
{
    let pieces = split_text(s, '\n');
    let ghost spec_pieces = split(s@, '\n');
    let mut r: Vec<String> = Vec::new();
    let last = pieces.len() - 1;
    let mut i: usize = 0;
    while i < last
        invariant
            i <= last,
            last == pieces.len() - 1,
            texts(pieces@) == spec_pieces,
            texts(r@) == Seq::new(i as nat, |k: int| without_cr(spec_pieces[k])),
        decreases last - i,
    {
        let ghost before = texts(r@);
        let piece = drop_cr(pieces[i].as_str());
        assert(piece@ == without_cr(spec_pieces[i as int]));
        r.push(piece);
        i += 1;
        assert(texts(r@) =~= before.push(without_cr(spec_pieces[i - 1])));
        assert(texts(r@) =~= Seq::new(i as nat, |k: int| without_cr(spec_pieces[k])));
    }
    let ghost ended = texts(r@);
    if pieces[last].unicode_len() > 0 {
        let p = pieces[last].clone();
        assert(p@ == spec_pieces.last());
        r.push(p);
        assert(texts(r@) =~= ended.push(spec_pieces.last()));
    }
    r
}

// ---- White space ------------------------------------------------------------

/// The characters with the Unicode property White_Space.
pub open spec fn is_space(c: char) -> bool {
    let n = c as u32;
    9 <= n <= 13 || n == 0x20 || n == 0x85 || n == 0xa0 || n == 0x1680 || 0x2000 <= n <= 0x200a || n
        == 0x2028 || n == 0x2029 || n == 0x202f || n == 0x205f || n == 0x3000
}

pub fn space(c: char) -> (r: bool)
    ensures
        r == is_space(c),
{
    let n = c as u32;
    (9 <= n && n <= 13) || n == 0x20 || n == 0x85 || n == 0xa0 || n == 0x1680 || (0x2000 <= n && n
        <= 0x200a) || n == 0x2028 || n == 0x2029 || n == 0x202f || n == 0x205f || n == 0x3000
}

/// `s` without the white space at its start.
pub open spec fn trim_start(s: Seq<char>) -> Seq<char>
    decreases s.len(),
{
    if s.len() > 0 && is_space(s[0]) {
        trim_start(s.skip(1))
    } else {
        s
    }
}

/// `s` without the white space at its end.
pub open spec fn trim_end(s: Seq<char>) -> Seq<char>
    decreases s.len(),
{
    if s.len() > 0 && is_space(s.last()) {
        trim_end(s.drop_last())
    } else {
        s
    }
}

/// `s` without the white space at its two ends.
pub open spec fn trim(s: Seq<char>) -> Seq<char> {
    trim_end(trim_start(s))
}

pub fn trim_text(s: &str) -> (r: String)
    ensures
        r@ == trim(s@),
{
    let chars = to_chars(s);
    let mut i: usize = 0;
    assert(s@.skip(0) =~= s@);
    while i < chars.len() && space(chars[i])
        invariant
            i <= chars.len(),
            chars@ == s@,
            trim_start(s@.skip(i as int)) == trim_start(s@),
        decreases chars.len() - i,
    {
        assert(s@.skip(i as int).skip(1) =~= s@.skip(i + 1));
        i += 1;
    }
    let ghost mid = s@.skip(i as int);
    assert(trim_start(s@) == mid);
    let mut j: usize = chars.len();
    assert(s@.subrange(i as int, j as int) =~= mid);
    while j > i && space(chars[j - 1])
        invariant
            i <= j <= chars.len(),
            chars@ == s@,
            trim_end(s@.subrange(i as int, j as int)) == trim_end(mid),
        decreases j,
    {
        assert(s@.subrange(i as int, j as int).drop_last() =~= s@.subrange(i as int, j - 1));
        j -= 1;
    }
    from_chars(&chars, i, j)
}

/// The words of a text: its longest pieces without white space.
pub open spec fn words(s: Seq<char>) -> Seq<Seq<char>> {
    words_and_rest(s).0 + if words_and_rest(s).1.len() == 0 {
        Seq::<Seq<char>>::empty()
    } else {
        seq![words_and_rest(s).1]
    }
}

/// The words of `s` that white space ends, and the unfinished word behind them.
pub open spec fn words_and_rest(s: Seq<char>) -> (Seq<Seq<char>>, Seq<char>)
    decreases s.len(),
{
    if s.len() == 0 {
        (Seq::empty(), Seq::empty())
    } else {
        let (done, word) = words_and_rest(s.drop_last());
        if !is_space(s.last()) {
            (done, word.push(s.last()))
        } else if word.len() == 0 {
            (done, word)
        } else {
            (done.push(word), Seq::empty())
        }
    }
}

pub fn words_of(s: &str) -> (r: Vec<String>)
    ensures
        texts(r@) == words(s@),
{
    let chars = to_chars(s);
    let mut done: Vec<String> = Vec::new();
    let mut word = String::new();
    let mut i: usize = 0;
    proof {
        assert(s@.take(0) =~= Seq::empty());
        assert(texts(done@) =~= Seq::empty());
    }
    while i < chars.len()
        invariant
            i <= chars.len(),
            chars@ == s@,
            (texts(done@), word@) == words_and_rest(s@.take(i as int)),
        decreases chars.len() - i,
    {
        let c = chars[i];
        assert(s@.take(i + 1).drop_last() =~= s@.take(i as int));
        let ghost before = texts(done@);
        if !space(c) {
            word.push(c);
        } else if word.unicode_len() > 0 {
            let ghost w = word@;
            done.push(word);
            word = String::new();
            assert(texts(done@) =~= before.push(w));
        }
        i += 1;
    }
    assert(s@.take(s@.len() as int) =~= s@);
    let ghost before = texts(done@);
    if word.unicode_len() > 0 {
        let ghost w = word@;
        done.push(word);
        assert(texts(done@) =~= before + seq![w]);
    } else {
        assert(texts(done@) =~= before + Seq::<Seq<char>>::empty());
    }
    done
}

// ---- Prefixes and searching -------------------------------------------------

/// Whether `s` begins with `p`.
pub open spec fn starts_with(s: Seq<char>, p: Seq<char>) -> bool {
    p.len() <= s.len() && s.take(p.len() as int) == p
}

/// Whether `p` stands in `s` at position `i`.
pub open spec fn occurs_at(s: Seq<char>, p: Seq<char>, i: int) -> bool {
    0 <= i && i + p.len() <= s.len() && s.subrange(i, i + p.len()) == p
}

/// Whether `p` stands anywhere in `s`.
pub open spec fn occurs_in(s: Seq<char>, p: Seq<char>) -> bool {
    exists|i: int| occurs_at(s, p, i)
}

fn matches_at(s: &Vec<char>, p: &Vec<char>, at: usize) -> (r: bool)
    requires
        at <= s.len(),
    ensures
        r == occurs_at(s@, p@, at as int),
{
    if p.len() > s.len() - at {
        return false;
    }
    let mut i: usize = 0;
    while i < p.len()
        invariant
            i <= p.len(),
            at + p.len() <= s.len(),
            forall|k: int| 0 <= k < i ==> s@[at + k] == p@[k],
        decreases p.len() - i,
    {
        if s[at + i] != p[i] {
            assert(s@.subrange(at as int, at + p.len())[i as int] != p@[i as int]);
            return false;
        }
        i += 1;
    }
    assert(s@.subrange(at as int, at + p.len()) =~= p@);
    true
}

pub fn text_starts_with(s: &str, p: &str) -> (r: bool)
    ensures
        r == starts_with(s@, p@),
{
    assert(forall|k: int| 0 <= k <= s@.len() ==> s@.subrange(0, k) =~= #[trigger] s@.take(k));
    let r = matches_at(&to_chars(s), &to_chars(p), 0);
    r
}

pub fn text_contains(s: &str, p: &str) -> (r: bool)
    ensures
        r == occurs_in(s@, p@),
{
    let a = to_chars(s);
    let b = to_chars(p);
    let mut i: usize = 0;
    loop
        invariant
            i <= a.len(),
            a@ == s@,
            b@ == p@,
            forall|k: int| 0 <= k < i ==> !occurs_at(s@, p@, k),
        decreases a.len() - i,
    {
        if matches_at(&a, &b, i) {
            return true;
        }
        if i == a.len() {
            return false;
        }
        i += 1;
    }
}

/// The place of the first `c` at `i` or after it, or the length of the text.
pub open spec fn place_from(s: Seq<char>, c: char, i: int) -> int
    decreases s.len() - i,
{
    if i >= s.len() {
        s.len() as int
    } else if s[i] == c {
        i
    } else {
        place_from(s, c, i + 1)
    }
}

/// What stands before the first `c` and what stands behind it.
pub open spec fn split_once(s: Seq<char>, c: char) -> Option<(Seq<char>, Seq<char>)> {
    let i = place_from(s, c, 0);
    if i < s.len() {
        Some((s.take(i), s.skip(i + 1)))
    } else {
        None
    }
}

pub fn split_text_once(s: &str, c: char) -> (r: Option<(String, String)>)
    ensures
        match r {
            Some((a, b)) => split_once(s@, c) == Some((a@, b@)),
            None => split_once(s@, c) is None,
        },
{
    let chars = to_chars(s);
    let mut i: usize = 0;
    while i < chars.len() && chars[i] != c
        invariant
            i <= chars.len(),
            chars@ == s@,
            place_from(s@, c, 0) == place_from(s@, c, i as int),
        decreases chars.len() - i,
    {
        i += 1;
    }
    if i == chars.len() {
        return None;
    }
    let before = from_chars(&chars, 0, i);
    let after = from_chars(&chars, i + 1, chars.len());
    assert(before@ =~= s@.take(i as int));
    assert(after@ =~= s@.skip(i + 1));
    Some((before, after))
}

/// What stands behind a prefix.
pub open spec fn strip_prefix(s: Seq<char>, p: Seq<char>) -> Option<Seq<char>> {
    if starts_with(s, p) {
        Some(s.skip(p.len() as int))
    } else {
        None
    }
}

pub fn strip_text_prefix(s: &str, p: &str) -> (r: Option<String>)
    ensures
        match r {
            Some(rest) => strip_prefix(s@, p@) == Some(rest@),
            None => strip_prefix(s@, p@) is None,
        },
{
    if !text_starts_with(s, p) {
        return None;
    }
    let chars = to_chars(s);
    let n = p.unicode_len();
    let rest = from_chars(&chars, n, chars.len());
    assert(rest@ =~= s@.skip(n as int));
    Some(rest)
}

/// `s` without the characters `c` at its start.
pub open spec fn trim_start_of(s: Seq<char>, c: char) -> Seq<char>
    decreases s.len(),
{
    if s.len() > 0 && s[0] == c {
        trim_start_of(s.skip(1), c)
    } else {
        s
    }
}

/// `s` without the characters `c` at its end.
pub open spec fn trim_end_of(s: Seq<char>, c: char) -> Seq<char>
    decreases s.len(),
{
    if s.len() > 0 && s.last() == c {
        trim_end_of(s.drop_last(), c)
    } else {
        s
    }
}

/// `s` without the characters `a` at its start and `b` at its end.
pub fn trim_marks(s: &str, a: char, b: char) -> (r: String)
    ensures
        r@ == trim_end_of(trim_start_of(s@, a), b),
{
    let chars = to_chars(s);
    let mut i: usize = 0;
    assert(s@.skip(0) =~= s@);
    while i < chars.len() && chars[i] == a
        invariant
            i <= chars.len(),
            chars@ == s@,
            trim_start_of(s@.skip(i as int), a) == trim_start_of(s@, a),
        decreases chars.len() - i,
    {
        assert(s@.skip(i as int).skip(1) =~= s@.skip(i + 1));
        i += 1;
    }
    let ghost mid = s@.skip(i as int);
    assert(trim_start_of(s@, a) == mid);
    let mut j: usize = chars.len();
    assert(s@.subrange(i as int, j as int) =~= mid);
    while j > i && chars[j - 1] == b
        invariant
            i <= j <= chars.len(),
            chars@ == s@,
            trim_end_of(s@.subrange(i as int, j as int), b) == trim_end_of(mid, b),
        decreases j,
    {
        assert(s@.subrange(i as int, j as int).drop_last() =~= s@.subrange(i as int, j - 1));
        j -= 1;
    }
    from_chars(&chars, i, j)
}

// ---- Order ------------------------------------------------------------------

/// Whether `a` comes before `b` in the lexicographic order of code points.
pub open spec fn precedes(a: Seq<char>, b: Seq<char>) -> bool
    decreases a.len(),
{
    if b.len() == 0 {
        false
    } else if a.len() == 0 {
        true
    } else if a[0] == b[0] {
        precedes(a.skip(1), b.skip(1))
    } else {
        (a[0] as u32) < (b[0] as u32)
    }
}

pub fn text_precedes(a: &str, b: &str) -> (r: bool)
    ensures
        r == precedes(a@, b@),
{
    let x = to_chars(a);
    let y = to_chars(b);
    let mut i: usize = 0;
    assert(a@.skip(0) =~= a@);
    assert(b@.skip(0) =~= b@);
    loop
        invariant
            i <= x.len(),
            i <= y.len(),
            x@ == a@,
            y@ == b@,
            precedes(a@, b@) == precedes(a@.skip(i as int), b@.skip(i as int)),
        decreases x.len() - i,
    {
        if i == y.len() {
            return false;
        }
        if i == x.len() {
            return true;
        }
        if x[i] != y[i] {
            return (x[i] as u32) < (y[i] as u32);
        }
        assert(a@.skip(i as int).skip(1) =~= a@.skip(i + 1));
        assert(b@.skip(i as int).skip(1) =~= b@.skip(i + 1));
        i += 1;
    }
}

/// Different characters have different code points.
proof fn lemma_code_points(a: char, b: char)
    ensures
        a != b ==> a as u32 != b as u32,
{
}

/// Of two different texts exactly one precedes the other, and no text precedes
/// itself.
pub proof fn lemma_precedes_total(a: Seq<char>, b: Seq<char>)
    ensures
        a != b ==> precedes(a, b) != precedes(b, a),
        a == b ==> !precedes(a, b),
    decreases a.len(),
{
    if a.len() > 0 && b.len() > 0 && a[0] == b[0] {
        lemma_precedes_total(a.skip(1), b.skip(1));
        if a.skip(1) == b.skip(1) {
            assert(a =~= seq![a[0]] + a.skip(1));
            assert(b =~= seq![b[0]] + b.skip(1));
        }
    } else if a.len() == 0 && b.len() == 0 {
        assert(a =~= b);
    } else if a.len() > 0 && b.len() > 0 {
        lemma_code_points(a[0], b[0]);
    }
}

/// What precedes a text precedes everything that the text precedes.
pub proof fn lemma_precedes_transitive(a: Seq<char>, b: Seq<char>, c: Seq<char>)
    requires
        precedes(a, b),
        precedes(b, c),
    ensures
        precedes(a, c),
    decreases a.len(),
{
    if a.len() > 0 && a[0] == b[0] && b[0] == c[0] {
        lemma_precedes_transitive(a.skip(1), b.skip(1), c.skip(1));
    }
}

/// Ascending texts with `x` in them.
pub open spec fn with_text(s: Seq<Seq<char>>, x: Seq<char>) -> Seq<Seq<char>>
    decreases s.len(),
{
    if s.len() == 0 || precedes(s.last(), x) {
        s.push(x)
    } else if s.last() == x {
        s
    } else {
        with_text(s.drop_last(), x).push(s.last())
    }
}

/// The texts of a list in ascending order, each once.
pub open spec fn distinct_texts(s: Seq<Seq<char>>) -> Seq<Seq<char>>
    decreases s.len(),
{
    if s.len() == 0 {
        Seq::empty()
    } else {
        with_text(distinct_texts(s.drop_last()), s.last())
    }
}

/// Whether each text precedes the next ones.
pub open spec fn ascending_texts(s: Seq<Seq<char>>) -> bool {
    forall|i: int, j: int| 0 <= i < j < s.len() ==> precedes(#[trigger] s[i], #[trigger] s[j])
}

proof fn lemma_with_text(s: Seq<Seq<char>>, x: Seq<char>)
    requires
        ascending_texts(s),
    ensures
        ascending_texts(with_text(s, x)),
        forall|y: Seq<char>| #[trigger] with_text(s, x).contains(y) <==> y == x || s.contains(y),
    decreases s.len(),
{
    let r = with_text(s, x);
    if s.len() == 0 || precedes(s.last(), x) {
        assert forall|i: int, j: int| 0 <= i < j < r.len() implies precedes(
            #[trigger] r[i],
            #[trigger] r[j],
        ) by {
            if j == s.len() && i < s.len() - 1 {
                assert(precedes(s[i], s[s.len() - 1]));
                lemma_precedes_transitive(s[i], s.last(), x);
            }
        }
        assert forall|y: Seq<char>| #[trigger] r.contains(y) <==> y == x || s.contains(y) by {
            if y == x {
                assert(r[s.len() as int] == x);
            }
            if s.contains(y) {
                let k = choose|k: int| 0 <= k < s.len() && s[k] == y;
                assert(r[k] == y);
            }
        }
    } else if s.last() == x {
        assert(s[s.len() - 1] == x);
    } else {
        let front = s.drop_last();
        let q = with_text(front, x);
        lemma_with_text(front, x);
        lemma_precedes_total(s.last(), x);
        assert forall|i: int, j: int| 0 <= i < j < r.len() implies precedes(
            #[trigger] r[i],
            #[trigger] r[j],
        ) by {
            if j == q.len() {
                assert(q.contains(q[i]));
                if q[i] != x {
                    let k = choose|k: int| 0 <= k < front.len() && front[k] == q[i];
                    assert(precedes(s[k], s[s.len() - 1]));
                }
            } else {
                assert(r[i] == q[i] && r[j] == q[j]);
            }
        }
        assert forall|y: Seq<char>| #[trigger] r.contains(y) <==> y == x || s.contains(y) by {
            if r.contains(y) {
                let k = choose|k: int| 0 <= k < r.len() && r[k] == y;
                if k < q.len() {
                    assert(q[k] == y);
                    assert(q.contains(y));
                    if y != x {
                        let m = choose|m: int| 0 <= m < front.len() && front[m] == y;
                        assert(s[m] == y);
                    }
                } else {
                    assert(s[s.len() - 1] == y);
                }
            }
            if y == x || s.contains(y) {
                if y == s.last() {
                    assert(r[q.len() as int] == y);
                } else {
                    if y != x {
                        let m = choose|m: int| 0 <= m < s.len() && s[m] == y;
                        assert(front[m] == y);
                    }
                    assert(q.contains(y));
                    let k = choose|k: int| 0 <= k < q.len() && q[k] == y;
                    assert(r[k] == y);
                }
            }
        }
    }
}

/// The distinct texts of a list are those that occur in it, in ascending
/// order.
pub proof fn law_distinct_texts(s: Seq<Seq<char>>)
    ensures
        ascending_texts(distinct_texts(s)),
        forall|y: Seq<char>| #[trigger] distinct_texts(s).contains(y) <==> s.contains(y),
    decreases s.len(),
{
    if s.len() > 0 {
        let front = s.drop_last();
        law_distinct_texts(front);
        lemma_with_text(distinct_texts(front), s.last());
        assert forall|y: Seq<char>| #[trigger] distinct_texts(s).contains(y) <==> s.contains(y) by {
            if s.contains(y) {
                let k = choose|k: int| 0 <= k < s.len() && s[k] == y;
                if k < front.len() {
                    assert(front[k] == y);
                }
            }
            if front.contains(y) {
                let k = choose|k: int| 0 <= k < front.len() && front[k] == y;
                assert(s[k] == y);
            }
            if y == s.last() {
                assert(s[s.len() - 1] == y);
            }
        }
    }
}

proof fn lemma_text_place(s: Seq<Seq<char>>, x: Seq<char>, p: int)
    requires
        0 <= p <= s.len(),
        forall|k: int| p <= k < s.len() ==> !precedes(#[trigger] s[k], x) && s[k] != x,
        p > 0 ==> precedes(s[p - 1], x) || s[p - 1] == x,
    ensures
        with_text(s, x) == if p > 0 && s[p - 1] == x {
            s
        } else {
            s.insert(p, x)
        },
    decreases s.len(),
{
    if p < s.len() {
        lemma_text_place(s.drop_last(), x, p);
        assert(!precedes(s[s.len() - 1], x));
        if p > 0 && s[p - 1] == x {
            assert(s.drop_last().push(s.last()) =~= s);
        } else {
            assert(s.drop_last().insert(p, x).push(s.last()) =~= s.insert(p, x));
        }
    } else {
        if p > 0 {
            lemma_precedes_total(x, x);
        }
        assert(s.push(x) =~= s.insert(p, x));
    }
}

/// The texts of a list in ascending order, each once.
pub fn sort_dedup_texts(v: Vec<String>) -> (r: Vec<String>)
    ensures
        texts(r@) == distinct_texts(texts(v@)),
{
    let ghost all = texts(v@);
    let mut out: Vec<String> = Vec::new();
    assert(all.take(0) =~= Seq::empty());
    assert(texts(out@) =~= Seq::empty());
    for x in it: v
        invariant
            all.len() == it.seq().len(),
            all == texts(it.seq()),
            texts(out@) == distinct_texts(all.take(it.index())),
    {
        let ghost i = it.index();
        assert(all.take(i + 1).drop_last() =~= all.take(i));
        assert(all[i] == x@);
        let ghost s = texts(out@);
        let mut p: usize = out.len();
        while p > 0 && text_precedes(x.as_str(), out[p - 1].as_str())
            invariant
                p <= out.len(),
                s == texts(out@),
                forall|k: int| p <= k < s.len() ==> !precedes(#[trigger] s[k], x@) && s[k] != x@,
            decreases p,
        {
            proof {
                lemma_precedes_total(x@, s[p - 1]);
            }
            p -= 1;
        }
        proof {
            if p > 0 {
                lemma_precedes_total(x@, s[p - 1]);
            }
            lemma_text_place(s, x@, p as int);
        }
        let known = p > 0 && same(out[p - 1].as_str(), x.as_str());
        if !known {
            let ghost t = x@;
            out.insert(p, x);
            assert(texts(out@) =~= s.insert(p as int, t));
        }
    }
    assert(all.take(all.len() as int) =~= all);
    out
}

// ---- Parsing numbers --------------------------------------------------------

/// The value of a digit in base `b`, if the character is one.
pub open spec fn digit_value(c: char, b: nat) -> Option<nat> {
    let n = c as u32;
    let v: int = if 48 <= n <= 57 {
        n - 48
    } else if 97 <= n <= 122 {
        n - 87
    } else if 65 <= n <= 90 {
        n - 55
    } else {
        99
    };
    if v < b {
        Some(v as nat)
    } else {
        None
    }
}

/// The number that a text of digits in base `b` denotes; none if another
/// character stands in it.
pub open spec fn digits_value(s: Seq<char>, b: nat) -> Option<nat>
    decreases s.len(),
{
    if s.len() == 0 {
        Some(0)
    } else {
        match (digits_value(s.drop_last(), b), digit_value(s.last(), b)) {
            (Some(v), Some(d)) => Some(v * b + d),
            _ => None,
        }
    }
}

/// The unsigned number that `s` denotes in base `b`: one digit or more, after
/// an optional plus sign, and at most `max`.
pub open spec fn unsigned_in(s: Seq<char>, b: nat, max: nat) -> Option<nat> {
    let body = if s.len() > 0 && s[0] == '+' {
        s.skip(1)
    } else {
        s
    };
    match digits_value(body, b) {
        Some(v) if body.len() > 0 && v <= max => Some(v),
        _ => None,
    }
}

/// The decimal unsigned number that `s` denotes.
pub open spec fn unsigned(s: Seq<char>, max: nat) -> Option<nat> {
    unsigned_in(s, 10, max)
}

/// The decimal signed number that `s` denotes, if it lies between `-max - 1`
/// and `max`.
pub open spec fn signed(s: Seq<char>, max: nat) -> Option<int> {
    if s.len() > 0 && s[0] == '-' {
        match digits_value(s.skip(1), 10) {
            Some(v) if s.len() > 1 && v <= max + 1 => Some(-(v as int)),
            _ => None,
        }
    } else {
        match unsigned(s, max) {
            Some(v) => Some(v as int),
            None => None,
        }
    }
}

fn char_digit(c: char, b: u64) -> (r: Option<u64>)
    requires
        b <= 36,
    ensures
        match r {
            Some(v) => digit_value(c, b as nat) == Some(v as nat),
            None => digit_value(c, b as nat) is None,
        },
{
    let n = c as u32;
    let v: u64 = if 48 <= n && n <= 57 {
        (n - 48) as u64
    } else if 97 <= n && n <= 122 {
        (n - 87) as u64
    } else if 65 <= n && n <= 90 {
        (n - 55) as u64
    } else {
        99
    };
    if v < b {
        Some(v)
    } else {
        None
    }
}

proof fn lemma_digits_monotone(s: Seq<char>, i: int, b: nat)
    requires
        0 <= i <= s.len(),
        b >= 1,
        digits_value(s, b) is Some,
    ensures
        digits_value(s.take(i), b) is Some,
        digits_value(s.take(i), b)->0 <= digits_value(s, b)->0,
    decreases s.len() - i,
{
    if i == s.len() {
        assert(s.take(i) =~= s);
    } else {
        lemma_digits_monotone(s, i + 1, b);
        assert(s.take(i + 1).drop_last() =~= s.take(i));
        let v = digits_value(s.take(i), b)->0;
        assert(v <= v * b) by (nonlinear_arith)
            requires
                b >= 1,
        ;
    }
}

/// The value of the digits `s[from..]` in base `b`, if they are digits and
/// their value is at most `max`; no digits at all give zero.
fn digits_from(s: &Vec<char>, from: usize, b: u64, max: u64) -> (r: Option<u64>)
    requires
        from <= s.len(),
        2 <= b <= 36,
    ensures
        match r {
            Some(v) => digits_value(s@.skip(from as int), b as nat) == Some(v as nat) && v <= max,
            None => match digits_value(s@.skip(from as int), b as nat) {
                Some(v) => v > max,
                None => true,
            },
        },
{
    let ghost t = s@.skip(from as int);
    let mut value: u64 = 0;
    let mut i: usize = from;
    assert(t.take(0) =~= Seq::empty());
    while i < s.len()
        invariant
            from <= i <= s.len(),
            2 <= b <= 36,
            t == s@.skip(from as int),
            digits_value(t.take(i - from), b as nat) == Some(value as nat),
            value <= max,
        decreases s.len() - i,
    {
        let ghost k = i - from;
        assert(t.take(k + 1).drop_last() =~= t.take(k));
        assert(t.take(k + 1).last() == s@[i as int]);
        proof {
            if digits_value(t, b as nat) is Some {
                lemma_digits_monotone(t, k + 1, b as nat);
            }
        }
        match char_digit(s[i], b) {
            None => {
                return None;
            },
            Some(d) => {
                assert(0 <= value * b <= 0xffff_ffff_ffff_ffff * 36) by (nonlinear_arith)
                    requires
                        0 <= b <= 36,
                        0 <= value <= 0xffff_ffff_ffff_ffff,
                ;
                let next: u128 = (value as u128) * (b as u128) + (d as u128);
                if next > max as u128 {
                    return None;
                }
                value = next as u64;
            },
        }
        i += 1;
    }
    assert(t.take(t.len() as int) =~= t);
    Some(value)
}

/// The unsigned number that `s` denotes in base `b`.
pub fn parse_unsigned_in(s: &str, b: u64, max: u64) -> (r: Option<u64>)
    requires
        2 <= b <= 36,
    ensures
        match r {
            Some(v) => unsigned_in(s@, b as nat, max as nat) == Some(v as nat),
            None => unsigned_in(s@, b as nat, max as nat) is None,
        },
{
    let chars = to_chars(s);
    let from: usize = if chars.len() > 0 && chars[0] == '+' {
        1
    } else {
        0
    };
    assert(s@.skip(0) =~= s@);
    if chars.len() == from {
        return None;
    }
    digits_from(&chars, from, b, max)
}

pub fn parse_u64(s: &str) -> (r: Option<u64>)
    ensures
        match r {
            Some(v) => unsigned(s@, u64::MAX as nat) == Some(v as nat),
            None => unsigned(s@, u64::MAX as nat) is None,
        },
{
    parse_unsigned_in(s, 10, u64::MAX)
}

pub fn parse_u32(s: &str) -> (r: Option<u32>)
    ensures
        match r {
            Some(v) => unsigned(s@, u32::MAX as nat) == Some(v as nat),
            None => unsigned(s@, u32::MAX as nat) is None,
        },
{
    match parse_unsigned_in(s, 10, 0xffff_ffff) {
        Some(v) => Some(v as u32),
        None => None,
    }
}

pub fn parse_i64(s: &str) -> (r: Option<i64>)
    ensures
        match r {
            Some(v) => signed(s@, i64::MAX as nat) == Some(v as int),
            None => signed(s@, i64::MAX as nat) is None,
        },
{
    let chars = to_chars(s);
    if chars.len() > 0 && chars[0] == '-' {
        if chars.len() == 1 {
            return None;
        }
        match digits_from(&chars, 1, 10, 0x8000_0000_0000_0000) {
            Some(v) => if v == 0x8000_0000_0000_0000 {
                Some(i64::MIN)
            } else {
                Some(-(v as i64))
            },
            None => None,
        }
    } else {
        match parse_unsigned_in(s, 10, 0x7fff_ffff_ffff_ffff) {
            Some(v) => Some(v as i64),
            None => None,
        }
    }
}

pub fn parse_i32(s: &str) -> (r: Option<i32>)
    ensures
        match r {
            Some(v) => signed(s@, i32::MAX as nat) == Some(v as int),
            None => signed(s@, i32::MAX as nat) is None,
        },
{
    match parse_i64(s) {
        Some(v) if -0x8000_0000 <= v && v <= 0x7fff_ffff => Some(v as i32),
        _ => None,
    }
}

// ---- Paragraphs -----------------------------------------------------------------

/// The place of the first blank line from a place on, or the end.
pub open spec fn blank_from(s: Seq<char>, i: int) -> int
    decreases s.len() - i,
{
    if i + 1 >= s.len() {
        s.len() as int
    } else if s[i] == '\n' && s[i + 1] == '\n' {
        i
    } else {
        blank_from(s, i + 1)
    }
}

/// The pieces of a text between blank lines.
pub open spec fn paragraphs(s: Seq<char>) -> Seq<Seq<char>>
    decreases s.len(),
{
    let i = blank_from(s, 0);
    if i < 0 || i + 1 >= s.len() {
        seq![s]
    } else {
        seq![s.take(i)] + paragraphs(s.skip(i + 2))
    }
}

/// A text in one line: each newline as a space, and no space at the ends.
pub open spec fn one_line(s: Seq<char>) -> Seq<char> {
    trim(s.map_values(|c: char| if c == '\n' { ' ' } else { c }))
}

proof fn lemma_blank_from(s: Seq<char>, from: int, i: int)
    requires
        0 <= i,
        from + i <= s.len(),
        0 <= from,
    ensures
        blank_from(s.skip(from), i) == blank_from(s, from + i) - from,
        blank_from(s, from + i) <= s.len(),
    decreases s.len() - from - i,
{
    if from + i + 1 < s.len() {
        lemma_blank_from(s, from, i + 1);
    }
}

/// The pieces of a text between blank lines, each in one line.
pub fn paragraphs_of(s: &str) -> (r: Vec<String>)
    ensures
        texts(r@) == paragraphs(s@).map_values(|p: Seq<char>| one_line(p)),
{
    let chars = to_chars(s);
    let ghost all = s@;
    let ghost g = |p: Seq<char>| one_line(p);
    let mut done: Vec<String> = Vec::new();
    let mut from: usize = 0;
    let mut i: usize = 0;
    let mut piece = String::new();
    assert(all.skip(0) =~= all);
    assert(texts(done@) =~= Seq::<Seq<char>>::empty());
    assert(texts(done@) + paragraphs(all.skip(0)).map_values(g) =~= paragraphs(all).map_values(g));
    proof {
        lemma_blank_from(all, 0, 0);
    }
    while i < chars.len()
        invariant
            all == s@,
            chars@ == all,
            g == (|p: Seq<char>| one_line(p)),
            from <= i <= all.len(),
            blank_from(all, from as int) == blank_from(all, i as int),
            piece@ == all.subrange(from as int, i as int).map_values(
                |c: char| if c == '\n' { ' ' } else { c },
            ),
            texts(done@) + paragraphs(all.skip(from as int)).map_values(g) == paragraphs(all).map_values(
                g,
            ),
        decreases all.len() - i,
    {
        let ghost rest = all.skip(from as int);
        proof {
            lemma_blank_from(all, from as int, 0);
        }
        if i + 1 < chars.len() && chars[i] == '\n' && chars[i + 1] == '\n' {
            let ghost here = rest.take(i - from);
            assert(here =~= all.subrange(from as int, i as int));
            assert(rest.skip(i - from + 2) =~= all.skip(i + 2));
            let ghost before = texts(done@);
            let line = trim_text(piece.as_str());
            assert(line@ == g(here));
            done.push(line);
            proof {
                let tail = paragraphs(all.skip(i + 2));
                assert(paragraphs(rest) == seq![here] + tail);
                assert(texts(done@) =~= before.push(g(here)));
                assert((seq![here] + tail).map_values(g) =~= seq![g(here)] + tail.map_values(g));
                assert(texts(done@) + tail.map_values(g) =~= before + paragraphs(rest).map_values(g));
            }
            i += 2;
            from = i;
            piece = String::new();
            assert(piece@ =~= all.subrange(from as int, i as int).map_values(
                |c: char| if c == '\n' { ' ' } else { c },
            ));
        } else {
            let ghost old_piece = piece@;
            let c = chars[i];
            piece.push(if c == '\n' { ' ' } else { c });
            i += 1;
            assert(piece@ =~= all.subrange(from as int, i as int).map_values(
                |c: char| if c == '\n' { ' ' } else { c },
            ));
        }
    }
    let ghost rest = all.skip(from as int);
    proof {
        lemma_blank_from(all, from as int, 0);
        assert(blank_from(all, all.len() as int) == all.len());
        assert(paragraphs(rest) == seq![rest]);
        assert(rest =~= all.subrange(from as int, i as int));
    }
    let ghost before = texts(done@);
    let line = trim_text(piece.as_str());
    assert(line@ == g(rest));
    done.push(line);
    assert(texts(done@) =~= before.push(g(rest)));
    assert(seq![rest].map_values(g) =~= seq![g(rest)]);
    assert(texts(done@) =~= before + paragraphs(rest).map_values(g));
    done
}

// ---- Lists of texts -------------------------------------------------------------

/// The text that `f` makes of each element, which is what `g` says.
pub(crate) fn map_texts<A, F: Fn(&A) -> String>(
    v: &Vec<A>,
    f: F,
    Ghost(g): Ghost<spec_fn(A) -> Seq<char>>,
) -> (r: Vec<String>)
    requires
        forall|a: &A| #[trigger] f.requires((a,)),
        forall|a: &A, b: String| #[trigger] f.ensures((a,), b) ==> told()(b) == g(*a),
    ensures
        texts(r@) == v@.map_values(g),
{
    let r = collect_map::<A, String, Seq<char>, F>(v, f, Ghost(told()), Ghost(g));
    assert(texts(r@) =~= r@.map_values(told()));
    r
}

/// The text that `f` makes of each of the first `limit` elements for which
/// `want`, which computes `p`, says yes.
pub(crate) fn some_texts<A, P: Fn(&A) -> bool, F: Fn(&A) -> String>(
    v: &Vec<A>,
    want: P,
    f: F,
    limit: usize,
    Ghost(p): Ghost<spec_fn(A) -> bool>,
    Ghost(g): Ghost<spec_fn(A) -> Seq<char>>,
) -> (r: Vec<String>)
    requires
        forall|a: &A| #[trigger] want.requires((a,)),
        forall|a: &A, o: bool| #[trigger] want.ensures((a,), o) ==> o == p(*a),
        forall|a: &A| #[trigger] f.requires((a,)),
        forall|a: &A, b: String| #[trigger] f.ensures((a,), b) ==> told()(b) == g(*a),
    ensures
        texts(r@) == first(v@.filter(p), limit as nat).map_values(g),
{
    let r = collect_some::<A, String, Seq<char>, P, F>(
        v,
        want,
        f,
        limit,
        Ghost(p),
        Ghost(told()),
        Ghost(g),
    );
    assert(texts(r@) =~= r@.map_values(told()));
    r
}

} // verus!
