//! Installed apps and the start of the daemon.
use vstd::prelude::*;

use crate::text::{dec, dec_string, to_chars};

verus! {

/// An installed application.
#[derive(Clone, Debug, PartialEq)]
pub struct InstalledApp {
    pub package: String,
    pub label: String,
    pub uid: u32,
    pub is_system: bool,
}

impl InstalledApp {
    /// The same application.
    pub fn copy(&self) -> (r: Self)
        ensures
            r == *self,
    {
        InstalledApp {
            package: self.package.clone(),
            label: self.label.clone(),
            uid: self.uid,
            is_system: self.is_system,
        }
    }
}

/// A text for use between single quotes in a shell: each quote ends the quoted
/// text, stands escaped, and begins another.
pub open spec fn quoted(s: Seq<char>) -> Seq<char>
    decreases s.len(),
{
    if s.len() == 0 {
        s
    } else {
        let before = quoted(s.drop_last());
        if s.last() == '\'' {
            before + seq!['\'', '\\', '\'', '\'']
        } else {
            before.push(s.last())
        }
    }
}

/// A text for use between single quotes in a shell.
pub fn quote(s: &str) -> (r: String)
    ensures
        r@ == quoted(s@),
{
    let chars = to_chars(s);
    let mut r = String::new();
    let mut i: usize = 0;
    assert(r@ =~= quoted(s@.take(0)));
    while i < chars.len()
        invariant
            chars@ == s@,
            i <= chars.len(),
            r@ == quoted(s@.take(i as int)),
        decreases chars.len() - i,
    {
        assert(s@.take(i + 1).drop_last() =~= s@.take(i as int));
        let ghost before = r@;
        let c = chars[i];
        if c == '\'' {
            r.push('\'');
            r.push('\\');
            r.push('\'');
            r.push('\'');
            assert(r@ =~= before + seq!['\'', '\\', '\'', '\'']);
        } else {
            r.push(c);
        }
        i += 1;
    }
    assert(s@.take(s@.len() as int) =~= s@);
    r
}

/// The shell command that starts the daemon for an app.
pub open spec fn command_text(path: Seq<char>, package: Seq<char>, uid: u32) -> Seq<char> {
    "nohup '"@ +
        quoted(path) +
        "' --socket @netdiag --allow-uid "@ +
        dec(uid as nat) +
        " --expect-package '"@ +
        quoted(package) +
        "' >/dev/null 2>&1 &"@
}

/// The shell command that starts the daemon for an app.
pub fn start_command(path: &str, package: &str, uid: u32) -> (r: String)
    ensures
        r@ == command_text(path@, package@, uid),
{
    let program = quote(path);
    let number = dec_string(uid as u64);
    let name = quote(package);
    String::from_str("nohup '")
        .concat(program.as_str())
        .concat("' --socket @netdiag --allow-uid ")
        .concat(number.as_str())
        .concat(" --expect-package '")
        .concat(name.as_str())
        .concat("' >/dev/null 2>&1 &")
}

/// What a shell reads from between single quotes: a quote that ends the quoted
/// text, an escaped one and one that begins another stand for one quote.
pub open spec fn unquoted(s: Seq<char>) -> Seq<char>
    decreases s.len(),
{
    if s.len() == 0 {
        s
    } else if s[0] == '\'' && s.len() >= 4 && s[1] == '\\' && s[2] == '\'' && s[3] == '\'' {
        seq!['\''] + unquoted(s.skip(4))
    } else {
        seq![s[0]] + unquoted(s.skip(1))
    }
}

/// Whatever a text holds, the shell reads it back as it was.
pub proof fn law_quoting_keeps_the_text(s: Seq<char>)
    ensures
        unquoted(quoted(s)) == s,
    decreases s.len(),
{
    if s.len() > 0 {
        law_quoting_keeps_the_text(s.drop_last());
        if s.last() == '\'' {
            lemma_unquoted_append(s.drop_last(), seq!['\'', '\\', '\'', '\''], seq!['\'']);
        } else {
            lemma_unquoted_append(s.drop_last(), seq![s.last()], seq![s.last()]);
            assert(quoted(s.drop_last()).push(s.last()) =~= quoted(s.drop_last()) + seq![s.last()]);
        }
        assert(s.drop_last().push(s.last()) =~= s);
        assert(s.drop_last() + seq![s.last()] =~= s);
    }
}

/// What is quoted can be followed by more.
proof fn lemma_unquoted_append(s: Seq<char>, piece: Seq<char>, means: Seq<char>)
    requires
        unquoted(quoted(s)) == s,
        (piece == seq!['\'', '\\', '\'', '\''] && means == seq!['\'']) || (piece.len() == 1 && piece[0]
            != '\'' && means == piece),
    ensures
        unquoted(quoted(s) + piece) == s + means,
    decreases s.len(),
{
    lemma_front(s);
    let q = quoted(s);
    if s.len() == 0 {
        assert(q + piece =~= piece);
        let none = Seq::<char>::empty();
        assert(unquoted(none) =~= none);
        if piece.len() == 1 {
            assert(piece.skip(1) =~= none);
            assert(unquoted(piece) == seq![piece[0]] + unquoted(none));
        } else {
            assert(piece.skip(4) =~= none);
            assert(unquoted(piece) == seq!['\''] + unquoted(none));
        }
        assert(unquoted(piece) =~= means);
        assert(s + means =~= means);
    } else {
        let rest = s.skip(1);
        lemma_unquoted_rest(s);
        lemma_unquoted_append(rest, piece, means);
        let qr = quoted(rest);
        if s[0] == '\'' {
            let all = q + piece;
            assert(all.skip(4) =~= qr + piece);
            assert(unquoted(all) == seq!['\''] + unquoted(qr + piece));
        } else {
            let all = q + piece;
            assert(all.skip(1) =~= qr + piece);
            assert(unquoted(all) == seq![s[0]] + unquoted(qr + piece));
        }
        assert(s + means =~= seq![s[0]] + (rest + means));
    }
}

/// Quoting goes character by character from the front, too.
proof fn lemma_front(s: Seq<char>)
    ensures
        s.len() > 0 ==> quoted(s) == (if s[0] == '\'' {
            seq!['\'', '\\', '\'', '\'']
        } else {
            seq![s[0]]
        }) + quoted(s.skip(1)),
    decreases s.len(),
{
    if s.len() == 1 {
        assert(s.drop_last() =~= Seq::empty());
        assert(s.skip(1) =~= Seq::empty());
        assert(quoted(Seq::<char>::empty()) =~= Seq::empty());
        assert(quoted(s) =~= (if s[0] == '\'' {
            seq!['\'', '\\', '\'', '\'']
        } else {
            seq![s[0]]
        }) + quoted(s.skip(1)));
    } else if s.len() > 1 {
        lemma_front(s.drop_last());
        assert(s.skip(1).drop_last() =~= s.drop_last().skip(1));
        assert(s.skip(1).last() == s.last());
        let head = if s[0] == '\'' {
            seq!['\'', '\\', '\'', '\'']
        } else {
            seq![s[0]]
        };
        let mid = quoted(s.drop_last().skip(1));
        if s.last() == '\'' {
            assert((head + mid) + seq!['\'', '\\', '\'', '\''] =~= head + (mid + seq![
                '\'',
                '\\',
                '\'',
                '\'',
            ]));
        } else {
            assert((head + mid).push(s.last()) =~= head + mid.push(s.last()));
        }
    }
}

proof fn lemma_unquoted_rest(s: Seq<char>)
    requires
        s.len() > 0,
        unquoted(quoted(s)) == s,
    ensures
        unquoted(quoted(s.skip(1))) == s.skip(1),
{
    lemma_front(s);
    let q = quoted(s);
    let rest = quoted(s.skip(1));
    if s[0] == '\'' {
        assert(q.skip(4) =~= rest);
        assert(unquoted(q) == seq!['\''] + unquoted(rest));
    } else {
        assert(q.skip(1) =~= rest);
        assert(unquoted(q) == seq![s[0]] + unquoted(rest));
    }
    assert(unquoted(rest) =~= (seq![s[0]] + unquoted(rest)).skip(1));
    assert(unquoted(q) =~= seq![s[0]] + unquoted(rest));
}

} // verus!
