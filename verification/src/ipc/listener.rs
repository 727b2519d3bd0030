//! The listening socket's address.
//!
//! Two address forms are supported, because the right one depends on the
//! device's SELinux policy rather than on taste: the abstract namespace, which
//! has no filesystem entry and nothing left behind if the daemon is killed, and
//! a socket file.
use vstd::prelude::*;

use crate::text::{strip_prefix, strip_text_prefix};

verus! {

/// Where the daemon listens.
#[derive(Clone, Debug, PartialEq)]
pub enum SocketAddress {
    /// A name in the abstract namespace, written with a leading '@'.
    Abstract(String),
    /// A path in the filesystem.
    Path(String),
}

/// Whether an address is the one that is written like this.
pub open spec fn named_by(address: SocketAddress, spec: Seq<char>) -> bool {
    match strip_prefix(spec, "@"@) {
        Some(name) => address matches SocketAddress::Abstract(n) && n@ == name,
        None => address matches SocketAddress::Path(p) && p@ == spec,
    }
}

impl SocketAddress {
    pub fn parse(spec: &str) -> (r: Self)
        ensures
            named_by(r, spec@),
    {
        match strip_text_prefix(spec, "@") {
            Some(name) => SocketAddress::Abstract(name),
            None => SocketAddress::Path(String::from_str(spec)),
        }
    }

    pub open spec fn text(self) -> Seq<char> {
        match self {
            SocketAddress::Abstract(name) => "@"@ + name@ + " (abstract namespace)"@,
            SocketAddress::Path(path) => path@,
        }
    }

    pub fn describe(&self) -> (r: String)
        ensures
            r@ == self.text(),
    {
        match self {
            SocketAddress::Abstract(name) => String::from_str("@").concat(name.as_str()).concat(" (abstract namespace)"),
            SocketAddress::Path(path) => path.clone(),
        }
    }
}

} // verus!
