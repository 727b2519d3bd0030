//! Peer authorization.
//!
//! The daemon runs as root, so anything that can reach its socket can ask it
//! to dump every socket on the device. Access is therefore decided from the
//! kernel-supplied peer credentials, never from anything the client sends in a
//! message: a client can lie about its identity in a message, it cannot lie to
//! the kernel about its uid.
use vstd::prelude::*;

use crate::seqs::contains_number;
use crate::text::{
    dec, dec_string, join, join_texts, same, sdec, sdec_string, texts, trim, trim_text,
};

verus! {

/// Who is at the other end of a connection.
#[derive(Clone, Debug)]
pub struct PeerIdentity {
    pub uid: u32,
    pub gid: u32,
    pub pid: Option<i32>,
    /// The name of the peer's process. Advisory only: it is used to make log
    /// lines useful and to enforce an expected package, never as the sole basis
    /// for granting access.
    pub cmdline: Option<String>,
}

impl PeerIdentity {
    pub open spec fn text(self) -> Seq<char> {
        let pid = match self.pid {
            Some(p) => " pid="@ + sdec(p as int),
            None => ""@,
        };
        let cmd = match self.cmdline {
            Some(c) => " cmdline="@ + c@,
            None => ""@,
        };
        "uid="@ + dec(self.uid as nat) + " gid="@ + dec(self.gid as nat) + pid + cmd
    }

    pub fn to_text(&self) -> (r: String)
        ensures
            r@ == self.text(),
    {
        let uid = dec_string(self.uid as u64);
        let gid = dec_string(self.gid as u64);
        let pid = match self.pid {
            Some(p) => {
                let n = sdec_string(p as i64);
                String::from_str(" pid=").concat(n.as_str())
            },
            None => String::from_str(""),
        };
        let cmd = match &self.cmdline {
            Some(c) => String::from_str(" cmdline=").concat(c.as_str()),
            None => String::from_str(""),
        };
        String::from_str("uid=")
            .concat(uid.as_str())
            .concat(" gid=")
            .concat(gid.as_str())
            .concat(pid.as_str())
            .concat(cmd.as_str())
    }
}

/// Who may connect.
#[derive(Clone, Debug)]
pub struct AuthPolicy {
    /// UIDs allowed to connect. Empty means "root only", which is the safe
    /// default if the operator forgot to allow one.
    pub allowed_uids: Vec<u32>,
    /// When set, the peer's process must have this name. Android names an
    /// app's main process after its package, so this catches the case where a
    /// different app happens to share a uid.
    pub expect_package: Option<String>,
}

/// The uids as they are written.
pub open spec fn uid_texts(uids: Seq<u32>) -> Seq<Seq<char>> {
    uids.map_values(|u: u32| dec(u as nat))
}

impl Default for AuthPolicy {
    /// Root only, under any name.
    fn default() -> (r: Self)
        ensures
            r.allowed_uids@.len() == 0,
            r.expect_package is None,
    {
        AuthPolicy { allowed_uids: Vec::new(), expect_package: None }
    }
}

impl AuthPolicy {
    pub open spec fn text(self) -> Seq<char> {
        let uids = if self.allowed_uids@.len() == 0 {
            seq!["0"@]
        } else {
            uid_texts(self.allowed_uids@)
        };
        let package = match self.expect_package {
            Some(p) => " package="@ + p@,
            None => ""@,
        };
        "uids=["@ + join(uids, ","@) + "]"@ + package
    }

    pub fn describe(&self) -> (r: String)
        ensures
            r@ == self.text(),
    {
        let mut uids: Vec<String> = Vec::new();
        let mut i: usize = 0;
        while i < self.allowed_uids.len()
            invariant
                i <= self.allowed_uids.len(),
                uids.len() == i,
                forall|k: int|
                    0 <= k < i ==> (#[trigger] uids@[k])@ == dec(self.allowed_uids@[k] as nat),
            decreases self.allowed_uids.len() - i,
        {
            uids.push(dec_string(self.allowed_uids[i] as u64));
            i += 1;
        }
        assert(texts(uids@) =~= uid_texts(self.allowed_uids@));
        if uids.len() == 0 {
            uids.push(String::from_str("0"));
            assert(texts(uids@) =~= seq!["0"@]);
        }
        let list = join_texts(&uids, ",");
        let package = match &self.expect_package {
            Some(p) => String::from_str(" package=").concat(p.as_str()),
            None => String::from_str(""),
        };
        String::from_str("uids=[")
            .concat(list.as_str())
            .concat("]")
            .concat(package.as_str())
    }

    /// Whether a uid is allowed: root always is.
    pub open spec fn allows(self, uid: u32) -> bool {
        uid == 0 || self.allowed_uids@.contains(uid)
    }

    pub fn uid_allowed(&self, uid: u32) -> (r: bool)
        ensures
            r == self.allows(uid),
    {
        uid == 0 || contains_number(&self.allowed_uids, uid)
    }
}

/// Whether a peer runs as something else than what is expected. A name that
/// could not be read is not fatal on its own: the uid check has passed.
pub open spec fn runs_as_another(peer: PeerIdentity, policy: AuthPolicy) -> bool {
    match (policy.expect_package, peer.cmdline) {
        (Some(expected), Some(actual)) => actual@ != expected@,
        _ => false,
    }
}

/// Whether this is what a policy decides about a peer.
pub open spec fn decided(
    r: Result<PeerIdentity, String>,
    identity: PeerIdentity,
    policy: AuthPolicy,
) -> bool {
    match r {
        Ok(peer) => peer == identity && policy.allows(identity.uid) && !runs_as_another(
            identity,
            policy,
        ),
        Err(words) => if !policy.allows(identity.uid) {
            words@ == "peer "@ +
                identity.text() +
                " is not in the allowed uid set ("@ +
                policy.text() +
                ")"@
        } else {
            &&& runs_as_another(identity, policy)
            &&& words@ == "peer "@ +
                identity.text() +
                " runs as "@ +
                (identity.cmdline->0)@ +
                ", expected "@ +
                (policy.expect_package->0)@
        },
    }
}

/// Decides from the kernel-supplied credentials whether to keep talking to a
/// peer.
pub fn authorize(identity: PeerIdentity, policy: &AuthPolicy) -> (r: Result<PeerIdentity, String>)
    ensures
        decided(r, identity, *policy),
{
    let who = identity.to_text();
    if !policy.uid_allowed(identity.uid) {
        let allowed = policy.describe();
        return Err(
            String::from_str("peer ")
                .concat(who.as_str())
                .concat(" is not in the allowed uid set (")
                .concat(allowed.as_str())
                .concat(")"),
        );
    }
    if let Some(expected) = &policy.expect_package {
        if let Some(actual) = &identity.cmdline {
            if !same(actual.as_str(), expected.as_str()) {
                return Err(
                    String::from_str("peer ")
                        .concat(who.as_str())
                        .concat(" runs as ")
                        .concat(actual.as_str())
                        .concat(", expected ")
                        .concat(expected.as_str()),
                );
            }
        }
    }
    Ok(identity)
}

/// With no uid allowed, exactly root may connect, whatever the rest of the
/// policy says.
pub proof fn law_empty_allowlist_means_root_only(policy: AuthPolicy, uid: u32)
    requires
        policy.allowed_uids@.len() == 0,
    ensures
        policy.allows(uid) <==> uid == 0,
{
}

/// What `String::from_utf8_lossy` makes of bytes.
pub uninterp spec fn lossy_text(bytes: Seq<u8>) -> Seq<char>;

/// `String::from_utf8_lossy`: bytes as text, with a replacement for what is not
/// UTF-8. Which text that is is left to its name.
#[verifier::external_body]
fn text_of_bytes(bytes: &[u8]) -> (r: String)
    ensures
        r@ == lossy_text(bytes@),
{
    String::from_utf8_lossy(bytes).into_owned()
}

/// The bytes before the first zero.
pub open spec fn up_to_zero(raw: Seq<u8>) -> Seq<u8>
    decreases raw.len(),
{
    if raw.len() == 0 || raw[0] == 0 {
        Seq::empty()
    } else {
        seq![raw[0]] + up_to_zero(raw.skip(1))
    }
}

fn first_argument(raw: &[u8]) -> (r: Vec<u8>)
    ensures
        r@ == up_to_zero(raw@),
{
    let mut r: Vec<u8> = Vec::new();
    let mut i: usize = 0;
    assert(raw@.skip(0) =~= raw@);
    assert(up_to_zero(raw@) =~= r@ + up_to_zero(raw@.skip(0)));
    while i < raw.len() && raw[i] != 0
        invariant
            i <= raw@.len(),
            up_to_zero(raw@) == r@ + up_to_zero(raw@.skip(i as int)),
        decreases raw@.len() - i,
    {
        assert(raw@.skip(i as int).skip(1) =~= raw@.skip(i + 1));
        let ghost before = r@;
        r.push(raw[i]);
        i += 1;
        assert(r@ + up_to_zero(raw@.skip(i as int)) =~= before + up_to_zero(raw@.skip(i - 1)));
    }
    assert(up_to_zero(raw@.skip(i as int)) =~= Seq::<u8>::empty());
    assert(r@ =~= up_to_zero(raw@));
    r
}

/// The process name from the contents of a cmdline file, which on Android is
/// usually the package name; none for a process that has none.
pub fn read_cmdline(raw: &[u8]) -> (r: Option<String>)
    ensures
        match r {
            Some(name) => up_to_zero(raw@).len() > 0 && name@ == trim(lossy_text(up_to_zero(raw@))),
            None => up_to_zero(raw@).len() == 0,
        },
{
    let first = first_argument(raw);
    if first.len() == 0 {
        return None;
    }
    let text = text_of_bytes(first.as_slice());
    Some(trim_text(text.as_str()))
}

} // verus!
