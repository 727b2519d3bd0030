//! Active probes: how they are routed, and what came of them.
pub mod dns;
pub mod dns_laws;
pub mod icmp;
pub mod mtu;
pub mod probe_laws;
pub mod tcp;
pub mod tls;

use vstd::prelude::*;

use crate::ip::IpAddr;
use crate::proto::Error;
use crate::text::{dec, dec_string, hex, hex_string, is_empty, join, join_texts, texts};
use crate::util::{mark_for_net_id, net_id_from_mark, pinning_mark};

verus! {

/// How long a probe waits when its caller names no time.
pub const DEFAULT_TIMEOUT_MS: u64 = 3000;

/// How a probe should be routed.
#[derive(Clone, Debug, Default)]
pub struct ProbeContext {
    /// SO_MARK to set.
    pub mark: Option<u32>,
    /// SO_BINDTODEVICE interface name.
    pub bind_device: Option<String>,
    /// Source address to bind to.
    pub source: Option<IpAddr>,
    /// How long to wait for an answer.
    pub timeout_ms: u64,
}

/// The parts of a description, one for each restriction that is set.
pub open spec fn context_parts(ctx: ProbeContext) -> Seq<Seq<char>> {
    let mark = match ctx.mark {
        Some(m) => seq![
            "mark=0x"@ + hex(m as nat) + " (netId "@ + dec((m % 0x1_0000) as nat) + ")"@,
        ],
        None => Seq::empty(),
    };
    let device = match ctx.bind_device {
        Some(d) => seq!["dev="@ + d@],
        None => Seq::empty(),
    };
    let source = match ctx.source {
        Some(s) => seq!["src="@ + s.text()],
        None => Seq::empty(),
    };
    mark + device + source
}

impl ProbeContext {
    /// How the routing of a probe is described.
    pub open spec fn text(self) -> Seq<char> {
        if context_parts(self).len() == 0 {
            "default network"@
        } else {
            join(context_parts(self), " "@)
        }
    }

    /// A context without any restriction; zero asks for the default time.
    pub fn with_timeout(timeout_ms: u32) -> (r: Self)
        ensures
            r.mark is None,
            r.bind_device is None,
            r.source is None,
            r.timeout_ms == if timeout_ms == 0 {
                DEFAULT_TIMEOUT_MS
            } else {
                timeout_ms as u64
            },
    {
        ProbeContext {
            mark: None,
            bind_device: None,
            source: None,
            timeout_ms: if timeout_ms == 0 {
                DEFAULT_TIMEOUT_MS
            } else {
                timeout_ms as u64
            },
        }
    }

    /// The context, pinned to a network. No network has a netId of zero or
    /// less: such a number changes nothing.
    pub fn pinned_to_net_id(self, net_id: i32) -> (r: Self)
        ensures
            r.mark == if net_id > 0 {
                Some(pinning_mark(net_id as u32))
            } else {
                self.mark
            },
            r.bind_device == self.bind_device,
            r.source == self.source,
            r.timeout_ms == self.timeout_ms,
    {
        let mut out = self;
        if net_id > 0 {
            out.mark = Some(mark_for_net_id(net_id as u32));
        }
        out
    }

    /// The context, bound to an interface. An empty name changes nothing.
    pub fn on_device(self, name: String) -> (r: Self)
        ensures
            r.bind_device == if name@.len() > 0 {
                Some(name)
            } else {
                self.bind_device
            },
            r.mark == self.mark,
            r.source == self.source,
            r.timeout_ms == self.timeout_ms,
    {
        let mut out = self;
        if !is_empty(name.as_str()) {
            out.bind_device = Some(name);
        }
        out
    }

    /// A context with the same restrictions.
    pub fn copy(&self) -> (r: Self)
        ensures
            r == *self,
    {
        ProbeContext {
            mark: self.mark,
            bind_device: match &self.bind_device {
                Some(d) => Some(d.clone()),
                None => None,
            },
            source: self.source,
            timeout_ms: self.timeout_ms,
        }
    }

    /// Short description used in check evidence, so that a reader can tell how
    /// the probe was routed.
    pub fn describe(&self) -> (r: String)
        ensures
            r@ == self.text(),
    {
        let mut parts: Vec<String> = Vec::new();
        if let Some(mark) = self.mark {
            let h = hex_string(mark as u64);
            let d = dec_string(net_id_from_mark(mark) as u64);
            parts.push(String::from_str("mark=0x")
                .concat(h.as_str())
                .concat(" (netId ")
                .concat(d.as_str())
                .concat(")"));
        }
        if let Some(dev) = &self.bind_device {
            parts.push(String::from_str("dev=").concat(dev.as_str()));
        }
        if let Some(src) = &self.source {
            let s = src.to_text();
            parts.push(String::from_str("src=").concat(s.as_str()));
        }
        assert(texts(parts@) =~= context_parts(*self));
        if parts.len() == 0 {
            String::from_str("default network")
        } else {
            join_texts(&parts, " ")
        }
    }
}

/// What pairs of a name and a value say.
pub open spec fn said_pairs(v: Seq<(String, String)>) -> Seq<(Seq<char>, Seq<char>)> {
    Seq::new(v.len(), |i: int| (v[i].0@, v[i].1@))
}

/// Outcome shared by all probes, so that the diagnosis engine can treat them
/// uniformly.
#[derive(Clone, Debug)]
pub struct ProbeResult {
    pub ok: bool,
    pub duration_ms: u64,
    /// One-line human summary.
    pub detail: String,
    /// Structured detail merged into the check's evidence.
    pub evidence: Vec<(String, String)>,
    pub error: Option<String>,
}

impl ProbeResult {
    pub fn success(duration_ms: u64, detail: String) -> (r: Self)
        ensures
            r.ok,
            r.duration_ms == duration_ms,
            r.detail == detail,
            r.evidence@.len() == 0,
            r.error is None,
    {
        ProbeResult { ok: true, duration_ms, detail, evidence: Vec::new(), error: None }
    }

    pub fn failure(duration_ms: u64, detail: String) -> (r: Self)
        ensures
            !r.ok,
            r.duration_ms == duration_ms,
            r.detail == detail,
            r.evidence@.len() == 0,
            r.error == Some(detail),
    {
        let error = Some(detail.clone());
        ProbeResult { ok: false, duration_ms, detail, evidence: Vec::new(), error }
    }

    /// The result with one more piece of evidence.
    pub fn with(self, key: String, value: String) -> (r: Self)
        ensures
            r.ok == self.ok,
            r.duration_ms == self.duration_ms,
            r.detail == self.detail,
            r.evidence@ == self.evidence@.push((key, value)),
            r.error == self.error,
    {
        let mut out = self;
        out.evidence.push((key, value));
        out
    }

    /// The result with one more piece of evidence, given as text.
    pub(crate) fn note(self, key: &str, value: &str) -> (r: Self)
        ensures
            r.ok == self.ok,
            r.duration_ms == self.duration_ms,
            r.detail == self.detail,
            said_pairs(r.evidence@) == said_pairs(self.evidence@).push((key@, value@)),
            r.error == self.error,
    {
        let ghost before = self.evidence@;
        let r = self.with(String::from_str(key), String::from_str(value));
        assert(said_pairs(r.evidence@) =~= said_pairs(before).push((key@, value@)));
        r
    }

    /// The failure reason as an error message, for checks that carry one.
    pub fn to_error(&self) -> (r: Option<Error>)
        ensures
            match (self.error, r) {
                (Some(e), Some(x)) => x.message == e && x.code == crate::proto::ErrorCode::Kernel
                    && x.detail@.len() == 0,
                (None, None) => true,
                _ => false,
            },
    {
        match &self.error {
            Some(e) => Some(Error::kernel(e.clone())),
            None => None,
        }
    }
}

// ---- What a failed system call means ------------------------------------------

/// What an error number of Linux means to a user, where there is more to say
/// than its name.
pub open spec fn io_error_text(errno: Option<i32>, message: Seq<char>) -> Seq<char> {
    match errno {
        Some(101) => "network unreachable (no route for this family on this network)"@,
        Some(113) => "host unreachable (ICMP said so, or no neighbour)"@,
        Some(111) => "connection refused (something answered, and said no)"@,
        Some(13) | Some(1) => "permission denied (firewall or SELinux blocked the socket)"@,
        Some(99) => "source address not available on this interface"@,
        Some(110) => "timed out with no response"@,
        _ => message,
    }
}

/// Translate an I/O error into the language a user can act on. "Network is
/// unreachable" and "connection timed out" mean very different things: the
/// first is a local routing problem, the second is somewhere out on the path.
pub fn explain_io_error(errno: Option<i32>, message: &str) -> (r: String)
    ensures
        r@ == io_error_text(errno, message@),
{
    match errno {
        Some(101) => String::from_str(
            "network unreachable (no route for this family on this network)",
        ),
        Some(113) => String::from_str("host unreachable (ICMP said so, or no neighbour)"),
        Some(111) => String::from_str("connection refused (something answered, and said no)"),
        Some(13) | Some(1) => String::from_str(
            "permission denied (firewall or SELinux blocked the socket)",
        ),
        Some(99) => String::from_str("source address not available on this interface"),
        Some(110) => String::from_str("timed out with no response"),
        _ => String::from_str(message),
    }
}

} // verus!
