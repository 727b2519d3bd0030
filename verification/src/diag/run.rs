//! A diagnosis as it runs: which check is next, what only the outside can
//! answer, and the report at the end.
use vstd::prelude::*;

use crate::diag::check::{said, untold, Said};
use crate::diag::probes::question_of;
use crate::diag::report::{
    count_status, is_wanted, passive_check, planned_checks, probe_checks, probe_title, report,
    run_structural, structural_checks, structural_said, summary_of, worst_of,
};
use crate::diag::rules::{all_found, findings_said, said_before};
use crate::diag::state::DiagState;
use crate::proto::{Check, CheckId, CheckStatus, DiagnoseRequest, DiagnoseResponse};
use crate::seqs::{lemma_filter_any, sort_by};

verus! {

/// A diagnosis that is running.
pub struct Diagnosis {
    pub request: DiagnoseRequest,
    pub state: DiagState,
    /// The checks to run, in order.
    pub plan: Vec<CheckId>,
    /// The checks that were run, in the order of the plan.
    pub checks: Vec<Check>,
}

/// What comes next.
#[derive(Clone, Copy, Debug, PartialEq, Eq, Structural)]
pub enum Progress {
    /// A check was made from what was collected; it is the last of the checks.
    Made,
    /// The outside has to answer: the firewall, or a probe.
    Ask(CheckId),
    /// Every check was run.
    Complete,
}

/// Whether a check is a probe.
pub open spec fn is_probe(id: CheckId) -> bool {
    probe_checks().contains(id)
}

fn probes(id: CheckId) -> (r: bool)
    ensures
        r == is_probe(id),
{
    let r = match id {
        CheckId::GatewayReachabilityV4
        | CheckId::GatewayReachabilityV6
        | CheckId::DnsA
        | CheckId::DnsAaaa
        | CheckId::TcpV4
        | CheckId::TcpV6
        | CheckId::TlsHandshake
        | CheckId::PrivateDns
        | CheckId::Nat64Dns64
        | CheckId::MtuPmtu => true,
        _ => false,
    };
    proof {
        let s = probe_checks();
        assert(s[0] == CheckId::GatewayReachabilityV4 && s[1] == CheckId::GatewayReachabilityV6);
        assert(s[2] == CheckId::DnsA && s[3] == CheckId::DnsAaaa && s[4] == CheckId::TcpV4);
        assert(s[5] == CheckId::TcpV6 && s[6] == CheckId::TlsHandshake);
        assert(s[7] == CheckId::PrivateDns && s[8] == CheckId::Nat64Dns64 && s[9] == CheckId::MtuPmtu);
    }
    r
}

/// What a check says that nothing outside has to answer. The probes of a
/// passive diagnosis are skipped.
pub open spec fn known(id: CheckId, state: DiagState, request: DiagnoseRequest) -> Option<Said> {
    match structural_said(id, state, request) {
        Some(s) => Some(s),
        None => if request.passive_only && is_probe(id) {
            Some(
                untold(id, probe_title(id)).skip(
                    "skipped: the request asked for passive analysis only"@,
                ),
            )
        } else {
            None
        },
    }
}

impl Diagnosis {
    /// The checks so far are those of the plan, no evidence of one has a name
    /// twice, and each that nothing outside has to answer says what was collected.
    pub open spec fn wf(self) -> bool {
        &&& self.plan@ == (structural_checks() + probe_checks()).filter(is_wanted(self.request))
        &&& self.checks@.len() <= self.plan@.len() <= 24
        &&& forall|i: int|
            0 <= i < self.checks@.len() ==> {
                let k = known(self.plan@[i], self.state, self.request);
                &&& (#[trigger] self.checks@[i]).id == self.plan@[i]
                &&& self.checks@[i].evidence.wf()
                &&& k is Some ==> said(self.checks@[i]) == k->0
            }
    }

    /// What the next step is.
    pub open spec fn next_step(self) -> Progress {
        if self.checks@.len() == self.plan@.len() {
            Progress::Complete
        } else {
            let id = self.plan@[self.checks@.len() as int];
            if known(id, self.state, self.request) is Some {
                Progress::Made
            } else {
                Progress::Ask(id)
            }
        }
    }

    pub fn new(request: DiagnoseRequest, state: DiagState) -> (r: Self)
        ensures
            r.wf(),
            r.request == request,
            r.state == state,
            r.checks@.len() == 0,
    {
        let plan = planned_checks(&request);
        proof {
            let all = structural_checks() + probe_checks();
            lemma_filter_any(all, is_wanted(request));
            assert(all.len() == 24);
        }
        Diagnosis { request, state, plan, checks: Vec::new() }
    }

    /// Goes one step: makes the next check, or tells what has to be asked.
    /// Nothing changes until an answer comes.
    pub fn run(&mut self) -> (r: Progress)
        requires
            old(self).wf(),
        ensures
            final(self).wf(),
            r == old(self).next_step(),
            final(self).request == old(self).request,
            final(self).state == old(self).state,
            final(self).plan == old(self).plan,
            r is Made ==> final(self).checks@.len() == old(self).checks@.len() + 1
                && final(self).checks@.drop_last() == old(self).checks@,
            !(r is Made) ==> final(self).checks == old(self).checks,
    {
        let at = self.checks.len();
        if at == self.plan.len() {
            return Progress::Complete;
        }
        let id = self.plan[at];
        let ghost before = self.checks@;
        match run_structural(id, &self.state, &self.request) {
            Some(check) => {
                self.checks.push(check);
                assert(self.checks@.drop_last() =~= before);
                Progress::Made
            },
            None => {
                if self.request.passive_only && probes(id) {
                    self.checks.push(passive_check(id));
                    assert(self.checks@.drop_last() =~= before);
                    Progress::Made
                } else {
                    Progress::Ask(id)
                }
            },
        }
    }

    /// Takes in the check that the outside answered: the one that was asked for.
    pub fn answer(&mut self, check: Check)
        requires
            old(self).wf(),
            old(self).next_step() == Progress::Ask(check.id),
            check.evidence.wf(),
        ensures
            final(self).wf(),
            final(self).request == old(self).request,
            final(self).state == old(self).state,
            final(self).plan == old(self).plan,
            final(self).checks@ == old(self).checks@.push(check),
    {
        self.checks.push(check);
    }

    /// The report, when every check was run: the rules are run over the checks.
    pub fn finish(self, started_unix_ms: i64, total_duration_ms: u64) -> (r: DiagnoseResponse)
        requires
            self.wf(),
            self.next_step() is Complete,
        ensures
            r.checks == self.checks,
            forall|i: int| 0 <= i < r.checks@.len() ==> (#[trigger] r.checks@[i]).evidence.wf(),
            r.checks@.map_values(|c: Check| c.id) == (structural_checks() + probe_checks()).filter(
                is_wanted(self.request),
            ),
            findings_said(r.findings@) == sort_by(all_found(self.checks@, self.state), said_before()),
            r.started_unix_ms == started_unix_ms,
            r.total_duration_ms == total_duration_ms,
            r.summary@ == summary_of(self.checks@, r.findings@),
            r.worst_severity == worst_of(r.findings@),
            r.passed == count_status(self.checks@, CheckStatus::Pass),
            r.failed == count_status(self.checks@, CheckStatus::Fail),
            r.warned == count_status(self.checks@, CheckStatus::Warn),
            r.skipped == count_status(self.checks@, CheckStatus::Skip),
    {
        report(started_unix_ms, total_duration_ms, self.checks, &self.state)
    }
}

/// A passive diagnosis asks nothing of the network: of the outside it asks at
/// most for the firewall's state.
pub proof fn law_passive_diagnosis_sends_nothing(d: Diagnosis)
    requires
        d.wf(),
        d.request.passive_only,
    ensures
        d.next_step() matches Progress::Ask(id) ==> id == CheckId::FirewallAnomaly,
{
    if let Progress::Ask(id) = d.next_step() {
        let all = structural_checks() + probe_checks();
        let at = d.checks@.len() as int;
        lemma_filter_member(all, is_wanted(d.request), at);
        let i = choose|i: int| 0 <= i < all.len() && all[i] == id;
        if i >= 14 {
            assert(probe_checks()[i - 14] == id);
            assert(is_probe(id));
        }
    }
}

/// What a diagnosis asks of the outside, it asks as a question: each check that is
/// asked for has one.
pub proof fn law_every_ask_has_a_question(d: Diagnosis)
    requires
        d.wf(),
    ensures
        d.next_step() matches Progress::Ask(id) ==> question_of(id) is Some,
{
    if let Progress::Ask(id) = d.next_step() {
        let all = structural_checks() + probe_checks();
        let at = d.checks@.len() as int;
        lemma_filter_member(all, is_wanted(d.request), at);
        let i = choose|i: int| 0 <= i < all.len() && all[i] == id;
        assert(i < 24);
    }
}

proof fn lemma_filter_member(s: Seq<CheckId>, p: spec_fn(CheckId) -> bool, k: int)
    requires
        0 <= k < s.filter(p).len(),
    ensures
        exists|i: int| 0 <= i < s.len() && s[i] == s.filter(p)[k],
    decreases s.len(),
{
    reveal(Seq::filter);
    if s.len() > 0 {
        let front = s.drop_last();
        if k < front.filter(p).len() {
            lemma_filter_member(front, p, k);
            let i = choose|i: int| 0 <= i < front.len() && front[i] == front.filter(p)[k];
            assert(s[i] == s.filter(p)[k]);
        } else {
            assert(s[s.len() - 1] == s.filter(p)[k]);
        }
    }
}

} // verus!
