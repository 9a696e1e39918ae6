//! One verification from the raw text to the verdict.
//!
//! The orchestrator checks the address, has the exchangers of its domain
//! resolved, and has them probed one after the other, in ascending
//! preference and each host once, until one attempt ends in something else
//! than a network error or the budget of the policy is used up. It performs no I/O: each
//! step names what is to be done, and the next step takes the report of it.

use vstd::prelude::*;

use crate::address::parse_spec;
use crate::address::AddressView;
use crate::address::EmailAddress;
use crate::outcome::DnsFailure;
use crate::outcome::Verdict;
use crate::outcome::VerificationOutcome;
use crate::policy::PolicyView;
use crate::policy::VerificationPolicy;
use crate::resolver::address_decision;
use crate::resolver::after_address_lookup;
use crate::resolver::after_mx_lookup;
use crate::resolver::candidates_view;
use crate::resolver::distinct_hosts;
use crate::resolver::law_exchangers_are_distinct_and_ascend;
use crate::resolver::mx_answer_view;
use crate::resolver::mx_decision;
use crate::resolver::no_address;
use crate::resolver::no_exchanger;
use crate::resolver::CandidateView;
use crate::resolver::MxCandidate;
use crate::resolver::MxDecision;
use crate::resolver::MxDecisionView;

verus! {

/// Where a verification stands.
#[derive(Debug, Clone, Copy, PartialEq, Eq, Structural)]
pub enum Stage {
    /// The mail exchangers of the domain are being asked for.
    ResolvingMx,
    /// There are none; an address record of the domain is being asked for.
    ResolvingAddress,
    /// An exchanger is being probed.
    Probing,
    /// The verdict is in.
    Finished,
}

/// What the caller reports back.
#[derive(Debug, PartialEq, Eq)]
pub enum Report {
    /// The answer to the query for mail exchangers.
    Mx(Result<Vec<MxCandidate>, DnsFailure>),
    /// The answer to the query for address records: how many were found.
    Address(Result<usize, DnsFailure>),
    /// The outcome of the session with the exchanger that was to be probed.
    Attempt(VerificationOutcome),
}

/// A report as a mathematical value.
pub enum ReportView {
    Mx(Result<Seq<CandidateView>, DnsFailure>),
    Address(Result<usize, DnsFailure>),
    Attempt(Verdict),
}

impl View for Report {
    type V = ReportView;

    open spec fn view(&self) -> ReportView {
        match self {
            Report::Mx(answer) => ReportView::Mx(mx_answer_view(*answer)),
            Report::Address(answer) => ReportView::Address(*answer),
            Report::Attempt(outcome) => ReportView::Attempt(outcome@),
        }
    }
}

/// What the caller is to do next.
#[derive(Debug, Clone, PartialEq, Eq)]
pub enum Directive {
    /// Ask the DNS for the mail exchangers of this domain.
    LookupMx(String),
    /// Ask the DNS for the address records of this domain.
    LookupAddress(String),
    /// Hold a session with this host and report its outcome.
    Probe(String),
    /// Nothing: the verdict is in.
    Finish,
}

/// A directive as a mathematical value.
pub enum DirectiveView {
    LookupMx(Seq<char>),
    LookupAddress(Seq<char>),
    Probe(Seq<char>),
    Finish,
}

impl View for Directive {
    type V = DirectiveView;

    open spec fn view(&self) -> DirectiveView {
        match self {
            Directive::LookupMx(domain) => DirectiveView::LookupMx(domain@),
            Directive::LookupAddress(domain) => DirectiveView::LookupAddress(domain@),
            Directive::Probe(hostname) => DirectiveView::Probe(hostname@),
            Directive::Finish => DirectiveView::Finish,
        }
    }
}

/// A verification as a mathematical value.
pub struct OrchestratorView {
    pub stage: Stage,
    /// The address under test, where the text was one.
    pub address: Option<AddressView>,
    /// How many exchangers may be tried.
    pub limit: usize,
    /// The exchangers, in the order of trial.
    pub candidates: Seq<CandidateView>,
    /// How many attempts have ended.
    pub tried: nat,
    /// The verdict, once the verification is finished.
    pub outcome: Option<Verdict>,
}

/// The text of the verdict on a report that does not answer what was asked.
pub open spec fn out_of_order() -> Verdict {
    Verdict::ProtocolError("report out of order"@)
}

impl OrchestratorView {
    /// How many exchangers will be tried at most: all of them, within the
    /// limit of the policy.
    pub open spec fn budget(self) -> nat {
        if self.candidates.len() <= self.limit {
            self.candidates.len()
        } else {
            self.limit as nat
        }
    }

    /// A verification is finished exactly when it has a verdict; until then
    /// it has a well-formed address. It has exchangers only once it has
    /// turned to probing, and no host is among them twice. While it probes,
    /// the exchanger under probe lies within the budget. Once an exchanger
    /// has been probed, the verdict is one that a session can end in.
    pub open spec fn well_formed(self) -> bool {
        &&& (self.stage == Stage::Finished) == (self.outcome is Some)
        &&& self.limit >= 1
        &&& self.address matches Some(address) ==> address.well_formed()
        &&& self.stage != Stage::Finished ==> self.address is Some
        &&& self.stage == Stage::Probing ==> self.tried < self.budget()
        &&& self.stage == Stage::ResolvingMx || self.stage == Stage::ResolvingAddress
            ==> self.candidates.len() == 0
        &&& distinct_hosts(self.candidates)
        &&& self.candidates.len() > 0 ==> (self.outcome matches Some(verdict)
            ==> verdict.comes_of_a_session())
    }

    /// The verification, finished with `verdict`.
    pub open spec fn finished_with(self, verdict: Verdict) -> (OrchestratorView, DirectiveView) {
        (
            OrchestratorView { stage: Stage::Finished, outcome: Some(verdict), ..self },
            DirectiveView::Finish,
        )
    }

    /// The verification as it turns to the exchangers `candidates`, and the
    /// directive to probe the first of them. Without any exchanger the domain
    /// counts as not found.
    pub open spec fn probing(self, candidates: Seq<CandidateView>) -> (
        OrchestratorView,
        DirectiveView,
    ) {
        if candidates.len() == 0 {
            self.finished_with(Verdict::DomainNotFound)
        } else {
            (
                OrchestratorView { stage: Stage::Probing, candidates, tried: 0, ..self },
                DirectiveView::Probe(candidates[0].hostname),
            )
        }
    }

    /// The domain of the address under test.
    pub open spec fn domain(self) -> Seq<char> {
        self.address->0.domain
    }
}

/// The verification of `raw` at its start, and the first directive: a text
/// that is no address finishes at once as `InvalidFormat`; for an address
/// the mail exchangers of its domain are asked for.
pub open spec fn start_spec(raw: Seq<char>, policy: PolicyView) -> (
    OrchestratorView,
    DirectiveView,
) {
    match parse_spec(raw) {
        Ok(address) => (
            OrchestratorView {
                stage: Stage::ResolvingMx,
                address: Some(address),
                limit: policy.max_exchangers_to_try,
                candidates: Seq::empty(),
                tried: 0,
                outcome: None,
            },
            DirectiveView::LookupMx(address.domain),
        ),
        Err(_) => (
            OrchestratorView {
                stage: Stage::Finished,
                address: None,
                limit: policy.max_exchangers_to_try,
                candidates: Seq::empty(),
                tried: 0,
                outcome: Some(Verdict::InvalidFormat),
            },
            DirectiveView::Finish,
        ),
    }
}

/// The verification and the directive that follow on `report`.
///
/// A finished verification stays as it is. A report that does not answer
/// the pending directive finishes it as a protocol error, and so does the
/// report of an attempt with an outcome that no session can end in. Exchangers found
/// are probed from the first. No mail exchanger leads to the query for an
/// address, and no address to `DomainNotFound`. An attempt that ends in
/// anything but a network error is the verdict; after a network error the
/// next exchanger is probed while the budget lasts, and then the network
/// error is the verdict.
pub open spec fn advance_spec(orchestrator: OrchestratorView, report: ReportView) -> (
    OrchestratorView,
    DirectiveView,
) {
    match orchestrator.stage {
        Stage::Finished => (orchestrator, DirectiveView::Finish),
        Stage::ResolvingMx => match report {
            ReportView::Mx(answer) => match mx_decision(answer) {
                MxDecisionView::Resolved(candidates) => orchestrator.probing(candidates),
                MxDecisionView::NeedAddressLookup => (
                    OrchestratorView { stage: Stage::ResolvingAddress, ..orchestrator },
                    DirectiveView::LookupAddress(orchestrator.domain()),
                ),
                MxDecisionView::Failed(error) => orchestrator.finished_with(
                    Verdict::of_resolution_error(error),
                ),
            },
            _ => orchestrator.finished_with(out_of_order()),
        },
        Stage::ResolvingAddress => match report {
            ReportView::Address(answer) => match address_decision(orchestrator.domain(), answer) {
                Ok(candidates) => orchestrator.probing(candidates),
                Err(error) => orchestrator.finished_with(Verdict::of_resolution_error(error)),
            },
            _ => orchestrator.finished_with(out_of_order()),
        },
        Stage::Probing => match report {
            ReportView::Attempt(verdict) => if !verdict.comes_of_a_session() {
                orchestrator.finished_with(out_of_order())
            } else if verdict.is_network_error() && orchestrator.tried + 1
                < orchestrator.budget() {
                (
                    OrchestratorView { tried: orchestrator.tried + 1, ..orchestrator },
                    DirectiveView::Probe(
                        orchestrator.candidates[orchestrator.tried as int + 1].hostname,
                    ),
                )
            } else {
                orchestrator.finished_with(verdict)
            },
            _ => orchestrator.finished_with(out_of_order()),
        },
    }
}

/// The verification after the reports, taken in order.
pub open spec fn run(orchestrator: OrchestratorView, reports: Seq<ReportView>) -> OrchestratorView
    decreases reports.len(),
{
    if reports.len() == 0 {
        orchestrator
    } else {
        advance_spec(run(orchestrator, reports.drop_last()), reports.last()).0
    }
}

/// The directive that answers report number `k`.
pub open spec fn directive_at(orchestrator: OrchestratorView, reports: Seq<ReportView>, k: int)
    -> DirectiveView {
    advance_spec(run(orchestrator, reports.subrange(0, k)), reports[k]).1
}

/// The reports of `attempts`, one for each.
pub open spec fn attempt_reports(attempts: Seq<Verdict>) -> Seq<ReportView> {
    Seq::new(attempts.len(), |i: int| ReportView::Attempt(attempts[i]))
}

/// A step keeps a verification well-formed, its address and its limit.
pub proof fn lemma_advance_preserves(orchestrator: OrchestratorView, report: ReportView)
    requires
        orchestrator.well_formed(),
    ensures
        advance_spec(orchestrator, report).0.well_formed(),
        advance_spec(orchestrator, report).0.address == orchestrator.address,
        advance_spec(orchestrator, report).0.limit == orchestrator.limit,
        advance_spec(orchestrator, report).1 is Finish <==> advance_spec(
            orchestrator,
            report,
        ).0.stage == Stage::Finished,
{
    if let ReportView::Mx(Ok(records)) = report {
        law_exchangers_are_distinct_and_ascend(records);
    }
}

/// Under a usable policy a verification is well-formed from its start and
/// after any reports.
pub proof fn law_verification_stays_well_formed(
    raw: Seq<char>,
    policy: PolicyView,
    reports: Seq<ReportView>,
)
    requires
        policy.well_formed(),
    ensures
        run(start_spec(raw, policy).0, reports).well_formed(),
{
    if let Ok(address) = parse_spec(raw) {
        let parts = crate::address::grammar_split(raw)->0;
        crate::address::lemma_parts_make_address(raw, parts.0, parts.1);
    }
    law_run_stays_well_formed(start_spec(raw, policy).0, reports);
}

/// Every valid address whose domain has neither a mail exchanger nor an
/// address record is verified as `DomainNotFound`.
pub proof fn law_unresolvable_domain_is_not_found(
    raw: Seq<char>,
    policy: PolicyView,
    mx: Result<Seq<CandidateView>, DnsFailure>,
    address: Result<usize, DnsFailure>,
)
    requires
        parse_spec(raw) is Ok,
        policy.well_formed(),
        no_exchanger(mx),
        no_address(address),
    ensures
        run(start_spec(raw, policy).0, seq![ReportView::Mx(mx), ReportView::Address(address)])
            == start_spec(raw, policy).0.finished_with(Verdict::DomainNotFound).0,
        run(
            start_spec(raw, policy).0,
            seq![ReportView::Mx(mx), ReportView::Address(address)],
        ).outcome == Some(Verdict::DomainNotFound),
{
    let start = start_spec(raw, policy).0;
    let reports = seq![ReportView::Mx(mx), ReportView::Address(address)];
    assert(reports.drop_last() =~= seq![ReportView::Mx(mx)]);
    assert(reports.drop_last().drop_last() =~= Seq::<ReportView>::empty());
    assert(run(start, reports.drop_last().drop_last()) == start);
    let asked = advance_spec(start, ReportView::Mx(mx)).0;
    assert(run(start, reports.drop_last()) == asked);
    assert(asked.stage == Stage::ResolvingAddress);
}

/// A text that is no address is verified as `InvalidFormat`, whatever is
/// reported afterwards.
pub proof fn law_invalid_text_is_invalid_format(
    raw: Seq<char>,
    policy: PolicyView,
    reports: Seq<ReportView>,
)
    requires
        parse_spec(raw) is Err,
    ensures
        start_spec(raw, policy).1 == DirectiveView::Finish,
        run(start_spec(raw, policy).0, reports).outcome == Some(Verdict::InvalidFormat),
{
    law_verdict_is_final(start_spec(raw, policy).0, reports);
}

/// A finished verification stays as it is under every further report.
pub proof fn law_verdict_is_final(orchestrator: OrchestratorView, reports: Seq<ReportView>)
    requires
        orchestrator.stage == Stage::Finished,
    ensures
        run(orchestrator, reports) == orchestrator,
    decreases reports.len(),
{
    if reports.len() > 0 {
        law_verdict_is_final(orchestrator, reports.drop_last());
    }
}

/// While the attempts end in network errors and the budget lasts, the
/// exchangers are probed one by one in their order: after `attempts.len()`
/// such attempts that many exchangers are done with, and the directive that
/// answered attempt `k` was to probe the exchanger behind the one that
/// attempt `k` gave up. So no exchanger is probed before the one ahead of it
/// has been given up.
pub proof fn law_exchangers_tried_in_order(orchestrator: OrchestratorView, attempts: Seq<Verdict>)
    requires
        orchestrator.well_formed(),
        orchestrator.stage == Stage::Probing,
        orchestrator.tried + attempts.len() < orchestrator.budget(),
        forall|k: int| 0 <= k < attempts.len() ==> (#[trigger] attempts[k]).is_network_error(),
    ensures
        run(orchestrator, attempt_reports(attempts)) == (OrchestratorView {
            tried: orchestrator.tried + attempts.len(),
            ..orchestrator
        }),
        forall|k: int|
            0 <= k < attempts.len() ==> #[trigger] directive_at(
                orchestrator,
                attempt_reports(attempts),
                k,
            ) == DirectiveView::Probe(orchestrator.candidates[orchestrator.tried + k + 1].hostname),
    decreases attempts.len(),
{
    let reports = attempt_reports(attempts);
    if attempts.len() > 0 {
        law_exchangers_tried_in_order(orchestrator, attempts.drop_last());
        assert(reports.drop_last() =~= attempt_reports(attempts.drop_last()));
        assert(attempts.last().is_network_error());
    }
    assert forall|k: int| 0 <= k < attempts.len() implies #[trigger] directive_at(
        orchestrator,
        reports,
        k,
    ) == DirectiveView::Probe(orchestrator.candidates[orchestrator.tried + k + 1].hostname) by {
        let shorter = attempts.subrange(0, k);
        law_exchangers_tried_in_order(orchestrator, shorter);
        assert(reports.subrange(0, k) =~= attempt_reports(shorter));
        assert(attempts[k].is_network_error());
    }
}

/// A run over reports is the run over the first `k` of them, carried on
/// over the rest.
pub proof fn lemma_run_split(orchestrator: OrchestratorView, reports: Seq<ReportView>, k: int)
    requires
        0 <= k <= reports.len(),
    ensures
        run(orchestrator, reports) == run(
            run(orchestrator, reports.subrange(0, k)),
            reports.subrange(k, reports.len() as int),
        ),
    decreases reports.len(),
{
    let rest = reports.subrange(k, reports.len() as int);
    if k == reports.len() {
        assert(reports.subrange(0, k) =~= reports);
        assert(rest =~= Seq::<ReportView>::empty());
    } else {
        lemma_run_split(orchestrator, reports.drop_last(), k);
        assert(reports.drop_last().subrange(0, k) =~= reports.subrange(0, k));
        assert(reports.drop_last().subrange(k, reports.len() - 1) =~= rest.drop_last());
        assert(rest.last() == reports.last());
    }
}

/// A directive to probe names the exchanger that is under probe from then
/// on; and a verification that probes goes on to the next exchanger or
/// finishes.
pub proof fn lemma_advance_probes(orchestrator: OrchestratorView, report: ReportView)
    requires
        orchestrator.well_formed(),
    ensures
        advance_spec(orchestrator, report).1 matches DirectiveView::Probe(hostname) ==> {
            &&& advance_spec(orchestrator, report).0.stage == Stage::Probing
            &&& hostname == advance_spec(orchestrator, report).0.candidates[advance_spec(
                orchestrator,
                report,
            ).0.tried as int].hostname
        },
        orchestrator.stage == Stage::Probing ==> {
            ||| advance_spec(orchestrator, report).0.stage == Stage::Finished
            ||| advance_spec(orchestrator, report).0 == (OrchestratorView {
                tried: orchestrator.tried + 1,
                ..orchestrator
            })
        },
        orchestrator.candidates.len() > 0 ==> advance_spec(orchestrator, report).0.candidates
            == orchestrator.candidates,
        advance_spec(orchestrator, report).1 is Probe ==> advance_spec(
            orchestrator,
            report,
        ).0.candidates.len() > 0,
{
    lemma_advance_preserves(orchestrator, report);
}

/// Over a run, a verification that probes either finishes or has gone on
/// by one exchanger for each report; its exchangers stay the same.
pub proof fn lemma_run_probes(orchestrator: OrchestratorView, reports: Seq<ReportView>)
    requires
        orchestrator.well_formed(),
        orchestrator.candidates.len() > 0,
    ensures
        run(orchestrator, reports).well_formed(),
        run(orchestrator, reports).candidates == orchestrator.candidates,
        orchestrator.stage == Stage::Probing ==> {
            ||| run(orchestrator, reports).stage == Stage::Finished
            ||| run(orchestrator, reports) == (OrchestratorView {
                tried: orchestrator.tried + reports.len(),
                ..orchestrator
            })
        },
        orchestrator.stage == Stage::Finished ==> run(orchestrator, reports) == orchestrator,
    decreases reports.len(),
{
    if reports.len() > 0 {
        let before = run(orchestrator, reports.drop_last());
        lemma_run_probes(orchestrator, reports.drop_last());
        lemma_advance_preserves(before, reports.last());
        lemma_advance_probes(before, reports.last());
    }
}

/// No host is among the exchangers of a verification twice.
pub proof fn law_no_host_is_named_twice(
    raw: Seq<char>,
    policy: PolicyView,
    reports: Seq<ReportView>,
    i: int,
    j: int,
)
    requires
        policy.well_formed(),
        0 <= i < j < run(start_spec(raw, policy).0, reports).candidates.len(),
    ensures
        run(start_spec(raw, policy).0, reports).candidates[i].hostname != run(
            start_spec(raw, policy).0,
            reports,
        ).candidates[j].hostname,
{
    law_verification_stays_well_formed(raw, policy, reports);
}

/// No exchanger is probed twice: whatever is reported, two directives to
/// probe that a verification gives name different hosts, and neither names
/// the host that was under probe to begin with.
pub proof fn law_no_exchanger_is_probed_twice(
    orchestrator: OrchestratorView,
    reports: Seq<ReportView>,
    earlier: int,
    later: int,
)
    requires
        orchestrator.well_formed(),
        0 <= earlier <= later < reports.len(),
    ensures
        earlier < later ==> (directive_at(orchestrator, reports, earlier) matches DirectiveView::Probe(
            first,
        ) ==> (directive_at(orchestrator, reports, later) matches DirectiveView::Probe(second)
            ==> first != second)),
        orchestrator.stage == Stage::Probing ==> (directive_at(
            orchestrator,
            reports,
            later,
        ) matches DirectiveView::Probe(second) ==> second
            != orchestrator.candidates[orchestrator.tried as int].hostname),
{
    let before_later = run(orchestrator, reports.subrange(0, later));
    let after_later = advance_spec(before_later, reports[later]).0;
    law_run_stays_well_formed(orchestrator, reports.subrange(0, later));
    lemma_advance_preserves(before_later, reports[later]);
    lemma_advance_probes(before_later, reports[later]);
    if directive_at(orchestrator, reports, later) is Probe {
        if orchestrator.stage == Stage::Probing {
            lemma_run_probes(orchestrator, reports.subrange(0, later));
            assert(after_later.tried > orchestrator.tried);
        }
        if earlier < later && directive_at(orchestrator, reports, earlier) is Probe {
            let before_earlier = run(orchestrator, reports.subrange(0, earlier));
            let after_earlier = advance_spec(before_earlier, reports[earlier]).0;
            law_run_stays_well_formed(orchestrator, reports.subrange(0, earlier));
            lemma_advance_preserves(before_earlier, reports[earlier]);
            lemma_advance_probes(before_earlier, reports[earlier]);
            let upto = reports.subrange(0, earlier + 1);
            assert(upto.drop_last() =~= reports.subrange(0, earlier));
            assert(upto.last() == reports[earlier]);
            assert(run(orchestrator, upto) == after_earlier);
            let between = reports.subrange(0, later);
            lemma_run_split(orchestrator, between, earlier + 1);
            assert(between.subrange(0, earlier + 1) =~= upto);
            lemma_run_probes(after_earlier, between.subrange(earlier + 1, later));
            assert(before_later.tried >= after_earlier.tried);
            assert(after_later.tried > after_earlier.tried);
        }
    }
}

/// A verification that ends as `InvalidFormat` or `DomainNotFound` has
/// probed no exchanger: neither its first directive nor any later one was to
/// probe.
pub proof fn law_no_probe_without_exchanger(
    raw: Seq<char>,
    policy: PolicyView,
    reports: Seq<ReportView>,
    k: int,
)
    requires
        policy.well_formed(),
        0 <= k < reports.len(),
        run(start_spec(raw, policy).0, reports).outcome == Some(Verdict::InvalidFormat) || run(
            start_spec(raw, policy).0,
            reports,
        ).outcome == Some(Verdict::DomainNotFound),
    ensures
        !(start_spec(raw, policy).1 is Probe),
        !(directive_at(start_spec(raw, policy).0, reports, k) is Probe),
        run(start_spec(raw, policy).0, reports).candidates.len() == 0,
{
    let start = start_spec(raw, policy).0;
    law_verification_stays_well_formed(raw, policy, reports);
    law_verification_stays_well_formed(raw, policy, reports.subrange(0, k));
    let before = run(start, reports.subrange(0, k));
    let after = advance_spec(before, reports[k]).0;
    lemma_advance_preserves(before, reports[k]);
    lemma_advance_probes(before, reports[k]);
    if directive_at(start, reports, k) is Probe {
        let upto = reports.subrange(0, k + 1);
        assert(upto.drop_last() =~= reports.subrange(0, k));
        assert(upto.last() == reports[k]);
        assert(run(start, upto) == after);
        lemma_run_split(start, reports, k + 1);
        lemma_run_probes(after, reports.subrange(k + 1, reports.len() as int));
    }
}

/// A run keeps a verification well-formed.
pub proof fn law_run_stays_well_formed(orchestrator: OrchestratorView, reports: Seq<ReportView>)
    requires
        orchestrator.well_formed(),
    ensures
        run(orchestrator, reports).well_formed(),
    decreases reports.len(),
{
    if reports.len() > 0 {
        law_run_stays_well_formed(orchestrator, reports.drop_last());
        lemma_advance_preserves(run(orchestrator, reports.drop_last()), reports.last());
    }
}

/// The first attempt that ends in anything but a network error decides:
/// network errors before it, within the budget, do not count. (The outcome
/// is one that a session can end in; the report of any other is out of
/// order.)
pub proof fn law_conclusive_outcome_wins(
    orchestrator: OrchestratorView,
    failures: Seq<Verdict>,
    conclusive: Verdict,
)
    requires
        orchestrator.well_formed(),
        orchestrator.stage == Stage::Probing,
        orchestrator.tried + failures.len() < orchestrator.budget(),
        forall|k: int| 0 <= k < failures.len() ==> (#[trigger] failures[k]).is_network_error(),
        !conclusive.is_network_error(),
        conclusive.comes_of_a_session(),
    ensures
        run(orchestrator, attempt_reports(failures.push(conclusive))).outcome == Some(conclusive),
        run(orchestrator, attempt_reports(failures.push(conclusive))).stage == Stage::Finished,
{
    let reports = attempt_reports(failures.push(conclusive));
    law_exchangers_tried_in_order(orchestrator, failures);
    assert(reports.drop_last() =~= attempt_reports(failures));
    assert(reports.last() == ReportView::Attempt(conclusive));
}

/// Where every exchanger within the budget fails with a network error, the
/// verdict is the network error of the last one.
pub proof fn law_all_network_errors_is_network_error(
    orchestrator: OrchestratorView,
    failures: Seq<Verdict>,
)
    requires
        orchestrator.well_formed(),
        orchestrator.stage == Stage::Probing,
        failures.len() > 0,
        orchestrator.tried + failures.len() == orchestrator.budget(),
        forall|k: int| 0 <= k < failures.len() ==> (#[trigger] failures[k]).is_network_error(),
    ensures
        run(orchestrator, attempt_reports(failures)).outcome == Some(failures.last()),
        failures.last().is_network_error(),
{
    let reports = attempt_reports(failures);
    law_exchangers_tried_in_order(orchestrator, failures.drop_last());
    assert(reports.drop_last() =~= attempt_reports(failures.drop_last()));
    assert(reports.last() == ReportView::Attempt(failures.last()));
}

/// One verification.
#[derive(Debug, PartialEq, Eq)]
pub struct Orchestrator {
    stage: Stage,
    address: Option<EmailAddress>,
    limit: usize,
    candidates: Vec<MxCandidate>,
    tried: usize,
    outcome: Option<VerificationOutcome>,
}

impl View for Orchestrator {
    type V = OrchestratorView;

    closed spec fn view(&self) -> OrchestratorView {
        OrchestratorView {
            stage: self.stage,
            address: match self.address {
                Some(address) => Some(address@),
                None => None,
            },
            limit: self.limit,
            candidates: candidates_view(self.candidates@),
            tried: self.tried as nat,
            outcome: match self.outcome {
                Some(outcome) => Some(outcome@),
                None => None,
            },
        }
    }
}

impl Orchestrator {
    /// Begins the verification of `raw` under `policy`.
    pub fn start(raw: &str, policy: &VerificationPolicy) -> (begun: (Orchestrator, Directive))
        ensures
            (begun.0@, begun.1@) == start_spec(raw@, policy@),
            begun.0@.well_formed(),
    {
        let limit = policy.max_exchangers_to_try();
        assert(candidates_view(Seq::<MxCandidate>::empty()) =~= Seq::<CandidateView>::empty());
        match EmailAddress::parse(raw) {
            Ok(address) => {
                let domain = address.domain().to_owned();
                (
                    Orchestrator {
                        stage: Stage::ResolvingMx,
                        address: Some(address),
                        limit,
                        candidates: Vec::new(),
                        tried: 0,
                        outcome: None,
                    },
                    Directive::LookupMx(domain),
                )
            },
            Err(_) => (
                Orchestrator {
                    stage: Stage::Finished,
                    address: None,
                    limit,
                    candidates: Vec::new(),
                    tried: 0,
                    outcome: Some(VerificationOutcome::InvalidFormat),
                },
                Directive::Finish,
            ),
        }
    }

    /// Where the verification stands.
    pub fn stage(&self) -> (stage: Stage)
        ensures
            stage == self@.stage,
            self@.well_formed(),
    {
        proof {
            use_type_invariant(self);
        }
        self.stage
    }

    /// The address under test, where the text was one.
    pub fn address(&self) -> (address: Option<&EmailAddress>)
        ensures
            match address {
                Some(a) => self@.address == Some(a@),
                None => self@.address is None,
            },
    {
        self.address.as_ref()
    }

    /// The exchanger under probe.
    pub fn current_exchanger(&self) -> (candidate: Option<&MxCandidate>)
        ensures
            match candidate {
                Some(c) => self@.stage == Stage::Probing && c@ == self@.candidates[self@.tried as int],
                None => self@.stage != Stage::Probing,
            },
    {
        proof {
            use_type_invariant(self);
        }
        if self.stage == Stage::Probing {
            Some(&self.candidates[self.tried])
        } else {
            None
        }
    }

    /// The verdict of a finished verification.
    pub fn outcome(&self) -> (outcome: Option<&VerificationOutcome>)
        ensures
            match outcome {
                Some(verdict) => self@.outcome == Some(verdict@),
                None => self@.outcome is None,
            },
    {
        self.outcome.as_ref()
    }

    /// Gives up the verification for its verdict.
    pub fn into_outcome(self) -> (outcome: Option<VerificationOutcome>)
        ensures
            match outcome {
                Some(verdict) => self@.outcome == Some(verdict@),
                None => self@.outcome is None,
            },
    {
        self.outcome
    }

    fn finish_with(self, outcome: VerificationOutcome) -> (done: (Orchestrator, Directive))
        requires
            self@.candidates.len() > 0 ==> outcome@.comes_of_a_session(),
        ensures
            (done.0@, done.1@) == self@.finished_with(outcome@),
    {
        proof {
            use_type_invariant(&self);
        }
        (
            Orchestrator {
                stage: Stage::Finished,
                address: self.address,
                limit: self.limit,
                candidates: self.candidates,
                tried: self.tried,
                outcome: Some(outcome),
            },
            Directive::Finish,
        )
    }

    fn probe(self, candidates: Vec<MxCandidate>) -> (next: (Orchestrator, Directive))
        requires
            self@.stage == Stage::ResolvingMx || self@.stage == Stage::ResolvingAddress,
            distinct_hosts(candidates_view(candidates@)),
        ensures
            (next.0@, next.1@) == self@.probing(candidates_view(candidates@)),
    {
        proof {
            use_type_invariant(&self);
        }
        if candidates.len() == 0 {
            return self.finish_with(VerificationOutcome::DomainNotFound);
        }
        let hostname = candidates[0].hostname.clone();
        (
            Orchestrator {
                stage: Stage::Probing,
                address: self.address,
                limit: self.limit,
                candidates,
                tried: 0,
                outcome: self.outcome,
            },
            Directive::Probe(hostname),
        )
    }

    /// Takes in the report of what the last directive asked for and says
    /// what to do next.
    pub fn step(self, report: Report) -> (next: (Orchestrator, Directive))
        ensures
            (next.0@, next.1@) == advance_spec(self@, report@),
            next.0@.well_formed(),
            next.1 is Finish <==> next.0@.outcome is Some,
    {
        proof {
            use_type_invariant(&self);
            lemma_advance_preserves(self@, report@);
        }
        match self.stage {
            Stage::Finished => (self, Directive::Finish),
            Stage::ResolvingMx => match report {
                Report::Mx(answer) => match after_mx_lookup(answer) {
                    MxDecision::Resolved(candidates) => self.probe(candidates),
                    MxDecision::NeedAddressLookup => {
                        let domain = match &self.address {
                            Some(address) => address.domain().to_owned(),
                            None => String::new(),
                        };
                        (
                            Orchestrator {
                                stage: Stage::ResolvingAddress,
                                address: self.address,
                                limit: self.limit,
                                candidates: self.candidates,
                                tried: self.tried,
                                outcome: self.outcome,
                            },
                            Directive::LookupAddress(domain),
                        )
                    },
                    MxDecision::Failed(error) => self.finish_with(
                        VerificationOutcome::from_resolution_error(error),
                    ),
                },
                _ => self.finish_with(
                    VerificationOutcome::ProtocolError("report out of order".to_owned()),
                ),
            },
            Stage::ResolvingAddress => match report {
                Report::Address(answer) => {
                    let decision = match &self.address {
                        Some(address) => after_address_lookup(address.domain(), answer),
                        None => after_address_lookup("", answer),
                    };
                    match decision {
                        Ok(candidates) => self.probe(candidates),
                        Err(error) => self.finish_with(
                            VerificationOutcome::from_resolution_error(error),
                        ),
                    }
                },
                _ => self.finish_with(
                    VerificationOutcome::ProtocolError("report out of order".to_owned()),
                ),
            },
            Stage::Probing => match report {
                Report::Attempt(outcome) => {
                    let budget = if self.candidates.len() <= self.limit {
                        self.candidates.len()
                    } else {
                        self.limit
                    };
                    if !outcome.comes_of_a_session() {
                        self.finish_with(
                            VerificationOutcome::ProtocolError("report out of order".to_owned()),
                        )
                    } else if outcome.is_network_error() && self.tried + 1 < budget {
                        let hostname = self.candidates[self.tried + 1].hostname.clone();
                        (
                            Orchestrator {
                                stage: self.stage,
                                address: self.address,
                                limit: self.limit,
                                candidates: self.candidates,
                                tried: self.tried + 1,
                                outcome: self.outcome,
                            },
                            Directive::Probe(hostname),
                        )
                    } else {
                        self.finish_with(outcome)
                    }
                },
                _ => self.finish_with(
                    VerificationOutcome::ProtocolError("report out of order".to_owned()),
                ),
            },
        }
    }

    #[verifier::type_invariant]
    spec fn valid(&self) -> bool {
        self@.well_formed()
    }
}

} // verus!
