//! From DNS answers to the exchangers of a domain.
//!
//! The mail exchangers are ordered by ascending preference; records of equal
//! preference keep the order in which the DNS gave them. Of several records
//! that name one host only the most preferred is kept, so that no host is a
//! candidate twice; host names are compared as the DNS gave them. A domain
//! without mail exchangers is its own exchanger, with preference 0, provided
//! it has an address record.

use vstd::prelude::*;

use crate::outcome::DnsFailure;
use crate::outcome::ResolutionError;

verus! {

/// A host that takes mail for a domain.
#[derive(Debug, Clone, PartialEq, Eq)]
pub struct MxCandidate {
    /// The name of the host.
    pub hostname: String,
    /// Its rank among the exchangers of the domain; lower is tried first.
    pub preference: u16,
}

/// A candidate as a mathematical value.
pub struct CandidateView {
    pub hostname: Seq<char>,
    pub preference: u16,
}

impl View for MxCandidate {
    type V = CandidateView;

    open spec fn view(&self) -> CandidateView {
        CandidateView { hostname: self.hostname@, preference: self.preference }
    }
}

/// The views of the candidates, in order.
pub open spec fn candidates_view(candidates: Seq<MxCandidate>) -> Seq<CandidateView> {
    Seq::new(candidates.len(), |i: int| candidates[i]@)
}

/// Whether the preferences never fall along the sequence.
pub open spec fn ascending(candidates: Seq<CandidateView>) -> bool {
    forall|i: int, j: int|
        0 <= i <= j < candidates.len() ==> candidates[i].preference <= candidates[j].preference
}

/// The first position at or behind `from` whose candidate has a preference
/// of at least `preference`, or the length where there is none.
pub open spec fn insert_point(candidates: Seq<CandidateView>, preference: u16, from: int) -> int
    decreases candidates.len() - from,
{
    if from < 0 || from >= candidates.len() || candidates[from].preference >= preference {
        from
    } else {
        insert_point(candidates, preference, from + 1)
    }
}

/// `candidates` with `candidate` put before the first one that is not
/// preferred to it.
pub open spec fn place(candidates: Seq<CandidateView>, candidate: CandidateView) -> Seq<
    CandidateView,
> {
    candidates.insert(insert_point(candidates, candidate.preference, 0), candidate)
}

/// The candidates by ascending preference, those of equal preference in
/// their given order.
pub open spec fn ordered(candidates: Seq<CandidateView>) -> Seq<CandidateView>
    decreases candidates.len(),
{
    if candidates.len() == 0 {
        Seq::empty()
    } else {
        place(ordered(candidates.drop_first()), candidates.first())
    }
}

/// Whether no two candidates name one host.
pub open spec fn distinct_hosts(candidates: Seq<CandidateView>) -> bool {
    forall|i: int, j: int|
        0 <= i < j < candidates.len() ==> candidates[i].hostname != candidates[j].hostname
}

/// Whether one of the first `upto` candidates names `hostname`.
pub open spec fn names(candidates: Seq<CandidateView>, upto: int, hostname: Seq<char>) -> bool {
    exists|j: int|
        0 <= j < upto && j < candidates.len() && (#[trigger] candidates[j]).hostname == hostname
}

/// Whether `candidate` is one of the first `upto` candidates.
pub open spec fn among(candidates: Seq<CandidateView>, upto: int, candidate: CandidateView)
    -> bool {
    exists|j: int| 0 <= j < upto && j < candidates.len() && #[trigger] candidates[j] == candidate
}

/// The first `upto` candidates without those whose host an earlier one
/// names.
pub open spec fn merged_upto(candidates: Seq<CandidateView>, upto: int) -> Seq<CandidateView>
    decreases upto,
{
    if upto <= 0 {
        Seq::empty()
    } else if names(candidates, upto - 1, candidates[upto - 1].hostname) {
        merged_upto(candidates, upto - 1)
    } else {
        merged_upto(candidates, upto - 1).push(candidates[upto - 1])
    }
}

/// The candidates without those whose host an earlier one names: of each
/// host the first record stays, which among ordered candidates is its most
/// preferred.
pub open spec fn merged(candidates: Seq<CandidateView>) -> Seq<CandidateView> {
    merged_upto(candidates, candidates.len() as int)
}

/// The exchangers to try for the records of a domain: ordered by
/// preference, each host once.
pub open spec fn exchangers_of(records: Seq<CandidateView>) -> Seq<CandidateView> {
    merged(ordered(records))
}

/// What the answer to the query for mail exchangers leads to.
#[derive(Debug, Clone, PartialEq, Eq)]
pub enum MxDecision {
    /// These are the exchangers, in the order in which to try them.
    Resolved(Vec<MxCandidate>),
    /// There is no mail exchanger: ask for an address record of the domain.
    NeedAddressLookup,
    /// The resolution failed.
    Failed(ResolutionError),
}

/// A decision as a mathematical value.
pub enum MxDecisionView {
    Resolved(Seq<CandidateView>),
    NeedAddressLookup,
    Failed(ResolutionError),
}

impl View for MxDecision {
    type V = MxDecisionView;

    open spec fn view(&self) -> MxDecisionView {
        match self {
            MxDecision::Resolved(candidates) => MxDecisionView::Resolved(
                candidates_view(candidates@),
            ),
            MxDecision::NeedAddressLookup => MxDecisionView::NeedAddressLookup,
            MxDecision::Failed(error) => MxDecisionView::Failed(*error),
        }
    }
}

/// The answer to the query for mail exchangers, as a mathematical value.
pub open spec fn mx_answer_view(answer: Result<Vec<MxCandidate>, DnsFailure>) -> Result<
    Seq<CandidateView>,
    DnsFailure,
> {
    match answer {
        Ok(records) => Ok(candidates_view(records@)),
        Err(failure) => Err(failure),
    }
}

/// The error that a failed query stands for, where it is one: a query that
/// found no records is none.
pub open spec fn error_of(failure: DnsFailure) -> Option<ResolutionError> {
    match failure {
        DnsFailure::NoRecords => None,
        DnsFailure::Transport => Some(ResolutionError::NetworkError),
        DnsFailure::Malformed => Some(ResolutionError::ProtocolError),
    }
}

/// Whether the answer names no mail exchanger.
pub open spec fn no_exchanger(answer: Result<Seq<CandidateView>, DnsFailure>) -> bool {
    match answer {
        Ok(records) => records.len() == 0,
        Err(failure) => failure == DnsFailure::NoRecords,
    }
}

/// Whether the answer names no address.
pub open spec fn no_address(answer: Result<usize, DnsFailure>) -> bool {
    match answer {
        Ok(count) => count == 0,
        Err(failure) => failure == DnsFailure::NoRecords,
    }
}

/// What the answer to the query for mail exchangers leads to.
pub open spec fn mx_decision(answer: Result<Seq<CandidateView>, DnsFailure>) -> MxDecisionView {
    match answer {
        Ok(records) => if records.len() == 0 {
            MxDecisionView::NeedAddressLookup
        } else {
            MxDecisionView::Resolved(exchangers_of(records))
        },
        Err(failure) => match error_of(failure) {
            Some(error) => MxDecisionView::Failed(error),
            None => MxDecisionView::NeedAddressLookup,
        },
    }
}

/// What the answer to the query for an address of `domain` leads to: the
/// domain as its own exchanger, or an error.
pub open spec fn address_decision(domain: Seq<char>, answer: Result<usize, DnsFailure>) -> Result<
    Seq<CandidateView>,
    ResolutionError,
> {
    match answer {
        Ok(count) => if count == 0 {
            Err(ResolutionError::DomainNotFound)
        } else {
            Ok(seq![CandidateView { hostname: domain, preference: 0 }])
        },
        Err(failure) => match error_of(failure) {
            Some(error) => Err(error),
            None => Err(ResolutionError::DomainNotFound),
        },
    }
}

/// The exchangers of `domain`, given the answers to both queries; the
/// second is consulted only where the first names no exchanger.
pub open spec fn resolve_spec(
    domain: Seq<char>,
    mx: Result<Seq<CandidateView>, DnsFailure>,
    address: Result<usize, DnsFailure>,
) -> Result<Seq<CandidateView>, ResolutionError> {
    match mx_decision(mx) {
        MxDecisionView::Resolved(candidates) => Ok(candidates),
        MxDecisionView::NeedAddressLookup => address_decision(domain, address),
        MxDecisionView::Failed(error) => Err(error),
    }
}

/// The insert point lies within the sequence; every candidate before it is
/// preferred to the new one, and the one at it is not.
pub proof fn lemma_insert_point(candidates: Seq<CandidateView>, preference: u16, from: int)
    requires
        0 <= from <= candidates.len(),
    ensures
        from <= insert_point(candidates, preference, from) <= candidates.len(),
        forall|k: int|
            from <= k < insert_point(candidates, preference, from) ==> candidates[k].preference
                < preference,
        insert_point(candidates, preference, from) < candidates.len() ==> candidates[insert_point(
            candidates,
            preference,
            from,
        )].preference >= preference,
    decreases candidates.len() - from,
{
    if from < candidates.len() && candidates[from].preference < preference {
        lemma_insert_point(candidates, preference, from + 1);
    }
}

/// Placing a candidate keeps an ascending sequence ascending and adds
/// exactly that candidate.
pub proof fn lemma_place(candidates: Seq<CandidateView>, candidate: CandidateView)
    requires
        ascending(candidates),
    ensures
        ascending(place(candidates, candidate)),
        place(candidates, candidate).len() == candidates.len() + 1,
        place(candidates, candidate).to_multiset() == candidates.to_multiset().insert(candidate),
{
    let at = insert_point(candidates, candidate.preference, 0);
    lemma_insert_point(candidates, candidate.preference, 0);
    let placed = place(candidates, candidate);
    assert forall|i: int, j: int| 0 <= i <= j < placed.len() implies placed[i].preference
        <= placed[j].preference by {
        if i < at && j > at {
            assert(candidates[i].preference < candidate.preference);
            assert(candidates[at].preference <= candidates[j - 1].preference);
        }
    }
    vstd::seq_lib::to_multiset_insert(candidates, at, candidate);
}

/// The ordered candidates ascend in preference and are the given ones, each
/// as often as it was given.
pub proof fn lemma_ordered(candidates: Seq<CandidateView>)
    ensures
        ascending(ordered(candidates)),
        ordered(candidates).len() == candidates.len(),
        ordered(candidates).to_multiset() == candidates.to_multiset(),
    decreases candidates.len(),
{
    if candidates.len() == 0 {
        assert(ordered(candidates).to_multiset() =~= candidates.to_multiset()) by {
            assert(candidates =~= Seq::empty());
        }
    } else {
        let rest = candidates.drop_first();
        lemma_ordered(rest);
        lemma_place(ordered(rest), candidates.first());
        assert(candidates =~= rest.insert(0, candidates.first()));
        vstd::seq_lib::to_multiset_insert(rest, 0, candidates.first());
        assert(candidates.to_multiset() =~= rest.to_multiset().insert(candidates.first()));
    }
}

/// What was kept of the first `upto` candidates is no longer than they are,
/// and each candidate kept is one of them.
pub proof fn lemma_merged_is_among(candidates: Seq<CandidateView>, upto: int, k: int)
    requires
        0 <= upto <= candidates.len(),
        0 <= k < merged_upto(candidates, upto).len(),
    ensures
        merged_upto(candidates, upto).len() <= upto,
        among(candidates, upto, merged_upto(candidates, upto)[k]),
    decreases upto,
{
    if upto > 0 {
        let before = merged_upto(candidates, upto - 1);
        lemma_merged_len(candidates, upto - 1);
        if k < before.len() {
            lemma_merged_is_among(candidates, upto - 1, k);
            let j = choose|j: int|
                0 <= j < upto - 1 && j < candidates.len() && #[trigger] candidates[j] == before[k];
            assert(candidates[j] == merged_upto(candidates, upto)[k]);
        } else {
            assert(candidates[upto - 1] == merged_upto(candidates, upto)[k]);
        }
    }
}

/// What was kept of the first `upto` candidates is no longer than they are.
pub proof fn lemma_merged_len(candidates: Seq<CandidateView>, upto: int)
    requires
        0 <= upto <= candidates.len(),
    ensures
        merged_upto(candidates, upto).len() <= upto,
        upto >= 1 ==> merged_upto(candidates, upto).len() >= 1 && merged_upto(candidates, upto)[0]
            == candidates[0],
    decreases upto,
{
    if upto > 0 {
        lemma_merged_len(candidates, upto - 1);
        if upto == 1 {
            assert(!names(candidates, 0, candidates[0].hostname));
        }
    }
}

/// Merging loses no host: what was kept of the first `upto` candidates
/// names exactly the hosts that they name.
pub proof fn lemma_merged_names(candidates: Seq<CandidateView>, upto: int, hostname: Seq<char>)
    requires
        0 <= upto <= candidates.len(),
    ensures
        names(candidates, upto, hostname) == names(
            merged_upto(candidates, upto),
            merged_upto(candidates, upto).len() as int,
            hostname,
        ),
    decreases upto,
{
    if upto > 0 {
        let before = merged_upto(candidates, upto - 1);
        let after = merged_upto(candidates, upto);
        let last = candidates[upto - 1];
        lemma_merged_names(candidates, upto - 1, hostname);
        lemma_merged_names(candidates, upto - 1, last.hostname);
        if names(candidates, upto, hostname) {
            let j = choose|j: int|
                0 <= j < upto && j < candidates.len() && (#[trigger] candidates[j]).hostname
                    == hostname;
            if j < upto - 1 {
                assert(names(candidates, upto - 1, hostname));
            } else {
                if names(candidates, upto - 1, last.hostname) {
                    assert(names(candidates, upto - 1, hostname));
                } else {
                    assert(after[after.len() - 1].hostname == hostname);
                }
            }
            if names(candidates, upto - 1, hostname) {
                let k = choose|k: int|
                    0 <= k < before.len() && k < before.len() && (#[trigger] before[k]).hostname
                        == hostname;
                assert(after[k].hostname == hostname);
            }
            assert(names(after, after.len() as int, hostname));
        }
        if names(after, after.len() as int, hostname) {
            let k = choose|k: int|
                0 <= k < after.len() && k < after.len() && (#[trigger] after[k]).hostname
                    == hostname;
            if k < before.len() {
                assert(before[k].hostname == hostname);
                assert(names(before, before.len() as int, hostname));
                let j = choose|j: int|
                    0 <= j < upto - 1 && j < candidates.len() && (#[trigger] candidates[j]).hostname
                        == hostname;
                assert(candidates[j].hostname == hostname);
            } else {
                assert(candidates[upto - 1].hostname == hostname);
            }
            assert(names(candidates, upto, hostname));
        }
    }
}

/// What merging keeps names no host twice, and ascends where the candidates
/// ascend.
pub proof fn lemma_merged_upto(candidates: Seq<CandidateView>, upto: int)
    requires
        0 <= upto <= candidates.len(),
    ensures
        distinct_hosts(merged_upto(candidates, upto)),
        ascending(candidates) ==> ascending(merged_upto(candidates, upto)),
    decreases upto,
{
    if upto > 0 {
        let before = merged_upto(candidates, upto - 1);
        let after = merged_upto(candidates, upto);
        let last = candidates[upto - 1];
        lemma_merged_upto(candidates, upto - 1);
        if !names(candidates, upto - 1, last.hostname) {
            assert forall|i: int, j: int| 0 <= i < j < after.len() implies after[i].hostname
                != after[j].hostname by {
                if j == before.len() {
                    lemma_merged_is_among(candidates, upto - 1, i);
                    let w = choose|w: int|
                        0 <= w < upto - 1 && w < candidates.len() && #[trigger] candidates[w]
                            == before[i];
                    if before[i].hostname == last.hostname {
                        assert(candidates[w].hostname == last.hostname);
                    }
                }
            }
            if ascending(candidates) {
                assert forall|i: int, j: int| 0 <= i <= j < after.len() implies after[i].preference
                    <= after[j].preference by {
                    if j == before.len() && i < j {
                        lemma_merged_is_among(candidates, upto - 1, i);
                        let w = choose|w: int|
                            0 <= w < upto - 1 && w < candidates.len() && #[trigger] candidates[w]
                                == before[i];
                        assert(candidates[w].preference <= candidates[upto - 1].preference);
                    }
                }
            }
        }
    }
}

/// The exchangers of a domain's records: at least one where there is a
/// record, by ascending preference, and no host twice. Each is one of the
/// records, the first among them is the most preferred record, and every
/// host that a record names is among them.
pub proof fn law_exchangers_are_distinct_and_ascend(records: Seq<CandidateView>)
    ensures
        exchangers_of(records).len() <= records.len(),
        records.len() >= 1 ==> exchangers_of(records).len() >= 1,
        ascending(exchangers_of(records)),
        distinct_hosts(exchangers_of(records)),
        forall|k: int|
            0 <= k < exchangers_of(records).len() ==> records.contains(
                #[trigger] exchangers_of(records)[k],
            ),
        forall|j: int|
            0 <= j < records.len() ==> names(
                exchangers_of(records),
                exchangers_of(records).len() as int,
                (#[trigger] records[j]).hostname,
            ),
{
    let sorted = ordered(records);
    lemma_ordered(records);
    lemma_merged_upto(sorted, sorted.len() as int);
    lemma_merged_len(sorted, sorted.len() as int);
    let kept = exchangers_of(records);
    assert forall|k: int| 0 <= k < kept.len() implies records.contains(#[trigger] kept[k]) by {
        lemma_merged_is_among(sorted, sorted.len() as int, k);
        let w = choose|w: int|
            0 <= w < sorted.len() && w < sorted.len() && #[trigger] sorted[w] == kept[k];
        assert(sorted.contains(sorted[w]));
        sorted.to_multiset_ensures();
        records.to_multiset_ensures();
        assert(sorted.to_multiset().count(kept[k]) > 0);
    }
    assert forall|j: int| 0 <= j < records.len() implies names(
        kept,
        kept.len() as int,
        (#[trigger] records[j]).hostname,
    ) by {
        assert(records.contains(records[j]));
        sorted.to_multiset_ensures();
        records.to_multiset_ensures();
        assert(sorted.to_multiset().count(records[j]) > 0);
        assert(sorted.contains(records[j]));
        let w = choose|w: int| 0 <= w < sorted.len() && sorted[w] == records[j];
        assert(sorted[w].hostname == records[j].hostname);
        assert(names(sorted, sorted.len() as int, records[j].hostname));
        lemma_merged_names(sorted, sorted.len() as int, records[j].hostname);
    }
}

/// Whatever the DNS answers, a resolution that succeeds names at least one
/// exchanger, names them by ascending preference, and names no host twice.
pub proof fn law_resolved_exchangers_ascend(
    domain: Seq<char>,
    mx: Result<Seq<CandidateView>, DnsFailure>,
    address: Result<usize, DnsFailure>,
)
    ensures
        resolve_spec(domain, mx, address) matches Ok(candidates) ==> candidates.len() >= 1
            && ascending(candidates) && distinct_hosts(candidates),
        resolve_spec(domain, mx, address) matches Ok(candidates) ==> {
            ||| mx matches Ok(records) && candidates == exchangers_of(records)
            ||| no_exchanger(mx) && candidates == seq![
                CandidateView { hostname: domain, preference: 0 },
            ]
        },
{
    if let Ok(records) = mx {
        law_exchangers_are_distinct_and_ascend(records);
    }
}

/// A domain that has neither a mail exchanger nor an address record does not
/// resolve: it is not found.
pub proof fn law_no_records_is_domain_not_found(
    domain: Seq<char>,
    mx: Result<Seq<CandidateView>, DnsFailure>,
    address: Result<usize, DnsFailure>,
)
    requires
        no_exchanger(mx),
        no_address(address),
    ensures
        resolve_spec(domain, mx, address) == Err::<Seq<CandidateView>, ResolutionError>(
            ResolutionError::DomainNotFound,
        ),
{
}

/// Orders the records of a domain for trial.
pub fn order_by_preference(records: Vec<MxCandidate>) -> (sorted: Vec<MxCandidate>)
    ensures
        candidates_view(sorted@) == ordered(candidates_view(records@)),
        ascending(candidates_view(sorted@)),
        sorted@.len() == records@.len(),
        candidates_view(sorted@).to_multiset() == candidates_view(records@).to_multiset(),
{
    let ghost given = candidates_view(records@);
    let mut rest = records;
    let mut sorted: Vec<MxCandidate> = Vec::new();
    assert(given.subrange(given.len() as int, given.len() as int) =~= Seq::empty());
    assert(candidates_view(sorted@) =~= Seq::empty());
    while rest.len() > 0
        invariant
            given.len() == records@.len(),
            rest@.len() <= given.len(),
            candidates_view(rest@) == given.subrange(0, rest@.len() as int),
            candidates_view(sorted@) == ordered(
                given.subrange(rest@.len() as int, given.len() as int),
            ),
            sorted@.len() + rest@.len() == given.len(),
        decreases rest.len(),
    {
        let ghost before = candidates_view(sorted@);
        let ghost tail = given.subrange(rest@.len() as int, given.len() as int);
        let ghost remaining = rest@.len() as int;
        let ghost full = rest@;
        let candidate = rest.pop().unwrap();
        proof {
            assert(candidate@ == given[remaining - 1]) by {
                assert(candidates_view(full)[remaining - 1] == given[remaining - 1]);
            }
            let longer = given.subrange(remaining - 1, given.len() as int);
            assert(longer.first() == candidate@);
            assert(longer.drop_first() =~= tail);
            assert(candidates_view(rest@) =~= given.subrange(0, remaining - 1));
            lemma_ordered(tail);
            lemma_insert_point(before, candidate.preference, 0);
        }
        let mut at: usize = 0;
        while at < sorted.len() && sorted[at].preference < candidate.preference
            invariant
                at <= sorted.len(),
                before == candidates_view(sorted@),
                insert_point(before, candidate.preference, 0) == insert_point(
                    before,
                    candidate.preference,
                    at as int,
                ),
            decreases sorted.len() - at,
        {
            at += 1;
        }
        let ghost shown = candidate@;
        sorted.insert(at, candidate);
        assert(candidates_view(sorted@) =~= place(before, shown));
    }
    proof {
        assert(given.subrange(0, given.len() as int) =~= given);
        lemma_ordered(given);
    }
    sorted
}

/// Whether one of `candidates` names `hostname`.
fn names_host(candidates: &Vec<MxCandidate>, hostname: &String) -> (found: bool)
    ensures
        found == names(candidates_view(candidates@), candidates@.len() as int, hostname@),
{
    let mut k: usize = 0;
    while k < candidates.len()
        invariant
            k <= candidates.len(),
            !names(candidates_view(candidates@), k as int, hostname@),
        decreases candidates.len() - k,
    {
        if candidates[k].hostname == *hostname {
            assert(candidates_view(candidates@)[k as int].hostname == hostname@);
            return true;
        }
        proof {
            let shown = candidates_view(candidates@);
            if names(shown, k + 1, hostname@) {
                let j = choose|j: int|
                    0 <= j < k + 1 && j < shown.len() && (#[trigger] shown[j]).hostname
                        == hostname@;
                if j < k {
                    assert(names(shown, k as int, hostname@));
                }
            }
        }
        k += 1;
    }
    false
}

/// Keeps of each host the first candidate that names it.
pub fn merge_hosts(candidates: &Vec<MxCandidate>) -> (kept: Vec<MxCandidate>)
    ensures
        candidates_view(kept@) == merged(candidates_view(candidates@)),
        distinct_hosts(candidates_view(kept@)),
        ascending(candidates_view(candidates@)) ==> ascending(candidates_view(kept@)),
        kept@.len() <= candidates@.len(),
        candidates@.len() >= 1 ==> kept@.len() >= 1,
{
    let ghost given = candidates_view(candidates@);
    let mut kept: Vec<MxCandidate> = Vec::new();
    let mut i: usize = 0;
    assert(candidates_view(kept@) =~= merged_upto(given, 0));
    while i < candidates.len()
        invariant
            i <= candidates.len(),
            given == candidates_view(candidates@),
            candidates_view(kept@) == merged_upto(given, i as int),
        decreases candidates.len() - i,
    {
        let ghost before = candidates_view(kept@);
        proof {
            lemma_merged_names(given, i as int, given[i as int].hostname);
        }
        if !names_host(&kept, &candidates[i].hostname) {
            kept.push(
                MxCandidate {
                    hostname: candidates[i].hostname.clone(),
                    preference: candidates[i].preference,
                },
            );
            assert(candidates_view(kept@) =~= before.push(given[i as int]));
        }
        i += 1;
    }
    proof {
        lemma_merged_upto(given, given.len() as int);
        lemma_merged_len(given, given.len() as int);
    }
    kept
}

/// Decides on the answer to the query for mail exchangers.
///
/// Exchangers that are found come by ascending preference, and no host is
/// among them twice.
pub fn after_mx_lookup(answer: Result<Vec<MxCandidate>, DnsFailure>) -> (decision: MxDecision)
    ensures
        decision@ == mx_decision(mx_answer_view(answer)),
        decision@ matches MxDecisionView::Resolved(candidates) ==> candidates.len() >= 1
            && ascending(candidates) && distinct_hosts(candidates),
{
    match answer {
        Ok(records) => {
            if records.len() == 0 {
                MxDecision::NeedAddressLookup
            } else {
                let sorted = order_by_preference(records);
                MxDecision::Resolved(merge_hosts(&sorted))
            }
        },
        Err(DnsFailure::NoRecords) => MxDecision::NeedAddressLookup,
        Err(DnsFailure::Transport) => MxDecision::Failed(ResolutionError::NetworkError),
        Err(DnsFailure::Malformed) => MxDecision::Failed(ResolutionError::ProtocolError),
    }
}

/// Decides on the answer to the query for an address of `domain`, which
/// tells how many addresses were found.
pub fn after_address_lookup(domain: &str, answer: Result<usize, DnsFailure>) -> (r: Result<
    Vec<MxCandidate>,
    ResolutionError,
>)
    ensures
        match r {
            Ok(candidates) => address_decision(domain@, answer) == Ok::<
                Seq<CandidateView>,
                ResolutionError,
            >(candidates_view(candidates@)),
            Err(error) => address_decision(domain@, answer) == Err::<
                Seq<CandidateView>,
                ResolutionError,
            >(error),
        },
        r matches Ok(candidates) ==> candidates@.len() == 1,
{
    match answer {
        Ok(count) => {
            if count == 0 {
                Err(ResolutionError::DomainNotFound)
            } else {
                let mut candidates: Vec<MxCandidate> = Vec::new();
                candidates.push(MxCandidate { hostname: domain.to_owned(), preference: 0 });
                assert(candidates_view(candidates@) =~= seq![
                    CandidateView { hostname: domain@, preference: 0 },
                ]);
                Ok(candidates)
            }
        },
        Err(DnsFailure::NoRecords) => Err(ResolutionError::DomainNotFound),
        Err(DnsFailure::Transport) => Err(ResolutionError::NetworkError),
        Err(DnsFailure::Malformed) => Err(ResolutionError::ProtocolError),
    }
}

} // verus!
