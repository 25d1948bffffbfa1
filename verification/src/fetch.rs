//! What becomes of the responses to a lookup's requests: which are worth
//! keeping, which go into a cache, and which one answers the lookup.
use crate::jobs::{clone_text, job_models, Job, JobModel};
use crate::sympath::text_of;
use vstd::prelude::*;
use vstd::slice::slice_to_vec;
use vstd::string::StringSliceAdditionalSpecFns;

verus! {

/// How one request ended: the body of the response, or why there was none.
/// `job` is the position of the request in the list of jobs.
#[derive(Debug, PartialEq, Eq)]
pub struct Completion {
    pub job: usize,
    pub response: Result<Vec<u8>, String>,
}

/// What a [`Completion`] holds, as sequences.
pub struct CompletionModel {
    pub job: usize,
    pub response: Result<Seq<u8>, Seq<char>>,
}

impl View for Completion {
    type V = CompletionModel;

    open spec fn view(&self) -> CompletionModel {
        CompletionModel {
            job: self.job,
            response: match self.response {
                Ok(body) => Ok(body@),
                Err(reason) => Err(reason@),
            },
        }
    }
}

/// The models of a list of completions, in order.
pub open spec fn completion_models(completions: Seq<Completion>) -> Seq<CompletionModel> {
    Seq::new(completions.len(), |i: int| completions[i]@)
}

/// A response that is worth keeping: its bytes, the position of the job that
/// it answers and, where that job has one, the cache entry to write it to.
#[derive(Debug, PartialEq, Eq)]
pub struct Found {
    pub job: usize,
    pub cache: Option<String>,
    pub data: Vec<u8>,
}

/// What a [`Found`] holds, as sequences.
pub struct FoundModel {
    pub job: usize,
    pub cache: Option<Seq<char>>,
    pub data: Seq<u8>,
}

impl View for Found {
    type V = FoundModel;

    open spec fn view(&self) -> FoundModel {
        FoundModel { job: self.job, cache: text_of(self.cache), data: self.data@ }
    }
}

/// The models of a list of kept responses, in order.
pub open spec fn found_models(found: Seq<Found>) -> Seq<FoundModel> {
    Seq::new(found.len(), |i: int| found[i]@)
}

/// What is done with a response.
#[derive(Debug, PartialEq, Eq)]
pub enum Disposal {
    /// It is empty or says that the server has no such file: it is dropped.
    Discard,
    /// It is worth keeping, and its job has no cache.
    Keep,
    /// It is worth keeping, and is to be written to the cache entry at this
    /// path.
    Store(String),
}

/// A [`Disposal`] with its path as a sequence of characters.
pub enum DisposalModel {
    Discard,
    Keep,
    Store(Seq<char>),
}

impl View for Disposal {
    type V = DisposalModel;

    open spec fn view(&self) -> DisposalModel {
        match self {
            Disposal::Discard => DisposalModel::Discard,
            Disposal::Keep => DisposalModel::Keep,
            Disposal::Store(path) => DisposalModel::Store(path@),
        }
    }
}

/// The bytes with which a server's response begins when it has no such file.
pub open spec fn not_found_notice() -> Seq<u8> {
    "Symbol Not Found".spec_bytes()
}

/// Whether a response is worth keeping: it is not empty and does not begin
/// with the notice that nothing was found.
pub open spec fn usable(data: Seq<u8>) -> bool {
    data.len() > 0 && !not_found_notice().is_prefix_of(data)
}

/// What is done with a response, given its job's cache entry.
pub open spec fn disposal(path: Option<Seq<char>>, data: Seq<u8>) -> DisposalModel {
    if !usable(data) {
        DisposalModel::Discard
    } else {
        match path {
            Some(p) => DisposalModel::Store(p),
            None => DisposalModel::Keep,
        }
    }
}

/// Whether `data` begins with `prefix`.
pub fn starts_with(data: &[u8], prefix: &[u8]) -> (r: bool)
    ensures
        r == prefix@.is_prefix_of(data@),
{
    if data.len() < prefix.len() {
        return false;
    }
    let mut i: usize = 0;
    while i < prefix.len()
        invariant
            i <= prefix.len() <= data.len(),
            forall|j: int| 0 <= j < i ==> prefix@[j] == data@[j],
        decreases prefix.len() - i,
    {
        if prefix[i] != data[i] {
            return false;
        }
        i += 1;
    }
    true
}

/// Decides what is done with the response to a job whose cache entry is
/// `path`: whether it is worth keeping and whether it is to be written.
pub fn copy_in_cache(path: Option<String>, data: &[u8]) -> (r: Disposal)
    ensures
        r@ == disposal(text_of(path), data@),
{
    if data.len() == 0 || starts_with(data, "Symbol Not Found".as_bytes()) {
        return Disposal::Discard;
    }
    match path {
        Some(p) => Disposal::Store(p),
        None => Disposal::Keep,
    }
}

/// What a request that got no response does to the lookup.
#[derive(Clone, Copy, Debug, PartialEq, Eq, Structural)]
pub enum Failures {
    /// The first request without a response ends the lookup with its error;
    /// responses that came after it are not looked at.
    Abort,
    /// A request without a response counts for nothing. The lookup fails only
    /// where some request failed and none got a response.
    Isolate,
}

/// Which response answers the lookup when several are worth keeping.
#[derive(Clone, Copy, Debug, PartialEq, Eq, Structural)]
pub enum Selection {
    /// The one that came last.
    LastCompleted,
    /// The one of the earliest job in the list; of two for the same job the
    /// one that came first.
    FirstJob,
}

/// The two choices that a lookup leaves open.
#[derive(Clone, Copy, Debug, PartialEq, Eq, Structural)]
pub struct Policy {
    pub failures: Failures,
    pub selection: Selection,
}

impl Policy {
    /// The first failure ends the lookup, and the response that came last
    /// answers it.
    pub fn strict() -> (r: Policy)
        ensures
            r == (Policy { failures: Failures::Abort, selection: Selection::LastCompleted }),
    {
        Policy { failures: Failures::Abort, selection: Selection::LastCompleted }
    }

    /// A failure counts for nothing as long as some request got a response,
    /// and the response of the earliest job answers the lookup.
    pub fn tolerant() -> (r: Policy)
        ensures
            r == (Policy { failures: Failures::Isolate, selection: Selection::FirstJob }),
    {
        Policy { failures: Failures::Isolate, selection: Selection::FirstJob }
    }
}

impl Default for Policy {
    /// The tolerant policy: with it the outcome of a lookup does not depend
    /// on which response came first.
    fn default() -> (r: Policy)
        ensures
            r == (Policy { failures: Failures::Isolate, selection: Selection::FirstJob }),
    {
        Policy::tolerant()
    }
}

/// Whether a completion reports a failed request of one of `n` jobs.
pub open spec fn fails(n: nat, c: CompletionModel) -> bool {
    c.job < n && c.response is Err
}

/// Whether a completion brings the response to one of `n` jobs.
pub open spec fn answers(n: nat, c: CompletionModel) -> bool {
    c.job < n && c.response is Ok
}

/// The position of the first completion that reports a failure, or the number
/// of completions where none does.
pub open spec fn first_failure(n: nat, completions: Seq<CompletionModel>) -> int
    decreases completions.len(),
{
    if completions.len() == 0 || fails(n, completions[0]) {
        0
    } else {
        1 + first_failure(n, completions.drop_first())
    }
}

/// Whether any completion brings a response.
pub open spec fn any_answer(n: nat, completions: Seq<CompletionModel>) -> bool {
    exists|i: int| 0 <= i < completions.len() && answers(n, #[trigger] completions[i])
}

/// The responses worth keeping among `completions`, in their order, each with
/// the cache entry of its job. A completion for a job that is not in the list
/// is passed over.
pub open spec fn found_of(jobs: Seq<JobModel>, completions: Seq<CompletionModel>) -> Seq<FoundModel>
    decreases completions.len(),
{
    if completions.len() == 0 {
        Seq::empty()
    } else {
        let before = found_of(jobs, completions.drop_last());
        let c = completions.last();
        match c.response {
            Ok(body) if c.job < jobs.len() && usable(body) => before.push(
                FoundModel { job: c.job, cache: jobs[c.job as int].cache, data: body },
            ),
            _ => before,
        }
    }
}

/// What a lookup has after its requests: the responses worth keeping and,
/// where the requests' failures end the lookup, the reason of the first one.
#[derive(Debug, PartialEq, Eq)]
pub struct Retrieved {
    pub found: Vec<Found>,
    pub failure: Option<String>,
}

/// What a [`Retrieved`] holds, as sequences.
pub struct RetrievedModel {
    pub found: Seq<FoundModel>,
    pub failure: Option<Seq<char>>,
}

impl View for Retrieved {
    type V = RetrievedModel;

    open spec fn view(&self) -> RetrievedModel {
        RetrievedModel { found: found_models(self.found@), failure: text_of(self.failure) }
    }
}

/// What the completions of a lookup's requests come to.
pub open spec fn retrieved(
    jobs: Seq<JobModel>,
    completions: Seq<CompletionModel>,
    failures: Failures,
) -> RetrievedModel {
    let k = first_failure(jobs.len(), completions);
    match failures {
        Failures::Abort => RetrievedModel {
            found: found_of(jobs, completions.take(k)),
            failure: if k < completions.len() {
                Some(completions[k].response->Err_0)
            } else {
                None
            },
        },
        Failures::Isolate => RetrievedModel {
            found: found_of(jobs, completions),
            failure: if k < completions.len() && !any_answer(jobs.len(), completions) {
                Some(completions[k].response->Err_0)
            } else {
                None
            },
        },
    }
}

/// `first_failure` is the one position before which no completion fails and
/// at which one does, unless it is the end.
pub proof fn lemma_first_failure(n: nat, completions: Seq<CompletionModel>, k: int)
    requires
        0 <= k <= completions.len(),
        forall|j: int| 0 <= j < k ==> !fails(n, #[trigger] completions[j]),
        k < completions.len() ==> fails(n, completions[k]),
    ensures
        first_failure(n, completions) == k,
    decreases completions.len(),
{
    if k > 0 {
        let t = completions.drop_first();
        assert(!fails(n, completions[0]));
        assert forall|j: int| 0 <= j < k - 1 implies !fails(n, #[trigger] t[j]) by {
            assert(t[j] == completions[j + 1]);
        }
        lemma_first_failure(n, t, k - 1);
    }
}

/// The position of the first completion that reports a failure.
fn first_failed(n: usize, completions: &[Completion]) -> (k: usize)
    ensures
        k == first_failure(n as nat, completion_models(completions@)),
        k <= completions@.len(),
        k < completions@.len() ==> completions@[k as int].response is Err,
{
    let ghost cs = completion_models(completions@);
    let mut k: usize = 0;
    while k < completions.len() && !(completions[k].job < n && completions[k].response.is_err())
        invariant
            cs == completion_models(completions@),
            k <= completions.len(),
            forall|j: int| 0 <= j < k ==> !fails(n as nat, #[trigger] cs[j]),
        decreases completions.len() - k,
    {
        k += 1;
    }
    proof {
        lemma_first_failure(n as nat, cs, k as int);
    }
    k
}

/// Whether any completion brings a response.
fn any_answered(n: usize, completions: &[Completion]) -> (r: bool)
    ensures
        r == any_answer(n as nat, completion_models(completions@)),
{
    let ghost cs = completion_models(completions@);
    let mut i: usize = 0;
    while i < completions.len()
        invariant
            cs == completion_models(completions@),
            i <= completions.len(),
            forall|j: int| 0 <= j < i ==> !answers(n as nat, #[trigger] cs[j]),
        decreases completions.len() - i,
    {
        if completions[i].job < n && completions[i].response.is_ok() {
            assert(answers(n as nat, cs[i as int]));
            return true;
        }
        i += 1;
    }
    false
}

/// The responses worth keeping among the first `upto` completions.
fn collect_found(jobs: &[Job], completions: &[Completion], upto: usize) -> (found: Vec<Found>)
    requires
        upto <= completions@.len(),
    ensures
        found_models(found@) == found_of(
            job_models(jobs@),
            completion_models(completions@).take(upto as int),
        ),
{
    let ghost js = job_models(jobs@);
    let ghost cs = completion_models(completions@);
    let mut found: Vec<Found> = Vec::new();
    let mut i: usize = 0;
    while i < upto
        invariant
            js == job_models(jobs@),
            cs == completion_models(completions@),
            i <= upto <= completions@.len(),
            found_models(found@) == found_of(js, cs.take(i as int)),
        decreases upto - i,
    {
        let c = &completions[i];
        proof {
            let next = cs.take(i + 1);
            assert(next.drop_last() =~= cs.take(i as int));
            assert(next.last() == c@);
        }
        if c.job < jobs.len() {
            match &c.response {
                Ok(body) => {
                    let kept = match copy_in_cache(clone_text(&jobs[c.job].cache), body.as_slice()) {
                        Disposal::Discard => None,
                        Disposal::Keep => Some(
                            Found { job: c.job, cache: None, data: slice_to_vec(body.as_slice()) },
                        ),
                        Disposal::Store(path) => Some(
                            Found {
                                job: c.job,
                                cache: Some(path),
                                data: slice_to_vec(body.as_slice()),
                            },
                        ),
                    };
                    match kept {
                        Some(f) => {
                            proof {
                                assert(f@.cache == js[c.job as int].cache);
                                assert(found_models(found@.push(f)) =~= found_models(found@).push(
                                    f@,
                                ));
                            }
                            found.push(f);
                        },
                        None => {},
                    }
                },
                Err(_) => {},
            }
        }
        i += 1;
    }
    found
}

/// Goes through the completions of a lookup's requests, in the order in which
/// they came, and keeps the responses that are neither empty nor a notice
/// that nothing was found, each with its job's cache entry.
///
/// Under [`Failures::Abort`] the first failed request ends it: what came
/// before is kept, and its reason is reported. Under [`Failures::Isolate`]
/// every response is looked at, and a reason is reported only where a
/// request failed and none got a response.
pub fn retrieve_data(jobs: &[Job], completions: &[Completion], failures: Failures) -> (r: Retrieved)
    ensures
        r@ == retrieved(job_models(jobs@), completion_models(completions@), failures),
{
    let k = first_failed(jobs.len(), completions);
    let reason = if k < completions.len() {
        match &completions[k].response {
            Err(reason) => Some(reason.clone()),
            Ok(_) => None,
        }
    } else {
        None
    };
    match failures {
        Failures::Abort => Retrieved { found: collect_found(jobs, completions, k), failure: reason },
        Failures::Isolate => {
            let found = collect_found(jobs, completions, completions.len());
            proof {
                let cs = completion_models(completions@);
                assert(cs.take(cs.len() as int) =~= cs);
            }
            let failure = if any_answered(jobs.len(), completions) {
                None
            } else {
                reason
            };
            Retrieved { found, failure }
        },
    }
}

/// Whether the response in position `i` is the one that answers the lookup.
pub open spec fn is_choice(found: Seq<FoundModel>, selection: Selection, i: int) -> bool {
    &&& 0 <= i < found.len()
    &&& match selection {
        Selection::LastCompleted => i == found.len() - 1,
        Selection::FirstJob => {
            &&& forall|j: int| 0 <= j < found.len() ==> found[i].job <= (#[trigger] found[j]).job
            &&& forall|j: int| 0 <= j < i ==> found[i].job < (#[trigger] found[j]).job
        },
    }
}

/// Picks the response that answers the lookup: its position among the kept
/// responses, or `None` where none was kept.
pub fn select(found: &[Found], selection: Selection) -> (r: Option<usize>)
    ensures
        match r {
            Some(i) => is_choice(found_models(found@), selection, i as int),
            None => found@.len() == 0,
        },
        r is Some <==> found@.len() > 0,
{
    if found.len() == 0 {
        return None;
    }
    match selection {
        Selection::LastCompleted => Some(found.len() - 1),
        Selection::FirstJob => {
            let ghost fs = found_models(found@);
            let mut best: usize = 0;
            let mut i: usize = 1;
            while i < found.len()
                invariant
                    fs == found_models(found@),
                    best < i <= found.len(),
                    forall|j: int| 0 <= j < i ==> fs[best as int].job <= (#[trigger] fs[j]).job,
                    forall|j: int| 0 <= j < best ==> fs[best as int].job < (#[trigger] fs[j]).job,
                decreases found.len() - i,
            {
                if found[i].job < found[best].job {
                    best = i;
                }
                i += 1;
            }
            Some(best)
        },
    }
}

/// At most one response answers the lookup.
pub proof fn lemma_choice_unique(found: Seq<FoundModel>, selection: Selection, i: int, j: int)
    requires
        is_choice(found, selection, i),
        is_choice(found, selection, j),
    ensures
        i == j,
{
    if i < j {
        assert(found[j].job < found[i].job);
        assert(found[i].job <= found[j].job);
    } else if j < i {
        assert(found[i].job < found[j].job);
        assert(found[j].job <= found[i].job);
    }
}

/// The position of the response that answers the lookup, if any was kept.
pub open spec fn choice(found: Seq<FoundModel>, selection: Selection) -> Option<int> {
    if found.len() == 0 {
        None
    } else {
        Some(choose|i: int| is_choice(found, selection, i))
    }
}

/// The position of the first kept response at or after `from` that has a
/// cache entry to be written to, or the number of responses where none is
/// left.
pub open spec fn next_stored(found: Seq<FoundModel>, from: int) -> int
    decreases found.len() - from,
{
    if from < 0 || from >= found.len() {
        found.len() as int
    } else if found[from].cache is Some {
        from
    } else {
        next_stored(found, from + 1)
    }
}

/// The position of the next kept response that is to be written to a cache.
pub fn find_stored(found: &[Found], from: usize) -> (r: usize)
    ensures
        r == next_stored(found_models(found@), from as int),
        r <= found@.len(),
        r < found@.len() ==> from <= r && found@[r as int].cache is Some,
{
    let ghost fs = found_models(found@);
    let mut i: usize = from;
    while i < found.len()
        invariant
            fs == found_models(found@),
            from <= i,
            next_stored(fs, from as int) == next_stored(fs, i as int),
        decreases found.len() - i,
    {
        if found[i].cache.is_some() {
            assert(fs[i as int].cache is Some);
            return i;
        }
        assert(fs[i as int].cache is None);
        i += 1;
    }
    found.len()
}

/// Whether a kept response is worth keeping and carries the cache entry of the
/// job that it answers.
pub open spec fn stems_from(f: FoundModel, jobs: Seq<JobModel>) -> bool {
    &&& f.job < jobs.len()
    &&& f.cache == jobs[f.job as int].cache
    &&& usable(f.data)
}

/// Every kept response is worth keeping: none is empty, none begins with the
/// notice that nothing was found, and each carries its own job's cache entry.
pub proof fn lemma_found_of(jobs: Seq<JobModel>, completions: Seq<CompletionModel>)
    ensures
        forall|k: int|
            0 <= k < found_of(jobs, completions).len() ==> stems_from(
                #[trigger] found_of(jobs, completions)[k],
                jobs,
            ),
    decreases completions.len(),
{
    if completions.len() > 0 {
        lemma_found_of(jobs, completions.drop_last());
        let before = found_of(jobs, completions.drop_last());
        let all = found_of(jobs, completions);
        assert forall|k: int| 0 <= k < all.len() implies stems_from(#[trigger] all[k], jobs) by {
            if k < before.len() {
                assert(all[k] == before[k]);
            }
        }
    }
}

/// What holds of the responses that `retrieved` keeps, under either way of
/// taking failures.
pub proof fn lemma_retrieved(
    jobs: Seq<JobModel>,
    completions: Seq<CompletionModel>,
    failures: Failures,
)
    ensures
        forall|k: int|
            0 <= k < retrieved(jobs, completions, failures).found.len() ==> stems_from(
                #[trigger] retrieved(jobs, completions, failures).found[k],
                jobs,
            ),
{
    let k = first_failure(jobs.len(), completions);
    lemma_found_of(jobs, completions);
    lemma_found_of(jobs, completions.take(k));
}

/// The next response to be written lies at or after `from`, and has a cache
/// entry.
pub proof fn lemma_next_stored(found: Seq<FoundModel>, from: int)
    requires
        0 <= from,
    ensures
        next_stored(found, from) <= found.len(),
        from <= found.len() ==> from <= next_stored(found, from),
        next_stored(found, from) < found.len() ==> found[next_stored(found, from)].cache is Some,
    decreases found.len() - from,
{
    if from < found.len() && found[from].cache is None {
        lemma_next_stored(found, from + 1);
    }
}

/// Where a response was kept, one answers the lookup.
pub proof fn lemma_choice_exists(found: Seq<FoundModel>, selection: Selection)
    requires
        found.len() > 0,
    ensures
        exists|i: int| is_choice(found, selection, i),
        choice(found, selection) matches Some(i) && is_choice(found, selection, i),
    decreases found.len(),
{
    match selection {
        Selection::LastCompleted => {
            assert(is_choice(found, selection, found.len() - 1));
        },
        Selection::FirstJob => {
            if found.len() == 1 {
                assert(is_choice(found, selection, 0));
            } else {
                let shorter = found.drop_last();
                lemma_choice_exists(shorter, selection);
                let b = choose|i: int| is_choice(shorter, selection, i);
                let last = found.len() - 1;
                if found[last].job < shorter[b].job {
                    assert forall|j: int| 0 <= j < found.len() implies found[last].job <= (
                    #[trigger] found[j]).job by {
                        if j < last {
                            assert(shorter[j] == found[j]);
                        }
                    }
                    assert forall|j: int| 0 <= j < last implies found[last].job < (
                    #[trigger] found[j]).job by {
                        assert(shorter[j] == found[j]);
                    }
                    assert(is_choice(found, selection, last));
                } else {
                    assert(shorter[b] == found[b]);
                    assert forall|j: int| 0 <= j < found.len() implies found[b].job <= (
                    #[trigger] found[j]).job by {
                        if j < last {
                            assert(shorter[j] == found[j]);
                        }
                    }
                    assert forall|j: int| 0 <= j < b implies found[b].job < (#[trigger] found[j]).job by {
                        assert(shorter[j] == found[j]);
                    }
                    assert(is_choice(found, selection, b));
                }
            }
        },
    }
}

} // verus!
