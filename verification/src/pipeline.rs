//! The per-job model of the worker pool, and the laws that make the
//! pipeline's concurrency safe to reason about: what one job contributes is
//! a function of the job string and the fetched page text alone, a run's
//! output is the concatenation of its jobs' contributions, and a rejected or
//! failed job contributes nothing without disturbing the rest of the run.
//!
//! A job here is a pair of the candidate URL string and what the fetch of
//! its page returned: `Some` page text, or `None` where the fetch failed or
//! was never attempted.

use crate::extract::page_results_spec;
use crate::weburl::UrlCheckModel;
use crate::weburl::url_check_spec;
use vstd::prelude::*;
use vstd::seq_lib::lemma_multiset_commutative;

verus! {

/// What one job contributes to the run's output: nothing where its URL is
/// rejected (parse failure or missing host) or its fetch failed; otherwise
/// every normalized reference of the fetched page, in extraction order.
pub open spec fn job_results_spec(job: Seq<char>, page: Option<Seq<char>>) -> Seq<Seq<char>> {
    match url_check_spec(job) {
        UrlCheckModel::Fetch(scheme, host) => match page {
            Some(t) => page_results_spec(t, scheme, host),
            None => Seq::empty(),
        },
        _ => Seq::empty(),
    }
}

/// The output of a run that processes `jobs` in order: the concatenation of
/// each job's contribution.
pub open spec fn run_results(jobs: Seq<(Seq<char>, Option<Seq<char>>)>) -> Seq<Seq<char>>
    decreases jobs.len(),
{
    if jobs.len() == 0 {
        Seq::empty()
    } else {
        job_results_spec(jobs[0].0, jobs[0].1) + run_results(jobs.drop_first())
    }
}

/// A run over two batches of jobs, one after the other, emits exactly the
/// two batches' outputs, one after the other: no result is lost and none is
/// duplicated at the seam.
pub proof fn lemma_run_append(
    jobs1: Seq<(Seq<char>, Option<Seq<char>>)>,
    jobs2: Seq<(Seq<char>, Option<Seq<char>>)>,
)
    ensures
        run_results(jobs1 + jobs2) == run_results(jobs1) + run_results(jobs2),
    decreases jobs1.len(),
{
    if jobs1.len() == 0 {
        assert(jobs1 + jobs2 =~= jobs2);
        assert(run_results(jobs1) + run_results(jobs2) =~= run_results(jobs2));
    } else {
        assert((jobs1 + jobs2).drop_first() =~= jobs1.drop_first() + jobs2);
        lemma_run_append(jobs1.drop_first(), jobs2);
        assert(run_results(jobs1 + jobs2) =~= run_results(jobs1) + run_results(jobs2));
    }
}

/// Concurrency safety: however a run's jobs are split between two workers,
/// the collection of emitted results — as a multiset, since workers finish
/// in no fixed order — is the same as the one run's.  No results are lost
/// or duplicated by splitting the work.
pub proof fn lemma_run_split(
    jobs1: Seq<(Seq<char>, Option<Seq<char>>)>,
    jobs2: Seq<(Seq<char>, Option<Seq<char>>)>,
)
    ensures
        run_results(jobs1 + jobs2).to_multiset() == run_results(jobs1).to_multiset().add(
            run_results(jobs2).to_multiset(),
        ),
{
    lemma_run_append(jobs1, jobs2);
    lemma_multiset_commutative(run_results(jobs1), run_results(jobs2));
}

/// Counting: a run of `M` jobs, each contributing exactly `k` results,
/// emits exactly `M * k` results, however many workers share the jobs.
pub proof fn lemma_run_count(jobs: Seq<(Seq<char>, Option<Seq<char>>)>, k: nat)
    requires
        forall|i: int|
            0 <= i < jobs.len() ==> (#[trigger] job_results_spec(jobs[i].0, jobs[i].1)).len() == k,
    ensures
        run_results(jobs).len() == jobs.len() * k,
    decreases jobs.len(),
{
    if jobs.len() == 0 {
    } else {
        assert(forall|i: int|
            0 <= i < jobs.drop_first().len() ==> jobs.drop_first()[i] == jobs[i + 1]);
        lemma_run_count(jobs.drop_first(), k);
        assert(k + (jobs.len() - 1) * k == jobs.len() * k) by (nonlinear_arith);
    }
}

/// Failure isolation, first half: a job whose URL does not parse, or
/// parses without a host, or whose fetch failed, contributes no results.
pub proof fn lemma_rejected_job_no_results(job: Seq<char>, page: Option<Seq<char>>)
    requires
        !(url_check_spec(job) is Fetch) || page is None,
    ensures
        job_results_spec(job, page) == Seq::<Seq<char>>::empty(),
{
}

/// Failure isolation, second half: dropping a rejected or failed job from
/// a run leaves the run's output exactly as it was — the jobs before and
/// after it still contribute everything they would have.
pub proof fn lemma_failed_job_isolated(
    jobs1: Seq<(Seq<char>, Option<Seq<char>>)>,
    bad: (Seq<char>, Option<Seq<char>>),
    jobs2: Seq<(Seq<char>, Option<Seq<char>>)>,
)
    requires
        !(url_check_spec(bad.0) is Fetch) || bad.1 is None,
    ensures
        run_results(jobs1 + seq![bad] + jobs2) == run_results(jobs1) + run_results(jobs2),
        run_results(jobs1 + seq![bad] + jobs2) == run_results(jobs1 + jobs2),
{
    lemma_run_append(jobs1 + seq![bad], jobs2);
    lemma_run_append(jobs1, seq![bad]);
    let sb = seq![bad];
    assert(sb.drop_first() =~= Seq::<(Seq<char>, Option<Seq<char>>)>::empty());
    assert(sb[0] == bad);
    lemma_rejected_job_no_results(bad.0, bad.1);
    assert(run_results(sb) == job_results_spec(sb[0].0, sb[0].1) + run_results(sb.drop_first()));
    assert(run_results(sb.drop_first()) == Seq::<Seq<char>>::empty());
    assert(run_results(sb) =~= Seq::<Seq<char>>::empty());
    assert(run_results(jobs1) + run_results(seq![bad]) =~= run_results(jobs1));
    lemma_run_append(jobs1, jobs2);
}

} // verus!
