use vstd::prelude::*;

use crate::json::{JsonModel, items_member, text_member};
use crate::jobs::{
    BuildSelectionPolicy, JobNodeModel, RootError, assembled, authentication_marker,
    decoded_job, entry_url, entry_urls, nested_url, root_listing, selected_builds,
};
use crate::text::contains;

verus! {

broadcast use {vstd::seq::axiom_seq_index_decreases, vstd::seq::axiom_seq_subrange_decreases};

/// A crawl of the jobs at `urls` in order, given the document each job's description
/// (`{url}/api/json`) reads as, or nothing where that fetch fails or is not JSON. Each job
/// is decoded, its sub-jobs are crawled in turn, and it is assembled once all of them have
/// resolved; one failure anywhere below fails the whole sequence. `fuel` bounds the depth.
pub open spec fn crawl_forest(
    responses: spec_fn(Seq<char>) -> Option<JsonModel>,
    urls: Seq<Seq<char>>,
    policy: BuildSelectionPolicy,
    fuel: nat,
) -> Option<Seq<JobNodeModel>>
    decreases fuel, urls.len(),
{
    if urls.len() == 0 {
        Some(seq![])
    } else {
        match crawl_forest(responses, urls.subrange(0, urls.len() - 1), policy, fuel) {
            None => None,
            Some(done) => match responses(urls[urls.len() - 1]) {
                None => None,
                Some(doc) => {
                    let job = decoded_job(doc, policy);
                    match job.child_urls {
                        None => Some(done.push(assembled(job, seq![]))),
                        Some(child_urls) => if fuel == 0 {
                            None
                        } else {
                            match crawl_forest(responses, child_urls, policy, (fuel - 1) as nat) {
                                None => None,
                                Some(subs) => Some(done.push(assembled(job, subs))),
                            }
                        },
                    }
                },
            },
        }
    }
}

/// The top-level job list of a crawl: each root job crawled on its own, in listing order;
/// one whose crawl fails is left out.
pub open spec fn crawl_roots(
    responses: spec_fn(Seq<char>) -> Option<JsonModel>,
    urls: Seq<Seq<char>>,
    policy: BuildSelectionPolicy,
    fuel: nat,
) -> Seq<JobNodeModel>
    decreases urls.len(),
{
    if urls.len() == 0 {
        seq![]
    } else {
        let kept = match crawl_forest(responses, seq![urls[urls.len() - 1]], policy, fuel) {
            Some(nodes) => nodes,
            None => seq![],
        };
        crawl_roots(responses, urls.subrange(0, urls.len() - 1), policy, fuel) + kept
    }
}

/// A root job whose crawl fails, anywhere below it, is left out of the top-level list, and
/// the other root jobs come out as they would without it.
pub proof fn lemma_failed_root_job_is_omitted(
    responses: spec_fn(Seq<char>) -> Option<JsonModel>,
    before: Seq<Seq<char>>,
    failed: Seq<char>,
    after: Seq<Seq<char>>,
    policy: BuildSelectionPolicy,
    fuel: nat,
)
    requires
        crawl_forest(responses, seq![failed], policy, fuel) is None,
    ensures
        crawl_roots(responses, before + seq![failed] + after, policy, fuel)
            == crawl_roots(responses, before + after, policy, fuel),
    decreases after.len(),
{
    let with = before + seq![failed] + after;
    let without = before + after;
    if after.len() == 0 {
        assert(with.subrange(0, with.len() - 1) =~= before);
        assert(without =~= before);
        assert(crawl_roots(responses, with, policy, fuel) =~= crawl_roots(responses, before, policy, fuel));
    } else {
        let shorter = after.subrange(0, after.len() - 1);
        lemma_failed_root_job_is_omitted(responses, before, failed, shorter, policy, fuel);
        assert(with.subrange(0, with.len() - 1) =~= before + seq![failed] + shorter);
        assert(without.subrange(0, without.len() - 1) =~= before + shorter);
        assert(with[with.len() - 1] == without[without.len() - 1]);
    }
}

/// One job of a server's job tree: what its description lists.
pub struct RemoteJob {
    pub name: Option<Seq<char>>,
    pub url: Seq<char>,
    pub builds: Option<Seq<Seq<char>>>,
    pub jobs: Option<Seq<RemoteJob>>,
}

pub open spec fn urls_of(jobs: Seq<RemoteJob>) -> Seq<Seq<char>> {
    Seq::new(jobs.len(), |i: int| jobs[i].url)
}

/// `doc` describes job `t`: its name and URL, the URLs of its sub-jobs and of its builds,
/// each list present exactly when `t` has it.
pub open spec fn describes(doc: JsonModel, t: RemoteJob) -> bool {
    &&& text_member(doc, "name"@) == t.name
    &&& text_member(doc, "url"@) == Some(t.url)
    &&& match t.jobs {
        Some(subs) => items_member(doc, "jobs"@) matches Some(entries) && entry_urls(entries) == urls_of(subs),
        None => items_member(doc, "jobs"@) is None,
    }
    &&& match t.builds {
        Some(builds) => items_member(doc, "builds"@) matches Some(entries) && entry_urls(entries) == builds,
        None => items_member(doc, "builds"@) is None,
    }
}

/// The server answers for every job of the trees `ts` with a description of it.
pub open spec fn served(responses: spec_fn(Seq<char>) -> Option<JsonModel>, ts: Seq<RemoteJob>) -> bool
    decreases ts,
{
    forall|i: int|
        0 <= i < ts.len() ==> {
            &&& #[trigger] responses(ts[i].url) matches Some(doc)
            &&& describes(doc, ts[i])
            &&& match ts[i].jobs {
                Some(subs) => served(responses, subs),
                None => true,
            }
        }
}

/// The trees `ts` have at most `h` levels.
pub open spec fn forest_within(ts: Seq<RemoteJob>, h: nat) -> bool
    decreases ts,
{
    forall|i: int|
        0 <= i < ts.len() ==> h > 0 && match (#[trigger] ts[i]).jobs {
            Some(subs) => forest_within(subs, (h - 1) as nat),
            None => true,
        }
}

/// The job nodes that mirror the trees `ts`: same names, URLs and builds, sub-jobs in the
/// same order.
pub open spec fn mirrored(ts: Seq<RemoteJob>) -> Seq<JobNodeModel>
    decreases ts,
{
    if ts.len() == 0 {
        seq![]
    } else {
        let t = ts[ts.len() - 1];
        let subs = match t.jobs {
            Some(subs) => Some(mirrored(subs)),
            None => None,
        };
        mirrored(ts.subrange(0, ts.len() - 1)).push(
            JobNodeModel { name: t.name, url: Some(t.url), sub_jobs: subs, builds: t.builds },
        )
    }
}

/// Crawling job trees of bounded depth, each job served with a description of it, gives
/// job nodes that mirror the trees, sibling order included, with every build kept.
pub proof fn lemma_crawl_mirrors_tree(
    responses: spec_fn(Seq<char>) -> Option<JsonModel>,
    ts: Seq<RemoteJob>,
    h: nat,
)
    requires
        served(responses, ts),
        forest_within(ts, h),
    ensures
        crawl_forest(responses, urls_of(ts), BuildSelectionPolicy::All, h) == Some(mirrored(ts)),
    decreases ts,
{
    if ts.len() > 0 {
        let n = ts.len() - 1;
        let rest = ts.subrange(0, n);
        let t = ts[n];
        assert forall|i: int| 0 <= i < rest.len() implies #[trigger] responses(rest[i].url) matches Some(doc) && describes(doc, rest[i])
            && match rest[i].jobs {
                Some(subs) => served(responses, subs),
                None => true,
            } by {
            assert(rest[i] == ts[i]);
        }
        assert(served(responses, rest));
        assert forall|i: int| 0 <= i < rest.len() implies h > 0 && match (#[trigger] rest[i]).jobs {
            Some(subs) => forest_within(subs, (h - 1) as nat),
            None => true,
        } by {
            assert(rest[i] == ts[i]);
        }
        assert(forest_within(rest, h));
        lemma_crawl_mirrors_tree(responses, rest, h);
        assert(urls_of(ts).subrange(0, n) =~= urls_of(rest));
        assert(urls_of(ts)[n] == t.url);
        let doc = responses(t.url)->Some_0;
        assert(describes(doc, t));
        let job = decoded_job(doc, BuildSelectionPolicy::All);
        if let Some(subs) = t.jobs {
            assert(served(responses, subs));
            assert(forest_within(subs, (h - 1) as nat));
            lemma_crawl_mirrors_tree(responses, subs, (h - 1) as nat);
        }
        assert(job.builds == t.builds);
    }
}

/// Under `LastOnly` a job that names a last successful build keeps that build alone,
/// whatever its last completed build is.
pub proof fn lemma_last_only_prefers_last_successful(doc: JsonModel, url: Seq<char>)
    requires
        items_member(doc, "builds"@) is Some,
        nested_url(doc, "lastSuccessfulBuild"@) == Some(url),
    ensures
        selected_builds(doc, BuildSelectionPolicy::LastOnly) == Some(seq![url]),
{
}

/// Under `LastOnly` a job that names none of its last successful, completed or stable
/// builds keeps the first build it lists.
pub proof fn lemma_last_only_falls_back_to_first(doc: JsonModel, builds: Seq<JsonModel>, url: Seq<char>)
    requires
        items_member(doc, "builds"@) == Some(builds),
        nested_url(doc, "lastSuccessfulBuild"@) is None,
        nested_url(doc, "lastCompletedBuild"@) is None,
        nested_url(doc, "lastStableBuild"@) is None,
        builds.len() > 0,
        entry_url(builds[0]) == Some(url),
    ensures
        selected_builds(doc, BuildSelectionPolicy::LastOnly) == Some(seq![url]),
{
}

/// A root listing that says "Authentication required" anywhere stops the crawl with that
/// failure, whether or not the rest of it is JSON.
pub proof fn lemma_authentication_required_is_fatal(body: Seq<char>)
    requires
        contains(body, authentication_marker()),
    ensures
        root_listing(body) == Err::<Seq<Seq<char>>, RootError>(RootError::AuthenticationRequired),
{
}

} // verus!
