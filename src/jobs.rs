use vstd::prelude::*;

use crate::json::{
    Json, JsonModel, member, text_member, items_member, views, json_parse, json_pretty,
    json_storable, storable_depth, key_before, keys_ascending, find_member, find_member_index, parse_text,
    render_text,
};
use crate::text::{contains, search_substring};

verus! {

broadcast use {
    vstd::std_specs::vec::axiom_vec_index_decreases,
    vstd::seq::axiom_seq_index_decreases,
    vstd::seq::axiom_seq_subrange_decreases,
};

/// Which builds of each job a crawl keeps.
#[derive(Clone, Copy, Debug, PartialEq, Eq, Structural)]
pub enum BuildSelectionPolicy {
    /// Every build, in the order the server lists them.
    All,
    /// One build: the last successful, else the last completed, else the last stable, else
    /// the first one listed.
    LastOnly,
}

/// One job of the server's job tree, as a crawl assembles it.
#[derive(Debug, PartialEq, Eq)]
pub struct JobNode {
    pub name: Option<String>,
    pub url: Option<String>,
    /// Present only when the server listed sub-jobs for this job.
    pub sub_jobs: Option<Vec<JobNode>>,
    /// Present only when the server listed builds for this job.
    pub builds: Option<Vec<String>>,
}

pub struct JobNodeModel {
    pub name: Option<Seq<char>>,
    pub url: Option<Seq<char>>,
    pub sub_jobs: Option<Seq<JobNodeModel>>,
    pub builds: Option<Seq<Seq<char>>>,
}

/// The characters of each string.
pub open spec fn texts(v: Seq<String>) -> Seq<Seq<char>> {
    Seq::new(v.len(), |i: int| v[i]@)
}

pub open spec fn opt_text(s: Option<String>) -> Option<Seq<char>> {
    match s {
        Some(s) => Some(s@),
        None => None,
    }
}

pub open spec fn opt_texts(v: Option<Vec<String>>) -> Option<Seq<Seq<char>>> {
    match v {
        Some(v) => Some(texts(v@)),
        None => None,
    }
}

pub open spec fn node_view(n: JobNode) -> JobNodeModel
    decreases n,
{
    JobNodeModel {
        name: opt_text(n.name),
        url: opt_text(n.url),
        sub_jobs: match n.sub_jobs {
            Some(subs) => Some(
                Seq::new(subs.len() as nat, |i: int| if 0 <= i < subs.len() { node_view(subs[i]) } else { JobNodeModel { name: None, url: None, sub_jobs: None, builds: None } }),
            ),
            None => None,
        },
        builds: opt_texts(n.builds),
    }
}

impl View for JobNode {
    type V = JobNodeModel;

    open spec fn view(&self) -> JobNodeModel {
        node_view(*self)
    }
}

pub open spec fn node_views(v: Seq<JobNode>) -> Seq<JobNodeModel> {
    Seq::new(v.len(), |i: int| v[i]@)
}

/// What one job's own response says, before its sub-jobs are resolved.
#[derive(Debug, PartialEq, Eq)]
pub struct PendingJob {
    pub name: Option<String>,
    pub url: Option<String>,
    /// The URLs of the listed sub-jobs, when sub-jobs are listed.
    pub child_urls: Option<Vec<String>>,
    pub builds: Option<Vec<String>>,
}

pub struct PendingJobModel {
    pub name: Option<Seq<char>>,
    pub url: Option<Seq<char>>,
    pub child_urls: Option<Seq<Seq<char>>>,
    pub builds: Option<Seq<Seq<char>>>,
}

impl View for PendingJob {
    type V = PendingJobModel;

    open spec fn view(&self) -> PendingJobModel {
        PendingJobModel {
            name: opt_text(self.name),
            url: opt_text(self.url),
            child_urls: opt_texts(self.child_urls),
            builds: opt_texts(self.builds),
        }
    }
}

/// The `url` string of a listing entry such as `{"url": "http://host/job/A/"}`.
pub open spec fn entry_url(entry: JsonModel) -> Option<Seq<char>> {
    text_member(entry, "url"@)
}

/// The URLs of the entries that have one, in order.
pub open spec fn entry_urls(entries: Seq<JsonModel>) -> Seq<Seq<char>>
    decreases entries.len(),
{
    if entries.len() == 0 {
        seq![]
    } else {
        let rest = entry_urls(entries.drop_last());
        match entry_url(entries.last()) {
            Some(u) => rest.push(u),
            None => rest,
        }
    }
}

/// The URL under the member `key`, as in `"lastSuccessfulBuild": {"url": ...}`.
pub open spec fn nested_url(doc: JsonModel, key: Seq<char>) -> Option<Seq<char>> {
    match member(doc, key) {
        Some(entry) => entry_url(entry),
        None => None,
    }
}

/// The one build kept under `LastOnly`, probed in order of preference.
pub open spec fn preferred_build(doc: JsonModel, builds: Seq<JsonModel>) -> Option<Seq<char>> {
    if nested_url(doc, "lastSuccessfulBuild"@) is Some {
        nested_url(doc, "lastSuccessfulBuild"@)
    } else if nested_url(doc, "lastCompletedBuild"@) is Some {
        nested_url(doc, "lastCompletedBuild"@)
    } else if nested_url(doc, "lastStableBuild"@) is Some {
        nested_url(doc, "lastStableBuild"@)
    } else if builds.len() > 0 {
        entry_url(builds[0])
    } else {
        None
    }
}

/// The builds a job keeps under `policy`; nothing when its response lists no builds.
pub open spec fn selected_builds(doc: JsonModel, policy: BuildSelectionPolicy) -> Option<Seq<Seq<char>>> {
    match items_member(doc, "builds"@) {
        Some(builds) => Some(
            match policy {
                BuildSelectionPolicy::All => entry_urls(builds),
                BuildSelectionPolicy::LastOnly => match preferred_build(doc, builds) {
                    Some(u) => seq![u],
                    None => seq![],
                },
            },
        ),
        None => None,
    }
}

/// What a job's response says of the job.
pub open spec fn decoded_job(doc: JsonModel, policy: BuildSelectionPolicy) -> PendingJobModel {
    PendingJobModel {
        name: text_member(doc, "name"@),
        url: text_member(doc, "url"@),
        child_urls: match items_member(doc, "jobs"@) {
            Some(entries) => Some(entry_urls(entries)),
            None => None,
        },
        builds: selected_builds(doc, policy),
    }
}

/// The URLs of the listing entries that have one, in order.
pub fn listed_urls(entries: &Vec<Json>) -> (r: Vec<String>)
    ensures
        texts(r@) == entry_urls(views(entries@)),
{
    let ghost model = views(entries@);
    let mut out: Vec<String> = Vec::new();
    let mut i: usize = 0;
    while i < entries.len()
        invariant
            i <= entries.len(),
            model == views(entries@),
            texts(out@) == entry_urls(model.take(i as int)),
        decreases entries.len() - i,
    {
        assert(model.take(i + 1).drop_last() =~= model.take(i as int));
        if let Some(u) = entry_url_of(&entries[i]) {
            out.push(u);
        }
        assert(texts(out@) =~= entry_urls(model.take(i + 1)));
        i = i + 1;
    }
    assert(model.take(entries.len() as int) =~= model);
    out
}

/// The `url` string of one listing entry.
pub fn entry_url_of(entry: &Json) -> (r: Option<String>)
    ensures
        opt_text(r) == entry_url(entry@),
{
    match entry.get("url") {
        Some(u) => match u.as_str() {
            Some(s) => Some(s.to_owned()),
            None => None,
        },
        None => None,
    }
}

/// The URL under the member `key` of a job's response.
pub fn nested_url_of(doc: &Json, key: &str) -> (r: Option<String>)
    ensures
        opt_text(r) == nested_url(doc@, key@),
{
    match doc.get(key) {
        Some(entry) => entry_url_of(entry),
        None => None,
    }
}

/// The one build kept under `LastOnly`.
pub fn preferred_build_of(doc: &Json, builds: &Vec<Json>) -> (r: Option<String>)
    ensures
        opt_text(r) == preferred_build(doc@, views(builds@)),
{
    let successful = nested_url_of(doc, "lastSuccessfulBuild");
    if successful.is_some() {
        return successful;
    }
    let completed = nested_url_of(doc, "lastCompletedBuild");
    if completed.is_some() {
        return completed;
    }
    let stable = nested_url_of(doc, "lastStableBuild");
    if stable.is_some() {
        return stable;
    }
    if builds.len() > 0 {
        entry_url_of(&builds[0])
    } else {
        None
    }
}

/// The builds a job keeps under `policy`.
pub fn select_builds(doc: &Json, policy: BuildSelectionPolicy) -> (r: Option<Vec<String>>)
    ensures
        opt_texts(r) == selected_builds(doc@, policy),
{
    match doc.get("builds") {
        Some(listed) => match listed.as_array() {
            Some(builds) => {
                let kept = match policy {
                    BuildSelectionPolicy::All => listed_urls(builds),
                    BuildSelectionPolicy::LastOnly => match preferred_build_of(doc, builds) {
                        Some(u) => {
                            let v = vec![u];
                            assert(texts(v@) =~= seq![v@[0]@]);
                            v
                        },
                        None => {
                            let v: Vec<String> = Vec::new();
                            assert(texts(v@) =~= seq![]);
                            v
                        },
                    },
                };
                Some(kept)
            },
            None => None,
        },
        None => None,
    }
}

/// Reads what a job's response says of the job.
pub fn decode_job(doc: &Json, policy: BuildSelectionPolicy) -> (r: PendingJob)
    ensures
        r@ == decoded_job(doc@, policy),
{
    let name = match doc.get("name") {
        Some(n) => match n.as_str() {
            Some(s) => Some(s.to_owned()),
            None => None,
        },
        None => None,
    };
    let url = entry_url_of(doc);
    let child_urls = match doc.get("jobs") {
        Some(listed) => match listed.as_array() {
            Some(entries) => Some(listed_urls(entries)),
            None => None,
        },
        None => None,
    };
    let builds = select_builds(doc, policy);
    PendingJob { name, url, child_urls, builds }
}

/// How one GET failed.
#[derive(Clone, Copy, Debug, PartialEq, Eq, Structural)]
pub enum FetchError {
    /// No response came back.
    Unreachable,
    /// The server answered with a status other than success.
    HttpStatus(u16),
}

/// Why one job could not be resolved.
#[derive(Debug, PartialEq, Eq)]
pub enum CrawlError {
    /// Fetching the job at `url` failed.
    Fetch { url: String, cause: FetchError },
    /// The response for the job at `url` is not JSON.
    Undecodable { url: String },
}

/// The address of a job's or build's description: `{url}/api/json`.
pub fn api_json_url(job_url: &str) -> (r: String)
    ensures
        r@ == job_url@ + "/api/json"@,
{
    let mut url = job_url.to_owned();
    url.append("/api/json");
    url
}

/// The outcome of one job's fetch: what its response says, or why there is none.
pub fn job_step(job_url: &str, response: Result<String, FetchError>, policy: BuildSelectionPolicy) -> (r: Result<PendingJob, CrawlError>)
    ensures
        match response {
            Err(cause) => r matches Err(CrawlError::Fetch { url, cause: c }) && url@ == job_url@ && c == cause,
            Ok(body) => match json_parse(body@) {
                None => r matches Err(CrawlError::Undecodable { url }) && url@ == job_url@,
                Some(doc) => r matches Ok(job) && job@ == decoded_job(doc, policy),
            },
        },
{
    match response {
        Err(cause) => Err(CrawlError::Fetch { url: job_url.to_owned(), cause }),
        Ok(body) => match parse_text(body.as_str()) {
            None => Err(CrawlError::Undecodable { url: job_url.to_owned() }),
            Some(doc) => Ok(decode_job(&doc, policy)),
        },
    }
}

/// The position of the first failed child at or after position `i`; the number of children
/// when none failed.
pub open spec fn first_failure(children: Seq<Result<JobNode, CrawlError>>, i: int) -> int
    decreases children.len() - i,
{
    if i < 0 || i >= children.len() {
        children.len() as int
    } else if children[i] is Err {
        i
    } else {
        first_failure(children, i + 1)
    }
}

/// The resolved children, each one's model.
pub open spec fn resolved(children: Seq<Result<JobNode, CrawlError>>) -> Seq<JobNodeModel> {
    Seq::new(
        children.len(),
        |i: int|
            match children[i] {
                Ok(n) => n@,
                Err(_) => JobNodeModel { name: None, url: None, sub_jobs: None, builds: None },
            },
    )
}

proof fn lemma_no_failure(children: Seq<Result<JobNode, CrawlError>>, i: int)
    requires
        0 <= i,
        first_failure(children, i) == children.len(),
    ensures
        forall|j: int| i <= j < children.len() ==> children[j] is Ok,
    decreases children.len() - i,
{
    if i < children.len() {
        lemma_no_failure(children, i + 1);
    }
}

/// A job with its resolved sub-jobs attached, when it lists sub-jobs.
pub open spec fn assembled(job: PendingJobModel, subs: Seq<JobNodeModel>) -> JobNodeModel {
    JobNodeModel {
        name: job.name,
        url: job.url,
        sub_jobs: if job.child_urls is Some {
            Some(subs)
        } else {
            None
        },
        builds: job.builds,
    }
}

/// Completes a job once every sub-job has resolved, in the order they were listed; the
/// first failed sub-job fails the job itself.
pub fn assemble_job(job: PendingJob, children: Vec<Result<JobNode, CrawlError>>) -> (r: Result<JobNode, CrawlError>)
    ensures
        first_failure(children@, 0) < children.len() ==> r == children@[first_failure(children@, 0)],
        first_failure(children@, 0) == children.len() ==> (r matches Ok(node) && node@ == assembled(job@, resolved(children@))),
{
    let ghost all = children@;
    let mut pending = children;
    let mut k: usize = 0;
    while k < pending.len()
        invariant
            k <= pending.len(),
            pending@ == all,
            children@ == all,
            first_failure(all, 0) == first_failure(all, k as int),
        decreases pending.len() - k,
    {
        if pending[k].is_err() {
            assert(first_failure(all, k as int) == k);
            return pending.remove(k);
        }
        k = k + 1;
    }
    proof {
        lemma_no_failure(all, 0);
    }
    let mut subs: Vec<JobNode> = Vec::new();
    while pending.len() > 0
        invariant
            first_failure(all, 0) == all.len(),
            children@ == all,
            forall|i: int| 0 <= i < all.len() ==> all[i] is Ok,
            all.len() == subs.len() + pending.len(),
            pending@ == all.skip(subs.len() as int),
            node_views(subs@) == resolved(all).take(subs.len() as int),
        decreases pending.len(),
    {
        let ghost before = subs@;
        let next = pending.remove(0);
        assert(next == all[subs.len() as int]);
        match next {
            Ok(node) => {
                subs.push(node);
                assert(node_views(subs@) =~= resolved(all).take(subs.len() as int));
                assert(pending@ =~= all.skip(subs.len() as int));
            },
            Err(e) => {
                proof {
                    assert(false);
                }
                return Err(e);
            },
        }
    }
    assert(resolved(all).take(all.len() as int) =~= resolved(all));
    let node = JobNode {
        name: job.name,
        url: job.url,
        sub_jobs: if job.child_urls.is_some() {
            Some(subs)
        } else {
            None
        },
        builds: job.builds,
    };
    proof {
        if job.child_urls is Some {
            assert(node@.sub_jobs == Some(node_views(subs@)));
        }
    }
    Ok(node)
}

/// Why a crawl stops before it starts: the root listing gives nothing to walk.
#[derive(Clone, Copy, Debug, PartialEq, Eq, Structural)]
pub enum RootError {
    /// Fetching the root listing failed.
    Fetch(FetchError),
    /// The server asks for credentials.
    AuthenticationRequired,
    /// The server refused the credentials.
    InvalidPasswordOrToken,
    /// The credentials lack the Overall/Read permission.
    MissingReadPermission,
    /// The root listing is not JSON.
    Undecodable,
}

pub open spec fn authentication_marker() -> Seq<char> {
    "Authentication required"@
}

pub open spec fn invalid_credentials_marker() -> Seq<char> {
    "Invalid password/token"@
}

pub open spec fn missing_permission_marker() -> Seq<char> {
    "missing the Overall/Read permission"@
}

/// The authorization failure a root listing reports, checked in this order over its whole text.
pub open spec fn classification(body: Seq<char>) -> Option<RootError> {
    if contains(body, authentication_marker()) {
        Some(RootError::AuthenticationRequired)
    } else if contains(body, invalid_credentials_marker()) {
        Some(RootError::InvalidPasswordOrToken)
    } else if contains(body, missing_permission_marker()) {
        Some(RootError::MissingReadPermission)
    } else {
        None
    }
}

/// Looks for the server's authorization failure messages in a root listing.
pub fn classify_response(body: &str) -> (r: Result<(), RootError>)
    ensures
        match classification(body@) {
            Some(e) => r == Err::<(), RootError>(e),
            None => r is Ok,
        },
{
    proof {
        reveal_strlit("Authentication required");
        reveal_strlit("Invalid password/token");
        reveal_strlit("missing the Overall/Read permission");
    }
    if search_substring(body, "Authentication required") {
        Err(RootError::AuthenticationRequired)
    } else if search_substring(body, "Invalid password/token") {
        Err(RootError::InvalidPasswordOrToken)
    } else if search_substring(body, "missing the Overall/Read permission") {
        Err(RootError::MissingReadPermission)
    } else {
        Ok(())
    }
}

/// The job URLs a root listing gives, or why it gives none.
pub open spec fn root_listing(body: Seq<char>) -> Result<Seq<Seq<char>>, RootError> {
    match classification(body) {
        Some(e) => Err(e),
        None => match json_parse(body) {
            None => Err(RootError::Undecodable),
            Some(doc) => Ok(
                match items_member(doc, "jobs"@) {
                    Some(entries) => entry_urls(entries),
                    None => seq![],
                },
            ),
        },
    }
}

/// The URLs of the top-level jobs, from the root listing's fetch.
pub fn root_job_urls(response: Result<String, FetchError>) -> (r: Result<Vec<String>, RootError>)
    ensures
        match response {
            Err(cause) => r matches Err(e) && e == RootError::Fetch(cause),
            Ok(body) => match root_listing(body@) {
                Ok(urls) => r matches Ok(v) && texts(v@) == urls,
                Err(e) => r matches Err(x) && x == e,
            },
        },
{
    match response {
        Err(cause) => Err(RootError::Fetch(cause)),
        Ok(body) => {
            match classify_response(body.as_str()) {
                Err(e) => Err(e),
                Ok(()) => match parse_text(body.as_str()) {
                    None => Err(RootError::Undecodable),
                    Some(doc) => match doc.get("jobs") {
                        Some(listed) => match listed.as_array() {
                            Some(entries) => Ok(listed_urls(entries)),
                            None => {
                                let v: Vec<String> = Vec::new();
                                assert(texts(v@) =~= seq![]);
                                Ok(v)
                            },
                        },
                        None => {
                            let v: Vec<String> = Vec::new();
                            assert(texts(v@) =~= seq![]);
                            Ok(v)
                        },
                    },
                },
            }
        },
    }
}

/// The models of the jobs that resolved, in order.
pub open spec fn successes(results: Seq<Result<JobNode, CrawlError>>) -> Seq<JobNodeModel>
    decreases results.len(),
{
    if results.len() == 0 {
        seq![]
    } else {
        let rest = successes(results.drop_last());
        match results.last() {
            Ok(node) => rest.push(node@),
            Err(_) => rest,
        }
    }
}

/// The top-level job list: each top-level job that resolved, in listing order; a failed one
/// is left out and the others stay.
pub fn root_document(results: Vec<Result<JobNode, CrawlError>>) -> (r: Vec<JobNode>)
    ensures
        node_views(r@) == successes(results@),
{
    let ghost all = results@;
    let mut pending = results;
    let mut jobs: Vec<JobNode> = Vec::new();
    let n = pending.len();
    let mut i: usize = 0;
    while pending.len() > 0
        invariant
            all.len() == n,
            i + pending.len() == all.len(),
            pending@ == all.skip(i as int),
            results@ == all,
            node_views(jobs@) == successes(all.take(i as int)),
        decreases pending.len(),
    {
        let next = pending.remove(0);
        assert(next == all[i as int]);
        assert(all.take(i + 1).drop_last() =~= all.take(i as int));
        match next {
            Ok(node) => {
                jobs.push(node);
                assert(node_views(jobs@) =~= successes(all.take(i + 1)));
            },
            Err(_) => {},
        }
        i = i + 1;
        assert(pending@ =~= all.skip(i as int));
    }
    assert(all.take(all.len() as int) =~= all);
    jobs
}

pub open spec fn text_json(s: Option<Seq<char>>) -> JsonModel {
    match s {
        Some(s) => JsonModel::Str(s),
        None => JsonModel::Null,
    }
}

pub open spec fn texts_json(v: Seq<Seq<char>>) -> JsonModel {
    JsonModel::Array(Seq::new(v.len(), |i: int| JsonModel::Str(v[i])))
}

/// A job as the snapshot holds it: `builds` and `sub_jobs` only when present, `name` and
/// `url` always, members in ascending order.
pub open spec fn node_json(n: JobNodeModel) -> JsonModel
    decreases n,
{
    let builds = match n.builds {
        Some(b) => seq![("builds"@, texts_json(b))],
        None => seq![],
    };
    let subs = match n.sub_jobs {
        Some(s) => seq![
            ("sub_jobs"@, JsonModel::Array(
                Seq::new(s.len(), |i: int| if 0 <= i < s.len() { node_json(s[i]) } else { JsonModel::Null }),
            )),
        ],
        None => seq![],
    };
    JsonModel::Object(builds + seq![("name"@, text_json(n.name))] + subs + seq![("url"@, text_json(n.url))])
}

/// The snapshot of a job list: an array of its jobs.
pub open spec fn document_json(doc: Seq<JobNodeModel>) -> JsonModel {
    JsonModel::Array(Seq::new(doc.len(), |i: int| node_json(doc[i])))
}

fn text_to_json(s: &Option<String>) -> (r: Json)
    ensures
        r@ == text_json(opt_text(*s)),
{
    match s {
        Some(s) => Json::Str(s.clone()),
        None => Json::Null,
    }
}

fn texts_to_json(v: &Vec<String>) -> (r: Json)
    ensures
        r@ == texts_json(texts(v@)),
{
    let mut items: Vec<Json> = Vec::new();
    let mut i: usize = 0;
    while i < v.len()
        invariant
            i <= v.len(),
            items.len() == i,
            forall|k: int| 0 <= k < i ==> #[trigger] items@[k]@ == JsonModel::Str(v@[k]@),
        decreases v.len() - i,
    {
        items.push(Json::Str(v[i].clone()));
        i = i + 1;
    }
    let r = Json::Array(items);
    assert(r@->Array_0.len() == v@.len());
    assert forall|k: int| 0 <= k < v@.len() implies #[trigger] r@->Array_0[k] == JsonModel::Str(v@[k]@) by {
        assert(items@[k]@ == JsonModel::Str(v@[k]@));
    }
    assert(r@->Array_0 =~= texts_json(texts(v@))->Array_0);
    r
}

/// Writes one job, with its sub-jobs, as a JSON object.
pub fn node_to_json(node: &JobNode) -> (r: Json)
    ensures
        r@ == node_json(node@),
    decreases node,
{
    let ghost n = node@;
    let mut members: Vec<(String, Json)> = Vec::new();
    let ghost mut expected: Seq<(Seq<char>, JsonModel)> = seq![];
    let ghost mut sub_array: Seq<JsonModel> = seq![];
    if let Some(b) = &node.builds {
        members.push(("builds".to_owned(), texts_to_json(b)));
        proof {
            expected = seq![("builds"@, texts_json(texts(b@)))];
        }
    }
    members.push(("name".to_owned(), text_to_json(&node.name)));
    proof {
        expected = expected + seq![("name"@, text_json(n.name))];
    }
    if let Some(subs) = &node.sub_jobs {
        let mut items: Vec<Json> = Vec::new();
        let mut i: usize = 0;
        while i < subs.len()
            invariant
                i <= subs.len(),
                node.sub_jobs == Some(*subs),
                items.len() == i,
                forall|k: int| 0 <= k < i ==> #[trigger] items@[k]@ == node_json(subs@[k]@),
            decreases subs.len() - i,
        {
            proof {
                assert(decreases_to!(node.sub_jobs => node.sub_jobs->Some_0));
            }
            let item = node_to_json(&subs[i]);
            items.push(item);
            i = i + 1;
        }
        let listed = Json::Array(items);
        assert forall|k: int| 0 <= k < subs@.len() implies #[trigger] listed@->Array_0[k] == node_json(subs@[k]@) by {
            assert(items@[k]@ == node_json(subs@[k]@));
        }
        assert(n.sub_jobs->Some_0.len() == subs@.len());
        assert forall|k: int| 0 <= k < subs@.len() implies #[trigger] n.sub_jobs->Some_0[k] == subs@[k]@ by {}
        proof {
            sub_array = listed@->Array_0;
        }
        members.push(("sub_jobs".to_owned(), listed));
        proof {
            expected = expected + seq![("sub_jobs"@, listed@)];
        }
    }
    members.push(("url".to_owned(), text_to_json(&node.url)));
    proof {
        expected = expected + seq![("url"@, text_json(n.url))];
    }
    let r = Json::Object(members);
    assert(r@->Object_0 =~= expected);
    proof {
        let m = node_json(n)->Object_0;
        if n.sub_jobs is Some {
            let j: int = if n.builds is Some { 2 } else { 1 };
            assert(m[j].1->Array_0 =~= sub_array);
        }
        assert(m =~= expected);
    }
    r
}

/// Writes a job list as the JSON array that the snapshot holds.
pub fn document_to_json(jobs: &Vec<JobNode>) -> (r: Json)
    ensures
        r@ == document_json(node_views(jobs@)),
{
    let mut items: Vec<Json> = Vec::new();
    let mut i: usize = 0;
    while i < jobs.len()
        invariant
            i <= jobs.len(),
            items.len() == i,
            forall|k: int| 0 <= k < i ==> #[trigger] items@[k]@ == node_json(jobs@[k]@),
        decreases jobs.len() - i,
    {
        items.push(node_to_json(&jobs[i]));
        i = i + 1;
    }
    let r = Json::Array(items);
    assert(r@->Array_0.len() == jobs@.len());
    assert forall|k: int| 0 <= k < jobs@.len() implies #[trigger] r@->Array_0[k] == node_json(jobs@[k]@) by {
        assert(items@[k]@ == node_json(jobs@[k]@));
    }
    assert(r@->Array_0 =~= document_json(node_views(jobs@))->Array_0);
    r
}

/// The strings among `items`, in order.
pub open spec fn string_items(items: Seq<JsonModel>) -> Seq<Seq<char>>
    decreases items.len(),
{
    if items.len() == 0 {
        seq![]
    } else {
        let rest = string_items(items.drop_last());
        match items.last() {
            JsonModel::Str(s) => rest.push(s),
            _ => rest,
        }
    }
}

/// The strings of the `builds` array of one job of a document.
pub open spec fn own_builds(doc: JsonModel) -> Seq<Seq<char>> {
    match items_member(doc, "builds"@) {
        Some(items) => string_items(items),
        None => seq![],
    }
}

/// The build URLs of a sequence of jobs of a document, depth first: for each job in turn,
/// the strings of its `builds` array, then those below each entry of its `sub_jobs` array.
pub open spec fn collected_each(docs: Seq<JsonModel>) -> Seq<Seq<char>>
    decreases docs,
{
    if docs.len() == 0 {
        seq![]
    } else {
        let doc = docs[docs.len() - 1];
        let below = match doc {
            JsonModel::Object(members) => {
                let s = find_member(members, "sub_jobs"@, 0);
                if 0 <= s < members.len() {
                    match members[s].1 {
                        JsonModel::Array(subs) => collected_each(subs),
                        _ => seq![],
                    }
                } else {
                    seq![]
                }
            },
            _ => seq![],
        };
        collected_each(docs.subrange(0, docs.len() - 1)) + own_builds(doc) + below
    }
}

/// The build URLs of one job of a document.
pub open spec fn collected(doc: JsonModel) -> Seq<Seq<char>> {
    collected_each(seq![doc])
}

fn push_strings(items: &Vec<Json>, out: &mut Vec<String>)
    ensures
        texts(final(out)@) == texts(old(out)@) + string_items(views(items@)),
{
    let ghost start = texts(out@);
    let ghost model = views(items@);
    let mut i: usize = 0;
    while i < items.len()
        invariant
            i <= items.len(),
            model == views(items@),
            texts(out@) == start + string_items(model.take(i as int)),
        decreases items.len() - i,
    {
        assert(model.take(i + 1).drop_last() =~= model.take(i as int));
        assert(model[i as int] == items@[i as int]@);
        let ghost before = out@;
        if let Some(s) = items[i].as_str() {
            out.push(s.to_owned());
            assert(texts(out@) =~= texts(before).push(s@));
        }
        assert(texts(out@) =~= start + string_items(model.take(i + 1)));
        i = i + 1;
    }
    assert(model.take(items.len() as int) =~= model);
}

/// What lies below one job of a document: the build URLs under its `sub_jobs` array.
pub open spec fn collected_below(doc: JsonModel) -> Seq<Seq<char>> {
    match doc {
        JsonModel::Object(members) => {
            let s = find_member(members, "sub_jobs"@, 0);
            if 0 <= s < members.len() {
                match members[s].1 {
                    JsonModel::Array(subs) => collected_each(subs),
                    _ => seq![],
                }
            } else {
                seq![]
            }
        },
        _ => seq![],
    }
}

proof fn lemma_collected_parts(doc: JsonModel)
    ensures
        collected(doc) == own_builds(doc) + collected_below(doc),
{
    let docs = seq![doc];
    assert(docs.subrange(0, 0) =~= Seq::<JsonModel>::empty());
    assert(collected_each(docs.subrange(0, 0)) == Seq::<Seq<char>>::empty());
    assert(collected(doc) =~= own_builds(doc) + collected_below(doc));
}

proof fn lemma_collected_step(docs: Seq<JsonModel>, i: int)
    requires
        0 <= i < docs.len(),
    ensures
        collected_each(docs.take(i + 1)) == collected_each(docs.take(i)) + collected(docs[i]),
{
    lemma_collected_parts(docs[i]);
    let t = docs.take(i + 1);
    assert(t.subrange(0, t.len() - 1) =~= docs.take(i));
    assert(t[t.len() - 1] == docs[i]);
    assert(collected_each(t) =~= collected_each(docs.take(i)) + own_builds(docs[i]) + collected_below(docs[i]));
}

/// Appends the build URLs of one job of a document, depth first, with no deduplication.
pub fn collect_build_urls(doc: &Json, out: &mut Vec<String>)
    ensures
        texts(final(out)@) == texts(old(out)@) + collected(doc@),
    decreases doc,
{
    proof {
        lemma_collected_parts(doc@);
    }
    let ghost start = texts(out@);
    match doc {
        Json::Object(members) => {
            let ghost model = doc@->Object_0;
            let b = find_member_index(members, "builds");
            if b < members.len() {
                assert(model[b as int].1 == members@[b as int].1@);
                match &members[b].1 {
                    Json::Array(items) => {
                        assert(model[b as int].1->Array_0 =~= views(items@));
                        push_strings(items, out);
                    },
                    _ => {},
                }
            }
            assert(texts(out@) =~= start + own_builds(doc@));
            let ghost mid = texts(out@);
            let s = find_member_index(members, "sub_jobs");
            if s < members.len() {
                assert(model[s as int].1 == members@[s as int].1@);
                match &members[s].1 {
                    Json::Array(subs) => {
                        let ghost listed = views(subs@);
                        assert(model[s as int].1->Array_0 =~= listed);
                        let mut i: usize = 0;
                        while i < subs.len()
                            invariant
                                i <= subs.len(),
                                members@[s as int].1 == Json::Array(*subs),
                                s < members.len(),
                                *doc == Json::Object(*members),
                                listed == views(subs@),
                                texts(out@) == mid + collected_each(listed.take(i as int)),
                            decreases subs.len() - i,
                        {
                            proof {
                                assert(decreases_to!(*doc => doc->Object_0));
                                assert(decreases_to!(doc->Object_0 => members[s as int]));
                                assert(decreases_to!(members[s as int] => members[s as int].1));
                                assert(decreases_to!(members[s as int].1 => members[s as int].1->Array_0));
                                assert(decreases_to!(*subs => subs[i as int]));
                                lemma_collected_step(listed, i as int);
                            }
                            collect_build_urls(&subs[i], out);
                            assert(texts(out@) =~= mid + collected_each(listed.take(i + 1)));
                            i = i + 1;
                        }
                        assert(listed.take(subs.len() as int) =~= listed);
                    },
                    _ => {},
                }
            }
            assert(texts(out@) =~= start + own_builds(doc@) + collected_below(doc@));
        },
        _ => {
            assert(texts(out@) =~= start + collected(doc@));
        },
    }
}

/// Why a job list yields no builds to dump.
#[derive(Clone, Copy, Debug, PartialEq, Eq, Structural)]
pub enum DocumentError {
    /// The document is not a list of jobs.
    NotAJobList,
    /// The list holds no jobs.
    NoJobs,
    /// No job in the list has a build.
    NoBuilds,
    /// The snapshot is not JSON.
    Undecodable,
}

/// The build URLs of a job list, or why there are none to dump.
pub open spec fn document_urls(doc: JsonModel) -> Result<Seq<Seq<char>>, DocumentError> {
    match doc {
        JsonModel::Array(jobs) => if jobs.len() == 0 {
            Err(DocumentError::NoJobs)
        } else if collected_each(jobs).len() == 0 {
            Err(DocumentError::NoBuilds)
        } else {
            Ok(collected_each(jobs))
        },
        _ => Err(DocumentError::NotAJobList),
    }
}

/// The build URLs of a job list, live or loaded from a snapshot, in document order.
pub fn document_build_urls(doc: &Json) -> (r: Result<Vec<String>, DocumentError>)
    ensures
        match document_urls(doc@) {
            Ok(urls) => r matches Ok(v) && texts(v@) == urls,
            Err(e) => r matches Err(x) && x == e,
        },
{
    match doc.as_array() {
        None => Err(DocumentError::NotAJobList),
        Some(jobs) => {
            if jobs.len() == 0 {
                return Err(DocumentError::NoJobs);
            }
            let ghost model = views(jobs@);
            let mut out: Vec<String> = Vec::new();
            let mut i: usize = 0;
            while i < jobs.len()
                invariant
                    i <= jobs.len(),
                    model == views(jobs@),
                    texts(out@) == collected_each(model.take(i as int)),
                decreases jobs.len() - i,
            {
                proof {
                    lemma_collected_step(model, i as int);
                }
                collect_build_urls(&jobs[i], &mut out);
                assert(texts(out@) =~= collected_each(model.take(i + 1)));
                i = i + 1;
            }
            assert(model.take(jobs.len() as int) =~= model);
            if out.len() == 0 {
                Err(DocumentError::NoBuilds)
            } else {
                Ok(out)
            }
        },
    }
}

/// The sub-job tree below `n` has at most `h` levels, `n` included.
pub open spec fn within_height(n: JobNodeModel, h: nat) -> bool
    decreases n,
{
    h > 0 && match n.sub_jobs {
        Some(subs) => forall|i: int| 0 <= i < subs.len() ==> within_height(#[trigger] subs[i], (h - 1) as nat),
        None => true,
    }
}

/// Job levels that a snapshot keeps: each level nests an object and an array.
pub open spec fn snapshot_height() -> nat {
    49
}

pub open spec fn document_within(doc: Seq<JobNodeModel>) -> bool {
    forall|i: int| 0 <= i < doc.len() ==> within_height(#[trigger] doc[i], snapshot_height())
}

proof fn lemma_member_order()
    ensures
        key_before("builds"@, "name"@),
        key_before("name"@, "sub_jobs"@),
        key_before("name"@, "url"@),
        key_before("sub_jobs"@, "url"@),
{
    reveal_strlit("builds");
    reveal_strlit("name");
    reveal_strlit("sub_jobs");
    reveal_strlit("url");
}

proof fn lemma_node_storable(n: JobNodeModel, h: nat, d: nat)
    requires
        within_height(n, h),
        d >= 2 * h,
    ensures
        json_storable(node_json(n), d),
    decreases n,
{
    lemma_member_order();
    let members = node_json(n)->Object_0;
    assert(keys_ascending(members));
    if let Some(b) = n.builds {
        let listed = members[0].1->Array_0;
        assert forall|i: int| 0 <= i < listed.len() implies json_storable(#[trigger] listed[i], (d - 2) as nat) by {}
        assert(json_storable(members[0].1, (d - 1) as nat));
    }
    if let Some(subs) = n.sub_jobs {
        let j: int = if n.builds is Some { 2 } else { 1 };
        let listed = members[j].1->Array_0;
        assert(listed.len() == subs.len());
        assert forall|i: int| 0 <= i < listed.len() implies json_storable(#[trigger] listed[i], (d - 2) as nat) by {
            assert(listed[i] == node_json(subs[i]));
            lemma_node_storable(subs[i], (h - 1) as nat, (d - 2) as nat);
        }
        assert(json_storable(members[j].1, (d - 1) as nat));
    }
    assert forall|i: int| 0 <= i < members.len() implies json_storable(#[trigger] members[i].1, (d - 1) as nat) by {}
}

proof fn lemma_document_storable(doc: Seq<JobNodeModel>)
    requires
        document_within(doc),
    ensures
        json_storable(document_json(doc), storable_depth()),
{
    assert forall|i: int| 0 <= i < doc.len() implies json_storable(#[trigger] document_json(doc)->Array_0[i], (storable_depth() - 1) as nat) by {
        lemma_node_storable(doc[i], snapshot_height(), (storable_depth() - 1) as nat);
    }
}

/// The jobs snapshot: the job list as pretty-printed JSON. Loading it back gives the same
/// document, and so the same build URLs, when the tree is not too deep for serde_json.
pub fn save_document(jobs: &Vec<JobNode>) -> (r: String)
    ensures
        r@ == json_pretty(document_json(node_views(jobs@))),
        document_within(node_views(jobs@)) ==> json_parse(r@) == Some(document_json(node_views(jobs@))),
        document_within(node_views(jobs@)) ==> (json_parse(r@) matches Some(loaded) && document_urls(loaded)
            == document_urls(document_json(node_views(jobs@)))),
{
    let doc = document_to_json(jobs);
    proof {
        if document_within(node_views(jobs@)) {
            lemma_document_storable(node_views(jobs@));
        }
    }
    render_text(&doc)
}

/// The build URLs of a jobs snapshot, or why there are none to dump.
pub fn snapshot_build_urls(text: &str) -> (r: Result<Vec<String>, DocumentError>)
    ensures
        match json_parse(text@) {
            None => r matches Err(x) && x == DocumentError::Undecodable,
            Some(doc) => match document_urls(doc) {
                Ok(urls) => r matches Ok(v) && texts(v@) == urls,
                Err(e) => r matches Err(x) && x == e,
            },
        },
{
    match parse_text(text) {
        None => Err(DocumentError::Undecodable),
        Some(doc) => document_build_urls(&doc),
    }
}

/// The build URLs of a job list, depth first: each job's builds, then those below its
/// sub-jobs, with no deduplication.
pub open spec fn tree_builds(doc: Seq<JobNodeModel>) -> Seq<Seq<char>>
    decreases doc,
{
    if doc.len() == 0 {
        seq![]
    } else {
        let n = doc[doc.len() - 1];
        let own = match n.builds {
            Some(b) => b,
            None => seq![],
        };
        let below = match n.sub_jobs {
            Some(subs) => tree_builds(subs),
            None => seq![],
        };
        tree_builds(doc.subrange(0, doc.len() - 1)) + own + below
    }
}

proof fn lemma_string_items_of_texts(v: Seq<Seq<char>>)
    ensures
        string_items(texts_json(v)->Array_0) == v,
    decreases v.len(),
{
    let items = texts_json(v)->Array_0;
    if v.len() > 0 {
        let rest = v.subrange(0, v.len() - 1);
        lemma_string_items_of_texts(rest);
        assert(items.drop_last() =~= texts_json(rest)->Array_0);
        assert(string_items(items) =~= v);
    } else {
        assert(items =~= Seq::<JsonModel>::empty());
    }
}

proof fn lemma_member_names_differ()
    ensures
        "builds"@ != "name"@,
        "builds"@ != "sub_jobs"@,
        "builds"@ != "url"@,
        "sub_jobs"@ != "name"@,
        "sub_jobs"@ != "url"@,
{
    reveal_strlit("builds");
    reveal_strlit("name");
    reveal_strlit("sub_jobs");
    reveal_strlit("url");
    assert("builds"@.len() != "name"@.len());
    assert("builds"@[0] != "sub_jobs"@[0]);
}

proof fn lemma_collected_encoded(doc: Seq<JobNodeModel>)
    ensures
        collected_each(document_json(doc)->Array_0) == tree_builds(doc),
    decreases doc,
{
    let encoded = document_json(doc)->Array_0;
    if doc.len() > 0 {
        let last = doc.len() - 1;
        let rest = doc.subrange(0, last);
        lemma_collected_encoded(rest);
        assert(encoded.subrange(0, last) =~= document_json(rest)->Array_0);
        let n = doc[last];
        let members = node_json(n)->Object_0;
        lemma_member_names_differ();
        reveal_with_fuel(find_member, 5);
        if let Some(b) = n.builds {
            lemma_string_items_of_texts(b);
            assert(find_member(members, "builds"@, 0) == 0);
        } else {
            assert(find_member(members, "builds"@, 0) == members.len());
        }
        if let Some(subs) = n.sub_jobs {
            let j: int = if n.builds is Some { 2 } else { 1 };
            assert(find_member(members, "sub_jobs"@, 0) == j);
            lemma_collected_encoded(subs);
            assert(members[j].1->Array_0 =~= document_json(subs)->Array_0);
        } else {
            assert(find_member(members, "sub_jobs"@, 0) == members.len());
        }
        assert(encoded[last] == node_json(n));
    }
}

/// The collector on a crawled job list, encoded as the snapshot holds it, gives every build
/// URL of the tree, depth first and in document order; it reports an empty list, or one
/// without builds, as an error.
pub proof fn lemma_collector_follows_tree(doc: Seq<JobNodeModel>)
    ensures
        document_urls(document_json(doc)) == (if doc.len() == 0 {
            Err(DocumentError::NoJobs)
        } else if tree_builds(doc).len() == 0 {
            Err(DocumentError::NoBuilds)
        } else {
            Ok(tree_builds(doc))
        }),
{
    lemma_collected_encoded(doc);
}

} // verus!
