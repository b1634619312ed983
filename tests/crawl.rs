use std::collections::HashMap;

use jenkins_dump::jobs::{
    api_json_url, assemble_job, job_step, root_document, root_job_urls, BuildSelectionPolicy,
    CrawlError, FetchError, JobNode, RootError,
};
use jenkins_dump::text::concatenate_url;

struct Server {
    responses: HashMap<String, Result<String, FetchError>>,
}

impl Server {
    fn new(pages: &[(&str, &str)]) -> Server {
        let mut responses = HashMap::new();
        for (url, body) in pages {
            responses.insert(url.to_string(), Ok(body.to_string()));
        }
        Server { responses }
    }

    fn fail(&mut self, url: &str, cause: FetchError) {
        self.responses.insert(url.to_string(), Err(cause));
    }

    fn get(&self, url: &str) -> Result<String, FetchError> {
        self.responses
            .get(url)
            .cloned()
            .unwrap_or(Err(FetchError::HttpStatus(404)))
    }
}

fn resolve(server: &Server, job_url: &str, policy: BuildSelectionPolicy) -> Result<JobNode, CrawlError> {
    let job = job_step(job_url, server.get(&api_json_url(job_url)), policy)?;
    let children = match &job.child_urls {
        Some(urls) => urls.iter().map(|u| resolve(server, u, policy)).collect(),
        None => Vec::new(),
    };
    assemble_job(job, children)
}

fn crawl(server: &Server, base: &str, policy: BuildSelectionPolicy) -> Result<Vec<JobNode>, RootError> {
    let root = concatenate_url(base, "api/json").unwrap();
    let urls = root_job_urls(server.get(&root))?;
    let results = urls.iter().map(|u| resolve(server, u, policy)).collect();
    Ok(root_document(results))
}

fn job(name: &str, url: &str, sub_jobs: Option<Vec<JobNode>>, builds: Option<Vec<&str>>) -> JobNode {
    JobNode {
        name: Some(name.to_string()),
        url: Some(url.to_string()),
        sub_jobs,
        builds: builds.map(|b| b.iter().map(|s| s.to_string()).collect()),
    }
}

const ROOT_A: &str = r#"{"jobs":[{"url":"http://h/job/A"}]}"#;
const JOB_A: &str = r#"{"name":"A","url":"http://h/job/A","builds":[{"url":"http://h/job/A/1"},{"url":"http://h/job/A/2"}]}"#;

#[test]
fn single_job_all_builds() {
    let server = Server::new(&[("http://h/api/json", ROOT_A), ("http://h/job/A/api/json", JOB_A)]);
    let doc = crawl(&server, "http://h", BuildSelectionPolicy::All).unwrap();
    assert_eq!(doc, vec![job("A", "http://h/job/A", None, Some(vec!["http://h/job/A/1", "http://h/job/A/2"]))]);
}

#[test]
fn single_job_last_only_takes_first_build() {
    let server = Server::new(&[("http://h/api/json", ROOT_A), ("http://h/job/A/api/json", JOB_A)]);
    let doc = crawl(&server, "http://h", BuildSelectionPolicy::LastOnly).unwrap();
    assert_eq!(doc, vec![job("A", "http://h/job/A", None, Some(vec!["http://h/job/A/1"]))]);
}

#[test]
fn failing_sub_job_drops_only_its_root_job() {
    let mut server = Server::new(&[
        ("http://h/api/json", r#"{"jobs":[{"url":"http://h/job/F"},{"url":"http://h/job/B"}]}"#),
        ("http://h/job/F/api/json", r#"{"name":"F","url":"http://h/job/F","jobs":[{"url":"http://h/job/F/job/X"}]}"#),
        ("http://h/job/B/api/json", r#"{"name":"B","url":"http://h/job/B","builds":[{"url":"http://h/job/B/7"}]}"#),
    ]);
    server.fail("http://h/job/F/job/X/api/json", FetchError::Unreachable);
    let doc = crawl(&server, "http://h", BuildSelectionPolicy::All).unwrap();
    assert_eq!(doc, vec![job("B", "http://h/job/B", None, Some(vec!["http://h/job/B/7"]))]);
}

#[test]
fn nested_tree_is_mirrored_in_order() {
    let server = Server::new(&[
        ("http://h/api/json", r#"{"jobs":[{"url":"http://h/job/F"},{"url":"http://h/job/C"}]}"#),
        ("http://h/job/F/api/json", r#"{"name":"F","url":"http://h/job/F","jobs":[{"url":"http://h/job/F/job/Y"},{"url":"http://h/job/F/job/X"}]}"#),
        ("http://h/job/F/job/Y/api/json", r#"{"name":"Y","url":"http://h/job/F/job/Y","builds":[]}"#),
        ("http://h/job/F/job/X/api/json", r#"{"name":"X","url":"http://h/job/F/job/X","builds":[{"url":"http://h/job/F/job/X/3"}]}"#),
        ("http://h/job/C/api/json", r#"{"name":"C","url":"http://h/job/C"}"#),
    ]);
    let doc = crawl(&server, "http://h", BuildSelectionPolicy::All).unwrap();
    let expected = vec![
        job(
            "F",
            "http://h/job/F",
            Some(vec![
                job("Y", "http://h/job/F/job/Y", None, Some(vec![])),
                job("X", "http://h/job/F/job/X", None, Some(vec!["http://h/job/F/job/X/3"])),
            ]),
            None,
        ),
        job("C", "http://h/job/C", None, None),
    ];
    assert_eq!(doc, expected);
}

#[test]
fn last_only_prefers_last_successful_build() {
    let body = r#"{"name":"A","url":"http://h/job/A","builds":[{"url":"http://h/job/A/3"},{"url":"http://h/job/A/2"}],
        "lastCompletedBuild":{"url":"http://h/job/A/3"},"lastSuccessfulBuild":{"url":"http://h/job/A/2"}}"#;
    let step = job_step("http://h/job/A", Ok(body.to_string()), BuildSelectionPolicy::LastOnly).unwrap();
    assert_eq!(step.builds, Some(vec!["http://h/job/A/2".to_string()]));
}

#[test]
fn last_only_then_completed_then_stable() {
    let completed = r#"{"builds":[{"url":"u1"}],"lastCompletedBuild":{"url":"u3"},"lastStableBuild":{"url":"u4"}}"#;
    let step = job_step("j", Ok(completed.to_string()), BuildSelectionPolicy::LastOnly).unwrap();
    assert_eq!(step.builds, Some(vec!["u3".to_string()]));
    let stable = r#"{"builds":[{"url":"u1"}],"lastStableBuild":{"url":"u4"}}"#;
    let step = job_step("j", Ok(stable.to_string()), BuildSelectionPolicy::LastOnly).unwrap();
    assert_eq!(step.builds, Some(vec!["u4".to_string()]));
    let none = r#"{"builds":[]}"#;
    let step = job_step("j", Ok(none.to_string()), BuildSelectionPolicy::LastOnly).unwrap();
    assert_eq!(step.builds, Some(vec![]));
}

#[test]
fn entries_without_url_are_skipped() {
    let body = r#"{"name":"A","jobs":[{"name":"no url"},{"url":"http://h/job/A/job/S"}],"builds":[{"number":1},{"url":"b2"}]}"#;
    let step = job_step("http://h/job/A", Ok(body.to_string()), BuildSelectionPolicy::All).unwrap();
    assert_eq!(step.child_urls, Some(vec!["http://h/job/A/job/S".to_string()]));
    assert_eq!(step.builds, Some(vec!["b2".to_string()]));
    assert_eq!(step.url, None);
    assert_eq!(step.name, Some("A".to_string()));
}

#[test]
fn job_fetch_and_decode_failures() {
    let fetched = job_step("http://h/job/A", Err(FetchError::HttpStatus(500)), BuildSelectionPolicy::All);
    assert_eq!(
        fetched,
        Err(CrawlError::Fetch { url: "http://h/job/A".to_string(), cause: FetchError::HttpStatus(500) })
    );
    let garbled = job_step("http://h/job/A", Ok("<html>".to_string()), BuildSelectionPolicy::All);
    assert_eq!(garbled, Err(CrawlError::Undecodable { url: "http://h/job/A".to_string() }));
}

#[test]
fn first_failed_child_fails_the_parent() {
    let parent = job_step("p", Ok(r#"{"name":"P","jobs":[{"url":"a"},{"url":"b"},{"url":"c"}]}"#.to_string()), BuildSelectionPolicy::All).unwrap();
    let children = vec![
        Ok(job("a", "a", None, None)),
        Err(CrawlError::Undecodable { url: "b".to_string() }),
        Err(CrawlError::Fetch { url: "c".to_string(), cause: FetchError::Unreachable }),
    ];
    assert_eq!(assemble_job(parent, children), Err(CrawlError::Undecodable { url: "b".to_string() }));
}

#[test]
fn root_authentication_required_is_fatal() {
    let server = Server::new(&[("http://h/api/json", "<html>Authentication required</html>")]);
    assert_eq!(crawl(&server, "http://h", BuildSelectionPolicy::All), Err(RootError::AuthenticationRequired));
    let json_body = Ok(r#"{"jobs":[],"message":"Authentication required"}"#.to_string());
    assert_eq!(root_job_urls(json_body), Err(RootError::AuthenticationRequired));
}

#[test]
fn root_other_failures() {
    assert_eq!(
        root_job_urls(Ok("line one\nInvalid password/token\n".to_string())),
        Err(RootError::InvalidPasswordOrToken)
    );
    assert_eq!(
        root_job_urls(Ok("user is missing the Overall/Read permission".to_string())),
        Err(RootError::MissingReadPermission)
    );
    assert_eq!(root_job_urls(Ok("not json".to_string())), Err(RootError::Undecodable));
    assert_eq!(
        root_job_urls(Err(FetchError::Unreachable)),
        Err(RootError::Fetch(FetchError::Unreachable))
    );
    assert_eq!(root_job_urls(Ok("{}".to_string())), Ok(vec![]));
    assert_eq!(root_job_urls(Ok("authentication required".to_string())), Err(RootError::Undecodable));
}
