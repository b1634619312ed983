use jenkins_dump::jobs::{
    document_build_urls, document_to_json, save_document, snapshot_build_urls, DocumentError, JobNode,
};

fn node(name: Option<&str>, url: &str, sub_jobs: Option<Vec<JobNode>>, builds: Option<Vec<&str>>) -> JobNode {
    JobNode {
        name: name.map(|n| n.to_string()),
        url: Some(url.to_string()),
        sub_jobs,
        builds: builds.map(|b| b.iter().map(|s| s.to_string()).collect()),
    }
}

fn sample() -> Vec<JobNode> {
    vec![
        node(
            Some("F"),
            "http://h/job/F",
            Some(vec![
                node(Some("X"), "http://h/job/F/job/X", None, Some(vec!["x1", "x2"])),
                node(None, "http://h/job/F/job/Y", Some(vec![node(Some("Z"), "z", None, Some(vec!["z1"]))]), Some(vec!["y1"])),
            ]),
            Some(vec!["f1"]),
        ),
        node(Some("A"), "http://h/job/A", None, Some(vec!["a1", "a1"])),
    ]
}

fn strings(v: &[&str]) -> Vec<String> {
    v.iter().map(|s| s.to_string()).collect()
}

#[test]
fn collector_walks_depth_first_without_dedup() {
    let urls = document_build_urls(&document_to_json(&sample())).unwrap();
    assert_eq!(urls, strings(&["f1", "x1", "x2", "y1", "z1", "a1", "a1"]));
}

#[test]
fn snapshot_round_trip_keeps_build_urls() {
    let jobs = sample();
    let text = save_document(&jobs);
    assert_eq!(snapshot_build_urls(&text), document_build_urls(&document_to_json(&jobs)));
    assert_eq!(snapshot_build_urls(&text).unwrap().len(), 7);
}

#[test]
fn snapshot_text_is_pretty_with_sorted_members() {
    let text = save_document(&vec![node(None, "http://h/job/A", None, Some(vec!["b"]))]);
    let expected = "[\n  {\n    \"builds\": [\n      \"b\"\n    ],\n    \"name\": null,\n    \"url\": \"http://h/job/A\"\n  }\n]";
    assert_eq!(text, expected);
}

#[test]
fn snapshot_errors() {
    assert_eq!(snapshot_build_urls("[]"), Err(DocumentError::NoJobs));
    assert_eq!(snapshot_build_urls("{\"jobs\": []}"), Err(DocumentError::NotAJobList));
    assert_eq!(snapshot_build_urls("[{\"name\": \"A\", \"builds\": []}]"), Err(DocumentError::NoBuilds));
    assert_eq!(snapshot_build_urls("[{"), Err(DocumentError::Undecodable));
}

#[test]
fn snapshot_collector_skips_non_strings() {
    let text = r#"[{"builds":["b1", 3, null, "b2"], "sub_jobs":[null, {"builds":["c1"]}]}, {"sub_jobs": {"builds": ["ignored"]}}]"#;
    assert_eq!(snapshot_build_urls(text), Ok(strings(&["b1", "b2", "c1"])));
}
