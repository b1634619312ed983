use jenkins_dump::cli::{Credentials, DumpArgs, DumpResource};
use jenkins_dump::jobs::BuildSelectionPolicy;
use jenkins_dump::text::{concatenate_url, extract_path, search_substring, UrlError};

#[test]
fn substring_search_spans_lines() {
    assert!(search_substring("first\nsecond Authentication required\n", "Authentication required"));
    assert!(!search_substring("Authentication\nrequired", "Authentication required"));
    assert!(!search_substring("authentication required", "Authentication required"));
    assert!(search_substring("anything", ""));
    assert!(search_substring("a/b", "a/b"));
}

#[test]
fn urls_join_and_split() {
    assert_eq!(concatenate_url("http://h/", "api/json"), Ok("http://h/api/json".to_string()));
    assert_eq!(concatenate_url("http://h/job/A/1/", "consoleText"), Ok("http://h/job/A/1/consoleText".to_string()));
    assert_eq!(concatenate_url("http://h/x", "http://o/y"), Ok("http://o/y".to_string()));
    assert_eq!(concatenate_url("not a url", "api/json"), Err(UrlError::Invalid));
    assert_eq!(extract_path("http://localhost:8080/job/MyJob/1"), Ok("/job/MyJob/1".to_string()));
    assert_eq!(extract_path("job/MyJob/1"), Err(UrlError::Invalid));
}

fn args(username: Option<&str>, password: Option<&str>, last: bool) -> DumpArgs {
    DumpArgs {
        username: username.map(|s| s.to_string()),
        password: password.map(|s| s.to_string()),
        recover: false,
        output: "dumps".to_string(),
        last,
        jobs: None,
        resource: DumpResource::Jobs,
        url: "http://h".to_string(),
    }
}

#[test]
fn credentials_need_both_parts() {
    let c = args(Some("me"), Some("SECRET-REDACTED"), false).credentials().unwrap();
    assert_eq!(c.get_username(), "me");
    assert_eq!(c.get_password(), "SECRET-REDACTED");
    assert!(args(Some("me"), None, false).credentials().is_none());
    assert!(args(None, Some("pw"), false).credentials().is_none());
}

#[test]
fn missing_credential_parts_read_as_empty() {
    let c = Credentials { username: None, password: Some("pw".to_string()) };
    assert_eq!(c.get_username(), "");
    assert_eq!(c.get_password(), "pw");
}

#[test]
fn last_flag_selects_policy() {
    assert_eq!(args(None, None, true).policy(), BuildSelectionPolicy::LastOnly);
    assert_eq!(args(None, None, false).policy(), BuildSelectionPolicy::All);
}
