use jenkins_dump::builds::{
    build_directory_path, build_info_text, child_path, console_text_to_save, env_vars_to_save, plan_build,
    BuildPlan, DumpError,
};
use jenkins_dump::jobs::{api_json_url, FetchError};

#[test]
fn plan_for_a_build() {
    let plan = plan_build("http://h/job/MyJob/1/", "dumps").unwrap();
    assert_eq!(
        plan,
        BuildPlan {
            info_url: "http://h/job/MyJob/1//api/json".to_string(),
            directory: "dumps//job/MyJob/1/".to_string(),
            info_file: "dumps//job/MyJob/1//build_info.json".to_string(),
            console_url: "http://h/job/MyJob/1/consoleText".to_string(),
            console_file: "dumps//job/MyJob/1//consoleText".to_string(),
            env_vars_url: "http://h/job/MyJob/1/injectedEnvVars/api/json".to_string(),
            env_vars_file: "dumps//job/MyJob/1//injectedEnvVars.json".to_string(),
        }
    );
}

#[test]
fn plan_rejects_a_relative_url() {
    assert_eq!(
        plan_build("job/MyJob/1", "dumps"),
        Err(DumpError::InvalidUrl { url: "job/MyJob/1".to_string() })
    );
}

#[test]
fn paths_and_addresses() {
    assert_eq!(child_path("out", "jobs.json"), "out/jobs.json");
    assert_eq!(build_directory_path("dumps", "/job/A/2"), "dumps//job/A/2");
    assert_eq!(api_json_url("http://h/job/A"), "http://h/job/A/api/json");
}

#[test]
fn build_info_is_pretty_printed() {
    let text = build_info_text("u", Ok("{\"number\":1,\"result\":\"SUCCESS\"}".to_string())).unwrap();
    assert_eq!(text, "{\n  \"number\": 1,\n  \"result\": \"SUCCESS\"\n}");
}

#[test]
fn build_info_failures() {
    assert_eq!(
        build_info_text("u", Err(FetchError::HttpStatus(404))),
        Err(DumpError::Fetch { url: "u".to_string(), cause: FetchError::HttpStatus(404) })
    );
    assert_eq!(build_info_text("u", Ok("oops".to_string())), Err(DumpError::Undecodable { url: "u".to_string() }));
}

#[test]
fn console_text_only_when_not_empty() {
    assert_eq!(console_text_to_save(Some("log\n".to_string())), Some("log\n".to_string()));
    assert_eq!(console_text_to_save(Some(String::new())), None);
    assert_eq!(console_text_to_save(None), None);
}

#[test]
fn env_vars_only_when_present() {
    assert_eq!(env_vars_to_save(Some("{\"A\":\"1\"}".to_string())), Some("{\n  \"A\": \"1\"\n}".to_string()));
    assert_eq!(env_vars_to_save(Some("null".to_string())), None);
    assert_eq!(env_vars_to_save(Some("<html>".to_string())), None);
    assert_eq!(env_vars_to_save(None), None);
}
