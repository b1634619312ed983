use vstd::prelude::*;

use crate::json::{json_parse, json_pretty, parse_text, render_text};
use crate::jobs::{FetchError, api_json_url};
use crate::text::{url_joined, url_path, concatenate_url, extract_path};

verus! {

/// `{base}/{name}`.
pub fn child_path(base: &str, name: &str) -> (r: String)
    ensures
        r@ == base@ + "/"@ + name@,
{
    let mut path = base.to_owned();
    path.append("/");
    path.append(name);
    path
}

/// The directory that holds a build's files: its URL path under the output directory
/// (`job/MyJob/1` under `dumps` gives `dumps//job/MyJob/1`, the path keeping its leading `/`).
pub fn build_directory_path(base_directory: &str, build_path: &str) -> (r: String)
    ensures
        r@ == base_directory@ + "/"@ + build_path@,
{
    child_path(base_directory, build_path)
}

/// Why one build could not be dumped; any of these aborts the whole batch.
#[derive(Debug, PartialEq, Eq)]
pub enum DumpError {
    /// Fetching the build's description failed.
    Fetch { url: String, cause: FetchError },
    /// The build's description is not JSON.
    Undecodable { url: String },
    /// The build's URL does not parse, or an endpoint cannot be joined to it.
    InvalidUrl { url: String },
}

/// Where one build's files come from and go to.
#[derive(Debug, PartialEq, Eq)]
pub struct BuildPlan {
    pub info_url: String,
    pub directory: String,
    pub info_file: String,
    pub console_url: String,
    pub console_file: String,
    pub env_vars_url: String,
    pub env_vars_file: String,
}

/// The addresses and files of one build, or why its URL gives none.
pub fn plan_build(build_url: &str, output_directory: &str) -> (r: Result<BuildPlan, DumpError>)
    ensures
        match r {
            Ok(plan) => {
                &&& plan.info_url@ == build_url@ + "/api/json"@
                &&& url_path(build_url@) matches Some(path) && plan.directory@ == output_directory@ + "/"@ + path
                &&& plan.info_file@ == plan.directory@ + "/"@ + "build_info.json"@
                &&& url_joined(build_url@, "consoleText"@) == Some(plan.console_url@)
                &&& plan.console_file@ == plan.directory@ + "/"@ + "consoleText"@
                &&& url_joined(build_url@, "injectedEnvVars/api/json"@) == Some(plan.env_vars_url@)
                &&& plan.env_vars_file@ == plan.directory@ + "/"@ + "injectedEnvVars.json"@
            },
            Err(e) => {
                &&& e matches DumpError::InvalidUrl { url } && url@ == build_url@
                &&& url_path(build_url@) is None || url_joined(build_url@, "consoleText"@) is None
                    || url_joined(build_url@, "injectedEnvVars/api/json"@) is None
            },
        },
{
    let path = match extract_path(build_url) {
        Ok(p) => p,
        Err(_) => return Err(DumpError::InvalidUrl { url: build_url.to_owned() }),
    };
    let console_url = match concatenate_url(build_url, "consoleText") {
        Ok(u) => u,
        Err(_) => return Err(DumpError::InvalidUrl { url: build_url.to_owned() }),
    };
    let env_vars_url = match concatenate_url(build_url, "injectedEnvVars/api/json") {
        Ok(u) => u,
        Err(_) => return Err(DumpError::InvalidUrl { url: build_url.to_owned() }),
    };
    let directory = build_directory_path(output_directory, path.as_str());
    let info_file = child_path(directory.as_str(), "build_info.json");
    let console_file = child_path(directory.as_str(), "consoleText");
    let env_vars_file = child_path(directory.as_str(), "injectedEnvVars.json");
    Ok(BuildPlan {
        info_url: api_json_url(build_url),
        directory,
        info_file,
        console_url,
        console_file,
        env_vars_url,
        env_vars_file,
    })
}

/// The text of `build_info.json`: the build's description, pretty-printed, or why there is
/// none.
pub fn build_info_text(build_url: &str, response: Result<String, FetchError>) -> (r: Result<String, DumpError>)
    ensures
        match response {
            Err(cause) => r matches Err(DumpError::Fetch { url, cause: c }) && url@ == build_url@ && c == cause,
            Ok(body) => match json_parse(body@) {
                None => r matches Err(DumpError::Undecodable { url }) && url@ == build_url@,
                Some(doc) => r matches Ok(text) && text@ == json_pretty(doc),
            },
        },
{
    match response {
        Err(cause) => Err(DumpError::Fetch { url: build_url.to_owned(), cause }),
        Ok(body) => match parse_text(body.as_str()) {
            None => Err(DumpError::Undecodable { url: build_url.to_owned() }),
            Some(doc) => Ok(render_text(&doc)),
        },
    }
}

/// The console log to save: the fetched text when there is some; nothing when the fetch
/// failed or the log is empty.
pub fn console_text_to_save(response: Option<String>) -> (r: Option<String>)
    ensures
        match response {
            Some(text) => if text@.len() > 0 {
                r == Some(text)
            } else {
                r is None
            },
            None => r is None,
        },
{
    match response {
        Some(text) => if text.as_str().unicode_len() > 0 {
            Some(text)
        } else {
            None
        },
        None => None,
    }
}

/// The text of `injectedEnvVars.json`: the fetched variables, pretty-printed; nothing when
/// the fetch failed, the text is not JSON, or it is `null`.
pub fn env_vars_to_save(response: Option<String>) -> (r: Option<String>)
    ensures
        match response {
            None => r is None,
            Some(body) => match json_parse(body@) {
                None => r is None,
                Some(doc) => if doc is Null {
                    r is None
                } else {
                    r matches Some(text) && text@ == json_pretty(doc)
                },
            },
        },
{
    match response {
        None => None,
        Some(body) => match parse_text(body.as_str()) {
            None => None,
            Some(doc) => if doc.is_null() {
                None
            } else {
                Some(render_text(&doc))
            },
        },
    }
}

} // verus!
