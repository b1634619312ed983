use vstd::prelude::*;

use crate::jobs::BuildSelectionPolicy;

verus! {

/// The command line.
pub struct Cli {
    /// Verbose logging.
    pub verbose: bool,
    /// Do not verify TLS certificates.
    pub insecure: bool,
    pub subcmd: SubCommand,
}

pub enum SubCommand {
    /// Dump jobs or builds.
    Dump(DumpArgs),
}

pub struct DumpArgs {
    pub username: Option<String>,
    pub password: Option<String>,
    /// Skip builds already downloaded (accepted, not acted on).
    pub recover: bool,
    /// Output directory.
    pub output: String,
    /// Keep only the last build of each job.
    pub last: bool,
    /// A jobs snapshot to read instead of crawling.
    pub jobs: Option<String>,
    pub resource: DumpResource,
    /// URL of the server.
    pub url: String,
}

#[derive(Clone, Copy, Debug, PartialEq, Eq, Structural)]
pub enum DumpResource {
    Builds,
    Jobs,
    Views,
}

/// The credential pair sent with every request of a crawl.
pub struct Credentials {
    pub username: Option<String>,
    pub password: Option<String>,
}

pub open spec fn text_or_empty(s: Option<String>) -> Seq<char> {
    match s {
        Some(s) => s@,
        None => Seq::empty(),
    }
}

impl Credentials {
    /// The user name; empty when there is none.
    pub fn get_username(&self) -> (r: &str)
        ensures
            r@ == text_or_empty(self.username),
    {
        match &self.username {
            Some(s) => s.as_str(),
            None => {
                proof {
                    reveal_strlit("");
                }
                ""
            },
        }
    }

    /// The password; empty when there is none.
    pub fn get_password(&self) -> (r: &str)
        ensures
            r@ == text_or_empty(self.password),
    {
        match &self.password {
            Some(s) => s.as_str(),
            None => {
                proof {
                    reveal_strlit("");
                }
                ""
            },
        }
    }
}

impl DumpArgs {
    /// The credentials to send: only when both a user name and a password were given.
    pub fn credentials(&self) -> (r: Option<Credentials>)
        ensures
            match (self.username, self.password) {
                (Some(u), Some(p)) => r matches Some(c) && c.username == Some(u) && c.password == Some(p),
                _ => r is None,
            },
    {
        match (&self.username, &self.password) {
            (Some(u), Some(p)) => Some(Credentials { username: Some(u.clone()), password: Some(p.clone()) }),
            _ => None,
        }
    }

    /// The build selection the `last` flag asks for.
    pub fn policy(&self) -> (r: BuildSelectionPolicy)
        ensures
            r == (if self.last {
                BuildSelectionPolicy::LastOnly
            } else {
                BuildSelectionPolicy::All
            }),
    {
        if self.last {
            BuildSelectionPolicy::LastOnly
        } else {
            BuildSelectionPolicy::All
        }
    }
}

} // verus!
