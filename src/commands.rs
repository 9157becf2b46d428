//! The client's commands, as values, and the choices they make before any
//! outside work.
use vstd::prelude::*;

verus! {

/// The authentication commands.
#[derive(Debug, Clone, PartialEq)]
pub enum AuthCommands {
    /// Authenticate, with a given credential or through the browser.
    Login { token: Option<String>, api_url: String, grpc_url: String },
    /// Show whether a credential is stored.
    Status,
    /// Remove the stored credential.
    Logout,
}

/// The configuration commands.
#[derive(Debug, Clone, PartialEq)]
pub enum ConfigCommands {
    /// Set the base URLs.
    Update { api_url: Option<String>, grpc_url: Option<String> },
    /// Show the stored configuration.
    Show,
}

impl ConfigCommands {
    /// Whether the command changes the stored file: an `Update` with at least one
    /// URL. An `Update` with none only prints its usage.
    pub fn writes_config(&self) -> (r: bool)
        ensures
            r == (self matches ConfigCommands::Update { api_url, grpc_url } && (api_url is Some
                || grpc_url is Some)),
    {
        match self {
            ConfigCommands::Update { api_url, grpc_url } => api_url.is_some() || grpc_url.is_some(),
            ConfigCommands::Show => false,
        }
    }
}

/// The arguments of a benchmark run.
#[derive(Debug, Clone, PartialEq)]
pub struct RunArgs {
    pub project: String,
    pub branch: String,
    pub testbed: Option<String>,
    pub hash: Option<String>,
    /// The pull request to report on; detected from CI when not given.
    pub pr: Option<i32>,
    /// Paths of flamegraph files to upload with the report.
    pub flamegraph: Vec<String>,
    pub dry_run: bool,
    pub command: Vec<String>,
}

impl RunArgs {
    /// The pull request of the run: the one given, else the detected one.
    pub fn pr_number(&self, detected: Option<i32>) -> (r: Option<i32>)
        ensures
            r == (if self.pr is Some {
                self.pr
            } else {
                detected
            }),
    {
        match self.pr {
            Some(n) => Some(n),
            None => detected,
        }
    }

    /// Whether the results are only shown, not submitted.
    pub fn submits(&self) -> (r: bool)
        ensures
            r == !self.dry_run,
    {
        !self.dry_run
    }
}

} // verus!
