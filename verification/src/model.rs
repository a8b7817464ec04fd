//! Shared vocabulary: build statuses and the parts of the configuration that the
//! build logic reads.

use vstd::prelude::*;

verus! {

/// The state of a build, or of one of its steps.
#[derive(Clone, Copy, Debug, PartialEq, Eq, Structural)]
pub enum Status {
    StartingCommand,
    Success,
    Error,
    Aborted,
}

/// Where a configured payload value goes, or comes from.
#[derive(Clone, Copy, Debug, PartialEq, Eq, Structural)]
pub enum PayloadType {
    /// A placeholder value substituted into command templates.
    Param,
    /// An environment variable of the build commands.
    Env,
    /// The content of a file under the project directory.
    File,
}

/// One configured payload entry: `key1` names the build payload value, `key2`
/// optionally renames it (the environment variable, or the file path).
#[derive(Clone, Debug)]
pub struct PayloadConfig {
    pub kind: PayloadType,
    pub key1: String,
    pub key2: Option<String>,
}

impl PayloadConfig {
    /// The name the entry goes by outside the payload: `key2` when given, else `key1`.
    pub open spec fn target_name(&self) -> Seq<char> {
        match self.key2 {
            Some(k) => k@,
            None => self.key1@,
        }
    }

    /// `key2` when given, else `key1`.
    pub fn target(&self) -> (r: &String)
        ensures
            r@ == self.target_name(),
    {
        match &self.key2 {
            Some(k) => k,
            None => &self.key1,
        }
    }
}

/// One configured build command.
#[derive(Clone, Debug)]
pub struct CommandConfig {
    pub title: String,
    pub command: String,
    pub send_to_sock: bool,
    pub abort_on_error: bool,
    pub extract_envs: Vec<String>,
}

} // verus!
