use vstd::prelude::*;
use crate::text::{decimal_of, decimal_string};

verus! {

/// The ways in which an operation of the agent fails.
#[derive(Debug, Clone, PartialEq, Eq)]
pub enum AgentError {
    /// The node binary could not be started.
    Spawn(String),
    /// The repository directory or the node's init command failed.
    RepoInit(String),
    /// A configuration document is malformed or could not be rewritten.
    ConfigParse(String),
    /// A command of the node exited with failure; holds what it wrote to standard error.
    Subprocess(String),
    /// A request was refused for its content.
    Validation(String),
    /// The operation needs a live daemon.
    NotRunning,
    /// A block of a content identifier could not be read.
    BlockFetch { cid: String, index: u64, reason: String },
}


/// The human-readable text of an error.
pub open spec fn error_message(e: AgentError) -> Seq<char> {
    match e {
        AgentError::Spawn(m) => m@,
        AgentError::RepoInit(m) => m@,
        AgentError::ConfigParse(m) => m@,
        AgentError::Subprocess(m) => m@,
        AgentError::Validation(m) => m@,
        AgentError::NotRunning => "IPFS daemon not running"@,
        AgentError::BlockFetch { cid, index, reason } => "Failed to fetch block "@ + decimal_of(index as nat) + ": "@
            + reason@,
    }
}

/// The HTTP status with which the control plane reports an error.
pub open spec fn error_status(e: AgentError) -> u16 {
    match e {
        AgentError::Validation(_) => 400,
        AgentError::BlockFetch { .. } => 404,
        AgentError::NotRunning => 503,
        _ => 500,
    }
}

impl AgentError {
    /// The human-readable text of the error.
    pub fn message(&self) -> (r: String)
        ensures
            r@ == error_message(*self),
    {
        match self {
            AgentError::Spawn(m) => m.clone(),
            AgentError::RepoInit(m) => m.clone(),
            AgentError::ConfigParse(m) => m.clone(),
            AgentError::Subprocess(m) => m.clone(),
            AgentError::Validation(m) => m.clone(),
            AgentError::NotRunning => String::from_str("IPFS daemon not running"),
            AgentError::BlockFetch { index, reason, .. } => {
                let mut s = String::from_str("Failed to fetch block ");
                let d = decimal_string(*index);
                s.append(d.as_str());
                s.append(": ");
                s.append(reason.as_str());
                s
            },
        }
    }

    /// The HTTP status of the error: 400 for a refused request, 404 for a missing block,
    /// 503 while the node is down, 500 otherwise.
    pub fn status_code(&self) -> (r: u16)
        ensures
            r == error_status(*self),
    {
        match self {
            AgentError::Validation(_) => 400,
            AgentError::BlockFetch { .. } => 404,
            AgentError::NotRunning => 503,
            _ => 500,
        }
    }
}

} // verus!
