//! The errors a tool call can produce.

use vstd::prelude::*;

verus! {

/// Why a tool call failed. Each variant carries a message for the provider.
#[derive(Debug, PartialEq)]
pub enum AgentError {
    /// The tool name is unknown or malformed.
    ToolNotFound(String),
    /// The arguments did not parse.
    InvalidParameters(String),
    /// The tool ran and failed.
    ExecutionError(String),
    /// The result could not be encoded.
    SerializationError(String),
}

pub type AgentResult<T> = Result<T, AgentError>;

/// The mathematical shape of a tool error.
#[verifier::ext_equal]
pub enum AgentErrorSpec {
    ToolNotFound(Seq<char>),
    InvalidParameters(Seq<char>),
    ExecutionError(Seq<char>),
    SerializationError(Seq<char>),
}

impl DeepView for AgentError {
    type V = AgentErrorSpec;

    open spec fn deep_view(&self) -> AgentErrorSpec {
        match self {
            AgentError::ToolNotFound(m) => AgentErrorSpec::ToolNotFound(m@),
            AgentError::InvalidParameters(m) => AgentErrorSpec::InvalidParameters(m@),
            AgentError::ExecutionError(m) => AgentErrorSpec::ExecutionError(m@),
            AgentError::SerializationError(m) => AgentErrorSpec::SerializationError(m@),
        }
    }
}

/// The message an error spec carries.
pub open spec fn error_message(e: AgentErrorSpec) -> Seq<char> {
    match e {
        AgentErrorSpec::ToolNotFound(m) => m,
        AgentErrorSpec::InvalidParameters(m) => m,
        AgentErrorSpec::ExecutionError(m) => m,
        AgentErrorSpec::SerializationError(m) => m,
    }
}

impl AgentError {
    /// The message this error carries.
    pub fn message<'a>(&'a self) -> (r: &'a String)
        ensures
            r@ == error_message(self.deep_view()),
    {
        match self {
            AgentError::ToolNotFound(m) => m,
            AgentError::InvalidParameters(m) => m,
            AgentError::ExecutionError(m) => m,
            AgentError::SerializationError(m) => m,
        }
    }

    /// A structurally equal copy of the error.
    pub fn duplicate(&self) -> (r: AgentError)
        ensures
            r.deep_view() == self.deep_view(),
    {
        match self {
            AgentError::ToolNotFound(m) => AgentError::ToolNotFound(m.clone()),
            AgentError::InvalidParameters(m) => AgentError::InvalidParameters(m.clone()),
            AgentError::ExecutionError(m) => AgentError::ExecutionError(m.clone()),
            AgentError::SerializationError(m) => AgentError::SerializationError(m.clone()),
        }
    }
}

} // verus!
