//! Error taxonomy of the pipeline: each failure is terminal for the current
//! invocation and carries a message describing the operation that failed.
use vstd::prelude::*;

verus! {

/// The errors the pipeline reports; none is retried internally.
#[derive(Debug)]
pub enum AgentError {
    /// A file was missing, unreadable, or could not be written.
    FileRead(String),
    /// Tag data or a serialized suggestions artifact could not be parsed.
    MetadataParse(String),
    /// The model transport failed or answered with a non-success status.
    LlmRequest(String),
    /// The model's response body was not in the expected shape.
    LlmResponse(String),
    /// The configuration handed to the pipeline was unusable.
    Config(String),
}

impl AgentError {
    /// The message carried by the error, whichever variant it is.
    pub fn message(&self) -> (r: &String)
        ensures
            r@ == self.spec_message(),
    {
        match self {
            AgentError::FileRead(m) => m,
            AgentError::MetadataParse(m) => m,
            AgentError::LlmRequest(m) => m,
            AgentError::LlmResponse(m) => m,
            AgentError::Config(m) => m,
        }
    }

    /// The message carried by the error, as a sequence of characters.
    pub open spec fn spec_message(&self) -> Seq<char> {
        match self {
            AgentError::FileRead(m) => m@,
            AgentError::MetadataParse(m) => m@,
            AgentError::LlmRequest(m) => m@,
            AgentError::LlmResponse(m) => m@,
            AgentError::Config(m) => m@,
        }
    }
}

} // verus!
