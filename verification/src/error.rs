//! Errors of tool execution and of the transports.
use vstd::prelude::*;

use crate::text::{owned, push_str};

verus! {

/// Why a tool could not run. I/O failures carry the error's message.
#[derive(Debug, PartialEq, Eq)]
pub enum ToolError {
    MissingParameter(String),
    InvalidParameter(String),
    ExecutionFailed(String),
    PermissionDenied(String),
    Io(String),
}

/// What a tool error reads as: `missing required parameter: {p}`,
/// `invalid parameter: {p}`, `execution failed: {m}`,
/// `permission denied: requires {p}`, `io error: {m}`.
pub open spec fn tool_error_text(e: ToolError) -> Seq<char> {
    match e {
        ToolError::MissingParameter(p) => "missing required parameter: "@ + p@,
        ToolError::InvalidParameter(p) => "invalid parameter: "@ + p@,
        ToolError::ExecutionFailed(m) => "execution failed: "@ + m@,
        ToolError::PermissionDenied(p) => "permission denied: requires "@ + p@,
        ToolError::Io(m) => "io error: "@ + m@,
    }
}

impl ToolError {
    /// The error's message.
    pub fn message(&self) -> (r: String)
        ensures
            r@ == tool_error_text(*self),
    {
        let (head, body) = match self {
            ToolError::MissingParameter(p) => ("missing required parameter: ", p),
            ToolError::InvalidParameter(p) => ("invalid parameter: ", p),
            ToolError::ExecutionFailed(m) => ("execution failed: ", m),
            ToolError::PermissionDenied(p) => ("permission denied: requires ", p),
            ToolError::Io(m) => ("io error: ", m),
        };
        let mut r = owned(head);
        push_str(&mut r, body.as_str());
        r
    }
}

/// Failures of the control and data planes.
#[derive(Debug, PartialEq, Eq)]
pub enum TransportError {
    Serialization(String),
    Dds(String),
    Zmq(String),
    ChannelClosed,
    Connection(String),
    Timeout,
}

/// What a transport error reads as.
pub open spec fn transport_error_text(e: TransportError) -> Seq<char> {
    match e {
        TransportError::Serialization(m) => "serialization error: "@ + m@,
        TransportError::Dds(m) => "DDS error: "@ + m@,
        TransportError::Zmq(m) => "ZMQ error: "@ + m@,
        TransportError::ChannelClosed => "channel closed"@,
        TransportError::Connection(m) => "connection failed: "@ + m@,
        TransportError::Timeout => "timeout waiting for message"@,
    }
}

impl TransportError {
    /// The error's message.
    pub fn message(&self) -> (r: String)
        ensures
            r@ == transport_error_text(*self),
    {
        match self {
            TransportError::Serialization(m) => {
                let mut r = owned("serialization error: ");
                push_str(&mut r, m.as_str());
                r
            },
            TransportError::Dds(m) => {
                let mut r = owned("DDS error: ");
                push_str(&mut r, m.as_str());
                r
            },
            TransportError::Zmq(m) => {
                let mut r = owned("ZMQ error: ");
                push_str(&mut r, m.as_str());
                r
            },
            TransportError::ChannelClosed => owned("channel closed"),
            TransportError::Connection(m) => {
                let mut r = owned("connection failed: ");
                push_str(&mut r, m.as_str());
                r
            },
            TransportError::Timeout => owned("timeout waiting for message"),
        }
    }
}


/// Why an agent could not complete a task. HTTP failures carry the
/// client's message.
#[derive(Debug, PartialEq, Eq)]
pub enum AgentError {
    InferenceFailed(String),
    ModelNotAvailable(String),
    ToolFailed(String),
    MaxIterationsExceeded,
    Timeout,
    Transport(TransportError),
    Http(String),
}

/// What an agent error reads as.
pub open spec fn agent_error_text(e: AgentError) -> Seq<char> {
    match e {
        AgentError::InferenceFailed(m) => "inference failed: "@ + m@,
        AgentError::ModelNotAvailable(m) => "model not available: "@ + m@,
        AgentError::ToolFailed(m) => "tool execution failed: "@ + m@,
        AgentError::MaxIterationsExceeded => "max iterations exceeded"@,
        AgentError::Timeout => "task timed out"@,
        AgentError::Transport(t) => "transport error: "@ + transport_error_text(t),
        AgentError::Http(m) => "http error: "@ + m@,
    }
}

fn prefixed(prefix: &str, m: &str) -> (r: String)
    ensures
        r@ == prefix@ + m@,
{
    let mut r = owned(prefix);
    push_str(&mut r, m);
    r
}

impl AgentError {
    /// The error's message.
    pub fn message(&self) -> (r: String)
        ensures
            r@ == agent_error_text(*self),
    {
        match self {
            AgentError::InferenceFailed(m) => prefixed("inference failed: ", m.as_str()),
            AgentError::ModelNotAvailable(m) => prefixed("model not available: ", m.as_str()),
            AgentError::ToolFailed(m) => prefixed("tool execution failed: ", m.as_str()),
            AgentError::MaxIterationsExceeded => owned("max iterations exceeded"),
            AgentError::Timeout => owned("task timed out"),
            AgentError::Transport(t) => {
                let m = t.message();
                prefixed("transport error: ", m.as_str())
            },
            AgentError::Http(m) => prefixed("http error: ", m.as_str()),
        }
    }
}

} // verus!
