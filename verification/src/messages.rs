//! The messages agents and tools exchange: envelopes with routing metadata,
//! tool calls and their results, and an agent's response to a task. Free-form
//! payloads (tool parameters and outputs, task results) are JSON documents
//! that the library carries without reading.
use vstd::prelude::*;

use crate::orchestrator::now_millis;
use crate::schemas::{new_task_id, SideEffect, Status};
use crate::text::owned;

verus! {

/// A JSON document (`serde_json::Value`), carried as it is.
#[verifier::external_type_specification]
#[verifier::external_body]
pub struct ExJsonValue(serde_json::Value);

/// The JSON `null` (`serde_json::Value::Null`). Nothing is stated of the
/// value, which the library does not read.
#[verifier::external_body]
fn json_null() -> (r: serde_json::Value) {
    serde_json::Value::Null
}

// ─────────────────────────────── envelopes ─────────────────────────────────

/// A payload with routing metadata: a fresh identifier, the creation time in
/// milliseconds since the epoch, the message it answers (if any) and the
/// component that produced it.
pub struct MessageEnvelope<T> {
    pub id: u128,
    pub timestamp_millis: i64,
    pub correlation_id: Option<u128>,
    pub source: String,
    pub payload: T,
}

impl<T> MessageEnvelope<T> {
    /// A new envelope around `payload`, answering no message.
    pub fn new(source: &str, payload: T) -> (r: MessageEnvelope<T>)
        ensures
            r.correlation_id is None,
            r.source@ == source@,
            r.payload == payload,
    {
        MessageEnvelope {
            id: new_task_id(),
            timestamp_millis: now_millis(),
            correlation_id: None,
            source: owned(source),
            payload,
        }
    }

    /// A new envelope around `payload` that answers the message
    /// `original_id`.
    pub fn reply_to(original_id: u128, source: &str, payload: T) -> (r: MessageEnvelope<T>)
        ensures
            r.correlation_id == Some(original_id),
            r.source@ == source@,
            r.payload == payload,
    {
        MessageEnvelope {
            id: new_task_id(),
            timestamp_millis: now_millis(),
            correlation_id: Some(original_id),
            source: owned(source),
            payload,
        }
    }
}

// ─────────────────────────────── tool calls ────────────────────────────────

/// A request from an agent to run a tool within a task.
pub struct ToolCall {
    pub task_id: u128,
    pub agent_id: String,
    pub tool_name: String,
    pub parameters: serde_json::Value,
    /// Why the agent chose the tool (the audit trail).
    pub justification: Option<String>,
}

/// The result of running a tool.
pub struct ToolResult {
    pub task_id: u128,
    pub tool_name: String,
    pub status: Status,
    pub output: serde_json::Value,
    pub side_effects: Vec<SideEffect>,
    /// Why the tool failed or was denied.
    pub error: Option<String>,
}

impl ToolResult {
    /// A completed run with its output and no side effects.
    pub fn success(task_id: u128, tool_name: &str, output: serde_json::Value) -> (r: ToolResult)
        ensures
            r.task_id == task_id,
            r.tool_name@ == tool_name@,
            r.status == Status::Complete,
            r.output == output,
            r.side_effects@.len() == 0,
            r.error is None,
    {
        ToolResult {
            task_id,
            tool_name: owned(tool_name),
            status: Status::Complete,
            output,
            side_effects: Vec::new(),
            error: None,
        }
    }

    /// A failed run: a null output and the error.
    pub fn failure(task_id: u128, tool_name: &str, error: &str) -> (r: ToolResult)
        ensures
            r.task_id == task_id,
            r.tool_name@ == tool_name@,
            r.status == Status::Failed,
            r.side_effects@.len() == 0,
            r.error matches Some(e) && e@ == error@,
    {
        ToolResult {
            task_id,
            tool_name: owned(tool_name),
            status: Status::Failed,
            output: json_null(),
            side_effects: Vec::new(),
            error: Some(owned(error)),
        }
    }

    /// A refused run: a null output and the reason.
    pub fn denied(task_id: u128, tool_name: &str, reason: &str) -> (r: ToolResult)
        ensures
            r.task_id == task_id,
            r.tool_name@ == tool_name@,
            r.status == Status::Denied,
            r.side_effects@.len() == 0,
            r.error matches Some(e) && e@ == reason@,
    {
        ToolResult {
            task_id,
            tool_name: owned(tool_name),
            status: Status::Denied,
            output: json_null(),
            side_effects: Vec::new(),
            error: Some(owned(reason)),
        }
    }
}

// ─────────────────────────────── responses ─────────────────────────────────

/// One tool call of a task and its result.
pub struct ActionRecord {
    pub tool_call: ToolCall,
    pub tool_result: ToolResult,
}

/// An agent's answer to a task: its final status, its result, the tool calls
/// it made on the way and the tasks it delegated.
pub struct AgentResponse {
    pub task_id: u128,
    pub status: Status,
    pub result: serde_json::Value,
    pub actions_taken: Vec<ActionRecord>,
    pub delegated_to: Vec<u128>,
}

} // verus!
