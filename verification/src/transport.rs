//! Configuration of the control plane (DDS topics on a domain) and of the
//! data plane (ZeroMQ endpoints for tool calls and results).
use vstd::prelude::*;

use crate::text::owned;

verus! {

/// Topic of task requests.
pub fn topic_tasks_request() -> (r: &'static str)
    ensures
        r@ == "glorfindel/tasks/request"@,
{
    "glorfindel/tasks/request"
}

/// Topic of agent responses.
pub fn topic_tasks_response() -> (r: &'static str)
    ensures
        r@ == "glorfindel/tasks/response"@,
{
    "glorfindel/tasks/response"
}

/// Topic of capability announcements.
pub fn topic_agents_capability() -> (r: &'static str)
    ensures
        r@ == "glorfindel/agents/capability"@,
{
    "glorfindel/agents/capability"
}

/// The control plane: reliable topics on one DDS domain.
pub struct DdsControlPlane {
    pub domain_id: i32,
}

impl DdsControlPlane {
    pub fn new(domain_id: i32) -> (r: DdsControlPlane)
        ensures
            r.domain_id == domain_id,
    {
        DdsControlPlane { domain_id }
    }
}

/// The data plane: tool calls pushed to one endpoint, results published on another.
pub struct ZmqDataPlane {
    /// Endpoint for tool calls (PUSH/PULL).
    pub tool_call_endpoint: String,
    /// Endpoint for tool results (PUB/SUB).
    pub tool_result_endpoint: String,
}

impl ZmqDataPlane {
    pub fn new(tool_call_endpoint: &str, tool_result_endpoint: &str) -> (r: ZmqDataPlane)
        ensures
            r.tool_call_endpoint@ == tool_call_endpoint@,
            r.tool_result_endpoint@ == tool_result_endpoint@,
    {
        ZmqDataPlane { tool_call_endpoint: owned(tool_call_endpoint), tool_result_endpoint: owned(tool_result_endpoint) }
    }
}

} // verus!
