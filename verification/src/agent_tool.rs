//! A sub-agent offered to an orchestrating agent as a tool: calling it hands
//! the query to the sub-agent as a task of its own.
use vstd::prelude::*;

use crate::error::{agent_error_text, AgentError, ToolError};
use crate::messages::ToolResult;
use crate::schemas::Status;
use crate::schemas::{
    new_task_id, permission_views, ContextEntry, Permission, Priority, TaskConstraints, TaskRequest,
};
use crate::text::{owned, push_str};

verus! {

/// A sub-agent exposed as a tool, with the permissions its tasks are granted.
pub struct AgentTool {
    pub name: String,
    pub description: String,
    pub granted_permissions: Vec<Permission>,
}

fn copy_permissions(v: &Vec<Permission>) -> (r: Vec<Permission>)
    ensures
        permission_views(r@) == permission_views(v@),
{
    let mut r: Vec<Permission> = Vec::new();
    let mut i: usize = 0;
    while i < v.len()
        invariant
            i <= v@.len(),
            r@.len() == i,
            permission_views(r@) == permission_views(v@.take(i as int)),
        decreases v@.len() - i,
    {
        let p = v[i].duplicate();
        proof {
            let a = permission_views(r@.push(p));
            let b = permission_views(v@.take(i + 1));
            assert forall|k: int| 0 <= k < a.len() implies a[k] == b[k] by {
                if k < i {
                    assert(r@.push(p)[k] == r@[k]);
                    assert(permission_views(r@)[k] == r@[k]@);
                    assert(permission_views(v@.take(i as int))[k] == v@.take(i as int)[k]@);
                }
            }
            assert(a =~= b);
        }
        r.push(p);
        i += 1;
    }
    proof {
        assert(v@.take(v@.len() as int) =~= v@);
    }
    r
}

/// The channel a sub-agent's answer comes back on: `agent-tool:{name}`.
pub open spec fn agent_tool_reply_to(name: Seq<char>) -> Seq<char> {
    "agent-tool:"@ + name
}

/// The iteration budget of a sub-agent's task.
pub open spec fn sub_task_iterations() -> u32 {
    6u32
}

impl AgentTool {
    pub fn new(name: &str, description: &str, granted_permissions: Vec<Permission>) -> (r: AgentTool)
        ensures
            r.name@ == name@,
            r.description@ == description@,
            r.granted_permissions == granted_permissions,
    {
        AgentTool { name: owned(name), description: owned(description), granted_permissions }
    }

    pub fn name(&self) -> (r: &str)
        ensures
            r@ == self.name@,
    {
        self.name.as_str()
    }

    pub fn description(&self) -> (r: &str)
        ensures
            r@ == self.description@,
    {
        self.description.as_str()
    }

    /// Invoking a sub-agent needs no permission of its own: the
    /// orchestrator's permissions already gate it.
    pub fn required_permissions(&self) -> (r: Vec<Permission>)
        ensures
            r@.len() == 0,
    {
        Vec::new()
    }

    /// The task handed to the sub-agent: the `query` parameter is required
    /// (its absence is a missing-parameter error) and becomes the intent of a
    /// child of the calling task, with a fresh identifier, no context, this
    /// tool's granted permissions, six iterations, the other constraints at
    /// their defaults, and replies on `agent-tool:{name}`.
    pub fn sub_task(&self, parent_task_id: u128, query: Option<&str>) -> (r: Result<TaskRequest, ToolError>)
        ensures
            match query {
                None => r matches Err(ToolError::MissingParameter(p)) && p@ == "query"@,
                Some(q) => r matches Ok(t) && {
                    &&& t.parent_task_id == Some(parent_task_id)
                    &&& t.intent@ == q@
                    &&& t.context@.len() == 0
                    &&& permission_views(t.constraints.granted_permissions@) == permission_views(
                        self.granted_permissions@,
                    )
                    &&& t.constraints.max_iterations == Some(sub_task_iterations())
                    &&& t.constraints.timeout_secs == Some(300u64)
                    &&& t.constraints.allowed_tools@.len() == 0
                    &&& t.constraints.priority == Priority::Normal
                    &&& t.reply_to@ == agent_tool_reply_to(self.name@)
                },
            },
    {
        match query {
            None => Err(ToolError::MissingParameter(owned("query"))),
            Some(q) => {
                let defaults = TaskConstraints::default();
                let constraints = TaskConstraints {
                    granted_permissions: copy_permissions(&self.granted_permissions),
                    max_iterations: Some(6),
                    ..defaults
                };
                let mut reply_to = owned("agent-tool:");
                push_str(&mut reply_to, self.name.as_str());
                let context: Vec<ContextEntry> = Vec::new();
                Ok(
                    TaskRequest {
                        task_id: new_task_id(),
                        parent_task_id: Some(parent_task_id),
                        intent: owned(q),
                        context,
                        constraints,
                        reply_to,
                    },
                )
            },
        }
    }

    /// What the tool answers when the sub-agent fails its task: a failed
    /// result of the calling task, named after this tool, with no side
    /// effects and the sub-agent's error message.
    pub fn failed(&self, parent_task_id: u128, e: &AgentError) -> (r: ToolResult)
        ensures
            r.task_id == parent_task_id,
            r.tool_name@ == self.name@,
            r.status == Status::Failed,
            r.side_effects@.len() == 0,
            r.error matches Some(m) && m@ == agent_error_text(*e),
    {
        let m = e.message();
        ToolResult::failure(parent_task_id, self.name.as_str(), m.as_str())
    }
}

} // verus!
