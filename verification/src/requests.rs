//! The tasks the admin server hands its agents: each endpoint's request
//! with its permissions, iteration budget and reply channel, and the
//! bookkeeping of a submission.
use vstd::prelude::*;

use crate::definitions::RunningAgentInfo;
use crate::schemas::{
    new_task_id, permission_views, ContextEntry, Permission, PermissionView, Priority, TaskConstraints,
    TaskRequest,
};
use crate::text::{copy_string, owned};
use crate::tools::custom_permission;

verus! {

/// A task a client submits to a running agent.
pub struct SubmitTaskBody {
    pub agent_instance_id: u128,
    pub intent: String,
    pub permissions: Vec<Permission>,
    pub max_iterations: Option<u32>,
}

/// The identifier a submitted task was given.
pub struct SubmitTaskResponse {
    pub task_id: u128,
}

/// A campaign task run on a fresh agent made from a definition.
pub struct RunTaskBody {
    pub definition_id: u128,
    pub intent: String,
    pub permissions: Vec<Permission>,
    pub max_iterations: Option<u32>,
}

/// The task a campaign run started and the agent instance running it.
pub struct RunTaskResponse {
    pub task_id: u128,
    pub agent_instance_id: u128,
}

/// The task a graph ingestion started and the agent instance running it.
pub struct IngestResponse {
    pub task_id: u128,
    pub agent_instance_id: u128,
}

/// A request holds: a fresh top-level or child task with the given intent,
/// no context, the given permissions and iteration budget, the default
/// timeout and priority, no tool restriction, and the given reply channel.
pub open spec fn is_request(
    t: TaskRequest,
    parent: Option<u128>,
    intent: Seq<char>,
    granted: Seq<PermissionView>,
    max_iterations: Option<u32>,
    reply_to: Seq<char>,
) -> bool {
    &&& t.parent_task_id == parent
    &&& t.intent@ == intent
    &&& t.context@.len() == 0
    &&& permission_views(t.constraints.granted_permissions@) == granted
    &&& t.constraints.max_iterations == max_iterations
    &&& t.constraints.timeout_secs == Some(300u64)
    &&& t.constraints.allowed_tools@.len() == 0
    &&& t.constraints.priority == Priority::Normal
    &&& t.reply_to@ == reply_to
}

fn request(parent: Option<u128>, intent: String, granted: Vec<Permission>, max_iterations: Option<u32>, reply_to: &str) -> (t: TaskRequest)
    ensures
        is_request(t, parent, intent@, permission_views(granted@), max_iterations, reply_to@),
{
    let defaults = TaskConstraints::default();
    let context: Vec<ContextEntry> = Vec::new();
    TaskRequest {
        task_id: new_task_id(),
        parent_task_id: parent,
        intent,
        context,
        constraints: TaskConstraints { granted_permissions: granted, max_iterations, ..defaults },
        reply_to: owned(reply_to),
    }
}

/// An iteration budget, or `default` when none was asked for.
pub open spec fn budget_or(asked: Option<u32>, default: u32) -> Option<u32> {
    match asked {
        Some(n) => Some(n),
        None => Some(default),
    }
}

fn or_budget(asked: Option<u32>, default: u32) -> (r: Option<u32>)
    ensures
        r == budget_or(asked, default),
{
    match asked {
        Some(n) => Some(n),
        None => Some(default),
    }
}

/// The task of a submission to a running agent: the client's intent and
/// permissions, twenty iterations unless asked otherwise, answered on
/// `admin`.
pub fn admin_task(body: SubmitTaskBody) -> (t: TaskRequest)
    ensures
        is_request(
            t,
            None,
            body.intent@,
            permission_views(body.permissions@),
            budget_or(body.max_iterations, 20),
            "admin"@,
        ),
{
    let max = or_budget(body.max_iterations, 20);
    request(None, body.intent, body.permissions, max, "admin")
}

/// The task of a campaign run (or a session turn, whose intent the server
/// enriches first): the intent and permissions, twelve iterations unless
/// asked otherwise, answered on `campaign-ui`.
pub fn campaign_task(intent: String, permissions: Vec<Permission>, max_iterations: Option<u32>) -> (t: TaskRequest)
    ensures
        is_request(
            t,
            None,
            intent@,
            permission_views(permissions@),
            budget_or(max_iterations, 12),
            "campaign-ui"@,
        ),
{
    let max = or_budget(max_iterations, 12);
    request(None, intent, permissions, max, "campaign-ui")
}

/// The rules lawyer's task within a think pipeline: the rule query as a
/// child of the pipeline's task, with rulebook search only, four iterations,
/// answered on `think-pipeline`.
pub fn rule_query_task(parent_task_id: u128, query: &str) -> (t: TaskRequest)
    ensures
        is_request(
            t,
            Some(parent_task_id),
            query@,
            seq![PermissionView::Custom("rulebook.search"@)],
            Some(4u32),
            "think-pipeline"@,
        ),
{
    request(Some(parent_task_id), owned(query), custom_permission("rulebook.search"), Some(4), "think-pipeline")
}

/// The task of a graph ingestion: the intent, with graph writes only, twelve
/// iterations unless asked otherwise, answered on `admin`.
pub fn ingest_task(intent: &str, max_iterations: Option<u32>) -> (t: TaskRequest)
    ensures
        is_request(
            t,
            None,
            intent@,
            seq![PermissionView::Custom("graph.write"@)],
            budget_or(max_iterations, 12),
            "admin"@,
        ),
{
    let max = or_budget(max_iterations, 12);
    request(None, owned(intent), custom_permission("graph.write"), max, "admin")
}

/// A sub-task the task worker publishes for another agent: the intent as a
/// child of the worker's task, no permissions, the default budget, answered
/// on `glorfindel/tasks/response`.
pub fn dispatch_task(parent_task_id: u128, intent: &str) -> (t: TaskRequest)
    ensures
        is_request(
            t,
            Some(parent_task_id),
            intent@,
            Seq::<PermissionView>::empty(),
            Some(20u32),
            "glorfindel/tasks/response"@,
        ),
{
    let granted: Vec<Permission> = Vec::new();
    proof {
        assert(permission_views(granted@) =~= Seq::<PermissionView>::empty());
    }
    request(Some(parent_task_id), owned(intent), granted, Some(20), "glorfindel/tasks/response")
}

/// The name a submitted task is listed under: its agent's definition name,
/// or `Unknown` when the agent is not among the running ones.
pub fn agent_label(running: Option<&RunningAgentInfo>) -> (r: String)
    ensures
        r@ == match running {
            Some(info) => info.definition_name@,
            None => "Unknown"@,
        },
{
    match running {
        Some(info) => copy_string(&info.definition_name),
        None => owned("Unknown"),
    }
}

/// Counts one more task run by an agent.
pub fn count_task(info: &mut RunningAgentInfo)
    requires
        old(info).task_count < u32::MAX,
    ensures
        final(info).task_count == old(info).task_count + 1,
        *final(info) == (RunningAgentInfo { task_count: final(info).task_count, ..*old(info) }),
{
    info.task_count = info.task_count + 1;
}

} // verus!
