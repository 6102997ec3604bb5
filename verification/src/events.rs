//! The task events the admin server broadcasts, and what its campaign bus
//! publishes of them.
use vstd::prelude::*;

use crate::messages::{ActionRecord, AgentResponse};
use crate::text::str_eq;
use crate::worker::EventKind;

verus! {

/// What happened to a task.
pub enum TaskEventKind {
    Started,
    Complete { response: AgentResponse },
    Failed { message: String },
    /// One step of the think, critic, rules and DM pipeline.
    PipelineStep { step: String, body: String },
    /// An agent instance created by the pipeline.
    AgentSpawned { name: String, model: String, context: String },
    /// A tool invoked and what it returned.
    ToolCall { tool: String, input: String, output: String },
    /// A campaign file the server wrote.
    FileWrite { path: String, bytes: usize },
}

/// An event of a task.
pub struct TaskEvent {
    pub task_id: u128,
    pub kind: TaskEventKind,
}

/// The kind of an event, without its data.
pub open spec fn tag_of(k: TaskEventKind) -> EventKind {
    match k {
        TaskEventKind::Started => EventKind::Started,
        TaskEventKind::Complete { .. } => EventKind::Complete,
        TaskEventKind::Failed { .. } => EventKind::Failed,
        TaskEventKind::PipelineStep { .. } => EventKind::PipelineStep,
        TaskEventKind::AgentSpawned { .. } => EventKind::AgentSpawned,
        TaskEventKind::ToolCall { .. } => EventKind::ToolCall,
        TaskEventKind::FileWrite { .. } => EventKind::FileWrite,
    }
}

impl TaskEventKind {
    pub fn tag(&self) -> (r: EventKind)
        ensures
            r == tag_of(*self),
    {
        match self {
            TaskEventKind::Started => EventKind::Started,
            TaskEventKind::Complete { .. } => EventKind::Complete,
            TaskEventKind::Failed { .. } => EventKind::Failed,
            TaskEventKind::PipelineStep { .. } => EventKind::PipelineStep,
            TaskEventKind::AgentSpawned { .. } => EventKind::AgentSpawned,
            TaskEventKind::ToolCall { .. } => EventKind::ToolCall,
            TaskEventKind::FileWrite { .. } => EventKind::FileWrite,
        }
    }
}

/// The positions, among the first `n` actions, of the `campaign.write`
/// calls.
pub open spec fn campaign_write_indices(actions: Seq<ActionRecord>, n: int) -> Seq<int>
    decreases n,
{
    if n <= 0 {
        Seq::empty()
    } else {
        let p = campaign_write_indices(actions, n - 1);
        if actions[n - 1].tool_call.tool_name@ == "campaign.write"@ {
            p.push(n - 1)
        } else {
            p
        }
    }
}

/// The actions of a completed task that the campaign bus publishes: its
/// `campaign.write` calls, in the order they were made.
pub fn campaign_write_actions(response: &AgentResponse) -> (r: Vec<usize>)
    ensures
        r@.len() == campaign_write_indices(response.actions_taken@, response.actions_taken@.len() as int).len(),
        forall|j: int|
            0 <= j < r@.len() ==> #[trigger] r@[j] as int == campaign_write_indices(
                response.actions_taken@,
                response.actions_taken@.len() as int,
            )[j],
{
    let actions = &response.actions_taken;
    let mut r: Vec<usize> = Vec::new();
    let mut i: usize = 0;
    while i < actions.len()
        invariant
            i <= actions@.len(),
            actions == &response.actions_taken,
            r@.len() == campaign_write_indices(actions@, i as int).len(),
            forall|j: int|
                0 <= j < r@.len() ==> #[trigger] r@[j] as int == campaign_write_indices(actions@, i as int)[j],
        decreases actions@.len() - i,
    {
        if str_eq(actions[i].tool_call.tool_name.as_str(), "campaign.write") {
            r.push(i);
        }
        i += 1;
    }
    r
}

} // verus!
