//! The message types shared by agents, the orchestrator and the tools:
//! task requests and their constraints, capability manifests, statuses,
//! priorities and permissions.
use vstd::prelude::*;

use crate::text::{copy_string, owned, push_str, views};

verus! {

/// Execution status for tasks and tool calls.
#[derive(Debug, Clone, Copy, PartialEq, Eq, Structural)]
pub enum Status {
    Pending,
    InProgress,
    Complete,
    Failed,
    Delegated,
    Blocked,
    Denied,
}

/// Priority level for task scheduling.
#[derive(Debug, Clone, Copy, PartialEq, Eq, Structural)]
pub enum Priority {
    Low,
    Normal,
    High,
    Critical,
}

impl Default for Priority {
    /// Tasks are scheduled at normal priority unless they say otherwise.
    fn default() -> (r: Self)
        ensures
            r == Priority::Normal,
    {
        Priority::Normal
    }
}

/// Classification of agent types.
#[derive(Debug, Clone, Copy, PartialEq, Eq, Structural)]
pub enum AgentType {
    /// Plans and decomposes tasks into sub-tasks.
    Planner,
    /// Executes tasks directly using tools.
    Executor,
    /// Specializes in a specific domain.
    Specialist,
}

/// What model backend powers an agent.
pub enum ModelBackend {
    Ollama { model: String, host: String },
    Custom { name: String, endpoint: String },
}

pub enum ModelBackendView {
    Ollama { model: Seq<char>, host: Seq<char> },
    Custom { name: Seq<char>, endpoint: Seq<char> },
}

impl View for ModelBackend {
    type V = ModelBackendView;

    open spec fn view(&self) -> ModelBackendView {
        match self {
            ModelBackend::Ollama { model, host } => ModelBackendView::Ollama { model: model@, host: host@ },
            ModelBackend::Custom { name, endpoint } => ModelBackendView::Custom { name: name@, endpoint: endpoint@ },
        }
    }
}

impl ModelBackend {
    pub fn duplicate(&self) -> (r: ModelBackend)
        ensures
            r@ == self@,
    {
        match self {
            ModelBackend::Ollama { model, host } => ModelBackend::Ollama { model: copy_string(model), host: copy_string(host) },
            ModelBackend::Custom { name, endpoint } => ModelBackend::Custom { name: copy_string(name), endpoint: copy_string(endpoint) },
        }
    }
}

/// Permission required to execute a tool.
pub enum Permission {
    FileRead,
    FileWrite,
    BashExec,
    NetworkAccess,
    Custom(String),
}

pub enum PermissionView {
    FileRead,
    FileWrite,
    BashExec,
    NetworkAccess,
    Custom(Seq<char>),
}

impl View for Permission {
    type V = PermissionView;

    open spec fn view(&self) -> PermissionView {
        match self {
            Permission::FileRead => PermissionView::FileRead,
            Permission::FileWrite => PermissionView::FileWrite,
            Permission::BashExec => PermissionView::BashExec,
            Permission::NetworkAccess => PermissionView::NetworkAccess,
            Permission::Custom(s) => PermissionView::Custom(s@),
        }
    }
}

pub open spec fn permission_views(v: Seq<Permission>) -> Seq<PermissionView> {
    v.map_values(|p: Permission| p@)
}

impl Permission {
    /// Whether two permissions are the same.
    pub fn same_as(&self, other: &Permission) -> (r: bool)
        ensures
            r == (self@ == other@),
    {
        match (self, other) {
            (Permission::FileRead, Permission::FileRead) => true,
            (Permission::FileWrite, Permission::FileWrite) => true,
            (Permission::BashExec, Permission::BashExec) => true,
            (Permission::NetworkAccess, Permission::NetworkAccess) => true,
            (Permission::Custom(a), Permission::Custom(b)) => crate::text::str_eq(a.as_str(), b.as_str()),
            _ => false,
        }
    }

    pub fn duplicate(&self) -> (r: Permission)
        ensures
            r@ == self@,
    {
        match self {
            Permission::FileRead => Permission::FileRead,
            Permission::FileWrite => Permission::FileWrite,
            Permission::BashExec => Permission::BashExec,
            Permission::NetworkAccess => Permission::NetworkAccess,
            Permission::Custom(s) => Permission::Custom(copy_string(s)),
        }
    }
}

/// `{s:?}`: a string as `Debug` writes it, quoted and escaped.
pub uninterp spec fn str_debug(s: Seq<char>) -> Seq<char>;

/// A string as `Debug` writes it (`format!("{s:?}")`).
///
/// The result is named, not spelled out: it is the quoted, escaped form that
/// std's `Debug` for `str` produces, a function of the string alone.
#[verifier::external_body]
fn debug_str(s: &str) -> (r: String)
    ensures
        r@ == str_debug(s@),
{
    format!("{s:?}")
}

/// How `Debug` writes a permission: the variant's name, and for a custom
/// permission its name in `Debug` form within parentheses.
pub open spec fn permission_debug(p: PermissionView) -> Seq<char> {
    match p {
        PermissionView::FileRead => "FileRead"@,
        PermissionView::FileWrite => "FileWrite"@,
        PermissionView::BashExec => "BashExec"@,
        PermissionView::NetworkAccess => "NetworkAccess"@,
        PermissionView::Custom(s) => "Custom("@ + str_debug(s) + ")"@,
    }
}

pub fn permission_debug_text(p: &Permission) -> (r: String)
    ensures
        r@ == permission_debug(p@),
{
    match p {
        Permission::FileRead => owned("FileRead"),
        Permission::FileWrite => owned("FileWrite"),
        Permission::BashExec => owned("BashExec"),
        Permission::NetworkAccess => owned("NetworkAccess"),
        Permission::Custom(s) => {
            let mut r = owned("Custom(");
            let d = debug_str(s.as_str());
            push_str(&mut r, d.as_str());
            push_str(&mut r, ")");
            r
        },
    }
}

/// A side effect produced by tool execution.
pub struct SideEffect {
    pub kind: String,
    pub description: String,
    pub path: Option<String>,
}

#[derive(Debug, Clone, Copy, PartialEq, Eq, Structural)]
pub enum ContextRole {
    System,
    User,
    Assistant,
    ToolOutput,
}

/// A piece of context provided with a task.
pub struct ContextEntry {
    /// What kind of context this is.
    pub role: ContextRole,
    /// The content of this context entry.
    pub content: String,
}

/// Constraints governing task execution.
pub struct TaskConstraints {
    /// Maximum time (in seconds) the agent may spend on the task.
    pub timeout_secs: Option<u64>,
    /// Tools the agent is permitted to use. Empty means all registered tools.
    pub allowed_tools: Vec<String>,
    /// Permissions granted for the task's tool calls.
    pub granted_permissions: Vec<Permission>,
    /// Priority for scheduling.
    pub priority: Priority,
    /// Maximum number of agentic loop iterations.
    pub max_iterations: Option<u32>,
}

impl Default for TaskConstraints {
    /// Five minutes, twenty iterations, normal priority, no tools named and
    /// no permissions granted.
    fn default() -> (r: Self)
        ensures
            r.timeout_secs == Some(300u64),
            r.allowed_tools@.len() == 0,
            r.granted_permissions@.len() == 0,
            r.priority == Priority::Normal,
            r.max_iterations == Some(20u32),
    {
        TaskConstraints {
            timeout_secs: Some(300),
            allowed_tools: Vec::new(),
            granted_permissions: Vec::new(),
            priority: Priority::Normal,
            max_iterations: Some(20),
        }
    }
}

/// A new task identifier (`Uuid::new_v4`, as its 128-bit value).
///
/// The identifier is random: nothing is stated of it.
#[verifier::external_body]
pub(crate) fn new_task_id() -> (r: u128) {
    uuid::Uuid::new_v4().as_u128()
}

/// A request to perform a task; identifiers are the 128-bit values of UUIDs.
pub struct TaskRequest {
    /// Unique identifier of the task.
    pub task_id: u128,
    /// If this is a sub-task, the parent task that spawned it.
    pub parent_task_id: Option<u128>,
    /// Natural language description of what needs to be done.
    pub intent: String,
    /// Contextual information the agent may need.
    pub context: Vec<ContextEntry>,
    /// Constraints on how the task may be executed.
    pub constraints: TaskConstraints,
    /// Where results should be sent.
    pub reply_to: String,
}

impl TaskRequest {
    /// A top-level task with a fresh identifier, no context, the default
    /// constraints and replies on `glorfindel/tasks/response`.
    pub fn new(intent: &str) -> (r: TaskRequest)
        ensures
            r.parent_task_id is None,
            r.intent@ == intent@,
            r.context@.len() == 0,
            r.constraints.timeout_secs == Some(300u64),
            r.constraints.allowed_tools@.len() == 0,
            r.constraints.granted_permissions@.len() == 0,
            r.constraints.priority == Priority::Normal,
            r.constraints.max_iterations == Some(20u32),
            r.reply_to@ == "glorfindel/tasks/response"@,
    {
        TaskRequest {
            task_id: new_task_id(),
            parent_task_id: None,
            intent: owned(intent),
            context: Vec::new(),
            constraints: TaskConstraints::default(),
            reply_to: owned("glorfindel/tasks/response"),
        }
    }
}

/// Hardware/resource requirements for running an agent.
#[derive(Debug, Clone, Copy, PartialEq, Eq, Structural)]
pub struct ResourceRequirements {
    /// Whether a GPU is required.
    pub gpu_required: bool,
    /// Minimum memory in MB.
    pub min_memory_mb: Option<u64>,
    /// Minimum VRAM in MB.
    pub min_vram_mb: Option<u64>,
}

impl Default for ResourceRequirements {
    /// No GPU and no memory minimums.
    fn default() -> (r: Self)
        ensures
            r == (ResourceRequirements { gpu_required: false, min_memory_mb: None, min_vram_mb: None }),
    {
        ResourceRequirements { gpu_required: false, min_memory_mb: None, min_vram_mb: None }
    }
}

/// Declares an agent's identity and capabilities, published for discovery.
pub struct CapabilityManifest {
    /// Unique identifier for this agent instance.
    pub agent_id: String,
    /// Human-readable name.
    pub name: String,
    /// What role this agent plays.
    pub agent_type: AgentType,
    /// Tools this agent knows how to use.
    pub tools_available: Vec<String>,
    /// What model backs this agent's inference.
    pub model_backend: ModelBackend,
    /// Domains this agent specializes in.
    pub domains: Vec<String>,
    /// Resource requirements for scheduling.
    pub resource_requirements: ResourceRequirements,
}

pub struct ManifestView {
    pub agent_id: Seq<char>,
    pub name: Seq<char>,
    pub agent_type: AgentType,
    pub tools_available: Seq<Seq<char>>,
    pub model_backend: ModelBackendView,
    pub domains: Seq<Seq<char>>,
    pub resource_requirements: ResourceRequirements,
}

impl View for CapabilityManifest {
    type V = ManifestView;

    open spec fn view(&self) -> ManifestView {
        ManifestView {
            agent_id: self.agent_id@,
            name: self.name@,
            agent_type: self.agent_type,
            tools_available: views(self.tools_available@),
            model_backend: self.model_backend@,
            domains: views(self.domains@),
            resource_requirements: self.resource_requirements,
        }
    }
}

pub fn copy_strings(v: &Vec<String>) -> (r: Vec<String>)
    ensures
        views(r@) == views(v@),
{
    let mut r: Vec<String> = Vec::new();
    let mut i: usize = 0;
    while i < v.len()
        invariant
            i <= v.len(),
            views(r@) == views(v@).take(i as int),
        decreases v.len() - i,
    {
        let s = copy_string(&v[i]);
        proof { crate::text::lemma_views_push(r@, s); }
        r.push(s);
        assert(views(v@).take(i + 1) =~= views(v@).take(i as int).push(v@[i as int]@));
        i += 1;
    }
    assert(views(v@).take(v.len() as int) =~= views(v@));
    r
}

impl CapabilityManifest {
    pub fn duplicate(&self) -> (r: CapabilityManifest)
        ensures
            r@ == self@,
    {
        CapabilityManifest {
            agent_id: copy_string(&self.agent_id),
            name: copy_string(&self.name),
            agent_type: self.agent_type,
            tools_available: copy_strings(&self.tools_available),
            model_backend: self.model_backend.duplicate(),
            domains: copy_strings(&self.domains),
            resource_requirements: self.resource_requirements,
        }
    }
}

} // verus!
