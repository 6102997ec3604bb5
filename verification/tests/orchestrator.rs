use glorfindel::orchestrator::{AgentRegistry, Router, TaskManager};
use glorfindel::schemas::{
    AgentType, CapabilityManifest, ModelBackend, Priority, ResourceRequirements, Status, TaskConstraints, TaskRequest,
};

fn task(id: u128, parent: Option<u128>) -> TaskRequest {
    let mut t = TaskRequest::new("do it");
    t.task_id = id;
    t.parent_task_id = parent;
    t
}

#[test]
fn new_tasks_have_defaults() {
    let a = TaskRequest::new("x");
    let b = TaskRequest::new("x");
    assert_ne!(a.task_id, b.task_id);
    assert_eq!(a.constraints.timeout_secs, Some(300));
    assert_eq!(a.constraints.max_iterations, Some(20));
    assert_eq!(a.constraints.priority, Priority::Normal);
    assert_eq!(a.reply_to, "glorfindel/tasks/response");
    let c = TaskConstraints::default();
    assert!(c.allowed_tools.is_empty() && c.granted_permissions.is_empty());
    assert_eq!(Priority::default(), Priority::Normal);
}

#[test]
fn task_lifecycle() {
    let mut m: TaskManager<&str> = TaskManager::new();
    m.register_task(&task(1, None));
    let t = m.get_task(1).unwrap();
    assert_eq!(t.status, Status::Pending);
    assert!(t.created_at > 1_600_000_000_000);
    m.assign_task(1, "agent-a");
    assert_eq!(m.get_task(1).unwrap().status, Status::InProgress);
    assert_eq!(m.get_task(1).unwrap().assigned_agent.as_deref(), Some("agent-a"));
    assert_eq!(m.active_tasks().len(), 1);
    m.complete_task(1, Status::Complete, "done");
    let t = m.get_task(1).unwrap();
    assert_eq!(t.status, Status::Complete);
    assert_eq!(t.response, Some("done"));
    assert!(t.completed_at.is_some());
    assert!(m.active_tasks().is_empty());
    m.assign_task(99, "nobody");
    assert!(m.get_task(99).is_none());
}

#[test]
fn children_block_parent_until_finished() {
    let mut m: TaskManager<u8> = TaskManager::new();
    m.register_task_at(&task(10, None), 5);
    assert!(m.all_children_complete(10));
    m.register_task_at(&task(11, Some(10)), 6);
    m.register_task_at(&task(12, Some(10)), 7);
    assert_eq!(m.get_task(10).unwrap().child_tasks, vec![11, 12]);
    assert!(!m.all_children_complete(10));
    m.complete_task_at(11, Status::Complete, 0, 8);
    assert!(!m.all_children_complete(10));
    m.complete_task_at(12, Status::Failed, 0, 9);
    assert!(m.all_children_complete(10));
    assert!(m.all_children_complete(404));
}

fn manifest(id: &str, tools: &[&str], domains: &[&str]) -> CapabilityManifest {
    CapabilityManifest {
        agent_id: id.to_string(),
        name: format!("agent {id}"),
        agent_type: AgentType::Executor,
        tools_available: tools.iter().map(|s| s.to_string()).collect(),
        model_backend: ModelBackend::Ollama { model: "m".to_string(), host: "h".to_string() },
        domains: domains.iter().map(|s| s.to_string()).collect(),
        resource_requirements: ResourceRequirements::default(),
    }
}

#[test]
fn registry_register_and_deregister() {
    let mut r = AgentRegistry::new();
    r.register(manifest("a", &["file.read"], &["files"]));
    r.register(manifest("b", &["dice.roll"], &[]));
    r.register(manifest("a", &["file.read", "file.write"], &["files"]));
    assert_eq!(r.list_agents().len(), 2);
    assert_eq!(r.get_agent("a").unwrap().tools_available.len(), 2);
    r.deregister("a");
    assert!(r.get_agent("a").is_none());
    assert!(r.get_agent("b").is_some());
    r.deregister("zzz");
    assert_eq!(r.list_agents().len(), 1);
}

#[test]
fn capable_agents_filter() {
    let mut r = AgentRegistry::new();
    r.register(manifest("a", &["file.read", "file.write"], &["files", "code"]));
    r.register(manifest("b", &["file.read"], &["dice"]));
    let want = |v: &[&str]| v.iter().map(|s| s.to_string()).collect::<Vec<String>>();
    let ids = |v: Vec<CapabilityManifest>| v.into_iter().map(|m| m.agent_id).collect::<Vec<String>>();
    assert_eq!(ids(r.find_capable_agents(&want(&[]), &want(&["file.read"]))), want(&["a", "b"]));
    assert_eq!(ids(r.find_capable_agents(&want(&[]), &want(&["file.read", "file.write"]))), want(&["a"]));
    assert_eq!(ids(r.find_capable_agents(&want(&["dice", "zzz"]), &want(&[]))), want(&["b"]));
    assert!(r.find_capable_agents(&want(&["zzz"]), &want(&[])).is_empty());
}

#[test]
fn router_prefers_specialists() {
    let mut r = AgentRegistry::new();
    r.register(manifest("general", &["file.read"], &["a", "b", "c"]));
    r.register(manifest("special", &["file.read"], &["a"]));
    r.register(manifest("also-special", &["file.read"], &["b"]));
    r.register(manifest("no-tools", &[], &[]));
    let router = Router::new(r);
    let mut t = TaskRequest::new("read");
    t.constraints.allowed_tools = vec!["file.read".to_string()];
    assert_eq!(router.route(&t).unwrap().agent_id, "special");
    t.constraints.allowed_tools = vec!["bash.exec".to_string()];
    assert!(router.route(&t).is_none());
    t.constraints.allowed_tools = vec![];
    assert_eq!(router.route(&t).unwrap().agent_id, "no-tools");
    assert_eq!(router.registry().list_agents().len(), 4);
}
