use glorfindel::agent::ollama_capability;
use glorfindel::definitions::{order_by_time, running_info, running_order, AgentDefinition, ApiError, DefinitionBody, DefinitionStore};
use glorfindel::dto::Deployment;
use glorfindel::schemas::{AgentType, Permission};

fn body(name: &str, model: &str) -> DefinitionBody {
    DefinitionBody {
        name: name.to_string(),
        description: "d".to_string(),
        agent_type: AgentType::Specialist,
        model: model.to_string(),
        ollama_host: "http://localhost:11434".to_string(),
        tools: vec!["dice.roll".to_string()],
        domains: vec!["rules".to_string()],
        system_prompt: None,
        default_permissions: vec![Permission::FileRead],
        campaign_dir: Some("campaigns/shire".to_string()),
        deployed_context: None,
    }
}

#[test]
fn created_definitions_are_read_back() {
    let mut store = DefinitionStore::new();
    let id = store.create(body("Rule Consultant", "mistral")).unwrap();
    let d = store.get(id).unwrap();
    assert_eq!(d.id, id);
    assert_eq!(d.name, "Rule Consultant");
    assert_eq!(d.model, "mistral");
    assert_eq!(d.campaign_dir.as_deref(), Some("campaigns/shire"));
    assert_eq!(d.created_at_millis, d.updated_at_millis);
    assert!(store.get(id.wrapping_add(1)).is_none());
    assert_eq!(store.len(), 1);
}

#[test]
fn blank_names_are_refused() {
    let mut store = DefinitionStore::new();
    assert_eq!(store.create(body("   ", "m")), Err(ApiError::BadRequest("name is required".to_string())));
    assert_eq!(store.len(), 0);
    assert!(store.list().is_empty());
}

#[test]
fn update_keeps_identity_and_creation_time() {
    let mut store = DefinitionStore::new();
    let id = store.create(body("DM", "mistral")).unwrap();
    let created = store.get(id).unwrap().created_at_millis;
    assert!(store.update(id, body("DM Writer", "llama3")));
    let d = store.get(id).unwrap();
    assert_eq!(d.name, "DM Writer");
    assert_eq!(d.model, "llama3");
    assert_eq!(d.created_at_millis, created);
    assert!(d.updated_at_millis >= created);
    assert!(!store.update(id.wrapping_add(1), body("x", "y")));
    assert_eq!(store.len(), 1);
}

#[test]
fn deleted_definitions_are_gone() {
    let mut store = DefinitionStore::new();
    let a = store.create(body("A", "m")).unwrap();
    let b = store.create(body("B", "m")).unwrap();
    assert!(store.delete(a));
    assert!(store.get(a).is_none());
    assert_eq!(store.get(b).unwrap().name, "B");
    assert!(!store.delete(a));
    assert_eq!(store.len(), 1);
}

#[test]
fn listing_holds_each_definition_once_earliest_first() {
    assert_eq!(order_by_time(&vec![30, 10, 20, 10]), vec![1, 3, 2, 0]);
    let mut store = DefinitionStore::new();
    let a = store.create(body("A", "m")).unwrap();
    let b = store.create(body("B", "m")).unwrap();
    let listed = store.list();
    assert_eq!(listed.len(), 2);
    assert!(listed[0].created_at_millis <= listed[1].created_at_millis);
    let mut ids: Vec<u128> = listed.iter().map(|d| d.id).collect();
    ids.sort();
    let mut want = vec![a, b];
    want.sort();
    assert_eq!(ids, want);
}

#[test]
fn spawned_agents_are_recorded_and_listed_by_start() {
    let mut store = DefinitionStore::new();
    let id = store.create(body("DM", "mistral")).unwrap();
    let def = store.get(id).unwrap();
    let cap = ollama_capability("inst-1", "DM", AgentType::Specialist, &vec![], "mistral", "http://h", &vec![]);
    let info = running_info(77, def, Deployment::Test, cap);
    assert_eq!(info.instance_id, 77);
    assert_eq!(info.definition_id, id);
    assert_eq!(info.definition_name, "DM");
    assert_eq!(info.deployment, Deployment::Test);
    assert_eq!(info.capability.agent_id, "inst-1");
    assert_eq!(info.task_count, 0);
    let cap2 = ollama_capability("inst-2", "DM", AgentType::Specialist, &vec![], "mistral", "http://h", &vec![]);
    let mut later = running_info(78, def, Deployment::Prod, cap2);
    later.started_at_millis = info.started_at_millis - 5;
    assert_eq!(running_order(&vec![info, later]), vec![1, 0]);
}

#[test]
fn restored_definitions_keep_their_ids_and_times() {
    let stored = |id: u128, name: &str| AgentDefinition {
        id,
        name: name.to_string(),
        description: "d".to_string(),
        agent_type: AgentType::Executor,
        model: "mistral".to_string(),
        ollama_host: "http://localhost:11434".to_string(),
        tools: vec![],
        domains: vec![],
        system_prompt: None,
        default_permissions: vec![],
        campaign_dir: None,
        deployed_context: None,
        created_at_millis: 10,
        updated_at_millis: 20,
    };
    let mut store = DefinitionStore::new();
    store.restore(stored(7, "DM"));
    store.restore(stored(9, "Rule Consultant"));
    store.restore(stored(7, "Narrator"));
    assert_eq!(store.len(), 2);
    let d = store.get(7).unwrap();
    assert_eq!((d.name.as_str(), d.created_at_millis, d.updated_at_millis), ("Narrator", 10, 20));
    assert_eq!(store.get(9).unwrap().name, "Rule Consultant");
}
