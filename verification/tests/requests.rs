use glorfindel::agent::ollama_capability;
use glorfindel::definitions::RunningAgentInfo;
use glorfindel::dto::Deployment;
use glorfindel::requests::{
    admin_task, agent_label, campaign_task, count_task, dispatch_task, ingest_task, rule_query_task, SubmitTaskBody,
};
use glorfindel::schemas::{AgentType, Permission};

fn custom(p: &[Permission]) -> Vec<String> {
    p.iter()
        .map(|x| match x {
            Permission::Custom(s) => s.clone(),
            _ => "other".to_string(),
        })
        .collect()
}

#[test]
fn admin_submissions_default_to_twenty_iterations() {
    let t = admin_task(SubmitTaskBody {
        agent_instance_id: 3,
        intent: "roll for initiative".to_string(),
        permissions: vec![Permission::FileRead],
        max_iterations: None,
    });
    assert_eq!(t.intent, "roll for initiative");
    assert_eq!(t.parent_task_id, None);
    assert_eq!(t.constraints.max_iterations, Some(20));
    assert_eq!(t.constraints.timeout_secs, Some(300));
    assert!(matches!(t.constraints.granted_permissions[..], [Permission::FileRead]));
    assert_eq!(t.reply_to, "admin");
    let t = admin_task(SubmitTaskBody { agent_instance_id: 3, intent: "x".into(), permissions: vec![], max_iterations: Some(5) });
    assert_eq!(t.constraints.max_iterations, Some(5));
}

#[test]
fn campaign_rule_ingest_and_dispatch_tasks() {
    let c = campaign_task("write the scene".into(), vec![Permission::FileWrite], None);
    assert_eq!(c.constraints.max_iterations, Some(12));
    assert_eq!(c.reply_to, "campaign-ui");

    let r = rule_query_task(9, "grapple rules");
    assert_eq!(r.parent_task_id, Some(9));
    assert_eq!(r.intent, "grapple rules");
    assert_eq!(custom(&r.constraints.granted_permissions), vec!["rulebook.search"]);
    assert_eq!(r.constraints.max_iterations, Some(4));
    assert_eq!(r.reply_to, "think-pipeline");

    let g = ingest_task("File: a.md", Some(3));
    assert_eq!(custom(&g.constraints.granted_permissions), vec!["graph.write"]);
    assert_eq!(g.constraints.max_iterations, Some(3));
    assert_eq!(ingest_task("x", None).constraints.max_iterations, Some(12));
    assert_eq!(g.reply_to, "admin");

    let d = dispatch_task(4, "{\"task_type\":\"scene_summary\"}");
    assert_eq!(d.parent_task_id, Some(4));
    assert!(d.constraints.granted_permissions.is_empty());
    assert_eq!(d.constraints.max_iterations, Some(20));
    assert_eq!(d.reply_to, "glorfindel/tasks/response");
}

#[test]
fn submissions_name_and_count_their_agent() {
    let mut info = RunningAgentInfo {
        instance_id: 1,
        definition_id: 2,
        definition_name: "DM".to_string(),
        deployment: Deployment::Prod,
        capability: ollama_capability("1", "DM", AgentType::Executor, &vec![], "m", "h", &vec![]),
        started_at_millis: 0,
        task_count: 4,
    };
    assert_eq!(agent_label(Some(&info)), "DM");
    assert_eq!(agent_label(None), "Unknown");
    count_task(&mut info);
    assert_eq!(info.task_count, 5);
    assert_eq!(info.definition_name, "DM");
}
