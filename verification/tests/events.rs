use glorfindel::events::{campaign_write_actions, TaskEvent, TaskEventKind};
use glorfindel::messages::{ActionRecord, AgentResponse, ToolCall, ToolResult};
use glorfindel::schemas::Status;
use glorfindel::worker::{event_topic, EventKind};

fn action(tool: &str) -> ActionRecord {
    ActionRecord {
        tool_call: ToolCall {
            task_id: 1,
            agent_id: "a".to_string(),
            tool_name: tool.to_string(),
            parameters: serde_json::Value::Null,
            justification: None,
        },
        tool_result: ToolResult::success(1, tool, serde_json::Value::Null),
    }
}

#[test]
fn campaign_bus_publishes_only_campaign_writes() {
    let response = AgentResponse {
        task_id: 1,
        status: Status::Complete,
        result: serde_json::Value::Null,
        actions_taken: vec![action("campaign.write"), action("campaign.read"), action("campaign.write")],
        delegated_to: vec![],
    };
    assert_eq!(campaign_write_actions(&response), vec![0, 2]);
    let event = TaskEvent { task_id: 1, kind: TaskEventKind::Complete { response } };
    assert_eq!(event.kind.tag(), EventKind::Complete);
    assert_eq!(event_topic(event.kind.tag()), Some("campaign"));
}

#[test]
fn event_tags_and_topics() {
    assert_eq!(TaskEventKind::Started.tag(), EventKind::Started);
    assert_eq!(TaskEventKind::Failed { message: "x".into() }.tag(), EventKind::Failed);
    assert_eq!(event_topic(EventKind::Failed), None);
    let k = TaskEventKind::FileWrite { path: "npcs.md".into(), bytes: 12 };
    assert_eq!(event_topic(k.tag()), Some("file"));
    let t = TaskEventKind::ToolCall { tool: "dice.roll".into(), input: "{}".into(), output: "{}".into() };
    assert_eq!(event_topic(t.tag()), Some("tool"));
}
