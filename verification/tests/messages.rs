use glorfindel::messages::{MessageEnvelope, ToolResult};
use glorfindel::schemas::Status;

#[test]
fn tool_results_record_outcome_and_error() {
    let ok = ToolResult::success(7, "file.read", serde_json::Value::String("hi".to_string()));
    assert_eq!(ok.task_id, 7);
    assert_eq!(ok.tool_name, "file.read");
    assert_eq!(ok.status, Status::Complete);
    assert_eq!(ok.output, serde_json::Value::String("hi".to_string()));
    assert!(ok.side_effects.is_empty());
    assert_eq!(ok.error, None);

    let failed = ToolResult::failure(7, "bash.exec", "boom");
    assert_eq!(failed.status, Status::Failed);
    assert_eq!(failed.output, serde_json::Value::Null);
    assert_eq!(failed.error.as_deref(), Some("boom"));

    let denied = ToolResult::denied(8, "bash.exec", "requires BashExec");
    assert_eq!(denied.status, Status::Denied);
    assert_eq!(denied.output, serde_json::Value::Null);
    assert_eq!(denied.error.as_deref(), Some("requires BashExec"));
    assert!(denied.side_effects.is_empty());
}

#[test]
fn envelopes_carry_source_payload_and_correlation() {
    let e = MessageEnvelope::new("dm-manager", 5u32);
    assert_eq!(e.source, "dm-manager");
    assert_eq!(e.payload, 5);
    assert_eq!(e.correlation_id, None);
    assert!(e.timestamp_millis > 0);

    let r = MessageEnvelope::reply_to(e.id, "agent", "done".to_string());
    assert_eq!(r.correlation_id, Some(e.id));
    assert_eq!(r.payload, "done");
    assert_ne!(r.id, e.id);
}
