use glorfindel::board::TaskBoard;
use glorfindel::schemas::Status;

#[test]
fn answers_are_recorded() {
    let mut b: TaskBoard<String> = TaskBoard::new();
    b.submit(1, 10, "DM", "run a turn", 100);
    b.submit(2, 11, "Scribe", "take notes", 101);
    assert_eq!(b.get(1).unwrap().status, Status::InProgress);
    assert!(b.finish(1, Ok("done".to_string()), 200));
    assert!(b.finish(2, Err("model offline".to_string()), 201));
    assert!(!b.finish(3, Ok("x".to_string()), 202));
    let r1 = b.get(1).unwrap();
    assert_eq!(r1.status, Status::Complete);
    assert_eq!(r1.completed_at, Some(200));
    assert_eq!(r1.response.as_deref(), Some("done"));
    assert_eq!(r1.agent_name, "DM");
    let r2 = b.get(2).unwrap();
    assert_eq!(r2.status, Status::Failed);
    assert_eq!(r2.error.as_deref(), Some("model offline"));
    assert_eq!(r2.submitted_at, 101);
    assert!(b.get(3).is_none());
    // Submitting a task again starts its record over.
    b.submit(1, 12, "DM2", "again", 300);
    let r1 = b.get(1).unwrap();
    assert_eq!(r1.status, Status::InProgress);
    assert_eq!(r1.response, None);
    assert_eq!(r1.agent_instance_id, 12);
}

#[test]
fn tasks_are_listed_newest_first() {
    let mut board: TaskBoard<u32> = TaskBoard::new();
    board.submit(1, 9, "DM", "a", 100);
    board.submit(2, 9, "DM", "b", 300);
    board.submit(3, 9, "DM", "c", 200);
    board.submit(4, 9, "DM", "d", 300);
    let order = board.newest_first();
    assert_eq!(order, vec![1, 3, 2, 0]);
    let ids: Vec<u128> = order.iter().map(|&i| board.records()[i].task_id).collect();
    assert_eq!(ids, vec![2, 4, 3, 1]);
}
