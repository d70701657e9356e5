use via::usage::{
    emit_cloud_usage_events, from_env, post_usage_batch, run_usage_reporter, ReporterAction,
    ReporterEvent, UsageEvent, UsageQueue,
};

fn event(event_type: &str) -> UsageEvent {
    UsageEvent {
        account_id: "acct_123".to_string(),
        mesh_id: "mesh".to_string(),
        node_id: "node".to_string(),
        event_type: event_type.to_string(),
        timestamp: 1,
    }
}

fn types(events: &Vec<UsageEvent>) -> Vec<String> {
    events.iter().map(|e| e.event_type.clone()).collect()
}

#[test]
fn usage_events_batch_to_cloud_ingest() {
    let mut queue = UsageQueue::new(2, 8);
    let mut batches: Vec<Vec<UsageEvent>> = vec![];
    let first = run_usage_reporter(&mut queue, ReporterEvent::Received(event("connected")));
    assert_eq!(first, (ReporterAction::Drain, false));
    let second =
        run_usage_reporter(&mut queue, ReporterEvent::Drained(Some(event("session_started"))));
    assert_eq!(second, (ReporterAction::Post, false));
    batches.push(queue.batch());
    run_usage_reporter(&mut queue, ReporterEvent::Posted(true));
    let third = run_usage_reporter(&mut queue, ReporterEvent::Received(event("disconnected")));
    assert_eq!(third, (ReporterAction::Drain, false));
    assert_eq!(
        run_usage_reporter(&mut queue, ReporterEvent::Drained(None)),
        (ReporterAction::Wait, false)
    );
    assert_eq!(
        run_usage_reporter(&mut queue, ReporterEvent::Tick),
        (ReporterAction::PostInTime, false)
    );
    batches.push(queue.batch());
    run_usage_reporter(&mut queue, ReporterEvent::TickPosted(true));

    assert_eq!(batches.iter().map(Vec::len).sum::<usize>(), 3);
    assert!(batches.iter().any(|batch| batch.len() == 2));
    assert!(batches.iter().any(|batch| batch.len() == 1));
    assert_eq!(types(&batches[0]), vec!["connected", "session_started"]);
    assert!(queue.is_empty());
}

#[test]
fn cloud_mesh_usage_events_are_emitted() {
    let wanted = ["connected", "session_started", "session_ended", "disconnected"];
    let events = emit_cloud_usage_events(
        Some("acct_123"),
        "mesh-cloud",
        "node-1",
        &wanted.iter().map(|t| t.to_string()).collect(),
        9,
    );
    assert_eq!(events.len(), 4);
    assert!(events.iter().all(|event| event.account_id == "acct_123"));
    assert!(events.iter().all(|event| event.mesh_id == "mesh-cloud"));
    assert!(events.iter().all(|event| event.node_id == "node-1"));
    assert!(events.iter().all(|event| event.timestamp == 9));
    assert_eq!(types(&events), wanted);
}

#[test]
fn non_cloud_mesh_usage_events_are_not_emitted() {
    let events =
        emit_cloud_usage_events(None, "mesh-oss", "node-1", &vec!["connected".to_string()], 9);
    assert!(events.is_empty());
}

#[test]
fn usage_ingest_failure_does_not_block_event_production() {
    let mut queue = UsageQueue::new(1, 2);
    run_usage_reporter(&mut queue, ReporterEvent::Received(event("a")));
    run_usage_reporter(&mut queue, ReporterEvent::Posted(false));
    assert_eq!(types(&queue.batch()), vec!["a"]);
    let (action, dropped) = run_usage_reporter(&mut queue, ReporterEvent::Received(event("b")));
    assert_eq!((action, dropped), (ReporterAction::Post, false));
    let (_, dropped) = run_usage_reporter(&mut queue, ReporterEvent::Received(event("c")));
    assert!(dropped);
    assert_eq!(types(&queue.batch()), vec!["a", "b"]);
}

#[test]
fn waits_double_up_to_a_minute() {
    let mut queue = UsageQueue::new(10, 8);
    queue.receive(event("a"));
    let mut waits = vec![];
    for _ in 0..8 {
        match run_usage_reporter(&mut queue, ReporterEvent::TickPosted(false)).0 {
            ReporterAction::Sleep(seconds) => waits.push(seconds),
            other => panic!("unexpected action: {other:?}"),
        }
    }
    assert_eq!(waits, vec![1, 2, 4, 8, 16, 32, 60, 60]);
    run_usage_reporter(&mut queue, ReporterEvent::TickPosted(true));
    assert_eq!(
        run_usage_reporter(&mut queue, ReporterEvent::Tick).0,
        ReporterAction::Wait
    );
    queue.receive(event("b"));
    assert_eq!(
        run_usage_reporter(&mut queue, ReporterEvent::TickPosted(false)).0,
        ReporterAction::Sleep(1)
    );
    assert_eq!(
        run_usage_reporter(&mut queue, ReporterEvent::Closed).0,
        ReporterAction::Stop
    );
}

#[test]
fn reports_need_an_address_a_token_and_events() {
    assert!(from_env(None, Some("t")).is_none());
    assert!(from_env(Some(""), Some("t")).is_none());
    assert!(from_env(Some("u"), Some("")).is_none());
    assert_eq!(from_env(Some("u"), Some("t")), Some(("u".to_string(), "t".to_string())));
    assert!(post_usage_batch("u", "t", vec![]).is_none());
    let call = post_usage_batch("u", "t", vec![event("a")]).unwrap();
    assert_eq!((call.url.as_str(), call.bearer.as_str()), ("u", "t"));
    assert_eq!(types(&call.events), vec!["a"]);
}
