use delegation::delegation::progress::{BatchedProgress, ProgressEvent, ProgressEventType, ProgressTracker};

#[test]
fn event_constructors_fill_their_fields() {
    let e = ProgressEvent::tool_started("ag".to_string(), 2, "terminal".to_string(), Some("ls".to_string()));
    assert_eq!(e.event_type, ProgressEventType::ToolStarted);
    assert_eq!(e.agent_id, "ag");
    assert_eq!(e.task_index, 2);
    assert_eq!(e.tool_name.as_deref(), Some("terminal"));
    assert_eq!(e.preview.as_deref(), Some("ls"));
    assert!(e.timestamp > 1_577_836_800_000);

    let e = ProgressEvent::tool_completed("ag".to_string(), 1, "file".to_string());
    assert_eq!(e.event_type, ProgressEventType::ToolCompleted);
    assert_eq!(e.tool_name.as_deref(), Some("file"));
    assert_eq!(e.preview, None);

    let e = ProgressEvent::thinking("ag".to_string(), 0, "hmm".to_string());
    assert_eq!(e.event_type, ProgressEventType::Thinking);
    assert_eq!(e.tool_name, None);
    assert_eq!(e.preview.as_deref(), Some("hmm"));

    let e = ProgressEvent::subagent_progress("ag".to_string(), 0, "a, b".to_string());
    assert_eq!(e.event_type, ProgressEventType::SubagentProgress);
    assert_eq!(e.preview.as_deref(), Some("a, b"));
}

#[test]
fn tracker_logs_events_in_order_and_clears() {
    let mut t = ProgressTracker::new();
    assert!(t.get_events().is_empty());
    let d = t.emit_thinking("a".to_string(), 0, "x".to_string());
    assert_eq!(d.preview.as_deref(), Some("x"));
    t.emit_tool_started("a".to_string(), 0, "terminal".to_string(), None);
    t.emit_tool_completed("a".to_string(), 0, "terminal".to_string());
    t.emit_subagent_progress("a".to_string(), 0, "s".to_string());
    let kinds: Vec<ProgressEventType> = t.get_events().iter().map(|e| e.event_type).collect();
    assert_eq!(
        kinds,
        vec![
            ProgressEventType::Thinking,
            ProgressEventType::ToolStarted,
            ProgressEventType::ToolCompleted,
            ProgressEventType::SubagentProgress
        ]
    );
    t.clear();
    assert!(t.get_events().is_empty());
}

#[test]
fn emit_hands_back_the_event() {
    let mut t = ProgressTracker::new();
    let e = ProgressEvent::tool_completed("a".to_string(), 5, "web".to_string());
    let stamp = e.timestamp;
    let d = t.emit(e);
    assert_eq!(d.timestamp, stamp);
    assert_eq!(d.task_index, 5);
    assert_eq!(t.get_events()[0].timestamp, stamp);
}

#[test]
fn batch_reports_once_full() {
    let mut t = ProgressTracker::new();
    let mut b = BatchedProgress::new(3);
    assert!(b.add_tool(&mut t, "a".to_string(), 1, "terminal".to_string()).is_none());
    assert!(b.add_tool(&mut t, "a".to_string(), 1, "file".to_string()).is_none());
    assert!(t.get_events().is_empty());
    let e = b.add_tool(&mut t, "a".to_string(), 1, "web".to_string()).unwrap();
    assert_eq!(e.event_type, ProgressEventType::SubagentProgress);
    assert_eq!(e.preview.as_deref(), Some("terminal, file, web"));
    assert_eq!(e.task_index, 1);
    assert_eq!(t.get_events().len(), 1);
    assert!(b.add_tool(&mut t, "a".to_string(), 1, "x".to_string()).is_none());
    let f = b.flush(&mut t, "a".to_string(), 1).unwrap();
    assert_eq!(f.preview.as_deref(), Some("x"));
    assert!(b.flush(&mut t, "a".to_string(), 1).is_none());
    assert_eq!(t.get_events().len(), 2);
}

#[test]
fn batch_of_size_zero_or_one_reports_every_tool() {
    let mut t = ProgressTracker::new();
    let mut b = BatchedProgress::new(0);
    let e = b.add_tool(&mut t, "a".to_string(), 0, "only".to_string()).unwrap();
    assert_eq!(e.preview.as_deref(), Some("only"));
    let mut c = BatchedProgress::new(1);
    assert!(c.add_tool(&mut t, "a".to_string(), 0, "one".to_string()).is_some());
    assert_eq!(t.get_events().len(), 2);
}

#[test]
fn flushing_an_empty_batch_does_nothing() {
    let mut t = ProgressTracker::new();
    let mut b = BatchedProgress::new(5);
    assert!(b.flush(&mut t, "a".to_string(), 0).is_none());
    assert!(t.get_events().is_empty());
}
