use delegation::delegation::subagent::{SubAgentResult, SubAgentStatus};
use delegation::tools::advanced::delegation::{
    status_label, DelegateOutcome, DelegateSubTask, DelegateTaskInput, DelegateTaskOutput, DelegationConfig,
    DelegationTool,
};

fn sub(goal: &str) -> DelegateSubTask {
    DelegateSubTask { goal: goal.to_string(), context: None, toolsets: None, model: None }
}

fn input_with_tasks(tasks: Option<Vec<DelegateSubTask>>, goal: Option<&str>) -> DelegateTaskInput {
    DelegateTaskInput {
        goal: goal.map(|g| g.to_string()),
        context: None,
        toolsets: None,
        model: None,
        tasks,
    }
}

fn child(index: usize, status: SubAgentStatus, duration_ms: i64) -> SubAgentResult {
    SubAgentResult {
        task_index: index,
        status,
        summary: format!("s{}", index),
        duration_ms,
        api_calls: 1,
        tools_used: vec!["terminal".to_string()],
        interrupted: false,
        error: None,
    }
}

#[test]
fn default_config() {
    let c = DelegationConfig::default();
    assert_eq!(c.max_concurrent, 3);
    assert_eq!(c.max_depth, 2);
    assert_eq!(c.default_toolsets, vec!["terminal".to_string(), "file".to_string()]);
    assert_eq!(c.max_iterations, 50);
}

#[test]
fn empty_task_list_is_refused() {
    let mut tool = DelegationTool::new();
    let err = tool.execute(input_with_tasks(Some(vec![]), Some("ignored"))).unwrap_err();
    assert_eq!(err.message, "tasks array cannot be empty");
    assert_eq!(err.code.as_deref(), Some("empty_tasks"));
    assert!(tool.cancel_all().is_empty());
}

#[test]
fn request_without_goal_or_tasks_is_refused() {
    let mut tool = DelegationTool::default();
    let err = tool.execute(input_with_tasks(None, None)).unwrap_err();
    assert_eq!(err.message, "Either 'goal' or 'tasks' must be provided");
    assert_eq!(err.code.as_deref(), Some("missing_params"));
}

#[test]
fn batch_runs_at_most_three_children() {
    let mut tool = DelegationTool::new();
    let tasks = vec![sub("a"), sub("b"), sub("c"), sub("d"), sub("e")];
    let out = match tool.execute(input_with_tasks(Some(tasks), None)).unwrap() {
        DelegateOutcome::Batch(o) => o,
        DelegateOutcome::Single(_) => panic!("expected a batch"),
    };
    assert_eq!(out.status, "success");
    assert_eq!(out.results.len(), 3);
    assert_eq!(out.completed_count, 3);
    assert_eq!(out.failed_count, 0);
    assert!(out.total_duration_ms >= 1);
    for (i, r) in out.results.iter().enumerate() {
        assert_eq!(r.task_index, i);
        assert_eq!(r.status, "completed");
        assert_eq!(r.summary, format!("SubAgent for task {} completed", i));
        assert!(r.tools_used.is_empty());
    }
    assert_eq!(tool.cancel_all().len(), 3);
    assert!(tool.cancel_all().is_empty());
}

#[test]
fn batch_smaller_than_the_limit_runs_every_task() {
    let mut tool = DelegationTool::new();
    let mut t = sub("only");
    t.toolsets = Some(vec!["memory".to_string(), "web".to_string()]);
    t.model = Some("m".to_string());
    let out = match tool.execute(input_with_tasks(Some(vec![t]), None)).unwrap() {
        DelegateOutcome::Batch(o) => o,
        _ => panic!("expected a batch"),
    };
    assert_eq!(out.results.len(), 1);
    assert_eq!(out.results[0].summary, "SubAgent for task 0 completed");
}

#[test]
fn batch_with_no_room_reports_nothing_but_a_minimal_duration() {
    let config = DelegationConfig {
        max_concurrent: 0,
        max_depth: 2,
        default_toolsets: vec![],
        max_iterations: 10,
    };
    let mut tool = DelegationTool::with_config(config);
    let out = match tool.execute(input_with_tasks(Some(vec![sub("a")]), None)).unwrap() {
        DelegateOutcome::Batch(o) => o,
        _ => panic!("expected a batch"),
    };
    assert!(out.results.is_empty());
    assert_eq!(out.total_duration_ms, 1);
    assert_eq!(out.status, "success");
    assert!(tool.cancel_all().is_empty());
}

#[test]
fn single_goal_runs_one_child() {
    let mut tool = DelegationTool::new();
    let mut input = input_with_tasks(None, Some("write docs"));
    input.toolsets = Some(vec!["terminal".to_string(), "delegate_task".to_string()]);
    let s = match tool.execute(input).unwrap() {
        DelegateOutcome::Single(s) => s,
        _ => panic!("expected a single summary"),
    };
    assert_eq!(s.task_index, 0);
    assert_eq!(s.status, "completed");
    assert!(s.summary.starts_with("SubAgent subagent-"));
    assert!(s.summary.ends_with(" completed task"));
    assert_eq!(s.summary.len(), "SubAgent subagent-".len() + 36 + " completed task".len());
    assert!(s.duration_ms >= 0);
    assert!(s.tools_used.is_empty());
    assert!(tool.cancel_all().is_empty());
}

#[test]
fn tasks_take_precedence_over_goal() {
    let mut tool = DelegationTool::new();
    let out = tool.execute(input_with_tasks(Some(vec![sub("a"), sub("b")]), Some("goal"))).unwrap();
    assert!(matches!(out, DelegateOutcome::Batch(ref o) if o.results.len() == 2));
}

#[test]
fn batch_report_from_mixed_results() {
    let out = DelegateTaskOutput::from_results(vec![
        child(0, SubAgentStatus::Completed, 1_000),
        child(1, SubAgentStatus::Failed, 2_000),
        child(2, SubAgentStatus::Interrupted, 500),
        child(3, SubAgentStatus::Running, 0),
    ]);
    assert_eq!(out.status, "partial");
    assert_eq!(out.completed_count, 1);
    assert_eq!(out.failed_count, 1);
    assert_eq!(out.total_duration_ms, 3_500);
    let labels: Vec<&str> = out.results.iter().map(|r| r.status.as_str()).collect();
    assert_eq!(labels, vec!["completed", "failed", "interrupted", "unknown"]);
    assert_eq!(out.results[2].summary, "s2");
    assert_eq!(out.results[1].duration_ms, 2_000);
    assert_eq!(out.results[3].tools_used, vec!["terminal".to_string()]);
}

#[test]
fn batch_report_duration_is_at_least_one_millisecond() {
    assert_eq!(DelegateTaskOutput::from_results(vec![]).total_duration_ms, 1);
    let out = DelegateTaskOutput::from_results(vec![child(0, SubAgentStatus::Completed, -40)]);
    assert_eq!(out.total_duration_ms, 1);
    assert_eq!(out.status, "success");
}

#[test]
fn status_labels() {
    assert_eq!(status_label(SubAgentStatus::Completed), "completed");
    assert_eq!(status_label(SubAgentStatus::Failed), "failed");
    assert_eq!(status_label(SubAgentStatus::Interrupted), "interrupted");
    assert_eq!(status_label(SubAgentStatus::Pending), "unknown");
    assert_eq!(status_label(SubAgentStatus::Running), "unknown");
}

fn uuid_text(n: u32) -> String {
    format!("{:08x}-1234-4abc-8def-1234567890ab", n)
}

#[test]
fn run_batch_with_given_names_reports_each_child() {
    let mut tool = DelegationTool::new();
    let tasks = vec![sub("a"), sub("b"), sub("c"), sub("d")];
    let child_uuids = vec![uuid_text(1), uuid_text(2), uuid_text(3)];
    let out = tool.run_batch(tasks, Some("parent".to_string()), uuid_text(0), child_uuids);
    assert_eq!(out.status, "success");
    assert_eq!(out.results.len(), 3);
    assert_eq!(out.completed_count, 3);
    assert_eq!(out.failed_count, 0);
    assert!(out.total_duration_ms >= 1);
    for (i, r) in out.results.iter().enumerate() {
        assert_eq!(r.task_index, i);
        assert_eq!(r.summary, format!("SubAgent for task {} completed", i));
    }
    assert_eq!(tool.cancel_all().len(), 3);
}

#[test]
fn run_batch_with_a_repeated_name_records_it_once() {
    let mut tool = DelegationTool::new();
    let child_uuids = vec![uuid_text(7), uuid_text(7)];
    let out = tool.run_batch(vec![sub("a"), sub("b")], None, uuid_text(0), child_uuids);
    assert_eq!(out.results.len(), 2);
    assert_eq!(tool.cancel_all().len(), 1);
}

#[test]
fn run_batch_of_no_tasks_reports_a_minimal_duration() {
    let mut tool = DelegationTool::new();
    let out = tool.run_batch(vec![], None, uuid_text(0), vec![]);
    assert_eq!(out.status, "success");
    assert!(out.results.is_empty());
    assert_eq!(out.total_duration_ms, 1);
    assert_eq!(out.completed_count, 0);
    assert_eq!(out.failed_count, 0);
    assert!(tool.cancel_all().is_empty());
}

#[test]
fn run_single_names_the_child_by_the_given_uuid() {
    let mut tool = DelegationTool::new();
    let s = tool.run_single(
        "write docs".to_string(),
        Some("ctx".to_string()),
        vec!["terminal".to_string(), "delegate_task".to_string()],
        None,
        None,
        uuid_text(42),
    );
    assert_eq!(s.task_index, 0);
    assert_eq!(s.status, "completed");
    assert_eq!(s.summary, format!("SubAgent subagent-{} completed task", uuid_text(42)));
    assert!(s.duration_ms >= 0);
    assert!(s.tools_used.is_empty());
    assert!(tool.cancel_all().is_empty());
}
