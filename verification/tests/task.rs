use delegation::delegation::subagent::{SubAgentResult, SubAgentStatus};
use delegation::delegation::task::{DelegationResult, DelegationTask, TaskQueue, TaskResult, TaskStatus};

fn task(id: &str) -> DelegationTask {
    DelegationTask::new(id.to_string(), format!("goal of {}", id), None, vec!["terminal".to_string()])
}

fn result_with(status: TaskStatus, duration_ms: i64) -> TaskResult {
    TaskResult {
        task_id: "t".to_string(),
        goal: String::new(),
        status,
        summary: String::new(),
        duration_ms,
        api_calls: 0,
        tools_used: vec![],
        interrupted: false,
        error: None,
    }
}

fn agent_result(status: SubAgentStatus) -> SubAgentResult {
    SubAgentResult {
        task_index: 9,
        status,
        summary: "sum".to_string(),
        duration_ms: 1_500,
        api_calls: 2,
        tools_used: vec!["file".to_string()],
        interrupted: false,
        error: Some("e".to_string()),
    }
}

#[test]
fn new_task_is_pending() {
    let t = DelegationTask::new("a".to_string(), "g".to_string(), Some("c".to_string()), vec![]);
    assert_eq!(t.task_id, "a");
    assert_eq!(t.goal, "g");
    assert_eq!(t.context.as_deref(), Some("c"));
    assert_eq!(t.status, TaskStatus::Pending);
    assert!(t.model.is_none() && t.result.is_none() && t.error.is_none());
}

#[test]
fn task_result_from_indexed_child_result() {
    let r = TaskResult::from((12, agent_result(SubAgentStatus::Completed)));
    assert_eq!(r.task_id, "task-12");
    assert_eq!(r.goal, "");
    assert_eq!(r.status, TaskStatus::Completed);
    assert_eq!(r.summary, "sum");
    assert_eq!(r.duration_ms, 1_500);
    assert_eq!(r.api_calls, 2);
    assert_eq!(r.tools_used, vec!["file".to_string()]);
    assert_eq!(r.error.as_deref(), Some("e"));
}

#[test]
fn child_statuses_map_to_task_statuses() {
    assert_eq!(TaskResult::from((0, agent_result(SubAgentStatus::Failed))).status, TaskStatus::Failed);
    assert_eq!(TaskResult::from((0, agent_result(SubAgentStatus::Interrupted))).status, TaskStatus::Interrupted);
    assert_eq!(TaskResult::from((0, agent_result(SubAgentStatus::Running))).status, TaskStatus::Pending);
    assert_eq!(TaskResult::from((0, agent_result(SubAgentStatus::Pending))).status, TaskStatus::Pending);
    assert_eq!(TaskResult::from((0, agent_result(SubAgentStatus::Pending))).task_id, "task-0");
    assert_eq!(TaskResult::from_indexed(1005, agent_result(SubAgentStatus::Pending)).task_id, "task-1005");
}

#[test]
fn delegation_result_counts_and_totals() {
    let r = DelegationResult::new(
        "team".to_string(),
        vec![
            result_with(TaskStatus::Completed, 100),
            result_with(TaskStatus::Failed, 250),
            result_with(TaskStatus::Interrupted, 50),
            result_with(TaskStatus::Completed, 0),
            result_with(TaskStatus::Pending, 1),
        ],
    );
    assert_eq!(r.team_id, "team");
    assert_eq!(r.tasks.len(), 5);
    assert_eq!(r.completed_count, 2);
    assert_eq!(r.failed_count, 1);
    assert_eq!(r.interrupted_count, 1);
    assert_eq!(r.total_duration_ms, 401);
    assert!(!r.success());
}

#[test]
fn success_needs_a_completion_and_no_failure() {
    let ok = DelegationResult::new("t".to_string(), vec![result_with(TaskStatus::Completed, 1)]);
    assert!(ok.success());
    let empty = DelegationResult::new("t".to_string(), vec![]);
    assert!(!empty.success());
    assert_eq!(empty.total_duration_ms, 0);
    let interrupted = DelegationResult::new("t".to_string(), vec![result_with(TaskStatus::Interrupted, 1)]);
    assert!(!interrupted.success());
}

#[test]
fn pending_tasks_are_listed_in_order() {
    let mut q = TaskQueue::new("team".to_string());
    q.add_task(task("a"));
    q.add_tasks(vec![task("b"), task("c")]);
    q.mark_running("b");
    let pending: Vec<String> = q.get_pending_tasks().into_iter().map(|t| t.task_id).collect();
    assert_eq!(pending, vec!["a".to_string(), "c".to_string()]);
}

#[test]
fn marking_touches_only_the_first_match() {
    let mut q = TaskQueue::new("team".to_string());
    q.add_tasks(vec![task("dup"), task("dup"), task("other")]);
    q.mark_completed("dup", "first".to_string());
    let r = q.finalize();
    assert_eq!(r.tasks[0].status, TaskStatus::Completed);
    assert_eq!(r.tasks[0].summary, "first");
    assert_eq!(r.tasks[1].status, TaskStatus::Pending);
    assert_eq!(r.tasks[1].summary, "");
    assert_eq!(r.tasks[2].status, TaskStatus::Pending);
}

#[test]
fn marking_an_unknown_task_changes_nothing() {
    let mut q = TaskQueue::new("team".to_string());
    q.add_task(task("a"));
    q.mark_running("zzz");
    q.mark_failed("zzz", "err".to_string());
    assert_eq!(q.get_pending_tasks().len(), 1);
    let r = q.finalize();
    assert_eq!(r.tasks[0].status, TaskStatus::Pending);
    assert!(r.tasks[0].error.is_none());
}

#[test]
fn failed_task_carries_its_error() {
    let mut q = TaskQueue::new("team".to_string());
    q.add_task(task("a"));
    q.mark_failed("a", "bad input".to_string());
    let r = q.finalize();
    assert_eq!(r.tasks[0].status, TaskStatus::Failed);
    assert_eq!(r.tasks[0].error.as_deref(), Some("bad input"));
    assert_eq!(r.failed_count, 1);
    assert!(!r.success());
}

#[test]
fn results_are_kept_in_order() {
    let mut q = TaskQueue::new("team".to_string());
    assert!(q.get_results().is_empty());
    q.add_result(result_with(TaskStatus::Completed, 3));
    q.add_result(result_with(TaskStatus::Failed, 4));
    let rs = q.get_results();
    assert_eq!(rs.len(), 2);
    assert_eq!(rs[0].status, TaskStatus::Completed);
    assert_eq!(rs[1].duration_ms, 4);
}

#[test]
fn handles_register_and_unregister() {
    let mut q = TaskQueue::new("team".to_string());
    q.register_handle("x".to_string());
    q.register_handle("y".to_string());
    q.register_handle("x".to_string());
    assert_eq!(q.get_active_count(), 3);
    assert_eq!(q.cancel_all(), vec!["x".to_string(), "y".to_string(), "x".to_string()]);
    q.unregister_handle("x");
    assert_eq!(q.get_active_count(), 1);
    assert_eq!(q.cancel_all(), vec!["y".to_string()]);
    q.unregister_handle("nobody");
    assert_eq!(q.get_active_count(), 1);
}

#[test]
fn register_then_unregister_restores_the_list() {
    let mut q = TaskQueue::new("team".to_string());
    q.register_handle("a".to_string());
    q.register_handle("fresh".to_string());
    q.unregister_handle("fresh");
    assert_eq!(q.cancel_all(), vec!["a".to_string()]);
}

#[test]
fn finalize_reports_every_task() {
    let mut q = TaskQueue::new("team-1".to_string());
    q.add_tasks(vec![task("a"), task("b"), task("c"), task("d")]);
    q.mark_running("a");
    q.mark_completed("b", "all good".to_string());
    q.mark_failed("c", "oops".to_string());
    let r = q.finalize();
    assert_eq!(r.team_id, "team-1");
    assert_eq!(r.tasks.len(), 4);
    assert_eq!(r.tasks[0].status, TaskStatus::Running);
    assert_eq!(r.tasks[1].summary, "all good");
    assert_eq!(r.tasks[1].goal, "goal of b");
    assert_eq!(r.tasks[2].error.as_deref(), Some("oops"));
    assert_eq!(r.tasks[3].status, TaskStatus::Pending);
    for t in &r.tasks {
        assert_eq!(t.duration_ms, 0);
        assert_eq!(t.api_calls, 0);
        assert!(t.tools_used.is_empty());
        assert!(!t.interrupted);
    }
    assert_eq!(r.completed_count, 1);
    assert_eq!(r.failed_count, 1);
    assert_eq!(r.interrupted_count, 0);
    assert_eq!(r.total_duration_ms, 0);
}
