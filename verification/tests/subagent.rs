use delegation::delegation::subagent::{SubAgent, SubAgentConfig, SubAgentResult, SubAgentStatus};

fn closing() -> String {
    format!("{}{}", "\nComplete this", " task using the tools available to you. When finished, provide a clear, concise summary of:\n- What you did\n- What you found or accomplished\n- Any files you created or modified\n- Any issues encountered\n\nImportant workspace rule: Never assume a repository lives at /workspace/... or any other container-style path unless the task/context explicitly gives that path. If no exact local path is provided, discover it first before issuing git/workdir-specific commands.\n\nBe thorough but concise -- your response is returned to the parent agent as a summary.")
}

fn config(goal: &str) -> SubAgentConfig {
    SubAgentConfig { goal: goal.to_string(), ..SubAgentConfig::default() }
}

fn agent_at(created: i64, started: Option<i64>, finished: Option<i64>) -> SubAgent {
    let mut agent = SubAgent::new(config("g")).expect("random source available");
    agent.created_at = created;
    agent.started_at = started;
    agent.finished_at = finished;
    agent
}

fn result(interrupted: bool) -> SubAgentResult {
    SubAgentResult {
        task_index: 4,
        status: SubAgentStatus::Completed,
        summary: "done".to_string(),
        duration_ms: 12,
        api_calls: 3,
        tools_used: vec!["terminal".to_string()],
        interrupted,
        error: None,
    }
}

#[test]
fn default_config_matches_documented_values() {
    let c = SubAgentConfig::default();
    assert_eq!(c.goal, "");
    assert_eq!(c.context, None);
    assert_eq!(c.toolsets, vec!["terminal".to_string(), "file".to_string()]);
    assert_eq!(c.model, None);
    assert_eq!(c.max_iterations, 50);
    assert_eq!(c.workspace_path, None);
    assert_eq!(c.parent_id, None);
    assert_eq!(c.task_index, 0);
}

#[test]
fn new_agent_is_pending_with_random_hyphenated_id() {
    let a = SubAgent::new(config("goal")).expect("random source available");
    let b = SubAgent::new(config("goal")).expect("random source available");
    assert!(a.agent_id.starts_with("subagent-"));
    let uuid = &a.agent_id["subagent-".len()..];
    assert_eq!(uuid.len(), 36);
    for (i, c) in uuid.chars().enumerate() {
        if [8, 13, 18, 23].contains(&i) {
            assert_eq!(c, '-');
        } else {
            assert!(c.is_ascii_hexdigit() && !c.is_ascii_uppercase());
        }
    }
    assert_eq!(uuid.chars().nth(14), Some('4'));
    assert_ne!(a.agent_id, b.agent_id);
    assert_eq!(a.status, SubAgentStatus::Pending);
    assert!(a.result.is_none());
    assert!(a.started_at.is_none() && a.finished_at.is_none());
    // The clock reads a time after 2020-01-01.
    assert!(a.created_at > 1_577_836_800_000);
}

#[test]
fn prompt_for_a_bare_goal() {
    let a = SubAgent::new(config("Fix the build")).expect("random source available");
    let expected = format!(
        "You are a focused subagent working on a specific delegated task.\n\nYOUR TASK:\nFix the build\n{}",
        closing()
    );
    assert_eq!(a.build_system_prompt(), expected);
}

#[test]
fn prompt_includes_context_and_workspace() {
    let mut c = config("Fix the build");
    c.context = Some("CI is red".to_string());
    c.workspace_path = Some("/home/me/repo".to_string());
    let a = SubAgent::new(c).expect("random source available");
    let expected = format!(
        "You are a focused subagent working on a specific delegated task.\n\nYOUR TASK:\nFix the build\n\nCONTEXT:\nCI is red\n\nWORKSPACE PATH:\n/home/me/repo\nUse this exact path for local repository/workdir operations unless the task explicitly says otherwise.\n{}",
        closing()
    );
    assert_eq!(a.build_system_prompt(), expected);
}

#[test]
fn prompt_leaves_out_blank_context_and_workspace() {
    let mut c = config("x");
    c.context = Some(" \t\n\u{3000}\u{a0}".to_string());
    c.workspace_path = Some(String::new());
    let a = SubAgent::new(c).expect("random source available");
    let expected = format!(
        "You are a focused subagent working on a specific delegated task.\n\nYOUR TASK:\nx\n{}",
        closing()
    );
    assert_eq!(a.build_system_prompt(), expected);
}

#[test]
fn prompt_keeps_context_with_text_among_whitespace() {
    let mut c = config("x");
    c.context = Some("  a  ".to_string());
    let a = SubAgent::new(c).expect("random source available");
    assert!(a.build_system_prompt().contains("\n\nCONTEXT:\n  a  \n"));
}

#[test]
fn elapsed_runs_from_start_to_finish() {
    assert_eq!(agent_at(1_000, Some(1_500), Some(4_000)).elapsed_millis_at(9_999), 2_500);
    assert_eq!(agent_at(1_000, None, Some(4_000)).elapsed_millis_at(9_999), 3_000);
    assert_eq!(agent_at(1_000, Some(1_500), None).elapsed_millis_at(9_999), 8_499);
    assert_eq!(agent_at(1_000, None, None).elapsed_millis_at(1_000), 0);
    assert_eq!(agent_at(1_000, Some(1_500), Some(4_000)).elapsed_millis(), 2_500);
}

#[test]
fn running_sets_start_time() {
    let mut a = SubAgent::new(config("g")).expect("random source available");
    a.mark_running();
    assert_eq!(a.status, SubAgentStatus::Running);
    assert!(a.started_at.unwrap() >= a.created_at);
    assert!(a.elapsed_millis() >= 0);
}

#[test]
fn completion_records_result_and_status() {
    let mut a = SubAgent::new(config("g")).expect("random source available");
    a.mark_running();
    a.mark_completed(result(false));
    assert_eq!(a.status, SubAgentStatus::Completed);
    assert!(a.finished_at.is_some());
    assert_eq!(a.result.as_ref().unwrap().summary, "done");

    let mut b = SubAgent::new(config("g")).expect("random source available");
    b.mark_completed(result(true));
    assert_eq!(b.status, SubAgentStatus::Interrupted);
}

#[test]
fn failure_records_failed_result() {
    let mut c = config("g");
    c.task_index = 7;
    let mut a = SubAgent::new(c).expect("random source available");
    a.started_at = Some(a.created_at);
    a.mark_failed("boom".to_string());
    assert_eq!(a.status, SubAgentStatus::Failed);
    let r = a.result.clone().unwrap();
    assert_eq!(r.task_index, 7);
    assert_eq!(r.status, SubAgentStatus::Failed);
    assert_eq!(r.summary, "");
    assert_eq!(r.api_calls, 0);
    assert!(r.tools_used.is_empty());
    assert!(!r.interrupted);
    assert_eq!(r.error.as_deref(), Some("boom"));
    assert_eq!(r.duration_ms, a.finished_at.unwrap() - a.created_at);
}

#[test]
fn timestamps_outside_chrono_range_are_reported() {
    assert!(agent_at(0, Some(5), None).has_valid_timestamps());
    assert!(agent_at(-1_000, None, None).has_valid_timestamps());
    assert!(agent_at(-8_334_601_315_200_000, None, Some(8_210_266_876_799_999)).has_valid_timestamps());
    assert!(!agent_at(-8_334_601_315_200_001, None, None).has_valid_timestamps());
    assert!(!agent_at(0, Some(8_210_266_876_800_000), None).has_valid_timestamps());
    assert!(!agent_at(0, None, Some(i64::MIN)).has_valid_timestamps());
}

#[test]
fn elapsed_spans_times_before_the_epoch() {
    assert_eq!(agent_at(-5_000, Some(-2_000), Some(3_000)).elapsed_millis_at(0), 5_000);
}

#[test]
fn from_parts_builds_a_pending_child() {
    let a = SubAgent::from_parts(config("g"), "0badc0de-1234-4abc-8def-1234567890ab".to_string(), -5);
    assert_eq!(a.agent_id, "subagent-0badc0de-1234-4abc-8def-1234567890ab");
    assert_eq!(a.config.goal, "g");
    assert_eq!(a.status, SubAgentStatus::Pending);
    assert!(a.result.is_none());
    assert_eq!(a.created_at, -5);
    assert!(a.started_at.is_none());
    assert!(a.finished_at.is_none());
}
