use delegation::delegation::{filter_blocked_tools, is_blocked_tool, MAX_CONCURRENT_CHILDREN, MAX_DELEGATION_DEPTH};

fn strings(v: &[&str]) -> Vec<String> {
    v.iter().map(|s| s.to_string()).collect()
}

#[test]
fn every_listed_tool_is_blocked() {
    for name in ["delegate_task", "clarify", "memory", "send_message", "execute_code"] {
        assert!(is_blocked_tool(name), "{} should be blocked", name);
    }
}

#[test]
fn ordinary_tools_are_not_blocked() {
    assert!(!is_blocked_tool("terminal"));
    assert!(!is_blocked_tool("file"));
    assert!(!is_blocked_tool(""));
    assert!(!is_blocked_tool("Memory"));
    assert!(!is_blocked_tool("memory "));
    assert!(!is_blocked_tool("delegate"));
}

#[test]
fn filtering_drops_blocked_tools_and_keeps_order() {
    let tools = strings(&["terminal", "memory", "web", "delegate_task", "file", "clarify", "web"]);
    assert_eq!(filter_blocked_tools(&tools), strings(&["terminal", "web", "file", "web"]));
}

#[test]
fn filtering_an_empty_list_gives_an_empty_list() {
    assert!(filter_blocked_tools(&[]).is_empty());
}

#[test]
fn filtering_only_blocked_tools_gives_nothing() {
    let tools = strings(&["send_message", "execute_code"]);
    assert!(filter_blocked_tools(&tools).is_empty());
}

#[test]
fn filtering_twice_is_filtering_once() {
    let tools = strings(&["memory", "terminal", "clarify", "file"]);
    let once = filter_blocked_tools(&tools);
    assert_eq!(filter_blocked_tools(&once), once);
}

#[test]
fn limits_are_three_children_and_depth_two() {
    assert_eq!(MAX_CONCURRENT_CHILDREN, 3);
    assert_eq!(MAX_DELEGATION_DEPTH, 2);
}
