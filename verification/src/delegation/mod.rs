//! Multi-agent delegation: which tools a child may use, and the limits
//! on how many children run and how deep delegation may nest.

use vstd::prelude::*;
use crate::text::{str_eq, string_views};

pub mod subagent;
pub mod task;
pub mod progress;

pub use subagent::{SubAgent, SubAgentConfig, SubAgentResult};
pub use task::{DelegationResult, DelegationTask, TaskStatus};
pub use progress::ProgressEvent;

verus! {

/// Number of children a batch delegation runs at most.
pub const MAX_CONCURRENT_CHILDREN: usize = 3;
/// Depth to which delegation may nest.
pub const MAX_DELEGATION_DEPTH: usize = 2;

/// Names of the tools that a delegated child is never given.
pub open spec fn blocked_tool_names() -> Seq<Seq<char>> {
    seq![
        "delegate_task"@,
        "clarify"@,
        "memory"@,
        "send_message"@,
        "execute_code"@,
    ]
}

/// Whether a tool name is one of the blocked tools.
pub open spec fn spec_is_blocked(name: Seq<char>) -> bool {
    blocked_tool_names().contains(name)
}

/// Whether `tool_name` is one of the tools a child may never use.
pub fn is_blocked_tool(tool_name: &str) -> (res: bool)
    ensures
        res == spec_is_blocked(tool_name@),
{
    let res = str_eq(tool_name, "delegate_task") || str_eq(tool_name, "clarify")
        || str_eq(tool_name, "memory") || str_eq(tool_name, "send_message")
        || str_eq(tool_name, "execute_code");
    proof {
        let names = blocked_tool_names();
        assert(names[0] == "delegate_task"@);
        assert(names[1] == "clarify"@);
        assert(names[2] == "memory"@);
        assert(names[3] == "send_message"@);
        assert(names[4] == "execute_code"@);
        if names.contains(tool_name@) {
            let k = choose|k: int| 0 <= k < names.len() && names[k] == tool_name@;
            assert(res);
        }
    }
    res
}

} // verus!

verus! {

/// The tools of `tools` that a child may use, in their original order.
pub open spec fn spec_allowed_tools(tools: Seq<String>) -> Seq<String> {
    tools.filter(|t: String| !spec_is_blocked(t@))
}

/// Copies `tools`, leaving out every blocked tool and keeping the order.
pub fn filter_blocked_tools(tools: &[String]) -> (res: Vec<String>)
    ensures
        res@ == spec_allowed_tools(tools@),
{
    let mut res: Vec<String> = Vec::new();
    let n = tools.len();
    for i in 0..n
        invariant
            n == tools@.len(),
            res@ == spec_allowed_tools(tools@.take(i as int)),
    {
        proof {
            reveal_with_fuel(Seq::<_>::filter, 1);
            assert(tools@.take(i + 1).drop_last() =~= tools@.take(i as int));
        }
        if !is_blocked_tool(tools[i].as_str()) {
            res.push(tools[i].clone());
        }
    }
    proof {
        assert(tools@.take(n as int) =~= tools@);
    }
    res
}

/// A child is never handed a blocked tool, and filtering never adds tools.
pub proof fn lemma_allowed_tools_never_blocked(tools: Seq<String>)
    ensures
        forall|i: int|
            0 <= i < spec_allowed_tools(tools).len() ==> !spec_is_blocked(
                #[trigger] spec_allowed_tools(tools)[i]@,
            ),
        spec_allowed_tools(tools).len() <= tools.len(),
{
    broadcast use vstd::seq_lib::group_filter_ensures;
}

/// Filtering an already filtered list changes nothing.
pub proof fn lemma_allowed_tools_idempotent(tools: Seq<String>)
    ensures
        spec_allowed_tools(spec_allowed_tools(tools)) == spec_allowed_tools(tools),
{
    let pred = |t: String| !spec_is_blocked(t@);
    let once = tools.filter(pred);
    broadcast use vstd::seq_lib::group_filter_ensures;
    assert(once.filter(pred) =~= once) by {
        lemma_filter_all_pass(once, pred);
    }
}

/// Filtering a list whose every element passes gives the list back.
proof fn lemma_filter_all_pass<A>(s: Seq<A>, pred: spec_fn(A) -> bool)
    requires
        forall|i: int| 0 <= i < s.len() ==> pred(#[trigger] s[i]),
    ensures
        s.filter(pred) == s,
    decreases s.len(),
{
    reveal_with_fuel(Seq::<_>::filter, 1);
    if s.len() > 0 {
        lemma_filter_all_pass(s.drop_last(), pred);
        assert(s.drop_last().filter(pred) =~= s.drop_last());
        assert(s.drop_last().push(s.last()) =~= s);
    } else {
        assert(s.filter(pred) =~= s);
    }
}

/// The tool names of `names` that a child may use, in their original order.
pub open spec fn spec_allowed_names(names: Seq<Seq<char>>) -> Seq<Seq<char>> {
    names.filter(|n: Seq<char>| !spec_is_blocked(n))
}

/// Filtering tools and then taking their names is taking their names and
/// then filtering the names.
pub proof fn lemma_allowed_tools_views(tools: Seq<String>)
    ensures
        string_views(spec_allowed_tools(tools)) == spec_allowed_names(string_views(tools)),
    decreases tools.len(),
{
    reveal_with_fuel(Seq::<_>::filter, 1);
    if tools.len() == 0 {
        assert(string_views(spec_allowed_tools(tools)) =~= spec_allowed_names(string_views(tools)));
    } else {
        let init = tools.drop_last();
        lemma_allowed_tools_views(init);
        assert(string_views(tools).drop_last() =~= string_views(init));
        assert(string_views(tools).last() == tools.last()@);
        if spec_is_blocked(tools.last()@) {
            assert(string_views(spec_allowed_tools(tools)) =~= string_views(spec_allowed_tools(init)));
        } else {
            assert(string_views(spec_allowed_tools(tools)) =~= string_views(spec_allowed_tools(init)).push(
                tools.last()@,
            ));
        }
    }
}

/// No blocked tool survives filtering by name.
pub proof fn lemma_allowed_names_never_blocked(names: Seq<Seq<char>>)
    ensures
        forall|i: int|
            0 <= i < spec_allowed_names(names).len() ==> !spec_is_blocked(#[trigger] spec_allowed_names(names)[i]),
{
    broadcast use vstd::seq_lib::group_filter_ensures;
}

} // verus!
