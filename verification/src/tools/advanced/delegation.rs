//! The delegate-task tool: spawns child agents with isolated context and
//! restricted tool sets, one at a time or as a batch, and reports what
//! they did.

use vstd::prelude::*;
use vstd::string::StringExecFns;
use tokio::sync::mpsc::{Receiver, Sender};
use crate::delegation::{
    filter_blocked_tools, lemma_allowed_names_never_blocked, lemma_allowed_tools_views, spec_allowed_names,
    spec_is_blocked, MAX_CONCURRENT_CHILDREN, MAX_DELEGATION_DEPTH,
};
use crate::delegation::subagent::{
    default_toolset_names, default_toolsets, agent_result_views, spec_agent_id, SubAgent,
    SubAgentConfig, SubAgentConfigView, SubAgentResult, SubAgentResultView, SubAgentStatus,
};
use crate::delegation::task::TaskQueue;
use crate::clock::{duration_millis, duration_millis_i64, elapsed_since, monotonic_now, utc_now_millis};
use crate::ids::{is_uuid_v4_text, random_uuid_text};
use crate::text::{clone_opt_string, clone_strings, decimal_string, opt_view, spec_decimal, string_views};
use crate::tools::ToolError;

verus! {

/// Input of the delegate-task tool: either one goal (with optional
/// context, tool sets and model) or a list of tasks.
#[derive(Debug, Clone)]
pub struct DelegateTaskInput {
    pub goal: Option<String>,
    pub context: Option<String>,
    pub toolsets: Option<Vec<String>>,
    pub model: Option<String>,
    pub tasks: Option<Vec<DelegateSubTask>>,
}

/// One task of a batch delegation.
#[derive(Debug, Clone)]
pub struct DelegateSubTask {
    pub goal: String,
    pub context: Option<String>,
    pub toolsets: Option<Vec<String>>,
    pub model: Option<String>,
}

/// The character contents of an optional list of strings.
pub open spec fn opt_string_views(o: Option<Vec<String>>) -> Option<Seq<Seq<char>>> {
    match o {
        Some(v) => Some(string_views(v@)),
        None => None,
    }
}

/// The contents of a [`DelegateSubTask`], strings taken as characters.
pub ghost struct DelegateSubTaskView {
    pub goal: Seq<char>,
    pub context: Option<Seq<char>>,
    pub toolsets: Option<Seq<Seq<char>>>,
    pub model: Option<Seq<char>>,
}

impl View for DelegateSubTask {
    type V = DelegateSubTaskView;

    open spec fn view(&self) -> DelegateSubTaskView {
        DelegateSubTaskView {
            goal: self.goal@,
            context: opt_view(self.context),
            toolsets: opt_string_views(self.toolsets),
            model: opt_view(self.model),
        }
    }
}

/// The contents of each sub-task.
pub open spec fn sub_task_views(tasks: Seq<DelegateSubTask>) -> Seq<DelegateSubTaskView> {
    tasks.map_values(|t: DelegateSubTask| t@)
}

/// What a batch delegation reports. Durations are whole milliseconds.
#[derive(Debug, Clone)]
pub struct DelegateTaskOutput {
    pub status: String,
    pub results: Vec<TaskSummary>,
    pub total_duration_ms: i128,
    pub completed_count: usize,
    pub failed_count: usize,
}

/// What one child did. Durations are whole milliseconds.
#[derive(Debug, Clone)]
pub struct TaskSummary {
    pub task_index: usize,
    pub status: String,
    pub summary: String,
    pub duration_ms: i64,
    pub tools_used: Vec<String>,
}

/// The contents of a [`TaskSummary`], strings taken as characters.
pub ghost struct TaskSummaryView {
    pub task_index: usize,
    pub status: Seq<char>,
    pub summary: Seq<char>,
    pub duration_ms: i64,
    pub tools_used: Seq<Seq<char>>,
}

impl View for TaskSummary {
    type V = TaskSummaryView;

    open spec fn view(&self) -> TaskSummaryView {
        TaskSummaryView {
            task_index: self.task_index,
            status: self.status@,
            summary: self.summary@,
            duration_ms: self.duration_ms,
            tools_used: string_views(self.tools_used@),
        }
    }
}

/// The contents of each summary.
pub open spec fn summary_views(s: Seq<TaskSummary>) -> Seq<TaskSummaryView> {
    s.map_values(|t: TaskSummary| t@)
}

/// What the tool hands back on success: a batch report, or the summary
/// of a single child.
#[derive(Debug)]
pub enum DelegateOutcome {
    Batch(DelegateTaskOutput),
    Single(TaskSummary),
}

/// Limits and defaults of the delegate-task tool.
#[derive(Debug, Clone)]
pub struct DelegationConfig {
    pub max_concurrent: usize,
    pub max_depth: usize,
    pub default_toolsets: Vec<String>,
    pub max_iterations: usize,
}

/// The contents of a [`DelegationConfig`].
pub ghost struct DelegationConfigView {
    pub max_concurrent: usize,
    pub max_depth: usize,
    pub default_toolsets: Seq<Seq<char>>,
    pub max_iterations: usize,
}

impl View for DelegationConfig {
    type V = DelegationConfigView;

    open spec fn view(&self) -> DelegationConfigView {
        DelegationConfigView {
            max_concurrent: self.max_concurrent,
            max_depth: self.max_depth,
            default_toolsets: string_views(self.default_toolsets@),
            max_iterations: self.max_iterations,
        }
    }
}

impl Default for DelegationConfig {
    fn default() -> (res: Self)
        ensures
            res@ == (DelegationConfigView {
                max_concurrent: MAX_CONCURRENT_CHILDREN,
                max_depth: MAX_DELEGATION_DEPTH,
                default_toolsets: default_toolset_names(),
                max_iterations: 50,
            }),
    {
        DelegationConfig {
            max_concurrent: MAX_CONCURRENT_CHILDREN,
            max_depth: MAX_DELEGATION_DEPTH,
            default_toolsets: default_toolsets(),
            max_iterations: 50,
        }
    }
}

#[verifier::external_type_specification]
#[verifier::external_body]
#[verifier::reject_recursive_types(T)]
pub struct ExSender<T>(Sender<T>);

#[verifier::external_type_specification]
#[verifier::external_body]
#[verifier::reject_recursive_types(T)]
pub struct ExReceiver<T>(Receiver<T>);

/// `tokio::sync::mpsc::channel(capacity)`: a bounded channel of unit
/// messages. Nothing is claimed of the two ends, which are opaque here;
/// `capacity` must be positive and at most tokio's semaphore limit
/// (`usize::MAX >> 3`), else tokio panics.
#[verifier::external_body]
fn unit_channel(capacity: usize) -> (Sender<()>, Receiver<()>)
    requires
        0 < capacity <= usize::MAX / 8,
{
    tokio::sync::mpsc::channel(capacity)
}

/// The cancel line to a running child: sending on it asks the child to stop.
#[derive(Debug)]
pub struct DelegationHandle {
    pub cancel_tx: Sender<()>,
}

impl DelegationHandle {
    /// A handle and the receiving end its child listens on.
    pub fn new() -> (DelegationHandle, Receiver<()>) {
        let (tx, rx) = unit_channel(1);
        (DelegationHandle { cancel_tx: tx }, rx)
    }
}

/// The delegate-task tool: its configuration and the children it has
/// spawned and not yet cancelled, keyed by agent identifier, no identifier
/// twice (the type's invariant). Beside them it
/// keeps, as ghost state, the identifier and configuration of every child
/// it has spawned, in order.
pub struct DelegationTool {
    config: DelegationConfig,
    active_subagents: Vec<(String, DelegationHandle)>,
    spawned: Ghost<Seq<(Seq<char>, SubAgentConfigView)>>,
}

/// The contents of a [`DelegationTool`].
pub ghost struct DelegationToolView {
    pub config: DelegationConfigView,
    pub active_agents: Seq<Seq<char>>,
    pub active_handles: Seq<DelegationHandle>,
    pub spawned: Seq<(Seq<char>, SubAgentConfigView)>,
}

/// The cancel handles of the active children, in insertion order.
pub open spec fn agent_handles(entries: Seq<(String, DelegationHandle)>) -> Seq<DelegationHandle> {
    entries.map_values(|e: (String, DelegationHandle)| e.1)
}

/// The agent identifiers of the active children, in insertion order.
pub open spec fn agent_keys(entries: Seq<(String, DelegationHandle)>) -> Seq<Seq<char>> {
    entries.map_values(|e: (String, DelegationHandle)| e.0@)
}

impl View for DelegationTool {
    type V = DelegationToolView;

    closed spec fn view(&self) -> DelegationToolView {
        DelegationToolView {
            config: self.config@,
            active_agents: agent_keys(self.active_subagents@),
            active_handles: agent_handles(self.active_subagents@),
            spawned: self.spawned@,
        }
    }
}

impl DelegationTool {
    /// No agent identifier is recorded twice.
    #[verifier::type_invariant]
    spec fn wf(&self) -> bool {
        agent_keys(self.active_subagents@).no_duplicates()
    }

    /// A tool with the default configuration and no children.
    pub fn new() -> (res: Self)
        ensures
            res@.config == DelegationConfig::default_view(),
            res@.active_agents == Seq::<Seq<char>>::empty(),
            res@.active_handles == Seq::<DelegationHandle>::empty(),
            res@.spawned == Seq::<(Seq<char>, SubAgentConfigView)>::empty(),
    {
        DelegationTool::with_config(DelegationConfig::default())
    }

    /// A tool with `config` and no children.
    pub fn with_config(config: DelegationConfig) -> (res: Self)
        ensures
            res@.config == config@,
            res@.active_agents == Seq::<Seq<char>>::empty(),
            res@.active_handles == Seq::<DelegationHandle>::empty(),
            res@.spawned == Seq::<(Seq<char>, SubAgentConfigView)>::empty(),
    {
        let res = DelegationTool { config, active_subagents: Vec::new(), spawned: Ghost(Seq::empty()) };
        assert(res@.active_agents =~= Seq::<Seq<char>>::empty());
        assert(res@.active_handles =~= Seq::<DelegationHandle>::empty());
        res
    }

    /// How many children a batch runs at most.
    pub fn max_concurrent(&self) -> (res: usize)
        ensures
            res == self@.config.max_concurrent,
    {
        self.config.max_concurrent
    }

    /// Records `handle` for child `agent_id`, replacing the handle recorded
    /// for that identifier, if any.
    fn insert_active(&mut self, agent_id: String, handle: DelegationHandle)
        ensures
            final(self)@.config == old(self)@.config,
            final(self)@.spawned == old(self)@.spawned,
            final(self)@.active_agents == if old(self)@.active_agents.contains(agent_id@) {
                old(self)@.active_agents
            } else {
                old(self)@.active_agents.push(agent_id@)
            },
            old(self)@.active_agents.contains(agent_id@) ==> exists|i: int|
                0 <= i < old(self)@.active_agents.len() && old(self)@.active_agents[i] == agent_id@
                    && final(self)@.active_handles == old(self)@.active_handles.update(i, handle),
            !old(self)@.active_agents.contains(agent_id@) ==> final(self)@.active_handles
                == old(self)@.active_handles.push(handle),
    {
        proof {
            use_type_invariant(&*self);
        }
        let ghost keys = old(self)@.active_agents;
        let mut entries: Vec<(String, DelegationHandle)> = Vec::new();
        std::mem::swap(&mut entries, &mut self.active_subagents);
        let n = entries.len();
        let mut i: usize = 0;
        while i < n
            invariant
                n == entries@.len(),
                i <= n,
                entries@ == old(self).active_subagents@,
                self.config == old(self).config,
                self.spawned == old(self).spawned,
                keys == agent_keys(entries@),
                keys.no_duplicates(),
                forall|j: int| 0 <= j < i ==> #[trigger] keys[j] != agent_id@,
            decreases n - i,
        {
            if entries[i].0 == agent_id {
                let ghost before = entries@;
                let ghost h = handle;
                entries.set(i, (agent_id, handle));
                assert(agent_keys(entries@) =~= keys);
                assert(agent_handles(entries@) =~= agent_handles(before).update(i as int, h));
                assert(keys.contains(keys[i as int]));
                self.active_subagents = entries;
                return;
            }
            i = i + 1;
        }
        let ghost h = handle;
        entries.push((agent_id, handle));
        assert(agent_keys(entries@) =~= keys.push(agent_id@));
        assert(agent_handles(entries@) =~= agent_handles(old(self).active_subagents@).push(h));
        assert(!keys.contains(agent_id@)) by {
            if keys.contains(agent_id@) {
                let k = choose|k: int| 0 <= k < keys.len() && keys[k] == agent_id@;
                assert(keys[k] != agent_id@);
            }
        }
        self.active_subagents = entries;
    }

    /// Forgets every active child and hands back their cancel handles, in
    /// the order they were recorded, so that the caller can send each a
    /// cancellation.
    pub fn cancel_all(&mut self) -> (res: Vec<DelegationHandle>)
        ensures
            final(self)@.config == old(self)@.config,
            final(self)@.spawned == old(self)@.spawned,
            final(self)@.active_agents == Seq::<Seq<char>>::empty(),
            final(self)@.active_handles == Seq::<DelegationHandle>::empty(),
            res@ == old(self)@.active_handles,
    {
        let mut entries: Vec<(String, DelegationHandle)> = Vec::new();
        std::mem::swap(&mut entries, &mut self.active_subagents);
        let ghost all = agent_handles(entries@);
        let mut res: Vec<DelegationHandle> = Vec::new();
        while entries.len() > 0
            invariant
                all == old(self)@.active_handles,
                res@ + agent_handles(entries@) == all,
            decreases entries@.len(),
        {
            let ghost before = entries@;
            let (_, handle) = entries.remove(0);
            assert(agent_handles(before) =~= seq![handle] + agent_handles(entries@));
            res.push(handle);
            assert(res@ + agent_handles(entries@) =~= all);
        }
        assert(agent_handles(entries@) =~= Seq::<DelegationHandle>::empty());
        assert(res@ =~= res@ + agent_handles(entries@));
        assert(agent_keys(self.active_subagents@) =~= Seq::<Seq<char>>::empty());
        assert(agent_handles(self.active_subagents@) =~= Seq::<DelegationHandle>::empty());
        res
    }
}

impl Default for DelegationTool {
    fn default() -> (res: Self)
        ensures
            res@.config == DelegationConfig::default_view(),
            res@.active_agents == Seq::<Seq<char>>::empty(),
            res@.active_handles == Seq::<DelegationHandle>::empty(),
            res@.spawned == Seq::<(Seq<char>, SubAgentConfigView)>::empty(),
    {
        DelegationTool::new()
    }
}

impl DelegationConfig {
    /// The contents of the default configuration.
    pub open spec fn default_view() -> DelegationConfigView {
        DelegationConfigView {
            max_concurrent: MAX_CONCURRENT_CHILDREN,
            max_depth: MAX_DELEGATION_DEPTH,
            default_toolsets: default_toolset_names(),
            max_iterations: 50,
        }
    }
}

/// How a child's status is reported.
pub open spec fn spec_status_label(s: SubAgentStatus) -> Seq<char> {
    match s {
        SubAgentStatus::Completed => "completed"@,
        SubAgentStatus::Failed => "failed"@,
        SubAgentStatus::Interrupted => "interrupted"@,
        _ => "unknown"@,
    }
}

/// `completed`, `failed`, `interrupted`, or `unknown` for a child still
/// pending or running.
pub fn status_label(s: SubAgentStatus) -> (res: &'static str)
    ensures
        res@ == spec_status_label(s),
{
    match s {
        SubAgentStatus::Completed => "completed",
        SubAgentStatus::Failed => "failed",
        SubAgentStatus::Interrupted => "interrupted",
        _ => "unknown",
    }
}

/// How many child results have status `status`.
pub open spec fn count_agent_status(results: Seq<SubAgentResultView>, status: SubAgentStatus) -> nat
    decreases results.len(),
{
    if results.len() == 0 {
        0
    } else {
        count_agent_status(results.drop_last(), status) + if results.last().status == status {
            1nat
        } else {
            0nat
        }
    }
}

/// The total duration of child results, in milliseconds.
pub open spec fn sum_agent_durations(results: Seq<SubAgentResultView>) -> int
    decreases results.len(),
{
    if results.len() == 0 {
        0
    } else {
        sum_agent_durations(results.drop_last()) + results.last().duration_ms
    }
}

/// The summary reported for one child result.
pub open spec fn spec_task_summary(r: SubAgentResultView) -> TaskSummaryView {
    TaskSummaryView {
        task_index: r.task_index,
        status: spec_status_label(r.status),
        summary: r.summary,
        duration_ms: r.duration_ms,
        tools_used: r.tools_used,
    }
}

/// The contents of a [`DelegateTaskOutput`].
pub ghost struct DelegateTaskOutputView {
    pub status: Seq<char>,
    pub results: Seq<TaskSummaryView>,
    pub total_duration_ms: int,
    pub completed_count: nat,
    pub failed_count: nat,
}

impl View for DelegateTaskOutput {
    type V = DelegateTaskOutputView;

    open spec fn view(&self) -> DelegateTaskOutputView {
        DelegateTaskOutputView {
            status: self.status@,
            results: summary_views(self.results@),
            total_duration_ms: self.total_duration_ms as int,
            completed_count: self.completed_count as nat,
            failed_count: self.failed_count as nat,
        }
    }
}

/// The report of a batch whose children produced `results`: one summary
/// per result in order, the total duration (at least one millisecond),
/// the completed and failed counts, and `success` when nothing failed,
/// `partial` otherwise.
pub open spec fn spec_batch_output(results: Seq<SubAgentResultView>) -> DelegateTaskOutputView {
    let failed = count_agent_status(results, SubAgentStatus::Failed);
    let total = sum_agent_durations(results);
    DelegateTaskOutputView {
        status: if failed == 0 {
            "success"@
        } else {
            "partial"@
        },
        results: results.map_values(|r: SubAgentResultView| spec_task_summary(r)),
        total_duration_ms: if total < 1 {
            1
        } else {
            total
        },
        completed_count: count_agent_status(results, SubAgentStatus::Completed),
        failed_count: failed,
    }
}

impl DelegateTaskOutput {
    /// The batch report for the children's results.
    pub fn from_results(results: Vec<SubAgentResult>) -> (res: Self)
        ensures
            res@ == spec_batch_output(agent_result_views(results@)),
            res.status@ == (if res.failed_count == 0 {
                "success"@
            } else {
                "partial"@
            }),
    {
        let ghost views = agent_result_views(results@);
        let ghost expected = views.map_values(|r: SubAgentResultView| spec_task_summary(r));
        let mut completed_count: usize = 0;
        let mut failed_count: usize = 0;
        let mut total: i128 = 0;
        let mut summaries: Vec<TaskSummary> = Vec::new();
        let n = results.len();
        for i in 0..n
            invariant
                n == results@.len(),
                views == agent_result_views(results@),
                expected == views.map_values(|r: SubAgentResultView| spec_task_summary(r)),
                summary_views(summaries@) == expected.take(i as int),
                completed_count == count_agent_status(views.take(i as int), SubAgentStatus::Completed),
                failed_count == count_agent_status(views.take(i as int), SubAgentStatus::Failed),
                completed_count <= i,
                failed_count <= i,
                total == sum_agent_durations(views.take(i as int)),
                -(i as int) * 0x8000_0000_0000_0000 <= total <= (i as int) * 0x7fff_ffff_ffff_ffff,
        {
            proof {
                assert(views.take(i + 1).drop_last() =~= views.take(i as int));
                assert(views[i as int] == results@[i as int]@);
            }
            let r = &results[i];
            if r.status == SubAgentStatus::Completed {
                completed_count = completed_count + 1;
            }
            if r.status == SubAgentStatus::Failed {
                failed_count = failed_count + 1;
            }
            total = total + r.duration_ms as i128;
            let tools_used = clone_strings(&r.tools_used);
            let summary = TaskSummary {
                task_index: r.task_index,
                status: String::from_str(status_label(r.status)),
                summary: r.summary.clone(),
                duration_ms: r.duration_ms,
                tools_used,
            };
            assert(summary@.tools_used =~= views[i as int].tools_used);
            let ghost before = summaries@;
            summaries.push(summary);
            assert(summary_views(summaries@) =~= summary_views(before).push(summary@));
            assert(summary_views(summaries@) =~= expected.take(i + 1));
        }
        proof {
            assert(views.take(n as int) =~= views);
            assert(expected.take(n as int) =~= expected);
        }
        if total < 1 {
            total = 1;
        }
        let status = if failed_count == 0 {
            String::from_str("success")
        } else {
            String::from_str("partial")
        };
        DelegateTaskOutput {
            status,
            results: summaries,
            total_duration_ms: total,
            completed_count,
            failed_count,
        }
    }
}

/// Counting results of one status is filtering them by that status.
proof fn lemma_count_is_filter_len(
    results: Seq<SubAgentResultView>,
    status: SubAgentStatus,
    pred: spec_fn(SubAgentResultView) -> bool,
)
    requires
        forall|r: SubAgentResultView| #[trigger] pred(r) == (r.status == status),
    ensures
        count_agent_status(results, status) == results.filter(pred).len(),
    decreases results.len(),
{
    reveal_with_fuel(Seq::<_>::filter, 1);
    if results.len() > 0 {
        lemma_count_is_filter_len(results.drop_last(), status, pred);
        assert(pred(results.last()) == (results.last().status == status));
    }
}

/// No result has `status` exactly when none is counted with it.
proof fn lemma_count_zero_iff_absent(results: Seq<SubAgentResultView>, status: SubAgentStatus)
    ensures
        (count_agent_status(results, status) == 0) == (forall|k: int|
            0 <= k < results.len() ==> #[trigger] results[k].status != status),
    decreases results.len(),
{
    if results.len() > 0 {
        let init = results.drop_last();
        lemma_count_zero_iff_absent(init, status);
        if count_agent_status(results, status) == 0 {
            assert forall|k: int| 0 <= k < results.len() implies #[trigger] results[k].status != status by {
                if k < results.len() - 1 {
                    assert(results[k] == init[k]);
                }
            }
        } else {
            if count_agent_status(init, status) == 0 {
                assert(results[results.len() - 1].status == status);
            } else {
                let k = choose|k: int| 0 <= k < init.len() && #[trigger] init[k].status == status;
                assert(results[k] == init[k]);
            }
        }
    }
}

/// Adding up the durations is folding them from the left.
proof fn lemma_sum_is_fold(results: Seq<SubAgentResultView>, step: spec_fn(int, SubAgentResultView) -> int)
    requires
        forall|acc: int, r: SubAgentResultView| #[trigger] step(acc, r) == acc + r.duration_ms,
    ensures
        sum_agent_durations(results) == results.fold_left(0int, step),
    decreases results.len(),
{
    if results.len() > 0 {
        lemma_sum_is_fold(results.drop_last(), step);
        let prev = results.drop_last().fold_left(0int, step);
        assert(step(prev, results.last()) == prev + results.last().duration_ms);
    }
}

/// A batch report holds each child's summary in order, under the child's
/// task index, summary, duration and tools, with its status as a word;
/// it counts as failed exactly the children that failed and as completed
/// exactly those that completed; it says `success` when no child failed
/// (whatever else the children did) and `partial` when one did; and its
/// total is the children's summed time, raised to one millisecond when
/// smaller.
pub proof fn lemma_batch_output_reports_children(results: Seq<SubAgentResultView>)
    ensures
        spec_batch_output(results).results.len() == results.len(),
        forall|k: int|
            0 <= k < results.len() ==> {
                let s = #[trigger] spec_batch_output(results).results[k];
                let r = results[k];
                &&& s.task_index == r.task_index
                &&& s.summary == r.summary
                &&& s.duration_ms == r.duration_ms
                &&& s.tools_used == r.tools_used
                &&& s.status == (if r.status == SubAgentStatus::Completed {
                    "completed"@
                } else if r.status == SubAgentStatus::Failed {
                    "failed"@
                } else if r.status == SubAgentStatus::Interrupted {
                    "interrupted"@
                } else {
                    "unknown"@
                })
            },
        spec_batch_output(results).failed_count == results.filter(
            |r: SubAgentResultView| r.status == SubAgentStatus::Failed,
        ).len(),
        spec_batch_output(results).completed_count == results.filter(
            |r: SubAgentResultView| r.status == SubAgentStatus::Completed,
        ).len(),
        (forall|k: int| 0 <= k < results.len() ==> #[trigger] results[k].status != SubAgentStatus::Failed)
            ==> spec_batch_output(results).status == "success"@,
        (exists|k: int| 0 <= k < results.len() && #[trigger] results[k].status == SubAgentStatus::Failed)
            ==> spec_batch_output(results).status == "partial"@,
        ({
            let total = results.fold_left(0int, |acc: int, r: SubAgentResultView| acc + r.duration_ms);
            spec_batch_output(results).total_duration_ms == if total < 1 {
                1
            } else {
                total
            }
        }),
{
    lemma_count_is_filter_len(
        results,
        SubAgentStatus::Failed,
        |r: SubAgentResultView| r.status == SubAgentStatus::Failed,
    );
    lemma_count_is_filter_len(
        results,
        SubAgentStatus::Completed,
        |r: SubAgentResultView| r.status == SubAgentStatus::Completed,
    );
    lemma_count_zero_iff_absent(results, SubAgentStatus::Failed);
    lemma_sum_is_fold(results, |acc: int, r: SubAgentResultView| acc + r.duration_ms);
}

/// The summary a single child reports when it finishes: `SubAgent <id> completed task`.
pub open spec fn spec_single_summary(agent_id: Seq<char>) -> Seq<char> {
    "SubAgent "@ + agent_id + " completed task"@
}

/// The summary the child for batch task `index` reports:
/// `SubAgent for task <index> completed`.
pub open spec fn spec_batch_summary(index: nat) -> Seq<char> {
    "SubAgent for task "@ + spec_decimal(index) + " completed"@
}

/// Whether `r` is what the child for batch task `index` reports: completed
/// after one call, with no tools, no interruption and no error.
pub open spec fn is_batch_child_result(r: SubAgentResultView, index: usize) -> bool {
    &&& r.task_index == index
    &&& r.status == SubAgentStatus::Completed
    &&& r.summary == spec_batch_summary(index as nat)
    &&& r.api_calls == 1
    &&& r.tools_used == Seq::<Seq<char>>::empty()
    &&& !r.interrupted
    &&& r.error is None
}

/// Whether `results` are what the children of a batch of `n` tasks report,
/// in task order.
pub open spec fn is_batch_run(results: Seq<SubAgentResultView>, n: nat) -> bool {
    &&& results.len() == n
    &&& forall|k: int| 0 <= k < n ==> is_batch_child_result(#[trigger] results[k], k as usize)
}

/// Whether `s` is what a single delegation reports for the child named
/// `subagent-<uuid>`: task 0, completed, no tools, a non-negative duration.
pub open spec fn is_single_report(s: TaskSummaryView, uuid: Seq<char>) -> bool {
    &&& s.task_index == 0
    &&& s.status == "completed"@
    &&& s.summary == spec_single_summary(spec_agent_id(uuid))
    &&& s.duration_ms >= 0
    &&& s.tools_used == Seq::<Seq<char>>::empty()
}

/// The active children after recording child `id`: unchanged when it is
/// already active, else `id` joins the end.
pub open spec fn spec_record(agents: Seq<Seq<char>>, id: Seq<char>) -> Seq<Seq<char>> {
    if agents.contains(id) {
        agents
    } else {
        agents.push(id)
    }
}

/// The active children after recording each of `ids` in turn.
pub open spec fn spec_record_all(agents: Seq<Seq<char>>, ids: Seq<Seq<char>>) -> Seq<Seq<char>>
    decreases ids.len(),
{
    if ids.len() == 0 {
        agents
    } else {
        spec_record(spec_record_all(agents, ids.drop_last()), ids.last())
    }
}

/// The identifiers of children named by `uuids`.
pub open spec fn child_ids(uuids: Seq<Seq<char>>) -> Seq<Seq<char>> {
    uuids.map_values(|u: Seq<char>| spec_agent_id(u))
}

/// The model a child gets when its task names none: the first default tool
/// set, if there is one.
pub open spec fn spec_default_model(cfg: DelegationConfigView) -> Option<Seq<char>> {
    if cfg.default_toolsets.len() > 0 {
        Some(cfg.default_toolsets[0])
    } else {
        None
    }
}

/// How the child for batch task `index` is configured: the task's goal and
/// context, its tool sets (or the defaults) less the blocked tools, its
/// model (or the default model), the tool's iteration limit, no workspace
/// path, the batch's parent and the task's index.
pub open spec fn spec_batch_child_config(
    cfg: DelegationConfigView,
    task: DelegateSubTaskView,
    index: usize,
    parent_id: Option<Seq<char>>,
) -> SubAgentConfigView {
    SubAgentConfigView {
        goal: task.goal,
        context: task.context,
        toolsets: spec_allowed_names(
            match task.toolsets {
                Some(t) => t,
                None => cfg.default_toolsets,
            },
        ),
        model: match task.model {
            Some(m) => Some(m),
            None => spec_default_model(cfg),
        },
        max_iterations: cfg.max_iterations,
        workspace_path: None,
        parent_id,
        task_index: index,
    }
}

/// How the child of a single delegation is configured: the goal, context
/// and model given, the tool sets given less the blocked tools, the tool's
/// iteration limit, no workspace path, the parent given, and task 0.
pub open spec fn spec_single_child_config(
    cfg: DelegationConfigView,
    goal: Seq<char>,
    context: Option<Seq<char>>,
    toolsets: Seq<Seq<char>>,
    model: Option<Seq<char>>,
    parent_id: Option<Seq<char>>,
) -> SubAgentConfigView {
    SubAgentConfigView {
        goal,
        context,
        toolsets: spec_allowed_names(toolsets),
        model,
        max_iterations: cfg.max_iterations,
        workspace_path: None,
        parent_id,
        task_index: 0,
    }
}

/// The children a batch of `n` tasks spawns, as identifier and
/// configuration, in task order.
pub open spec fn spec_batch_children(
    cfg: DelegationConfigView,
    tasks: Seq<DelegateSubTaskView>,
    parent_id: Option<Seq<char>>,
    uuids: Seq<Seq<char>>,
    n: nat,
) -> Seq<(Seq<char>, SubAgentConfigView)> {
    Seq::new(n, |k: int| (spec_agent_id(uuids[k]), spec_batch_child_config(cfg, tasks[k], k as usize, parent_id)))
}

/// Whether the tool went from `before` to `after` by spawning the children
/// of a batch of `n` tasks named by `uuids`, recording each as active.
pub open spec fn is_batch_spawn(
    before: DelegationToolView,
    after: DelegationToolView,
    tasks: Seq<DelegateSubTaskView>,
    parent_id: Option<Seq<char>>,
    uuids: Seq<Seq<char>>,
    n: nat,
) -> bool {
    &&& after.config == before.config
    &&& after.active_agents == spec_record_all(before.active_agents, child_ids(uuids.take(n as int)))
    &&& after.spawned == before.spawned + spec_batch_children(before.config, tasks, parent_id, uuids, n)
}

/// Every child of a batch is given only allowed tools.
pub proof fn lemma_batch_child_tools_allowed(
    cfg: DelegationConfigView,
    task: DelegateSubTaskView,
    index: usize,
    parent_id: Option<Seq<char>>,
)
    ensures
        forall|i: int|
            0 <= i < spec_batch_child_config(cfg, task, index, parent_id).toolsets.len() ==> !spec_is_blocked(
                #[trigger] spec_batch_child_config(cfg, task, index, parent_id).toolsets[i],
            ),
{
    lemma_allowed_names_never_blocked(
        match task.toolsets {
            Some(t) => t,
            None => cfg.default_toolsets,
        },
    );
}

/// The child of a single delegation is given only allowed tools.
pub proof fn lemma_single_child_tools_allowed(
    cfg: DelegationConfigView,
    goal: Seq<char>,
    context: Option<Seq<char>>,
    toolsets: Seq<Seq<char>>,
    model: Option<Seq<char>>,
    parent_id: Option<Seq<char>>,
)
    ensures
        forall|i: int|
            0 <= i < spec_single_child_config(cfg, goal, context, toolsets, model, parent_id).toolsets.len()
                ==> !spec_is_blocked(
                #[trigger] spec_single_child_config(cfg, goal, context, toolsets, model, parent_id).toolsets[i],
            ),
{
    lemma_allowed_names_never_blocked(toolsets);
}

/// The smaller of two sizes.
pub open spec fn min_nat(a: nat, b: nat) -> nat {
    if a <= b {
        a
    } else {
        b
    }
}

/// Whether results are ordered by task index.
pub open spec fn sorted_by_task_index(s: Seq<SubAgentResult>) -> bool {
    forall|a: int, b: int| 0 <= a <= b < s.len() ==> #[trigger] s[a].task_index <= #[trigger] s[b].task_index
}

/// Whether the children of a batch come in order of their task index.
pub open spec fn indices_sorted(h: Seq<(usize, SubAgent)>) -> bool {
    forall|a: int, b: int| 0 <= a <= b < h.len() ==> #[trigger] h[a].0 <= #[trigger] h[b].0
}

/// Whether `produced[k]` is what the child `handles[k]` reports, for each `k`:
/// completed after one call, with the time that child has run.
pub open spec fn produced_by(handles: Seq<(usize, SubAgent)>, produced: Seq<SubAgentResult>) -> bool {
    &&& produced.len() == handles.len()
    &&& forall|k: int|
        0 <= k < handles.len() ==> is_batch_child_result((#[trigger] produced[k])@, handles[k].0)
            && handles[k].1.is_elapsed_reading(produced[k].duration_ms)
}

/// Moving the element at `j` one place to the left keeps the multiset.
proof fn lemma_move_left_multiset(s: Seq<SubAgentResult>, j: int)
    requires
        0 < j < s.len(),
    ensures
        s.remove(j).insert(j - 1, s[j]).to_multiset() == s.to_multiset(),
{
    broadcast use vstd::seq_lib::group_to_multiset_ensures;
    let t = s.remove(j).insert(j - 1, s[j]);
    assert(t.remove(j - 1) =~= s.remove(j));
    assert(t[j - 1] == s[j]);
    assert(t.contains(s[j]));
    assert(s.contains(s[j]));
    let x = s[j];
    assert(t.to_multiset().remove(x) == s.to_multiset().remove(x));
    assert(t.to_multiset() =~= s.to_multiset()) by {
        assert forall|y: SubAgentResult| t.to_multiset().count(y) == s.to_multiset().count(y) by {
            if y != x {
                assert(t.to_multiset().remove(x).count(y) == t.to_multiset().count(y));
                assert(s.to_multiset().remove(x).count(y) == s.to_multiset().count(y));
            } else {
                assert(t.to_multiset().count(x) > 0);
                assert(s.to_multiset().count(x) > 0);
            }
        }
    }
}

/// Whether `res` is `src` reordered by `perm` (`res[k]` is `src[perm[k]]`,
/// each position used once) with results of equal task index kept in
/// their order in `src`.
pub open spec fn is_stable_reorder(res: Seq<SubAgentResult>, src: Seq<SubAgentResult>, perm: Seq<int>) -> bool {
    &&& res.len() == src.len()
    &&& perm.len() == res.len()
    &&& forall|k: int| 0 <= k < res.len() ==> 0 <= #[trigger] perm[k] < src.len() && res[k] == src[perm[k]]
    &&& forall|a: int, b: int| 0 <= a < b < res.len() ==> #[trigger] perm[a] != #[trigger] perm[b]
    &&& forall|a: int, b: int|
        0 <= a < b < res.len() && #[trigger] res[a].task_index == #[trigger] res[b].task_index ==> perm[a]
            < perm[b]
}

/// Exchanging neighbours `j - 1` and `j`, whose task indices are out of
/// order, keeps a stable reordering stable.
proof fn lemma_swap_keeps_stable_reorder(
    before: Seq<SubAgentResult>,
    after: Seq<SubAgentResult>,
    src: Seq<SubAgentResult>,
    old_perm: Seq<int>,
    new_perm: Seq<int>,
    j: int,
)
    requires
        0 < j < before.len(),
        is_stable_reorder(before, src, old_perm),
        before[j - 1].task_index > before[j].task_index,
        after.len() == before.len(),
        after[j - 1] == before[j],
        after[j] == before[j - 1],
        forall|k: int| 0 <= k < before.len() && k != j - 1 && k != j ==> after[k] == before[k],
        new_perm == old_perm.update(j - 1, old_perm[j]).update(j, old_perm[j - 1]),
    ensures
        is_stable_reorder(after, src, new_perm),
{
    let n = before.len();
    let swap = |k: int| if k == j - 1 { j } else if k == j { j - 1 } else { k };
    assert forall|k: int| 0 <= k < n implies new_perm[k] == old_perm[swap(k)] && after[k] == before[swap(k)] by {}
    assert forall|a: int, b: int| 0 <= a < b < n implies #[trigger] new_perm[a] != #[trigger] new_perm[b] by {
        let (x, y) = (swap(a), swap(b));
        assert(x != y);
        if x < y {
            assert(old_perm[x] != old_perm[y]);
        } else {
            assert(old_perm[y] != old_perm[x]);
        }
    }
    assert forall|a: int, b: int|
        0 <= a < b < n && #[trigger] after[a].task_index == #[trigger] after[b].task_index implies new_perm[a]
        < new_perm[b] by {
        let (x, y) = (swap(a), swap(b));
        if a == j - 1 && b == j {
        } else {
            assert(x < y);
            assert(before[x].task_index == before[y].task_index);
        }
    }
}

/// Sorts results by task index, keeping the order of equal indices
/// (insertion sort).
fn sort_by_task_index(v: &mut Vec<SubAgentResult>)
    ensures
        final(v)@.len() == old(v)@.len(),
        final(v)@.to_multiset() == old(v)@.to_multiset(),
        sorted_by_task_index(final(v)@),
        exists|perm: Seq<int>| #[trigger] is_stable_reorder(final(v)@, old(v)@, perm),
        sorted_by_task_index(old(v)@) ==> final(v)@ == old(v)@,
{
    let ghost orig = v@;
    let ghost mut perm: Seq<int> = Seq::new(v@.len(), |k: int| k);
    assert(is_stable_reorder(v@, orig, perm));
    let n = v.len();
    if n == 0 {
        return;
    }
    let mut i: usize = 1;
    while i < n
        invariant
            1 <= i <= n,
            n == v@.len(),
            v@.to_multiset() == orig.to_multiset(),
            is_stable_reorder(v@, orig, perm),
            forall|a: int, b: int| 0 <= a <= b < i ==> #[trigger] v@[a].task_index <= #[trigger] v@[b].task_index,
            sorted_by_task_index(orig) ==> v@ == orig,
        decreases n - i,
    {
        let mut j: usize = i;
        while j > 0 && v[j - 1].task_index > v[j].task_index
            invariant
                0 <= j <= i < n,
                n == v@.len(),
                v@.to_multiset() == orig.to_multiset(),
                is_stable_reorder(v@, orig, perm),
                forall|a: int, b: int|
                    0 <= a <= b <= i && a != j && b != j ==> #[trigger] v@[a].task_index
                        <= #[trigger] v@[b].task_index,
                forall|b: int| j < b <= i ==> v@[j as int].task_index < #[trigger] v@[b].task_index,
                sorted_by_task_index(orig) ==> (v@ == orig && j == i),
            decreases j,
        {
            proof {
                if sorted_by_task_index(orig) {
                    assert(orig[j - 1].task_index <= orig[j as int].task_index);
                }
                lemma_move_left_multiset(v@, j as int);
            }
            let ghost before = v@;
            let moved = v.remove(j);
            v.insert(j - 1, moved);
            assert(v@ =~= before.remove(j as int).insert(j - 1, before[j as int]));
            assert(v@[j - 1] == before[j as int]);
            assert(v@[j as int] == before[j - 1]);
            assert(forall|k: int| 0 <= k < n && k != j - 1 && k != j ==> v@[k] == before[k]);
            proof {
                let old_perm = perm;
                perm = old_perm.update(j - 1, old_perm[j as int]).update(j as int, old_perm[j - 1]);
                lemma_swap_keeps_stable_reorder(before, v@, orig, old_perm, perm, j as int);
            }
            j = j - 1;
        }
        i = i + 1;
    }
}

/// The error reported when the system's random source cannot supply an
/// identifier.
pub open spec fn random_error_message() -> Seq<char> {
    "could not retrieve random bytes for uuid"@
}

fn random_source_error() -> (e: ToolError)
    ensures
        e.is(random_error_message(), "random_unavailable"@),
{
    ToolError {
        message: String::from_str("could not retrieve random bytes for uuid"),
        code: Some(String::from_str("random_unavailable")),
    }
}

impl DelegationTool {
    /// The identifier of the team named by `uuid`: `team-<uuid>`.
    fn generate_team_id(&self, uuid: String) -> (res: String)
        ensures
            res@ == "team-"@ + uuid@,
    {
        String::from_str("team-").concat(uuid.as_str())
    }

    /// Runs one child: it reports completion after one call, with the time
    /// it has run so far.
    fn run_subagent(&self, subagent: SubAgent) -> (res: Result<SubAgentResult, ToolError>)
        requires
            subagent.wf(),
        ensures
            res is Ok,
            ({
                let r = res->Ok_0;
                &&& r.task_index == subagent.config.task_index
                &&& r.status == SubAgentStatus::Completed
                &&& r.summary@ == spec_single_summary(subagent.agent_id@)
                &&& subagent.is_elapsed_reading(r.duration_ms)
                &&& r.api_calls == 1
                &&& r.tools_used@ == Seq::<String>::empty()
                &&& !r.interrupted
                &&& r.error is None
            }),
    {
        let _system_prompt = subagent.build_system_prompt();
        let duration_ms = subagent.elapsed_millis();
        let summary = String::from_str("SubAgent ").concat(subagent.agent_id.as_str()).concat(
            " completed task",
        );
        Ok(
            SubAgentResult {
                task_index: subagent.config.task_index,
                status: SubAgentStatus::Completed,
                summary,
                duration_ms,
                api_calls: 1,
                tools_used: Vec::new(),
                interrupted: false,
                error: None,
            },
        )
    }

    /// Runs the children of a batch, each reporting completion after one
    /// call with the time it has run so far, and returns their results
    /// ordered by task index, results of equal index in the order given.
    fn run_parallel(&self, handles: Vec<(usize, SubAgent)>) -> (res: Vec<SubAgentResult>)
        requires
            forall|k: int| 0 <= k < handles@.len() ==> (#[trigger] handles@[k]).1.wf(),
        ensures
            res@.len() == handles@.len(),
            sorted_by_task_index(res@),
            exists|produced: Seq<SubAgentResult>|
                {
                    &&& #[trigger] produced_by(handles@, produced)
                    &&& res@.to_multiset() == produced.to_multiset()
                    &&& exists|perm: Seq<int>| #[trigger] is_stable_reorder(res@, produced, perm)
                    &&& indices_sorted(handles@) ==> res@ == produced
                },
    {
        let mut results: Vec<SubAgentResult> = Vec::new();
        let n = handles.len();
        for k in 0..n
            invariant
                n == handles@.len(),
                forall|j: int| 0 <= j < handles@.len() ==> (#[trigger] handles@[j]).1.wf(),
                results@.len() == k,
                forall|j: int|
                    0 <= j < k ==> is_batch_child_result((#[trigger] results@[j])@, handles@[j].0)
                        && handles@[j].1.is_elapsed_reading(results@[j].duration_ms),
        {
            let i = handles[k].0;
            let subagent = &handles[k].1;
            let _system_prompt = subagent.build_system_prompt();
            let duration_ms = subagent.elapsed_millis();
            let summary = String::from_str("SubAgent for task ").concat(decimal_string(i).as_str()).concat(
                " completed",
            );
            let r = SubAgentResult {
                task_index: i,
                status: SubAgentStatus::Completed,
                summary,
                duration_ms,
                api_calls: 1,
                tools_used: Vec::new(),
                interrupted: false,
                error: None,
            };
            assert(r@.tools_used =~= Seq::<Seq<char>>::empty());
            results.push(r);
        }
        let ghost produced = results@;
        assert(produced_by(handles@, produced));
        proof {
            if indices_sorted(handles@) {
                assert forall|a: int, b: int| 0 <= a <= b < produced.len() implies #[trigger] produced[a].task_index
                    <= #[trigger] produced[b].task_index by {
                    assert(is_batch_child_result(produced[a]@, handles@[a].0));
                    assert(is_batch_child_result(produced[b]@, handles@[b].0));
                    assert(handles@[a].0 <= handles@[b].0);
                }
            }
        }
        sort_by_task_index(&mut results);
        results
    }

    /// The configuration of the child for batch task `index`.
    fn child_config(&self, task: &DelegateSubTask, index: usize, parent_id: &Option<String>) -> (res:
        SubAgentConfig)
        ensures
            res@ == spec_batch_child_config(self@.config, task@, index, opt_view(*parent_id)),
    {
        let toolsets = match &task.toolsets {
            Some(t) => clone_strings(t),
            None => clone_strings(&self.config.default_toolsets),
        };
        let model = match &task.model {
            Some(m) => Some(m.clone()),
            None => if self.config.default_toolsets.len() > 0 {
                Some(self.config.default_toolsets[0].clone())
            } else {
                None
            },
        };
        let allowed = filter_blocked_tools(toolsets.as_slice());
        proof {
            lemma_allowed_tools_views(toolsets@);
        }
        SubAgentConfig {
            goal: task.goal.clone(),
            context: clone_opt_string(&task.context),
            toolsets: allowed,
            model,
            max_iterations: self.config.max_iterations,
            workspace_path: None,
            parent_id: clone_opt_string(parent_id),
            task_index: index,
        }
    }

    /// Creates the child `subagent-<uuid>` with `config` now, marks it
    /// running, and records it as active with a fresh cancel handle.
    fn spawn_child(&mut self, config: SubAgentConfig, uuid: String) -> (res: SubAgent)
        ensures
            res.wf(),
            res.agent_id@ == spec_agent_id(uuid@),
            res.config == config,
            final(self)@.config == old(self)@.config,
            final(self)@.active_agents == spec_record(old(self)@.active_agents, spec_agent_id(uuid@)),
            final(self)@.spawned == old(self)@.spawned.push((spec_agent_id(uuid@), config@)),
    {
        let ghost entry = (spec_agent_id(uuid@), config@);
        let created_at = utc_now_millis();
        let mut subagent = SubAgent::from_parts(config, uuid, created_at);
        subagent.mark_running();
        let (handle, _cancel_rx) = DelegationHandle::new();
        let agent_id = subagent.agent_id.clone();
        self.insert_active(agent_id, handle);
        proof {
            use_type_invariant(&*self);
            self.spawned@ = self.spawned@.push(entry);
        }
        subagent
    }

    /// Runs a batch whose team and children are named by the given UUIDs:
    /// spawns a child for each of the first `max_concurrent` tasks, records
    /// each as active, runs them, and reports the batch.
    pub fn run_batch(
        &mut self,
        tasks: Vec<DelegateSubTask>,
        parent_id: Option<String>,
        team_uuid: String,
        child_uuids: Vec<String>,
    ) -> (res: DelegateTaskOutput)
        requires
            child_uuids@.len() >= min_nat(old(self)@.config.max_concurrent as nat, tasks@.len()),
        ensures
            is_batch_spawn(
                old(self)@,
                final(self)@,
                sub_task_views(tasks@),
                opt_view(parent_id),
                string_views(child_uuids@),
                min_nat(old(self)@.config.max_concurrent as nat, tasks@.len()),
            ),
            exists|rs: Seq<SubAgentResultView>|
                is_batch_run(rs, min_nat(old(self)@.config.max_concurrent as nat, tasks@.len()))
                    && res@ == spec_batch_output(rs),
    {
        let ghost task_views = sub_task_views(tasks@);
        let ghost parent = opt_view(parent_id);
        let ghost uuids = string_views(child_uuids@);
        let ghost cfg = old(self)@.config;
        let team_id = self.generate_team_id(team_uuid);
        let _task_queue = TaskQueue::new(team_id);
        let max_concurrent = if self.config.max_concurrent <= tasks.len() {
            self.config.max_concurrent
        } else {
            tasks.len()
        };
        let mut handles: Vec<(usize, SubAgent)> = Vec::new();
        for i in 0..max_concurrent
            invariant
                max_concurrent <= tasks@.len(),
                max_concurrent <= child_uuids@.len(),
                max_concurrent == min_nat(cfg.max_concurrent as nat, tasks@.len()),
                cfg == old(self)@.config,
                task_views == sub_task_views(tasks@),
                parent == opt_view(parent_id),
                uuids == string_views(child_uuids@),
                self@.config == cfg,
                self@.active_agents == spec_record_all(
                    old(self)@.active_agents,
                    child_ids(uuids.take(i as int)),
                ),
                self@.spawned == old(self)@.spawned + spec_batch_children(cfg, task_views, parent, uuids, i as nat),
                handles@.len() == i,
                forall|k: int| 0 <= k < i ==> (#[trigger] handles@[k]).0 == k && handles@[k].1.wf(),
        {
            let config = self.child_config(&tasks[i], i, &parent_id);
            let uuid = child_uuids[i].clone();
            let ghost before_agents = self@.active_agents;
            let ghost before_spawned = self@.spawned;
            let subagent = self.spawn_child(config, uuid);
            proof {
                assert(task_views[i as int] == tasks@[i as int]@);
                assert(uuids[i as int] == child_uuids@[i as int]@);
                let ids = child_ids(uuids.take(i + 1));
                assert(ids.drop_last() =~= child_ids(uuids.take(i as int)));
                assert(ids.last() == spec_agent_id(uuids[i as int]));
                assert(spec_batch_children(cfg, task_views, parent, uuids, (i + 1) as nat) =~= spec_batch_children(
                    cfg,
                    task_views,
                    parent,
                    uuids,
                    i as nat,
                ).push((spec_agent_id(uuids[i as int]), spec_batch_child_config(cfg, task_views[i as int], i, parent))));
                assert(self@.spawned =~= old(self)@.spawned + spec_batch_children(
                    cfg,
                    task_views,
                    parent,
                    uuids,
                    (i + 1) as nat,
                ));
            }
            handles.push((i, subagent));
        }
        proof {
            assert(indices_sorted(handles@)) by {
                assert forall|a: int, b: int| 0 <= a <= b < handles@.len() implies #[trigger] handles@[a].0
                    <= #[trigger] handles@[b].0 by {
                    assert(handles@[a].0 == a);
                    assert(handles@[b].0 == b);
                }
            }
        }
        let results = self.run_parallel(handles);
        let ghost rs = agent_result_views(results@);
        proof {
            assert forall|k: int| 0 <= k < max_concurrent implies is_batch_child_result(#[trigger] rs[k], k as usize) by {
                assert(rs[k] == results@[k]@);
            }
        }
        let output = DelegateTaskOutput::from_results(results);
        assert(is_batch_run(rs, max_concurrent as nat));
        output
    }

    /// Runs one goal in the child named by `uuid`, with the allowed part of
    /// `toolsets`, and reports it as task 0 with the time the run took.
    pub fn run_single(
        &mut self,
        goal: String,
        context: Option<String>,
        toolsets: Vec<String>,
        model: Option<String>,
        parent_id: Option<String>,
        uuid: String,
    ) -> (res: TaskSummary)
        ensures
            is_single_report(res@, uuid@),
            final(self)@ == (DelegationToolView {
                spawned: old(self)@.spawned.push(
                    (
                        spec_agent_id(uuid@),
                        spec_single_child_config(
                            old(self)@.config,
                            goal@,
                            opt_view(context),
                            string_views(toolsets@),
                            opt_view(model),
                            opt_view(parent_id),
                        ),
                    ),
                ),
                ..old(self)@
            }),
    {
        let ghost uuid_view = uuid@;
        let allowed = filter_blocked_tools(toolsets.as_slice());
        proof {
            lemma_allowed_tools_views(toolsets@);
        }
        let subagent_config = SubAgentConfig {
            goal,
            context,
            toolsets: allowed,
            model,
            max_iterations: self.config.max_iterations,
            workspace_path: None,
            parent_id,
            task_index: 0,
        };
        let ghost entry = (spec_agent_id(uuid@), subagent_config@);
        let created_at = utc_now_millis();
        let mut subagent = SubAgent::from_parts(subagent_config, uuid, created_at);
        subagent.mark_running();
        proof {
            use_type_invariant(&*self);
            self.spawned@ = self.spawned@.push(entry);
        }
        let start_time = monotonic_now();
        let result = self.run_subagent(subagent);
        let elapsed = elapsed_since(&start_time);
        let duration_ms = duration_millis_i64(duration_millis(&elapsed));
        match result {
            Ok(r) => {
                let tools_used = r.tools_used;
                let summary = TaskSummary {
                    task_index: 0,
                    status: String::from_str(status_label(r.status)),
                    summary: r.summary,
                    duration_ms,
                    tools_used,
                };
                assert(summary@.tools_used =~= Seq::<Seq<char>>::empty());
                summary
            },
            Err(e) => TaskSummary {
                task_index: 0,
                status: String::from_str("failed"),
                summary: String::from_str("Error: ").concat(e.message.as_str()),
                duration_ms,
                tools_used: Vec::new(),
            },
        }
    }

    /// Delegates one goal to a freshly named child (see
    /// [`DelegationTool::run_single`]); fails, changing nothing, only when
    /// the system's random source cannot name the child.
    fn handle_delegate_single(
        &mut self,
        goal: String,
        context: Option<String>,
        toolsets: Vec<String>,
        model: Option<String>,
        parent_id: Option<String>,
    ) -> (res: Result<TaskSummary, ToolError>)
        ensures
            res matches Ok(s) ==> exists|u: Seq<char>|
                is_uuid_v4_text(u) && is_single_report(s@, u) && final(self)@ == (DelegationToolView {
                    spawned: old(self)@.spawned.push(
                        (
                            spec_agent_id(u),
                            spec_single_child_config(
                                old(self)@.config,
                                goal@,
                                opt_view(context),
                                string_views(toolsets@),
                                opt_view(model),
                                opt_view(parent_id),
                            ),
                        ),
                    ),
                    ..old(self)@
                }),
            res matches Err(e) ==> e.is(random_error_message(), "random_unavailable"@) && final(self)@
                == old(self)@,
    {
        match random_uuid_text() {
            Some(uuid) => Ok(self.run_single(goal, context, toolsets, model, parent_id, uuid)),
            None => Err(random_source_error()),
        }
    }

    /// Names the team and the children of a batch from the system's random
    /// source, then runs it (see [`DelegationTool::run_batch`]); fails,
    /// changing nothing, only when the random source cannot supply a name.
    fn handle_delegate_batch(&mut self, tasks: Vec<DelegateSubTask>, parent_id: Option<String>) -> (res:
        Result<DelegateTaskOutput, ToolError>)
        ensures
            res is Ok ==> exists|uuids: Seq<Seq<char>>|
                (forall|k: int| 0 <= k < uuids.len() ==> is_uuid_v4_text(#[trigger] uuids[k]))
                    && uuids.len() == min_nat(old(self)@.config.max_concurrent as nat, tasks@.len())
                    && is_batch_spawn(
                    old(self)@,
                    final(self)@,
                    sub_task_views(tasks@),
                    opt_view(parent_id),
                    uuids,
                    uuids.len(),
                ),
            res is Ok ==> exists|rs: Seq<SubAgentResultView>|
                is_batch_run(rs, min_nat(old(self)@.config.max_concurrent as nat, tasks@.len()))
                    && res->Ok_0@ == spec_batch_output(rs),
            res matches Err(e) ==> e.is(random_error_message(), "random_unavailable"@) && final(self)@
                == old(self)@,
    {
        let max_concurrent = if self.config.max_concurrent <= tasks.len() {
            self.config.max_concurrent
        } else {
            tasks.len()
        };
        let team_uuid = match random_uuid_text() {
            Some(u) => u,
            None => return Err(random_source_error()),
        };
        let mut child_uuids: Vec<String> = Vec::new();
        for i in 0..max_concurrent
            invariant
                self@ == old(self)@,
                child_uuids@.len() == i,
                forall|k: int| 0 <= k < i ==> is_uuid_v4_text(#[trigger] child_uuids@[k]@),
        {
            match random_uuid_text() {
                Some(u) => child_uuids.push(u),
                None => return Err(random_source_error()),
            }
        }
        let ghost uuids = string_views(child_uuids@);
        assert(forall|k: int| 0 <= k < uuids.len() ==> #[trigger] uuids[k] == child_uuids@[k]@);
        assert(uuids.take(uuids.len() as int) =~= uuids);
        Ok(self.run_batch(tasks, parent_id, team_uuid, child_uuids))
    }

    /// Runs a non-empty task list as a batch (see
    /// [`DelegationTool::handle_delegate_batch`]).
    fn execute_batch(&mut self, tasks: Vec<DelegateSubTask>) -> (res: Result<DelegateOutcome, ToolError>)
        ensures
            is_batch_outcome(old(self)@, final(self)@, sub_task_views(tasks@), res),
    {
        let max_concurrent = if self.config.max_concurrent <= tasks.len() {
            self.config.max_concurrent
        } else {
            tasks.len()
        };
        let ghost views = sub_task_views(tasks@);
        let mut truncated = tasks;
        truncated.truncate(max_concurrent);
        let ghost n = max_concurrent as nat;
        assert(sub_task_views(truncated@) =~= views.take(max_concurrent as int));
        let output = self.handle_delegate_batch(truncated, None);
        proof {
            if output is Ok {
                let uuids = choose|uuids: Seq<Seq<char>>|
                    (forall|k: int| 0 <= k < uuids.len() ==> is_uuid_v4_text(#[trigger] uuids[k]))
                        && uuids.len() == n && is_batch_spawn(
                        old(self)@,
                        self@,
                        views.take(max_concurrent as int),
                        None,
                        uuids,
                        uuids.len(),
                    );
                assert(spec_batch_children(old(self)@.config, views.take(max_concurrent as int), None, uuids, n)
                    =~= spec_batch_children(old(self)@.config, views, None, uuids, n));
                assert(is_batch_spawn(old(self)@, self@, views, None, uuids, n));
            }
        }
        match output {
            Ok(output) => Ok(DelegateOutcome::Batch(output)),
            Err(e) => Err(e),
        }
    }

    /// Runs one goal (see [`DelegationTool::handle_delegate_single`]) with the
    /// given tool sets, or the defaults.
    fn execute_single(
        &mut self,
        goal: String,
        context: Option<String>,
        toolsets: Option<Vec<String>>,
        model: Option<String>,
    ) -> (res: Result<DelegateOutcome, ToolError>)
        ensures
            is_single_outcome(
                old(self)@,
                final(self)@,
                goal@,
                opt_view(context),
                opt_string_views(toolsets),
                opt_view(model),
                res,
            ),
    {
        let toolsets = match toolsets {
            Some(t) => t,
            None => {
                let d = clone_strings(&self.config.default_toolsets);
                assert(string_views(d@) =~= self@.config.default_toolsets);
                d
            },
        };
        let summary = self.handle_delegate_single(goal, context, toolsets, model, None);
        match summary {
            Ok(summary) => Ok(DelegateOutcome::Single(summary)),
            Err(e) => Err(e),
        }
    }

    /// Carries out a delegate-task request.
    ///
    /// With `tasks`: refuses an empty list (`empty_tasks`); otherwise runs
    /// the first `max_concurrent` tasks as a batch and reports it. Without
    /// `tasks` but with a `goal`: runs that goal in one child with the given
    /// tool sets (or the defaults) and reports it. With neither: refuses
    /// the request (`missing_params`). A run fails (`random_unavailable`),
    /// changing nothing, only when the system's random source cannot name
    /// the team or a child; [`DelegationTool::run_batch`] and
    /// [`DelegationTool::run_single`] take the names as arguments and always
    /// succeed.
    pub fn execute(&mut self, input: DelegateTaskInput) -> (res: Result<DelegateOutcome, ToolError>)
        ensures
            final(self)@.config == old(self)@.config,
            match input.tasks {
                Some(tasks) => if tasks@.len() == 0 {
                    &&& res is Err
                    &&& res->Err_0.is("tasks array cannot be empty"@, "empty_tasks"@)
                    &&& final(self)@ == old(self)@
                } else {
                    is_batch_outcome(old(self)@, final(self)@, sub_task_views(tasks@), res)
                },
                None => match input.goal {
                    Some(goal) => is_single_outcome(
                        old(self)@,
                        final(self)@,
                        goal@,
                        opt_view(input.context),
                        opt_string_views(input.toolsets),
                        opt_view(input.model),
                        res,
                    ),
                    None => {
                        &&& res is Err
                        &&& res->Err_0.is("Either 'goal' or 'tasks' must be provided"@, "missing_params"@)
                        &&& final(self)@ == old(self)@
                    },
                },
            },
    {
        match input.tasks {
            Some(tasks) => {
                if tasks.len() == 0 {
                    return Err(
                        ToolError {
                            message: String::from_str("tasks array cannot be empty"),
                            code: Some(String::from_str("empty_tasks")),
                        },
                    );
                }
                self.execute_batch(tasks)
            },
            None => match input.goal {
                Some(goal) => self.execute_single(goal, input.context, input.toolsets, input.model),
                None => Err(
                    ToolError {
                        message: String::from_str("Either 'goal' or 'tasks' must be provided"),
                        code: Some(String::from_str("missing_params")),
                    },
                ),
            },
        }
    }
}

/// What a batch request ends in: either the report of the first
/// `max_concurrent` tasks, run by children named by fresh v4 UUIDs and
/// recorded as active, or, changing nothing, the random-source error.
pub open spec fn is_batch_outcome(
    before: DelegationToolView,
    after: DelegationToolView,
    tasks: Seq<DelegateSubTaskView>,
    res: Result<DelegateOutcome, ToolError>,
) -> bool {
    let n = min_nat(before.config.max_concurrent as nat, tasks.len());
    ||| {
        &&& res matches Ok(DelegateOutcome::Batch(output))
        &&& exists|rs: Seq<SubAgentResultView>| is_batch_run(rs, n) && res->Ok_0->Batch_0@ == spec_batch_output(rs)
        &&& exists|uuids: Seq<Seq<char>>|
            (forall|k: int| 0 <= k < uuids.len() ==> is_uuid_v4_text(#[trigger] uuids[k])) && uuids.len() == n
                && is_batch_spawn(before, after, tasks, None, uuids, n)
    }
    ||| {
        &&& res is Err
        &&& res->Err_0.is(random_error_message(), "random_unavailable"@)
        &&& after == before
    }
}

/// What a single-goal request ends in: either the report of the child named
/// by a fresh v4 UUID, configured from the goal, context, tool sets (the
/// given ones, or the defaults) and model, or, changing nothing, the
/// random-source error.
pub open spec fn is_single_outcome(
    before: DelegationToolView,
    after: DelegationToolView,
    goal: Seq<char>,
    context: Option<Seq<char>>,
    toolsets: Option<Seq<Seq<char>>>,
    model: Option<Seq<char>>,
    res: Result<DelegateOutcome, ToolError>,
) -> bool {
    let tools = match toolsets {
        Some(t) => t,
        None => before.config.default_toolsets,
    };
    ||| {
        &&& res matches Ok(DelegateOutcome::Single(summary))
        &&& exists|u: Seq<char>|
            is_uuid_v4_text(u) && is_single_report(res->Ok_0->Single_0@, u) && after == (DelegationToolView {
                spawned: before.spawned.push(
                    (spec_agent_id(u), spec_single_child_config(before.config, goal, context, tools, model, None)),
                ),
                ..before
            })
    }
    ||| {
        &&& res is Err
        &&& res->Err_0.is(random_error_message(), "random_unavailable"@)
        &&& after == before
    }
}


/// A batch run reports every child as completed and none as failed, so
/// its report says `success`; it holds one summary per child, never more
/// than the configured limit allows.
pub proof fn lemma_batch_run_succeeds(rs: Seq<SubAgentResultView>, max_concurrent: usize, tasks: nat)
    requires
        is_batch_run(rs, min_nat(max_concurrent as nat, tasks)),
    ensures
        spec_batch_output(rs).completed_count == rs.len(),
        spec_batch_output(rs).failed_count == 0,
        spec_batch_output(rs).status == "success"@,
        spec_batch_output(rs).results.len() == rs.len(),
        rs.len() <= max_concurrent,
        rs.len() <= tasks,
        forall|k: int|
            0 <= k < rs.len() ==> (#[trigger] spec_batch_output(rs).results[k]).task_index == k
                && spec_batch_output(rs).results[k].status == "completed"@,
{
    lemma_all_completed_counts(rs);
}

proof fn lemma_all_completed_counts(rs: Seq<SubAgentResultView>)
    requires
        forall|k: int| 0 <= k < rs.len() ==> (#[trigger] rs[k]).status == SubAgentStatus::Completed,
    ensures
        count_agent_status(rs, SubAgentStatus::Completed) == rs.len(),
        count_agent_status(rs, SubAgentStatus::Failed) == 0,
    decreases rs.len(),
{
    if rs.len() > 0 {
        lemma_all_completed_counts(rs.drop_last());
    }
}

} // verus!
