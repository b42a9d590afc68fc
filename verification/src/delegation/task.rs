//! Tasks of a delegation batch: the queue that tracks them, the per-task
//! results and the team-level summary.

use vstd::prelude::*;
use vstd::string::StringExecFns;
use crate::delegation::subagent::{SubAgentResult, SubAgentStatus};
use crate::text::{clone_opt_string, clone_strings, decimal_string, opt_view, spec_decimal, str_eq, string_views};

verus! {

/// Where a delegated task stands.
#[derive(Debug, Clone, Copy, PartialEq, Eq, Structural)]
pub enum TaskStatus {
    Pending,
    Running,
    Completed,
    Failed,
    Interrupted,
}

/// A task handed to a child agent.
#[derive(Debug)]
pub struct DelegationTask {
    pub task_id: String,
    pub goal: String,
    pub context: Option<String>,
    pub toolsets: Vec<String>,
    pub model: Option<String>,
    pub status: TaskStatus,
    pub result: Option<String>,
    pub error: Option<String>,
}

/// The contents of a [`DelegationTask`], strings taken as characters.
pub ghost struct DelegationTaskView {
    pub task_id: Seq<char>,
    pub goal: Seq<char>,
    pub context: Option<Seq<char>>,
    pub toolsets: Seq<Seq<char>>,
    pub model: Option<Seq<char>>,
    pub status: TaskStatus,
    pub result: Option<Seq<char>>,
    pub error: Option<Seq<char>>,
}

impl View for DelegationTask {
    type V = DelegationTaskView;

    open spec fn view(&self) -> DelegationTaskView {
        DelegationTaskView {
            task_id: self.task_id@,
            goal: self.goal@,
            context: opt_view(self.context),
            toolsets: string_views(self.toolsets@),
            model: opt_view(self.model),
            status: self.status,
            result: opt_view(self.result),
            error: opt_view(self.error),
        }
    }
}

impl Clone for DelegationTask {
    fn clone(&self) -> (res: Self)
        ensures
            res@ == self@,
    {
        let toolsets = clone_strings(&self.toolsets);
        assert(string_views(toolsets@) =~= string_views(self.toolsets@));
        DelegationTask {
            task_id: self.task_id.clone(),
            goal: self.goal.clone(),
            context: clone_opt_string(&self.context),
            toolsets,
            model: clone_opt_string(&self.model),
            status: self.status,
            result: clone_opt_string(&self.result),
            error: clone_opt_string(&self.error),
        }
    }
}

/// The contents of each task.
pub open spec fn task_views(tasks: Seq<DelegationTask>) -> Seq<DelegationTaskView> {
    tasks.map_values(|t: DelegationTask| t@)
}

impl DelegationTask {
    /// A pending task with no model, result or error yet.
    pub fn new(task_id: String, goal: String, context: Option<String>, toolsets: Vec<String>) -> (res: Self)
        ensures
            res.task_id == task_id,
            res.goal == goal,
            res.context == context,
            res.toolsets == toolsets,
            res.model.is_none(),
            res.status == TaskStatus::Pending,
            res.result.is_none(),
            res.error.is_none(),
    {
        DelegationTask {
            task_id,
            goal,
            context,
            toolsets,
            model: None,
            status: TaskStatus::Pending,
            result: None,
            error: None,
        }
    }
}

/// The outcome of one task. Durations are whole milliseconds.
#[derive(Debug)]
pub struct TaskResult {
    pub task_id: String,
    pub goal: String,
    pub status: TaskStatus,
    pub summary: String,
    pub duration_ms: i64,
    pub api_calls: usize,
    pub tools_used: Vec<String>,
    pub interrupted: bool,
    pub error: Option<String>,
}

/// The contents of a [`TaskResult`], strings taken as characters.
pub ghost struct TaskResultView {
    pub task_id: Seq<char>,
    pub goal: Seq<char>,
    pub status: TaskStatus,
    pub summary: Seq<char>,
    pub duration_ms: i64,
    pub api_calls: usize,
    pub tools_used: Seq<Seq<char>>,
    pub interrupted: bool,
    pub error: Option<Seq<char>>,
}

impl View for TaskResult {
    type V = TaskResultView;

    open spec fn view(&self) -> TaskResultView {
        TaskResultView {
            task_id: self.task_id@,
            goal: self.goal@,
            status: self.status,
            summary: self.summary@,
            duration_ms: self.duration_ms,
            api_calls: self.api_calls,
            tools_used: string_views(self.tools_used@),
            interrupted: self.interrupted,
            error: opt_view(self.error),
        }
    }
}

impl Clone for TaskResult {
    fn clone(&self) -> (res: Self)
        ensures
            res@ == self@,
    {
        let tools_used = clone_strings(&self.tools_used);
        assert(string_views(tools_used@) =~= string_views(self.tools_used@));
        TaskResult {
            task_id: self.task_id.clone(),
            goal: self.goal.clone(),
            status: self.status,
            summary: self.summary.clone(),
            duration_ms: self.duration_ms,
            api_calls: self.api_calls,
            tools_used,
            interrupted: self.interrupted,
            error: clone_opt_string(&self.error),
        }
    }
}

/// The contents of each result.
pub open spec fn result_views(results: Seq<TaskResult>) -> Seq<TaskResultView> {
    results.map_values(|r: TaskResult| r@)
}

/// The task status that a child's status maps to; a child still pending
/// or running counts as pending.
pub open spec fn spec_task_status(s: SubAgentStatus) -> TaskStatus {
    match s {
        SubAgentStatus::Completed => TaskStatus::Completed,
        SubAgentStatus::Failed => TaskStatus::Failed,
        SubAgentStatus::Interrupted => TaskStatus::Interrupted,
        _ => TaskStatus::Pending,
    }
}

/// The identifier given to the task at position `index`: `task-<index>`.
pub open spec fn spec_indexed_task_id(index: nat) -> Seq<char> {
    "task-"@ + spec_decimal(index)
}

impl TaskResult {
    /// The task result for a child's result at position `index` of a batch.
    pub fn from_indexed(index: usize, result: SubAgentResult) -> (res: Self)
        ensures
            res.task_id@ == spec_indexed_task_id(index as nat),
            res.goal@ == Seq::<char>::empty(),
            res.status == spec_task_status(result.status),
            res.summary == result.summary,
            res.duration_ms == result.duration_ms,
            res.api_calls == result.api_calls,
            res.tools_used == result.tools_used,
            res.interrupted == result.interrupted,
            res.error == result.error,
    {
        let status = match result.status {
            SubAgentStatus::Completed => TaskStatus::Completed,
            SubAgentStatus::Failed => TaskStatus::Failed,
            SubAgentStatus::Interrupted => TaskStatus::Interrupted,
            _ => TaskStatus::Pending,
        };
        TaskResult {
            task_id: String::from_str("task-").concat(decimal_string(index).as_str()),
            goal: String::new(),
            status,
            summary: result.summary,
            duration_ms: result.duration_ms,
            api_calls: result.api_calls,
            tools_used: result.tools_used,
            interrupted: result.interrupted,
            error: result.error,
        }
    }
}

/// The strings of a task result cannot be written as a spec value, so
/// `from` is not tied to a spec function; its own `ensures` states the
/// result field by field.
impl vstd::std_specs::convert::FromSpecImpl<(usize, SubAgentResult)> for TaskResult {
    open spec fn obeys_from_spec() -> bool {
        false
    }

    open spec fn from_spec(v: (usize, SubAgentResult)) -> Self {
        arbitrary()
    }
}

impl From<(usize, SubAgentResult)> for TaskResult {
    fn from(pair: (usize, SubAgentResult)) -> (res: Self)
        ensures
            res.task_id@ == spec_indexed_task_id(pair.0 as nat),
            res.goal@ == Seq::<char>::empty(),
            res.status == spec_task_status(pair.1.status),
            res.summary == pair.1.summary,
            res.duration_ms == pair.1.duration_ms,
            res.api_calls == pair.1.api_calls,
            res.tools_used == pair.1.tools_used,
            res.interrupted == pair.1.interrupted,
            res.error == pair.1.error,
    {
        let (index, result) = pair;
        TaskResult::from_indexed(index, result)
    }
}

/// How many results have status `status`.
pub open spec fn count_status(results: Seq<TaskResultView>, status: TaskStatus) -> nat
    decreases results.len(),
{
    if results.len() == 0 {
        0
    } else {
        count_status(results.drop_last(), status) + if results.last().status == status {
            1nat
        } else {
            0nat
        }
    }
}

/// The total duration of the results, in milliseconds.
pub open spec fn sum_durations(results: Seq<TaskResultView>) -> int
    decreases results.len(),
{
    if results.len() == 0 {
        0
    } else {
        sum_durations(results.drop_last()) + results.last().duration_ms
    }
}

/// The summary of a delegation batch. Durations are whole milliseconds.
#[derive(Debug, Clone)]
pub struct DelegationResult {
    pub team_id: String,
    pub tasks: Vec<TaskResult>,
    pub total_duration_ms: i128,
    pub completed_count: usize,
    pub failed_count: usize,
    pub interrupted_count: usize,
}

/// The count of statuses and the sum of durations over the first `i`
/// results, as a loop accumulates them.
proof fn lemma_tally_step(results: Seq<TaskResultView>, i: int)
    requires
        0 <= i < results.len(),
    ensures
        results.take(i + 1).drop_last() == results.take(i),
        results.take(i + 1).last() == results[i],
{
    assert(results.take(i + 1).drop_last() =~= results.take(i));
}

impl DelegationResult {
    /// Collects the task results of team `team_id`, counting completed,
    /// failed and interrupted tasks and adding up their durations.
    pub fn new(team_id: String, tasks: Vec<TaskResult>) -> (res: Self)
        ensures
            res.team_id == team_id,
            res.tasks == tasks,
            res.completed_count == count_status(result_views(tasks@), TaskStatus::Completed),
            res.failed_count == count_status(result_views(tasks@), TaskStatus::Failed),
            res.interrupted_count == count_status(result_views(tasks@), TaskStatus::Interrupted),
            res.total_duration_ms == sum_durations(result_views(tasks@)),
    {
        let ghost views = result_views(tasks@);
        let mut completed_count: usize = 0;
        let mut failed_count: usize = 0;
        let mut interrupted_count: usize = 0;
        let mut total: i128 = 0;
        let n = tasks.len();
        for i in 0..n
            invariant
                n == tasks@.len(),
                views == result_views(tasks@),
                completed_count == count_status(views.take(i as int), TaskStatus::Completed),
                failed_count == count_status(views.take(i as int), TaskStatus::Failed),
                interrupted_count == count_status(views.take(i as int), TaskStatus::Interrupted),
                completed_count <= i,
                failed_count <= i,
                interrupted_count <= i,
                total == sum_durations(views.take(i as int)),
                -(i as int) * 0x8000_0000_0000_0000 <= total <= (i as int) * 0x7fff_ffff_ffff_ffff,
        {
            proof {
                lemma_tally_step(views, i as int);
            }
            let t = &tasks[i];
            if t.status == TaskStatus::Completed {
                completed_count = completed_count + 1;
            }
            if t.status == TaskStatus::Failed {
                failed_count = failed_count + 1;
            }
            if t.status == TaskStatus::Interrupted {
                interrupted_count = interrupted_count + 1;
            }
            total = total + t.duration_ms as i128;
        }
        proof {
            assert(views.take(n as int) =~= views);
        }
        DelegationResult {
            team_id,
            tasks,
            total_duration_ms: total,
            completed_count,
            failed_count,
            interrupted_count,
        }
    }

    /// A batch succeeded when some task completed and none failed.
    pub fn success(&self) -> (res: bool)
        ensures
            res == (self.completed_count > 0 && self.failed_count == 0),
    {
        self.completed_count > 0 && self.failed_count == 0
    }
}

/// The three status counts of a team never add up to more than its tasks.
pub proof fn lemma_status_counts_bounded(results: Seq<TaskResultView>)
    ensures
        count_status(results, TaskStatus::Completed) + count_status(results, TaskStatus::Failed)
            + count_status(results, TaskStatus::Interrupted) <= results.len(),
    decreases results.len(),
{
    if results.len() > 0 {
        lemma_status_counts_bounded(results.drop_last());
    }
}

/// Whether `i` is the position of the first task whose identifier is `id`.
pub open spec fn is_first_with_id(tasks: Seq<DelegationTaskView>, id: Seq<char>, i: int) -> bool {
    &&& 0 <= i < tasks.len()
    &&& tasks[i].task_id == id
    &&& forall|j: int| 0 <= j < i ==> #[trigger] tasks[j].task_id != id
}

/// The position of the first task whose identifier is `id`, or -1.
pub open spec fn first_index_with_id(tasks: Seq<DelegationTaskView>, id: Seq<char>) -> int {
    if exists|i: int| is_first_with_id(tasks, id, i) {
        choose|i: int| is_first_with_id(tasks, id, i)
    } else {
        -1
    }
}

/// `tasks` with `f` applied to the first task whose identifier is `id`;
/// unchanged when no task has that identifier.
pub open spec fn update_first_with_id(
    tasks: Seq<DelegationTaskView>,
    id: Seq<char>,
    f: spec_fn(DelegationTaskView) -> DelegationTaskView,
) -> Seq<DelegationTaskView> {
    let i = first_index_with_id(tasks, id);
    if 0 <= i {
        tasks.update(i, f(tasks[i]))
    } else {
        tasks
    }
}

/// Only one position can be the first with a given identifier.
pub proof fn lemma_first_index_unique(tasks: Seq<DelegationTaskView>, id: Seq<char>, i: int)
    requires
        is_first_with_id(tasks, id, i),
    ensures
        first_index_with_id(tasks, id) == i,
{
    let k = choose|k: int| is_first_with_id(tasks, id, k);
    if k < i {
        assert(tasks[k].task_id != id);
    } else if i < k {
        assert(tasks[i].task_id != id);
    }
}

/// The task as a running task.
pub open spec fn as_running(t: DelegationTaskView) -> DelegationTaskView {
    DelegationTaskView { status: TaskStatus::Running, ..t }
}

/// The task as completed with `result`.
pub open spec fn as_completed(t: DelegationTaskView, result: Seq<char>) -> DelegationTaskView {
    DelegationTaskView { status: TaskStatus::Completed, result: Some(result), ..t }
}

/// The task as failed with `error`.
pub open spec fn as_failed(t: DelegationTaskView, error: Seq<char>) -> DelegationTaskView {
    DelegationTaskView { status: TaskStatus::Failed, error: Some(error), ..t }
}

/// Whether a task is still pending.
pub open spec fn is_pending(t: DelegationTaskView) -> bool {
    t.status == TaskStatus::Pending
}

/// The result that a queue reports for a task when it is finalized.
pub open spec fn final_result(t: DelegationTaskView) -> TaskResultView {
    TaskResultView {
        task_id: t.task_id,
        goal: t.goal,
        status: t.status,
        summary: match t.result {
            Some(r) => r,
            None => Seq::empty(),
        },
        duration_ms: 0,
        api_calls: 0,
        tools_used: Seq::empty(),
        interrupted: t.status == TaskStatus::Interrupted,
        error: t.error,
    }
}

/// Whether `r` reports task `t` as it stands: the task's own identifier,
/// goal, status and error, its result text (empty when it has none),
/// interrupted exactly when the task is, and no duration, calls or tools.
pub open spec fn reports_task(r: TaskResultView, t: DelegationTaskView) -> bool {
    &&& r.task_id == t.task_id
    &&& r.goal == t.goal
    &&& r.status == t.status
    &&& r.error == t.error
    &&& (t.result matches Some(text) ==> r.summary == text)
    &&& (t.result is None ==> r.summary.len() == 0)
    &&& r.interrupted == (t.status == TaskStatus::Interrupted)
    &&& r.duration_ms == 0
    &&& r.api_calls == 0
    &&& r.tools_used.len() == 0
}

/// The results a queue with `tasks` reports when it is finalized.
pub open spec fn finalized_results(tasks: Seq<DelegationTaskView>) -> Seq<TaskResultView> {
    tasks.map_values(|t: DelegationTaskView| final_result(t))
}

/// Finalizing reports every task, in order, under its own identifier, goal
/// and status.
pub proof fn lemma_finalized_results_report_tasks(tasks: Seq<DelegationTaskView>)
    ensures
        finalized_results(tasks).len() == tasks.len(),
        forall|k: int| 0 <= k < tasks.len() ==> reports_task(#[trigger] finalized_results(tasks)[k], tasks[k]),
{
}

/// The queue of one delegation team: its tasks, the results reported so
/// far and the children that are currently active.
pub struct TaskQueue {
    team_id: String,
    tasks: Vec<DelegationTask>,
    results: Vec<TaskResult>,
    active_handles: Vec<String>,
}

/// The contents of a [`TaskQueue`].
pub ghost struct TaskQueueView {
    pub team_id: Seq<char>,
    pub tasks: Seq<DelegationTaskView>,
    pub results: Seq<TaskResultView>,
    pub active_handles: Seq<Seq<char>>,
}

impl View for TaskQueue {
    type V = TaskQueueView;

    closed spec fn view(&self) -> TaskQueueView {
        TaskQueueView {
            team_id: self.team_id@,
            tasks: task_views(self.tasks@),
            results: result_views(self.results@),
            active_handles: string_views(self.active_handles@),
        }
    }
}

impl TaskQueue {
    /// An empty queue for team `team_id`.
    pub fn new(team_id: String) -> (res: Self)
        ensures
            res@.team_id == team_id@,
            res@.tasks == Seq::<DelegationTaskView>::empty(),
            res@.results == Seq::<TaskResultView>::empty(),
            res@.active_handles == Seq::<Seq<char>>::empty(),
    {
        let res = TaskQueue {
            team_id,
            tasks: Vec::new(),
            results: Vec::new(),
            active_handles: Vec::new(),
        };
        assert(res@.tasks =~= Seq::<DelegationTaskView>::empty());
        assert(res@.results =~= Seq::<TaskResultView>::empty());
        assert(res@.active_handles =~= Seq::<Seq<char>>::empty());
        res
    }

    /// Appends a task.
    pub fn add_task(&mut self, task: DelegationTask)
        ensures
            final(self)@ == (TaskQueueView { tasks: old(self)@.tasks.push(task@), ..old(self)@ }),
    {
        self.tasks.push(task);
        assert(task_views(self.tasks@) =~= old(self)@.tasks.push(task@));
    }

    /// Appends tasks, keeping their order.
    pub fn add_tasks(&mut self, tasks: Vec<DelegationTask>)
        ensures
            final(self)@ == (TaskQueueView {
                tasks: old(self)@.tasks + task_views(tasks@),
                ..old(self)@
            }),
    {
        let ghost incoming = tasks@;
        let mut tasks = tasks;
        self.tasks.append(&mut tasks);
        assert(task_views(self.tasks@) =~= old(self)@.tasks + task_views(incoming));
    }

    /// Copies of the tasks that are still pending, in queue order.
    pub fn get_pending_tasks(&self) -> (res: Vec<DelegationTask>)
        ensures
            task_views(res@) == self@.tasks.filter(|t: DelegationTaskView| is_pending(t)),
    {
        let ghost views = task_views(self.tasks@);
        let mut res: Vec<DelegationTask> = Vec::new();
        let n = self.tasks.len();
        for i in 0..n
            invariant
                n == self.tasks@.len(),
                views == task_views(self.tasks@),
                task_views(res@) == views.take(i as int).filter(|t: DelegationTaskView| is_pending(t)),
        {
            proof {
                reveal_with_fuel(Seq::<_>::filter, 1);
                assert(views.take(i + 1).drop_last() =~= views.take(i as int));
            }
            if self.tasks[i].status == TaskStatus::Pending {
                let copy = self.tasks[i].clone();
                let ghost before = res@;
                res.push(copy);
                assert(task_views(res@) =~= task_views(before).push(copy@));
            }
        }
        proof {
            assert(views.take(n as int) =~= views);
        }
        res
    }

    /// Position of the first task with identifier `task_id`, if any.
    fn find_task(&self, task_id: &str) -> (res: Option<usize>)
        ensures
            match res {
                Some(i) => is_first_with_id(self@.tasks, task_id@, i as int),
                None => forall|j: int|
                    0 <= j < self@.tasks.len() ==> #[trigger] self@.tasks[j].task_id != task_id@,
            },
    {
        let n = self.tasks.len();
        for i in 0..n
            invariant
                n == self.tasks@.len(),
                forall|j: int| 0 <= j < i ==> #[trigger] self@.tasks[j].task_id != task_id@,
        {
            if str_eq(self.tasks[i].task_id.as_str(), task_id) {
                return Some(i);
            }
        }
        None
    }

    /// Marks the first task with identifier `task_id` as running; nothing
    /// changes when no task has it.
    pub fn mark_running(&mut self, task_id: &str)
        ensures
            final(self)@ == (TaskQueueView {
                tasks: update_first_with_id(old(self)@.tasks, task_id@, |t| as_running(t)),
                ..old(self)@
            }),
    {
        match self.find_task(task_id) {
            Some(i) => {
                proof {
                    lemma_first_index_unique(old(self)@.tasks, task_id@, i as int);
                }
                self.tasks[i].status = TaskStatus::Running;
                assert(task_views(self.tasks@) =~= old(self)@.tasks.update(
                    i as int,
                    as_running(old(self)@.tasks[i as int]),
                ));
            },
            None => {},
        }
    }

    /// Marks the first task with identifier `task_id` as completed with
    /// `result`; nothing changes when no task has it.
    pub fn mark_completed(&mut self, task_id: &str, result: String)
        ensures
            final(self)@ == (TaskQueueView {
                tasks: update_first_with_id(old(self)@.tasks, task_id@, |t| as_completed(t, result@)),
                ..old(self)@
            }),
    {
        match self.find_task(task_id) {
            Some(i) => {
                proof {
                    lemma_first_index_unique(old(self)@.tasks, task_id@, i as int);
                }
                self.tasks[i].status = TaskStatus::Completed;
                self.tasks[i].result = Some(result);
                assert(task_views(self.tasks@) =~= old(self)@.tasks.update(
                    i as int,
                    as_completed(old(self)@.tasks[i as int], result@),
                ));
            },
            None => {},
        }
    }

    /// Marks the first task with identifier `task_id` as failed with
    /// `error`; nothing changes when no task has it.
    pub fn mark_failed(&mut self, task_id: &str, error: String)
        ensures
            final(self)@ == (TaskQueueView {
                tasks: update_first_with_id(old(self)@.tasks, task_id@, |t| as_failed(t, error@)),
                ..old(self)@
            }),
    {
        match self.find_task(task_id) {
            Some(i) => {
                proof {
                    lemma_first_index_unique(old(self)@.tasks, task_id@, i as int);
                }
                self.tasks[i].status = TaskStatus::Failed;
                self.tasks[i].error = Some(error);
                assert(task_views(self.tasks@) =~= old(self)@.tasks.update(
                    i as int,
                    as_failed(old(self)@.tasks[i as int], error@),
                ));
            },
            None => {},
        }
    }

    /// Records a task result.
    pub fn add_result(&mut self, result: TaskResult)
        ensures
            final(self)@ == (TaskQueueView { results: old(self)@.results.push(result@), ..old(self)@ }),
    {
        self.results.push(result);
        assert(result_views(self.results@) =~= old(self)@.results.push(result@));
    }

    /// Copies of the results recorded so far, in order.
    pub fn get_results(&self) -> (res: Vec<TaskResult>)
        ensures
            result_views(res@) == self@.results,
    {
        let mut res: Vec<TaskResult> = Vec::new();
        let n = self.results.len();
        for i in 0..n
            invariant
                n == self.results@.len(),
                result_views(res@) == result_views(self.results@).take(i as int),
        {
            let copy = self.results[i].clone();
            let ghost before = res@;
            res.push(copy);
            assert(result_views(res@) =~= result_views(before).push(copy@));
            assert(result_views(self.results@)[i as int] == self.results@[i as int]@);
            assert(result_views(res@) =~= result_views(self.results@).take(i + 1));
        }
        assert(result_views(self.results@).take(n as int) =~= result_views(self.results@));
        res
    }

    /// Records that child `agent_id` is active.
    pub fn register_handle(&mut self, agent_id: String)
        ensures
            final(self)@ == (TaskQueueView {
                active_handles: old(self)@.active_handles.push(agent_id@),
                ..old(self)@
            }),
    {
        self.active_handles.push(agent_id);
        assert(string_views(self.active_handles@) =~= old(self)@.active_handles.push(agent_id@));
    }

    /// Forgets every active entry for child `agent_id`, keeping the others
    /// in order.
    pub fn unregister_handle(&mut self, agent_id: &str)
        ensures
            final(self)@ == (TaskQueueView {
                active_handles: old(self)@.active_handles.filter(|h: Seq<char>| h != agent_id@),
                ..old(self)@
            }),
    {
        let ghost views = string_views(self.active_handles@);
        let mut kept: Vec<String> = Vec::new();
        let n = self.active_handles.len();
        for i in 0..n
            invariant
                n == self.active_handles@.len(),
                views == string_views(self.active_handles@),
                string_views(kept@) == views.take(i as int).filter(|h: Seq<char>| h != agent_id@),
        {
            proof {
                reveal_with_fuel(Seq::<_>::filter, 1);
                assert(views.take(i + 1).drop_last() =~= views.take(i as int));
            }
            if !str_eq(self.active_handles[i].as_str(), agent_id) {
                let ghost before = kept@;
                kept.push(self.active_handles[i].clone());
                assert(string_views(kept@) =~= string_views(before).push(views[i as int]));
            }
        }
        proof {
            assert(views.take(n as int) =~= views);
        }
        self.active_handles = kept;
    }

    /// How many children are active.
    pub fn get_active_count(&self) -> (res: usize)
        ensures
            res == self@.active_handles.len(),
    {
        self.active_handles.len()
    }

    /// The children to cancel: every active one, in order. The queue is
    /// left as it is; the caller reports each cancellation.
    pub fn cancel_all(&self) -> (res: Vec<String>)
        ensures
            string_views(res@) == self@.active_handles,
    {
        let res = clone_strings(&self.active_handles);
        assert(string_views(res@) =~= string_views(self.active_handles@));
        res
    }

    /// Closes the queue: one result per task, in task order, carrying the
    /// task's identifier, goal, status, result text (empty when none) and
    /// error, with no duration, calls or tools; then counted and totalled
    /// as [`DelegationResult::new`] does.
    pub fn finalize(self) -> (res: DelegationResult)
        ensures
            res.team_id@ == self@.team_id,
            result_views(res.tasks@) == finalized_results(self@.tasks),
            res.tasks@.len() == self@.tasks.len(),
            forall|k: int|
                0 <= k < self@.tasks.len() ==> reports_task(#[trigger] result_views(res.tasks@)[k], self@.tasks[k]),
            res.completed_count == count_status(result_views(res.tasks@), TaskStatus::Completed),
            res.failed_count == count_status(result_views(res.tasks@), TaskStatus::Failed),
            res.interrupted_count == count_status(result_views(res.tasks@), TaskStatus::Interrupted),
            res.total_duration_ms == sum_durations(result_views(res.tasks@)),
    {
        let ghost views = task_views(self.tasks@);
        let ghost expected = views.map_values(|t: DelegationTaskView| final_result(t));
        let mut results: Vec<TaskResult> = Vec::new();
        let n = self.tasks.len();
        for i in 0..n
            invariant
                n == self.tasks@.len(),
                views == task_views(self.tasks@),
                expected == views.map_values(|t: DelegationTaskView| final_result(t)),
                result_views(results@) == expected.take(i as int),
        {
            let task = &self.tasks[i];
            let summary = match &task.result {
                Some(r) => r.clone(),
                None => String::new(),
            };
            let r = TaskResult {
                task_id: task.task_id.clone(),
                goal: task.goal.clone(),
                status: task.status,
                summary,
                duration_ms: 0,
                api_calls: 0,
                tools_used: Vec::new(),
                interrupted: task.status == TaskStatus::Interrupted,
                error: clone_opt_string(&task.error),
            };
            assert(views[i as int] == self.tasks@[i as int]@);
            assert(r@.tools_used =~= Seq::<Seq<char>>::empty());
            assert(r@ == final_result(views[i as int]));
            let ghost before = results@;
            results.push(r);
            assert(result_views(results@) =~= result_views(before).push(r@));
            assert(result_views(results@) =~= expected.take(i + 1));
        }
        assert(expected.take(n as int) =~= expected);
        proof {
            lemma_finalized_results_report_tasks(views);
        }
        DelegationResult::new(self.team_id, results)
    }
}

/// Marking a task running, completed or failed keeps the queue's length
/// and every task's identifier, and touches no task but the first with
/// the given identifier.
pub proof fn lemma_marking_keeps_tasks(
    tasks: Seq<DelegationTaskView>,
    id: Seq<char>,
    result: Seq<char>,
    error: Seq<char>,
)
    ensures
        ({
            let running = update_first_with_id(tasks, id, |t| as_running(t));
            let completed = update_first_with_id(tasks, id, |t| as_completed(t, result));
            let failed = update_first_with_id(tasks, id, |t| as_failed(t, error));
            &&& running.len() == tasks.len()
            &&& completed.len() == tasks.len()
            &&& failed.len() == tasks.len()
            &&& forall|j: int|
                0 <= j < tasks.len() ==> {
                    &&& (#[trigger] running[j]).task_id == tasks[j].task_id
                    &&& completed[j].task_id == tasks[j].task_id
                    &&& failed[j].task_id == tasks[j].task_id
                    &&& j != first_index_with_id(tasks, id) ==> running[j] == tasks[j]
                        && completed[j] == tasks[j] && failed[j] == tasks[j]
                }
        }),
{
    let i = first_index_with_id(tasks, id);
    if exists|k: int| is_first_with_id(tasks, id, k) {
        let k = choose|k: int| is_first_with_id(tasks, id, k);
        assert(i == k);
    }
}

/// Marking a task that is not in the queue changes nothing.
pub proof fn lemma_marking_unknown_task(tasks: Seq<DelegationTaskView>, id: Seq<char>, f: spec_fn(
    DelegationTaskView,
) -> DelegationTaskView)
    requires
        forall|j: int| 0 <= j < tasks.len() ==> #[trigger] tasks[j].task_id != id,
    ensures
        update_first_with_id(tasks, id, f) == tasks,
{
    assert(!exists|k: int| is_first_with_id(tasks, id, k));
}

/// Registering a child that was not active and then unregistering it
/// leaves the active list as it was.
pub proof fn lemma_register_unregister(handles: Seq<Seq<char>>, id: Seq<char>)
    requires
        !handles.contains(id),
    ensures
        handles.push(id).filter(|h: Seq<char>| h != id) == handles,
{
    reveal_with_fuel(Seq::<_>::filter, 1);
    assert(handles.push(id).drop_last() =~= handles);
    lemma_filter_keeps_all(handles, id);
}

proof fn lemma_filter_keeps_all(handles: Seq<Seq<char>>, id: Seq<char>)
    requires
        !handles.contains(id),
    ensures
        handles.filter(|h: Seq<char>| h != id) == handles,
    decreases handles.len(),
{
    reveal_with_fuel(Seq::<_>::filter, 1);
    if handles.len() > 0 {
        let init = handles.drop_last();
        assert(!init.contains(id)) by {
            if init.contains(id) {
                let k = choose|k: int| 0 <= k < init.len() && init[k] == id;
                assert(handles[k] == id);
            }
        }
        lemma_filter_keeps_all(init, id);
        assert(handles[handles.len() - 1] != id);
        assert(init.push(handles.last()) =~= handles);
    } else {
        assert(handles.filter(|h: Seq<char>| h != id) =~= handles);
    }
}

/// Replacing an element that passes `pred` by one that does not shortens
/// the filtered sequence by one.
proof fn lemma_filter_update_drops_one<A>(s: Seq<A>, i: int, v: A, pred: spec_fn(A) -> bool)
    requires
        0 <= i < s.len(),
        pred(s[i]),
        !pred(v),
    ensures
        s.update(i, v).filter(pred).len() + 1 == s.filter(pred).len(),
    decreases s.len(),
{
    reveal_with_fuel(Seq::<_>::filter, 1);
    let u = s.update(i, v);
    if i == s.len() - 1 {
        assert(u.drop_last() =~= s.drop_last());
    } else {
        lemma_filter_update_drops_one(s.drop_last(), i, v, pred);
        assert(u.drop_last() =~= s.drop_last().update(i, v));
        assert(u.last() == s.last());
    }
}

/// Marking a pending task running takes exactly one task off the pending list.
pub proof fn lemma_mark_running_takes_one_pending(tasks: Seq<DelegationTaskView>, id: Seq<char>)
    requires
        0 <= first_index_with_id(tasks, id),
        is_pending(tasks[first_index_with_id(tasks, id)]),
    ensures
        update_first_with_id(tasks, id, |t| as_running(t)).filter(|t: DelegationTaskView| is_pending(t)).len()
            + 1 == tasks.filter(|t: DelegationTaskView| is_pending(t)).len(),
{
    let i = first_index_with_id(tasks, id);
    let pred = |t: DelegationTaskView| is_pending(t);
    lemma_filter_update_drops_one(tasks, i, as_running(tasks[i]), pred);
    assert(update_first_with_id(tasks, id, |t| as_running(t)) == tasks.update(i, as_running(tasks[i])));
}

} // verus!
