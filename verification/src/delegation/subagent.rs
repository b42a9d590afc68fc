//! Sub-agent: the isolated child that a delegated task runs in, its
//! configuration, lifecycle and the result it reports.

use vstd::prelude::*;
use vstd::string::StringExecFns;
use crate::clock::{utc_now_millis, valid_clock_millis, MAX_CLOCK_MILLIS, MIN_CLOCK_MILLIS};
use crate::ids::{is_uuid_v4_text, random_uuid_text};
use crate::text::{
    join_strings, opt_view, spec_is_blank, spec_join, string_views,
    is_blank,
};

verus! {

/// Lifecycle state of a sub-agent.
#[derive(Debug, Clone, Copy, PartialEq, Eq, Structural)]
pub enum SubAgentStatus {
    Pending,
    Running,
    Completed,
    Failed,
    Interrupted,
}

/// How a child agent is set up.
#[derive(Debug, Clone)]
pub struct SubAgentConfig {
    pub goal: String,
    pub context: Option<String>,
    pub toolsets: Vec<String>,
    pub model: Option<String>,
    pub max_iterations: usize,
    pub workspace_path: Option<String>,
    pub parent_id: Option<String>,
    pub task_index: usize,
}

/// The contents of a [`SubAgentConfig`], strings taken as characters.
pub ghost struct SubAgentConfigView {
    pub goal: Seq<char>,
    pub context: Option<Seq<char>>,
    pub toolsets: Seq<Seq<char>>,
    pub model: Option<Seq<char>>,
    pub max_iterations: usize,
    pub workspace_path: Option<Seq<char>>,
    pub parent_id: Option<Seq<char>>,
    pub task_index: usize,
}

impl View for SubAgentConfig {
    type V = SubAgentConfigView;

    open spec fn view(&self) -> SubAgentConfigView {
        SubAgentConfigView {
            goal: self.goal@,
            context: opt_view(self.context),
            toolsets: string_views(self.toolsets@),
            model: opt_view(self.model),
            max_iterations: self.max_iterations,
            workspace_path: opt_view(self.workspace_path),
            parent_id: opt_view(self.parent_id),
            task_index: self.task_index,
        }
    }
}

/// The tool sets a child gets when none are named.
pub open spec fn default_toolset_names() -> Seq<Seq<char>> {
    seq!["terminal"@, "file"@]
}

/// `["terminal", "file"]`.
pub fn default_toolsets() -> (res: Vec<String>)
    ensures
        string_views(res@) == default_toolset_names(),
{
    let mut res: Vec<String> = Vec::new();
    res.push(String::from_str("terminal"));
    res.push(String::from_str("file"));
    assert(string_views(res@) =~= default_toolset_names());
    res
}

impl Default for SubAgentConfig {
    fn default() -> (res: Self)
        ensures
            res@ == (SubAgentConfigView {
                goal: Seq::empty(),
                context: None,
                toolsets: default_toolset_names(),
                model: None,
                max_iterations: 50,
                workspace_path: None,
                parent_id: None,
                task_index: 0,
            }),
    {
        SubAgentConfig {
            goal: String::new(),
            context: None,
            toolsets: default_toolsets(),
            model: None,
            max_iterations: 50,
            workspace_path: None,
            parent_id: None,
            task_index: 0,
        }
    }
}

/// What a child reports when it stops. Durations are whole milliseconds.
#[derive(Debug, Clone)]
pub struct SubAgentResult {
    pub task_index: usize,
    pub status: SubAgentStatus,
    pub summary: String,
    pub duration_ms: i64,
    pub api_calls: usize,
    pub tools_used: Vec<String>,
    pub interrupted: bool,
    pub error: Option<String>,
}

/// The contents of a [`SubAgentResult`], strings taken as characters.
pub ghost struct SubAgentResultView {
    pub task_index: usize,
    pub status: SubAgentStatus,
    pub summary: Seq<char>,
    pub duration_ms: i64,
    pub api_calls: usize,
    pub tools_used: Seq<Seq<char>>,
    pub interrupted: bool,
    pub error: Option<Seq<char>>,
}

impl View for SubAgentResult {
    type V = SubAgentResultView;

    open spec fn view(&self) -> SubAgentResultView {
        SubAgentResultView {
            task_index: self.task_index,
            status: self.status,
            summary: self.summary@,
            duration_ms: self.duration_ms,
            api_calls: self.api_calls,
            tools_used: string_views(self.tools_used@),
            interrupted: self.interrupted,
            error: opt_view(self.error),
        }
    }
}

/// The contents of each result.
pub open spec fn agent_result_views(results: Seq<SubAgentResult>) -> Seq<SubAgentResultView> {
    results.map_values(|r: SubAgentResult| r@)
}

/// A child agent and its lifecycle. Timestamps are milliseconds since the
/// Unix epoch, as the UTC clock reports them.
#[derive(Debug, Clone)]
pub struct SubAgent {
    pub agent_id: String,
    pub config: SubAgentConfig,
    pub status: SubAgentStatus,
    pub result: Option<SubAgentResult>,
    pub created_at: i64,
    pub started_at: Option<i64>,
    pub finished_at: Option<i64>,
}

/// Whether an optional timestamp, when present, is one the clock can report.
pub open spec fn valid_opt_clock_millis(t: Option<i64>) -> bool {
    match t {
        Some(v) => valid_clock_millis(v),
        None => true,
    }
}

/// The identifier given to a child whose random part is `uuid`.
pub open spec fn spec_agent_id(uuid: Seq<char>) -> Seq<char> {
    "subagent-"@ + uuid
}

/// First line of every child's system prompt.
pub const PROMPT_INTRO: &'static str = "You are a focused subagent working on a specific delegated task.";

/// Start of the closing instructions of every child's system prompt.
pub const PROMPT_CLOSING_HEAD: &'static str = "\nComplete this";

/// Rest of the closing instructions of every child's system prompt.
pub const PROMPT_CLOSING_BODY: &'static str = " task using the tools available to you. When finished, provide a clear, concise summary of:\n- What you did\n- What you found or accomplished\n- Any files you created or modified\n- Any issues encountered\n\nImportant workspace rule: Never assume a repository lives at /workspace/... or any other container-style path unless the task/context explicitly gives that path. If no exact local path is provided, discover it first before issuing git/workdir-specific commands.\n\nBe thorough but concise -- your response is returned to the parent agent as a summary.";

/// Text that follows a workspace path in the system prompt.
pub const PROMPT_WORKSPACE_NOTE: &'static str = "\nUse this exact path for local repository/workdir operations unless the task explicitly says otherwise.";

/// Whether an optional text is present and not blank.
pub open spec fn has_text(o: Option<Seq<char>>) -> bool {
    match o {
        Some(s) => !spec_is_blank(s),
        None => false,
    }
}

/// The section for the delegated context, when there is any.
pub open spec fn context_section(config: SubAgentConfigView) -> Seq<Seq<char>> {
    if has_text(config.context) {
        seq!["\nCONTEXT:\n"@ + config.context.unwrap()]
    } else {
        Seq::empty()
    }
}

/// The section for the workspace path, when there is one.
pub open spec fn workspace_section(config: SubAgentConfigView) -> Seq<Seq<char>> {
    if has_text(config.workspace_path) {
        seq!["\nWORKSPACE PATH:\n"@ + config.workspace_path.unwrap() + PROMPT_WORKSPACE_NOTE@]
    } else {
        Seq::empty()
    }
}

/// The lines of a child's system prompt.
pub open spec fn prompt_parts(config: SubAgentConfigView) -> Seq<Seq<char>> {
    seq![PROMPT_INTRO@, Seq::<char>::empty(), "YOUR TASK:\n"@ + config.goal]
        + context_section(config) + workspace_section(config) + seq![
        PROMPT_CLOSING_HEAD@ + PROMPT_CLOSING_BODY@,
    ]
}

/// A child's system prompt: its lines joined by newlines.
pub open spec fn spec_system_prompt(config: SubAgentConfigView) -> Seq<char> {
    spec_join(prompt_parts(config), "\n"@)
}

/// Joining one more part appends the separator and that part.
proof fn lemma_join_push(parts: Seq<Seq<char>>, x: Seq<char>, sep: Seq<char>)
    requires
        parts.len() >= 1,
    ensures
        spec_join(parts.push(x), sep) == spec_join(parts, sep) + sep + x,
{
    assert(parts.push(x).drop_last() =~= parts);
}

/// A child's system prompt, written out: the introduction, an empty line,
/// `YOUR TASK:` and the goal; then, on lines of their own, `CONTEXT:` and
/// the context when a non-blank context is given, and `WORKSPACE PATH:`,
/// the path and the workspace note when a non-blank path is given (each
/// section present or absent whatever the other is); then the closing
/// instructions.
#[verifier::rlimit(50)]
pub proof fn lemma_system_prompt_layout(config: SubAgentConfigView)
    ensures
        spec_system_prompt(config) == PROMPT_INTRO@ + "\n"@ + "\n"@ + "YOUR TASK:\n"@ + config.goal + (
        match config.context {
            Some(c) => if !spec_is_blank(c) {
                "\n"@ + "\nCONTEXT:\n"@ + c
            } else {
                Seq::<char>::empty()
            },
            None => Seq::<char>::empty(),
        }) + (match config.workspace_path {
            Some(w) => if !spec_is_blank(w) {
                "\n"@ + "\nWORKSPACE PATH:\n"@ + w + PROMPT_WORKSPACE_NOTE@
            } else {
                Seq::<char>::empty()
            },
            None => Seq::<char>::empty(),
        }) + "\n"@ + PROMPT_CLOSING_HEAD@ + PROMPT_CLOSING_BODY@,
{
    let nl = "\n"@;
    let intro = PROMPT_INTRO@;
    let task = "YOUR TASK:\n"@ + config.goal;
    let base = seq![intro, Seq::<char>::empty(), task];
    assert(spec_join(base, nl) =~= intro + nl + nl + task) by {
        let one = seq![intro];
        let two = seq![intro, Seq::<char>::empty()];
        assert(one.push(Seq::<char>::empty()) =~= two);
        assert(two.push(task) =~= base);
        lemma_join_push(one, Seq::<char>::empty(), nl);
        lemma_join_push(two, task, nl);
    }
    let ctx_part: Seq<char> = match config.context {
        Some(c) => if !spec_is_blank(c) {
            nl + "\nCONTEXT:\n"@ + c
        } else {
            Seq::<char>::empty()
        },
        None => Seq::<char>::empty(),
    };
    let ws_part: Seq<char> = match config.workspace_path {
        Some(w) => if !spec_is_blank(w) {
            nl + "\nWORKSPACE PATH:\n"@ + w + PROMPT_WORKSPACE_NOTE@
        } else {
            Seq::<char>::empty()
        },
        None => Seq::<char>::empty(),
    };
    let p1 = base + context_section(config);
    if has_text(config.context) {
        let sec = "\nCONTEXT:\n"@ + config.context.unwrap();
        assert(p1 =~= base.push(sec));
        lemma_join_push(base, sec, nl);
        assert(spec_join(p1, nl) =~= spec_join(base, nl) + ctx_part);
    } else {
        assert(p1 =~= base);
        assert(spec_join(p1, nl) =~= spec_join(base, nl) + ctx_part);
    }
    let p2 = p1 + workspace_section(config);
    if has_text(config.workspace_path) {
        let sec = "\nWORKSPACE PATH:\n"@ + config.workspace_path.unwrap() + PROMPT_WORKSPACE_NOTE@;
        assert(p2 =~= p1.push(sec));
        lemma_join_push(p1, sec, nl);
        assert(spec_join(p2, nl) =~= spec_join(p1, nl) + ws_part);
    } else {
        assert(p2 =~= p1);
        assert(spec_join(p2, nl) =~= spec_join(p1, nl) + ws_part);
    }
    let closing = PROMPT_CLOSING_HEAD@ + PROMPT_CLOSING_BODY@;
    assert(prompt_parts(config) =~= p2.push(closing));
    lemma_join_push(p2, closing, nl);
    assert(spec_system_prompt(config) =~= intro + nl + nl + task + ctx_part + ws_part + nl + closing);
}

/// Whenever a non-blank workspace path is given, the prompt holds
/// `WORKSPACE PATH:`, the path and the workspace note, whatever the context.
pub proof fn lemma_system_prompt_shows_workspace(config: SubAgentConfigView)
    requires
        config.workspace_path is Some,
        !spec_is_blank(config.workspace_path.unwrap()),
    ensures
        ({
            let section = "\nWORKSPACE PATH:\n"@ + config.workspace_path.unwrap() + PROMPT_WORKSPACE_NOTE@;
            exists|i: int|
                0 <= i && i + section.len() <= spec_system_prompt(config).len()
                    && #[trigger] spec_system_prompt(config).subrange(i, i + section.len()) == section
        }),
{
    lemma_system_prompt_layout(config);
    let section = "\nWORKSPACE PATH:\n"@ + config.workspace_path.unwrap() + PROMPT_WORKSPACE_NOTE@;
    let ctx_part: Seq<char> = match config.context {
        Some(c) => if !spec_is_blank(c) {
            "\n"@ + "\nCONTEXT:\n"@ + c
        } else {
            Seq::<char>::empty()
        },
        None => Seq::<char>::empty(),
    };
    let before = PROMPT_INTRO@ + "\n"@ + "\n"@ + "YOUR TASK:\n"@ + config.goal + ctx_part + "\n"@;
    let after = "\n"@ + PROMPT_CLOSING_HEAD@ + PROMPT_CLOSING_BODY@;
    let prompt = spec_system_prompt(config);
    assert(prompt =~= before + section + after);
    let i = before.len() as int;
    assert(prompt.subrange(i, i + section.len()) =~= section);
}

impl SubAgent {
    /// Whether every timestamp the agent holds is one the clock can report.
    pub open spec fn wf(&self) -> bool {
        &&& valid_clock_millis(self.created_at)
        &&& valid_opt_clock_millis(self.started_at)
        &&& valid_opt_clock_millis(self.finished_at)
    }

    /// Milliseconds from start (or creation, if never started) to finish
    /// (or to `now`, if not finished).
    pub open spec fn spec_elapsed(&self, now: i64) -> int {
        let start = match self.started_at {
            Some(t) => t,
            None => self.created_at,
        };
        let end = match self.finished_at {
            Some(t) => t,
            None => now,
        };
        end - start
    }

    /// A pending child named `subagent-<uuid>`, created at `created_at`.
    pub fn from_parts(config: SubAgentConfig, uuid: String, created_at: i64) -> (res: Self)
        requires
            valid_clock_millis(created_at),
        ensures
            res.wf(),
            res.agent_id@ == spec_agent_id(uuid@),
            res.config == config,
            res.status == SubAgentStatus::Pending,
            res.result.is_none(),
            res.created_at == created_at,
            res.started_at.is_none(),
            res.finished_at.is_none(),
    {
        let agent_id = String::from_str("subagent-").concat(uuid.as_str());
        SubAgent {
            agent_id,
            config,
            status: SubAgentStatus::Pending,
            result: None,
            created_at,
            started_at: None,
            finished_at: None,
        }
    }

    /// A pending child with a fresh random identifier, created now; `None`
    /// when the system's random source cannot supply the identifier.
    pub fn new(config: SubAgentConfig) -> (res: Option<Self>)
        ensures
            res matches Some(agent) ==> {
                &&& agent.wf()
                &&& exists|u: Seq<char>| is_uuid_v4_text(u) && agent.agent_id@ == spec_agent_id(u)
                &&& agent.config == config
                &&& agent.status == SubAgentStatus::Pending
                &&& agent.result.is_none()
                &&& agent.started_at.is_none()
                &&& agent.finished_at.is_none()
            },
    {
        match random_uuid_text() {
            Some(uuid) => {
                let created_at = utc_now_millis();
                Some(SubAgent::from_parts(config, uuid, created_at))
            },
            None => None,
        }
    }

    /// Whether every timestamp the agent holds is one a `DateTime<Utc>` can
    /// hold, which [`SubAgent::elapsed_millis`] needs.
    pub fn has_valid_timestamps(&self) -> (res: bool)
        ensures
            res == self.wf(),
    {
        let started_ok = match self.started_at {
            Some(t) => MIN_CLOCK_MILLIS <= t && t <= MAX_CLOCK_MILLIS,
            None => true,
        };
        let finished_ok = match self.finished_at {
            Some(t) => MIN_CLOCK_MILLIS <= t && t <= MAX_CLOCK_MILLIS,
            None => true,
        };
        MIN_CLOCK_MILLIS <= self.created_at && self.created_at <= MAX_CLOCK_MILLIS && started_ok && finished_ok
    }

    /// The system prompt that sets the child on its task: an introduction,
    /// the goal, the context and workspace path when they are not blank,
    /// and closing instructions, one per line.
    pub fn build_system_prompt(&self) -> (res: String)
        ensures
            res@ == spec_system_prompt(self.config@),
    {
        let ghost cfg = self.config@;
        let mut parts: Vec<String> = Vec::new();
        parts.push(String::from_str(PROMPT_INTRO));
        parts.push(String::new());
        parts.push(String::from_str("YOUR TASK:\n").concat(self.config.goal.as_str()));
        let ghost head = string_views(parts@);
        match &self.config.context {
            Some(context) => {
                if !is_blank(context.as_str()) {
                    parts.push(String::from_str("\nCONTEXT:\n").concat(context.as_str()));
                }
            },
            None => {},
        }
        let ghost with_context = string_views(parts@);
        assert(with_context =~= head + context_section(cfg));
        match &self.config.workspace_path {
            Some(path) => {
                if !is_blank(path.as_str()) {
                    let section = String::from_str("\nWORKSPACE PATH:\n").concat(path.as_str()).concat(
                        PROMPT_WORKSPACE_NOTE,
                    );
                    parts.push(section);
                }
            },
            None => {},
        }
        let ghost with_workspace = string_views(parts@);
        assert(with_workspace =~= with_context + workspace_section(cfg));
        parts.push(String::from_str(PROMPT_CLOSING_HEAD).concat(PROMPT_CLOSING_BODY));
        assert(string_views(parts@) =~= prompt_parts(cfg));
        join_strings(&parts, "\n")
    }

    /// Whether `d` is the agent's elapsed time as read at some moment the
    /// clock can report.
    pub open spec fn is_elapsed_reading(&self, d: i64) -> bool {
        exists|now: i64| valid_clock_millis(now) && d == self.spec_elapsed(now)
    }

    /// Milliseconds from start (or creation) to finish, measured up to `now`
    /// when the child has not finished.
    pub fn elapsed_millis_at(&self, now: i64) -> (res: i64)
        requires
            self.wf(),
            valid_clock_millis(now),
        ensures
            res == self.spec_elapsed(now),
    {
        let start = match self.started_at {
            Some(t) => t,
            None => self.created_at,
        };
        let end = match self.finished_at {
            Some(t) => t,
            None => now,
        };
        end - start
    }

    /// Milliseconds from start (or creation) to finish; the clock is read
    /// only when the child has not finished yet.
    pub fn elapsed_millis(&self) -> (res: i64)
        requires
            self.wf(),
        ensures
            self.finished_at.is_some() ==> res == self.spec_elapsed(0),
            self.finished_at.is_none() ==> exists|now: i64|
                valid_clock_millis(now) && res == self.spec_elapsed(now),
            self.is_elapsed_reading(res),
    {
        match self.finished_at {
            Some(_) => {
                let res = self.elapsed_millis_at(0);
                assert(valid_clock_millis(0) && res == self.spec_elapsed(0));
                res
            },
            None => {
                let now = utc_now_millis();
                self.elapsed_millis_at(now)
            },
        }
    }

    /// Marks the child as running from now on.
    pub fn mark_running(&mut self)
        requires
            old(self).wf(),
        ensures
            final(self).wf(),
            final(self).status == SubAgentStatus::Running,
            final(self).started_at.is_some(),
            final(self).agent_id == old(self).agent_id,
            final(self).config == old(self).config,
            final(self).result == old(self).result,
            final(self).created_at == old(self).created_at,
            final(self).finished_at == old(self).finished_at,
    {
        self.status = SubAgentStatus::Running;
        self.started_at = Some(utc_now_millis());
    }

    /// Records the child's result and marks it finished now: interrupted
    /// when the result says so, completed otherwise.
    pub fn mark_completed(&mut self, result: SubAgentResult)
        requires
            old(self).wf(),
        ensures
            final(self).wf(),
            final(self).status == (if result.interrupted {
                SubAgentStatus::Interrupted
            } else {
                SubAgentStatus::Completed
            }),
            final(self).result == Some(result),
            final(self).finished_at.is_some(),
            final(self).agent_id == old(self).agent_id,
            final(self).config == old(self).config,
            final(self).created_at == old(self).created_at,
            final(self).started_at == old(self).started_at,
    {
        self.status = if result.interrupted {
            SubAgentStatus::Interrupted
        } else {
            SubAgentStatus::Completed
        };
        self.finished_at = Some(utc_now_millis());
        self.result = Some(result);
    }

    /// Marks the child failed now with `error`, recording a failed result
    /// that carries the error and the time the child ran.
    pub fn mark_failed(&mut self, error: String)
        requires
            old(self).wf(),
        ensures
            final(self).wf(),
            final(self).status == SubAgentStatus::Failed,
            final(self).finished_at.is_some(),
            final(self).result.is_some(),
            ({
                let r = final(self).result.unwrap();
                &&& r.task_index == old(self).config.task_index
                &&& r.status == SubAgentStatus::Failed
                &&& r.summary@ == Seq::<char>::empty()
                &&& r.duration_ms == final(self).spec_elapsed(0)
                &&& r.api_calls == 0
                &&& r.tools_used@ == Seq::<String>::empty()
                &&& !r.interrupted
                &&& r.error == Some(error)
            }),
            final(self).agent_id == old(self).agent_id,
            final(self).config == old(self).config,
            final(self).created_at == old(self).created_at,
            final(self).started_at == old(self).started_at,
    {
        self.status = SubAgentStatus::Failed;
        self.finished_at = Some(utc_now_millis());
        let duration_ms = self.elapsed_millis();
        self.result = Some(SubAgentResult {
            task_index: self.config.task_index,
            status: SubAgentStatus::Failed,
            summary: String::new(),
            duration_ms,
            api_calls: 0,
            tools_used: Vec::new(),
            interrupted: false,
            error: Some(error),
        });
    }
}

} // verus!
