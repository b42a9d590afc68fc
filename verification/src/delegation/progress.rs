//! Progress of delegated children: the events they report, the log that
//! keeps them, and batching of tool notifications into summaries.

use vstd::prelude::*;
use crate::clock::{utc_now_millis, valid_clock_millis};
use crate::text::{clone_opt_string, join_strings, opt_view, spec_join, string_views};

verus! {

/// Kind of a progress event.
#[derive(Debug, Clone, Copy, PartialEq, Eq, Structural)]
pub enum ProgressEventType {
    ToolStarted,
    ToolCompleted,
    Thinking,
    SubagentProgress,
    Started,
    Completed,
    Failed,
    Interrupted,
}

/// Something a child reported. The timestamp is milliseconds since the
/// Unix epoch, as the UTC clock reported it.
#[derive(Debug)]
pub struct ProgressEvent {
    pub event_type: ProgressEventType,
    pub agent_id: String,
    pub task_index: usize,
    pub tool_name: Option<String>,
    pub preview: Option<String>,
    pub timestamp: i64,
}

/// The contents of a [`ProgressEvent`], strings taken as characters.
pub ghost struct ProgressEventView {
    pub event_type: ProgressEventType,
    pub agent_id: Seq<char>,
    pub task_index: usize,
    pub tool_name: Option<Seq<char>>,
    pub preview: Option<Seq<char>>,
    pub timestamp: i64,
}

impl View for ProgressEvent {
    type V = ProgressEventView;

    open spec fn view(&self) -> ProgressEventView {
        ProgressEventView {
            event_type: self.event_type,
            agent_id: self.agent_id@,
            task_index: self.task_index,
            tool_name: opt_view(self.tool_name),
            preview: opt_view(self.preview),
            timestamp: self.timestamp,
        }
    }
}

impl Clone for ProgressEvent {
    fn clone(&self) -> (res: Self)
        ensures
            res == *self,
    {
        ProgressEvent {
            event_type: self.event_type,
            agent_id: self.agent_id.clone(),
            task_index: self.task_index,
            tool_name: clone_opt_string(&self.tool_name),
            preview: clone_opt_string(&self.preview),
            timestamp: self.timestamp,
        }
    }
}

/// The contents of each event.
pub open spec fn event_views(events: Seq<ProgressEvent>) -> Seq<ProgressEventView> {
    events.map_values(|e: ProgressEvent| e@)
}

/// Whether `e` is an event of kind `kind` from child `agent_id` at
/// `task_index`, with the given tool name and preview, stamped with a
/// time the clock can report.
pub open spec fn is_event(
    e: ProgressEventView,
    kind: ProgressEventType,
    agent_id: Seq<char>,
    task_index: usize,
    tool_name: Option<Seq<char>>,
    preview: Option<Seq<char>>,
) -> bool {
    &&& e.event_type == kind
    &&& e.agent_id == agent_id
    &&& e.task_index == task_index
    &&& e.tool_name == tool_name
    &&& e.preview == preview
    &&& valid_clock_millis(e.timestamp)
}

impl ProgressEvent {
    /// An event stamped with the current time.
    fn stamped(
        event_type: ProgressEventType,
        agent_id: String,
        task_index: usize,
        tool_name: Option<String>,
        preview: Option<String>,
    ) -> (res: Self)
        ensures
            res.event_type == event_type,
            res.agent_id == agent_id,
            res.task_index == task_index,
            res.tool_name == tool_name,
            res.preview == preview,
            valid_clock_millis(res.timestamp),
    {
        ProgressEvent {
            event_type,
            agent_id,
            task_index,
            tool_name,
            preview,
            timestamp: utc_now_millis(),
        }
    }

    /// A child started tool `tool_name`, with an optional preview of its input.
    pub fn tool_started(agent_id: String, task_index: usize, tool_name: String, preview: Option<String>) -> (res: Self)
        ensures
            is_event(res@, ProgressEventType::ToolStarted, agent_id@, task_index, Some(tool_name@), opt_view(preview)),
    {
        ProgressEvent::stamped(ProgressEventType::ToolStarted, agent_id, task_index, Some(tool_name), preview)
    }

    /// A child finished tool `tool_name`.
    pub fn tool_completed(agent_id: String, task_index: usize, tool_name: String) -> (res: Self)
        ensures
            is_event(res@, ProgressEventType::ToolCompleted, agent_id@, task_index, Some(tool_name@), None),
    {
        ProgressEvent::stamped(ProgressEventType::ToolCompleted, agent_id, task_index, Some(tool_name), None)
    }

    /// A child is thinking; `text` previews the thought.
    pub fn thinking(agent_id: String, task_index: usize, text: String) -> (res: Self)
        ensures
            is_event(res@, ProgressEventType::Thinking, agent_id@, task_index, None, Some(text@)),
    {
        ProgressEvent::stamped(ProgressEventType::Thinking, agent_id, task_index, None, Some(text))
    }

    /// A child made progress, summarised by `summary`.
    pub fn subagent_progress(agent_id: String, task_index: usize, summary: String) -> (res: Self)
        ensures
            is_event(res@, ProgressEventType::SubagentProgress, agent_id@, task_index, None, Some(summary@)),
    {
        ProgressEvent::stamped(ProgressEventType::SubagentProgress, agent_id, task_index, None, Some(summary))
    }
}

/// The log of progress events, oldest first. Each emitted event is handed
/// back so that the caller can pass it on to whoever listens.
pub struct ProgressTracker {
    events: Vec<ProgressEvent>,
}

impl View for ProgressTracker {
    type V = Seq<ProgressEventView>;

    closed spec fn view(&self) -> Seq<ProgressEventView> {
        event_views(self.events@)
    }
}

impl ProgressTracker {
    /// An empty log.
    pub fn new() -> (res: Self)
        ensures
            res@ == Seq::<ProgressEventView>::empty(),
    {
        let res = ProgressTracker { events: Vec::new() };
        assert(res@ =~= Seq::<ProgressEventView>::empty());
        res
    }

    /// Logs `event` and hands it back for delivery.
    pub fn emit(&mut self, event: ProgressEvent) -> (delivered: ProgressEvent)
        ensures
            final(self)@ == old(self)@.push(event@),
            delivered == event,
    {
        let copy = event.clone();
        self.events.push(copy);
        assert(event_views(self.events@) =~= old(self)@.push(event@));
        event
    }

    /// Logs and hands back a tool-started event stamped now.
    pub fn emit_tool_started(
        &mut self,
        agent_id: String,
        task_index: usize,
        tool_name: String,
        preview: Option<String>,
    ) -> (delivered: ProgressEvent)
        ensures
            is_event(delivered@, ProgressEventType::ToolStarted, agent_id@, task_index, Some(tool_name@), opt_view(preview)),
            final(self)@ == old(self)@.push(delivered@),
    {
        self.emit(ProgressEvent::tool_started(agent_id, task_index, tool_name, preview))
    }

    /// Logs and hands back a tool-completed event stamped now.
    pub fn emit_tool_completed(&mut self, agent_id: String, task_index: usize, tool_name: String) -> (delivered: ProgressEvent)
        ensures
            is_event(delivered@, ProgressEventType::ToolCompleted, agent_id@, task_index, Some(tool_name@), None),
            final(self)@ == old(self)@.push(delivered@),
    {
        self.emit(ProgressEvent::tool_completed(agent_id, task_index, tool_name))
    }

    /// Logs and hands back a thinking event stamped now.
    pub fn emit_thinking(&mut self, agent_id: String, task_index: usize, text: String) -> (delivered: ProgressEvent)
        ensures
            is_event(delivered@, ProgressEventType::Thinking, agent_id@, task_index, None, Some(text@)),
            final(self)@ == old(self)@.push(delivered@),
    {
        self.emit(ProgressEvent::thinking(agent_id, task_index, text))
    }

    /// Logs and hands back a progress summary event stamped now.
    pub fn emit_subagent_progress(&mut self, agent_id: String, task_index: usize, summary: String) -> (delivered: ProgressEvent)
        ensures
            is_event(delivered@, ProgressEventType::SubagentProgress, agent_id@, task_index, None, Some(summary@)),
            final(self)@ == old(self)@.push(delivered@),
    {
        self.emit(ProgressEvent::subagent_progress(agent_id, task_index, summary))
    }

    /// Copies of the logged events, oldest first.
    pub fn get_events(&self) -> (res: Vec<ProgressEvent>)
        ensures
            event_views(res@) == self@,
    {
        let mut res: Vec<ProgressEvent> = Vec::new();
        let n = self.events.len();
        for i in 0..n
            invariant
                n == self.events@.len(),
                res@ == self.events@.take(i as int),
        {
            res.push(self.events[i].clone());
            assert(res@ =~= self.events@.take(i + 1));
        }
        assert(self.events@.take(n as int) =~= self.events@);
        res
    }

    /// Forgets every logged event.
    pub fn clear(&mut self)
        ensures
            final(self)@ == Seq::<ProgressEventView>::empty(),
    {
        self.events.clear();
        assert(event_views(self.events@) =~= Seq::<ProgressEventView>::empty());
    }
}

/// Separator between tool names in a batched summary.
pub open spec fn tool_separator() -> Seq<char> {
    ", "@
}

/// Collects tool names and reports them as one progress summary once
/// `batch_size` of them have gathered.
pub struct BatchedProgress {
    batch: Vec<String>,
    batch_size: usize,
}

/// The contents of a [`BatchedProgress`].
pub ghost struct BatchedProgressView {
    pub batch: Seq<Seq<char>>,
    pub batch_size: usize,
}

impl View for BatchedProgress {
    type V = BatchedProgressView;

    closed spec fn view(&self) -> BatchedProgressView {
        BatchedProgressView { batch: string_views(self.batch@), batch_size: self.batch_size }
    }
}

impl BatchedProgress {
    /// An empty batch that reports every `batch_size` tools.
    pub fn new(batch_size: usize) -> (res: Self)
        ensures
            res@.batch == Seq::<Seq<char>>::empty(),
            res@.batch_size == batch_size,
    {
        let res = BatchedProgress { batch: Vec::new(), batch_size };
        assert(res@.batch =~= Seq::<Seq<char>>::empty());
        res
    }

    /// Empties the batch, logging its tools joined by `", "` as a progress
    /// summary on `tracker`.
    fn report(&mut self, tracker: &mut ProgressTracker, agent_id: String, task_index: usize) -> (delivered: ProgressEvent)
        ensures
            final(self)@.batch == Seq::<Seq<char>>::empty(),
            final(self)@.batch_size == old(self)@.batch_size,
            is_event(
                delivered@,
                ProgressEventType::SubagentProgress,
                agent_id@,
                task_index,
                None,
                Some(spec_join(old(self)@.batch, tool_separator())),
            ),
            final(tracker)@ == old(tracker)@.push(delivered@),
    {
        let mut tools: Vec<String> = Vec::new();
        std::mem::swap(&mut tools, &mut self.batch);
        assert(string_views(self.batch@) =~= Seq::<Seq<char>>::empty());
        let summary = join_strings(&tools, ", ");
        tracker.emit_subagent_progress(agent_id, task_index, summary)
    }

    /// Adds `tool_name` to the batch. Once the batch holds `batch_size`
    /// tools it is emptied into one progress summary on `tracker`, which is
    /// handed back.
    pub fn add_tool(
        &mut self,
        tracker: &mut ProgressTracker,
        agent_id: String,
        task_index: usize,
        tool_name: String,
    ) -> (delivered: Option<ProgressEvent>)
        ensures
            final(self)@.batch_size == old(self)@.batch_size,
            old(self)@.batch.len() < old(self)@.batch_size ==> final(self)@.batch.len()
                < final(self)@.batch_size,
            ({
                let gathered = old(self)@.batch.push(tool_name@);
                if gathered.len() >= old(self)@.batch_size {
                    &&& final(self)@.batch == Seq::<Seq<char>>::empty()
                    &&& delivered is Some
                    &&& is_event(
                        delivered.unwrap()@,
                        ProgressEventType::SubagentProgress,
                        agent_id@,
                        task_index,
                        None,
                        Some(spec_join(gathered, tool_separator())),
                    )
                    &&& final(tracker)@ == old(tracker)@.push(delivered.unwrap()@)
                } else {
                    &&& final(self)@.batch == gathered
                    &&& delivered is None
                    &&& final(tracker)@ == old(tracker)@
                }
            }),
    {
        self.batch.push(tool_name);
        assert(string_views(self.batch@) =~= old(self)@.batch.push(tool_name@));
        if self.batch.len() >= self.batch_size {
            Some(self.report(tracker, agent_id, task_index))
        } else {
            None
        }
    }

    /// Reports whatever tools remain in the batch as one progress summary
    /// on `tracker`; does nothing when the batch is empty.
    pub fn flush(&mut self, tracker: &mut ProgressTracker, agent_id: String, task_index: usize) -> (delivered: Option<
        ProgressEvent,
    >)
        ensures
            final(self)@.batch_size == old(self)@.batch_size,
            final(self)@.batch == Seq::<Seq<char>>::empty(),
            if old(self)@.batch.len() > 0 {
                &&& delivered is Some
                &&& is_event(
                    delivered.unwrap()@,
                    ProgressEventType::SubagentProgress,
                    agent_id@,
                    task_index,
                    None,
                    Some(spec_join(old(self)@.batch, tool_separator())),
                )
                &&& final(tracker)@ == old(tracker)@.push(delivered.unwrap()@)
            } else {
                &&& delivered is None
                &&& final(tracker)@ == old(tracker)@
            },
    {
        if self.batch.len() > 0 {
            Some(self.report(tracker, agent_id, task_index))
        } else {
            assert(old(self)@.batch =~= Seq::<Seq<char>>::empty());
            None
        }
    }
}

} // verus!
