//! The commands and tools of a session that have not finished.

use crate::data::Data;
use crate::status_state::{StatusIndicatorState, TerminalTitleStatusKind};
use crate::text::same_text;
use crate::thread::CommandExecutionSource;
use vstd::prelude::*;

verus! {

/// Whether a command runs in a terminal that outlives the call.
pub fn is_unified_exec_source(source: CommandExecutionSource) -> (r: bool)
    ensures
        r == (source == CommandExecutionSource::UnifiedExecStartup || source
            == CommandExecutionSource::UnifiedExecInteraction),
{
    match source {
        CommandExecutionSource::UnifiedExecStartup => true,
        CommandExecutionSource::UnifiedExecInteraction => true,
        _ => false,
    }
}

/// A row of waits for one process, and what was shown before the first one.
#[derive(Debug)]
pub struct UnifiedExecWaitStreak {
    pub process_id: String,
    pub previous_status: StatusIndicatorState,
    pub previous_terminal_title_status_kind: TerminalTitleStatusKind,
}

impl UnifiedExecWaitStreak {
    /// A row of waits for a process.
    pub fn new(
        process_id: String,
        previous_status: StatusIndicatorState,
        previous_terminal_title_status_kind: TerminalTitleStatusKind,
    ) -> (r: Self)
        ensures
            r == (UnifiedExecWaitStreak {
                process_id,
                previous_status,
                previous_terminal_title_status_kind,
            }),
    {
        UnifiedExecWaitStreak {
            process_id,
            previous_status,
            previous_terminal_title_status_kind,
        }
    }
}

/// A process that runs in a terminal of its own.
#[derive(Debug)]
pub struct UnifiedExecProcessSummary {
    pub key: String,
    pub call_id: String,
    pub command_display: String,
    pub recent_chunks: Vec<String>,
}

/// What kind of cell shows a tool.
#[derive(Clone, Copy, Debug, PartialEq, Eq, Structural)]
pub enum ToolCellKind {
    Exec,
    Mcp,
    WebSearch,
    Other,
}

/// A call that a cell shows, and whether it is still running.
#[derive(Debug)]
pub struct ToolCall {
    pub call_id: String,
    pub running: bool,
}

impl DeepView for ToolCall {
    type V = (Seq<char>, bool);

    open spec fn deep_view(&self) -> Self::V {
        (self.call_id@, self.running)
    }
}

/// A cell that shows the calls of a tool.
#[derive(Debug)]
pub struct ToolCell {
    pub kind: ToolCellKind,
    pub calls: Vec<ToolCall>,
}

/// A call that has not finished, with the number of the cell that shows it.
#[derive(Debug)]
pub struct RunningTool {
    pub call_id: String,
    pub cell: u64,
    pub kind: ToolCellKind,
}

impl DeepView for RunningTool {
    type V = (Seq<char>, u64, ToolCellKind);

    open spec fn deep_view(&self) -> Self::V {
        (self.call_id@, self.cell, self.kind)
    }
}

impl Data for RunningTool {
    fn same(&self, other: &Self) -> (r: bool) {
        self.call_id.same(&other.call_id) && self.cell == other.cell && self.kind == other.kind
    }

    fn duplicate(&self) -> (r: Self) {
        RunningTool { call_id: self.call_id.duplicate(), cell: self.cell, kind: self.kind }
    }
}

/// How a call that has not finished ends with its turn.
#[derive(Clone, Copy, Debug, PartialEq, Eq, Structural)]
pub enum ToolEnd {
    Failed,
    Completed,
    Kept,
}

/// The commands and tools of a session that have not finished.
#[derive(Debug)]
pub struct ExecState {
    /// The calls of commands that run.
    pub running_commands: Vec<String>,
    pub unified_exec_processes: Vec<UnifiedExecProcessSummary>,
    /// The calls whose terminals go on after their turn was interrupted.
    pub interrupted_unified_exec_calls: Vec<String>,
    pub running_tool_cells: Vec<RunningTool>,
    /// The calls whose end is not shown.
    pub suppressed_exec_calls: Vec<String>,
    pub unified_exec_wait_streak: Option<UnifiedExecWaitStreak>,
}

/// The calls of processes.
pub open spec fn process_calls(processes: Seq<UnifiedExecProcessSummary>) -> Seq<Seq<char>> {
    processes.map_values(|process: UnifiedExecProcessSummary| process.call_id@)
}

/// The calls of running tools.
pub open spec fn tool_calls(tools: Seq<(Seq<char>, u64, ToolCellKind)>) -> Seq<Seq<char>> {
    tools.map_values(|tool: (Seq<char>, u64, ToolCellKind)| tool.0)
}

/// Every call that has not finished.
pub open spec fn unfinished_calls(state: ExecState) -> Seq<Seq<char>> {
    state.running_commands.deep_view() + process_calls(state.unified_exec_processes@)
        + state.interrupted_unified_exec_calls.deep_view() + tool_calls(
        state.running_tool_cells.deep_view(),
    )
}

/// The calls of a cell that are kept: those that run, and of a command also those that were
/// interrupted.
pub open spec fn kept_calls(
    calls: Seq<(Seq<char>, bool)>,
    kind: ToolCellKind,
    interrupted: Seq<Seq<char>>,
) -> Seq<Seq<char>>
    decreases calls.len(),
{
    if calls.len() == 0 || kind == ToolCellKind::Other {
        Seq::empty()
    } else {
        let front = kept_calls(calls.drop_last(), kind, interrupted);
        let call = calls.last();
        if call.1 || kind == ToolCellKind::Exec && interrupted.contains(call.0) {
            front.push(call.0)
        } else {
            front
        }
    }
}

/// The running tools with one more, in the place of one with the same call.
pub open spec fn tool_added(
    tools: Seq<(Seq<char>, u64, ToolCellKind)>,
    tool: (Seq<char>, u64, ToolCellKind),
) -> Seq<(Seq<char>, u64, ToolCellKind)>
    decreases tools.len(),
{
    if tools.len() == 0 {
        seq![tool]
    } else if tools[0].0 == tool.0 {
        tools.update(0, tool)
    } else {
        seq![tools[0]] + tool_added(tools.subrange(1, tools.len() as int), tool)
    }
}

/// The running tools with more of them, all in one cell.
pub open spec fn tools_added(
    tools: Seq<(Seq<char>, u64, ToolCellKind)>,
    calls: Seq<Seq<char>>,
    cell: u64,
    kind: ToolCellKind,
) -> Seq<(Seq<char>, u64, ToolCellKind)>
    decreases calls.len(),
{
    if calls.len() == 0 {
        tools
    } else {
        tool_added(tools_added(tools, calls.drop_last(), cell, kind), (calls.last(), cell, kind))
    }
}

/// The running tools whose calls are among the given ones.
pub open spec fn tools_among(
    tools: Seq<(Seq<char>, u64, ToolCellKind)>,
    calls: Seq<Seq<char>>,
) -> Seq<(Seq<char>, u64, ToolCellKind)>
    decreases tools.len(),
{
    if tools.len() == 0 {
        Seq::empty()
    } else {
        let front = tools_among(tools.drop_last(), calls);
        if calls.contains(tools.last().0) {
            front.push(tools.last())
        } else {
            front
        }
    }
}

/// How a cell of some kind is told that its turn is over.
pub open spec fn end_of(kind: ToolCellKind) -> ToolEnd {
    match kind {
        ToolCellKind::Exec => ToolEnd::Failed,
        ToolCellKind::Mcp => ToolEnd::Failed,
        ToolCellKind::WebSearch => ToolEnd::Completed,
        ToolCellKind::Other => ToolEnd::Kept,
    }
}

fn has_text(list: &Vec<String>, text: &str) -> (r: bool)
    ensures
        r == list.deep_view().contains(text@),
{
    let mut i: usize = 0;
    while i < list.len()
        invariant
            i <= list@.len(),
            forall|k: int| 0 <= k < i ==> (#[trigger] list@[k])@ != text@,
        decreases list@.len() - i,
    {
        if same_text(list[i].as_str(), text) {
            assert(list.deep_view()[i as int] == text@);
            return true;
        }
        i += 1;
    }
    proof {
        let all = list.deep_view();
        if all.contains(text@) {
            let k = choose|k: int| 0 <= k < all.len() && all[k] == text@;
            assert(list@[k]@ == text@);
        }
    }
    false
}

fn append_texts(list: &mut Vec<String>, more: &Vec<String>)
    ensures
        final(list).deep_view() == old(list).deep_view() + more.deep_view(),
{
    let ghost was = list.deep_view();
    let ghost all = more.deep_view();
    let mut i: usize = 0;
    assert(was + all.take(0) =~= was);
    while i < more.len()
        invariant
            i <= more@.len(),
            all == more.deep_view(),
            list.deep_view() == was + all.take(i as int),
        decreases more@.len() - i,
    {
        let ghost before = list.deep_view();
        list.push(more[i].clone());
        assert(list.deep_view() =~= before.push(more@[i as int]@));
        assert(was + all.take(i + 1) =~= before.push(more@[i as int]@));
        i += 1;
    }
    assert(all.take(i as int) =~= all);
}

impl ExecState {
    /// Nothing runs.
    pub fn new() -> (r: Self)
        ensures
            unfinished_calls(r).len() == 0,
            r.suppressed_exec_calls@.len() == 0,
            r.unified_exec_wait_streak is None,
    {
        ExecState {
            running_commands: Vec::new(),
            unified_exec_processes: Vec::new(),
            interrupted_unified_exec_calls: Vec::new(),
            running_tool_cells: Vec::new(),
            suppressed_exec_calls: Vec::new(),
            unified_exec_wait_streak: None,
        }
    }

    /// Every call that has not finished.
    pub fn unfinished(&self) -> (r: Vec<String>)
        ensures
            r.deep_view() == unfinished_calls(*self),
    {
        let mut r: Vec<String> = Vec::new();
        assert(r.deep_view() =~= Seq::empty());
        append_texts(&mut r, &self.running_commands);
        let ghost commands = self.running_commands.deep_view();
        assert(Seq::<Seq<char>>::empty() + commands =~= commands);
        let ghost processes = process_calls(self.unified_exec_processes@);
        let mut i: usize = 0;
        assert(commands + processes.take(0) =~= commands);
        while i < self.unified_exec_processes.len()
            invariant
                i <= self.unified_exec_processes@.len(),
                processes == process_calls(self.unified_exec_processes@),
                r.deep_view() == commands + processes.take(i as int),
            decreases self.unified_exec_processes@.len() - i,
        {
            let ghost before = r.deep_view();
            r.push(self.unified_exec_processes[i].call_id.clone());
            assert(r.deep_view() =~= before.push(processes[i as int]));
            assert(commands + processes.take(i + 1) =~= before.push(processes[i as int]));
            i += 1;
        }
        assert(processes.take(i as int) =~= processes);
        append_texts(&mut r, &self.interrupted_unified_exec_calls);
        let ghost others = r.deep_view();
        let ghost tools = tool_calls(self.running_tool_cells.deep_view());
        let mut j: usize = 0;
        assert(others + tools.take(0) =~= others);
        while j < self.running_tool_cells.len()
            invariant
                j <= self.running_tool_cells@.len(),
                tools == tool_calls(self.running_tool_cells.deep_view()),
                r.deep_view() == others + tools.take(j as int),
            decreases self.running_tool_cells@.len() - j,
        {
            let ghost before = r.deep_view();
            r.push(self.running_tool_cells[j].call_id.clone());
            assert(r.deep_view() =~= before.push(tools[j as int]));
            assert(others + tools.take(j + 1) =~= before.push(tools[j as int]));
            j += 1;
        }
        assert(tools.take(j as int) =~= tools);
        r
    }

    /// Forgets what belongs to removed history. The end of a call that has not finished is not
    /// shown later.
    pub fn clear_reverted_turn(&mut self)
        ensures
            final(self).running_commands == old(self).running_commands,
            final(self).unified_exec_processes@.len() == 0,
            final(self).interrupted_unified_exec_calls@.len() == 0,
            final(self).running_tool_cells@.len() == 0,
            final(self).unified_exec_wait_streak is None,
            final(self).suppressed_exec_calls.deep_view() == old(self).suppressed_exec_calls.deep_view() + unfinished_calls(*old(self)),
    {
        let discarded = self.unfinished();
        self.unified_exec_wait_streak = None;
        self.unified_exec_processes = Vec::new();
        self.interrupted_unified_exec_calls = Vec::new();
        self.running_tool_cells = Vec::new();
        append_texts(&mut self.suppressed_exec_calls, &discarded);
    }

    fn calls_to_keep(&self, cell: &ToolCell) -> (r: Vec<String>)
        ensures
            r.deep_view() == kept_calls(
                cell.calls.deep_view(),
                cell.kind,
                self.interrupted_unified_exec_calls.deep_view(),
            ),
    {
        let ghost all = cell.calls.deep_view();
        let ghost interrupted = self.interrupted_unified_exec_calls.deep_view();
        let mut r: Vec<String> = Vec::new();
        assert(r.deep_view() =~= Seq::empty());
        let other = cell.kind == ToolCellKind::Other;
        if other {
            return r;
        }
        let exec = cell.kind == ToolCellKind::Exec;
        let mut i: usize = 0;
        assert(all.take(0) =~= Seq::empty());
        while i < cell.calls.len()
            invariant
                i <= cell.calls@.len(),
                all == cell.calls.deep_view(),
                interrupted == self.interrupted_unified_exec_calls.deep_view(),
                cell.kind != ToolCellKind::Other,
                exec == (cell.kind == ToolCellKind::Exec),
                r.deep_view() == kept_calls(all.take(i as int), cell.kind, interrupted),
            decreases cell.calls@.len() - i,
        {
            let ghost before = r.deep_view();
            assert(all.take(i + 1).drop_last() =~= all.take(i as int));
            assert(all.take(i + 1).last() == cell.calls@[i as int].deep_view());
            let call = &cell.calls[i];
            if call.running || (exec && has_text(
                &self.interrupted_unified_exec_calls,
                call.call_id.as_str(),
            )) {
                r.push(call.call_id.clone());
                assert(r.deep_view() =~= before.push(call.call_id@));
            }
            i += 1;
        }
        assert(all.take(i as int) =~= all);
        r
    }

    fn add_tool(&mut self, call_id: &str, cell: u64, kind: ToolCellKind)
        ensures
            final(self).running_tool_cells.deep_view() == tool_added(
                old(self).running_tool_cells.deep_view(),
                (call_id@, cell, kind),
            ),
            *final(self) == (ExecState {
                running_tool_cells: final(self).running_tool_cells,
                ..*old(self)
            }),
    {
        let ghost was = self.running_tool_cells.deep_view();
        let ghost tool = (call_id@, cell, kind);
        let mut i: usize = 0;
        assert(was.subrange(0, was.len() as int) =~= was);
        assert(was.take(0) + tool_added(was, tool) =~= tool_added(was, tool));
        while i < self.running_tool_cells.len() && !same_text(
            self.running_tool_cells[i].call_id.as_str(),
            call_id,
        )
            invariant
                i <= self.running_tool_cells@.len(),
                was == self.running_tool_cells.deep_view(),
                tool == (call_id@, cell, kind),
                tool_added(was, tool) == was.take(i as int) + tool_added(
                    was.subrange(i as int, was.len() as int),
                    tool,
                ),
                *self == *old(self),
            ensures
                i <= self.running_tool_cells@.len(),
                was == self.running_tool_cells.deep_view(),
                tool_added(was, tool) == was.take(i as int) + tool_added(
                    was.subrange(i as int, was.len() as int),
                    tool,
                ),
                i < self.running_tool_cells@.len() ==> was[i as int].0 == call_id@,
                *self == *old(self),
            decreases self.running_tool_cells@.len() - i,
        {
            proof {
                let rest = was.subrange(i as int, was.len() as int);
                assert(rest[0] == self.running_tool_cells@[i as int].deep_view());
                let more = was.subrange(i + 1, was.len() as int);
                assert(rest.subrange(1, rest.len() as int) =~= more);
                assert(was.take(i as int) + (seq![rest[0]] + tool_added(more, tool)) =~= was.take(
                    i + 1,
                ) + tool_added(more, tool));
            }
            i += 1;
        }
        let entry = RunningTool { call_id: call_id.to_owned(), cell, kind };
        let ghost rest = was.subrange(i as int, was.len() as int);
        assert(was.len() == self.running_tool_cells@.len());
        if i < self.running_tool_cells.len() {
            assert(rest[0] == was[i as int]);
            self.running_tool_cells.set(i, entry);
            assert(self.running_tool_cells.deep_view() =~= was.update(i as int, tool));
            assert(was.take(i as int) + rest.update(0, tool) =~= was.update(i as int, tool));
        } else {
            self.running_tool_cells.push(entry);
            assert(self.running_tool_cells.deep_view() =~= was.push(tool));
            assert(was.take(i as int) + seq![tool] =~= was.push(tool));
        }
    }

    /// Keeps the calls of a cell that have not finished, and says whether there are any: the cell
    /// then stays in reach for their ends.
    pub fn retain_running_tool(&mut self, cell: &ToolCell, number: u64) -> (r: bool)
        ensures
            ({
                let kept = kept_calls(
                    cell.calls.deep_view(),
                    cell.kind,
                    old(self).interrupted_unified_exec_calls.deep_view(),
                );
                &&& r == (kept.len() > 0)
                &&& final(self).running_tool_cells.deep_view() == tools_added(
                    old(self).running_tool_cells.deep_view(),
                    kept,
                    number,
                    cell.kind,
                )
            }),
            *final(self) == (ExecState {
                running_tool_cells: final(self).running_tool_cells,
                ..*old(self)
            }),
    {
        let ids = self.calls_to_keep(cell);
        let ghost kept = ids.deep_view();
        let ghost was = self.running_tool_cells.deep_view();
        let mut i: usize = 0;
        assert(kept.take(0) =~= Seq::empty());
        while i < ids.len()
            invariant
                i <= ids@.len(),
                kept == ids.deep_view(),
                self.running_tool_cells.deep_view() == tools_added(
                    was,
                    kept.take(i as int),
                    number,
                    cell.kind,
                ),
                *self == (ExecState {
                    running_tool_cells: self.running_tool_cells,
                    ..*old(self)
                }),
            decreases ids@.len() - i,
        {
            assert(kept.take(i + 1).drop_last() =~= kept.take(i as int));
            assert(kept.take(i + 1).last() == ids@[i as int]@);
            self.add_tool(ids[i].as_str(), number, cell.kind);
            i += 1;
        }
        assert(kept.take(i as int) =~= kept);
        assert(kept.len() == ids@.len());
        ids.len() > 0
    }

    /// Ends the calls that have not finished with their turn: gives for each one how it ends, and
    /// keeps only those whose terminals go on.
    pub fn finalize_retained_tools(&mut self) -> (r: Vec<ToolEnd>)
        ensures
            r@ == old(self).running_tool_cells@.map_values(
                |tool: RunningTool| end_of(tool.kind),
            ),
            final(self).running_tool_cells.deep_view() == tools_among(
                old(self).running_tool_cells.deep_view(),
                old(self).interrupted_unified_exec_calls.deep_view(),
            ),
            *final(self) == (ExecState {
                running_tool_cells: final(self).running_tool_cells,
                ..*old(self)
            }),
    {
        let ghost was = self.running_tool_cells.deep_view();
        let ghost interrupted = self.interrupted_unified_exec_calls.deep_view();
        let mut r: Vec<ToolEnd> = Vec::new();
        let mut kept: Vec<RunningTool> = Vec::new();
        let mut i: usize = 0;
        assert(was.take(0) =~= Seq::empty());
        assert(kept.deep_view() =~= Seq::empty());
        while i < self.running_tool_cells.len()
            invariant
                i <= self.running_tool_cells@.len(),
                was == self.running_tool_cells.deep_view(),
                interrupted == self.interrupted_unified_exec_calls.deep_view(),
                r@.len() == i,
                forall|k: int|
                    0 <= k < i ==> (#[trigger] r@[k]) == end_of(self.running_tool_cells@[k].kind),
                kept.deep_view() == tools_among(was.take(i as int), interrupted),
                *self == *old(self),
            decreases self.running_tool_cells@.len() - i,
        {
            let ghost before = kept.deep_view();
            assert(was.take(i + 1).drop_last() =~= was.take(i as int));
            assert(was.take(i + 1).last() == self.running_tool_cells@[i as int].deep_view());
            let tool = &self.running_tool_cells[i];
            r.push(
                match tool.kind {
                    ToolCellKind::Exec => ToolEnd::Failed,
                    ToolCellKind::Mcp => ToolEnd::Failed,
                    ToolCellKind::WebSearch => ToolEnd::Completed,
                    ToolCellKind::Other => ToolEnd::Kept,
                },
            );
            if has_text(&self.interrupted_unified_exec_calls, tool.call_id.as_str()) {
                kept.push(tool.duplicate());
                assert(kept.deep_view() =~= before.push(was[i as int]));
            }
            i += 1;
        }
        assert(was.take(i as int) =~= was);
        assert(r@ =~= old(self).running_tool_cells@.map_values(
            |tool: RunningTool| end_of(tool.kind),
        ));
        self.running_tool_cells = kept;
        r
    }
}

proof fn lemma_tools_among(
    tools: Seq<(Seq<char>, u64, ToolCellKind)>,
    calls: Seq<Seq<char>>,
    tool: (Seq<char>, u64, ToolCellKind),
)
    ensures
        tools_among(tools, calls).contains(tool) <==> tools.contains(tool) && calls.contains(
            tool.0,
        ),
    decreases tools.len(),
{
    if tools.len() > 0 {
        let front = tools.drop_last();
        lemma_tools_among(front, calls, tool);
        let rest = tools_among(front, calls);
        assert(tools =~= front.push(tools.last()));
        if tools.contains(tool) {
            let i = choose|i: int| 0 <= i < tools.len() && tools[i] == tool;
            if i < front.len() {
                assert(front[i] == tool);
            }
        }
        if front.contains(tool) {
            let i = choose|i: int| 0 <= i < front.len() && front[i] == tool;
            assert(tools[i] == tool);
        }
        assert(tools[tools.len() - 1] == tools.last());
        if calls.contains(tools.last().0) {
            let all = rest.push(tools.last());
            if rest.contains(tool) {
                let i = choose|i: int| 0 <= i < rest.len() && rest[i] == tool;
                assert(all[i] == tool);
            }
            if all.contains(tool) {
                let i = choose|i: int| 0 <= i < all.len() && all[i] == tool;
                if i < rest.len() {
                    assert(rest[i] == tool);
                }
            }
            assert(all[rest.len() as int] == tools.last());
        }
    }
}

/// Of the tools that have not finished, exactly those whose terminals go on stay in reach at the
/// end of a turn.
pub proof fn interrupted_terminals_stay(
    tools: Seq<(Seq<char>, u64, ToolCellKind)>,
    interrupted: Seq<Seq<char>>,
    tool: (Seq<char>, u64, ToolCellKind),
)
    requires
        tools.contains(tool),
    ensures
        tools_among(tools, interrupted).contains(tool) <==> interrupted.contains(tool.0),
{
    lemma_tools_among(tools, interrupted, tool);
}

/// A call of a cell is kept exactly where it runs, or is a command whose terminal goes on after
/// its turn was interrupted. Calls that are neither commands nor tools are not kept.
pub proof fn running_calls_are_kept(
    calls: Seq<(Seq<char>, bool)>,
    kind: ToolCellKind,
    interrupted: Seq<Seq<char>>,
    id: Seq<char>,
)
    ensures
        kept_calls(calls, kind, interrupted).contains(id) <==> kind != ToolCellKind::Other && (
        calls.contains((id, true)) || calls.contains((id, false)) && kind == ToolCellKind::Exec
            && interrupted.contains(id)),
    decreases calls.len(),
{
    if calls.len() > 0 && kind != ToolCellKind::Other {
        let front = calls.drop_last();
        running_calls_are_kept(front, kind, interrupted, id);
        let before = kept_calls(front, kind, interrupted);
        let all = kept_calls(calls, kind, interrupted);
        lemma_contains_last(calls, (id, true));
        lemma_contains_last(calls, (id, false));
        if all.len() > before.len() {
            assert(all.drop_last() =~= before);
            lemma_contains_last(all, id);
        }
    }
}

proof fn lemma_contains_last<A>(s: Seq<A>, x: A)
    requires
        s.len() > 0,
    ensures
        s.contains(x) <==> s.drop_last().contains(x) || s.last() == x,
{
    if s.contains(x) {
        let i = choose|i: int| 0 <= i < s.len() && s[i] == x;
        if i < s.len() - 1 {
            assert(s.drop_last()[i] == x);
        }
    }
    if s.drop_last().contains(x) {
        let i = choose|i: int| 0 <= i < s.drop_last().len() && s.drop_last()[i] == x;
        assert(s[i] == x);
    }
    if s.last() == x {
        assert(s[s.len() - 1] == x);
    }
}

/// A call that is kept takes the place of an earlier one with the same id, and no other call is
/// lost or changed.
pub proof fn kept_calls_replace_their_own(
    tools: Seq<(Seq<char>, u64, ToolCellKind)>,
    tool: (Seq<char>, u64, ToolCellKind),
    x: (Seq<char>, u64, ToolCellKind),
)
    requires
        forall|i: int, j: int|
            0 <= i < j < tools.len() ==> (#[trigger] tools[i]).0 != (#[trigger] tools[j]).0,
    ensures
        tool_added(tools, tool).contains(x) <==> x == tool || tools.contains(x) && x.0 != tool.0,
    decreases tools.len(),
{
    if tools.len() == 0 {
        assert(seq![tool][0] == tool);
    } else if tools[0].0 == tool.0 {
        let all = tools.update(0, tool);
        assert(all[0] == tool);
        if all.contains(x) {
            let i = choose|i: int| 0 <= i < all.len() && all[i] == x;
            if i > 0 {
                assert(tools[i] == x);
                assert(tools[0].0 != tools[i].0);
            }
        }
        if tools.contains(x) && x.0 != tool.0 {
            let i = choose|i: int| 0 <= i < tools.len() && tools[i] == x;
            assert(all[i] == x);
        }
    } else {
        let rest = tools.subrange(1, tools.len() as int);
        assert forall|i: int, j: int| 0 <= i < j < rest.len() implies (#[trigger] rest[i]).0 != (
        #[trigger] rest[j]).0 by {
            assert(tools[i + 1].0 != tools[j + 1].0);
        }
        kept_calls_replace_their_own(rest, tool, x);
        let more = tool_added(rest, tool);
        let all = seq![tools[0]] + more;
        if all.contains(x) {
            let i = choose|i: int| 0 <= i < all.len() && all[i] == x;
            if i > 0 {
                assert(more[i - 1] == x);
                if rest.contains(x) {
                    let k = choose|k: int| 0 <= k < rest.len() && rest[k] == x;
                    assert(tools[k + 1] == x);
                }
            } else {
                assert(tools[0] == x);
            }
        }
        if more.contains(x) {
            let k = choose|k: int| 0 <= k < more.len() && more[k] == x;
            assert(all[k + 1] == x);
        }
        if tools.contains(x) && x.0 != tool.0 {
            let k = choose|k: int| 0 <= k < tools.len() && tools[k] == x;
            if k == 0 {
                assert(all[0] == x);
            } else {
                assert(rest[k - 1] == x);
            }
        }
    }
}

proof fn lemma_tool_added_finds(
    tools: Seq<(Seq<char>, u64, ToolCellKind)>,
    tool: (Seq<char>, u64, ToolCellKind),
    x: (Seq<char>, u64, ToolCellKind),
)
    ensures
        tool_added(tools, tool).contains(tool),
        tools.contains(x) && x.0 != tool.0 ==> tool_added(tools, tool).contains(x),
    decreases tools.len(),
{
    if tools.len() == 0 {
        assert(seq![tool][0] == tool);
    } else if tools[0].0 == tool.0 {
        let all = tools.update(0, tool);
        assert(all[0] == tool);
        if tools.contains(x) && x.0 != tool.0 {
            let i = choose|i: int| 0 <= i < tools.len() && tools[i] == x;
            assert(all[i] == x);
        }
    } else {
        let rest = tools.subrange(1, tools.len() as int);
        lemma_tool_added_finds(rest, tool, x);
        let more = tool_added(rest, tool);
        let all = seq![tools[0]] + more;
        let k = choose|k: int| 0 <= k < more.len() && more[k] == tool;
        assert(all[k + 1] == tool);
        if tools.contains(x) && x.0 != tool.0 {
            let i = choose|i: int| 0 <= i < tools.len() && tools[i] == x;
            if i == 0 {
                assert(all[0] == x);
            } else {
                assert(rest[i - 1] == x);
                let l = choose|l: int| 0 <= l < more.len() && more[l] == x;
                assert(all[l + 1] == x);
            }
        }
    }
}

/// Every call that a cell keeps is found again under the number of the cell, and the calls of
/// other cells stay.
pub proof fn kept_calls_are_found_again(
    tools: Seq<(Seq<char>, u64, ToolCellKind)>,
    calls: Seq<Seq<char>>,
    cell: u64,
    kind: ToolCellKind,
    x: (Seq<char>, u64, ToolCellKind),
)
    ensures
        calls.contains(x.0) && x == (x.0, cell, kind) ==> tools_added(
            tools,
            calls,
            cell,
            kind,
        ).contains(x),
        tools.contains(x) && !calls.contains(x.0) ==> tools_added(
            tools,
            calls,
            cell,
            kind,
        ).contains(x),
    decreases calls.len(),
{
    if calls.len() > 0 {
        let front = calls.drop_last();
        kept_calls_are_found_again(tools, front, cell, kind, x);
        lemma_contains_last(calls, x.0);
        lemma_tool_added_finds(
            tools_added(tools, front, cell, kind),
            (calls.last(), cell, kind),
            x,
        );
    }
}

/// Every command, every process, every interrupted call and every tool that has not finished is
/// among the unfinished calls, and nothing else.
pub proof fn unfinished_calls_are_all_that_run(state: ExecState, id: Seq<char>)
    ensures
        unfinished_calls(state).contains(id) <==> {
            ||| exists|i: int|
                0 <= i < state.running_commands@.len() && (
                #[trigger] state.running_commands@[i])@ == id
            ||| exists|i: int|
                0 <= i < state.unified_exec_processes@.len() && (
                #[trigger] state.unified_exec_processes@[i]).call_id@ == id
            ||| exists|i: int|
                0 <= i < state.interrupted_unified_exec_calls@.len() && (
                #[trigger] state.interrupted_unified_exec_calls@[i])@ == id
            ||| exists|i: int|
                0 <= i < state.running_tool_cells@.len() && (
                #[trigger] state.running_tool_cells@[i]).call_id@ == id
        },
{
    let a = state.running_commands.deep_view();
    let b = process_calls(state.unified_exec_processes@);
    let c = state.interrupted_unified_exec_calls.deep_view();
    let d = tool_calls(state.running_tool_cells.deep_view());
    let all = unfinished_calls(state);
    assert(all == a + b + c + d);
    assert(a.len() == state.running_commands@.len());
    assert(b.len() == state.unified_exec_processes@.len());
    assert(c.len() == state.interrupted_unified_exec_calls@.len());
    assert(d.len() == state.running_tool_cells@.len());
    if all.contains(id) {
        let k = choose|k: int| 0 <= k < all.len() && all[k] == id;
        if k < a.len() {
            assert(state.running_commands@[k]@ == id);
        } else if k < a.len() + b.len() {
            assert(state.unified_exec_processes@[k - a.len()].call_id@ == id);
        } else if k < a.len() + b.len() + c.len() {
            assert(state.interrupted_unified_exec_calls@[k - a.len() - b.len()]@ == id);
        } else {
            assert(state.running_tool_cells@[k - a.len() - b.len() - c.len()].call_id@ == id);
        }
    }
    assert forall|i: int|
        0 <= i < state.running_commands@.len() && (#[trigger] state.running_commands@[i])@
            == id implies all.contains(id) by {
        assert(all[i] == id);
    }
    assert forall|i: int|
        0 <= i < state.unified_exec_processes@.len() && (
        #[trigger] state.unified_exec_processes@[i]).call_id@ == id implies all.contains(id) by {
        assert(all[a.len() + i] == id);
    }
    assert forall|i: int|
        0 <= i < state.interrupted_unified_exec_calls@.len() && (
        #[trigger] state.interrupted_unified_exec_calls@[i])@ == id implies all.contains(id) by {
        assert(all[a.len() + b.len() + i] == id);
    }
    assert forall|i: int|
        0 <= i < state.running_tool_cells@.len() && (#[trigger] state.running_tool_cells@[i]).call_id@
            == id implies all.contains(id) by {
        assert(all[a.len() + b.len() + c.len() + i] == id);
    }
}

/// At the end of a turn a command or a tool that did not finish has failed, and only a search is
/// taken to be complete.
pub proof fn unfinished_tools_fail(kind: ToolCellKind)
    ensures
        end_of(kind) == ToolEnd::Failed <==> kind == ToolCellKind::Exec || kind
            == ToolCellKind::Mcp,
        end_of(kind) == ToolEnd::Completed <==> kind == ToolCellKind::WebSearch,
{
}

} // verus!
