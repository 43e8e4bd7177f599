//! Turning persisted turns into the cells of the transcript.

use crate::data::Data;
use crate::patches::{self, new_patch_apply_failure};
use crate::styled::{dim, line1, line2, plain, span, span_of, SpanStyle, StyledLine, Tint};
use crate::text::{concat2, concat3, is_blank, join, trim_end, trim_start};
use crate::thread::{CommandAction, CommandActionModel, CommandExecutionSource};
use crate::thread::{CommandExecutionStatus, FileChange, FileChangeModel, PatchApplyStatus};
use crate::thread::{PatchedFile, TextElement, ThreadItem, Turn, UserMessageDisplay};
use vstd::prelude::*;

verus! {

/// Whether the transcript shows reasoning in full.
#[derive(Clone, Copy, Debug, PartialEq, Eq, Structural)]
pub enum RawReasoningVisibility {
    Hidden,
    Visible,
}

/// How a command ended.
pub struct ExecCompletion {
    pub exit_code: i32,
    pub output: String,
    pub duration_ms: u64,
}

/// A cell of the transcript.
pub enum TranscriptCell {
    User {
        message: String,
        text_elements: Vec<TextElement>,
        local_image_paths: Vec<String>,
        remote_image_urls: Vec<String>,
    },
    AgentMarkdown { text: String },
    Delegated { text: String },
    ProposedPlan { text: String },
    Reasoning { header: String, text: String },
    UnifiedExecInteraction { command_display: Option<String> },
    Exec {
        id: String,
        command: Vec<String>,
        actions: Vec<CommandAction>,
        source: CommandExecutionSource,
        completion: Option<ExecCompletion>,
    },
    Patch { path: String, change: FileChange },
    Plain { lines: Vec<StyledLine> },
}

/// The model of a cell of the transcript.
pub ghost enum CellModel {
    User {
        message: Seq<char>,
        text_elements: Seq<(usize, usize, Option<Seq<char>>)>,
        local_image_paths: Seq<Seq<char>>,
        remote_image_urls: Seq<Seq<char>>,
    },
    AgentMarkdown { text: Seq<char> },
    Delegated { text: Seq<char> },
    ProposedPlan { text: Seq<char> },
    Reasoning { header: Seq<char>, text: Seq<char> },
    UnifiedExecInteraction { command_display: Option<Seq<char>> },
    Exec {
        id: Seq<char>,
        command: Seq<Seq<char>>,
        actions: Seq<CommandActionModel>,
        source: CommandExecutionSource,
        completion: Option<(i32, Seq<char>, u64)>,
    },
    Patch { path: Seq<char>, change: FileChangeModel },
    Plain { lines: Seq<Seq<(Seq<char>, SpanStyle)>> },
}

impl DeepView for ExecCompletion {
    type V = (i32, Seq<char>, u64);

    open spec fn deep_view(&self) -> Self::V {
        (self.exit_code, self.output@, self.duration_ms)
    }
}

impl DeepView for TranscriptCell {
    type V = CellModel;

    open spec fn deep_view(&self) -> Self::V {
        match self {
            TranscriptCell::User {
                message,
                text_elements,
                local_image_paths,
                remote_image_urls,
            } => CellModel::User {
                message: message@,
                text_elements: text_elements.deep_view(),
                local_image_paths: local_image_paths.deep_view(),
                remote_image_urls: remote_image_urls.deep_view(),
            },
            TranscriptCell::AgentMarkdown { text } => CellModel::AgentMarkdown { text: text@ },
            TranscriptCell::Delegated { text } => CellModel::Delegated { text: text@ },
            TranscriptCell::ProposedPlan { text } => CellModel::ProposedPlan { text: text@ },
            TranscriptCell::Reasoning { header, text } => CellModel::Reasoning {
                header: header@,
                text: text@,
            },
            TranscriptCell::UnifiedExecInteraction {
                command_display,
            } => CellModel::UnifiedExecInteraction { command_display: command_display.deep_view() },
            TranscriptCell::Exec { id, command, actions, source, completion } => CellModel::Exec {
                id: id@,
                command: command.deep_view(),
                actions: actions.deep_view(),
                source: *source,
                completion: completion.deep_view(),
            },
            TranscriptCell::Patch { path, change } => CellModel::Patch {
                path: path@,
                change: change.deep_view(),
            },
            TranscriptCell::Plain { lines } => CellModel::Plain { lines: lines.deep_view() },
        }
    }
}

/// The cell of a user message.
pub open spec fn user_cell(display: UserMessageDisplay) -> CellModel {
    CellModel::User {
        message: display.message@,
        text_elements: display.text_elements.deep_view(),
        local_image_paths: display.local_images.deep_view(),
        remote_image_urls: display.remote_image_urls.deep_view(),
    }
}

/// The exit code to show: a completed command succeeded unless it says otherwise, and one that
/// did not complete failed even where it says zero or nothing.
pub open spec fn shown_exit_code(status: CommandExecutionStatus, exit_code: Option<i32>) -> i32 {
    if status == CommandExecutionStatus::Completed {
        match exit_code {
            Some(code) => code,
            None => 0,
        }
    } else {
        match exit_code {
            Some(code) => if code != 0 {
                code
            } else {
                1
            },
            None => 1,
        }
    }
}

/// The duration to show: at least zero, and zero where none is known.
pub open spec fn shown_duration(duration_ms: Option<i64>) -> u64 {
    match duration_ms {
        Some(ms) => if ms >= 0 {
            ms as u64
        } else {
            0
        },
        None => 0,
    }
}

/// How a command ended, where it did.
pub open spec fn completion(
    status: CommandExecutionStatus,
    exit_code: Option<i32>,
    output: Option<String>,
    duration_ms: Option<i64>,
) -> Option<(i32, Seq<char>, u64)> {
    if status == CommandExecutionStatus::InProgress {
        None
    } else {
        Some(
            (
                shown_exit_code(status, exit_code),
                match output {
                    Some(output) => output@,
                    None => Seq::empty(),
                },
                shown_duration(duration_ms),
            ),
        )
    }
}

/// The cell of a text, unless it is blank.
pub open spec fn unless_blank(text: Seq<char>, cell: CellModel) -> Seq<CellModel> {
    if crate::text::blank(text) {
        Seq::empty()
    } else {
        seq![cell]
    }
}

/// The header and the text of a reasoning.
pub open spec fn reasoning_parts(
    summary: (String, String),
    content: Seq<Seq<char>>,
    visibility: RawReasoningVisibility,
) -> (Seq<char>, Seq<char>) {
    if visibility == RawReasoningVisibility::Visible && content.len() > 0 {
        ("Reasoning"@, crate::text::joined(content, "\n\n"@))
    } else {
        (summary.0@, summary.1@)
    }
}

/// The lines of an item that has no cell of its own kind.
pub open spec fn fallback_lines(item: ThreadItem) -> Seq<Seq<(Seq<char>, SpanStyle)>> {
    match item {
        ThreadItem::HookPrompt { fragments } => hook_lines(fragments.deep_view()),
        ThreadItem::McpToolCall { server, tool, status } => seq![
            seq![("mcp tool: "@ + server@ + "/"@ + tool@ + " \u{b7} "@ + status@, dim())],
        ],
        ThreadItem::DynamicToolCall { namespace, tool, status } => seq![
            seq![
                (
                    "tool: "@ + (match namespace {
                        Some(namespace) => namespace@ + "/"@ + tool@,
                        None => tool@,
                    }) + " \u{b7} "@ + status@,
                    dim(),
                ),
            ],
        ],
        ThreadItem::CollabAgentToolCall { tool, status } => seq![
            seq![("agent tool: "@ + tool@ + " \u{b7} "@ + status@, dim())],
        ],
        ThreadItem::SubAgentActivity { summary } => seq![seq![(summary@, dim())]],
        ThreadItem::WebSearch { query } => seq![
            seq![("web search: "@, dim()), (query@, plain())],
        ],
        ThreadItem::ImageView { path } => seq![seq![("image: "@ + path@, dim())]],
        ThreadItem::ImageGeneration { status, saved_path } => seq![
            seq![
                (
                    "image generation: "@ + status@ + (match saved_path {
                        Some(path) => " \u{b7} "@ + path@,
                        None => Seq::empty(),
                    }),
                    dim(),
                ),
            ],
        ],
        ThreadItem::EnteredReviewMode { review } => seq![
            seq![("review started: "@, dim()), (review@, plain())],
        ],
        ThreadItem::ExitedReviewMode { review } => seq![
            seq![("review finished: "@, dim()), (review@, plain())],
        ],
        ThreadItem::ContextCompaction => seq![seq![("context compacted"@, dim())]],
        _ => Seq::empty(),
    }
}

/// The text without the white space around it.
pub open spec fn trimmed(s: Seq<char>) -> Seq<char> {
    crate::text::trimmed_end(crate::text::trimmed_start(s))
}

/// One line for each fragment of a hook's prompt.
pub open spec fn hook_lines(fragments: Seq<Seq<char>>) -> Seq<Seq<(Seq<char>, SpanStyle)>> {
    fragments.map_values(
        |fragment: Seq<char>| seq![("hook prompt: "@, dim()), (trimmed(fragment), plain())],
    )
}

/// One cell for each file that a patch changes.
pub open spec fn patch_cells(changes: Seq<(Seq<char>, FileChangeModel)>) -> Seq<CellModel> {
    changes.map_values(
        |file: (Seq<char>, FileChangeModel)| CellModel::Patch { path: file.0, change: file.1 },
    )
}

/// The cells of an item.
pub open spec fn item_cells(item: ThreadItem, visibility: RawReasoningVisibility) -> Seq<
    CellModel,
> {
    match item {
        ThreadItem::UserMessage { content, .. } => seq![user_cell(content.display)],
        ThreadItem::AgentMessage { visible_markdown, .. } => unless_blank(
            visible_markdown@,
            CellModel::AgentMarkdown { text: visible_markdown@ },
        ),
        ThreadItem::FunctionCallOutput { delegated } => match delegated {
            Some((source, prompt)) => seq![
                CellModel::Delegated {
                    text: "Sent by Codex from task "@ + source@ + "\n"@ + prompt@,
                },
            ],
            None => Seq::empty(),
        },
        ThreadItem::Plan { text } => unless_blank(
            text@,
            CellModel::ProposedPlan { text: text@ },
        ),
        ThreadItem::Reasoning { summary, content } => {
            let parts = reasoning_parts(summary, content.deep_view(), visibility);
            unless_blank(parts.1, CellModel::Reasoning { header: parts.0, text: parts.1 })
        },
        ThreadItem::CommandExecution {
            id,
            command,
            display,
            source,
            status,
            actions,
            aggregated_output,
            exit_code,
            duration_ms,
        } => if source == CommandExecutionSource::UnifiedExecInteraction {
            seq![
                CellModel::UnifiedExecInteraction {
                    command_display: if display@.len() == 0 {
                        None
                    } else {
                        Some(display@)
                    },
                },
            ]
        } else {
            seq![
                CellModel::Exec {
                    id: id@,
                    command: command.deep_view(),
                    actions: actions.deep_view(),
                    source,
                    completion: completion(status, exit_code, aggregated_output, duration_ms),
                },
            ]
        },
        ThreadItem::FileChange { changes, status } => patch_cells(changes.deep_view()) + if status == PatchApplyStatus::Failed {
            seq![CellModel::Plain { lines: patch_failure_lines() }]
        } else {
            Seq::empty()
        },
        _ => if fallback_lines(item).len() == 0 {
            Seq::empty()
        } else {
            seq![CellModel::Plain { lines: fallback_lines(item) }]
        },
    }
}

/// The lines of a cell that says that a patch could not be applied.
pub open spec fn patch_failure_lines() -> Seq<Seq<(Seq<char>, SpanStyle)>> {
    seq![seq![("\u{2718} Failed to apply patch"@, patches::bold_tinted(Tint::Magenta))]]
}

/// The cells of some items, in order.
pub open spec fn cells_of(items: Seq<ThreadItem>, visibility: RawReasoningVisibility) -> Seq<
    CellModel,
>
    decreases items.len(),
{
    if items.len() == 0 {
        Seq::empty()
    } else {
        cells_of(items.drop_last(), visibility) + item_cells(items.last(), visibility)
    }
}

/// The items of some turns, in order.
pub open spec fn items_of(turns: Seq<Turn>) -> Seq<ThreadItem>
    decreases turns.len(),
{
    if turns.len() == 0 {
        Seq::empty()
    } else {
        items_of(turns.drop_last()) + turns.last().items@
    }
}

fn hook_prompt_lines(fragments: &Vec<String>) -> (lines: Vec<StyledLine>)
    ensures
        lines.deep_view() == hook_lines(fragments.deep_view()),
{
    let mut lines: Vec<StyledLine> = Vec::new();
    let mut i: usize = 0;
    while i < fragments.len()
        invariant
            i <= fragments@.len(),
            lines@.len() == i,
            forall|k: int|
                0 <= k < i ==> (#[trigger] lines@[k]).deep_view() == seq![
                    ("hook prompt: "@, dim()),
                    (trimmed(fragments@[k]@), plain()),
                ],
        decreases fragments@.len() - i,
    {
        let start = trim_start(fragments[i].as_str());
        let text = trim_end(start.as_str());
        lines.push(line2(span("hook prompt: ", dim()), span_of(text, plain())));
        i += 1;
    }
    assert(lines.deep_view() =~= hook_lines(fragments.deep_view()));
    lines
}

fn one_line(line: StyledLine) -> (lines: Vec<StyledLine>)
    ensures
        lines.deep_view() == seq![line.deep_view()],
{
    let mut lines: Vec<StyledLine> = Vec::new();
    lines.push(line);
    assert(lines.deep_view() =~= seq![line.deep_view()]);
    lines
}

/// The lines of an item that has no cell of its own kind; none where the item is not shown.
pub fn fallback_transcript_cell(item: &ThreadItem) -> (r: Option<Vec<StyledLine>>)
    ensures
        match r {
            Some(lines) => lines.deep_view() == fallback_lines(*item) && lines@.len() > 0,
            None => fallback_lines(*item).len() == 0,
        },
{
    let lines = match item {
        ThreadItem::HookPrompt { fragments } => {
            let lines = hook_prompt_lines(fragments);
            assert(lines@.len() == lines.deep_view().len());
            if lines.len() == 0 {
                return None;
            }
            lines
        },
        ThreadItem::McpToolCall { server, tool, status } => {
            let mut text = concat3("mcp tool: ", server.as_str(), "/");
            text.append(tool.as_str());
            text.append(" \u{b7} ");
            text.append(status.as_str());
            one_line(line1(span_of(text, dim())))
        },
        ThreadItem::DynamicToolCall { namespace, tool, status } => {
            let name = match namespace {
                Some(namespace) => concat3(namespace.as_str(), "/", tool.as_str()),
                None => tool.clone(),
            };
            let mut text = concat3("tool: ", name.as_str(), " \u{b7} ");
            text.append(status.as_str());
            one_line(line1(span_of(text, dim())))
        },
        ThreadItem::CollabAgentToolCall { tool, status } => {
            let mut text = concat3("agent tool: ", tool.as_str(), " \u{b7} ");
            text.append(status.as_str());
            one_line(line1(span_of(text, dim())))
        },
        ThreadItem::SubAgentActivity { summary } => one_line(
            line1(span(summary.as_str(), dim())),
        ),
        ThreadItem::WebSearch { query } => one_line(
            line2(span("web search: ", dim()), span(query.as_str(), plain())),
        ),
        ThreadItem::ImageView { path } => one_line(
            line1(span_of(concat2("image: ", path.as_str()), dim())),
        ),
        ThreadItem::ImageGeneration { status, saved_path } => {
            let mut text = concat2("image generation: ", status.as_str());
            match saved_path {
                Some(path) => {
                    let saved = concat2(" \u{b7} ", path.as_str());
                    text.append(saved.as_str());
                },
                None => {
                    assert(text@ + Seq::<char>::empty() =~= text@);
                },
            }
            one_line(line1(span_of(text, dim())))
        },
        ThreadItem::EnteredReviewMode { review } => one_line(
            line2(span("review started: ", dim()), span(review.as_str(), plain())),
        ),
        ThreadItem::ExitedReviewMode { review } => one_line(
            line2(span("review finished: ", dim()), span(review.as_str(), plain())),
        ),
        ThreadItem::ContextCompaction => one_line(line1(span("context compacted", dim()))),
        _ => {
            return None;
        },
    };
    assert(lines@.len() == lines.deep_view().len());
    Some(lines)
}

fn push_cell(cells: &mut Vec<TranscriptCell>, cell: TranscriptCell)
    ensures
        final(cells).deep_view() == old(cells).deep_view() + seq![cell.deep_view()],
{
    cells.push(cell);
    assert(cells.deep_view() =~= old(cells).deep_view() + seq![cell.deep_view()]);
}

fn completed(
    status: CommandExecutionStatus,
    exit_code: Option<i32>,
    output: &Option<String>,
    duration_ms: Option<i64>,
) -> (r: Option<ExecCompletion>)
    ensures
        r.deep_view() == completion(status, exit_code, *output, duration_ms),
{
    if status == CommandExecutionStatus::InProgress {
        return None;
    }
    let exit_code: i32 = if status == CommandExecutionStatus::Completed {
        match exit_code {
            Some(code) => code,
            None => 0,
        }
    } else {
        match exit_code {
            Some(code) => if code != 0 {
                code
            } else {
                1
            },
            None => 1,
        }
    };
    let duration_ms: u64 = match duration_ms {
        Some(ms) => if ms >= 0 {
            ms as u64
        } else {
            0
        },
        None => 0,
    };
    let output = match output {
        Some(output) => output.clone(),
        None => String::new(),
    };
    Some(ExecCompletion { exit_code, output, duration_ms })
}

fn push_patches(cells: &mut Vec<TranscriptCell>, changes: &Vec<PatchedFile>)
    ensures
        final(cells).deep_view() == old(cells).deep_view() + patch_cells(changes.deep_view()),
{
    let ghost before = cells.deep_view();
    let ghost more = patch_cells(changes.deep_view());
    let mut i: usize = 0;
    assert(more.take(0) =~= Seq::empty());
    assert(before + Seq::<CellModel>::empty() =~= before);
    while i < changes.len()
        invariant
            i <= changes@.len(),
            more == patch_cells(changes.deep_view()),
            cells.deep_view() == before + more.take(i as int),
        decreases changes@.len() - i,
    {
        let file = &changes[i];
        push_cell(
            cells,
            TranscriptCell::Patch { path: file.path.clone(), change: file.change.duplicate() },
        );
        assert(cells.deep_view() =~= before + more.take(i + 1));
        i += 1;
    }
    assert(more.take(i as int) =~= more);
}

/// Adds the cells of an item.
fn push_item(cells: &mut Vec<TranscriptCell>, item: &ThreadItem, visibility: RawReasoningVisibility)
    ensures
        final(cells).deep_view() == old(cells).deep_view() + item_cells(*item, visibility),
{
    let ghost before = cells.deep_view();
    assert(before + Seq::<CellModel>::empty() =~= before);
    match item {
        ThreadItem::UserMessage { content, .. } => {
            let display = &content.display;
            push_cell(
                cells,
                TranscriptCell::User {
                    message: display.message.clone(),
                    text_elements: display.text_elements.duplicate(),
                    local_image_paths: display.local_images.duplicate(),
                    remote_image_urls: display.remote_image_urls.duplicate(),
                },
            );
        },
        ThreadItem::AgentMessage { visible_markdown, .. } => {
            if !is_blank(visible_markdown.as_str()) {
                push_cell(
                    cells,
                    TranscriptCell::AgentMarkdown { text: visible_markdown.clone() },
                );
            }
        },
        ThreadItem::FunctionCallOutput { delegated } => {
            if let Some((source, prompt)) = delegated {
                let mut text = concat3("Sent by Codex from task ", source.as_str(), "\n");
                text.append(prompt.as_str());
                push_cell(cells, TranscriptCell::Delegated { text });
            }
        },
        ThreadItem::Plan { text } => {
            if !is_blank(text.as_str()) {
                push_cell(cells, TranscriptCell::ProposedPlan { text: text.clone() });
            }
        },
        ThreadItem::Reasoning { summary, content } => {
            let (header, text) = if visibility == RawReasoningVisibility::Visible && content.len()
                > 0 {
                ("Reasoning".to_owned(), join(content, "\n\n"))
            } else {
                (summary.0.clone(), summary.1.clone())
            };
            if !is_blank(text.as_str()) {
                push_cell(cells, TranscriptCell::Reasoning { header, text });
            }
        },
        ThreadItem::CommandExecution {
            id,
            command,
            display,
            source,
            status,
            actions,
            aggregated_output,
            exit_code,
            duration_ms,
        } => {
            if *source == CommandExecutionSource::UnifiedExecInteraction {
                let command_display = if display.as_str().is_empty() {
                    None
                } else {
                    Some(display.clone())
                };
                push_cell(cells, TranscriptCell::UnifiedExecInteraction { command_display });
            } else {
                push_cell(
                    cells,
                    TranscriptCell::Exec {
                        id: id.clone(),
                        command: command.duplicate(),
                        actions: actions.duplicate(),
                        source: *source,
                        completion: completed(
                            *status,
                            *exit_code,
                            aggregated_output,
                            *duration_ms,
                        ),
                    },
                );
            }
        },
        ThreadItem::FileChange { changes, status } => {
            push_patches(cells, changes);
            if *status == PatchApplyStatus::Failed {
                let lines = new_patch_apply_failure("", Vec::new());
                proof {
                    reveal_strlit("");
                    assert(lines.deep_view() =~= patch_failure_lines());
                }
                push_cell(cells, TranscriptCell::Plain { lines });
            }
            assert(cells.deep_view() =~= before + item_cells(*item, visibility));
        },
        _ => {
            if let Some(lines) = fallback_transcript_cell(item) {
                push_cell(cells, TranscriptCell::Plain { lines });
            }
        },
    }
}

/// The cells of some items, in order.
pub fn thread_items_to_transcript_cells(
    items: &Vec<ThreadItem>,
    raw_reasoning_visibility: RawReasoningVisibility,
) -> (cells: Vec<TranscriptCell>)
    ensures
        cells.deep_view() == cells_of(items@, raw_reasoning_visibility),
{
    let mut cells: Vec<TranscriptCell> = Vec::new();
    push_items(&mut cells, items, raw_reasoning_visibility);
    assert(Seq::<CellModel>::empty() + cells_of(items@, raw_reasoning_visibility) =~= cells_of(
        items@,
        raw_reasoning_visibility,
    ));
    cells
}

fn push_items(
    cells: &mut Vec<TranscriptCell>,
    items: &Vec<ThreadItem>,
    raw_reasoning_visibility: RawReasoningVisibility,
)
    ensures
        final(cells).deep_view() == old(cells).deep_view() + cells_of(
            items@,
            raw_reasoning_visibility,
        ),
{
    let ghost before = cells.deep_view();
    let mut i: usize = 0;
    assert(items@.take(0) =~= Seq::empty());
    assert(before + Seq::<CellModel>::empty() =~= before);
    while i < items.len()
        invariant
            i <= items@.len(),
            cells.deep_view() == before + cells_of(
                items@.take(i as int),
                raw_reasoning_visibility,
            ),
        decreases items@.len() - i,
    {
        proof {
            assert(items@.take(i + 1).drop_last() =~= items@.take(i as int));
        }
        push_item(cells, &items[i], raw_reasoning_visibility);
        assert(cells.deep_view() =~= before + cells_of(
            items@.take(i + 1),
            raw_reasoning_visibility,
        ));
        i += 1;
    }
    assert(items@.take(i as int) =~= items@);
}

/// The lines of the transcript of a thread that shows nothing.
pub open spec fn empty_transcript() -> Seq<CellModel> {
    seq![
        CellModel::Plain {
            lines: seq![
                seq![
                    (
                        "No transcript content available"@,
                        (SpanStyle { tint: Tint::Plain, bold: false, dim: true, italic: true }),
                    ),
                ],
            ],
        },
    ]
}

/// The cells of a thread; a note where it has none.
pub fn thread_to_transcript_cells(
    turns: &Vec<Turn>,
    raw_reasoning_visibility: RawReasoningVisibility,
) -> (cells: Vec<TranscriptCell>)
    ensures
        cells.deep_view() == (if cells_of(items_of(turns@), raw_reasoning_visibility).len() == 0 {
            empty_transcript()
        } else {
            cells_of(items_of(turns@), raw_reasoning_visibility)
        }),
{
    let mut cells: Vec<TranscriptCell> = Vec::new();
    let mut t: usize = 0;
    assert(turns@.take(0) =~= Seq::empty());
    assert(cells.deep_view() =~= Seq::empty());
    while t < turns.len()
        invariant
            t <= turns@.len(),
            cells.deep_view() == cells_of(
                items_of(turns@.take(t as int)),
                raw_reasoning_visibility,
            ),
        decreases turns@.len() - t,
    {
        proof {
            assert(turns@.take(t + 1).drop_last() =~= turns@.take(t as int));
            cells_of_more_items(
                items_of(turns@.take(t as int)),
                turns@[t as int].items@,
                raw_reasoning_visibility,
            );
        }
        push_items(&mut cells, &turns[t].items, raw_reasoning_visibility);
        t += 1;
    }
    assert(turns@.take(t as int) =~= turns@);
    assert(cells@.len() == cells.deep_view().len());
    if cells.len() == 0 {
        let style = SpanStyle { tint: Tint::Plain, bold: false, dim: true, italic: true };
        let lines = one_line(line1(span("No transcript content available", style)));
        cells.push(TranscriptCell::Plain { lines });
        assert(cells.deep_view() =~= empty_transcript());
    }
    cells
}

/// The cells of items that follow others are the cells of the others and then theirs: how the
/// items are divided into turns does not matter.
pub proof fn cells_of_more_items(
    first: Seq<ThreadItem>,
    second: Seq<ThreadItem>,
    visibility: RawReasoningVisibility,
)
    ensures
        cells_of(first + second, visibility) == cells_of(first, visibility) + cells_of(
            second,
            visibility,
        ),
    decreases second.len(),
{
    if second.len() == 0 {
        assert(first + second =~= first);
        assert(cells_of(first, visibility) + Seq::<CellModel>::empty() =~= cells_of(
            first,
            visibility,
        ));
    } else {
        cells_of_more_items(first, second.drop_last(), visibility);
        assert((first + second).drop_last() =~= first + second.drop_last());
        assert(cells_of(first + second, visibility) =~= cells_of(first, visibility) + cells_of(
            second,
            visibility,
        ));
    }
}

/// The items of turns that follow others are the items of the others and then theirs, and those
/// of a turn are all of its items.
pub proof fn items_of_more_turns(first: Seq<Turn>, second: Seq<Turn>)
    ensures
        items_of(first + second) == items_of(first) + items_of(second),
        second.len() == 1 ==> items_of(second) == second[0].items@,
    decreases second.len(),
{
    if second.len() == 0 {
        assert(first + second =~= first);
        assert(items_of(first) + Seq::<ThreadItem>::empty() =~= items_of(first));
    } else {
        items_of_more_turns(first, second.drop_last());
        assert((first + second).drop_last() =~= first + second.drop_last());
        assert(items_of(first + second) =~= items_of(first) + items_of(second));
        if second.len() == 1 {
            assert(second.drop_last() =~= Seq::empty());
            assert(items_of(second) =~= second[0].items@);
        }
    }
}

proof fn lemma_one_item(item: ThreadItem, visibility: RawReasoningVisibility)
    ensures
        cells_of(seq![item], visibility) == item_cells(item, visibility),
{
    assert(seq![item].drop_last() =~= Seq::empty());
    reveal_with_fuel(cells_of, 2);
    assert(cells_of(seq![item], visibility) =~= item_cells(item, visibility));
}

/// A command has one cell, with its id, its words, its actions and its source. The cell says how
/// the command ended unless it is still running: with exactly the persisted output, with the
/// persisted exit code where that is not zero, with zero only where the command completed, and
/// with the persisted duration.
pub proof fn commands_show_how_they_ended(item: ThreadItem, visibility: RawReasoningVisibility)
    requires
        item is CommandExecution,
        item->CommandExecution_source != CommandExecutionSource::UnifiedExecInteraction,
    ensures
        cells_of(seq![item], visibility).len() == 1,
        ({
            let cell = cells_of(seq![item], visibility)[0];
            let status = item->CommandExecution_status;
            let output = item->aggregated_output;
            let exit_code = item->exit_code;
            let duration_ms = item->duration_ms;
            &&& cell is Exec
            &&& cell->Exec_id == item->CommandExecution_id@
            &&& cell->command == item->command.deep_view()
            &&& cell->actions == item->actions.deep_view()
            &&& cell->source == item->CommandExecution_source
            &&& cell->completion is None <==> status == CommandExecutionStatus::InProgress
            &&& cell->completion matches Some((code, text, ms)) ==> {
                &&& output is Some ==> text == output->0@
                &&& output is None ==> text.len() == 0
                &&& exit_code is Some && exit_code->0 != 0 ==> code == exit_code->0
                &&& code == 0 <==> status == CommandExecutionStatus::Completed && (exit_code is None
                    || exit_code->0 == 0)
                &&& status != CommandExecutionStatus::Completed && (exit_code is None
                    || exit_code->0 == 0) ==> code == 1
                &&& duration_ms is Some && duration_ms->0 >= 0 ==> ms == duration_ms->0
                &&& duration_ms is None || duration_ms->0 < 0 ==> ms == 0
            }
        }),
{
    lemma_one_item(item, visibility);
}

/// The cells of two commands that ended and differ in their persisted output differ.
pub proof fn different_outputs_are_shown_differently(
    a: ThreadItem,
    b: ThreadItem,
    visibility: RawReasoningVisibility,
)
    requires
        a is CommandExecution,
        b is CommandExecution,
        a->CommandExecution_source != CommandExecutionSource::UnifiedExecInteraction,
        b->CommandExecution_source != CommandExecutionSource::UnifiedExecInteraction,
        a->CommandExecution_status != CommandExecutionStatus::InProgress,
        b->CommandExecution_status != CommandExecutionStatus::InProgress,
        a->aggregated_output is Some,
        b->aggregated_output is Some,
        a->aggregated_output->0@ != b->aggregated_output->0@,
    ensures
        cells_of(seq![a], visibility) != cells_of(seq![b], visibility),
{
    commands_show_how_they_ended(a, visibility);
    commands_show_how_they_ended(b, visibility);
}

/// Input for a running command is shown as such, with the text of the command where it has one.
pub proof fn interactions_show_the_command(item: ThreadItem, visibility: RawReasoningVisibility)
    requires
        item is CommandExecution,
        item->CommandExecution_source == CommandExecutionSource::UnifiedExecInteraction,
    ensures
        cells_of(seq![item], visibility).len() == 1,
        ({
            let cell = cells_of(seq![item], visibility)[0];
            &&& cell is UnifiedExecInteraction
            &&& cell->command_display == (if item->display@.len() > 0 {
                Some(item->display@)
            } else {
                None
            })
        }),
{
    lemma_one_item(item, visibility);
}

/// A user message has one cell, with its text, its text elements and its images as persisted.
pub proof fn user_messages_are_shown_whole(item: ThreadItem, visibility: RawReasoningVisibility)
    requires
        item is UserMessage,
    ensures
        cells_of(seq![item], visibility).len() == 1,
        ({
            let display = item->UserMessage_content.display;
            let cell = cells_of(seq![item], visibility)[0];
            &&& cell is User
            &&& cell->message == display.message@
            &&& cell->text_elements == display.text_elements.deep_view()
            &&& cell->remote_image_urls == display.remote_image_urls.deep_view()
            &&& cell->local_image_paths.len() == display.local_images@.len()
            &&& forall|k: int|
                0 <= k < display.local_images@.len() ==> (#[trigger] cell->local_image_paths[k])
                    == display.local_images@[k]@
        }),
{
    lemma_one_item(item, visibility);
}

/// A message of the agent and a plan are shown as they are, or not at all where they are blank.
pub proof fn texts_are_shown_unless_blank(item: ThreadItem, visibility: RawReasoningVisibility)
    ensures
        item matches ThreadItem::AgentMessage { visible_markdown, .. } ==> cells_of(
            seq![item],
            visibility,
        ) == (if (exists|i: int|
            0 <= i < visible_markdown@.len() && !crate::text::char_whitespace(
                #[trigger] visible_markdown@[i],
            )) {
            seq![CellModel::AgentMarkdown { text: visible_markdown@ }]
        } else {
            Seq::empty()
        }),
        item matches ThreadItem::Plan { text } ==> cells_of(seq![item], visibility) == (if (exists|
            i: int,
        |
            0 <= i < text@.len() && !crate::text::char_whitespace(#[trigger] text@[i])) {
            seq![CellModel::ProposedPlan { text: text@ }]
        } else {
            Seq::empty()
        }),
{
    lemma_one_item(item, visibility);
}

/// Reasoning in full is shown only where it is asked for; otherwise its summary is shown.
pub proof fn hidden_reasoning_is_not_shown(
    a: ThreadItem,
    b: ThreadItem,
    visibility: RawReasoningVisibility,
)
    requires
        a is Reasoning,
        b is Reasoning,
    ensures
        visibility == RawReasoningVisibility::Hidden && a->Reasoning_summary.0@
            == b->Reasoning_summary.0@ && a->Reasoning_summary.1@ == b->Reasoning_summary.1@
            ==> cells_of(seq![a], visibility) == cells_of(seq![b], visibility),
        (visibility == RawReasoningVisibility::Hidden || a->Reasoning_content@.len() == 0)
            && !crate::text::blank(a->Reasoning_summary.1@) ==> cells_of(seq![a], visibility)
            == seq![
            CellModel::Reasoning {
                header: a->Reasoning_summary.0@,
                text: a->Reasoning_summary.1@,
            },
        ],
        visibility == RawReasoningVisibility::Visible && a->Reasoning_content@.len() == 1
            && !crate::text::blank(a->Reasoning_content@[0]@) ==> cells_of(seq![a], visibility)
            == seq![
            CellModel::Reasoning { header: "Reasoning"@, text: a->Reasoning_content@[0]@ },
        ],
{
    lemma_one_item(a, visibility);
    lemma_one_item(b, visibility);
}

/// Each file that a patch changes has a cell with its path and its change, in the order of the
/// files. A note follows where the patch could not be applied, and nothing else does.
pub proof fn patches_show_every_file(item: ThreadItem, visibility: RawReasoningVisibility)
    requires
        item is FileChange,
    ensures
        ({
            let changes = item->changes@;
            let cells = cells_of(seq![item], visibility);
            &&& cells.len() == changes.len() + (if item->FileChange_status
                == PatchApplyStatus::Failed {
                1int
            } else {
                0int
            })
            &&& forall|k: int|
                0 <= k < changes.len() ==> (#[trigger] cells[k]) == (CellModel::Patch {
                    path: changes[k].path@,
                    change: changes[k].change.deep_view(),
                })
            &&& item->FileChange_status == PatchApplyStatus::Failed ==> cells.last() is Plain
        }),
{
    lemma_one_item(item, visibility);
    assert(item->changes.deep_view().len() == item->changes@.len());
    assert forall|k: int| 0 <= k < item->changes@.len() implies (
    #[trigger] item->changes.deep_view()[k]) == (
        item->changes@[k].path@,
        item->changes@[k].change.deep_view(),
    ) by {}
}

/// What another task sent is shown with the id of the task on a line of its own, and then the
/// prompt.
pub proof fn delegated_prompts_are_shown(item: ThreadItem, visibility: RawReasoningVisibility)
    requires
        item is FunctionCallOutput,
    ensures
        item->delegated is None ==> cells_of(seq![item], visibility).len() == 0,
        item->delegated matches Some((source, prompt)) ==> {
            let cells = cells_of(seq![item], visibility);
            &&& cells.len() == 1
            &&& cells[0] is Delegated
            &&& crate::text::has_suffix(cells[0]->Delegated_text, "\n"@ + prompt@)
            &&& crate::text::has_suffix(
                cells[0]->Delegated_text.take(cells[0]->Delegated_text.len() - prompt@.len() - 1),
                source@,
            )
        },
{
    lemma_one_item(item, visibility);
    if let Some((source, prompt)) = item->delegated {
        reveal_strlit("\n");
        let head = "Sent by Codex from task "@;
        let all = head + source@ + "\n"@ + prompt@;
        assert(all.subrange(all.len() - prompt@.len() - 1, all.len() as int) =~= "\n"@ + prompt@);
        let first = all.take(all.len() - prompt@.len() - 1);
        assert(first.subrange(first.len() - source@.len(), first.len() as int) =~= source@);
    }
}

/// The text of a line, without its styles.
pub open spec fn line_letters(line: Seq<(Seq<char>, SpanStyle)>) -> Seq<char>
    decreases line.len(),
{
    if line.len() == 0 {
        Seq::empty()
    } else {
        line_letters(line.drop_last()) + line.last().0
    }
}

/// A call of a tool, a search, an image and the like are shown on one line that holds everything
/// that is persisted of them, after a word for what they are.
pub proof fn other_items_are_shown_on_a_line(item: ThreadItem, visibility: RawReasoningVisibility)
    requires
        item is McpToolCall || item is DynamicToolCall || item is CollabAgentToolCall
            || item is SubAgentActivity || item is WebSearch || item is ImageView
            || item is ImageGeneration || item is EnteredReviewMode || item is ExitedReviewMode
            || item is ContextCompaction,
    ensures
        cells_of(seq![item], visibility).len() == 1,
        cells_of(seq![item], visibility)[0] is Plain,
        cells_of(seq![item], visibility)[0]->lines.len() == 1,
        ({
            let text = line_letters(cells_of(seq![item], visibility)[0]->lines[0]);
            match item {
                ThreadItem::McpToolCall { server, tool, status } => text == "mcp tool: "@ + server@
                    + "/"@ + tool@ + " \u{b7} "@ + status@,
                ThreadItem::DynamicToolCall { namespace, tool, status } => crate::text::has_suffix(
                    text,
                    tool@ + " \u{b7} "@ + status@,
                ) && crate::text::has_prefix(
                    text,
                    match namespace {
                        Some(namespace) => "tool: "@ + namespace@ + "/"@,
                        None => "tool: "@ + tool@,
                    },
                ),
                ThreadItem::CollabAgentToolCall { tool, status } => text == "agent tool: "@ + tool@
                    + " \u{b7} "@ + status@,
                ThreadItem::SubAgentActivity { summary } => text == summary@,
                ThreadItem::WebSearch { query } => text == "web search: "@ + query@,
                ThreadItem::ImageView { path } => text == "image: "@ + path@,
                ThreadItem::ImageGeneration { status, saved_path } => crate::text::has_prefix(
                    text,
                    "image generation: "@ + status@,
                ) && (saved_path matches Some(path) ==> crate::text::has_suffix(
                    text,
                    " \u{b7} "@ + path@,
                )),
                ThreadItem::EnteredReviewMode { review } => text == "review started: "@ + review@,
                ThreadItem::ExitedReviewMode { review } => text == "review finished: "@ + review@,
                _ => text == "context compacted"@,
            }
        }),
{
    lemma_one_item(item, visibility);
    let lines = fallback_lines(item);
    assert(lines.len() == 1);
    let line = lines[0];
    if item is WebSearch || item is EnteredReviewMode || item is ExitedReviewMode {
        assert(line.drop_last().drop_last() =~= Seq::empty());
        reveal_with_fuel(line_letters, 3);
        assert(line_letters(line) =~= line[0].0 + line[1].0);
    } else {
        assert(line.drop_last() =~= Seq::empty());
        reveal_with_fuel(line_letters, 2);
        assert(line_letters(line) =~= line[0].0);
        let text = line[0].0;
        match item {
            ThreadItem::DynamicToolCall { namespace, tool, status } => {
                let end = tool@ + " \u{b7} "@ + status@;
                assert(text.subrange(text.len() - end.len(), text.len() as int) =~= end);
                match namespace {
                    Some(namespace) => {
                        let start = "tool: "@ + namespace@ + "/"@;
                        assert(text.subrange(0, start.len() as int) =~= start);
                    },
                    None => {
                        let start = "tool: "@ + tool@;
                        assert(text.subrange(0, start.len() as int) =~= start);
                    },
                }
            },
            ThreadItem::ImageGeneration { status, saved_path } => {
                let start = "image generation: "@ + status@;
                assert(text.subrange(0, start.len() as int) =~= start);
                if let Some(path) = saved_path {
                    let end = " \u{b7} "@ + path@;
                    assert(text.subrange(text.len() - end.len(), text.len() as int) =~= end);
                }
            },
            _ => {},
        }
    }
}

/// Each fragment of a hook's prompt has a line of its own, without the white space around it.
pub proof fn hook_prompts_are_shown_by_fragments(fragments: Seq<Seq<char>>, i: int)
    requires
        0 <= i < fragments.len(),
    ensures
        ({
            let lines = hook_lines(fragments);
            let shown = lines[i][1].0;
            &&& lines.len() == fragments.len()
            &&& lines[i].len() == 2
            &&& lines[i][0].0 == "hook prompt: "@
            &&& crate::text::blank(fragments[i]) ==> shown.len() == 0
            &&& shown.len() > 0 ==> !crate::text::char_whitespace(shown[0])
                && !crate::text::char_whitespace(shown.last())
            &&& exists|a: int, b: int|
                0 <= a <= b <= fragments[i].len() && shown == #[trigger] fragments[i].subrange(a, b)
                    && crate::text::blank(fragments[i].take(a)) && crate::text::blank(
                    fragments[i].skip(b),
                )
        }),
{
    let s = fragments[i];
    let shown = hook_lines(fragments)[i][1].0;
    crate::text::trimming_takes_the_outer_white_space(s);
    let left = crate::text::trimmed_start(s);
    crate::text::trimming_takes_the_outer_white_space(left);
    let a = s.len() - left.len();
    let b = a + shown.len();
    assert(s.subrange(a, b) =~= shown);
    assert forall|k: int| 0 <= k < s.skip(b).len() implies crate::text::char_whitespace(
        #[trigger] s.skip(b)[k],
    ) by {
        assert(left.skip(shown.len() as int)[k] == s.skip(b)[k]);
    }
    if shown.len() > 0 {
        assert(shown[0] == left[0]);
        assert(shown[0] == s[a]);
        if crate::text::blank(s) {
            assert(crate::text::char_whitespace(s[a]));
        }
    }
}

/// A patch that could not be applied is followed by a line that says so, and only such a one.
pub proof fn failed_patches_say_so(item: ThreadItem, visibility: RawReasoningVisibility)
    requires
        item is FileChange,
    ensures
        item matches ThreadItem::FileChange { changes, status } ==> {
            let cells = item_cells(item, visibility);
            let n = changes.deep_view().len();
            &&& status == PatchApplyStatus::Failed ==> cells.len() == n + 1
                && (cells.last() matches CellModel::Plain { lines } && lines.len() == 1
                && lines[0].len() == 1 && lines[0][0].0 == "\u{2718} Failed to apply patch"@)
            &&& status != PatchApplyStatus::Failed ==> cells.len() == n
        },
{
}

} // verus!
