//! Threads as they are persisted: turns, their items and what a user sent.

use crate::data::Data;
use vstd::prelude::*;

verus! {

/// A part of a prompt that stands for something else, such as a pasted block.
#[derive(Debug, PartialEq, Eq)]
pub struct TextElement {
    pub start: usize,
    pub end: usize,
    pub placeholder: Option<String>,
}

impl DeepView for TextElement {
    type V = (usize, usize, Option<Seq<char>>);

    open spec fn deep_view(&self) -> Self::V {
        (self.start, self.end, self.placeholder.deep_view())
    }
}

impl Data for TextElement {
    fn same(&self, other: &Self) -> (r: bool) {
        self.start == other.start && self.end == other.end && self.placeholder.same(
            &other.placeholder,
        )
    }

    fn duplicate(&self) -> (r: Self) {
        TextElement {
            start: self.start,
            end: self.end,
            placeholder: self.placeholder.duplicate(),
        }
    }
}

/// An image file attached to a prompt, and the label by which the prompt refers to it.
#[derive(Debug, PartialEq, Eq)]
pub struct LocalImageAttachment {
    pub placeholder: String,
    pub path: String,
}

impl DeepView for LocalImageAttachment {
    type V = (Seq<char>, Seq<char>);

    open spec fn deep_view(&self) -> Self::V {
        (self.placeholder@, self.path@)
    }
}

impl Data for LocalImageAttachment {
    fn same(&self, other: &Self) -> (r: bool) {
        self.placeholder == other.placeholder && self.path == other.path
    }

    fn duplicate(&self) -> (r: Self) {
        LocalImageAttachment { placeholder: self.placeholder.clone(), path: self.path.clone() }
    }
}

/// What a mention in a prompt (`$skill`, `@plugin`) is bound to.
#[derive(Debug, PartialEq, Eq)]
pub struct MentionBinding {
    pub sigil: char,
    pub mention: String,
    pub path: String,
}

impl DeepView for MentionBinding {
    type V = (char, Seq<char>, Seq<char>);

    open spec fn deep_view(&self) -> Self::V {
        (self.sigil, self.mention@, self.path@)
    }
}

impl Data for MentionBinding {
    fn same(&self, other: &Self) -> (r: bool) {
        self.sigil == other.sigil && self.mention == other.mention && self.path == other.path
    }

    fn duplicate(&self) -> (r: Self) {
        MentionBinding {
            sigil: self.sigil,
            mention: self.mention.clone(),
            path: self.path.clone(),
        }
    }
}

/// A prompt as the composer holds it.
#[derive(Debug, PartialEq, Eq)]
pub struct UserMessage {
    pub text: String,
    pub local_images: Vec<LocalImageAttachment>,
    pub remote_image_urls: Vec<String>,
    pub text_elements: Vec<TextElement>,
    pub mention_bindings: Vec<MentionBinding>,
}

/// The model of a prompt.
pub struct UserMessageModel {
    pub text: Seq<char>,
    pub local_images: Seq<(Seq<char>, Seq<char>)>,
    pub remote_image_urls: Seq<Seq<char>>,
    pub text_elements: Seq<(usize, usize, Option<Seq<char>>)>,
    pub mention_bindings: Seq<(char, Seq<char>, Seq<char>)>,
}

impl DeepView for UserMessage {
    type V = UserMessageModel;

    open spec fn deep_view(&self) -> Self::V {
        UserMessageModel {
            text: self.text@,
            local_images: self.local_images.deep_view(),
            remote_image_urls: self.remote_image_urls.deep_view(),
            text_elements: self.text_elements.deep_view(),
            mention_bindings: self.mention_bindings.deep_view(),
        }
    }
}

impl Data for UserMessage {
    fn same(&self, other: &Self) -> (r: bool) {
        self.text == other.text && self.local_images.same(&other.local_images)
            && self.remote_image_urls.same(&other.remote_image_urls) && self.text_elements.same(
            &other.text_elements,
        ) && self.mention_bindings.same(&other.mention_bindings)
    }

    fn duplicate(&self) -> (r: Self) {
        UserMessage {
            text: self.text.clone(),
            local_images: self.local_images.duplicate(),
            remote_image_urls: self.remote_image_urls.duplicate(),
            text_elements: self.text_elements.duplicate(),
            mention_bindings: self.mention_bindings.duplicate(),
        }
    }
}

/// One piece of what a user sent.
#[derive(Debug, PartialEq, Eq)]
pub enum UserInput {
    Text { text: String, text_elements: Vec<TextElement> },
    Image { url: String },
    LocalImage { path: String },
    Audio { url: String },
    LocalAudio { path: String },
    Skill { name: String, path: String },
    Mention { name: String, path: String },
}

/// The model of one piece of what a user sent.
pub enum UserInputModel {
    Text { text: Seq<char>, text_elements: Seq<(usize, usize, Option<Seq<char>>)> },
    Image { url: Seq<char> },
    LocalImage { path: Seq<char> },
    Audio { url: Seq<char> },
    LocalAudio { path: Seq<char> },
    Skill { name: Seq<char>, path: Seq<char> },
    Mention { name: Seq<char>, path: Seq<char> },
}

impl DeepView for UserInput {
    type V = UserInputModel;

    open spec fn deep_view(&self) -> Self::V {
        match self {
            UserInput::Text { text, text_elements } => UserInputModel::Text {
                text: text@,
                text_elements: text_elements.deep_view(),
            },
            UserInput::Image { url } => UserInputModel::Image { url: url@ },
            UserInput::LocalImage { path } => UserInputModel::LocalImage { path: path@ },
            UserInput::Audio { url } => UserInputModel::Audio { url: url@ },
            UserInput::LocalAudio { path } => UserInputModel::LocalAudio { path: path@ },
            UserInput::Skill { name, path } => UserInputModel::Skill { name: name@, path: path@ },
            UserInput::Mention { name, path } => UserInputModel::Mention {
                name: name@,
                path: path@,
            },
        }
    }
}

impl Data for UserInput {
    fn same(&self, other: &Self) -> (r: bool) {
        match (self, other) {
            (
                UserInput::Text { text: a, text_elements: ae },
                UserInput::Text { text: b, text_elements: be },
            ) => *a == *b && ae.same(be),
            (UserInput::Image { url: a }, UserInput::Image { url: b }) => *a == *b,
            (UserInput::LocalImage { path: a }, UserInput::LocalImage { path: b }) => *a == *b,
            (UserInput::Audio { url: a }, UserInput::Audio { url: b }) => *a == *b,
            (UserInput::LocalAudio { path: a }, UserInput::LocalAudio { path: b }) => *a == *b,
            (
                UserInput::Skill { name: an, path: ap },
                UserInput::Skill { name: bn, path: bp },
            ) => *an == *bn && *ap == *bp,
            (
                UserInput::Mention { name: an, path: ap },
                UserInput::Mention { name: bn, path: bp },
            ) => *an == *bn && *ap == *bp,
            _ => false,
        }
    }

    fn duplicate(&self) -> (r: Self) {
        match self {
            UserInput::Text { text, text_elements } => UserInput::Text {
                text: text.clone(),
                text_elements: text_elements.duplicate(),
            },
            UserInput::Image { url } => UserInput::Image { url: url.clone() },
            UserInput::LocalImage { path } => UserInput::LocalImage { path: path.clone() },
            UserInput::Audio { url } => UserInput::Audio { url: url.clone() },
            UserInput::LocalAudio { path } => UserInput::LocalAudio { path: path.clone() },
            UserInput::Skill { name, path } => UserInput::Skill {
                name: name.clone(),
                path: path.clone(),
            },
            UserInput::Mention { name, path } => UserInput::Mention {
                name: name.clone(),
                path: path.clone(),
            },
        }
    }
}

/// How the transcript shows what a user sent.
#[derive(Debug, PartialEq, Eq)]
pub struct UserMessageDisplay {
    pub message: String,
    pub remote_image_urls: Vec<String>,
    pub local_images: Vec<String>,
    pub text_elements: Vec<TextElement>,
}

/// What a user sent: the inputs, how the transcript shows them, and the bindings of the
/// mentions that the shown text holds.
#[derive(Debug, PartialEq, Eq)]
pub struct PromptContent {
    pub inputs: Vec<UserInput>,
    pub display: UserMessageDisplay,
    pub mention_bindings: Vec<MentionBinding>,
}

/// Who asked for a command.
#[derive(Clone, Copy, PartialEq, Eq, Structural, Debug)]
pub enum CommandExecutionSource {
    Agent,
    UserShell,
    UnifiedExecStartup,
    UnifiedExecInteraction,
}

/// How far a command has come.
#[derive(Clone, Copy, PartialEq, Eq, Structural, Debug)]
pub enum CommandExecutionStatus {
    InProgress,
    Completed,
    Failed,
    Declined,
}

/// How far a patch has come.
#[derive(Clone, Copy, PartialEq, Eq, Structural, Debug)]
pub enum PatchApplyStatus {
    InProgress,
    Completed,
    Failed,
    Declined,
}

/// What a command does, as far as its text tells.
#[derive(Debug, PartialEq, Eq)]
#[allow(inconsistent_fields)]
pub enum CommandAction {
    Read { command: String, name: String, path: String },
    ListFiles { command: String, path: Option<String> },
    Search { command: String, query: Option<String>, path: Option<String> },
    Unknown { command: String },
}

/// The model of what a command does.
#[allow(inconsistent_fields)]
pub enum CommandActionModel {
    Read { command: Seq<char>, name: Seq<char>, path: Seq<char> },
    ListFiles { command: Seq<char>, path: Option<Seq<char>> },
    Search { command: Seq<char>, query: Option<Seq<char>>, path: Option<Seq<char>> },
    Unknown { command: Seq<char> },
}

impl DeepView for CommandAction {
    type V = CommandActionModel;

    open spec fn deep_view(&self) -> Self::V {
        match self {
            CommandAction::Read { command, name, path } => CommandActionModel::Read {
                command: command@,
                name: name@,
                path: path@,
            },
            CommandAction::ListFiles { command, path } => CommandActionModel::ListFiles {
                command: command@,
                path: path.deep_view(),
            },
            CommandAction::Search { command, query, path } => CommandActionModel::Search {
                command: command@,
                query: query.deep_view(),
                path: path.deep_view(),
            },
            CommandAction::Unknown { command } => CommandActionModel::Unknown {
                command: command@,
            },
        }
    }
}

impl Data for CommandAction {
    fn same(&self, other: &Self) -> (r: bool) {
        match (self, other) {
            (
                CommandAction::Read { command: ac, name: an, path: ap },
                CommandAction::Read { command: bc, name: bn, path: bp },
            ) => *ac == *bc && *an == *bn && *ap == *bp,
            (
                CommandAction::ListFiles { command: ac, path: ap },
                CommandAction::ListFiles { command: bc, path: bp },
            ) => *ac == *bc && ap.same(bp),
            (
                CommandAction::Search { command: ac, query: aq, path: ap },
                CommandAction::Search { command: bc, query: bq, path: bp },
            ) => *ac == *bc && aq.same(bq) && ap.same(bp),
            (
                CommandAction::Unknown { command: ac },
                CommandAction::Unknown { command: bc },
            ) => *ac == *bc,
            _ => false,
        }
    }

    fn duplicate(&self) -> (r: Self) {
        match self {
            CommandAction::Read { command, name, path } => CommandAction::Read {
                command: command.clone(),
                name: name.clone(),
                path: path.clone(),
            },
            CommandAction::ListFiles { command, path } => CommandAction::ListFiles {
                command: command.clone(),
                path: path.duplicate(),
            },
            CommandAction::Search { command, query, path } => CommandAction::Search {
                command: command.clone(),
                query: query.duplicate(),
                path: path.duplicate(),
            },
            CommandAction::Unknown { command } => CommandAction::Unknown {
                command: command.clone(),
            },
        }
    }
}

/// How a patch changes a file.
#[derive(Debug, PartialEq, Eq)]
pub enum FileChange {
    Add { content: String },
    Delete { content: String },
    Update { unified_diff: String, move_path: Option<String> },
}

/// The model of how a patch changes a file.
pub enum FileChangeModel {
    Add { content: Seq<char> },
    Delete { content: Seq<char> },
    Update { unified_diff: Seq<char>, move_path: Option<Seq<char>> },
}

impl DeepView for FileChange {
    type V = FileChangeModel;

    open spec fn deep_view(&self) -> Self::V {
        match self {
            FileChange::Add { content } => FileChangeModel::Add { content: content@ },
            FileChange::Delete { content } => FileChangeModel::Delete { content: content@ },
            FileChange::Update { unified_diff, move_path } => FileChangeModel::Update {
                unified_diff: unified_diff@,
                move_path: move_path.deep_view(),
            },
        }
    }
}

impl Data for FileChange {
    fn same(&self, other: &Self) -> (r: bool) {
        match (self, other) {
            (FileChange::Add { content: a }, FileChange::Add { content: b }) => *a == *b,
            (FileChange::Delete { content: a }, FileChange::Delete { content: b }) => *a == *b,
            (
                FileChange::Update { unified_diff: ad, move_path: ap },
                FileChange::Update { unified_diff: bd, move_path: bp },
            ) => *ad == *bd && ap.same(bp),
            _ => false,
        }
    }

    fn duplicate(&self) -> (r: Self) {
        match self {
            FileChange::Add { content } => FileChange::Add { content: content.clone() },
            FileChange::Delete { content } => FileChange::Delete { content: content.clone() },
            FileChange::Update { unified_diff, move_path } => FileChange::Update {
                unified_diff: unified_diff.clone(),
                move_path: move_path.duplicate(),
            },
        }
    }
}

/// A file that a patch changes.
#[derive(Debug, PartialEq, Eq)]
pub struct PatchedFile {
    pub path: String,
    pub change: FileChange,
}

impl DeepView for PatchedFile {
    type V = (Seq<char>, FileChangeModel);

    open spec fn deep_view(&self) -> Self::V {
        (self.path@, self.change.deep_view())
    }
}

/// One item of a turn.
#[allow(inconsistent_fields)]
pub enum ThreadItem {
    UserMessage { id: String, content: PromptContent },
    /// `visible_markdown` is the text without the directives in it.
    AgentMessage { text: String, visible_markdown: String },
    /// `delegated` holds the source task and the prompt where the output is that of a
    /// delegation.
    FunctionCallOutput { delegated: Option<(String, String)> },
    Plan { text: String },
    /// `summary` is the header and the text of the summary.
    Reasoning { summary: (String, String), content: Vec<String> },
    /// `display` is the command without its shell wrapper.
    CommandExecution {
        id: String,
        command: Vec<String>,
        display: String,
        source: CommandExecutionSource,
        status: CommandExecutionStatus,
        actions: Vec<CommandAction>,
        aggregated_output: Option<String>,
        exit_code: Option<i32>,
        duration_ms: Option<i64>,
    },
    /// `changes` stand in the order in which they are shown.
    FileChange { changes: Vec<PatchedFile>, status: PatchApplyStatus },
    HookPrompt { fragments: Vec<String> },
    McpToolCall { server: String, tool: String, status: String },
    DynamicToolCall { namespace: Option<String>, tool: String, status: String },
    CollabAgentToolCall { tool: String, status: String },
    SubAgentActivity { summary: String },
    WebSearch { query: String },
    ImageView { path: String },
    ImageGeneration { status: String, saved_path: Option<String> },
    EnteredReviewMode { review: String },
    ExitedReviewMode { review: String },
    ContextCompaction,
    Sleep,
}

/// How far a turn has come.
#[derive(Clone, Copy, PartialEq, Eq, Structural, Debug)]
pub enum TurnStatus {
    Completed,
    Interrupted,
    Failed,
    InProgress,
}

/// A turn of a thread.
pub struct Turn {
    pub id: String,
    pub items: Vec<ThreadItem>,
    pub status: TurnStatus,
    pub completed_at: Option<i64>,
}

} // verus!
