//! The place beside the conversation where the panel of changes opens.

use crate::diff_panel::panel::{ContentModel, DiffPanel, DiffPanelContent, DiffResult, PanelModel};
use crate::diff_panel::panel;
use crate::diff_panel::render::{
    self, diff_panel_width, PanelLayout, DIFF_PANEL_GAP, MIN_DIFF_PANEL_TERMINAL_WIDTH,
};
use crate::geometry;
use crate::text::{self, concat2, is_blank, lines_of};
use vstd::prelude::*;

verus! {

/// The panel where it is open, and the number of the last request for the changes.
#[derive(Debug)]
pub struct PanelSlot {
    pub panel: Option<DiffPanel>,
    pub generation: u64,
}

/// The number of the next request.
pub open spec fn next_generation(generation: u64) -> u64 {
    panel::next_revision(generation)
}

/// A panel whose changes were asked for again: changes that it shows stay.
pub open spec fn refreshing(panel: PanelModel) -> PanelModel {
    if panel.content is Ready {
        panel
    } else {
        PanelModel {
            content: ContentModel::Loading,
            revision: panel::next_revision(panel.revision),
            ..panel
        }
    }
}

impl PanelSlot {
    /// Whether the panel is open.
    pub open spec fn open(&self) -> bool {
        self.panel is Some
    }

    /// No panel.
    pub fn new() -> (r: Self)
        ensures
            !r.open(),
            r.generation == 0,
    {
        PanelSlot { panel: None, generation: 0 }
    }

    /// Whether the panel is open.
    pub fn is_open(&self) -> (r: bool)
        ensures
            r == self.open(),
    {
        self.panel.is_some()
    }

    /// Opens the panel, and gives the number of the request for the changes.
    pub fn start(&mut self) -> (r: u64)
        ensures
            final(self).open(),
            final(self).panel->0.deep_view() == panel::loading_model(),
            r == next_generation(old(self).generation),
            final(self).generation == r,
    {
        self.panel = Some(DiffPanel::loading());
        self.generation = self.generation.wrapping_add(1);
        self.generation
    }

    /// Closes the panel.
    pub fn close(&mut self)
        ensures
            *final(self) == (PanelSlot { panel: None, ..*old(self) }),
    {
        self.panel = None;
    }

    /// Asks for the changes again: gives the number of the request. Changes that are shown stay
    /// until the new ones come.
    pub fn begin_refresh(&mut self) -> (r: u64)
        ensures
            r == next_generation(old(self).generation),
            final(self).generation == r,
            match (old(self).panel, final(self).panel) {
                (Some(before), Some(now)) => now.deep_view() == refreshing(before.deep_view()),
                (None, None) => true,
                _ => false,
            },
    {
        self.generation = self.generation.wrapping_add(1);
        match self.panel.take() {
            Some(mut panel) => {
                let ready = match &panel.content {
                    DiffPanelContent::Ready(_) => true,
                    _ => false,
                };
                if !ready {
                    panel.set_loading();
                }
                self.panel = Some(panel);
            },
            None => {},
        }
        self.generation
    }

    /// Asks for the changes again where the panel is open, and gives the number of the request.
    pub fn refresh(&mut self) -> (r: Option<u64>)
        ensures
            match old(self).panel {
                Some(before) => {
                    &&& r == Some(next_generation(old(self).generation))
                    &&& final(self).generation == r->0
                    &&& final(self).open()
                    &&& final(self).panel->0.deep_view() == refreshing(before.deep_view())
                },
                None => r is None && *final(self) == *old(self),
            },
    {
        if self.is_open() {
            Some(self.begin_refresh())
        } else {
            None
        }
    }

    /// Goes to the file that a path means, and says whether the panel is open and shows it.
    pub fn jump_to_path(&mut self, path: &str, layout: &PanelLayout, windows: bool) -> (r: bool)
        ensures
            final(self).generation == old(self).generation,
            match old(self).panel {
                Some(before) => {
                    let place = panel::place_of(
                        panel::files_of(before.deep_view()),
                        path@,
                        windows,
                    );
                    &&& r == (place is Some)
                    &&& final(self).open()
                    &&& final(self).panel->0.deep_view() == match place {
                        Some(i) => panel::jumped(before.deep_view(), i, layout.file_offsets@),
                        None => before.deep_view(),
                    }
                },
                None => !r && final(self).panel is None,
            },
    {
        match self.panel.take() {
            Some(mut panel) => {
                let found = panel.jump_to_path(path, layout, windows);
                self.panel = Some(panel);
                found
            },
            None => false,
        }
    }

    /// The changes of a request came. Says whether they count: only those of the last request do,
    /// while the panel is open.
    pub fn apply_result(
        &mut self,
        generation: u64,
        result: DiffResult,
        layout: &PanelLayout,
        new_layout: &PanelLayout,
    ) -> (r: bool)
        ensures
            r == (old(self).open() && old(self).generation == generation),
            !r ==> *final(self) == *old(self),
            r ==> {
                &&& final(self).open()
                &&& final(self).generation == generation
                &&& final(self).panel->0.deep_view() == panel::with_result(
                    old(self).panel->0.deep_view(),
                    result.deep_view(),
                    layout.file_offsets@,
                    new_layout.file_offsets@,
                )
            },
    {
        if self.generation != generation {
            return false;
        }
        match self.panel.take() {
            Some(mut panel) => {
                panel.set_result(result, layout, new_layout);
                self.panel = Some(panel);
                true
            },
            None => false,
        }
    }
}

/// What the command for the panel does.
#[derive(Debug, PartialEq, Eq)]
pub enum ToggleStep {
    /// The changes are shown in a view of their own.
    RequestOverlay,
    /// The panel closes.
    Close,
    /// An error.
    Error(String),
    /// The panel opens beside a conversation of some columns.
    Open { columns: u16 },
}

/// The model of what the command for the panel does.
pub ghost enum ToggleModel {
    RequestOverlay,
    Close,
    Error(Seq<char>),
    Open { columns: u16 },
}

impl DeepView for ToggleStep {
    type V = ToggleModel;

    open spec fn deep_view(&self) -> Self::V {
        match *self {
            ToggleStep::RequestOverlay => ToggleModel::RequestOverlay,
            ToggleStep::Close => ToggleModel::Close,
            ToggleStep::Error(text) => ToggleModel::Error(text@),
            ToggleStep::Open { columns } => ToggleModel::Open { columns },
        }
    }
}

/// The width of the panel in a terminal that is wide enough.
pub open spec fn panel_width(terminal_width: u16) -> int {
    geometry::min_of(terminal_width * render::PANEL_WIDTH_PERCENT, u16::MAX as int) / 100
}

/// What the command for the panel does.
pub open spec fn toggle_of(
    owned_screen: bool,
    open: bool,
    terminal_width: Result<u16, Seq<char>>,
) -> ToggleModel {
    if !owned_screen {
        ToggleModel::RequestOverlay
    } else if open {
        ToggleModel::Close
    } else {
        match terminal_width {
            Err(error) => ToggleModel::Error("Failed to read terminal size: "@ + error),
            Ok(width) => if width < MIN_DIFF_PANEL_TERMINAL_WIDTH {
                ToggleModel::Error(
                    "Resize the terminal to at least 110 columns to show the diff panel."@,
                )
            } else {
                ToggleModel::Open {
                    columns: geometry::monus(
                        geometry::monus(width as int, panel_width(width)),
                        DIFF_PANEL_GAP as int,
                    ) as u16,
                }
            },
        }
    }
}

/// What the command for the panel does. The width of the terminal is read only where the panel is
/// to open.
pub fn toggle_diff_panel(
    owned_screen: bool,
    open: bool,
    terminal_width: Result<u16, String>,
) -> (r: ToggleStep)
    ensures
        r.deep_view() == toggle_of(
            owned_screen,
            open,
            match terminal_width {
                Ok(width) => Ok(width),
                Err(error) => Err(error@),
            },
        ),
{
    if !owned_screen {
        return ToggleStep::RequestOverlay;
    }
    if open {
        return ToggleStep::Close;
    }
    let width = match terminal_width {
        Ok(width) => width,
        Err(error) => {
            return ToggleStep::Error(concat2("Failed to read terminal size: ", error.as_str()));
        },
    };
    match diff_panel_width(width) {
        None => ToggleStep::Error(
            "Resize the terminal to at least 110 columns to show the diff panel.".to_owned(),
        ),
        Some(panel) => ToggleStep::Open {
            columns: width.saturating_sub(panel).saturating_sub(DIFF_PANEL_GAP),
        },
    }
}

/// How the changes are asked for.
#[derive(Debug, PartialEq, Eq)]
pub enum DiffRequest {
    /// Without colours, for the panel.
    ForPanel,
    /// With colours, for a view of their own.
    Coloured,
    /// Not at all: the request fails.
    Failed(String),
}

/// How the changes are asked for. Nothing can be asked without something that runs commands in the
/// workspace.
pub fn request_diff(has_runner: bool, for_panel: bool) -> (r: DiffRequest)
    ensures
        match r {
            DiffRequest::ForPanel => has_runner && for_panel,
            DiffRequest::Coloured => has_runner && !for_panel,
            DiffRequest::Failed(error) => !has_runner && error@
                == "workspace command runner unavailable"@,
        },
{
    if !has_runner {
        DiffRequest::Failed("workspace command runner unavailable".to_owned())
    } else if for_panel {
        DiffRequest::ForPanel
    } else {
        DiffRequest::Coloured
    }
}

/// What is shown of changes in a view of their own.
#[derive(Debug, PartialEq, Eq)]
pub enum DiffOverlay {
    NoChanges,
    Lines(Vec<String>),
}

/// The text of the view: the changes, or why there are none.
pub open spec fn overlay_text(result: Result<(bool, Seq<char>), Seq<char>>) -> Seq<char> {
    match result {
        Ok((true, text)) => text,
        Ok((false, _)) => "`/diff` \u{2014} _not inside a git repository_"@,
        Err(error) => "Failed to compute diff: "@ + error,
    }
}

/// The model of the result of a request for the changes.
pub open spec fn result_model(result: Result<(bool, String), String>) -> Result<
    (bool, Seq<char>),
    Seq<char>,
> {
    match result {
        Ok((found, text)) => Ok((found, text@)),
        Err(error) => Err(error@),
    }
}

/// Whether a view shows a text: its lines, or that there are no changes where it is blank.
pub open spec fn overlay_shows(overlay: DiffOverlay, text: Seq<char>) -> bool {
    match overlay {
        DiffOverlay::NoChanges => text::blank(text),
        DiffOverlay::Lines(lines) => !text::blank(text) && lines.deep_view() == text::text_lines(
            text,
        ),
    }
}

/// What the result of a request for the changes is for.
pub enum DiffResultUse {
    /// Nothing: it is about another directory.
    Ignored,
    /// The panel, under the number of the request.
    Panel(u64, Result<(bool, String), String>),
    /// A view of its own.
    Overlay(DiffOverlay),
}

/// What the result of a request for the changes is for. A result that is about another directory
/// than the current one comes too late.
pub fn handle_diff_result(
    cwd_differs: bool,
    panel_generation: Option<u64>,
    result: Result<(bool, String), String>,
) -> (r: DiffResultUse)
    ensures
        match r {
            DiffResultUse::Ignored => cwd_differs,
            DiffResultUse::Panel(generation, same) => !cwd_differs && panel_generation == Some(
                generation,
            ) && same == result,
            DiffResultUse::Overlay(overlay) => !cwd_differs && panel_generation is None
                && overlay_shows(overlay, overlay_text(result_model(result))),
        },
{
    if cwd_differs {
        return DiffResultUse::Ignored;
    }
    match panel_generation {
        Some(generation) => DiffResultUse::Panel(generation, result),
        None => DiffResultUse::Overlay(diff_overlay(result)),
    }
}

/// What is shown of changes in a view of their own. `result` says whether there is a repository.
pub fn diff_overlay(result: Result<(bool, String), String>) -> (r: DiffOverlay)
    ensures
        overlay_shows(r, overlay_text(result_model(result))),
{
    let text = match result {
        Ok((found, text)) => if found {
            text
        } else {
            "`/diff` \u{2014} _not inside a git repository_".to_owned()
        },
        Err(error) => concat2("Failed to compute diff: ", error.as_str()),
    };
    if is_blank(text.as_str()) {
        DiffOverlay::NoChanges
    } else {
        DiffOverlay::Lines(lines_of(text.as_str()))
    }
}

/// The command closes an open panel and opens a closed one, where the terminal is wide enough: then
/// the conversation, a free column and two fifths for the panel make up the terminal.
pub proof fn panels_open_beside_the_conversation(
    open: bool,
    terminal_width: Result<u16, Seq<char>>,
)
    ensures
        toggle_of(false, open, terminal_width) == ToggleModel::RequestOverlay,
        toggle_of(true, true, terminal_width) == ToggleModel::Close,
        terminal_width is Err ==> toggle_of(true, false, terminal_width) is Error,
        terminal_width matches Ok(width) ==> {
            &&& width < 110 ==> toggle_of(true, false, terminal_width) is Error
            &&& 110 <= width <= 1_600 ==> {
                &&& toggle_of(true, false, terminal_width) is Open
                &&& toggle_of(true, false, terminal_width)->columns + 1 + width * 40 / 100 == width
            }
        },
{
}

/// Each request has another number than the one before, so only the answer to the last one counts.
pub proof fn requests_are_told_apart(generation: u64)
    ensures
        next_generation(generation) != generation,
        generation < u64::MAX ==> next_generation(generation) == generation + 1,
{
}

/// Changes that are shown stay while they are asked for again; anything else gives way to the note
/// that they are on their way.
pub proof fn shown_changes_stay_while_refreshing(panel: PanelModel)
    ensures
        panel.content is Ready ==> refreshing(panel) == panel,
        !(panel.content is Ready) ==> refreshing(panel).content == ContentModel::Loading,
        refreshing(panel).selected_file == panel.selected_file,
        refreshing(panel).body_scroll == panel.body_scroll,
{
}

/// A view of its own shows the lines of the changes, or why there are none.
pub proof fn overlays_show_the_changes(overlay: DiffOverlay, text: Seq<char>)
    ensures
        overlay_shows(overlay, overlay_text(Ok((true, text)))) ==> match overlay {
            DiffOverlay::NoChanges => forall|i: int|
                0 <= i < text.len() ==> text::char_whitespace(#[trigger] text[i]),
            DiffOverlay::Lines(lines) => lines.deep_view() == text::text_lines(text) && !text::blank(
                text,
            ),
        },
        overlay_text(Ok((false, text))) == overlay_text(Ok((false, Seq::empty()))),
        text::has_suffix(overlay_text(Err(text)), text),
{
    let all = overlay_text(Err::<(bool, Seq<char>), Seq<char>>(text));
    assert(all.subrange(all.len() - text.len(), all.len() as int) =~= text);
}

} // verus!
