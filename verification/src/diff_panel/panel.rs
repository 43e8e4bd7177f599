//! The panel: which file it shows, and how far it is scrolled.

use crate::diff_panel::parser::{self, paths_match, DiffFileModel, DiffPanelFile};
use crate::diff_panel::render::{
    self, no_areas, panel_areas, PanelAreas, PanelLayout, MAX_VISIBLE_FILES,
};
use crate::geometry::{self, Area, Position};
use crate::scroll::MouseScrollDirection;
use vstd::prelude::*;

verus! {

/// How many rows one turn of the wheel scrolls the body.
pub const BODY_SCROLL_ROWS: usize = 3;

/// What the panel shows.
#[derive(Debug)]
pub enum DiffPanelContent {
    Loading,
    NotRepository,
    Failed(String),
    Ready(Vec<DiffPanelFile>),
}

/// The model of what the panel shows.
pub ghost enum ContentModel {
    Loading,
    NotRepository,
    Failed(Seq<char>),
    Ready(Seq<DiffFileModel>),
}

impl DeepView for DiffPanelContent {
    type V = ContentModel;

    open spec fn deep_view(&self) -> Self::V {
        match *self {
            DiffPanelContent::Loading => ContentModel::Loading,
            DiffPanelContent::NotRepository => ContentModel::NotRepository,
            DiffPanelContent::Failed(error) => ContentModel::Failed(error@),
            DiffPanelContent::Ready(files) => ContentModel::Ready(files.deep_view()),
        }
    }
}

/// What the mouse is over.
#[derive(Clone, Copy, Debug, PartialEq, Eq, Structural)]
pub enum PanelHover {
    Nothing,
    Close,
    File(usize),
}

/// What a click does.
#[derive(Clone, Copy, Debug, PartialEq, Eq, Structural)]
pub enum DiffPanelClick {
    Ignored,
    Handled,
    Close,
}

/// The panel.
#[derive(Debug)]
pub struct DiffPanel {
    pub content: DiffPanelContent,
    pub selected_file: Option<usize>,
    pub file_list_start: usize,
    pub body_scroll: usize,
    pub revision: u64,
    pub hover: PanelHover,
    pub areas: PanelAreas,
}

/// The model of the panel.
pub ghost struct PanelModel {
    pub content: ContentModel,
    pub selected_file: Option<usize>,
    pub file_list_start: usize,
    pub body_scroll: usize,
    pub revision: u64,
    pub hover: PanelHover,
    pub areas: PanelAreas,
}

impl DeepView for DiffPanel {
    type V = PanelModel;

    open spec fn deep_view(&self) -> Self::V {
        PanelModel {
            content: self.content.deep_view(),
            selected_file: self.selected_file,
            file_list_start: self.file_list_start,
            body_scroll: self.body_scroll,
            revision: self.revision,
            hover: self.hover,
            areas: self.areas,
        }
    }
}

/// The files that a panel shows.
pub open spec fn files_of(panel: PanelModel) -> Seq<DiffFileModel> {
    match panel.content {
        ContentModel::Ready(files) => files,
        _ => Seq::empty(),
    }
}

/// The row of the heading of a file; the first one where it is not known.
pub open spec fn offset_of(offsets: Seq<usize>, i: int) -> usize {
    if 0 <= i < offsets.len() {
        offsets[i]
    } else {
        0
    }
}

/// The number of files that the list has room for.
pub open spec fn room(areas: PanelAreas) -> int {
    geometry::max_of(
        1,
        geometry::min_of(areas.file_list_content.height as int, MAX_VISIBLE_FILES as int),
    )
}

/// Where the list is scrolled to so that a file is listed.
pub open spec fn revealing(start: usize, i: int, room: int) -> usize {
    if i < start {
        i as usize
    } else if i >= start + room {
        (i - (room - 1)) as usize
    } else {
        start
    }
}

/// The panel with a file selected and its heading at the top of the body.
pub open spec fn jumped(panel: PanelModel, i: int, offsets: Seq<usize>) -> PanelModel {
    if 0 <= i < files_of(panel).len() {
        PanelModel {
            selected_file: Some(i as usize),
            file_list_start: revealing(panel.file_list_start, i, room(panel.areas)),
            body_scroll: offset_of(offsets, i),
            ..panel
        }
    } else {
        panel
    }
}

/// The place of the first file that a path means.
pub open spec fn place_of(
    files: Seq<DiffFileModel>,
    path: Seq<char>,
    windows: bool,
) -> Option<int>
    decreases files.len(),
{
    if files.len() == 0 {
        None
    } else if parser::same_file(files[0].path, path, windows) {
        Some(0)
    } else {
        match place_of(files.subrange(1, files.len() as int), path, windows) {
            Some(i) => Some(i + 1),
            None => None,
        }
    }
}

/// The place of the first file with a path.
pub open spec fn place_of_path(files: Seq<DiffFileModel>, path: Seq<char>) -> Option<int>
    decreases files.len(),
{
    if files.len() == 0 {
        None
    } else if files[0].path == path {
        Some(0)
    } else {
        match place_of_path(files.subrange(1, files.len() as int), path) {
            Some(i) => Some(i + 1),
            None => None,
        }
    }
}

/// What came of asking for the changes.
#[derive(Debug)]
pub enum DiffResult {
    NotRepository,
    Files(Vec<DiffPanelFile>),
    Failed(String),
}

/// The model of what came of asking for the changes.
pub ghost enum DiffResultModel {
    NotRepository,
    Files(Seq<DiffFileModel>),
    Failed(Seq<char>),
}

impl DeepView for DiffResult {
    type V = DiffResultModel;

    open spec fn deep_view(&self) -> Self::V {
        match *self {
            DiffResult::NotRepository => DiffResultModel::NotRepository,
            DiffResult::Files(files) => DiffResultModel::Files(files.deep_view()),
            DiffResult::Failed(error) => DiffResultModel::Failed(error@),
        }
    }
}

/// The path of the selected file, and how far the body is scrolled below its heading.
pub open spec fn anchor_of(panel: PanelModel, offsets: Seq<usize>) -> Option<(Seq<char>, int)> {
    match panel.selected_file {
        Some(i) if i < files_of(panel).len() => Some(
            (
                files_of(panel)[i as int].path,
                geometry::monus(panel.body_scroll as int, offset_of(offsets, i as int) as int),
            ),
        ),
        _ => None,
    }
}

/// The path of the selected file.
pub open spec fn path_of_anchor(panel: PanelModel, offsets: Seq<usize>) -> Seq<char> {
    let (path, _) = anchor_of(panel, offsets)->0;
    path
}

/// The next revision.
pub open spec fn next_revision(revision: u64) -> u64 {
    if revision == u64::MAX {
        0
    } else {
        (revision + 1) as u64
    }
}

/// The panel with other content, at its beginning.
pub open spec fn restarted(panel: PanelModel, content: ContentModel) -> PanelModel {
    PanelModel {
        content,
        selected_file: match content {
            ContentModel::Ready(files) if files.len() > 0 => Some(0usize),
            _ => None,
        },
        file_list_start: 0,
        body_scroll: 0,
        revision: next_revision(panel.revision),
        hover: PanelHover::Nothing,
        ..panel
    }
}

/// The panel after the changes came. A file that was selected stays selected, and the body as far
/// below its heading; changes that were shown stay where asking for them anew failed.
pub open spec fn with_result(
    panel: PanelModel,
    result: DiffResultModel,
    offsets: Seq<usize>,
    new_offsets: Seq<usize>,
) -> PanelModel {
    match result {
        DiffResultModel::NotRepository => restarted(panel, ContentModel::NotRepository),
        DiffResultModel::Failed(error) => if panel.content is Ready {
            panel
        } else {
            restarted(panel, ContentModel::Failed(error))
        },
        DiffResultModel::Files(files) => {
            let fresh = restarted(panel, ContentModel::Ready(files));
            match anchor_of(panel, offsets) {
                None => fresh,
                Some((path, below)) => match place_of_path(files, path) {
                    None => fresh,
                    Some(i) => PanelModel {
                        selected_file: Some(i as usize),
                        file_list_start: revealing(panel.file_list_start, i, room(panel.areas)),
                        body_scroll: geometry::min_of(
                            offset_of(new_offsets, i) + below,
                            usize::MAX as int,
                        ) as usize,
                        ..fresh
                    },
                },
            }
        },
    }
}

/// The last file whose heading is not below a row.
pub open spec fn file_at_row(offsets: Seq<usize>, row: int) -> Option<int>
    decreases offsets.len(),
{
    if offsets.len() == 0 {
        None
    } else if offsets.last() <= row {
        Some(offsets.len() - 1)
    } else {
        file_at_row(offsets.drop_last(), row)
    }
}

/// The panel with the file selected that is at the top of the body.
pub open spec fn synced(panel: PanelModel, offsets: Seq<usize>) -> PanelModel {
    match file_at_row(offsets, panel.body_scroll as int) {
        Some(i) if i < files_of(panel).len() => PanelModel {
            selected_file: Some(i as usize),
            file_list_start: revealing(panel.file_list_start, i, room(panel.areas)),
            ..panel
        },
        _ => panel,
    }
}

/// The listed file at a position.
pub open spec fn file_under(panel: PanelModel, position: Position) -> Option<int> {
    let area = panel.areas.file_list_content;
    if area.holds(position) {
        let i = panel.file_list_start + (position.y - area.y);
        if i < files_of(panel).len() {
            Some(i)
        } else {
            None
        }
    } else {
        None
    }
}

/// What is at a position.
pub open spec fn hover_at(panel: PanelModel, position: Position) -> PanelHover {
    if panel.areas.close.holds(position) {
        PanelHover::Close
    } else {
        match file_under(panel, position) {
            Some(i) => PanelHover::File(i as usize),
            None => PanelHover::Nothing,
        }
    }
}

/// The panel after a click, and what the click did.
pub open spec fn clicked(panel: PanelModel, position: Position, offsets: Seq<usize>) -> (
    PanelModel,
    DiffPanelClick,
) {
    if panel.areas.close.holds(position) {
        (panel, DiffPanelClick::Close)
    } else {
        match file_under(panel, position) {
            Some(i) => (jumped(panel, i, offsets), DiffPanelClick::Handled),
            None => if panel.areas.body.holds(position) {
                (panel, DiffPanelClick::Handled)
            } else {
                (panel, DiffPanelClick::Ignored)
            },
        }
    }
}

/// A place moved by some rows in a direction.
pub open spec fn scrolled_by(
    at: usize,
    direction: MouseScrollDirection,
    rows: int,
    most: int,
) -> usize {
    match direction {
        MouseScrollDirection::Up => geometry::monus(at as int, rows) as usize,
        MouseScrollDirection::Down => geometry::min_of(at + rows, most) as usize,
    }
}

/// The panel after the wheel turned, and whether that counted.
pub open spec fn scrolled(
    panel: PanelModel,
    position: Position,
    direction: MouseScrollDirection,
    offsets: Seq<usize>,
    line_count: int,
) -> (PanelModel, bool) {
    if panel.areas.file_list.holds(position) {
        let listed = geometry::max_of(panel.areas.file_list_content.height as int, 1);
        (
            PanelModel {
                file_list_start: scrolled_by(
                    panel.file_list_start,
                    direction,
                    1,
                    geometry::monus(files_of(panel).len() as int, listed),
                ),
                ..panel
            },
            true,
        )
    } else if panel.areas.body.holds(position) {
        (
            synced(
                PanelModel {
                    body_scroll: scrolled_by(
                        panel.body_scroll,
                        direction,
                        BODY_SCROLL_ROWS as int,
                        geometry::monus(line_count, panel.areas.body.height as int),
                    ),
                    ..panel
                },
                offsets,
            ),
            true,
        )
    } else {
        (panel, false)
    }
}

/// The panel as it is drawn in an area.
pub open spec fn placed(panel: PanelModel, area: Area) -> PanelModel {
    let inner = render::inside(area);
    let files = files_of(panel);
    if inner.empty() {
        PanelModel { areas: no_areas(), ..panel }
    } else if files.len() > 0 {
        PanelModel {
            areas: render::areas_with_files(
                inner,
                files.len() as int,
                panel.file_list_start as int,
            ),
            file_list_start: render::first_listed(
                inner,
                files.len() as int,
                panel.file_list_start as int,
            ) as usize,
            ..panel
        }
    } else {
        PanelModel {
            areas: (PanelAreas { close: render::close_of(inner), ..no_areas() }),
            ..panel
        }
    }
}

fn list_start_for(start: usize, i: usize, areas: &PanelAreas) -> (r: usize)
    ensures
        r == revealing(start, i as int, room(*areas)),
{
    let height: usize = areas.file_list_content.height as usize;
    let room: usize = if height < 1 {
        1
    } else if height > MAX_VISIBLE_FILES {
        MAX_VISIBLE_FILES
    } else {
        height
    };
    if i < start {
        i
    } else if i - start >= room {
        i - (room - 1)
    } else {
        start
    }
}

fn offset_at(layout: &PanelLayout, i: usize) -> (r: usize)
    ensures
        r == offset_of(layout.file_offsets@, i as int),
{
    if i < layout.file_offsets.len() {
        layout.file_offsets[i]
    } else {
        0
    }
}

fn move_by(at: usize, direction: MouseScrollDirection, rows: usize, most: usize) -> (r: usize)
    ensures
        r == scrolled_by(at, direction, rows as int, most as int),
{
    match direction {
        MouseScrollDirection::Up => at.saturating_sub(rows),
        MouseScrollDirection::Down => {
            let next: usize = at.saturating_add(rows);
            if next < most {
                next
            } else {
                most
            }
        },
    }
}

/// A panel that waits for the changes.
pub open spec fn loading_model() -> PanelModel {
    PanelModel {
        content: ContentModel::Loading,
        selected_file: None,
        file_list_start: 0,
        body_scroll: 0,
        revision: 0,
        hover: PanelHover::Nothing,
        areas: no_areas(),
    }
}

impl DiffPanel {
    /// A panel that waits for the changes.
    pub fn loading() -> (r: Self)
        ensures
            r.deep_view() == loading_model(),
    {
        DiffPanel {
            content: DiffPanelContent::Loading,
            selected_file: None,
            file_list_start: 0,
            body_scroll: 0,
            revision: 0,
            hover: PanelHover::Nothing,
            areas: no_areas(),
        }
    }

    /// The number of files.
    pub fn file_count(&self) -> (r: usize)
        ensures
            r == files_of(self.deep_view()).len(),
    {
        match &self.content {
            DiffPanelContent::Ready(files) => {
                assert(files.deep_view().len() == files@.len());
                files.len()
            },
            _ => {
                assert(files_of(self.deep_view()).len() == 0);
                0
            },
        }
    }

    fn restart(&mut self, content: DiffPanelContent)
        ensures
            final(self).deep_view() == restarted(old(self).deep_view(), content.deep_view()),
    {
        let some = match &content {
            DiffPanelContent::Ready(files) => {
                assert(files.deep_view().len() == files@.len());
                files.len() > 0
            },
            _ => false,
        };
        self.content = content;
        self.selected_file =
        if some {
            Some(0)
        } else {
            None
        };
        self.file_list_start = 0;
        self.body_scroll = 0;
        self.revision = self.revision.wrapping_add(1);
        self.hover = PanelHover::Nothing;
    }

    /// The changes came. `layout` and `new_layout` are the bodies of the panel before and
    /// afterwards.
    pub fn set_result(
        &mut self,
        result: DiffResult,
        layout: &PanelLayout,
        new_layout: &PanelLayout,
    )
        ensures
            final(self).deep_view() == with_result(
                old(self).deep_view(),
                result.deep_view(),
                layout.file_offsets@,
                new_layout.file_offsets@,
            ),
    {
        match result {
            DiffResult::NotRepository => {
                self.restart(DiffPanelContent::NotRepository);
            },
            DiffResult::Failed(error) => {
                let ready = match &self.content {
                    DiffPanelContent::Ready(_) => true,
                    _ => false,
                };
                if !ready {
                    self.restart(DiffPanelContent::Failed(error));
                }
            },
            DiffResult::Files(files) => {
                let start = self.file_list_start;
                let found = match self.anchor(layout) {
                    Some((path, below)) => match position_of_path(&files, path.as_str()) {
                        Some(i) => Some((i, below)),
                        None => None,
                    },
                    None => None,
                };
                self.restart(DiffPanelContent::Ready(files));
                if let Some((i, below)) = found {
                    self.selected_file = Some(i);
                    self.file_list_start = list_start_for(start, i, &self.areas);
                    self.body_scroll = offset_at(new_layout, i).saturating_add(below);
                }
            },
        }
    }

    fn anchor(&self, layout: &PanelLayout) -> (r: Option<(String, usize)>)
        ensures
            anchor_of(self.deep_view(), layout.file_offsets@) == (match r {
                Some((path, below)) => Some((path@, below as int)),
                None => None,
            }),
    {
        match (&self.content, self.selected_file) {
            (DiffPanelContent::Ready(files), Some(i)) => {
                assert(files.deep_view().len() == files@.len());
                if i < files.len() {
                    assert(files.deep_view()[i as int] == files@[i as int].deep_view());
                    Some(
                        (
                            files[i].path.clone(),
                            self.body_scroll.saturating_sub(offset_at(layout, i)),
                        ),
                    )
                } else {
                    None
                }
            },
            _ => {
                assert(self.selected_file is Some ==> files_of(self.deep_view()).len() == 0);
                None
            },
        }
    }

    /// Waits for the changes again.
    pub fn set_loading(&mut self)
        ensures
            final(self).deep_view() == (PanelModel {
                content: ContentModel::Loading,
                revision: next_revision(old(self).revision),
                ..old(self).deep_view()
            }),
    {
        self.content = DiffPanelContent::Loading;
        self.revision = self.revision.wrapping_add(1);
    }

    /// Selects a file and scrolls the body to its heading.
    pub fn jump_to_file(&mut self, index: usize, layout: &PanelLayout)
        ensures
            final(self).deep_view() == jumped(
                old(self).deep_view(),
                index as int,
                layout.file_offsets@,
            ),
    {
        if index >= self.file_count() {
            return;
        }
        self.selected_file = Some(index);
        self.file_list_start = list_start_for(self.file_list_start, index, &self.areas);
        self.body_scroll = offset_at(layout, index);
    }

    /// Selects the file that a path means, and says whether there is one.
    pub fn jump_to_path(&mut self, path: &str, layout: &PanelLayout, windows: bool) -> (r: bool)
        ensures
            match place_of(files_of(old(self).deep_view()), path@, windows) {
                Some(i) => r && final(self).deep_view() == jumped(
                    old(self).deep_view(),
                    i,
                    layout.file_offsets@,
                ),
                None => !r && final(self).deep_view() == old(self).deep_view(),
            },
    {
        let found = match &self.content {
            DiffPanelContent::Ready(files) => position_of(files, path, windows),
            _ => {
                assert(files_of(self.deep_view()).len() == 0);
                None
            },
        };
        match found {
            Some(i) => {
                self.jump_to_file(i, layout);
                true
            },
            None => false,
        }
    }

    /// Places the panel in an area.
    pub fn place(&mut self, area: Area)
        ensures
            final(self).deep_view() == placed(old(self).deep_view(), area),
    {
        let count = self.file_count();
        let (areas, first) = panel_areas(area, Some(count), self.file_list_start);
        self.areas = areas;
        self.file_list_start = first;
    }

    /// Keeps the body from being scrolled beyond its end.
    pub fn clamp_body_scroll(&mut self, layout: &PanelLayout)
        ensures
            final(self).deep_view() == (PanelModel {
                body_scroll: geometry::min_of(
                    old(self).body_scroll as int,
                    geometry::monus(
                        layout.lines@.len() as int,
                        old(self).areas.body.height as int,
                    ),
                ) as usize,
                ..old(self).deep_view()
            }),
    {
        let most: usize = layout.lines.len().saturating_sub(self.areas.body.height as usize);
        if self.body_scroll > most {
            self.body_scroll = most;
        }
    }

    fn listed_file(&self, position: Position) -> (r: Option<usize>)
        ensures
            file_under(self.deep_view(), position) == (match r {
                Some(i) => Some(i as int),
                None => None,
            }),
    {
        let area = self.areas.file_list_content;
        if area.contains(position) {
            let row: usize = (position.y - area.y) as usize;
            let count = self.file_count();
            if self.file_list_start < count && row < count - self.file_list_start {
                return Some(self.file_list_start + row);
            }
        }
        None
    }

    /// The mouse moved. Says whether what it is over changed.
    pub fn handle_mouse_move(&mut self, position: Position) -> (r: bool)
        ensures
            final(self).deep_view() == (PanelModel {
                hover: hover_at(old(self).deep_view(), position),
                ..old(self).deep_view()
            }),
            r == (final(self).hover != old(self).hover),
    {
        let next = if self.areas.close.contains(position) {
            PanelHover::Close
        } else {
            match self.listed_file(position) {
                Some(i) => PanelHover::File(i),
                None => PanelHover::Nothing,
            }
        };
        let changed = match (self.hover, next) {
            (PanelHover::Nothing, PanelHover::Nothing) => false,
            (PanelHover::Close, PanelHover::Close) => false,
            (PanelHover::File(a), PanelHover::File(b)) => a != b,
            _ => true,
        };
        self.hover = next;
        changed
    }

    /// The mouse was clicked.
    pub fn handle_left_click(&mut self, position: Position, layout: &PanelLayout) -> (r:
        DiffPanelClick)
        ensures
            (final(self).deep_view(), r) == clicked(
                old(self).deep_view(),
                position,
                layout.file_offsets@,
            ),
    {
        if self.areas.close.contains(position) {
            return DiffPanelClick::Close;
        }
        if let Some(i) = self.listed_file(position) {
            self.jump_to_file(i, layout);
            return DiffPanelClick::Handled;
        }
        if self.areas.body.contains(position) {
            return DiffPanelClick::Handled;
        }
        DiffPanelClick::Ignored
    }

    /// The wheel turned. Says whether that counted.
    pub fn handle_mouse_scroll(
        &mut self,
        position: Position,
        direction: MouseScrollDirection,
        layout: &PanelLayout,
    ) -> (r: bool)
        ensures
            (final(self).deep_view(), r) == scrolled(
                old(self).deep_view(),
                position,
                direction,
                layout.file_offsets@,
                layout.lines@.len() as int,
            ),
    {
        if self.areas.file_list.contains(position) {
            let height: usize = self.areas.file_list_content.height as usize;
            let listed: usize = if height < 1 {
                1
            } else {
                height
            };
            let most: usize = self.file_count().saturating_sub(listed);
            self.file_list_start = move_by(self.file_list_start, direction, 1, most);
            return true;
        }
        if self.areas.body.contains(position) {
            let most: usize = layout.lines.len().saturating_sub(self.areas.body.height as usize);
            self.body_scroll = move_by(self.body_scroll, direction, BODY_SCROLL_ROWS, most);
            self.sync_selected_file_to_body_scroll(layout);
            return true;
        }
        false
    }

    /// Selects the file that is at the top of the body.
    pub fn sync_selected_file_to_body_scroll(&mut self, layout: &PanelLayout)
        ensures
            final(self).deep_view() == synced(old(self).deep_view(), layout.file_offsets@),
    {
        let ghost offsets = layout.file_offsets@;
        let mut i: usize = layout.file_offsets.len();
        assert(offsets.take(i as int) =~= offsets);
        while i > 0 && layout.file_offsets[i - 1] > self.body_scroll
            invariant
                i <= layout.file_offsets@.len(),
                offsets == layout.file_offsets@,
                *self == *old(self),
                file_at_row(offsets, self.body_scroll as int) == file_at_row(
                    offsets.take(i as int),
                    self.body_scroll as int,
                ),
            ensures
                i <= layout.file_offsets@.len(),
                *self == *old(self),
                file_at_row(offsets, self.body_scroll as int) == file_at_row(
                    offsets.take(i as int),
                    self.body_scroll as int,
                ),
                i > 0 ==> offsets[i - 1] <= self.body_scroll,
            decreases i,
        {
            assert(offsets.take(i as int).drop_last() =~= offsets.take(i - 1));
            i -= 1;
        }
        if i > 0 {
            assert(offsets.take(i as int).last() == offsets[i - 1]);
            if i - 1 < self.file_count() {
                self.selected_file = Some(i - 1);
                self.file_list_start = list_start_for(self.file_list_start, i - 1, &self.areas);
            }
        }
    }
}

fn position_of(files: &Vec<DiffPanelFile>, path: &str, windows: bool) -> (r: Option<usize>)
    ensures
        place_of(files.deep_view(), path@, windows) == (match r {
            Some(i) => Some(i as int),
            None => None,
        }),
{
    let ghost all = files.deep_view();
    let mut i: usize = 0;
    assert(all.subrange(0, all.len() as int) =~= all);
    while i < files.len()
        invariant
            i <= files@.len(),
            all == files.deep_view(),
            place_of(all, path@, windows) == (match place_of(
                all.subrange(i as int, all.len() as int),
                path@,
                windows,
            ) {
                Some(k) => Some(k + i),
                None => None,
            }),
        decreases files@.len() - i,
    {
        let ghost rest = all.subrange(i as int, all.len() as int);
        assert(rest[0] == files@[i as int].deep_view());
        if paths_match(files[i].path.as_str(), path, windows) {
            return Some(i);
        }
        assert(rest.subrange(1, rest.len() as int) =~= all.subrange(i + 1, all.len() as int));
        i += 1;
    }
    None
}

fn position_of_path(files: &Vec<DiffPanelFile>, path: &str) -> (r: Option<usize>)
    ensures
        place_of_path(files.deep_view(), path@) == (match r {
            Some(i) => Some(i as int),
            None => None,
        }),
{
    let ghost all = files.deep_view();
    let mut i: usize = 0;
    assert(all.subrange(0, all.len() as int) =~= all);
    while i < files.len()
        invariant
            i <= files@.len(),
            all == files.deep_view(),
            place_of_path(all, path@) == (match place_of_path(
                all.subrange(i as int, all.len() as int),
                path@,
            ) {
                Some(k) => Some(k + i),
                None => None,
            }),
        decreases files@.len() - i,
    {
        let ghost rest = all.subrange(i as int, all.len() as int);
        assert(rest[0] == files@[i as int].deep_view());
        if crate::text::same_text(files[i].path.as_str(), path) {
            return Some(i);
        }
        assert(rest.subrange(1, rest.len() as int) =~= all.subrange(i + 1, all.len() as int));
        i += 1;
    }
    None
}

proof fn lemma_place_of_path(files: Seq<DiffFileModel>, path: Seq<char>)
    ensures
        match place_of_path(files, path) {
            Some(i) => 0 <= i < files.len() && files[i].path == path,
            None => forall|i: int| 0 <= i < files.len() ==> (#[trigger] files[i]).path != path,
        },
    decreases files.len(),
{
    if files.len() > 0 {
        let rest = files.subrange(1, files.len() as int);
        lemma_place_of_path(rest, path);
        assert forall|i: int| 1 <= i < files.len() implies (#[trigger] files[i]) == rest[i - 1] by {}
    }
}

/// New changes keep the selected file where it is still among them, and the body as far below its
/// heading as before.
pub proof fn refresh_keeps_the_selected_file(
    panel: PanelModel,
    files: Seq<DiffFileModel>,
    offsets: Seq<usize>,
    new_offsets: Seq<usize>,
    k: int,
)
    requires
        anchor_of(panel, offsets) is Some,
        0 <= k < files.len() <= usize::MAX,
        files[k].path == path_of_anchor(panel, offsets),
    ensures
        ({
            let (path, below) = anchor_of(panel, offsets)->0;
            let next = with_result(panel, DiffResultModel::Files(files), offsets, new_offsets);
            match next.selected_file {
                Some(i) => {
                    &&& i < files.len()
                    &&& files[i as int].path == path
                    &&& offset_of(new_offsets, i as int) + below <= usize::MAX ==> next.body_scroll
                        == offset_of(new_offsets, i as int) + below
                },
                None => false,
            }
        }),
{
    lemma_place_of_path(files, path_of_anchor(panel, offsets));
}

/// Asking for the changes anew does not lose those that are shown, where it fails.
pub proof fn failure_keeps_the_changes(
    panel: PanelModel,
    error: Seq<char>,
    offsets: Seq<usize>,
    new_offsets: Seq<usize>,
)
    requires
        panel.content is Ready,
    ensures
        with_result(panel, DiffResultModel::Failed(error), offsets, new_offsets) == panel,
{
}

/// After a jump the body is at the heading of the file, and syncing the selection with the body
/// selects the same file.
pub proof fn jumping_and_scrolling_agree(panel: PanelModel, i: int, offsets: Seq<usize>)
    requires
        0 <= i < files_of(panel).len() <= usize::MAX,
        offsets.len() == files_of(panel).len(),
        forall|a: int, b: int| 0 <= a < b < offsets.len() ==> offsets[a] < offsets[b],
    ensures
        synced(jumped(panel, i, offsets), offsets).selected_file == Some(i as usize),
{
    let at = jumped(panel, i, offsets).body_scroll;
    assert(at == offsets[i]);
    lemma_file_at_row(offsets, at as int, i, offsets.len() as int);
}

proof fn lemma_file_at_row(offsets: Seq<usize>, row: int, i: int, n: int)
    requires
        0 <= i < n <= offsets.len(),
        offsets[i] <= row,
        forall|k: int| i < k < offsets.len() ==> row < offsets[k],
    ensures
        file_at_row(offsets.take(n), row) == Some(i),
        n == offsets.len() ==> file_at_row(offsets, row) == Some(i),
    decreases n,
{
    let part = offsets.take(n);
    assert(part.last() == offsets[n - 1]);
    if n - 1 > i {
        lemma_file_at_row(offsets, row, i, n - 1);
        assert(part.drop_last() =~= offsets.take(n - 1));
    }
    if n == offsets.len() {
        assert(part =~= offsets);
    }
}

/// A jump to a file selects it, scrolls the body to its heading and the list so that it is listed,
/// and changes nothing else. There is no jump to a file that is not there.
pub proof fn jumps_show_the_file(panel: PanelModel, i: int, offsets: Seq<usize>)
    requires
        files_of(panel).len() <= usize::MAX,
    ensures
        0 <= i < files_of(panel).len() ==> {
            let next = jumped(panel, i, offsets);
            &&& next.selected_file == Some(i as usize)
            &&& i < offsets.len() ==> next.body_scroll == offsets[i]
            &&& next.file_list_start <= i
            &&& i == next.file_list_start || i - next.file_list_start
                < panel.areas.file_list_content.height
            &&& panel.file_list_start <= i && i - panel.file_list_start
                < panel.areas.file_list_content.height && i - panel.file_list_start
                < MAX_VISIBLE_FILES ==> next.file_list_start == panel.file_list_start
            &&& next.content == panel.content
            &&& next.hover == panel.hover
            &&& next.revision == panel.revision
            &&& next.areas == panel.areas
        },
        i < 0 || i >= files_of(panel).len() ==> jumped(panel, i, offsets) == panel,
{
}

/// A path leads to the first file that it means, and to none where it means none.
pub proof fn paths_lead_to_their_file(
    files: Seq<DiffFileModel>,
    path: Seq<char>,
    windows: bool,
    i: int,
)
    ensures
        0 <= i < files.len() && parser::same_file(files[i].path, path, windows) && (forall|k: int|
            0 <= k < i ==> !parser::same_file((#[trigger] files[k]).path, path, windows))
            ==> place_of(files, path, windows) == Some(i),
        (forall|k: int|
            0 <= k < files.len() ==> !parser::same_file((#[trigger] files[k]).path, path, windows))
            ==> place_of(files, path, windows) is None,
    decreases files.len(),
{
    if files.len() > 0 {
        let rest = files.subrange(1, files.len() as int);
        paths_lead_to_their_file(rest, path, windows, i - 1);
        if 0 <= i < files.len() && parser::same_file(files[i].path, path, windows) && (forall|k: int|
            0 <= k < i ==> !parser::same_file((#[trigger] files[k]).path, path, windows)) {
            if i > 0 {
                assert(!parser::same_file(files[0].path, path, windows));
                assert(rest[i - 1] == files[i]);
                assert forall|k: int| 0 <= k < i - 1 implies !parser::same_file(
                    (#[trigger] rest[k]).path,
                    path,
                    windows,
                ) by {
                    assert(files[k + 1] == rest[k]);
                }
            }
        }
        if (forall|k: int|
            0 <= k < files.len() ==> !parser::same_file(
                (#[trigger] files[k]).path,
                path,
                windows,
            )) {
            assert(!parser::same_file(files[0].path, path, windows));
            assert forall|k: int| 0 <= k < rest.len() implies !parser::same_file(
                (#[trigger] rest[k]).path,
                path,
                windows,
            ) by {
                assert(files[k + 1] == rest[k]);
            }
        }
    }
}

/// A click on a row of the list selects the file that is listed there, one on the cross closes the
/// panel, and another one in the panel changes nothing.
pub proof fn clicks_select_the_listed_file(
    panel: PanelModel,
    position: Position,
    offsets: Seq<usize>,
)
    ensures
        ({
            let (next, click) = clicked(panel, position, offsets);
            let area = panel.areas.file_list_content;
            let i = panel.file_list_start + (position.y - area.y);
            &&& click == DiffPanelClick::Close <==> panel.areas.close.holds(position)
            &&& click != DiffPanelClick::Handled ==> next == panel
            &&& !panel.areas.close.holds(position) && area.holds(position) && i < files_of(
                panel,
            ).len() ==> click == DiffPanelClick::Handled && next == jumped(panel, i, offsets)
                && hover_at(panel, position) == PanelHover::File(i as usize)
            &&& !panel.areas.close.holds(position) && !area.holds(position) ==> next == panel && (
            click == DiffPanelClick::Handled <==> panel.areas.body.holds(position))
                && hover_at(panel, position) == PanelHover::Nothing
            &&& panel.areas.close.holds(position) ==> hover_at(panel, position)
                == PanelHover::Close
        }),
{
}

/// The wheel moves the list by one file and the body by three rows, neither beyond its ends, and
/// does nothing elsewhere.
pub proof fn wheels_move_list_and_body(
    panel: PanelModel,
    position: Position,
    offsets: Seq<usize>,
    line_count: int,
)
    requires
        0 <= line_count <= usize::MAX,
        files_of(panel).len() <= usize::MAX,
    ensures
        ({
            let (up, up_counts) = scrolled(
                panel,
                position,
                MouseScrollDirection::Up,
                offsets,
                line_count,
            );
            let (down, down_counts) = scrolled(
                panel,
                position,
                MouseScrollDirection::Down,
                offsets,
                line_count,
            );
            let height = panel.areas.body.height;
            &&& up_counts == down_counts
            &&& up_counts <==> panel.areas.file_list.holds(position) || panel.areas.body.holds(
                position,
            )
            &&& !up_counts ==> up == panel && down == panel
            &&& panel.areas.file_list.holds(position) ==> {
                &&& up.body_scroll == panel.body_scroll
                &&& down.body_scroll == panel.body_scroll
                &&& up.selected_file == panel.selected_file
                &&& down.selected_file == panel.selected_file
                &&& panel.file_list_start > 0 ==> up.file_list_start == panel.file_list_start - 1
                &&& panel.file_list_start == 0 ==> up.file_list_start == 0
                &&& panel.file_list_start + 1 + panel.areas.file_list_content.height <= files_of(
                    panel,
                ).len() && panel.areas.file_list_content.height > 0 ==> down.file_list_start
                    == panel.file_list_start + 1
            }
            &&& panel.areas.body.holds(position) && !panel.areas.file_list.holds(position) ==> {
                &&& panel.body_scroll >= 3 ==> up.body_scroll == panel.body_scroll - 3
                &&& panel.body_scroll < 3 ==> up.body_scroll == 0
                &&& panel.body_scroll + 3 + height <= line_count ==> down.body_scroll
                    == panel.body_scroll + 3
                &&& panel.body_scroll + height <= line_count < panel.body_scroll + 3 + height
                    ==> down.body_scroll == line_count - height
            }
        }),
{
}

/// Scrolling the body selects the file whose rows are at its top.
pub proof fn scrolling_selects_the_file_at_the_top(
    panel: PanelModel,
    offsets: Seq<usize>,
    i: int,
)
    requires
        0 <= i < offsets.len() <= files_of(panel).len() <= usize::MAX,
        offsets[i] <= panel.body_scroll,
        forall|k: int| i < k < offsets.len() ==> panel.body_scroll < #[trigger] offsets[k],
    ensures
        synced(panel, offsets).selected_file == Some(i as usize),
        synced(panel, offsets).body_scroll == panel.body_scroll,
        synced(panel, offsets).content == panel.content,
        synced(panel, offsets).file_list_start <= i,
{
    lemma_file_at_row(offsets, panel.body_scroll as int, i, offsets.len() as int);
}

/// Changes that come are shown. The panel begins at the first file where none was selected, or the
/// selected one is gone; it says where there is no repository, and why the changes could not be
/// found out where none are shown.
pub proof fn new_changes_are_shown(
    panel: PanelModel,
    result: DiffResultModel,
    offsets: Seq<usize>,
    new_offsets: Seq<usize>,
)
    ensures
        ({
            let next = with_result(panel, result, offsets, new_offsets);
            &&& next.areas == panel.areas
            &&& match result {
                DiffResultModel::NotRepository => next.content == ContentModel::NotRepository
                    && next.selected_file is None,
                DiffResultModel::Failed(error) => !(panel.content is Ready) ==> next.content
                    == ContentModel::Failed(error) && next.selected_file is None,
                DiffResultModel::Files(files) => {
                    &&& next.content == ContentModel::Ready(files)
                    &&& panel.selected_file is None || panel.selected_file->0 >= files_of(panel).len()
                        || (forall|k: int|
                        0 <= k < files.len() ==> (#[trigger] files[k]).path != files_of(
                            panel,
                        )[panel.selected_file->0 as int].path) ==> {
                        &&& next.body_scroll == 0
                        &&& next.file_list_start == 0
                        &&& next.selected_file == (if files.len() > 0 {
                            Some(0usize)
                        } else {
                            None
                        })
                    }
                },
            }
        }),
{
    if let DiffResultModel::Files(files) = result {
        if anchor_of(panel, offsets) is Some {
            lemma_place_of_path(files, path_of_anchor(panel, offsets));
        }
    }
}

/// A panel that is drawn has no rectangles where it has no room, only the cross where it lists no
/// files, and else those of the list and the body. What it shows stays, but that a list which was
/// scrolled too far goes back.
pub proof fn drawn_panels_have_their_rectangles(panel: PanelModel, area: Area)
    requires
        panel.file_list_start < files_of(panel).len() <= usize::MAX || files_of(panel).len() == 0,
    ensures
        ({
            let inner = render::inside(area);
            let after = placed(panel, area);
            let count = files_of(panel).len() as int;
            &&& after.content == panel.content
            &&& after.selected_file == panel.selected_file
            &&& after.body_scroll == panel.body_scroll
            &&& inner.empty() ==> after.areas == no_areas()
            &&& !inner.empty() ==> after.areas.close == render::close_of(inner)
            &&& !inner.empty() && count == 0 ==> after.areas.file_list == no_areas().file_list
                && after.areas.body == no_areas().body
            &&& !inner.empty() && count > 0 ==> {
                &&& after.areas == render::areas_with_files(
                    inner,
                    count,
                    panel.file_list_start as int,
                )
                &&& after.file_list_start <= panel.file_list_start
                &&& after.file_list_start + render::listed_files(inner, count) <= count
                &&& panel.file_list_start + render::listed_files(inner, count) <= count
                    ==> after.file_list_start == panel.file_list_start
            }
        }),
{
}

} // verus!
