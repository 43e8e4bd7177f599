//! The full screen that the application draws itself.

pub mod panel_slot;
pub mod selection;

use crate::diff_panel::panel::{self, PanelModel};
use crate::diff_panel::render::PanelLayout;
use crate::geometry::{self, Area, Position};
use crate::owned_screen::panel_slot::PanelSlot;
use crate::owned_screen::selection::{ReleaseModel, ScreenTextSelection, SelectionModel, SelectionRelease};
use crate::patches::FileChangeDisplayLines;
use crate::scroll::{self, MouseScrollDirection, ScrollAcceleration};
use crate::styled::{dim, plain, push_span, SpanStyle, StyledLine, StyledSpan};
use crate::text::{self, concat2, concat3, decimal_string};
use crate::viewport::pager;
use crate::viewport::projection::ViewModel;
use crate::viewport::{self, BlockHit, ConversationViewport};
use crate::width::{self, text_columns};
use vstd::prelude::*;

verus! {

/// How long the notice of a copy is shown, in nanoseconds.
pub const COPY_NOTICE_NANOS: u64 = 2_000_000_000;

/// How much time may pass between the clicks of a double click, in nanoseconds.
pub const DOUBLE_CLICK_NANOS: u64 = 500_000_000;

/// Whether the application draws the whole screen itself.
#[derive(Clone, Copy, Debug, PartialEq, Eq, Structural)]
pub enum AltScreenBehavior {
    Disabled,
    OverlayOnly,
    Owned,
}

/// A key as far as it moves through the conversation.
#[derive(Clone, Copy, Debug, PartialEq, Eq, Structural)]
pub enum NavigationKey {
    CtrlEnd,
    PageUp,
    PageDown,
    Other,
}

/// What the mouse did.
#[derive(Clone, Copy, Debug, PartialEq, Eq, Structural)]
pub enum MouseInteractionKind {
    Move,
    LeftDown,
    LeftDrag,
    LeftUp,
}

/// The last click, and how many there were in a row.
#[derive(Clone, Copy, Debug, PartialEq, Eq, Structural)]
pub struct LastClick {
    pub position: Position,
    pub at: u64,
    pub count: u8,
}

/// The notice of a copy.
#[derive(Clone, Copy, Debug, PartialEq, Eq, Structural)]
pub struct CopyNotice {
    pub char_count: usize,
    pub expires_at: u64,
}

/// What something that the mouse did brings about.
#[derive(Debug, PartialEq, Eq)]
pub enum OwnedScreenMouseAction {
    Ignored,
    Redraw,
    Copy(String),
}

/// The model of what something that the mouse did brings about.
pub ghost enum MouseActionModel {
    Ignored,
    Redraw,
    Copy(Seq<char>),
}

impl DeepView for OwnedScreenMouseAction {
    type V = MouseActionModel;

    open spec fn deep_view(&self) -> Self::V {
        match *self {
            OwnedScreenMouseAction::Ignored => MouseActionModel::Ignored,
            OwnedScreenMouseAction::Redraw => MouseActionModel::Redraw,
            OwnedScreenMouseAction::Copy(text) => MouseActionModel::Copy(text@),
        }
    }
}

/// The full screen. Times are nanoseconds since some fixed moment.
#[derive(Debug)]
pub struct OwnedScreen {
    pub viewport: ConversationViewport,
    pub replay_in_progress: bool,
    pub last_conversation_area: Area,
    pub last_selection_area: Area,
    pub scroll_acceleration: ScrollAcceleration,
    pub selection: ScreenTextSelection,
    pub last_click: Option<LastClick>,
    pub copy_notice: Option<CopyNotice>,
    pub diff_panel: PanelSlot,
}

/// Whether a screen is drawn by the application.
pub fn is_owned(behavior: AltScreenBehavior) -> (r: bool)
    ensures
        r == (behavior == AltScreenBehavior::Owned),
{
    match behavior {
        AltScreenBehavior::Disabled => false,
        AltScreenBehavior::OverlayOnly => false,
        AltScreenBehavior::Owned => true,
    }
}

/// Whether a key moves through the conversation: not while something else has the keyboard, and
/// apart from Ctrl-End not while something is being written.
pub fn navigation_key_counts(
    no_modal_or_popup_active: bool,
    composer_is_empty: bool,
    key: NavigationKey,
) -> (r: bool)
    ensures
        r == (no_modal_or_popup_active && (composer_is_empty || key == NavigationKey::CtrlEnd)),
{
    no_modal_or_popup_active && (composer_is_empty || key == NavigationKey::CtrlEnd)
}

/// The part of the screen for the conversation. What is below it takes at most the whole screen.
pub fn conversation_area(area: Area, bottom_height: u16, wrap_width: u16) -> (r: Area)
    ensures
        r == (Area {
            x: area.x,
            y: area.y,
            width: wrap_width,
            height: geometry::monus(
                area.height as int,
                geometry::min_of(bottom_height as int, area.height as int),
            ) as u16,
        }),
{
    let bottom = if bottom_height < area.height {
        bottom_height
    } else {
        area.height
    };
    Area { x: area.x, y: area.y, width: wrap_width, height: area.height - bottom }
}

/// The part of the screen below the conversation.
pub fn bottom_area(area: Area, bottom_height: u16) -> (r: Area)
    ensures
        ({
            let height = geometry::min_of(bottom_height as int, area.height as int);
            r == (Area {
                x: area.x,
                y: geometry::saturating_sum(area.y as int, area.height - height) as u16,
                width: area.width,
                height: height as u16,
            })
        }),
{
    let height = if bottom_height < area.height {
        bottom_height
    } else {
        area.height
    };
    Area {
        x: area.x,
        y: area.y.saturating_add(area.height - height),
        width: area.width,
        height,
    }
}

/// Where a hint of some columns stands: in the middle of the last row of an area, with a column
/// free on both sides as far as there is room.
pub open spec fn hint_place(area: Area, content_width: int) -> Area {
    let width = geometry::min_of(
        geometry::saturating_sum(content_width, 2),
        area.width as int,
    );
    Area {
        x: geometry::saturating_sum(area.x as int, (area.width - width) / 2) as u16,
        y: geometry::monus(area.bottom_edge(), 1) as u16,
        width: width as u16,
        height: 1,
    }
}

/// The columns of the hint that the end of the conversation is elsewhere, at most as many as a
/// screen can have.
pub open spec fn hint_columns(shortcut: Seq<char>) -> int {
    geometry::min_of(
        width::columns(shortcut) + width::columns(" jump to bottom "@) + width::columns(
            "\u{2193}"@,
        ),
        u16::MAX as int,
    )
}

/// The hint that the end of the conversation is elsewhere.
pub open spec fn hint_spans(shortcut: Seq<char>) -> Seq<(Seq<char>, SpanStyle)> {
    seq![(shortcut, plain()), (" jump to bottom "@, dim()), ("\u{2193}"@, dim())]
}

/// Where the hint stands that the end of the conversation is elsewhere.
pub fn jump_hint_area(area: Area, content_width: u16) -> (r: Area)
    ensures
        r == hint_place(area, content_width as int),
{
    let wanted = content_width.saturating_add(2);
    let width = if wanted < area.width {
        wanted
    } else {
        area.width
    };
    Area {
        x: area.x.saturating_add((area.width - width) / 2),
        y: area.bottom().saturating_sub(1),
        width,
        height: 1,
    }
}

/// The hint that the end of the conversation is elsewhere.
pub fn jump_hint(shortcut: &str) -> (r: StyledLine)
    ensures
        r.deep_view() == hint_spans(shortcut@),
{
    let mut spans: Vec<StyledSpan> = Vec::new();
    assert(spans.deep_view() =~= Seq::empty());
    push_span(&mut spans, shortcut, plain());
    push_span(&mut spans, " jump to bottom ", dim());
    push_span(&mut spans, "\u{2193}", dim());
    assert(spans.deep_view() =~= hint_spans(shortcut@));
    StyledLine { spans }
}

/// The hint that the end of the conversation is elsewhere, and where it stands; none where there
/// is no room, or the conversation is at its end.
pub fn jump_to_bottom_hint(area: Area, following_bottom: bool, shortcut: &str) -> (r: Option<
    (StyledLine, Area),
>)
    ensures
        match r {
            Some((line, place)) => {
                &&& !following_bottom && !area.empty()
                &&& line.deep_view() == hint_spans(shortcut@)
                &&& place == hint_place(area, hint_columns(shortcut@))
            },
            None => following_bottom || area.empty(),
        },
{
    if following_bottom || area.is_empty() {
        return None;
    }
    let columns: usize = text_columns(shortcut).saturating_add(
        text_columns(" jump to bottom "),
    ).saturating_add(text_columns("\u{2193}"));
    let content_width: u16 = if columns <= 65535 {
        columns as u16
    } else {
        65535
    };
    Some((jump_hint(shortcut), jump_hint_area(area, content_width)))
}

/// A row that is filled with a colour.
#[derive(Clone, Copy, Debug, PartialEq, Eq, Structural)]
pub struct FilledRow {
    pub y: u16,
    pub first: u16,
    pub end: u16,
    pub colour: u32,
}

/// The rows that go on beyond the conversation with the background at its right edge.
pub open spec fn extended(area: Area, right: u16, backgrounds: Seq<Option<u32>>) -> Seq<FilledRow>
    decreases backgrounds.len(),
{
    if backgrounds.len() == 0 {
        Seq::empty()
    } else {
        let front = extended(area, right, backgrounds.drop_last());
        match backgrounds.last() {
            Some(colour) => front.push(
                FilledRow {
                    y: (area.y + backgrounds.len() - 1) as u16,
                    first: area.right_edge() as u16,
                    end: right,
                    colour,
                },
            ),
            None => front,
        }
    }
}

/// The rows that go on beyond the conversation. `backgrounds` holds the colours at its right edge,
/// one for each of its rows; nothing for the colour of the terminal.
pub fn extend_conversation_backgrounds(
    area: Area,
    right: u16,
    backgrounds: &Vec<Option<u32>>,
) -> (r: Vec<FilledRow>)
    requires
        backgrounds@.len() == area.bottom_edge() - area.y,
    ensures
        r@ == (if area.empty() || right <= area.right_edge() {
            Seq::empty()
        } else {
            extended(area, right, backgrounds@)
        }),
{
    let mut r: Vec<FilledRow> = Vec::new();
    let first = area.right();
    if area.is_empty() || right <= first {
        return r;
    }
    let mut i: usize = 0;
    assert(backgrounds@.take(0) =~= Seq::empty());
    while i < backgrounds.len()
        invariant
            i <= backgrounds@.len(),
            backgrounds@.len() == area.bottom_edge() - area.y,
            first == area.right_edge(),
            r@ == extended(area, right, backgrounds@.take(i as int)),
        decreases backgrounds@.len() - i,
    {
        assert(backgrounds@.take(i + 1).drop_last() =~= backgrounds@.take(i as int));
        if let Some(colour) = backgrounds[i] {
            r.push(FilledRow { y: area.y + i as u16, first, end: right, colour });
        }
        i += 1;
    }
    assert(backgrounds@.take(i as int) =~= backgrounds@);
    r
}

/// The clicks in a row that a click ends.
pub open spec fn click_count(last: Option<LastClick>, position: Position, now: u64) -> u8 {
    match last {
        Some(last) if last.position == position && geometry::monus(now as int, last.at as int)
            <= DOUBLE_CLICK_NANOS => if last.count == u8::MAX {
            u8::MAX
        } else {
            (last.count + 1) as u8
        },
        _ => 1,
    }
}

/// What the mouse changes on the screen.
pub ghost struct ScreenModel {
    pub view: ViewModel,
    pub selection: SelectionModel,
    pub last_click: Option<LastClick>,
    pub panel: Option<PanelModel>,
}

/// What is under the mouse: the block of the conversation, the number of rows of the file change
/// in it and of its heading, and the path of the changed file; and the rows of the headings in the
/// panel of changes. On Windows the case of paths does not matter.
pub ghost struct MouseTarget {
    pub hit: Option<BlockHit>,
    pub lines: Option<(int, int)>,
    pub path: Option<Seq<char>>,
    pub offsets: Seq<usize>,
    pub windows: bool,
}

/// The conversation after a click: with the panel of changes open, file changes stay collapsed.
pub open spec fn view_clicked(screen: ScreenModel, target: MouseTarget) -> ViewModel {
    viewport::after_click(
        screen.view,
        target.hit,
        if screen.panel is Some {
            None
        } else {
            target.lines
        },
    )
}

/// The panel of changes after a click on the conversation: it goes to the file whose change was
/// hit, where it shows that file.
pub open spec fn panel_clicked(screen: ScreenModel, target: MouseTarget) -> Option<PanelModel> {
    match (screen.panel, target.path) {
        (Some(panel), Some(path)) => if viewport::clicked_change(
            screen.view,
            target.hit,
            target.lines,
        ) is Some {
            Some(panel_at(panel, path, target.offsets, target.windows))
        } else {
            Some(panel)
        },
        (panel, _) => panel,
    }
}

/// The panel at the file that a path means, or as it was where it does not show that file.
pub open spec fn panel_at(
    panel: PanelModel,
    path: Seq<char>,
    offsets: Seq<usize>,
    windows: bool,
) -> PanelModel {
    match panel::place_of(panel::files_of(panel), path, windows) {
        Some(i) => panel::jumped(panel, i, offsets),
        None => panel,
    }
}

/// The screen after the button was released, and what that brings about.
pub open spec fn released(
    screen: ScreenModel,
    area: Area,
    position: Position,
    now: u64,
    target: MouseTarget,
) -> (ScreenModel, MouseActionModel) {
    let (selection, release) = selection::after_release(screen.selection, area, position);
    match release {
        ReleaseModel::Ignored => (
            ScreenModel { selection, ..screen },
            MouseActionModel::Ignored,
        ),
        ReleaseModel::Redraw => (ScreenModel { selection, ..screen }, MouseActionModel::Redraw),
        ReleaseModel::Copy(text) => (
            ScreenModel { selection, last_click: None, ..screen },
            MouseActionModel::Copy(text),
        ),
        ReleaseModel::Click(position) => {
            let count = click_count(screen.last_click, position, now);
            let (marked, word) = selection::after_double_click(selection, area, position);
            match word {
                Some(text) if count >= 2 => (
                    ScreenModel { selection: marked, last_click: None, ..screen },
                    MouseActionModel::Copy(text),
                ),
                _ => (
                    ScreenModel {
                        view: view_clicked(screen, target),
                        selection: if count >= 2 {
                            marked
                        } else {
                            selection
                        },
                        last_click: Some(LastClick { position, at: now, count }),
                        panel: panel_clicked(screen, target),
                    },
                    MouseActionModel::Redraw,
                ),
            }
        },
    }
}

/// Whether something that the mouse did has to be drawn.
pub open spec fn drawn_if(changed: bool) -> MouseActionModel {
    if changed {
        MouseActionModel::Redraw
    } else {
        MouseActionModel::Ignored
    }
}

/// The screen after something that the mouse did, and what that brings about.
pub open spec fn after_mouse(
    screen: ScreenModel,
    area: Area,
    kind: MouseInteractionKind,
    position: Position,
    now: u64,
    target: MouseTarget,
) -> (ScreenModel, MouseActionModel) {
    match kind {
        MouseInteractionKind::Move => {
            let view = viewport::after_move(screen.view, target.hit, target.lines);
            (ScreenModel { view, ..screen }, drawn_if(view != screen.view))
        },
        MouseInteractionKind::LeftDown => (
            ScreenModel {
                selection: selection::after_press(screen.selection, area, position),
                ..screen
            },
            drawn_if(area.holds(position)),
        ),
        MouseInteractionKind::LeftDrag => (
            ScreenModel {
                selection: selection::after_drag(screen.selection, area, position),
                ..screen
            },
            drawn_if(
                screen.selection.pointer_down && !area.empty() && screen.selection.head != Some(
                    selection::nearest_point(area, position),
                ),
            ),
        ),
        MouseInteractionKind::LeftUp => released(screen, area, position, now, target),
    }
}

fn redraw_if(changed: bool) -> (r: OwnedScreenMouseAction)
    ensures
        r.deep_view() == drawn_if(changed),
{
    if changed {
        OwnedScreenMouseAction::Redraw
    } else {
        OwnedScreenMouseAction::Ignored
    }
}

fn next_click_count(last: Option<LastClick>, position: Position, now: u64) -> (r: u8)
    ensures
        r == click_count(last, position, now),
{
    match last {
        Some(last) => if last.position == position && now.saturating_sub(last.at)
            <= DOUBLE_CLICK_NANOS {
            last.count.saturating_add(1)
        } else {
            1
        },
        None => 1,
    }
}

impl OwnedScreen {
    /// What the mouse changes on the screen.
    pub open spec fn model(&self) -> ScreenModel {
        ScreenModel {
            view: self.viewport.view(),
            selection: self.selection.deep_view(),
            last_click: self.last_click,
            panel: self.diff_panel.panel.deep_view(),
        }
    }

    /// Whether everything is as before but what the model holds. Of the conversation neither what
    /// goes on below the cells nor the place on the screen changed, and no changes were asked for.
    pub open spec fn same_but_mouse(&self, before: OwnedScreen) -> bool {
        &&& *self == (OwnedScreen {
            viewport: self.viewport,
            selection: self.selection,
            last_click: self.last_click,
            diff_panel: self.diff_panel,
            ..before
        })
        &&& self.viewport.live_tail_key == before.viewport.live_tail_key
        &&& self.viewport.scroll == before.viewport.scroll
        &&& self.diff_panel.generation == before.diff_panel.generation
    }

    /// Whether the blocks of the conversation are right, and text can be selected.
    pub open spec fn wf(&self) -> bool {
        self.viewport.wf() && selection::proper(self.last_selection_area)
    }

    /// A screen that shows a conversation.
    pub fn new(viewport: ConversationViewport) -> (r: Self)
        requires
            viewport.wf(),
        ensures
            r.wf(),
            r.viewport == viewport,
            !r.replay_in_progress,
            r.last_conversation_area == (Area { x: 0, y: 0, width: 0, height: 0 }),
            r.last_selection_area == (Area { x: 0, y: 0, width: 0, height: 0 }),
            r.scroll_acceleration.at_rest(),
            r.selection.deep_view() == selection::nothing_selected(),
            r.last_click is None,
            r.copy_notice is None,
            !r.diff_panel.open(),
            r.diff_panel.generation == 0,
    {
        OwnedScreen {
            viewport,
            replay_in_progress: false,
            last_conversation_area: Area::nothing(),
            last_selection_area: Area::nothing(),
            scroll_acceleration: ScrollAcceleration::default(),
            selection: ScreenTextSelection::new(),
            last_click: None,
            copy_notice: None,
            diff_panel: PanelSlot::new(),
        }
    }

    /// Takes note of where the conversation was drawn, and on what text can be selected.
    pub fn set_areas(&mut self, conversation: Area, selectable: Area)
        requires
            old(self).wf(),
            selection::proper(selectable),
        ensures
            final(self).wf(),
            *final(self) == (OwnedScreen {
                last_conversation_area: conversation,
                last_selection_area: selectable,
                ..*old(self)
            }),
    {
        self.last_conversation_area = conversation;
        self.last_selection_area = selectable;
    }

    /// A key was pressed. Says whether it moved through the conversation, which has `total_rows`.
    pub fn handle_navigation_key(&mut self, key: NavigationKey, total_rows: usize) -> (r: bool)
        requires
            old(self).wf(),
        ensures
            final(self).wf(),
            r == (key != NavigationKey::Other),
            *final(self) == (OwnedScreen {
                viewport: final(self).viewport,
                selection: final(self).selection,
                scroll_acceleration: final(self).scroll_acceleration,
                ..*old(self)
            }),
            final(self).viewport == (ConversationViewport {
                scroll: final(self).viewport.scroll,
                ..old(self).viewport
            }),
            final(self).viewport.scroll == (match key {
                NavigationKey::CtrlEnd => pager::PagerScroll {
                    following: true,
                    ..old(self).viewport.scroll
                },
                NavigationKey::PageUp => pager::scrolled(
                    old(self).viewport.scroll,
                    MouseScrollDirection::Up,
                    old(self).last_conversation_area.height as int,
                    total_rows as int,
                    old(self).last_conversation_area.height as int,
                ),
                NavigationKey::PageDown => pager::scrolled(
                    old(self).viewport.scroll,
                    MouseScrollDirection::Down,
                    old(self).last_conversation_area.height as int,
                    total_rows as int,
                    old(self).last_conversation_area.height as int,
                ),
                NavigationKey::Other => old(self).viewport.scroll,
            }),
            final(self).selection.deep_view() == (if r {
                old(self).selection.deep_view().cleared()
            } else {
                old(self).selection.deep_view()
            }),
            r ==> final(self).scroll_acceleration.at_rest(),
            !r ==> *final(self) == *old(self),
    {
        let height: usize = self.last_conversation_area.height as usize;
        match key {
            NavigationKey::Other => {
                return false;
            },
            NavigationKey::CtrlEnd => {
                self.viewport.scroll.scroll_to_bottom();
            },
            NavigationKey::PageUp => {
                self.viewport.scroll.scroll_rows(
                    MouseScrollDirection::Up,
                    height,
                    total_rows,
                    height,
                );
            },
            NavigationKey::PageDown => {
                self.viewport.scroll.scroll_rows(
                    MouseScrollDirection::Down,
                    height,
                    total_rows,
                    height,
                );
            },
        }
        self.scroll_acceleration.reset();
        self.selection.clear();
        true
    }

    /// The wheel turned. Says whether that counted: it does over the conversation, which has
    /// `total_rows`.
    pub fn handle_mouse_scroll(
        &mut self,
        direction: MouseScrollDirection,
        position: Position,
        now: u64,
        total_rows: usize,
    ) -> (r: bool)
        requires
            old(self).wf(),
        ensures
            final(self).wf(),
            r == old(self).last_conversation_area.holds(position),
            !r ==> *final(self) == *old(self),
            r ==> {
                &&& *final(self) == (OwnedScreen {
                    viewport: final(self).viewport,
                    selection: final(self).selection,
                    scroll_acceleration: final(self).scroll_acceleration,
                    last_click: None,
                    ..*old(self)
                })
                &&& final(self).viewport == (ConversationViewport {
                    scroll: final(self).viewport.scroll,
                    ..old(self).viewport
                })
                &&& final(self).selection.deep_view() == old(self).selection.deep_view().cleared()
                &&& final(self).scroll_acceleration.last_direction() == Some(direction)
                &&& final(self).scroll_acceleration.last_time() == Some(now)
                &&& final(self).viewport.scroll == pager::scrolled(
                    old(self).viewport.scroll,
                    direction,
                    scroll::rows_for(final(self).scroll_acceleration.multiplier()),
                    total_rows as int,
                    old(self).last_conversation_area.height as int,
                )
                &&& final(self).scroll_acceleration.multiplier() == (if scroll::goes_on(
                    old(self).scroll_acceleration.last_direction(),
                    old(self).scroll_acceleration.last_time(),
                    direction,
                    now,
                ) {
                    scroll::accelerated(
                        old(self).scroll_acceleration.multiplier(),
                        (now - old(self).scroll_acceleration.last_time()->0) / 1_000_000,
                    )
                } else {
                    scroll::PER_MILLE as int
                })
            },
    {
        if !self.last_conversation_area.contains(position) {
            return false;
        }
        self.selection.clear();
        self.last_click = None;
        let rows = self.scroll_acceleration.rows_at(direction, now);
        self.viewport.scroll.scroll_rows(
            direction,
            rows,
            total_rows,
            self.last_conversation_area.height as usize,
        );
        true
    }

    /// The mouse did something. `hit` is the block of the conversation under it, `change` the file
    /// change of that block and `path` the path of the changed file; `layout` is the body of the
    /// panel of changes.
    pub fn handle_mouse_interaction(
        &mut self,
        kind: MouseInteractionKind,
        position: Position,
        now: u64,
        hit: Option<BlockHit>,
        change: &Option<FileChangeDisplayLines>,
        path: &Option<String>,
        layout: &PanelLayout,
        windows: bool,
    ) -> (r: OwnedScreenMouseAction)
        requires
            old(self).wf(),
        ensures
            final(self).wf(),
            (final(self).model(), r.deep_view()) == after_mouse(
                old(self).model(),
                old(self).last_selection_area,
                kind,
                position,
                now,
                (MouseTarget {
                    hit,
                    lines: viewport::line_counts(*change),
                    path: path.deep_view(),
                    offsets: layout.file_offsets@,
                    windows,
                }),
            ),
            final(self).same_but_mouse(*old(self)),
    {
        match kind {
            MouseInteractionKind::Move => {
                let changed = self.viewport.handle_mouse_move(hit, change);
                redraw_if(changed)
            },
            MouseInteractionKind::LeftDown => {
                let counted = self.selection.left_down(self.last_selection_area, position);
                redraw_if(counted)
            },
            MouseInteractionKind::LeftDrag => {
                let changed = self.selection.left_drag(self.last_selection_area, position);
                redraw_if(changed)
            },
            MouseInteractionKind::LeftUp => self.handle_release(
                position,
                now,
                hit,
                change,
                path,
                layout,
                windows,
            ),
        }
    }

    fn handle_release(
        &mut self,
        position: Position,
        now: u64,
        hit: Option<BlockHit>,
        change: &Option<FileChangeDisplayLines>,
        path: &Option<String>,
        layout: &PanelLayout,
        windows: bool,
    ) -> (r: OwnedScreenMouseAction)
        requires
            old(self).wf(),
        ensures
            final(self).wf(),
            (final(self).model(), r.deep_view()) == released(
                old(self).model(),
                old(self).last_selection_area,
                position,
                now,
                (MouseTarget {
                    hit,
                    lines: viewport::line_counts(*change),
                    path: path.deep_view(),
                    offsets: layout.file_offsets@,
                    windows,
                }),
            ),
            final(self).same_but_mouse(*old(self)),
    {
        match self.selection.left_up(self.last_selection_area, position) {
            SelectionRelease::Ignored => OwnedScreenMouseAction::Ignored,
            SelectionRelease::Redraw => OwnedScreenMouseAction::Redraw,
            SelectionRelease::Copy(text) => {
                self.last_click = None;
                OwnedScreenMouseAction::Copy(text)
            },
            SelectionRelease::Click(position) => {
                let count = next_click_count(self.last_click, position, now);
                self.last_click = Some(LastClick { position, at: now, count });
                if count >= 2 {
                    if let Some(text) = self.selection.select_word(
                        self.last_selection_area,
                        position,
                    ) {
                        self.last_click = None;
                        return OwnedScreenMouseAction::Copy(text);
                    }
                }
                let locked: Option<FileChangeDisplayLines> = None;
                if self.diff_panel.is_open() {
                    if let Some(path) = path {
                        if self.viewport.clicked_file_change(hit, change).is_some() {
                            self.diff_panel.jump_to_path(path.as_str(), layout, windows);
                        }
                    }
                    self.viewport.handle_left_click(hit, &locked);
                } else {
                    self.viewport.handle_left_click(hit, change);
                }
                OwnedScreenMouseAction::Redraw
            },
        }
    }

    /// Shows the notice of a copy.
    pub fn show_copy_notice(&mut self, char_count: usize, now: u64)
        ensures
            *final(self) == (OwnedScreen {
                copy_notice: Some(
                    CopyNotice {
                        char_count,
                        expires_at: notice_end(now),
                    },
                ),
                ..*old(self)
            }),
    {
        let expires_at: u64 = match now.checked_add(COPY_NOTICE_NANOS) {
            Some(at) => at,
            None => now,
        };
        self.copy_notice = Some(CopyNotice { char_count, expires_at });
    }

    /// Text was handed to the clipboard. The notice of the copy is shown where that worked; else
    /// the message of the failure is returned.
    pub fn finish_copy(&mut self, text: &str, result: Result<(), String>, now: u64) -> (r: Option<
        String,
    >)
        ensures
            match result {
                Ok(()) => r is None && *final(self) == (OwnedScreen {
                    copy_notice: Some(
                        CopyNotice {
                            char_count: text@.len() as usize,
                            expires_at: notice_end(now),
                        },
                    ),
                    ..*old(self)
                }),
                Err(error) => r.deep_view() == Some("Copy failed: "@ + error@) && *final(self)
                    == *old(self),
            },
    {
        match result {
            Ok(()) => {
                self.show_copy_notice(text.unicode_len(), now);
                None
            },
            Err(error) => Some(copy_failed_message(error.as_str())),
        }
    }

    /// The time until the notice of a copy has to go.
    pub fn copy_notice_delay(&self, now: u64) -> (r: Option<u64>)
        ensures
            r == (match self.copy_notice {
                Some(notice) if notice.expires_at >= now => Some((notice.expires_at - now) as u64),
                _ => None,
            }),
    {
        match self.copy_notice {
            Some(notice) => notice.expires_at.checked_sub(now),
            None => None,
        }
    }

    /// The notice of a copy and where it stands: above the first row of the composer, or at the top
    /// of the area where there is no composer. A notice whose time is over is dropped.
    pub fn copy_notice_line(&mut self, area: Area, composer_top: Option<u16>, now: u64) -> (r:
        Option<(String, Area)>)
        ensures
            *final(self) == (OwnedScreen {
                copy_notice: match old(self).copy_notice {
                    Some(notice) if now >= notice.expires_at => None,
                    _ => old(self).copy_notice,
                },
                ..*old(self)
            }),
            match r {
                Some((text, place)) => {
                    &&& final(self).copy_notice is Some
                    &&& !area.empty()
                    &&& text@ == "copied "@ + text::decimal(
                        old(self).copy_notice->0.char_count as nat,
                    ) + " chars to clipboard"@
                    &&& place == (Area {
                        x: area.x,
                        y: match composer_top {
                            Some(y) => geometry::max_of(
                                geometry::monus(y as int, 1),
                                area.y as int,
                            ) as u16,
                            None => area.y,
                        },
                        width: geometry::monus(area.width as int, 2) as u16,
                        height: 1,
                    })
                },
                None => final(self).copy_notice is None || area.empty(),
            },
    {
        let notice = match self.copy_notice {
            Some(notice) => notice,
            None => {
                return None;
            },
        };
        if now >= notice.expires_at {
            self.copy_notice = None;
            return None;
        }
        if area.is_empty() {
            return None;
        }
        let y = match composer_top {
            Some(y) => {
                let above = y.saturating_sub(1);
                if above > area.y {
                    above
                } else {
                    area.y
                }
            },
            None => area.y,
        };
        let text = concat3(
            "copied ",
            decimal_string(notice.char_count as u64).as_str(),
            " chars to clipboard",
        );
        Some((text, Area { x: area.x, y, width: area.width.saturating_sub(2), height: 1 }))
    }

    /// Opens the panel of changes, which collapses the file changes of the conversation. Gives the
    /// number of the request for the changes; nothing where the terminal is too narrow.
    pub fn open_diff_panel(&mut self, terminal_width: u16) -> (r: Option<u64>)
        requires
            old(self).wf(),
        ensures
            final(self).wf(),
            r is Some <==> terminal_width >= crate::diff_panel::render::MIN_DIFF_PANEL_TERMINAL_WIDTH,
            match r {
                Some(generation) => {
                    &&& *final(self) == (OwnedScreen {
                        viewport: final(self).viewport,
                        diff_panel: final(self).diff_panel,
                        ..*old(self)
                    })
                    &&& final(self).diff_panel.open()
                    &&& final(self).diff_panel.panel->0.deep_view() == panel::loading_model()
                    &&& final(self).diff_panel.generation == generation
                    &&& generation == panel_slot::next_generation(old(self).diff_panel.generation)
                    &&& final(self).viewport.view() == (ViewModel {
                        expanded_file_change: None,
                        ..old(self).viewport.view()
                    })
                    &&& final(self).viewport.live_tail_key == old(self).viewport.live_tail_key
                    &&& final(self).viewport.scroll == old(self).viewport.scroll
                },
                None => *final(self) == *old(self),
            },
    {
        if crate::diff_panel::render::diff_panel_width(terminal_width).is_none() {
            return None;
        }
        self.viewport.collapse_file_changes();
        Some(self.diff_panel.start())
    }

    /// Closes the panel of changes.
    pub fn close_diff_panel(&mut self)
        requires
            old(self).wf(),
        ensures
            final(self).wf(),
            *final(self) == (OwnedScreen {
                diff_panel: PanelSlot { panel: None, ..old(self).diff_panel },
                ..*old(self)
            }),
    {
        self.diff_panel.close();
    }
}

/// When the notice of a copy made now has to go.
pub open spec fn notice_end(now: u64) -> u64 {
    if now + COPY_NOTICE_NANOS > u64::MAX {
        now
    } else {
        (now + COPY_NOTICE_NANOS) as u64
    }
}

/// What a frame of the screen needs before it is drawn.
#[derive(Clone, Copy, Debug, PartialEq, Eq, Structural)]
pub struct FramePreparation {
    /// The new width, where it changed.
    pub resized_to: Option<u16>,
    /// Whether the status line is made again.
    pub refreshes_status_line: bool,
}

/// What a frame of the screen needs before it is drawn in a terminal of some width and height,
/// after the last one was drawn at others.
pub fn prepare_frame(size: (u16, u16), last_size: (u16, u16)) -> (r: FramePreparation)
    ensures
        r.resized_to == (if size.0 != last_size.0 {
            Some(size.0)
        } else {
            None
        }),
        r.refreshes_status_line == (size != last_size),
{
    FramePreparation {
        resized_to: if size.0 != last_size.0 {
            Some(size.0)
        } else {
            None
        },
        refreshes_status_line: size.0 != last_size.0 || size.1 != last_size.1,
    }
}

/// The message of a copy that failed.
pub fn copy_failed_message(error: &str) -> (r: String)
    ensures
        r@ == "Copy failed: "@ + error@,
{
    concat2("Copy failed: ", error)
}

/// Two clicks in a row at one place select the word there, where there is one, and copy it; the
/// next click is the first one of a new row.
pub proof fn double_click_copies_a_word(
    screen: ScreenModel,
    area: Area,
    position: Position,
    first: u64,
    second: u64,
    target: MouseTarget,
)
    requires
        area.holds(position),
        first <= second,
        second - first <= DOUBLE_CLICK_NANOS,
        screen.last_click is None,
    ensures
        ({
            let down = MouseInteractionKind::LeftDown;
            let up = MouseInteractionKind::LeftUp;
            let pressed = after_mouse(screen, area, down, position, first, target).0;
            let (once, action) = after_mouse(
                pressed,
                area,
                up,
                position,
                first,
                target,
            );
            let again = after_mouse(once, area, down, position, second, target).0;
            let (twice, copied) = after_mouse(
                again,
                area,
                up,
                position,
                second,
                target,
            );
            &&& action == MouseActionModel::Redraw
            &&& match selection::after_double_click(
                screen.selection.cleared(),
                area,
                position,
            ).1 {
                Some(text) => copied == MouseActionModel::Copy(text) && twice.last_click is None,
                None => copied == MouseActionModel::Redraw,
            }
        }),
{
}

/// With the panel of changes open, a click on the heading of a file change leaves the change
/// collapsed and takes the panel to the file, where the panel shows it.
pub proof fn clicked_changes_are_shown_in_the_panel(
    screen: ScreenModel,
    area: Area,
    position: Position,
    now: u64,
    target: MouseTarget,
    i: int,
)
    requires
        area.holds(position),
        screen.last_click is None,
        screen.panel is Some,
        target.path is Some,
        viewport::clicked_change(screen.view, target.hit, target.lines) is Some,
        panel::place_of(panel::files_of(screen.panel->0), target.path->0, target.windows) == Some(
            i,
        ),
    ensures
        ({
            let down = MouseInteractionKind::LeftDown;
            let up = MouseInteractionKind::LeftUp;
            let pressed = after_mouse(screen, area, down, position, now, target).0;
            let (clicked, action) = after_mouse(pressed, area, up, position, now, target);
            &&& action == MouseActionModel::Redraw
            &&& clicked.view == screen.view
            &&& clicked.panel == Some(panel::jumped(screen.panel->0, i, target.offsets))
        }),
{
}

/// Dragging over the screen copies the text between the two cells, whichever way it goes, and
/// neither the conversation nor the panel changes. No click is remembered.
pub proof fn dragging_copies_and_changes_nothing_else(
    screen: ScreenModel,
    area: Area,
    from: Position,
    to: Position,
    now: u64,
    target: MouseTarget,
)
    requires
        area.holds(from),
        area.holds(to),
        from.y < to.y || from.y == to.y && from.x < to.x,
    ensures
        ({
            let first = selection::SelectionPoint {
                row: (from.y - area.y) as u16,
                column: (from.x - area.x) as u16,
            };
            let last = selection::SelectionPoint {
                row: (to.y - area.y) as u16,
                column: (to.x - area.x) as u16,
            };
            let down = MouseInteractionKind::LeftDown;
            let drag = MouseInteractionKind::LeftDrag;
            let up = MouseInteractionKind::LeftUp;
            let pressed = after_mouse(screen, area, down, from, now, target).0;
            let dragged = after_mouse(pressed, area, drag, to, now, target).0;
            let (after, action) = after_mouse(dragged, area, up, to, now, target);
            let backward = after_mouse(
                after_mouse(
                    after_mouse(screen, area, down, to, now, target).0,
                    area,
                    drag,
                    from,
                    now,
                    target,
                ).0,
                area,
                up,
                from,
                now,
                target,
            );
            selection::text_between(screen.selection.rows, Some((first, last))) matches Some(text)
                ==> {
                &&& action == MouseActionModel::Copy(text)
                &&& backward.1 == MouseActionModel::Copy(text)
                &&& after.view == screen.view
                &&& after.panel == screen.panel
                &&& after.last_click is None
            }
        }),
{
    selection::dragging_copies_the_text_between(screen.selection, area, from, to);
    selection::dragging_copies_the_text_between(screen.selection, area, to, from);
}

/// Clicks count as a row only where they are at one place and close in time.
pub proof fn only_quick_clicks_at_one_place_count_together(
    last: Option<LastClick>,
    position: Position,
    now: u64,
)
    ensures
        last is None ==> click_count(last, position, now) == 1,
        last matches Some(click) ==> {
            &&& click.position != position ==> click_count(last, position, now) == 1
            &&& now > click.at && now - click.at > 500_000_000 ==> click_count(last, position, now)
                == 1
            &&& click.position == position && click.at <= now && now - click.at <= 500_000_000
                && click.count < 255 ==> click_count(last, position, now) == click.count + 1
        },
{
}

/// A single click counts for the conversation at that place, selects nothing and is remembered; one
/// that comes later counts anew.
pub proof fn single_clicks_go_to_the_conversation(
    screen: ScreenModel,
    area: Area,
    position: Position,
    now: u64,
    target: MouseTarget,
)
    requires
        area.holds(position),
        screen.last_click is None || screen.last_click->0.position != position,
    ensures
        ({
            let down = MouseInteractionKind::LeftDown;
            let up = MouseInteractionKind::LeftUp;
            let pressed = after_mouse(screen, area, down, position, now, target).0;
            let (after, action) = after_mouse(pressed, area, up, position, now, target);
            &&& action == MouseActionModel::Redraw
            &&& after.selection.anchor is None
            &&& after.selection.head is None
            &&& after.last_click == Some(LastClick { position, at: now, count: 1 })
            &&& screen.panel is None ==> after.view == viewport::after_click(
                screen.view,
                target.hit,
                target.lines,
            ) && after.panel is None
        }),
{
}

/// The mouse over the conversation changes what it is over and nothing else, and the screen is
/// drawn only where that changed.
pub proof fn moving_changes_only_what_the_mouse_is_over(
    screen: ScreenModel,
    area: Area,
    position: Position,
    now: u64,
    target: MouseTarget,
)
    ensures
        ({
            let (after, action) = after_mouse(
                screen,
                area,
                MouseInteractionKind::Move,
                position,
                now,
                target,
            );
            &&& after.selection == screen.selection
            &&& after.panel == screen.panel
            &&& after.last_click == screen.last_click
            &&& action == MouseActionModel::Ignored <==> after.view == screen.view
            &&& !(action is Copy)
        }),
{
}

/// The hint stands in the middle of the last row of the conversation.
pub proof fn hints_stand_in_the_middle(area: Area, content_width: int)
    requires
        0 <= content_width,
        area.x + area.width <= u16::MAX,
        !area.empty(),
        area.y + area.height <= u16::MAX,
    ensures
        ({
            let place = hint_place(area, content_width);
            &&& place.y == area.y + area.height - 1
            &&& place.height == 1
            &&& area.x <= place.x
            &&& place.x + place.width <= area.x + area.width
            &&& content_width + 2 <= area.width ==> place.width == content_width + 2
            &&& content_width + 2 > area.width ==> place.width == area.width
            &&& 0 <= (area.x + area.width) - (place.x + place.width) - (place.x - area.x) <= 1
        }),
{
}

/// Each row with a background goes on with its own colour up to the right edge, and no other row
/// does.
pub proof fn backgrounds_go_on_in_their_row(
    area: Area,
    right: u16,
    backgrounds: Seq<Option<u32>>,
    row: FilledRow,
)
    requires
        area.y + backgrounds.len() <= u16::MAX,
    ensures
        extended(area, right, backgrounds).contains(row) <==> {
            &&& area.y <= row.y < area.y + backgrounds.len()
            &&& backgrounds[row.y - area.y] == Some(row.colour)
            &&& row.first == area.right_edge()
            &&& row.end == right
        },
    decreases backgrounds.len(),
{
    if backgrounds.len() > 0 {
        let front = backgrounds.drop_last();
        backgrounds_go_on_in_their_row(area, right, front, row);
        let some = extended(area, right, front);
        let all = extended(area, right, backgrounds);
        if some.contains(row) {
            let i = choose|i: int| 0 <= i < some.len() && some[i] == row;
            assert(all[i] == row);
        }
        if all.contains(row) {
            let i = choose|i: int| 0 <= i < all.len() && all[i] == row;
            if i < some.len() {
                assert(some[i] == row);
            }
        }
        if backgrounds.last() is Some {
            assert(all[some.len() as int] == (FilledRow {
                y: (area.y + backgrounds.len() - 1) as u16,
                first: area.right_edge() as u16,
                end: right,
                colour: backgrounds.last()->0,
            }));
        }
    }
}

/// Pressing is drawn where it begins a selection, and dragging where the selection is being made
/// and its end moved. Neither changes the conversation, the panel or the last click.
pub proof fn selections_are_drawn_as_they_change(
    screen: ScreenModel,
    area: Area,
    position: Position,
    now: u64,
    target: MouseTarget,
)
    ensures
        ({
            let (pressed, press) = after_mouse(
                screen,
                area,
                MouseInteractionKind::LeftDown,
                position,
                now,
                target,
            );
            let (dragged, drag) = after_mouse(
                screen,
                area,
                MouseInteractionKind::LeftDrag,
                position,
                now,
                target,
            );
            &&& press == MouseActionModel::Redraw <==> area.holds(position)
            &&& press == MouseActionModel::Ignored <==> !area.holds(position)
            &&& pressed.view == screen.view && pressed.panel == screen.panel && pressed.last_click
                == screen.last_click
            &&& !screen.selection.pointer_down ==> drag == MouseActionModel::Ignored && dragged
                == screen
            &&& area.empty() ==> drag == MouseActionModel::Ignored && dragged == screen
            &&& screen.selection.pointer_down && !area.empty() ==> (drag
                == MouseActionModel::Redraw <==> dragged.selection.head != screen.selection.head)
            &&& !(drag is Copy)
            &&& dragged.view == screen.view && dragged.panel == screen.panel && dragged.last_click
                == screen.last_click
        }),
{
}

/// The hint names the keys, what they do and the direction.
pub proof fn hints_name_the_keys(shortcut: Seq<char>)
    ensures
        hint_spans(shortcut).len() == 3,
        hint_spans(shortcut)[0].0 == shortcut,
        hint_spans(shortcut)[1].0 == " jump to bottom "@,
        hint_spans(shortcut)[2].0 == "\u{2193}"@,
        !hint_spans(shortcut)[0].1.dim,
        hint_spans(shortcut)[1].1.dim,
{
}

} // verus!
