//! The pickers of the rewind: first a prompt, then what to restore.

use crate::backtrack::selection::{ActionModel, RewindAction};
use crate::data::Data;
use crate::geometry::{self, Area};
use crate::layout::{self, split_rows, RowHeight};
use crate::styled::{dim, line1, line2, line3, plain, span, span_of, tinted, SpanStyle, StyledLine};
use crate::styled::{StyledSpan, Tint};
use crate::text::{concat2, concat3, decimal_string};
use vstd::prelude::*;

verus! {

/// How many rows a prompt takes in the picker.
pub const PROMPT_ROW_HEIGHT: u16 = 3;

/// How many rows the hints about hidden prompts take.
pub const PROMPT_SCROLL_HINT_ROWS: u16 = 2;

/// How many lines of a prompt the restore picker shows.
pub const MAX_PROMPT_LINES: usize = 4;

/// How far a page key moves the selection.
pub const MAX_REWIND_ROWS: usize = 3;

/// A prompt to go back to, or the present.
pub struct RewindPromptItem {
    pub prompt: String,
    pub code_summary: Option<StyledLine>,
    pub is_current: bool,
    pub action: RewindAction,
}

/// A way to restore.
pub struct RewindRestoreOption {
    pub label: String,
    pub details: Vec<StyledLine>,
    pub action: RewindAction,
}

/// What a picker offers.
pub enum RewindViewKind {
    Prompts { items: Vec<RewindPromptItem> },
    Restore { prompt: String, options: Vec<RewindRestoreOption>, warning: StyledLine },
}

/// How a picker was closed.
#[derive(Clone, Copy, Debug, PartialEq, Eq, Structural)]
pub enum ViewCompletion {
    Accepted,
    Cancelled,
}

/// What a key does in a picker.
#[derive(Clone, Copy, Debug, PartialEq, Eq, Structural)]
pub enum ListAction {
    MoveUp,
    MoveDown,
    PageUp,
    PageDown,
    JumpTop,
    JumpBottom,
    Accept,
    Cancel,
}

/// A picker. Of a picker that offers something, exactly one thing is selected.
pub struct RewindView {
    kind: RewindViewKind,
    selected_idx: Option<usize>,
    completion: Option<ViewCompletion>,
    dismiss_after_child_accept: bool,
    on_cancel: RewindAction,
}

/// How many things a picker offers.
pub open spec fn offered(kind: RewindViewKind) -> nat {
    match kind {
        RewindViewKind::Prompts { items } => items@.len(),
        RewindViewKind::Restore { options, .. } => options@.len(),
    }
}

/// What accepting a thing does: the action, and whether the picker then waits for another one.
pub open spec fn accepted(kind: RewindViewKind, index: int) -> (ActionModel, bool) {
    match kind {
        RewindViewKind::Prompts { items } => (
            items@[index].action.deep_view(),
            !items@[index].is_current,
        ),
        RewindViewKind::Restore { options, .. } => (options@[index].action.deep_view(), false),
    }
}

/// Where an action moves the selection.
pub open spec fn moved(selected: Option<usize>, count: nat, action: ListAction) -> Option<usize> {
    match selected {
        None => None,
        Some(index) => match action {
            ListAction::MoveUp => Some(geometry::monus(index as int, 1) as usize),
            ListAction::MoveDown => Some(geometry::min_of(index + 1, count - 1) as usize),
            ListAction::PageUp => Some(
                geometry::monus(index as int, MAX_REWIND_ROWS as int) as usize,
            ),
            ListAction::PageDown => Some(
                geometry::min_of(index + MAX_REWIND_ROWS, count - 1) as usize,
            ),
            ListAction::JumpTop => Some(0usize),
            ListAction::JumpBottom => Some((count - 1) as usize),
            ListAction::Accept => Some(index),
            ListAction::Cancel => Some(index),
        },
    }
}

/// The window of items that a list with room for `visible` of them shows around the selection.
pub open spec fn window(selected: Option<usize>, visible: int, count: int) -> (int, int) {
    if count == 0 || visible == 0 {
        (0, 0)
    } else {
        let at = geometry::min_of(
            match selected {
                Some(index) => index as int,
                None => 0,
            },
            count - 1,
        );
        let shown = geometry::min_of(visible, count);
        let start = geometry::min_of(geometry::monus(at, shown / 2), count - shown);
        (start, start + shown)
    }
}

/// The window shows the selected item, lies within the list, and is as large as there is room
/// and there are items.
pub proof fn window_shows_the_selection(selected: usize, visible: int, count: int)
    requires
        0 < visible,
        selected < count,
    ensures
        ({
            let (start, end) = window(Some(selected), visible, count);
            &&& 0 <= start <= selected < end <= count
            &&& end - start == geometry::min_of(visible, count)
        }),
{
}

impl RewindView {
    #[verifier::type_invariant]
    spec fn well_formed(self) -> bool {
        match self.selected_idx {
            Some(index) => index < offered(self.kind),
            None => offered(self.kind) == 0,
        }
    }

    /// What the picker offers.
    pub closed spec fn kind(self) -> RewindViewKind {
        self.kind
    }

    /// The selected thing.
    pub closed spec fn selection(self) -> Option<usize> {
        self.selected_idx
    }

    /// How the picker was closed.
    pub closed spec fn closed_as(self) -> Option<ViewCompletion> {
        self.completion
    }

    /// Whether the picker closes once the next one was accepted.
    pub closed spec fn waits(self) -> bool {
        self.dismiss_after_child_accept
    }

    /// What closing the picker without a choice asks for.
    pub closed spec fn cancel_action(self) -> ActionModel {
        self.on_cancel.deep_view()
    }

    /// A picker. Of prompts the last one is selected, of ways to restore the first one.
    pub fn new(kind: RewindViewKind, on_cancel: RewindAction) -> (r: Self)
        ensures
            r.kind() == kind,
            r.cancel_action() == on_cancel.deep_view(),
            r.closed_as() is None,
            !r.waits(),
            r.selection() == (if offered(kind) == 0 {
                None
            } else if kind is Prompts {
                Some((offered(kind) - 1) as usize)
            } else {
                Some(0usize)
            }),
    {
        let selected_idx: Option<usize> = match &kind {
            RewindViewKind::Prompts { items } => if items.len() > 0 {
                Some(items.len() - 1)
            } else {
                None
            },
            RewindViewKind::Restore { options, .. } => if options.len() > 0 {
                Some(0)
            } else {
                None
            },
        };
        RewindView {
            kind,
            selected_idx,
            completion: None,
            dismiss_after_child_accept: false,
            on_cancel,
        }
    }

    fn item_count(&self) -> (r: usize)
        ensures
            r == offered(self.kind()),
    {
        match &self.kind {
            RewindViewKind::Prompts { items } => items.len(),
            RewindViewKind::Restore { options, .. } => options.len(),
        }
    }

    /// Moves the selection, accepts it or closes the picker. What the action asks for is
    /// returned.
    pub fn handle_action(&mut self, action: ListAction) -> (r: Option<RewindAction>)
        ensures
            final(self).kind() == old(self).kind(),
            final(self).cancel_action() == old(self).cancel_action(),
            final(self).selection() == moved(
                old(self).selection(),
                offered(old(self).kind()),
                action,
            ),
            match (action, old(self).selection()) {
                (ListAction::Accept, Some(index)) => {
                    let (asked, waits) = accepted(old(self).kind(), index as int);
                    &&& r.deep_view() == Some(asked)
                    &&& waits ==> final(self).waits() && final(self).closed_as() == old(self).closed_as()
                    &&& !waits ==> final(self).waits() == old(self).waits() && final(self).closed_as() == Some(ViewCompletion::Accepted)
                },
                (ListAction::Cancel, _) => {
                    &&& r.deep_view() == Some(old(self).cancel_action())
                    &&& final(self).closed_as() == Some(ViewCompletion::Cancelled)
                    &&& final(self).waits() == old(self).waits()
                },
                _ => {
                    &&& r is None
                    &&& final(self).closed_as() == old(self).closed_as()
                    &&& final(self).waits() == old(self).waits()
                },
            },
    {
        proof {
            use_type_invariant(&*self);
        }
        let count: usize = self.item_count();
        match action {
            ListAction::Accept => {
                return self.accept();
            },
            ListAction::Cancel => {
                return Some(self.cancel());
            },
            _ => {},
        }
        if let Some(index) = self.selected_idx {
            let last: usize = count - 1;
            let next: usize = match action {
                ListAction::MoveUp => if index >= 1 {
                    index - 1
                } else {
                    0
                },
                ListAction::MoveDown => if index < last {
                    index + 1
                } else {
                    last
                },
                ListAction::PageUp => if index >= MAX_REWIND_ROWS {
                    index - MAX_REWIND_ROWS
                } else {
                    0
                },
                ListAction::PageDown => if last - index >= MAX_REWIND_ROWS {
                    index + MAX_REWIND_ROWS
                } else {
                    last
                },
                ListAction::JumpTop => 0,
                _ => last,
            };
            self.selected_idx = Some(next);
        }
        None
    }

    /// Accepts the selected thing. A prompt of the past waits for the restore picker; everything
    /// else closes the picker.
    fn accept(&mut self) -> (r: Option<RewindAction>)
        ensures
            final(self).kind() == old(self).kind(),
            final(self).cancel_action() == old(self).cancel_action(),
            final(self).selection() == old(self).selection(),
            match old(self).selection() {
                Some(index) => {
                    let (asked, waits) = accepted(old(self).kind(), index as int);
                    &&& r.deep_view() == Some(asked)
                    &&& waits ==> final(self).waits() && final(self).closed_as() == old(self).closed_as()
                    &&& !waits ==> final(self).waits() == old(self).waits() && final(self).closed_as() == Some(ViewCompletion::Accepted)
                },
                None => r is None && final(self).waits() == old(self).waits() && final(self).closed_as() == old(self).closed_as(),
            },
    {
        proof {
            use_type_invariant(&*self);
        }
        let index: usize = match self.selected_idx {
            Some(index) => index,
            None => {
                return None;
            },
        };
        let (asked, waits) = match &self.kind {
            RewindViewKind::Prompts { items } => (
                items[index].action.duplicate(),
                !items[index].is_current,
            ),
            RewindViewKind::Restore { options, .. } => (options[index].action.duplicate(), false),
        };
        if waits {
            self.dismiss_after_child_accept = true;
        } else {
            self.completion = Some(ViewCompletion::Accepted);
        }
        Some(asked)
    }

    /// Closes the picker without a choice.
    fn cancel(&mut self) -> (r: RewindAction)
        ensures
            final(self).kind() == old(self).kind(),
            final(self).cancel_action() == old(self).cancel_action(),
            final(self).selection() == old(self).selection(),
            final(self).waits() == old(self).waits(),
            final(self).closed_as() == Some(ViewCompletion::Cancelled),
            r.deep_view() == old(self).cancel_action(),
    {
        proof {
            use_type_invariant(&*self);
        }
        self.completion = Some(ViewCompletion::Cancelled);
        self.on_cancel.duplicate()
    }

    /// Whether the picker was closed.
    pub fn is_complete(&self) -> (r: bool)
        ensures
            r == (self.closed_as() is Some),
    {
        self.completion.is_some()
    }

    /// How the picker was closed.
    pub fn completion(&self) -> (r: Option<ViewCompletion>)
        ensures
            r == self.closed_as(),
    {
        self.completion
    }

    /// Whether the picker closes once the next one was accepted.
    pub fn dismiss_after_child_accept(&self) -> (r: bool)
        ensures
            r == self.waits(),
    {
        self.dismiss_after_child_accept
    }

    /// Keeps the picker open although the next one was accepted.
    pub fn clear_dismiss_after_child_accept(&mut self)
        ensures
            !final(self).waits(),
            final(self).kind() == old(self).kind(),
            final(self).selection() == old(self).selection(),
            final(self).closed_as() == old(self).closed_as(),
            final(self).cancel_action() == old(self).cancel_action(),
    {
        proof {
            use_type_invariant(&*self);
        }
        self.dismiss_after_child_accept = false;
    }

    /// The selected thing.
    pub fn selected_index(&self) -> (r: Option<usize>)
        ensures
            r == self.selection(),
            match r {
                Some(index) => index < offered(self.kind()),
                None => offered(self.kind()) == 0,
            },
    {
        proof {
            use_type_invariant(self);
        }
        self.selected_idx
    }

    /// The window of items that a list with room for `visible_items` of them shows.
    pub fn prompt_window(&self, visible_items: usize, item_count: usize) -> (r: (usize, usize))
        ensures
            r.0 == window(self.selection(), visible_items as int, item_count as int).0,
            r.1 == window(self.selection(), visible_items as int, item_count as int).1,
    {
        if item_count == 0 || visible_items == 0 {
            return (0, 0);
        }
        let selected: usize = match self.selected_idx {
            Some(index) => index,
            None => 0,
        };
        let at: usize = if selected <= item_count - 1 {
            selected
        } else {
            item_count - 1
        };
        let shown: usize = if visible_items <= item_count {
            visible_items
        } else {
            item_count
        };
        let wanted: usize = if at >= shown / 2 {
            at - shown / 2
        } else {
            0
        };
        let start: usize = if wanted <= item_count - shown {
            wanted
        } else {
            item_count - shown
        };
        (start, start + shown)
    }
}

/// The height of the list of prompts: all of them, up to as many as a popup shows.
pub open spec fn list_height(item_count: int, max_popup_rows: int) -> int {
    let visible = geometry::min_of(geometry::max_of(item_count, 1), max_popup_rows);
    geometry::min_of(
        PROMPT_SCROLL_HINT_ROWS + geometry::min_of(
            visible * PROMPT_ROW_HEIGHT,
            u16::MAX as int,
        ),
        u16::MAX as int,
    )
}

/// The height of the list of prompts, where a popup shows at most `max_popup_rows` of them.
pub fn prompt_content_height(item_count: usize, max_popup_rows: usize) -> (r: u16)
    requires
        1 <= max_popup_rows <= u16::MAX,
    ensures
        r == list_height(item_count as int, max_popup_rows as int),
{
    let at_least_one: usize = if item_count >= 1 {
        item_count
    } else {
        1
    };
    let visible: u16 = (if at_least_one <= max_popup_rows {
        at_least_one
    } else {
        max_popup_rows
    }) as u16;
    PROMPT_SCROLL_HINT_ROWS.saturating_add(geometry::saturating_product(visible, PROMPT_ROW_HEIGHT))
}

/// A line and where it is drawn. Where `truncate_to` is given, the line is cut to that width with
/// an ellipsis.
pub struct PlacedLine {
    pub area: Area,
    pub line: StyledLine,
    pub truncate_to: Option<usize>,
}

/// The model of a line and where it is drawn.
pub type PlacedModel = (Area, Seq<(Seq<char>, SpanStyle)>, Option<usize>);

impl DeepView for PlacedLine {
    type V = (Area, Seq<(Seq<char>, SpanStyle)>, Option<usize>);

    open spec fn deep_view(&self) -> Self::V {
        (self.area, self.line.deep_view(), self.truncate_to)
    }
}

/// The parts of the prompt picker on the screen.
#[derive(Clone, Copy, Debug, PartialEq, Eq, Structural)]
pub struct PickerAreas {
    pub title: Area,
    pub subtitle: Area,
    pub list: Area,
    pub above: Area,
    pub rows: Area,
    pub below: Area,
}

/// Whether parts are those of the prompt picker in an area. They lie within it, the hints and the
/// rows of the list within the list. An area with three rows or more holds
/// the title, the subtitle, a free row and the list; a list with two rows or more begins and ends
/// with a row for hints.
pub open spec fn divides_picker(areas: PickerAreas, area: Area) -> bool {
    &&& layout::part_of(areas.title, area)
    &&& layout::part_of(areas.subtitle, area)
    &&& layout::part_of(areas.list, area)
    &&& layout::part_of(areas.above, areas.list)
    &&& layout::part_of(areas.rows, areas.list)
    &&& layout::part_of(areas.below, areas.list)
    &&& (area.height >= 3 && area.y + area.height <= u16::MAX) ==> {
        &&& areas.title.y == area.y
        &&& areas.title.height == 1
        &&& areas.subtitle.y == area.y + 1
        &&& areas.subtitle.height == 1
        &&& areas.list.y == area.y + 3
        &&& areas.list.height == area.height - 3
        &&& areas.list.height >= 2 ==> {
            &&& areas.above.y == areas.list.y
            &&& areas.above.height == 1
            &&& areas.rows.y == areas.list.y + 1
            &&& areas.rows.height == areas.list.height - 2
            &&& areas.below.y == areas.list.y + areas.list.height - 1
            &&& areas.below.height == 1
        }
    }
}

/// The parts of the prompt picker in an area.
pub fn picker_areas(area: Area) -> (r: PickerAreas)
    ensures
        divides_picker(r, area),
{
    let one = RowHeight::Length(1);
    let rest = RowHeight::Fill(1);
    let heights = vec![one, one, one, rest];
    let parts = split_rows(area, &heights);
    let list_heights = vec![one, rest, one];
    let list_parts = split_rows(parts[3], &list_heights);
    proof {
        reveal_with_fuel(layout::fixed_rows, 5);
        reveal_with_fuel(layout::sharing_parts, 5);
        reveal_with_fuel(layout::rows_above, 5);
        assert(heights@.drop_last() =~= seq![one, one, one]);
        assert(heights@.drop_last().drop_last() =~= seq![one, one]);
        assert(heights@.drop_last().drop_last().drop_last() =~= seq![one]);
        assert(list_heights@.drop_last() =~= seq![one, rest]);
        assert(list_heights@.drop_last().drop_last() =~= seq![one]);
        assert(seq![one].drop_last() =~= Seq::empty());
        assert(layout::fixed_rows(heights@) == 3);
        assert(layout::sharing_parts(heights@) == 1);
        assert(layout::fixed_rows(list_heights@) == 2);
        assert(layout::sharing_parts(list_heights@) == 1);
    }
    PickerAreas {
        title: parts[0],
        subtitle: parts[1],
        list: parts[3],
        above: list_parts[0],
        rows: list_parts[1],
        below: list_parts[2],
    }
}

/// An area with room for a title, a subtitle and a list is divided in one way only.
pub proof fn picker_is_divided_in_one_way(area: Area, a: PickerAreas, b: PickerAreas)
    requires
        area.height >= 5,
        area.y + area.height <= u16::MAX,
        divides_picker(a, area),
        divides_picker(b, area),
    ensures
        a == b,
{
}

/// The style of the present: in italics, but in the accent colour alone where it is selected.
pub open spec fn current_style(selected: bool) -> SpanStyle {
    if selected {
        tinted(Tint::Accent)
    } else {
        SpanStyle { tint: Tint::Plain, bold: false, dim: false, italic: true }
    }
}

/// The accent colour for what is selected.
pub open spec fn selected_style(selected: bool) -> SpanStyle {
    if selected {
        tinted(Tint::Accent)
    } else {
        plain()
    }
}

/// The mark of a row.
pub open spec fn row_mark(selected: bool) -> (Seq<char>, SpanStyle) {
    if selected {
        ("\u{276f} "@, tinted(Tint::Accent))
    } else {
        ("  "@, plain())
    }
}

/// The line of a prompt.
pub open spec fn prompt_line(item: RewindPromptItem, selected: bool) -> Seq<
    (Seq<char>, SpanStyle),
> {
    seq![
        row_mark(selected),
        if item.is_current {
            ("(current)"@, current_style(selected))
        } else {
            (item.prompt@, selected_style(selected))
        },
    ]
}

/// A line, all of it dimmed.
pub open spec fn dimmed(line: Seq<(Seq<char>, SpanStyle)>) -> Seq<(Seq<char>, SpanStyle)> {
    line.map_values(
        |piece: (Seq<char>, SpanStyle)| (piece.0, (SpanStyle { dim: true, ..piece.1 })),
    )
}

fn dim_line(line: &StyledLine) -> (r: StyledLine)
    ensures
        r.deep_view() == dimmed(line.deep_view()),
{
    let mut spans: Vec<StyledSpan> = Vec::new();
    let mut i: usize = 0;
    while i < line.spans.len()
        invariant
            i <= line.spans@.len(),
            spans@.len() == i,
            forall|k: int|
                0 <= k < i ==> (#[trigger] spans@[k]).deep_view() == (
                    line.spans@[k].content@,
                    (SpanStyle { dim: true, ..line.spans@[k].style }),
                ),
        decreases line.spans@.len() - i,
    {
        let style = line.spans[i].style;
        spans.push(
            StyledSpan {
                content: line.spans[i].content.clone(),
                style: SpanStyle {
                    tint: style.tint,
                    bold: style.bold,
                    dim: true,
                    italic: style.italic,
                },
            },
        );
        i += 1;
    }
    let r = StyledLine { spans };
    assert(r.deep_view() =~= dimmed(line.deep_view()));
    r
}

/// The top of the row for the item with number `i` in the window.
pub open spec fn row_top(rows: Area, i: int) -> int {
    geometry::saturating_sum(
        rows.y as int,
        geometry::min_of(i * PROMPT_ROW_HEIGHT, u16::MAX as int),
    )
}

/// The lines of one prompt of the picker, at row `y`.
pub open spec fn item_lines(item: RewindPromptItem, selected: bool, rows: Area, y: int) -> Seq<
    PlacedModel,
> {
    let text_width = geometry::monus(rows.width as int, 2) as usize;
    let prompt = (
        (Area { x: rows.x, y: y as u16, width: rows.width, height: 1 }),
        prompt_line(item, selected),
        Some(text_width),
    );
    match item.code_summary {
        Some(summary) => if geometry::saturating_sum(y, 1) < rows.bottom_edge() {
            seq![
                prompt,
                (
                    (Area {
                        x: geometry::saturating_sum(rows.x as int, 2) as u16,
                        y: geometry::saturating_sum(y, 1) as u16,
                        width: text_width as u16,
                        height: 1,
                    }),
                    if selected {
                        summary.deep_view()
                    } else {
                        dimmed(summary.deep_view())
                    },
                    Some(text_width),
                ),
            ]
        } else {
            seq![prompt]
        },
        None => seq![prompt],
    }
}

/// The lines of the prompts from number `i` of the window on, up to the first one whose row is
/// below the list.
pub open spec fn window_lines(
    items: Seq<RewindPromptItem>,
    selected: Option<usize>,
    start: int,
    end: int,
    rows: Area,
    i: int,
) -> Seq<PlacedModel>
    decreases end - start - i,
{
    if i < 0 || start + i >= end || start + i >= items.len() || row_top(rows, i)
        >= rows.bottom_edge() {
        Seq::empty()
    } else {
        item_lines(
            items[start + i],
            selected == Some((start + i) as usize),
            rows,
            row_top(rows, i),
        ) + window_lines(items, selected, start, end, rows, i + 1)
    }
}

/// The line about prompts that are not shown.
pub open spec fn more_line(arrow: Seq<char>, count: int, suffix: Seq<char>) -> Seq<
    (Seq<char>, SpanStyle),
> {
    seq![(arrow + crate::text::decimal(count as nat) + suffix, dim())]
}

/// How many prompts the picker has room for.
pub open spec fn room_for(rows: Area) -> int {
    geometry::max_of(rows.height as int / PROMPT_ROW_HEIGHT as int, 1)
}

/// The lines of the prompt picker.
pub open spec fn picker_lines(
    items: Seq<RewindPromptItem>,
    selected: Option<usize>,
    areas: PickerAreas,
) -> Seq<PlacedModel> {
    let head = seq![
        (areas.title, seq![("Rewind"@, tinted(Tint::Accent))], None::<usize>),
        (
            areas.subtitle,
            seq![
                (
                    "Restore the code and/or conversation to the point before\u{2026}"@,
                    plain(),
                ),
            ],
            None::<usize>,
        ),
    ];
    if areas.list.height == 0 {
        head
    } else {
        let (start, end) = window(selected, room_for(areas.rows), items.len() as int);
        let above = if start > 0 {
            seq![(areas.above, more_line("\u{2191} "@, start, " more above"@), None::<usize>)]
        } else {
            Seq::empty()
        };
        let below = if end < items.len() {
            seq![
                (
                    areas.below,
                    more_line("\u{2193} "@, items.len() - end, " more below"@),
                    None::<usize>,
                ),
            ]
        } else {
            Seq::empty()
        };
        head + above + window_lines(items, selected, start, end, areas.rows, 0) + below
    }
}

/// Whether lines are those of the prompt picker in an area.
pub open spec fn shows_picker(
    lines: Seq<PlacedModel>,
    items: Seq<RewindPromptItem>,
    selected: Option<usize>,
    area: Area,
) -> bool {
    exists|areas: PickerAreas| #[trigger]
        divides_picker(areas, area) && lines == picker_lines(items, selected, areas)
}

fn push_placed(lines: &mut Vec<PlacedLine>, line: PlacedLine)
    ensures
        final(lines).deep_view() == old(lines).deep_view() + seq![line.deep_view()],
{
    lines.push(line);
    assert(lines.deep_view() =~= old(lines).deep_view() + seq![line.deep_view()]);
}

fn mark_span(selected: bool) -> (r: StyledSpan)
    ensures
        r.deep_view() == row_mark(selected),
{
    if selected {
        span("\u{276f} ", tinted(Tint::Accent))
    } else {
        span("  ", plain())
    }
}

fn push_item_lines(
    lines: &mut Vec<PlacedLine>,
    item: &RewindPromptItem,
    selected: bool,
    rows: Area,
    y: u16,
)
    ensures
        final(lines).deep_view() == old(lines).deep_view() + item_lines(
            *item,
            selected,
            rows,
            y as int,
        ),
{
    let ghost before = lines.deep_view();
    let text_width: u16 = rows.width.saturating_sub(2);
    let text = if item.is_current {
        span(
            "(current)",
            if selected {
                tinted(Tint::Accent)
            } else {
                SpanStyle { tint: Tint::Plain, bold: false, dim: false, italic: true }
            },
        )
    } else {
        span(
            item.prompt.as_str(),
            if selected {
                tinted(Tint::Accent)
            } else {
                plain()
            },
        )
    };
    let line = line2(mark_span(selected), text);
    assert(line.deep_view() =~= prompt_line(*item, selected));
    push_placed(
        lines,
        PlacedLine {
            area: Area { x: rows.x, y, width: rows.width, height: 1 },
            line,
            truncate_to: Some(text_width as usize),
        },
    );
    if let Some(summary) = &item.code_summary {
        if y.saturating_add(1) < rows.bottom() {
            let summary = if selected {
                summary.duplicate()
            } else {
                dim_line(summary)
            };
            push_placed(
                lines,
                PlacedLine {
                    area: Area {
                        x: rows.x.saturating_add(2),
                        y: y.saturating_add(1),
                        width: text_width,
                        height: 1,
                    },
                    line: summary,
                    truncate_to: Some(text_width as usize),
                },
            );
        }
    }
    assert(lines.deep_view() =~= before + item_lines(*item, selected, rows, y as int));
}

fn more_text(arrow: &str, count: usize, suffix: &str) -> (r: StyledLine)
    ensures
        r.deep_view() == more_line(arrow@, count as int, suffix@),
{
    let number = decimal_string(count as u64);
    line1(span_of(concat3(arrow, number.as_str(), suffix), dim()))
}

impl RewindView {
    /// The lines of the prompt picker in an area and where they are drawn; none where the picker
    /// offers something else.
    pub fn render_prompt_picker(&self, area: Area) -> (lines: Vec<PlacedLine>)
        ensures
            match self.kind() {
                RewindViewKind::Prompts { items } => shows_picker(
                    lines.deep_view(),
                    items@,
                    self.selection(),
                    area,
                ),
                RewindViewKind::Restore { .. } => lines@.len() == 0,
            },
    {
        let areas = picker_areas(area);
        let lines = self.prompt_picker_lines(areas);
        assert(lines@.len() == lines.deep_view().len());
        assert(divides_picker(areas, area));
        lines
    }

    /// The lines of the prompt picker in its parts; none where the picker offers something else.
    pub fn prompt_picker_lines(&self, areas: PickerAreas) -> (lines: Vec<PlacedLine>)
        ensures
            lines.deep_view() == match self.kind() {
                RewindViewKind::Prompts { items } => picker_lines(items@, self.selection(), areas),
                RewindViewKind::Restore { .. } => Seq::empty(),
            },
    {
        let mut lines: Vec<PlacedLine> = Vec::new();
        assert(lines.deep_view() =~= Seq::empty());
        let items = match &self.kind {
            RewindViewKind::Prompts { items } => items,
            RewindViewKind::Restore { .. } => {
                return lines;
            },
        };
        push_placed(
            &mut lines,
            PlacedLine {
                area: areas.title,
                line: line1(span("Rewind", tinted(Tint::Accent))),
                truncate_to: None,
            },
        );
        push_placed(
            &mut lines,
            PlacedLine {
                area: areas.subtitle,
                line: line1(
                    span(
                        "Restore the code and/or conversation to the point before\u{2026}",
                        plain(),
                    ),
                ),
                truncate_to: None,
            },
        );
        let ghost head = lines.deep_view();
        if areas.list.height == 0 {
            assert(head =~= picker_lines(items@, self.selection(), areas));
            return lines;
        }
        let rows = areas.rows;
        let fitting: u16 = rows.height / PROMPT_ROW_HEIGHT;
        let visible: usize = if fitting >= 1 {
            fitting as usize
        } else {
            1
        };
        let count: usize = items.len();
        let (start, end) = self.prompt_window(visible, count);
        if start > 0 {
            push_placed(
                &mut lines,
                PlacedLine {
                    area: areas.above,
                    line: more_text("\u{2191} ", start, " more above"),
                    truncate_to: None,
                },
            );
        }
        let ghost top = lines.deep_view();
        let ghost all = window_lines(
            items@,
            self.selection(),
            start as int,
            end as int,
            rows,
            0,
        );
        let mut i: usize = 0;
        let mut y: u16 = rows.y;
        assert(top + all =~= lines.deep_view() + all);
        while i < end - start && y < rows.bottom()
            invariant
                start <= end <= count == items@.len(),
                i <= end - start,
                y == row_top(rows, i as int),
                top + all == lines.deep_view() + window_lines(
                    items@,
                    self.selection(),
                    start as int,
                    end as int,
                    rows,
                    i as int,
                ),
            decreases end - start - i,
        {
            let selected = match self.selected_idx {
                Some(index) => index == start + i,
                None => false,
            };
            let ghost before = lines.deep_view();
            push_item_lines(&mut lines, &items[start + i], selected, rows, y);
            proof {
                let more = window_lines(
                    items@,
                    self.selection(),
                    start as int,
                    end as int,
                    rows,
                    i + 1,
                );
                assert(lines.deep_view() + more =~= before + (item_lines(
                    items@[start + i],
                    selected,
                    rows,
                    y as int,
                ) + more));
            }
            i += 1;
            let offset: u16 = if i <= 21845 {
                geometry::saturating_product(i as u16, PROMPT_ROW_HEIGHT)
            } else {
                u16::MAX
            };
            y = rows.y.saturating_add(offset);
        }
        assert(lines.deep_view() + Seq::<PlacedModel>::empty() =~= lines.deep_view());
        assert(lines.deep_view() == top + all);
        if end < count {
            push_placed(
                &mut lines,
                PlacedLine {
                    area: areas.below,
                    line: more_text("\u{2193} ", count - end, " more below"),
                    truncate_to: None,
                },
            );
        }
        assert(lines.deep_view() =~= picker_lines(items@, self.selection(), areas));
        lines
    }
}


/// A prompt's lines, at most as many as are shown, each behind a bar.
pub open spec fn quoted(lines: Seq<Seq<(Seq<char>, SpanStyle)>>) -> Seq<
    Seq<(Seq<char>, SpanStyle)>,
> {
    let shown = lines.take(geometry::min_of(lines.len() as int, MAX_PROMPT_LINES as int));
    shown.map_values(
        |line: Seq<(Seq<char>, SpanStyle)>| seq![("\u{2502} "@, dim())] + line,
    )
}

/// The line of a way to restore.
pub open spec fn option_line(option: RewindRestoreOption, index: int, selected: bool) -> Seq<
    (Seq<char>, SpanStyle),
> {
    seq![
        row_mark(selected),
        (crate::text::decimal((index + 1) as nat) + ". "@, dim()),
        (option.label@, selected_style(selected)),
    ]
}

/// The lines of the first `n` ways to restore.
pub open spec fn option_lines(
    options: Seq<RewindRestoreOption>,
    selected: Option<usize>,
    n: int,
) -> Seq<Seq<(Seq<char>, SpanStyle)>>
    decreases n,
{
    if n <= 0 {
        Seq::empty()
    } else {
        option_lines(options, selected, n - 1).push(
            option_line(options[n - 1], n - 1, selected == Some((n - 1) as usize)),
        )
    }
}

/// The texts of the restore picker, wrapped to its width.
pub struct WrappedRestoreText {
    /// The question.
    pub intro: Vec<StyledLine>,
    /// The prompt, for two columns less.
    pub prompt: Vec<StyledLine>,
    /// The details of the selected way to restore.
    pub details: Vec<StyledLine>,
    /// The warning line.
    pub warning: Vec<StyledLine>,
}

/// The lines of the restore picker.
pub open spec fn restore_lines(
    options: Seq<RewindRestoreOption>,
    selected: Option<usize>,
    text: WrappedRestoreText,
) -> Seq<Seq<(Seq<char>, SpanStyle)>> {
    let blank = seq![Seq::<(Seq<char>, SpanStyle)>::empty()];
    seq![seq![("Rewind"@, tinted(Tint::Accent))]] + text.intro.deep_view() + quoted(
        text.prompt.deep_view(),
    ) + blank + (if selected is Some && selected->0 < options.len() {
        text.details.deep_view()
    } else {
        Seq::empty()
    }) + blank + option_lines(options, selected, options.len() as int) + blank
        + text.warning.deep_view()
}

/// The question of the restore picker.
pub fn restore_intro() -> (r: StyledLine)
    ensures
        r.deep_view() == seq![
            (
                "Confirm you want to restore to the point before you sent this message:"@,
                plain(),
            ),
        ],
{
    line1(
        span(
            "Confirm you want to restore to the point before you sent this message:",
            plain(),
        ),
    )
}

/// The warning of the restore picker, behind its mark.
pub fn warning_line(warning: &StyledLine) -> (r: StyledLine)
    ensures
        r.deep_view() == dimmed(
            seq![("\u{26a0} "@, tinted(Tint::Attention))] + warning.deep_view(),
        ),
{
    let mut marked = line1(span("\u{26a0} ", tinted(Tint::Attention)));
    let ghost mark = marked.deep_view();
    crate::styled::append_spans(&mut marked.spans, warning.spans.duplicate());
    assert(marked.deep_view() =~= mark + warning.deep_view());
    dim_line(&marked)
}

fn quote_lines(lines: Vec<StyledLine>) -> (r: Vec<StyledLine>)
    ensures
        r.deep_view() == quoted(lines.deep_view()),
{
    let mut r: Vec<StyledLine> = Vec::new();
    let shown: usize = if lines.len() <= MAX_PROMPT_LINES {
        lines.len()
    } else {
        MAX_PROMPT_LINES
    };
    let mut i: usize = 0;
    while i < shown
        invariant
            i <= shown <= lines@.len(),
            r@.len() == i,
            forall|k: int|
                0 <= k < i ==> (#[trigger] r@[k]).deep_view() == seq![("\u{2502} "@, dim())]
                    + lines@[k].deep_view(),
        decreases shown - i,
    {
        let mut line = line1(span("\u{2502} ", dim()));
        crate::styled::append_spans(&mut line.spans, lines[i].spans.duplicate());
        assert(line.deep_view() =~= seq![("\u{2502} "@, dim())] + lines@[i as int].deep_view());
        r.push(line);
        i += 1;
    }
    assert(r.deep_view() =~= quoted(lines.deep_view()));
    r
}

fn append_lines(lines: &mut Vec<StyledLine>, more: Vec<StyledLine>)
    ensures
        final(lines).deep_view() == old(lines).deep_view() + more.deep_view(),
{
    let mut rest = more;
    lines.append(&mut rest);
    assert(lines.deep_view() =~= old(lines).deep_view() + more.deep_view());
}

fn push_blank(lines: &mut Vec<StyledLine>)
    ensures
        final(lines).deep_view() == old(lines).deep_view()
            + seq![Seq::<(Seq<char>, SpanStyle)>::empty()],
{
    let line = StyledLine { spans: Vec::new() };
    assert(line.deep_view() =~= Seq::empty());
    lines.push(line);
    assert(lines.deep_view() =~= old(lines).deep_view()
        + seq![Seq::<(Seq<char>, SpanStyle)>::empty()]);
}

fn list_options(options: &Vec<RewindRestoreOption>, selected_idx: Option<usize>) -> (r: Vec<
    StyledLine,
>)
    ensures
        r.deep_view() == option_lines(options@, selected_idx, options@.len() as int),
{
    let mut r: Vec<StyledLine> = Vec::new();
    let mut i: usize = 0;
    assert(r.deep_view() =~= Seq::empty());
    while i < options.len()
        invariant
            i <= options@.len(),
            r.deep_view() == option_lines(options@, selected_idx, i as int),
        decreases options@.len() - i,
    {
        let ghost before = r.deep_view();
        let selected = match selected_idx {
            Some(index) => index == i,
            None => false,
        };
        let number = decimal_string(i as u64 + 1);
        let line = line3(
            mark_span(selected),
            span_of(concat2(number.as_str(), ". "), dim()),
            span(
                options[i].label.as_str(),
                if selected {
                    tinted(Tint::Accent)
                } else {
                    plain()
                },
            ),
        );
        assert(line.deep_view() =~= option_line(options@[i as int], i as int, selected));
        r.push(line);
        assert(r.deep_view() =~= before.push(line.deep_view()));
        i += 1;
    }
    r
}

/// The height of a picker whose content has a height: the content, the padding around it and the
/// row of hints.
pub open spec fn view_height(content: int) -> int {
    geometry::saturating_sum(content, 3)
}

impl RewindView {
    /// The lines of the restore picker; none where the picker offers something else.
    pub fn restore_content_lines(&self, text: WrappedRestoreText) -> (lines: Vec<StyledLine>)
        ensures
            lines.deep_view() == match self.kind() {
                RewindViewKind::Restore { options, .. } => restore_lines(
                    options@,
                    self.selection(),
                    text,
                ),
                RewindViewKind::Prompts { .. } => Seq::empty(),
            },
    {
        let mut lines: Vec<StyledLine> = Vec::new();
        assert(lines.deep_view() =~= Seq::empty());
        let options = match &self.kind {
            RewindViewKind::Restore { options, .. } => options,
            RewindViewKind::Prompts { .. } => {
                return lines;
            },
        };
        lines.push(line1(span("Rewind", tinted(Tint::Accent))));
        assert(lines.deep_view() =~= seq![seq![("Rewind"@, tinted(Tint::Accent))]]);
        append_lines(&mut lines, text.intro);
        append_lines(&mut lines, quote_lines(text.prompt));
        push_blank(&mut lines);
        let shows_details = match self.selected_idx {
            Some(index) => index < options.len(),
            None => false,
        };
        if shows_details {
            append_lines(&mut lines, text.details);
        } else {
            assert(lines.deep_view() + Seq::<Seq<(Seq<char>, SpanStyle)>>::empty()
                =~= lines.deep_view());
        }
        push_blank(&mut lines);
        append_lines(&mut lines, list_options(options, self.selected_idx));
        push_blank(&mut lines);
        append_lines(&mut lines, text.warning);
        lines
    }

    /// The height that the picker wants. `restore_lines` is the number of lines of the restore
    /// picker, and `max_popup_rows` how many prompts a popup shows.
    pub fn desired_height(&self, restore_lines: usize, max_popup_rows: usize) -> (r: u16)
        requires
            1 <= max_popup_rows <= u16::MAX,
        ensures
            r == view_height(
                match self.kind() {
                    RewindViewKind::Prompts { items } => geometry::saturating_sum(
                        3,
                        list_height(items@.len() as int, max_popup_rows as int),
                    ),
                    RewindViewKind::Restore { .. } => geometry::min_of(
                        restore_lines as int,
                        u16::MAX as int,
                    ),
                },
            ),
    {
        let content: u16 = match &self.kind {
            RewindViewKind::Prompts { items } => {
                let list: u16 = prompt_content_height(items.len(), max_popup_rows);
                list.saturating_add(3)
            },
            RewindViewKind::Restore { .. } => if restore_lines <= 65535 {
                restore_lines as u16
            } else {
                65535
            },
        };
        content.saturating_add(3)
    }
}

/// How many lines of the restore picker an area shows: those that fit.
pub fn visible_lines(area: Area, line_count: usize) -> (r: usize)
    ensures
        r == geometry::min_of(line_count as int, area.bottom_edge() - area.y),
{
    let room: u16 = area.bottom() - area.y;
    if line_count <= room as usize {
        line_count
    } else {
        room as usize
    }
}

/// Lines below each other from the top of an area on, as many as fit.
pub open spec fn stacked(lines: Seq<Seq<(Seq<char>, SpanStyle)>>, area: Area) -> Seq<PlacedModel> {
    Seq::new(
        geometry::min_of(lines.len() as int, area.bottom_edge() - area.y) as nat,
        |i: int|
            (
                (Area { x: area.x, y: (area.y + i) as u16, width: area.width, height: 1 }),
                lines[i],
                None::<usize>,
            ),
    )
}

fn stack_lines(lines: &Vec<StyledLine>, area: Area) -> (r: Vec<PlacedLine>)
    ensures
        r.deep_view() == stacked(lines.deep_view(), area),
{
    let mut r: Vec<PlacedLine> = Vec::new();
    let count: usize = visible_lines(area, lines.len());
    let mut i: usize = 0;
    while i < count
        invariant
            i <= count <= lines@.len(),
            count <= area.bottom_edge() - area.y,
            r@.len() == i,
            forall|k: int|
                0 <= k < i ==> (#[trigger] r@[k]).deep_view() == (
                    (Area { x: area.x, y: (area.y + k) as u16, width: area.width, height: 1 }),
                    lines@[k].deep_view(),
                    None::<usize>,
                ),
        decreases count - i,
    {
        r.push(
            PlacedLine {
                area: Area {
                    x: area.x,
                    y: (area.y as usize + i) as u16,
                    width: area.width,
                    height: 1,
                },
                line: lines[i].duplicate(),
                truncate_to: None,
            },
        );
        i += 1;
    }
    assert(r.deep_view() =~= stacked(lines.deep_view(), area));
    r
}

/// The row of hints in its area: two columns further right, dimmed.
pub open spec fn hint_row(footer: Area, hint: Seq<(Seq<char>, SpanStyle)>) -> PlacedModel {
    (
        (Area {
            x: geometry::saturating_sum(footer.x as int, 2) as u16,
            y: footer.y,
            width: geometry::monus(footer.width as int, 2) as u16,
            height: footer.height,
        }),
        dimmed(hint),
        None,
    )
}

/// The areas of a picker and of the row of hints below it; none where there is no room at all.
pub fn view_areas(area: Area) -> (r: Option<(Area, Area)>)
    ensures
        r is None == area.empty(),
        r matches Some((content, footer)) ==> layout::part_of(content, area)
            && layout::part_of(footer, area) && (area.y + area.height <= u16::MAX ==> content.y
            == area.y && content.height == area.height - 1 && footer.y == area.y + area.height - 1
            && footer.height == 1),
{
    if area.is_empty() {
        return None;
    }
    let heights = vec![RowHeight::Fill(1), RowHeight::Length(1)];
    let parts = split_rows(area, &heights);
    proof {
        reveal_with_fuel(layout::fixed_rows, 3);
        reveal_with_fuel(layout::sharing_parts, 3);
        reveal_with_fuel(layout::rows_above, 3);
        assert(heights@.drop_last() =~= seq![RowHeight::Fill(1)]);
        assert(heights@.drop_last().drop_last() =~= Seq::empty());
        assert(layout::fixed_rows(heights@) == 1);
        assert(layout::sharing_parts(heights@) == 1);
    }
    Some((parts[0], parts[1]))
}

impl RewindView {
    /// The lines of the restore picker in an area and where they are drawn; none where the picker
    /// offers something else.
    pub fn render_restore_picker(&self, area: Area, text: WrappedRestoreText) -> (r: Vec<
        PlacedLine,
    >)
        ensures
            r.deep_view() == match self.kind() {
                RewindViewKind::Restore { options, .. } => stacked(
                    restore_lines(options@, self.selection(), text),
                    area,
                ),
                RewindViewKind::Prompts { .. } => Seq::empty(),
            },
    {
        let lines = self.restore_content_lines(text);
        assert(lines@.len() == lines.deep_view().len());
        let r = stack_lines(&lines, area);
        if lines.len() == 0 {
            assert(r.deep_view() =~= Seq::empty());
        }
        r
    }

    /// The lines of the picker. `content` is the area within the frame of the picker, `footer`
    /// that of the row of hints, and `text` the texts of a restore picker, wrapped to the width of
    /// the content.
    pub fn render(
        &self,
        content: Area,
        footer: Area,
        hint: &StyledLine,
        text: WrappedRestoreText,
    ) -> (r: Vec<PlacedLine>)
        ensures
            r@.len() > 0,
            r.deep_view().last() == hint_row(footer, hint.deep_view()),
            match self.kind() {
                RewindViewKind::Prompts { items } => shows_picker(
                    r.deep_view().drop_last(),
                    items@,
                    self.selection(),
                    content,
                ),
                RewindViewKind::Restore { options, .. } => r.deep_view().drop_last() == stacked(
                    restore_lines(options@, self.selection(), text),
                    content,
                ),
            },
    {
        let mut r = match &self.kind {
            RewindViewKind::Prompts { .. } => self.render_prompt_picker(content),
            RewindViewKind::Restore { .. } => self.render_restore_picker(content, text),
        };
        let ghost before = r.deep_view();
        push_placed(
            &mut r,
            PlacedLine {
                area: Area {
                    x: footer.x.saturating_add(2),
                    y: footer.y,
                    width: footer.width.saturating_sub(2),
                    height: footer.height,
                },
                line: dim_line(hint),
                truncate_to: None,
            },
        );
        assert(r@.len() == r.deep_view().len());
        assert(r.deep_view().drop_last() =~= before);
        r
    }

    /// What the hint says that closing the picker does.
    pub fn cancel_label(&self) -> (r: String)
        ensures
            r@ == if self.kind() is Prompts {
                "to cancel"@
            } else {
                "to go back"@
            },
    {
        match &self.kind {
            RewindViewKind::Prompts { .. } => "to cancel".to_owned(),
            RewindViewKind::Restore { .. } => "to go back".to_owned(),
        }
    }

    /// Interrupting closes the picker without a choice.
    pub fn on_ctrl_c(&mut self) -> (r: RewindAction)
        ensures
            final(self).kind() == old(self).kind(),
            final(self).cancel_action() == old(self).cancel_action(),
            final(self).selection() == old(self).selection(),
            final(self).waits() == old(self).waits(),
            final(self).closed_as() == Some(ViewCompletion::Cancelled),
            r.deep_view() == old(self).cancel_action(),
    {
        self.cancel()
    }
}

/// However the selection moves, it stays on something that the picker offers.
pub proof fn selection_stays_in_range(selected: usize, count: nat, action: ListAction)
    requires
        selected < count <= usize::MAX,
    ensures
        moved(Some(selected), count, action) matches Some(index) && index < count,
{
}

/// Moving down and then up, away from the ends, comes back to the same thing.
pub proof fn moving_down_and_up_comes_back(selected: usize, count: nat)
    requires
        selected + 1 < count <= usize::MAX,
    ensures
        moved(moved(Some(selected), count, ListAction::MoveDown), count, ListAction::MoveUp)
            == Some(selected),
{
}

/// The keys move the selection one row, or as many as a page has, towards the beginning or the
/// end; they do not go past either. Choosing and closing leave it where it is.
pub proof fn keys_move_the_selection(selected: usize, count: nat, to: usize, action: ListAction)
    requires
        selected < count <= usize::MAX,
        moved(Some(selected), count, action) == Some(to),
    ensures
        match action {
            ListAction::MoveUp => selected > 0 && to == selected - 1 || selected == 0 && to == 0,
            ListAction::MoveDown => selected + 1 < count && to == selected + 1 || selected + 1
                == count && to == selected,
            ListAction::PageUp => selected >= 3 && to == selected - 3 || selected < 3 && to == 0,
            ListAction::PageDown => selected + 3 < count && to == selected + 3 || selected + 3
                >= count && to == count - 1,
            ListAction::JumpTop => to == 0,
            ListAction::JumpBottom => to == count - 1,
            ListAction::Accept => to == selected,
            ListAction::Cancel => to == selected,
        },
        moved(None, count, action) is None,
{
}

/// Choosing asks for what the chosen thing does. Only a prompt that is not the present keeps the
/// picker waiting for another one.
pub proof fn choosing_asks_for_the_chosen_thing(
    prompts: RewindViewKind,
    restore: RewindViewKind,
    index: int,
)
    requires
        prompts is Prompts,
        restore is Restore,
    ensures
        prompts matches RewindViewKind::Prompts { items } ==> {
            &&& offered(prompts) == items@.len()
            &&& accepted(prompts, index).0 == items@[index].action.deep_view()
            &&& accepted(prompts, index).1 <==> !items@[index].is_current
        },
        restore matches RewindViewKind::Restore { options, .. } ==> {
            &&& offered(restore) == options@.len()
            &&& accepted(restore, index).0 == options@[index].action.deep_view()
            &&& !accepted(restore, index).1
        },
{
}

/// The window keeps the selected item in its middle as far as the ends of the list let it.
pub proof fn windows_lie_around_the_selection(selected: usize, visible: int, count: int)
    requires
        0 < visible < count,
        selected < count,
    ensures
        ({
            let (start, end) = window(Some(selected), visible, count);
            let before = selected - start;
            let after = end - 1 - selected;
            &&& start > 0 && end < count ==> before == visible / 2
            &&& start == 0 ==> before <= visible / 2
            &&& end == count && start > 0 ==> before >= visible / 2
            &&& before + after + 1 == visible
        }),
{
}

proof fn lemma_row_of_item(
    items: Seq<RewindPromptItem>,
    selected: Option<usize>,
    start: int,
    end: int,
    rows: Area,
    i: int,
    n: int,
) -> (k: int)
    requires
        0 <= i <= n,
        0 <= start,
        start + n < end <= items.len(),
        rows.y + 3 * n < rows.bottom_edge() <= u16::MAX,
    ensures
        ({
            let lines = window_lines(items, selected, start, end, rows, i);
            &&& 0 <= k < lines.len()
            &&& lines[k].0.y == rows.y + 3 * n
            &&& lines[k].0.x == rows.x
            &&& lines[k].1 == prompt_line(
                items[start + n],
                selected == Some((start + n) as usize),
            )
            &&& items[start + n].code_summary is Some && rows.y + 3 * n + 1 < rows.bottom_edge()
                ==> {
                &&& k + 1 < lines.len()
                &&& lines[k + 1].0.y == rows.y + 3 * n + 1
                &&& lines[k + 1].1.len() == items[start + n].code_summary->0.deep_view().len()
            }
        }),
    decreases n - i,
{
    let head = item_lines(
        items[start + i],
        selected == Some((start + i) as usize),
        rows,
        row_top(rows, i),
    );
    let tail = window_lines(items, selected, start, end, rows, i + 1);
    assert(window_lines(items, selected, start, end, rows, i) == head + tail);
    if i < n {
        let k = lemma_row_of_item(items, selected, start, end, rows, i + 1, n);
        assert((head + tail)[head.len() + k] == tail[k]);
        if k + 1 < tail.len() {
            assert((head + tail)[head.len() + k + 1] == tail[k + 1]);
        }
        head.len() + k
    } else {
        assert((head + tail)[0] == head[0]);
        if items[start + n].code_summary is Some && rows.y + 3 * n + 1 < rows.bottom_edge() {
            assert((head + tail)[1] == head[1]);
        }
        0
    }
}

/// Every prompt of the window whose row lies in the list is shown on it, three rows apart: by its
/// text, or as the present. The selected one alone has a mark. What is known of its changes stands
/// below it.
pub proof fn prompts_are_shown_on_their_rows(
    items: Seq<RewindPromptItem>,
    selected: Option<usize>,
    start: int,
    end: int,
    rows: Area,
    n: int,
) -> (k: int)
    requires
        0 <= n,
        0 <= start,
        start + n < end <= items.len() <= usize::MAX,
        rows.y + 3 * n < rows.bottom_edge() <= u16::MAX,
    ensures
        ({
            let lines = window_lines(items, selected, start, end, rows, 0);
            let item = items[start + n];
            &&& 0 <= k < lines.len()
            &&& lines[k].0.y == rows.y + 3 * n
            &&& lines[k].0.x == rows.x
            &&& lines[k].1.len() == 2
            &&& lines[k].1[0].0 == (if selected matches Some(at) && at == start + n {
                "\u{276f} "@
            } else {
                "  "@
            })
            &&& lines[k].1[1].0 == (if item.is_current {
                "(current)"@
            } else {
                item.prompt@
            })
            &&& item.code_summary is Some && rows.y + 3 * n + 1 < rows.bottom_edge() ==> {
                &&& k + 1 < lines.len()
                &&& lines[k + 1].0.y == rows.y + 3 * n + 1
                &&& lines[k + 1].1.len() == item.code_summary->0.deep_view().len()
            }
        }),
{
    lemma_row_of_item(items, selected, start, end, rows, 0, n)
}

/// The picker tells how many prompts stand above and below those that it shows, and says nothing
/// where there are none.
pub proof fn prompts_out_of_sight_are_counted(
    items: Seq<RewindPromptItem>,
    selected: Option<usize>,
    areas: PickerAreas,
)
    requires
        areas.list.height > 0,
        items.len() > 0,
    ensures
        ({
            let lines = picker_lines(items, selected, areas);
            let (start, end) = window(selected, room_for(areas.rows), items.len() as int);
            &&& lines.len() >= 2
            &&& lines[0].1[0].0 == "Rewind"@
            &&& start > 0 ==> lines.len() > 2 && lines[2].1[0].0 == "\u{2191} "@
                + crate::text::decimal(start as nat) + " more above"@ && lines[2].0 == areas.above
            &&& end < items.len() ==> lines.last().1[0].0 == "\u{2193} "@ + crate::text::decimal(
                (items.len() - end) as nat,
            ) + " more below"@ && lines.last().0 == areas.below
            &&& lines.len() == 2 + window_lines(
                items,
                selected,
                start,
                end,
                areas.rows,
                0,
            ).len() + (if start > 0 {
                1int
            } else {
                0
            }) + (if end < items.len() {
                1int
            } else {
                0
            })
        }),
{
}

/// Every way to restore has a line with its number and its label, and the selected one alone has
/// a mark.
pub proof fn ways_to_restore_are_numbered(
    options: Seq<RewindRestoreOption>,
    selected: Option<usize>,
    n: int,
    i: int,
)
    requires
        0 <= i < n <= options.len() <= usize::MAX,
    ensures
        option_lines(options, selected, n).len() == n,
        option_lines(options, selected, n)[i].len() == 3,
        option_lines(options, selected, n)[i][0].0 == (if selected matches Some(at) && at == i {
            "\u{276f} "@
        } else {
            "  "@
        }),
        option_lines(options, selected, n)[i][1].0 == crate::text::decimal((i + 1) as nat) + ". "@,
        option_lines(options, selected, n)[i][2].0 == options[i].label@,
    decreases n,
{
    if n > 1 {
        if i < n - 1 {
            ways_to_restore_are_numbered(options, selected, n - 1, i);
        } else {
            ways_to_restore_are_numbered(options, selected, n - 1, 0);
        }
    } else {
        reveal_with_fuel(option_lines, 2);
    }
}

/// Of a prompt the first four lines are quoted, each behind a bar.
pub proof fn prompts_are_quoted(lines: Seq<Seq<(Seq<char>, SpanStyle)>>, i: int)
    requires
        0 <= i < quoted(lines).len(),
    ensures
        quoted(lines).len() <= 4,
        quoted(lines).len() == lines.len() || quoted(lines).len() == 4 && lines.len() > 4,
        quoted(lines)[i][0].0 == "\u{2502} "@,
        quoted(lines)[i].skip(1) == lines[i],
{
    assert(quoted(lines)[i].skip(1) =~= lines[i]);
}

/// The restore picker shows its parts below each other: the question, the prompt, the details of
/// the selected way, the ways and the warning.
pub proof fn parts_of_the_restore_picker_follow(
    options: Seq<RewindRestoreOption>,
    selected: Option<usize>,
    text: WrappedRestoreText,
)
    requires
        selected matches Some(at) && at < options.len(),
    ensures
        ({
            let lines = restore_lines(options, selected, text);
            let intro = text.intro.deep_view();
            let prompt = quoted(text.prompt.deep_view());
            let details = text.details.deep_view();
            let ways = option_lines(options, selected, options.len() as int);
            let warning = text.warning.deep_view();
            let a = 1 + intro.len() as int;
            let b = a + prompt.len();
            let c = b + 1 + details.len();
            let d = c + 1 + ways.len();
            &&& lines[0][0].0 == "Rewind"@
            &&& lines.subrange(1, a) == intro
            &&& lines.subrange(a, b) == prompt
            &&& lines[b].len() == 0
            &&& lines.subrange(b + 1, c) == details
            &&& lines[c].len() == 0
            &&& lines.subrange(c + 1, d) == ways
            &&& lines[d].len() == 0
            &&& lines.skip(d + 1) == warning
        }),
{
    let lines = restore_lines(options, selected, text);
    let intro = text.intro.deep_view();
    let prompt = quoted(text.prompt.deep_view());
    let details = text.details.deep_view();
    let ways = option_lines(options, selected, options.len() as int);
    let warning = text.warning.deep_view();
    let a = 1 + intro.len() as int;
    let b = a + prompt.len();
    let c = b + 1 + details.len();
    let d = c + 1 + ways.len();
    assert(lines.subrange(1, a) =~= intro);
    assert(lines.subrange(a, b) =~= prompt);
    assert(lines.subrange(b + 1, c) =~= details);
    assert(lines.subrange(c + 1, d) =~= ways);
    assert(lines.skip(d + 1) =~= warning);
}

/// No line of a prompt is drawn below the list.
pub proof fn nothing_is_drawn_below_the_list(
    items: Seq<RewindPromptItem>,
    selected: Option<usize>,
    start: int,
    end: int,
    rows: Area,
    i: int,
    k: int,
)
    requires
        0 <= i,
        0 <= start,
        0 <= k < window_lines(items, selected, start, end, rows, i).len(),
    ensures
        window_lines(items, selected, start, end, rows, i)[k].0.y < rows.bottom_edge(),
        window_lines(items, selected, start, end, rows, i)[k].0.y >= rows.y,
        window_lines(items, selected, start, end, rows, i)[k].0.height == 1,
    decreases end - start - i,
{
    let head = item_lines(
        items[start + i],
        selected == Some((start + i) as usize),
        rows,
        row_top(rows, i),
    );
    let tail = window_lines(items, selected, start, end, rows, i + 1);
    assert(window_lines(items, selected, start, end, rows, i) == head + tail);
    if k >= head.len() {
        nothing_is_drawn_below_the_list(items, selected, start, end, rows, i + 1, k - head.len());
    }
}

} // verus!
