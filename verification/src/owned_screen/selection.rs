//! Selecting text on the screen with the mouse.

use crate::geometry::{self, Area, Position};
use crate::text::{self, chars_of, is_alphanumeric, is_whitespace, join, same_opt_text, string_of_range};
use crate::width::{self, text_columns};
use vstd::prelude::*;

verus! {

/// A cell of the selectable area, by its row and its column in it.
#[derive(Clone, Copy, Debug, PartialEq, Eq, Structural)]
pub struct SelectionPoint {
    pub row: u16,
    pub column: u16,
}

/// A cell as it is on the screen.
#[derive(Debug)]
pub struct ScreenCell {
    /// The text that is seen, without what stands for a link.
    pub symbol: String,
    /// Whether the cell is covered by the one left of it.
    pub skipped: bool,
}

impl DeepView for ScreenCell {
    type V = (Seq<char>, bool);

    open spec fn deep_view(&self) -> Self::V {
        (self.symbol@, self.skipped)
    }
}

/// A row of the screen: its text, and for each column the characters that are shown there.
#[derive(Debug)]
pub struct ScreenRow {
    pub text: Vec<char>,
    pub column_ranges: Vec<(usize, usize)>,
}

/// The model of a row.
pub ghost struct RowModel {
    pub text: Seq<char>,
    pub ranges: Seq<(usize, usize)>,
}

impl DeepView for ScreenRow {
    type V = RowModel;

    open spec fn deep_view(&self) -> Self::V {
        RowModel { text: self.text@, ranges: self.column_ranges@ }
    }
}

/// The row that cells make up, and how many of the next columns the last symbol covers.
pub open spec fn captured(cells: Seq<(Seq<char>, bool)>) -> (RowModel, int)
    decreases cells.len(),
{
    if cells.len() == 0 {
        (RowModel { text: Seq::empty(), ranges: Seq::empty() }, 0)
    } else {
        let (row, covered) = captured(cells.drop_last());
        let (symbol, skipped) = cells.last();
        if skipped || covered > 0 {
            (
                RowModel {
                    text: row.text,
                    ranges: row.ranges.push(
                        if row.ranges.len() > 0 {
                            row.ranges.last()
                        } else {
                            (0, 0)
                        },
                    ),
                },
                geometry::monus(covered, 1),
            )
        } else {
            let text = row.text + symbol;
            (
                RowModel {
                    text,
                    ranges: row.ranges.push((row.text.len() as usize, text.len() as usize)),
                },
                geometry::max_of(width::columns(symbol) as int, 1) - 1,
            )
        }
    }
}

/// The row that cells make up.
pub fn capture_row(cells: &Vec<ScreenCell>) -> (r: ScreenRow)
    ensures
        r.deep_view() == captured(cells.deep_view()).0,
{
    let ghost all = cells.deep_view();
    let mut text: Vec<char> = Vec::new();
    let mut column_ranges: Vec<(usize, usize)> = Vec::new();
    let mut previous: (usize, usize) = (0, 0);
    let mut covered: usize = 0;
    let mut i: usize = 0;
    assert(all.take(0) =~= Seq::empty());
    while i < cells.len()
        invariant
            i <= cells@.len(),
            all == cells.deep_view(),
            captured(all.take(i as int)).0.text == text@,
            captured(all.take(i as int)).0.ranges == column_ranges@,
            captured(all.take(i as int)).1 == covered,
            previous == (if column_ranges@.len() > 0 {
                column_ranges@.last()
            } else {
                (0usize, 0usize)
            }),
        decreases cells@.len() - i,
    {
        assert(all.take(i + 1).drop_last() =~= all.take(i as int));
        assert(all.take(i + 1).last() == cells@[i as int].deep_view());
        let cell = &cells[i];
        if cell.skipped || covered > 0 {
            covered = covered.saturating_sub(1);
        } else {
            let start: usize = text.len();
            let ghost before = text@;
            let mut symbol = chars_of(cell.symbol.as_str());
            text.append(&mut symbol);
            assert(text@ == before + cell.symbol@);
            let columns = text_columns(cell.symbol.as_str());
            covered =
            if columns > 1 {
                columns - 1
            } else {
                0
            };
            previous = (start, text.len());
        }
        column_ranges.push(previous);
        i += 1;
    }
    assert(all.take(i as int) =~= all);
    ScreenRow { text, column_ranges }
}

/// The kinds of characters that a double click tells apart.
#[derive(Clone, Copy, Debug, PartialEq, Eq, Structural)]
pub enum SelectionClass {
    Whitespace,
    Word,
    Other,
}

/// Characters that belong to words besides letters and digits.
pub open spec fn joins_words(c: char) -> bool {
    c == '_' || c == '/' || c == '.' || c == '-' || c == '+' || c == '~' || c == '\\'
}

/// The kind of a character.
pub open spec fn class_of(c: char) -> SelectionClass {
    if text::char_whitespace(c) {
        SelectionClass::Whitespace
    } else if text::char_alphanumeric(c) || joins_words(c) {
        SelectionClass::Word
    } else {
        SelectionClass::Other
    }
}

/// The kind of a character.
pub fn selection_class(c: char) -> (r: SelectionClass)
    ensures
        r == class_of(c),
{
    if is_whitespace(c) {
        SelectionClass::Whitespace
    } else if is_alphanumeric(c) || c == '_' || c == '/' || c == '.' || c == '-' || c == '+' || c
        == '~' || c == '\\' {
        SelectionClass::Word
    } else {
        SelectionClass::Other
    }
}

/// The kind of what a column shows; nothing where the column shows nothing.
pub open spec fn column_class(row: RowModel, column: int) -> Option<SelectionClass> {
    if 0 <= column < row.ranges.len() && row.ranges[column].0 < row.ranges[column].1
        && row.ranges[column].1 <= row.text.len() {
        Some(class_of(row.text[row.ranges[column].0 as int]))
    } else {
        None
    }
}

/// The first column of the run of one kind that a column belongs to.
pub open spec fn run_start(row: RowModel, column: int, class: SelectionClass) -> int
    decreases column,
{
    if column > 0 && column_class(row, column - 1) == Some(class) {
        run_start(row, column - 1, class)
    } else {
        column
    }
}

/// The last column of the run of one kind that a column belongs to.
pub open spec fn run_end(row: RowModel, column: int, class: SelectionClass) -> int
    decreases row.ranges.len() - column,
{
    if column + 1 < row.ranges.len() && column_class(row, column + 1) == Some(class) {
        run_end(row, column + 1, class)
    } else {
        column
    }
}

/// A text without the blanks at its end.
pub open spec fn without_blanks(s: Seq<char>) -> Seq<char>
    decreases s.len(),
{
    if s.len() > 0 && s.last() == ' ' {
        without_blanks(s.drop_last())
    } else {
        s
    }
}

/// Whether a point comes before another one, or is it.
pub open spec fn up_to(a: SelectionPoint, b: SelectionPoint) -> bool {
    a.row < b.row || a.row == b.row && a.column <= b.column
}

/// The first and the last point of a selection.
pub open spec fn normalized(
    anchor: Option<SelectionPoint>,
    head: Option<SelectionPoint>,
) -> Option<(SelectionPoint, SelectionPoint)> {
    match (anchor, head) {
        (Some(anchor), Some(head)) => if up_to(anchor, head) {
            Some((anchor, head))
        } else {
            Some((head, anchor))
        },
        _ => None,
    }
}

/// The text of a row from one column up to another one.
pub open spec fn row_text(row: RowModel, first: int, end: int) -> Option<Seq<char>> {
    let end = geometry::min_of(end, row.ranges.len() as int);
    let last = geometry::monus(end, 1);
    if 0 <= first < row.ranges.len() && last < row.ranges.len() && row.ranges[first].0
        <= row.ranges[last].1 && row.ranges[last].1 <= row.text.len() {
        Some(
            without_blanks(
                row.text.subrange(row.ranges[first].0 as int, row.ranges[last].1 as int),
            ),
        )
    } else {
        None
    }
}

/// The selected text of a row.
pub open spec fn line_text(
    rows: Seq<RowModel>,
    first: SelectionPoint,
    last: SelectionPoint,
    row: int,
) -> Option<Seq<char>> {
    if 0 <= row < rows.len() {
        row_text(
            rows[row],
            if row == first.row {
                first.column as int
            } else {
                0
            },
            if row == last.row {
                last.column + 1
            } else {
                rows[row].ranges.len() as int
            },
        )
    } else {
        None
    }
}

/// The selected texts of some rows.
pub open spec fn line_texts(
    rows: Seq<RowModel>,
    first: SelectionPoint,
    last: SelectionPoint,
    count: int,
) -> Option<Seq<Seq<char>>>
    decreases count,
{
    if count <= 0 {
        Some(Seq::empty())
    } else {
        match (
            line_texts(rows, first, last, count - 1),
            line_text(rows, first, last, first.row + count - 1),
        ) {
            (Some(lines), Some(line)) => Some(lines.push(line)),
            _ => None,
        }
    }
}

/// The selected text: a line for each row, without the blanks at their ends; nothing where that
/// is empty, or where the rows are not on the screen.
pub open spec fn text_between(
    rows: Seq<RowModel>,
    range: Option<(SelectionPoint, SelectionPoint)>,
) -> Option<Seq<char>> {
    match range {
        None => None,
        Some((first, last)) => match line_texts(rows, first, last, last.row - first.row + 1) {
            None => None,
            Some(lines) => {
                let all = text::joined(lines, "\n"@);
                if all.len() > 0 {
                    Some(all)
                } else {
                    None
                }
            },
        },
    }
}

/// A selection of text on the screen.
#[derive(Debug)]
pub struct ScreenTextSelection {
    pub anchor: Option<SelectionPoint>,
    pub head: Option<SelectionPoint>,
    pub pointer_down: bool,
    pub dragged: bool,
    pub completed: bool,
    pub completed_text: Option<String>,
    pub rows: Vec<ScreenRow>,
}

/// The model of a selection.
pub ghost struct SelectionModel {
    pub anchor: Option<SelectionPoint>,
    pub head: Option<SelectionPoint>,
    pub pointer_down: bool,
    pub dragged: bool,
    pub completed: bool,
    pub completed_text: Option<Seq<char>>,
    pub rows: Seq<RowModel>,
}

impl DeepView for ScreenTextSelection {
    type V = SelectionModel;

    open spec fn deep_view(&self) -> Self::V {
        SelectionModel {
            anchor: self.anchor,
            head: self.head,
            pointer_down: self.pointer_down,
            dragged: self.dragged,
            completed: self.completed,
            completed_text: self.completed_text.deep_view(),
            rows: self.rows.deep_view(),
        }
    }
}

impl SelectionModel {
    /// The selection without anything selected.
    pub open spec fn cleared(self) -> SelectionModel {
        SelectionModel {
            anchor: None,
            head: None,
            pointer_down: false,
            dragged: false,
            completed: false,
            completed_text: None,
            rows: self.rows,
        }
    }

    /// The first and the last point.
    pub open spec fn range(self) -> Option<(SelectionPoint, SelectionPoint)> {
        normalized(self.anchor, self.head)
    }

    /// The selected text.
    pub open spec fn selected(self) -> Option<Seq<char>> {
        text_between(self.rows, self.range())
    }

    /// The selection with its end at a point.
    pub open spec fn stretched(self, point: SelectionPoint) -> SelectionModel {
        SelectionModel {
            head: Some(point),
            dragged: self.dragged || self.anchor != Some(point),
            ..self
        }
    }
}

/// Whether the rectangle can be clamped to: it is empty, or has a cell on the screen.
pub open spec fn proper(area: Area) -> bool {
    area.empty() || area.x < area.right_edge() && area.y < area.bottom_edge()
}

/// The point of a position inside an area.
pub open spec fn point_in(area: Area, position: Position) -> Option<SelectionPoint> {
    if area.holds(position) {
        Some(
            SelectionPoint {
                row: (position.y - area.y) as u16,
                column: (position.x - area.x) as u16,
            },
        )
    } else {
        None
    }
}

/// A number moved into a range.
pub open spec fn clamped(n: int, least: int, most: int) -> int {
    if n < least {
        least
    } else if n > most {
        most
    } else {
        n
    }
}

/// The point of an area that is nearest to a position.
pub open spec fn nearest_point(area: Area, position: Position) -> SelectionPoint {
    SelectionPoint {
        row: (clamped(position.y as int, area.y as int, area.bottom_edge() - 1) - area.y) as u16,
        column: (clamped(position.x as int, area.x as int, area.right_edge() - 1)
            - area.x) as u16,
    }
}

/// What a release of the mouse button ends.
#[derive(Debug, PartialEq, Eq)]
pub enum SelectionRelease {
    /// Nothing: the button was not pressed here.
    Ignored,
    /// A click.
    Click(Position),
    /// A selection, with its text.
    Copy(String),
    /// A selection of nothing.
    Redraw,
}

/// The model of what a release ends.
pub ghost enum ReleaseModel {
    Ignored,
    Click(Position),
    Copy(Seq<char>),
    Redraw,
}

impl DeepView for SelectionRelease {
    type V = ReleaseModel;

    open spec fn deep_view(&self) -> Self::V {
        match *self {
            SelectionRelease::Ignored => ReleaseModel::Ignored,
            SelectionRelease::Click(position) => ReleaseModel::Click(position),
            SelectionRelease::Copy(text) => ReleaseModel::Copy(text@),
            SelectionRelease::Redraw => ReleaseModel::Redraw,
        }
    }
}

/// The selection after the button was pressed.
pub open spec fn after_press(
    selection: SelectionModel,
    area: Area,
    position: Position,
) -> SelectionModel {
    match point_in(area, position) {
        Some(point) => SelectionModel {
            anchor: Some(point),
            head: Some(point),
            pointer_down: true,
            dragged: false,
            completed: false,
            completed_text: None,
            rows: selection.rows,
        },
        None => selection,
    }
}

/// The selection after the mouse moved with the button pressed.
pub open spec fn after_drag(
    selection: SelectionModel,
    area: Area,
    position: Position,
) -> SelectionModel {
    if !selection.pointer_down || area.empty() {
        selection
    } else {
        selection.stretched(nearest_point(area, position))
    }
}

/// The selection after the button was released, and what the release ends.
pub open spec fn after_release(
    selection: SelectionModel,
    area: Area,
    position: Position,
) -> (SelectionModel, ReleaseModel) {
    if !selection.pointer_down {
        (selection, ReleaseModel::Ignored)
    } else {
        let released = SelectionModel { pointer_down: false, ..selection };
        let stretched = if area.empty() {
            released
        } else {
            released.stretched(nearest_point(area, position))
        };
        match stretched.selected() {
            Some(text) if stretched.dragged => (
                SelectionModel { completed: true, completed_text: Some(text), ..stretched },
                ReleaseModel::Copy(text),
            ),
            _ => (
                stretched.cleared(),
                if area.holds(position) {
                    ReleaseModel::Click(position)
                } else {
                    ReleaseModel::Redraw
                },
            ),
        }
    }
}

/// The run of columns that a double click selects.
pub open spec fn word_at(rows: Seq<RowModel>, point: SelectionPoint) -> Option<(int, int)> {
    if point.row < rows.len() {
        let row = rows[point.row as int];
        match column_class(row, point.column as int) {
            Some(class) => Some(
                (
                    run_start(row, point.column as int, class),
                    run_end(row, point.column as int, class),
                ),
            ),
            None => None,
        }
    } else {
        None
    }
}

/// The selection after a double click, and the selected text.
pub open spec fn after_double_click(
    selection: SelectionModel,
    area: Area,
    position: Position,
) -> (SelectionModel, Option<Seq<char>>) {
    match point_in(area, position) {
        None => (selection, None),
        Some(point) => match word_at(selection.rows, point) {
            None => (selection, None),
            Some((start, end)) => {
                let marked = SelectionModel {
                    anchor: Some(
                        SelectionPoint {
                            row: point.row,
                            column: geometry::min_of(start, u16::MAX as int) as u16,
                        },
                    ),
                    head: Some(
                        SelectionPoint {
                            row: point.row,
                            column: geometry::min_of(end, u16::MAX as int) as u16,
                        },
                    ),
                    pointer_down: false,
                    dragged: true,
                    completed: true,
                    ..selection
                };
                (
                    SelectionModel { completed_text: marked.selected(), ..marked },
                    marked.selected(),
                )
            },
        },
    }
}

/// The selection after the screen was drawn anew: one that is over is dropped where its text is
/// no longer there.
pub open spec fn after_capture(selection: SelectionModel, rows: Seq<RowModel>) -> SelectionModel {
    let seen = SelectionModel { rows, ..selection };
    if seen.completed && !seen.pointer_down && seen.completed_text != seen.selected() {
        seen.cleared()
    } else {
        seen
    }
}

/// Marked columns of a row: from the first one up to the end.
#[derive(Clone, Copy, Debug, PartialEq, Eq, Structural)]
pub struct MarkedColumns {
    pub y: u16,
    pub first: u16,
    pub end: u16,
}

/// The marked columns of the rows of a selection.
pub open spec fn marked_rows(
    area: Area,
    first: SelectionPoint,
    last: SelectionPoint,
    count: int,
) -> Seq<MarkedColumns>
    decreases count,
{
    if count <= 0 {
        Seq::empty()
    } else {
        let front = marked_rows(area, first, last, count - 1);
        let row = first.row + count - 1;
        let from = area.x + if row == first.row {
            first.column as int
        } else {
            0
        };
        let end = geometry::min_of(
            area.x + if row == last.row {
                last.column as int
            } else {
                geometry::monus(area.width as int, 1)
            } + 1,
            area.right_edge(),
        );
        if area.y + row < area.bottom_edge() && from < end {
            front.push(
                MarkedColumns { y: (area.y + row) as u16, first: from as u16, end: end as u16 },
            )
        } else {
            front
        }
    }
}

/// What is marked on the screen.
pub open spec fn marks(selection: SelectionModel, area: Area) -> Seq<MarkedColumns> {
    match selection.range() {
        Some((first, last)) if selection.dragged || selection.completed => marked_rows(
            area,
            first,
            last,
            last.row - first.row + 1,
        ),
        _ => Seq::empty(),
    }
}

fn local_point(area: Area, position: Position) -> (r: Option<SelectionPoint>)
    ensures
        r == point_in(area, position),
{
    if area.contains(position) {
        Some(SelectionPoint { row: position.y - area.y, column: position.x - area.x })
    } else {
        None
    }
}

fn clamped_local_point(area: Area, position: Position) -> (r: SelectionPoint)
    requires
        area.x < area.right_edge(),
        area.y < area.bottom_edge(),
    ensures
        r == nearest_point(area, position),
{
    let bottom = area.bottom();
    let right = area.right();
    let y = if position.y < area.y {
        area.y
    } else if position.y > bottom - 1 {
        bottom - 1
    } else {
        position.y
    };
    let x = if position.x < area.x {
        area.x
    } else if position.x > right - 1 {
        right - 1
    } else {
        position.x
    };
    SelectionPoint { row: y - area.y, column: x - area.x }
}

fn same_point(a: Option<SelectionPoint>, b: Option<SelectionPoint>) -> (r: bool)
    ensures
        r == (a == b),
{
    match (a, b) {
        (Some(a), Some(b)) => a == b,
        (None, None) => true,
        _ => false,
    }
}

impl ScreenRow {
    fn class_at(&self, column: usize) -> (r: Option<SelectionClass>)
        ensures
            r == column_class(self.deep_view(), column as int),
    {
        if column >= self.column_ranges.len() {
            return None;
        }
        let (start, end) = self.column_ranges[column];
        if start < end && end <= self.text.len() {
            Some(selection_class(self.text[start]))
        } else {
            None
        }
    }

    fn text_of(&self, first: usize, end: usize) -> (r: Option<String>)
        ensures
            r.deep_view() == row_text(self.deep_view(), first as int, end as int),
    {
        let len: usize = self.column_ranges.len();
        let end: usize = if end < len {
            end
        } else {
            len
        };
        let last: usize = end.saturating_sub(1);
        if first >= len || last >= len {
            return None;
        }
        let from: usize = self.column_ranges[first].0;
        let to: usize = self.column_ranges[last].1;
        if from > to || to > self.text.len() {
            return None;
        }
        let mut stop: usize = to;
        while stop > from && self.text[stop - 1] == ' '
            invariant
                from <= stop <= to,
                to <= self.text@.len(),
                without_blanks(self.text@.subrange(from as int, to as int)) == without_blanks(
                    self.text@.subrange(from as int, stop as int),
                ),
            ensures
                from <= stop <= to,
                without_blanks(self.text@.subrange(from as int, to as int)) == without_blanks(
                    self.text@.subrange(from as int, stop as int),
                ),
                stop > from ==> self.text@[stop - 1] != ' ',
            decreases stop,
        {
            let ghost part = self.text@.subrange(from as int, stop as int);
            assert(part.last() == self.text@[stop - 1]);
            assert(part.drop_last() =~= self.text@.subrange(from as int, stop - 1));
            stop -= 1;
        }
        proof {
            let part = self.text@.subrange(from as int, stop as int);
            if stop > from {
                assert(part.last() == self.text@[stop - 1]);
            }
        }
        Some(string_of_range(&self.text, from, stop))
    }
}

/// Nothing is selected, and nothing was drawn.
pub open spec fn nothing_selected() -> SelectionModel {
    SelectionModel {
        anchor: None,
        head: None,
        pointer_down: false,
        dragged: false,
        completed: false,
        completed_text: None,
        rows: Seq::empty(),
    }
}

impl ScreenTextSelection {
    /// Nothing is selected, and nothing was drawn.
    pub fn new() -> (r: Self)
        ensures
            r.deep_view() == nothing_selected(),
    {
        let r = ScreenTextSelection {
            anchor: None,
            head: None,
            pointer_down: false,
            dragged: false,
            completed: false,
            completed_text: None,
            rows: Vec::new(),
        };
        assert(r.rows.deep_view() =~= Seq::empty());
        r
    }

    /// The button was pressed. Says whether it counts: it does inside the area.
    pub fn left_down(&mut self, area: Area, position: Position) -> (r: bool)
        ensures
            final(self).deep_view() == after_press(old(self).deep_view(), area, position),
            r == area.holds(position),
    {
        match local_point(area, position) {
            None => false,
            Some(point) => {
                self.anchor = Some(point);
                self.head = Some(point);
                self.pointer_down = true;
                self.dragged = false;
                self.completed = false;
                self.completed_text = None;
                true
            },
        }
    }

    fn stretch(&mut self, point: SelectionPoint)
        ensures
            final(self).deep_view() == old(self).deep_view().stretched(point),
            final(self).rows == old(self).rows,
    {
        self.head = Some(point);
        self.dragged = self.dragged || !same_point(self.anchor, Some(point));
    }

    /// The mouse moved with the button pressed. Says whether the selection changed.
    pub fn left_drag(&mut self, area: Area, position: Position) -> (r: bool)
        requires
            proper(area),
        ensures
            final(self).deep_view() == after_drag(old(self).deep_view(), area, position),
            r == (old(self).deep_view().pointer_down && !area.empty() && old(self).deep_view().head
                != Some(nearest_point(area, position))),
    {
        if !self.pointer_down || area.is_empty() {
            return false;
        }
        let point = clamped_local_point(area, position);
        let changed = !same_point(self.head, Some(point));
        self.stretch(point);
        changed
    }

    /// The button was released.
    pub fn left_up(&mut self, area: Area, position: Position) -> (r: SelectionRelease)
        requires
            proper(area),
        ensures
            (final(self).deep_view(), r.deep_view()) == after_release(
                old(self).deep_view(),
                area,
                position,
            ),
    {
        if !self.pointer_down {
            return SelectionRelease::Ignored;
        }
        self.pointer_down = false;
        if !area.is_empty() {
            let point = clamped_local_point(area, position);
            self.stretch(point);
        }
        if self.dragged {
            if let Some(text) = self.selected_text() {
                self.completed = true;
                self.completed_text = Some(text.clone());
                return SelectionRelease::Copy(text);
            }
        }
        self.clear();
        if area.contains(position) {
            SelectionRelease::Click(position)
        } else {
            SelectionRelease::Redraw
        }
    }

    /// Selects the word under a double click: the characters of the same kind on both sides.
    pub fn select_word(&mut self, area: Area, position: Position) -> (r: Option<String>)
        ensures
            (final(self).deep_view(), r.deep_view()) == after_double_click(
                old(self).deep_view(),
                area,
                position,
            ),
    {
        let point = match local_point(area, position) {
            Some(point) => point,
            None => {
                return None;
            },
        };
        assert(self.rows.deep_view().len() == self.rows@.len());
        if point.row as usize >= self.rows.len() {
            return None;
        }
        let (start, end) = match self.word(point) {
            Some(run) => run,
            None => {
                return None;
            },
        };
        self.anchor = Some(SelectionPoint { row: point.row, column: column_of(start) });
        self.head = Some(SelectionPoint { row: point.row, column: column_of(end) });
        self.pointer_down = false;
        self.dragged = true;
        self.completed = true;
        let text = self.selected_text();
        self.completed_text =
        match &text {
            Some(text) => Some(text.clone()),
            None => None,
        };
        text
    }

    fn word(&self, point: SelectionPoint) -> (r: Option<(usize, usize)>)
        requires
            point.row < self.rows@.len(),
        ensures
            word_at(self.deep_view().rows, point) == (match r {
                Some((start, end)) => Some((start as int, end as int)),
                None => None,
            }),
    {
        let row = &self.rows[point.row as usize];
        let ghost model = row.deep_view();
        assert(self.rows.deep_view()[point.row as int] == model);
        let column: usize = point.column as usize;
        let class = match row.class_at(column) {
            Some(class) => class,
            None => {
                return None;
            },
        };
        let mut start: usize = column;
        while start > 0 && is_class(row.class_at(start - 1), class)
            invariant
                start <= column,
                model == row.deep_view(),
                run_start(model, column as int, class) == run_start(model, start as int, class),
            ensures
                start <= column,
                run_start(model, column as int, class) == start,
            decreases start,
        {
            start -= 1;
        }
        let mut end: usize = column;
        let len: usize = row.column_ranges.len();
        while end < len - 1 && is_class(row.class_at(end + 1), class)
            invariant
                column <= end < len,
                len == row.column_ranges@.len(),
                model == row.deep_view(),
                run_end(model, column as int, class) == run_end(model, end as int, class),
            ensures
                column <= end < len,
                run_end(model, column as int, class) == end,
            decreases len - end,
        {
            end += 1;
        }
        Some((start, end))
    }

    /// Drops the selection.
    pub fn clear(&mut self)
        ensures
            final(self).deep_view() == old(self).deep_view().cleared(),
    {
        self.anchor = None;
        self.head = None;
        self.pointer_down = false;
        self.dragged = false;
        self.completed = false;
        self.completed_text = None;
    }

    fn normalized_range(&self) -> (r: Option<(SelectionPoint, SelectionPoint)>)
        ensures
            r == self.deep_view().range(),
    {
        match (self.anchor, self.head) {
            (Some(anchor), Some(head)) => if anchor.row < head.row || (anchor.row == head.row
                && anchor.column <= head.column) {
                Some((anchor, head))
            } else {
                Some((head, anchor))
            },
            _ => None,
        }
    }

    /// The selected text.
    pub fn selected_text(&self) -> (r: Option<String>)
        ensures
            r.deep_view() == self.deep_view().selected(),
    {
        let (first, last) = match self.normalized_range() {
            Some(range) => range,
            None => {
                return None;
            },
        };
        let ghost rows = self.rows.deep_view();
        let count: u16 = last.row - first.row;
        let mut lines: Vec<String> = Vec::new();
        assert(lines.deep_view() =~= Seq::empty());
        let mut done: u32 = 0;
        while done <= count as u32
            invariant
                done <= count + 1,
                count == last.row - first.row,
                rows == self.rows.deep_view(),
                rows == self.deep_view().rows,
                self.deep_view().range() == Some((first, last)),
                line_texts(rows, first, last, done as int) == Some(lines.deep_view()),
            decreases count + 1 - done,
        {
            let row: usize = first.row as usize + done as usize;
            let ghost before = lines.deep_view();
            proof {
                lemma_line_texts_stop(rows, first, last, done + 1, count + 1);
            }
            assert(rows.len() == self.rows@.len());
            if row >= self.rows.len() {
                return None;
            }
            assert(rows[row as int] == self.rows@[row as int].deep_view());
            let start: usize = if row == first.row as usize {
                first.column as usize
            } else {
                0
            };
            let end: usize = if row == last.row as usize {
                last.column as usize + 1
            } else {
                self.rows[row].column_ranges.len()
            };
            match self.rows[row].text_of(start, end) {
                Some(line) => {
                    lines.push(line);
                    assert(lines.deep_view() =~= before.push(line@));
                },
                None => {
                    return None;
                },
            }
            done += 1;
        }
        let all = join(&lines, "\n");
        proof {
            reveal_strlit("");
            if all@.len() == 0 {
                assert(all@ =~= ""@);
            }
        }
        if text::same_text(all.as_str(), "") {
            None
        } else {
            Some(all)
        }
    }

    /// Takes note of what the screen shows, and gives what is to be marked on it.
    pub fn capture_and_render(&mut self, area: Area, rows: Vec<ScreenRow>) -> (r: Vec<
        MarkedColumns,
    >)
        ensures
            final(self).deep_view() == after_capture(old(self).deep_view(), rows.deep_view()),
            r@ == marks(final(self).deep_view(), area),
    {
        self.rows = rows;
        if self.completed && !self.pointer_down {
            let now = self.selected_text();
            if !same_opt_text(&self.completed_text, &now) {
                self.clear();
            }
        }
        let mut r: Vec<MarkedColumns> = Vec::new();
        if !self.dragged && !self.completed {
            return r;
        }
        let (first, last) = match self.normalized_range() {
            Some(range) => range,
            None => {
                return r;
            },
        };
        let count: u16 = last.row - first.row;
        let bottom = area.bottom();
        let right = area.right();
        let mut done: u32 = 0;
        while done <= count as u32
            invariant
                done <= count + 1,
                count == last.row - first.row,
                bottom == area.bottom_edge(),
                right == area.right_edge(),
                r@ == marked_rows(area, first, last, done as int),
            decreases count + 1 - done,
        {
            let row: u32 = first.row as u32 + done;
            let from: u32 = area.x as u32 + if row == first.row as u32 {
                first.column as u32
            } else {
                0
            };
            let last_column: u32 = if row == last.row as u32 {
                last.column as u32
            } else {
                area.width.saturating_sub(1) as u32
            };
            let stop: u32 = area.x as u32 + last_column + 1;
            let end: u32 = if stop < right as u32 {
                stop
            } else {
                right as u32
            };
            let y: u32 = area.y as u32 + row;
            if y < bottom as u32 && from < end {
                r.push(MarkedColumns { y: y as u16, first: from as u16, end: end as u16 });
            }
            done += 1;
        }
        r
    }
}

fn is_class(found: Option<SelectionClass>, class: SelectionClass) -> (r: bool)
    ensures
        r == (found == Some(class)),
{
    match found {
        Some(found) => found == class,
        None => false,
    }
}

fn column_of(column: usize) -> (r: u16)
    ensures
        r == geometry::min_of(column as int, u16::MAX as int),
{
    if column < 65535 {
        column as u16
    } else {
        65535
    }
}

proof fn lemma_line_texts_stop(
    rows: Seq<RowModel>,
    first: SelectionPoint,
    last: SelectionPoint,
    some: int,
    all: int,
)
    requires
        0 <= some <= all,
    ensures
        line_texts(rows, first, last, some) is None ==> line_texts(rows, first, last, all) is None,
    decreases all - some,
{
    if some < all {
        lemma_line_texts_stop(rows, first, last, some + 1, all);
    }
}

/// A press and a release at the same place select nothing: they are a click.
pub proof fn click_selects_nothing(selection: SelectionModel, area: Area, position: Position)
    requires
        area.holds(position),
    ensures
        after_release(after_press(selection, area, position), area, position) == (
            selection.cleared(),
            ReleaseModel::Click(position),
        ),
{
}

/// A selection that is over stays as long as its text is on the screen.
pub proof fn selection_survives_redrawing(selection: SelectionModel, rows: Seq<RowModel>)
    requires
        selection.completed,
        !selection.pointer_down,
    ensures
        after_capture(selection, rows).completed <==> text_between(rows, selection.range())
            == selection.completed_text,
{
}

proof fn lemma_runs(row: RowModel, column: int, class: SelectionClass)
    requires
        0 <= column < row.ranges.len(),
        column_class(row, column) == Some(class),
    ensures
        0 <= run_start(row, column, class) <= column <= run_end(row, column, class)
            < row.ranges.len(),
        forall|k: int|
            run_start(row, column, class) <= k <= run_end(row, column, class)
                ==> #[trigger] column_class(row, k) == Some(class),
        run_start(row, column, class) > 0 ==> column_class(
            row,
            run_start(row, column, class) - 1,
        ) != Some(class),
        run_end(row, column, class) + 1 < row.ranges.len() ==> column_class(
            row,
            run_end(row, column, class) + 1,
        ) != Some(class),
{
    lemma_run_start(row, column, class);
    lemma_run_end(row, column, class);
}

proof fn lemma_run_start(row: RowModel, column: int, class: SelectionClass)
    requires
        0 <= column,
        column_class(row, column) == Some(class),
    ensures
        0 <= run_start(row, column, class) <= column,
        forall|k: int|
            run_start(row, column, class) <= k <= column ==> #[trigger] column_class(row, k)
                == Some(class),
        run_start(row, column, class) > 0 ==> column_class(
            row,
            run_start(row, column, class) - 1,
        ) != Some(class),
    decreases column,
{
    if column > 0 && column_class(row, column - 1) == Some(class) {
        lemma_run_start(row, column - 1, class);
    }
}

proof fn lemma_run_end(row: RowModel, column: int, class: SelectionClass)
    requires
        0 <= column < row.ranges.len(),
        column_class(row, column) == Some(class),
    ensures
        column <= run_end(row, column, class) < row.ranges.len(),
        forall|k: int|
            column <= k <= run_end(row, column, class) ==> #[trigger] column_class(row, k) == Some(
                class,
            ),
        run_end(row, column, class) + 1 < row.ranges.len() ==> column_class(
            row,
            run_end(row, column, class) + 1,
        ) != Some(class),
    decreases row.ranges.len() - column,
{
    if column + 1 < row.ranges.len() && column_class(row, column + 1) == Some(class) {
        lemma_run_end(row, column + 1, class);
    }
}

/// A double click selects the longest run of characters of one kind around it.
pub proof fn double_click_selects_a_whole_word(rows: Seq<RowModel>, point: SelectionPoint)
    ensures
        match word_at(rows, point) {
            Some((start, end)) => {
                let row = rows[point.row as int];
                let class = column_class(row, point.column as int);
                &&& class is Some
                &&& 0 <= start <= point.column <= end < row.ranges.len()
                &&& forall|k: int| start <= k <= end ==> #[trigger] column_class(row, k) == class
                &&& start > 0 ==> column_class(row, start - 1) != class
                &&& end + 1 < row.ranges.len() ==> column_class(row, end + 1) != class
            },
            None => point.row >= rows.len() || column_class(
                rows[point.row as int],
                point.column as int,
            ) is None,
        },
{
    if point.row < rows.len() {
        let row = rows[point.row as int];
        match column_class(row, point.column as int) {
            Some(class) => {
                lemma_runs(row, point.column as int, class);
            },
            None => {},
        }
    }
}

/// Exactly the selected cells of the area are marked.
pub proof fn marks_cover_the_selection(
    area: Area,
    first: SelectionPoint,
    last: SelectionPoint,
    count: int,
    x: int,
    y: int,
)
    requires
        first.row <= last.row,
        0 <= count <= last.row - first.row + 1,
    ensures
        (exists|i: int|
            0 <= i < marked_rows(area, first, last, count).len() && (#[trigger] marked_rows(
                area,
                first,
                last,
                count,
            )[i]).y == y && marked_rows(area, first, last, count)[i].first <= x < marked_rows(
                area,
                first,
                last,
                count,
            )[i].end) <==> ({
            let row = y - area.y;
            let column = x - area.x;
            &&& first.row <= row < first.row + count
            &&& y < area.bottom_edge()
            &&& area.x <= x < area.right_edge()
            &&& row == first.row ==> column >= first.column
            &&& row == last.row ==> column <= last.column
        }),
    decreases count,
{
    if count > 0 {
        marks_cover_the_selection(area, first, last, count - 1, x, y);
        let front = marked_rows(area, first, last, count - 1);
        let all = marked_rows(area, first, last, count);
        let row = first.row + count - 1;
        if exists|i: int| 0 <= i < front.len() && (#[trigger] front[i]).y == y && front[i].first <= x
            < front[i].end {
            let i = choose|i: int|
                0 <= i < front.len() && (#[trigger] front[i]).y == y && front[i].first <= x
                    < front[i].end;
            assert(all[i] == front[i]);
        }
        if exists|i: int| 0 <= i < all.len() && (#[trigger] all[i]).y == y && all[i].first <= x
            < all[i].end {
            let i = choose|i: int|
                0 <= i < all.len() && (#[trigger] all[i]).y == y && all[i].first <= x < all[i].end;
            if i < front.len() {
                assert(all[i] == front[i]);
            }
        }
        if all.len() > front.len() {
            assert(all[front.len() as int] == all.last());
        }
    }
}

/// Whether the columns of a row show its text from its beginning to its end, one after the other.
pub open spec fn readable(row: RowModel) -> bool {
    &&& forall|a: int, b: int|
        0 <= a <= b < row.ranges.len() ==> (#[trigger] row.ranges[a]).0 <= (
        #[trigger] row.ranges[b]).1 <= row.text.len()
    &&& row.ranges.len() > 0 ==> row.ranges[0].0 == 0 && row.ranges.last().1 == row.text.len()
}

/// Whether a text is another one without the blanks at its end.
pub open spec fn is_without_end_blanks(line: Seq<char>, whole: Seq<char>) -> bool {
    &&& line.len() <= whole.len()
    &&& line == whole.take(line.len() as int)
    &&& forall|i: int| line.len() <= i < whole.len() ==> (#[trigger] whole[i]) == ' '
    &&& line.len() > 0 ==> line.last() != ' '
}

proof fn lemma_without_blanks(s: Seq<char>)
    ensures
        is_without_end_blanks(without_blanks(s), s),
    decreases s.len(),
{
    if s.len() > 0 && s.last() == ' ' {
        lemma_without_blanks(s.drop_last());
        let line = without_blanks(s);
        assert(line =~= s.take(line.len() as int));
        assert forall|i: int| line.len() <= i < s.len() implies (#[trigger] s[i]) == ' ' by {
            if i < s.len() - 1 {
                assert(s.drop_last()[i] == ' ');
            }
        }
    } else {
        assert(s =~= s.take(s.len() as int));
    }
}

/// A row of the screen shows its text from the first column to the last one, and has as many
/// columns as cells.
pub proof fn captured_rows_are_readable(cells: Seq<(Seq<char>, bool)>)
    requires
        captured(cells).0.text.len() <= usize::MAX,
    ensures
        captured(cells).0.ranges.len() == cells.len(),
        cells.len() > 0 ==> readable(captured(cells).0),
        captured(cells).1 >= 0,
    decreases cells.len(),
{
    if cells.len() > 0 {
        let front = cells.drop_last();
        captured_rows_are_readable(front);
        let before = captured(front).0;
        let row = captured(cells).0;
        assert(row.ranges.drop_last() =~= before.ranges);
        if before.ranges.len() == 0 {
            assert(front.len() == 0);
            assert(before.text.len() == 0);
        }
        assert forall|a: int, b: int| 0 <= a <= b < row.ranges.len() implies (
        #[trigger] row.ranges[a]).0 <= (#[trigger] row.ranges[b]).1 <= row.text.len() by {
            if a < before.ranges.len() {
                assert(row.ranges[a] == before.ranges[a]);
                if b < before.ranges.len() {
                    assert(row.ranges[b] == before.ranges[b]);
                } else {
                    assert(before.ranges[a].0 <= before.ranges[before.ranges.len() - 1].1);
                }
            } else if before.ranges.len() > 0 {
                let l = before.ranges.len() - 1;
                assert(before.ranges[l].0 <= before.ranges[l].1);
            }
        }
        if before.ranges.len() > 0 {
            assert(row.ranges[0] == before.ranges[0]);
        }
    }
}

/// Where no symbol is wider than a column and no cell is covered, each column shows the symbol of
/// its cell, and the row is the symbols one after the other.
pub proof fn columns_show_their_symbols(cells: Seq<(Seq<char>, bool)>, k: int)
    requires
        captured(cells).0.text.len() <= usize::MAX,
        forall|i: int|
            0 <= i < cells.len() ==> !(#[trigger] cells[i]).1 && width::columns(cells[i].0) <= 1,
        0 <= k < cells.len(),
    ensures
        captured(cells).1 == 0,
        captured(cells).0.ranges[k].0 <= captured(cells).0.ranges[k].1
            <= captured(cells).0.text.len(),
        captured(cells).0.text.subrange(
            captured(cells).0.ranges[k].0 as int,
            captured(cells).0.ranges[k].1 as int,
        ) == cells[k].0,
        k > 0 ==> captured(cells).0.ranges[k].0 == captured(cells).0.ranges[k - 1].1,
        k == 0 ==> captured(cells).0.ranges[k].0 == 0,
    decreases cells.len(),
{
    let front = cells.drop_last();
    let before = captured(front).0;
    let row = captured(cells).0;
    let last = cells.len() - 1;
    assert(!cells[last].1 && width::columns(cells[last].0) <= 1);
    assert forall|i: int| 0 <= i < front.len() implies !(#[trigger] front[i]).1 && width::columns(
        front[i].0,
    ) <= 1 by {
        assert(front[i] == cells[i]);
    }
    if front.len() > 0 {
        columns_show_their_symbols(
            front,
            if k < last {
                k
            } else {
                last - 1
            },
        );
        captured_rows_are_readable(front);
    } else {
        assert(captured(front).1 == 0);
    }
    if k < last {
        assert(row.ranges[k] == before.ranges[k]);
        if k > 0 {
            assert(row.ranges[k - 1] == before.ranges[k - 1]);
        }
        assert(row.text.subrange(row.ranges[k].0 as int, row.ranges[k].1 as int)
            =~= before.text.subrange(before.ranges[k].0 as int, before.ranges[k].1 as int));
    } else {
        assert(row.text.subrange(row.ranges[k].0 as int, row.ranges[k].1 as int) =~= cells[k].0);
    }
}

/// A cell that is covered, or stands right of a symbol that is wider than a column, shows the
/// characters of the column left of it, and adds none to the row.
pub proof fn covered_columns_show_the_symbol_left_of_them(
    cells: Seq<(Seq<char>, bool)>,
    symbol: Seq<char>,
    next: (Seq<char>, bool),
)
    requires
        captured(cells).1 == 0,
        width::columns(symbol) > 1 || next.1,
    ensures
        ({
            let shown = cells.push((symbol, false));
            let wider = shown.push(next);
            &&& captured(wider).0.text == captured(shown).0.text
            &&& captured(shown).0.text == captured(cells).0.text + symbol
            &&& captured(wider).0.ranges == captured(shown).0.ranges.push(
                captured(shown).0.ranges.last(),
            )
        }),
{
    let shown = cells.push((symbol, false));
    let wider = shown.push(next);
    assert(shown.drop_last() =~= cells);
    assert(wider.drop_last() =~= shown);
}

proof fn lemma_line_texts(
    rows: Seq<RowModel>,
    first: SelectionPoint,
    last: SelectionPoint,
    count: int,
)
    requires
        first.row <= last.row,
        0 <= count <= last.row - first.row + 1,
        forall|k: int|
            0 <= k < count ==> #[trigger] line_text(rows, first, last, first.row + k) is Some,
    ensures
        line_texts(rows, first, last, count) matches Some(lines) && lines.len() == count
            && forall|k: int|
            0 <= k < count ==> Some(#[trigger] lines[k]) == line_text(
                rows,
                first,
                last,
                first.row + k,
            ),
    decreases count,
{
    if count > 0 {
        lemma_line_texts(rows, first, last, count - 1);
        assert(line_text(rows, first, last, first.row + (count - 1)) is Some);
    }
}

proof fn lemma_marked_rows(area: Area, first: SelectionPoint, last: SelectionPoint, count: int)
    requires
        up_to(first, last),
        0 <= count <= last.row - first.row + 1,
        area.x + area.width <= u16::MAX,
        area.y + last.row < area.bottom_edge(),
        first.column < area.width,
        last.column < area.width,
    ensures
        marked_rows(area, first, last, count).len() == count,
        forall|k: int|
            0 <= k < count ==> {
                let mark = #[trigger] marked_rows(area, first, last, count)[k];
                &&& mark.y == area.y + first.row + k
                &&& mark.first == area.x + (if k == 0 {
                    first.column as int
                } else {
                    0
                })
                &&& mark.end == area.x + (if first.row + k == last.row {
                    last.column + 1
                } else {
                    area.width as int
                })
            },
    decreases count,
{
    if count > 0 {
        lemma_marked_rows(area, first, last, count - 1);
        let front = marked_rows(area, first, last, count - 1);
        let all = marked_rows(area, first, last, count);
        assert(all.drop_last() =~= front);
        assert forall|k: int| 0 <= k < count implies {
            let mark = #[trigger] all[k];
            &&& mark.y == area.y + first.row + k
            &&& mark.first == area.x + (if k == 0 {
                first.column as int
            } else {
                0
            })
            &&& mark.end == area.x + (if first.row + k == last.row {
                last.column + 1
            } else {
                area.width as int
            })
        } by {
            if k < count - 1 {
                assert(all[k] == front[k]);
            }
        }
    }
}

/// The copied text agrees with the marks. It has a line for each row from the first one of the
/// selection to the last one, and each of these rows is marked. Its line holds exactly the
/// characters of the marked columns, without the blanks at their end. A row between the first and
/// the last one is marked from edge to edge, and its line is the whole text of the row without the
/// blanks at its end.
pub proof fn copied_lines_are_the_marked_columns(
    rows: Seq<RowModel>,
    area: Area,
    first: SelectionPoint,
    last: SelectionPoint,
) -> (lines: Seq<Seq<char>>)
    requires
        first.row < last.row || first.row == last.row && first.column <= last.column,
        area.x + area.width <= u16::MAX,
        area.y + last.row < area.bottom_edge(),
        first.column < area.width,
        last.column < area.width,
        last.row < rows.len(),
        forall|r: int|
            first.row <= r <= last.row ==> readable(#[trigger] rows[r]) && rows[r].ranges.len()
                == area.width,
    ensures
        lines.len() == last.row - first.row + 1,
        text_between(rows, Some((first, last))) == (if text::joined(lines, "\n"@).len() > 0 {
            Some(text::joined(lines, "\n"@))
        } else {
            None
        }),
        marked_rows(area, first, last, last.row - first.row + 1).len() == lines.len(),
        forall|k: int|
            0 <= k < lines.len() ==> {
                let mark = marked_rows(area, first, last, last.row - first.row + 1)[k];
                let row = rows[first.row + k];
                &&& mark.y == area.y + first.row + k
                &&& area.x <= mark.first < mark.end <= area.x + area.width
                &&& is_without_end_blanks(
                    #[trigger] lines[k],
                    row.text.subrange(
                        row.ranges[mark.first - area.x].0 as int,
                        row.ranges[mark.end - area.x - 1].1 as int,
                    ),
                )
                &&& k == 0 ==> mark.first == area.x + first.column
                &&& k > 0 ==> mark.first == area.x
                &&& k == lines.len() - 1 ==> mark.end == area.x + last.column + 1
                &&& k < lines.len() - 1 ==> mark.end == area.x + area.width
                &&& 0 < k < lines.len() - 1 ==> is_without_end_blanks(lines[k], row.text)
            },
{
    let count = last.row - first.row + 1;
    lemma_marked_rows(area, first, last, count);
    assert forall|k: int| 0 <= k < count implies #[trigger] line_text(
        rows,
        first,
        last,
        first.row + k,
    ) is Some by {
        let row = rows[first.row + k];
        assert(readable(row));
        let a = if k == 0 {
            first.column as int
        } else {
            0
        };
        let b = if first.row + k == last.row {
            last.column as int
        } else {
            area.width - 1
        };
        assert(row.ranges[a].0 <= row.ranges[b].1 <= row.text.len());
    }
    lemma_line_texts(rows, first, last, count);
    let lines = line_texts(rows, first, last, count)->0;
    assert forall|k: int| 0 <= k < lines.len() implies {
        let mark = marked_rows(area, first, last, last.row - first.row + 1)[k];
        let row = rows[first.row + k];
        &&& mark.y == area.y + first.row + k
        &&& area.x <= mark.first < mark.end <= area.x + area.width
        &&& is_without_end_blanks(
            #[trigger] lines[k],
            row.text.subrange(
                row.ranges[mark.first - area.x].0 as int,
                row.ranges[mark.end - area.x - 1].1 as int,
            ),
        )
        &&& k == 0 ==> mark.first == area.x + first.column
        &&& k > 0 ==> mark.first == area.x
        &&& k == lines.len() - 1 ==> mark.end == area.x + last.column + 1
        &&& k < lines.len() - 1 ==> mark.end == area.x + area.width
        &&& 0 < k < lines.len() - 1 ==> is_without_end_blanks(lines[k], row.text)
    } by {
        let row = rows[first.row + k];
        let mark = marked_rows(area, first, last, count)[k];
        assert(Some(lines[k]) == line_text(rows, first, last, first.row + k));
        lemma_without_blanks(
            row.text.subrange(
                row.ranges[mark.first - area.x].0 as int,
                row.ranges[mark.end - area.x - 1].1 as int,
            ),
        );
        assert(readable(row));
        assert(row.text.subrange(0, row.text.len() as int) =~= row.text);
    }
    lines
}

/// Dragging from one cell of the area to another one selects all that lies between them, whichever
/// of the two comes first: what is copied at the release is the text between them, and just that
/// is marked from then on. Where there is no text nothing stays selected.
pub proof fn dragging_copies_the_text_between(
    selection: SelectionModel,
    area: Area,
    from: Position,
    to: Position,
)
    requires
        area.holds(from),
        area.holds(to),
        from != to,
    ensures
        ({
            let a = SelectionPoint {
                row: (from.y - area.y) as u16,
                column: (from.x - area.x) as u16,
            };
            let b = SelectionPoint { row: (to.y - area.y) as u16, column: (to.x - area.x) as u16 };
            let (first, last) = if from.y < to.y || from.y == to.y && from.x < to.x {
                (a, b)
            } else {
                (b, a)
            };
            let pressed = after_press(selection, area, from);
            let (after, release) = after_release(pressed, area, to);
            let (dragged, dragged_release) = after_release(
                after_drag(pressed, area, to),
                area,
                to,
            );
            &&& (dragged, dragged_release) == (after, release)
            &&& after.rows == selection.rows
            &&& !after.pointer_down
            &&& match text_between(selection.rows, Some((first, last))) {
                Some(text) => {
                    &&& release == ReleaseModel::Copy(text)
                    &&& after.completed_text == Some(text)
                    &&& after.selected() == Some(text)
                    &&& marks(after, area) == marked_rows(
                        area,
                        first,
                        last,
                        last.row - first.row + 1,
                    )
                },
                None => {
                    &&& release == ReleaseModel::Click(to)
                    &&& marks(after, area).len() == 0
                    &&& after.selected() is None
                },
            }
        }),
{
}

/// A position outside of the area counts as the nearest cell in it.
pub proof fn drags_stay_in_the_area(selection: SelectionModel, area: Area, position: Position)
    requires
        proper(area),
        !area.empty(),
        selection.pointer_down,
    ensures
        ({
            let after = after_drag(selection, area, position);
            &&& after.head matches Some(point)
            &&& area.x + point.column < area.right_edge()
            &&& area.y + point.row < area.bottom_edge()
            &&& position.x < area.x ==> point.column == 0
            &&& area.x <= position.x < area.right_edge() ==> area.x + point.column == position.x
            &&& position.x >= area.right_edge() ==> area.x + point.column == area.right_edge() - 1
            &&& position.y < area.y ==> point.row == 0
            &&& area.y <= position.y < area.bottom_edge() ==> area.y + point.row == position.y
            &&& position.y >= area.bottom_edge() ==> area.y + point.row == area.bottom_edge() - 1
            &&& after.anchor == selection.anchor
            &&& after.rows == selection.rows
            &&& after.dragged <==> selection.dragged || after.anchor != after.head
        }),
{
}

/// A press outside of the area, and a drag or a release without a press, change nothing.
pub proof fn only_presses_inside_begin_a_selection(
    selection: SelectionModel,
    area: Area,
    position: Position,
)
    ensures
        !area.holds(position) ==> after_press(selection, area, position) == selection,
        area.holds(position) ==> ({
            let after = after_press(selection, area, position);
            &&& after.pointer_down
            &&& after.anchor == after.head
            &&& after.anchor matches Some(point)
            &&& area.x + point.column == position.x
            &&& area.y + point.row == position.y
            &&& after.selected() == text_between(selection.rows, Some((point, point)))
            &&& marks(after, area).len() == 0
        }),
        !selection.pointer_down ==> after_drag(selection, area, position) == selection
            && after_release(selection, area, position) == (selection, ReleaseModel::Ignored),
{
}

/// A double click on a character copies the run of characters of its kind around it, and marks
/// the columns of the run.
pub proof fn double_click_copies_the_run(
    selection: SelectionModel,
    area: Area,
    position: Position,
    start: int,
    end: int,
)
    requires
        area.holds(position),
        position.y - area.y < selection.rows.len(),
        readable(selection.rows[position.y - area.y]),
        selection.rows[position.y - area.y].ranges.len() == area.width,
        0 <= start <= position.x - area.x <= end < area.width,
        column_class(selection.rows[position.y - area.y], position.x - area.x) is Some,
        forall|k: int|
            start <= k <= end ==> #[trigger] column_class(selection.rows[position.y - area.y], k)
                == column_class(selection.rows[position.y - area.y], position.x - area.x),
        start > 0 ==> column_class(selection.rows[position.y - area.y], start - 1)
            != column_class(selection.rows[position.y - area.y], position.x - area.x),
        end + 1 < area.width ==> column_class(selection.rows[position.y - area.y], end + 1)
            != column_class(selection.rows[position.y - area.y], position.x - area.x),
    ensures
        ({
            let row = selection.rows[position.y - area.y];
            let (after, copied) = after_double_click(selection, area, position);
            let whole = row.text.subrange(
                row.ranges[start].0 as int,
                row.ranges[end].1 as int,
            );
            &&& copied matches Some(text) ==> is_without_end_blanks(text, whole)
            &&& copied is None ==> is_without_end_blanks(Seq::empty(), whole)
            &&& after.completed_text == copied
            &&& after.anchor == Some(
                SelectionPoint { row: (position.y - area.y) as u16, column: start as u16 },
            )
            &&& after.head == Some(
                SelectionPoint { row: (position.y - area.y) as u16, column: end as u16 },
            )
            &&& after.completed
            &&& !after.pointer_down
        }),
{
    let row = selection.rows[position.y - area.y];
    let column = position.x - area.x;
    let class = column_class(row, column)->0;
    lemma_run_start_is(row, column, class, start);
    lemma_run_end_is(row, column, class, end);
    let whole = row.text.subrange(row.ranges[start].0 as int, row.ranges[end].1 as int);
    lemma_without_blanks(whole);
    let point = SelectionPoint { row: (position.y - area.y) as u16, column: column as u16 };
    let first = SelectionPoint { row: point.row, column: start as u16 };
    let last = SelectionPoint { row: point.row, column: end as u16 };
    assert(row.ranges[start].0 <= row.ranges[end].1 <= row.text.len());
    let line = without_blanks(whole);
    assert(line_text(selection.rows, first, last, point.row as int) == Some(line));
    assert(line_texts(selection.rows, first, last, 0) == Some(Seq::<Seq<char>>::empty()));
    assert(line_texts(selection.rows, first, last, 1) == Some(
        Seq::<Seq<char>>::empty().push(line),
    ));
    assert(text::joined(Seq::<Seq<char>>::empty().push(line), "\n"@) == line);
    if line.len() == 0 {
        assert(line =~= Seq::empty());
    }
}

proof fn lemma_run_start_is(row: RowModel, column: int, class: SelectionClass, start: int)
    requires
        0 <= start <= column,
        forall|k: int| start <= k <= column ==> #[trigger] column_class(row, k) == Some(class),
        start > 0 ==> column_class(row, start - 1) != Some(class),
    ensures
        run_start(row, column, class) == start,
    decreases column,
{
    if start < column {
        assert(column_class(row, column - 1) == Some(class));
        lemma_run_start_is(row, column - 1, class, start);
    }
}

proof fn lemma_run_end_is(row: RowModel, column: int, class: SelectionClass, end: int)
    requires
        0 <= column <= end < row.ranges.len(),
        forall|k: int| column <= k <= end ==> #[trigger] column_class(row, k) == Some(class),
        end + 1 < row.ranges.len() ==> column_class(row, end + 1) != Some(class),
    ensures
        run_end(row, column, class) == end,
    decreases end - column,
{
    if column < end {
        assert(column_class(row, column + 1) == Some(class));
        lemma_run_end_is(row, column + 1, class, end);
    }
}

/// Letters and digits, and the characters of paths, make up words; white space and all others
/// do not.
pub proof fn words_are_letters_digits_and_paths(c: char)
    ensures
        text::char_whitespace(c) ==> class_of(c) == SelectionClass::Whitespace,
        !text::char_whitespace(c) && (text::char_alphanumeric(c) || "_/.-+~\\"@.contains(c))
            ==> class_of(c) == SelectionClass::Word,
        !text::char_whitespace(c) && !text::char_alphanumeric(c) && !"_/.-+~\\"@.contains(c)
            ==> class_of(c) == SelectionClass::Other,
{
    reveal_strlit("_/.-+~\\");
    let s = "_/.-+~\\"@;
    assert(s[0] == '_' && s[1] == '/' && s[2] == '.' && s[3] == '-' && s[4] == '+' && s[5] == '~'
        && s[6] == '\\');
}

} // verus!
