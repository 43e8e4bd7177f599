//! Backgrounds of wrapped lines.

use crate::geometry::{self, Area};
use crate::viewport::tool_groups;
use ratatui::text::{Line, Text};
use ratatui::widgets::{Paragraph, Wrap};
use vstd::prelude::*;

verus! {

/// Into how many rows lines are wrapped at a width, by the word wrapping of the `ratatui` crate
/// that does not trim.
pub uninterp spec fn wrapped_rows(lines: Seq<Seq<char>>, width: u16) -> usize;

/// The widest paragraph into which lines of any length are wrapped: four times as many columns
/// still fit in 16 bits.
pub const WIDEST_FOR_LONG_LINES: u16 = 16_383;

/// The longest line that is wrapped at any width: three columns for each of its characters still
/// fit in 16 bits.
pub const LONGEST_FOR_WIDE_PARAGRAPHS: usize = 21_845;

/// Whether lines can be wrapped at a width. The wrapping adds up widths in 16 bits: no sum is
/// larger than four times the width of the paragraph, nor than the width of the line that is being
/// wrapped.
pub open spec fn can_be_wrapped(lines: Seq<Seq<char>>, width: u16) -> bool {
    width <= WIDEST_FOR_LONG_LINES || forall|i: int|
        0 <= i < lines.len() ==> (#[trigger] lines[i]).len() <= LONGEST_FOR_WIDE_PARAGRAPHS
}

/// Calls `ratatui::widgets::Paragraph::line_count` on a paragraph of the lines, wrapped without
/// trimming. The count depends on the lines and the width alone; without a column it is zero.
/// Lines that are so long in so wide a paragraph that the widths of their parts could add up to
/// more than 16 bits hold are left out.
#[verifier::external_body]
fn line_count(lines: &Vec<String>, width: u16) -> (r: usize)
    requires
        can_be_wrapped(lines.deep_view(), width),
    ensures
        r == wrapped_rows(lines.deep_view(), width),
        width == 0 ==> r == 0,
{
    let text = Text::from(lines.iter().map(|line| Line::from(line.as_str())).collect::<Vec<_>>());
    Paragraph::new(text).wrap(Wrap { trim: false }).line_count(width)
}

/// The height of lines as a number of rows of the screen; zero where it does not fit.
pub fn desired_height(lines: &Vec<String>, width: u16) -> (r: u16)
    requires
        can_be_wrapped(lines.deep_view(), width),
    ensures
        r == height_of(wrapped_rows(lines.deep_view(), width)),
{
    height_as_rows(line_count(lines, width))
}

/// A number of rows as a height; zero where it does not fit.
pub open spec fn height_of(rows: usize) -> u16 {
    if rows <= u16::MAX {
        rows as u16
    } else {
        0
    }
}

/// A number of rows as a height; zero where it does not fit.
pub fn height_as_rows(rows: usize) -> (r: u16)
    ensures
        r == height_of(rows),
{
    if rows <= 65535 {
        rows as u16
    } else {
        0
    }
}

/// A line with the number of its background colour.
#[derive(Debug)]
pub struct ColouredLine {
    pub text: String,
    pub background: Option<u32>,
}

impl DeepView for ColouredLine {
    type V = (Seq<char>, Option<u32>);

    open spec fn deep_view(&self) -> Self::V {
        (self.text@, self.background)
    }
}

/// The backgrounds of the rows into which lines are wrapped. A line takes at least one row.
pub open spec fn row_backgrounds(lines: Seq<(Option<u32>, usize)>) -> Seq<Option<u32>>
    decreases lines.len(),
{
    if lines.len() == 0 {
        Seq::empty()
    } else {
        row_backgrounds(lines.drop_last()) + Seq::new(
            geometry::max_of(lines.last().1 as int, 1) as nat,
            |i: int| lines.last().0,
        )
    }
}

/// The backgrounds of lines with the numbers of rows into which they are wrapped.
pub open spec fn wrapped_lines(lines: Seq<(Seq<char>, Option<u32>)>, width: u16) -> Seq<
    (Option<u32>, usize),
> {
    lines.map_values(
        |line: (Seq<char>, Option<u32>)| (line.1, wrapped_rows(seq![line.0], width)),
    )
}

/// The rows that get a background: each one with its place and its colour.
pub open spec fn filled(backgrounds: Seq<Option<u32>>, y: u16) -> Seq<(u16, u32)>
    decreases backgrounds.len(),
{
    if backgrounds.len() == 0 {
        Seq::empty()
    } else {
        let front = filled(backgrounds.drop_last(), y);
        match backgrounds.last() {
            Some(colour) => front.push(
                (geometry::saturating_sum(y as int, backgrounds.len() - 1) as u16, colour),
            ),
            None => front,
        }
    }
}

/// The rows of an area that get a background over its whole width. `lines` holds the backgrounds
/// of lines and the numbers of rows into which they are wrapped.
pub fn filled_rows(lines: &Vec<(Option<u32>, usize)>, area: Area, scroll_rows: usize) -> (r: Vec<
    (u16, u32),
>)
    ensures
        r@ == (if area.empty() {
            Seq::empty()
        } else {
            filled(
                tool_groups::window_of(
                    row_backgrounds(lines@),
                    scroll_rows as int,
                    area.height as int,
                ),
                area.y,
            )
        }),
{
    let mut r: Vec<(u16, u32)> = Vec::new();
    if area.is_empty() {
        return r;
    }
    let mut rows: Vec<Option<u32>> = Vec::new();
    let mut i: usize = 0;
    assert(lines@.take(0) =~= Seq::empty());
    assert(rows@ =~= Seq::empty());
    while i < lines.len()
        invariant
            i <= lines@.len(),
            rows@ == row_backgrounds(lines@.take(i as int)),
        decreases lines@.len() - i,
    {
        assert(lines@.take(i + 1).drop_last() =~= lines@.take(i as int));
        let ghost before = rows@;
        let (background, wrapped) = lines[i];
        let count: usize = if wrapped < 1 {
            1
        } else {
            wrapped
        };
        let mut k: usize = 0;
        assert(rows@ =~= before + Seq::new(0, |i: int| background));
        while k < count
            invariant
                k <= count,
                rows@ == before + Seq::new(k as nat, |i: int| background),
            decreases count - k,
        {
            rows.push(background);
            assert(rows@ =~= before + Seq::new((k + 1) as nat, |i: int| background));
            k += 1;
        }
        assert(lines@.take(i + 1).last() == lines@[i as int]);
        assert(rows@ =~= row_backgrounds(lines@.take(i + 1)));
        i += 1;
    }
    assert(lines@.take(i as int) =~= lines@);
    let len: usize = rows.len();
    let start: usize = if scroll_rows < len {
        scroll_rows
    } else {
        len
    };
    let end: usize = if (area.height as usize) < len - start {
        start + area.height as usize
    } else {
        len
    };
    let ghost shown = tool_groups::window_of(rows@, scroll_rows as int, area.height as int);
    assert(shown =~= rows@.subrange(start as int, end as int));
    let mut j: usize = start;
    assert(shown.take(0) =~= Seq::empty());
    while j < end
        invariant
            start <= j <= end,
            end <= len,
            len == rows@.len(),
            end - start <= area.height,
            shown == rows@.subrange(start as int, end as int),
            r@ == filled(shown.take(j - start), area.y),
        decreases end - j,
    {
        assert(shown.take(j + 1 - start).drop_last() =~= shown.take(j - start));
        assert(shown.take(j + 1 - start).last() == rows@[j as int]);
        if let Some(colour) = rows[j] {
            let y = area.y.saturating_add((j - start) as u16);
            r.push((y, colour));
        }
        j += 1;
    }
    assert(shown.take(j - start) =~= shown);
    r
}

/// The texts of lines.
pub open spec fn texts_of(lines: Seq<(Seq<char>, Option<u32>)>) -> Seq<Seq<char>> {
    lines.map_values(|line: (Seq<char>, Option<u32>)| line.0)
}

/// The rows of an area that get the backgrounds of lines.
pub fn fill_line_backgrounds(lines: &Vec<ColouredLine>, area: Area, scroll_rows: usize) -> (r: Vec<
    (u16, u32),
>)
    requires
        area.empty() || can_be_wrapped(texts_of(lines.deep_view()), area.width),
    ensures
        r@ == (if area.empty() {
            Seq::empty()
        } else {
            filled(
                tool_groups::window_of(
                    row_backgrounds(wrapped_lines(lines.deep_view(), area.width)),
                    scroll_rows as int,
                    area.height as int,
                ),
                area.y,
            )
        }),
{
    if area.is_empty() {
        return Vec::new();
    }
    let ghost all = lines.deep_view();
    let mut wrapped: Vec<(Option<u32>, usize)> = Vec::new();
    let mut i: usize = 0;
    while i < lines.len()
        invariant
            i <= lines@.len(),
            all == lines.deep_view(),
            can_be_wrapped(texts_of(all), area.width),
            wrapped@.len() == i,
            forall|k: int|
                0 <= k < i ==> (#[trigger] wrapped@[k]) == wrapped_lines(all, area.width)[k],
        decreases lines@.len() - i,
    {
        let mut line: Vec<String> = Vec::new();
        line.push(lines[i].text.clone());
        assert(all[i as int] == lines@[i as int].deep_view());
        assert(line.deep_view() =~= seq![all[i as int].0]);
        assert(texts_of(all)[i as int] == all[i as int].0);
        wrapped.push((lines[i].background, line_count(&line, area.width)));
        i += 1;
    }
    assert(wrapped@ =~= wrapped_lines(all, area.width));
    filled_rows(&wrapped, area, scroll_rows)
}

/// A line gives its background to as many rows as it is wrapped into, and to one where it is empty.
/// The rows of more lines stand below those of the lines before them.
pub proof fn rows_have_the_background_of_their_line(
    lines: Seq<(Option<u32>, usize)>,
    line: (Option<u32>, usize),
)
    ensures
        ({
            let before = row_backgrounds(lines);
            let after = row_backgrounds(lines.push(line));
            let n = after.len() - before.len();
            &&& n == line.1 || n == 1 && line.1 == 0
            &&& after.take(before.len() as int) == before
            &&& forall|k: int| before.len() <= k < after.len() ==> (#[trigger] after[k]) == line.0
        }),
        row_backgrounds(Seq::empty()).len() == 0,
{
    let before = row_backgrounds(lines);
    let after = row_backgrounds(lines.push(line));
    assert(lines.push(line).drop_last() =~= lines);
    assert(after.take(before.len() as int) =~= before);
}

/// Exactly the rows with a background are filled, each at its own place with its own colour.
pub proof fn rows_are_filled_with_their_background(
    backgrounds: Seq<Option<u32>>,
    y: u16,
    row: (u16, u32),
)
    requires
        y + backgrounds.len() <= u16::MAX,
    ensures
        filled(backgrounds, y).contains(row) <==> y <= row.0 < y + backgrounds.len()
            && backgrounds[row.0 - y] == Some(row.1),
    decreases backgrounds.len(),
{
    if backgrounds.len() > 0 {
        let front = backgrounds.drop_last();
        rows_are_filled_with_their_background(front, y, row);
        let some = filled(front, y);
        let all = filled(backgrounds, y);
        if some.contains(row) {
            let k = choose|k: int| 0 <= k < some.len() && some[k] == row;
            assert(all[k] == row);
        }
        if all.contains(row) {
            let k = choose|k: int| 0 <= k < all.len() && all[k] == row;
            if k < some.len() {
                assert(some[k] == row);
            }
        }
        if backgrounds.last() is Some {
            assert(all[some.len() as int] == (
                (y + backgrounds.len() - 1) as u16,
                backgrounds.last()->0,
            ));
        }
    }
}

/// A number of rows is the height where it fits, and there is none where it does not.
pub proof fn heights_fit_or_are_nothing(rows: usize)
    ensures
        height_of(rows) == rows || height_of(rows) == 0 && rows >= 65536,
{
}

} // verus!
