//! The conversation as the full screen shows it.

pub mod file_changes;
pub mod pager;
pub mod projection;
pub mod tool_groups;

use crate::patches::FileChangeDisplayLines;
use crate::viewport::pager::PagerScroll;
use crate::viewport::projection::{
    BlockModel, HistoryRenderMode, LiveDisplay, ViewBlock, ViewCell, ViewModel,
    MIN_GROUPED_TOOL_CALLS,
};
use crate::viewport::tool_groups::{no_activity, ToolActivity};
use vstd::prelude::*;

verus! {

/// What tells whether the live tail has to be drawn again.
#[derive(Clone, Copy, Debug, PartialEq, Eq, Structural)]
pub struct LiveTailKey {
    pub width: u16,
    pub revision: u64,
    pub is_stream_continuation: bool,
    pub animation_tick: Option<u64>,
}

/// A block under the mouse, and the row in it.
#[derive(Clone, Copy, Debug, PartialEq, Eq, Structural)]
pub struct BlockHit {
    pub index: usize,
    pub row: u16,
}

/// The blocks that an insertion replaced, by how many.
#[derive(Clone, Copy, Debug, PartialEq, Eq, Structural)]
pub struct BlockSplice {
    pub start: usize,
    pub removed: usize,
    pub added: usize,
}

/// The conversation as the full screen shows it: a block for each cell, and one for what goes on
/// below them.
#[derive(Debug)]
pub struct ConversationViewport {
    pub cells: Vec<ViewCell>,
    pub render_mode: HistoryRenderMode,
    pub live: LiveDisplay,
    pub live_tail_key: Option<LiveTailKey>,
    pub accepting_content: bool,
    pub hovered_tool_group: Option<usize>,
    pub expanded_tool_group: Option<usize>,
    pub hovered_file_change: Option<usize>,
    pub expanded_file_change: Option<usize>,
    pub blocks: Vec<ViewBlock>,
    pub scroll: PagerScroll,
}

/// The group under the mouse. The empty rows above a collapsed one do not count.
pub open spec fn group_hit(view: ViewModel, hit: Option<BlockHit>) -> Option<usize> {
    match hit {
        None => None,
        Some(hit) => if projection::synthetic_group(view) == Some(hit.index) {
            if projection::at(view.expanded_tool_group, hit.index as int) || hit.row >= (
            match view.live {
                LiveDisplay::Tool(tool) if projection::tail_spaced(
                    view,
                    tool.is_stream_continuation,
                ) => 1u16,
                _ => 0,
            }) {
                Some(hit.index)
            } else {
                None
            }
        } else {
            match projection::group_at(view, hit.index as int) {
                Some((first, _)) => if projection::at(view.expanded_tool_group, first) || hit.row
                    >= projection::top_padding_of(view.cells, first) {
                    Some(first as usize)
                } else {
                    None
                },
                None => None,
            }
        },
    }
}

/// The file change whose heading or footer is under the mouse. `lines` are the number of rows of
/// the change that is hit and of its heading.
pub open spec fn change_hit(
    view: ViewModel,
    hit: Option<BlockHit>,
    lines: Option<(int, int)>,
) -> Option<usize> {
    match (hit, lines) {
        (Some(hit), Some((line_count, heading_rows))) => {
            let i = hit.index as int;
            if i < view.cells.len() && view.cells[i].is_file_change {
                let padding = projection::top_padding_of(view.cells, i);
                if hit.row >= padding && file_changes::toggles(
                    hit.row - padding,
                    line_count,
                    heading_rows,
                    projection::at(view.expanded_file_change, i),
                ) {
                    Some(hit.index)
                } else {
                    None
                }
            } else {
                None
            }
        },
        _ => None,
    }
}

/// The file change whose heading or footer a click hits; tool groups come first.
pub open spec fn clicked_change(
    view: ViewModel,
    hit: Option<BlockHit>,
    lines: Option<(int, int)>,
) -> Option<usize> {
    if group_hit(view, hit) is Some {
        None
    } else {
        change_hit(view, hit, lines)
    }
}

/// The number of rows of a change and of its heading.
pub open spec fn line_counts(change: Option<FileChangeDisplayLines>) -> Option<(int, int)> {
    match change {
        Some(change) => Some((change.lines@.len() as int, change.heading_rows as int)),
        None => None,
    }
}

/// The conversation after the mouse moved.
pub open spec fn after_move(
    view: ViewModel,
    hit: Option<BlockHit>,
    lines: Option<(int, int)>,
) -> ViewModel {
    if view.mode == HistoryRenderMode::Raw {
        ViewModel { hovered_tool_group: None, hovered_file_change: None, ..view }
    } else {
        let group = match group_hit(view, hit) {
            Some(first) if view.expanded_tool_group != Some(first) => Some(first),
            _ => None,
        };
        ViewModel {
            hovered_tool_group: group,
            hovered_file_change: if group is None {
                change_hit(view, hit, lines)
            } else {
                None
            },
            ..view
        }
    }
}

/// The other one of two states.
pub open spec fn toggled(expanded: Option<usize>, place: usize) -> Option<usize> {
    if expanded == Some(place) {
        None
    } else {
        Some(place)
    }
}

/// The conversation after a click.
pub open spec fn after_click(
    view: ViewModel,
    hit: Option<BlockHit>,
    lines: Option<(int, int)>,
) -> ViewModel {
    match group_hit(view, hit) {
        Some(first) => ViewModel {
            hovered_tool_group: None,
            expanded_tool_group: toggled(view.expanded_tool_group, first),
            ..view
        },
        None => match change_hit(view, hit, lines) {
            Some(index) => ViewModel {
                expanded_file_change: toggled(view.expanded_file_change, index),
                ..view
            },
            None => view,
        },
    }
}

/// A conversation where nothing is hovered or expanded.
pub open spec fn fresh_view(cells: Seq<ViewCell>, mode: HistoryRenderMode) -> ViewModel {
    ViewModel {
        cells,
        mode,
        live: LiveDisplay::Nothing,
        accepting_content: false,
        hovered_tool_group: None,
        expanded_tool_group: None,
        hovered_file_change: None,
        expanded_file_change: None,
    }
}

/// The conversation with something else going on below the cells.
pub open spec fn with_live(view: ViewModel, live: LiveDisplay, accepting_content: bool) ->
    ViewModel {
    projection::with_valid_places(ViewModel { live, accepting_content, ..view })
}

fn is_at(place: Option<usize>, i: usize) -> (r: bool)
    ensures
        r == projection::at(place, i as int),
{
    match place {
        Some(place) => place == i,
        None => false,
    }
}

fn same_place(a: Option<usize>, b: Option<usize>) -> (r: bool)
    ensures
        r == (a == b),
{
    match (a, b) {
        (Some(a), Some(b)) => a == b,
        (None, None) => true,
        _ => false,
    }
}

fn same_key(a: Option<LiveTailKey>, b: Option<LiveTailKey>) -> (r: bool)
    ensures
        r == (a == b),
{
    match (a, b) {
        (Some(a), Some(b)) => {
            let same_tick = match (a.animation_tick, b.animation_tick) {
                (Some(a), Some(b)) => a == b,
                (None, None) => true,
                _ => false,
            };
            a.width == b.width && a.revision == b.revision && a.is_stream_continuation
                == b.is_stream_continuation && same_tick
        },
        (None, None) => true,
        _ => false,
    }
}

fn shift_place(place: Option<usize>, index: usize, count: usize) -> (r: Option<usize>)
    ensures
        r == projection::shifted(place, index as int, count as int),
{
    match place {
        Some(i) => if i >= index {
            Some(i.saturating_add(count))
        } else {
            Some(i)
        },
        None => None,
    }
}

fn toggle(expanded: Option<usize>, place: usize) -> (r: Option<usize>)
    ensures
        r == toggled(expanded, place),
{
    if same_place(expanded, Some(place)) {
        None
    } else {
        Some(place)
    }
}

impl ConversationViewport {
    /// Everything that decides which blocks are shown.
    pub open spec fn view(&self) -> ViewModel {
        ViewModel {
            cells: self.cells@,
            mode: self.render_mode,
            live: self.live,
            accepting_content: self.accepting_content,
            hovered_tool_group: self.hovered_tool_group,
            expanded_tool_group: self.expanded_tool_group,
            hovered_file_change: self.hovered_file_change,
            expanded_file_change: self.expanded_file_change,
        }
    }

    /// Whether the blocks are those of the cells, and the hovered and expanded places those of
    /// groups and file changes.
    pub open spec fn wf(&self) -> bool {
        &&& self.blocks.deep_view() == projection::blocks_of(self.view())
        &&& projection::places_valid(self.view())
    }

    /// Whether everything but the blocks is as before.
    pub open spec fn same_but_blocks(&self, before: ConversationViewport) -> bool {
        *self == (ConversationViewport { blocks: self.blocks, ..before })
    }

    fn tool(&self, i: usize) -> (r: bool)
        ensures
            r == projection::is_tool(self.cells@, i as int),
    {
        i < self.cells.len() && self.cells[i].activity.is_some()
    }

    fn first_of_run(&self, i: usize) -> (r: usize)
        ensures
            r == projection::run_first(self.cells@, i as int),
            r <= i,
    {
        let mut first: usize = i;
        while first > 0 && self.tool(first - 1)
            invariant
                first <= i,
                projection::run_first(self.cells@, i as int) == projection::run_first(
                    self.cells@,
                    first as int,
                ),
            ensures
                first <= i,
                projection::run_first(self.cells@, i as int) == first,
            decreases first,
        {
            first -= 1;
        }
        first
    }

    fn end_of_run(&self, i: usize) -> (r: usize)
        requires
            i <= self.cells@.len(),
        ensures
            r == projection::run_end(self.cells@, i as int),
            i <= r <= self.cells@.len(),
    {
        let mut end: usize = i;
        while end < self.cells.len() && self.tool(end)
            invariant
                i <= end <= self.cells@.len(),
                projection::run_end(self.cells@, i as int) == projection::run_end(
                    self.cells@,
                    end as int,
                ),
            ensures
                i <= end <= self.cells@.len(),
                projection::run_end(self.cells@, i as int) == end,
            decreases self.cells@.len() - end,
        {
            end += 1;
        }
        end
    }

    fn activity_of(&self, first: usize, end: usize) -> (r: ToolActivity)
        requires
            first <= end <= self.cells@.len(),
        ensures
            r == projection::merged(self.cells@, first as int, end as int),
    {
        let mut r = no_activity();
        let mut i: usize = first;
        while i < end
            invariant
                first <= i <= end,
                end <= self.cells@.len(),
                r == projection::merged(self.cells@, first as int, i as int),
            decreases end - i,
        {
            let activity = match self.cells[i].activity {
                Some(activity) => activity,
                None => no_activity(),
            };
            r = r.merge(activity);
            i += 1;
        }
        r
    }

    /// What a group did with the tool that runs, and whether that belongs to it.
    fn activity_with_live(&self, first: usize, end: usize) -> (r: (ToolActivity, bool))
        requires
            first <= end <= self.cells@.len(),
        ensures
            r.0 == projection::group_activity(self.view(), first as int, end as int),
            r.1 == projection::live_tool_at(self.view(), end as int) is Some,
    {
        let activity = self.activity_of(first, end);
        match self.live {
            LiveDisplay::Tool(tool) => if end == self.cells.len() {
                (activity.merge(tool.activity), true)
            } else {
                (activity, false)
            },
            _ => (activity, false),
        }
    }

    fn top_padding(&self, first: usize) -> (r: u16)
        requires
            first < self.cells@.len(),
        ensures
            r == projection::top_padding_of(self.cells@, first as int),
    {
        if first > 0 && !self.cells[first].is_stream_continuation {
            1
        } else {
            0
        }
    }

    fn cell_block(&self, i: usize) -> (r: ViewBlock)
        requires
            i < self.cells@.len(),
        ensures
            r.deep_view() == projection::cell_block(self.view(), i as int),
    {
        ViewBlock::Cell {
            id: self.cells[i].id,
            spaced: i > 0 && !self.cells[i].is_stream_continuation,
            hovered: is_at(self.hovered_file_change, i),
            expanded: is_at(self.expanded_file_change, i),
        }
    }

    fn group_block(&self, first: usize, end: usize, activity: ToolActivity, live: bool) -> (r:
        ViewBlock)
        requires
            first < end <= self.cells@.len(),
            activity == projection::group_activity(self.view(), first as int, end as int),
            live == projection::live_tool_at(self.view(), end as int) is Some,
        ensures
            r.deep_view() == projection::group_block(self.view(), first as int, end as int),
    {
        let mut ids: Vec<u64> = Vec::new();
        let mut i: usize = first;
        while i < end
            invariant
                first <= i <= end,
                end <= self.cells@.len(),
                ids@.len() == i - first,
                forall|k: int|
                    0 <= k < ids@.len() ==> (#[trigger] ids@[k]) == self.cells@[first + k].id,
            decreases end - i,
        {
            ids.push(self.cells[i].id);
            i += 1;
        }
        assert(ids@ =~= projection::ids_of(self.cells@, first as int, end as int));
        ViewBlock::Group {
            ids,
            live,
            activity,
            active: end == self.cells.len() && self.accepting_content,
            hovered: is_at(self.hovered_tool_group, first),
            expanded: is_at(self.expanded_tool_group, first),
            top_padding: self.top_padding(first),
        }
    }

    /// The block of a cell.
    fn block(&self, i: usize) -> (r: ViewBlock)
        requires
            i < self.cells@.len(),
        ensures
            r.deep_view() == projection::block_at(self.view(), i as int),
    {
        if self.render_mode == HistoryRenderMode::Rich && self.tool(i) {
            let first = self.first_of_run(i);
            let end = self.end_of_run(i);
            proof {
                projection::lemma_end(self.cells@, i as int);
                assert(projection::run_end(self.cells@, i as int) > i);
            }
            let (activity, live) = self.activity_with_live(first, end);
            if activity.call_count < MIN_GROUPED_TOOL_CALLS {
                self.cell_block(i)
            } else if i == first {
                self.group_block(first, end, activity, live)
            } else {
                ViewBlock::Grouped
            }
        } else {
            self.cell_block(i)
        }
    }

    /// The blocks of some cells. No group reaches over their borders.
    fn render_cell_range(&self, start: usize, end: usize) -> (r: Vec<ViewBlock>)
        requires
            start <= end <= self.cells@.len(),
            projection::no_group_crosses(self.cells@, start as int),
            projection::no_group_crosses(self.cells@, end as int),
        ensures
            r@.len() == end - start,
            forall|k: int|
                0 <= k < r@.len() ==> (#[trigger] r@[k]).deep_view() == projection::block_at(
                    self.view(),
                    start + k,
                ),
    {
        let ghost view = self.view();
        let ghost cells = self.cells@;
        let rich = self.render_mode == HistoryRenderMode::Rich;
        let mut r: Vec<ViewBlock> = Vec::new();
        let mut i: usize = start;
        while i < end
            invariant
                start <= i <= end,
                end <= self.cells@.len(),
                view == self.view(),
                cells == self.cells@,
                rich == (self.render_mode == HistoryRenderMode::Rich),
                projection::no_group_crosses(cells, i as int) || !rich,
                projection::no_group_crosses(cells, end as int),
                r@.len() == i - start,
                forall|k: int|
                    0 <= k < r@.len() ==> (#[trigger] r@[k]).deep_view() == projection::block_at(
                        view,
                        start + k,
                    ),
            decreases end - i,
        {
            if rich && self.tool(i) {
                let first = i;
                let stop = self.end_of_run(i);
                proof {
                    projection::lemma_end(cells, first as int);
                    assert(projection::run_end(cells, first as int) > first);
                    if stop > end {
                        assert(projection::is_tool(cells, end - 1));
                        assert(projection::is_tool(cells, end as int));
                    }
                    projection::lemma_first_unique(cells, first as int, first as int);
                }
                let (activity, live) = self.activity_with_live(first, stop);
                if activity.call_count >= MIN_GROUPED_TOOL_CALLS {
                    let block = self.group_block(first, stop, activity, live);
                    r.push(block);
                    i += 1;
                    while i < stop
                        invariant
                            start <= first < i <= stop,
                            stop <= end,
                            end <= self.cells@.len(),
                            view == self.view(),
                            cells == self.cells@,
                            view.mode == HistoryRenderMode::Rich,
                            projection::is_tool(cells, first as int),
                            first == projection::run_first(cells, first as int),
                            stop == projection::run_end(cells, first as int),
                            projection::group_activity(view, first as int, stop as int).call_count
                                >= MIN_GROUPED_TOOL_CALLS,
                            r@.len() == i - start,
                            forall|k: int|
                                0 <= k < r@.len() ==> (#[trigger] r@[k]).deep_view()
                                    == projection::block_at(view, start + k),
                        decreases stop - i,
                    {
                        proof {
                            projection::lemma_same_run(cells, first as int, i as int);
                        }
                        r.push(ViewBlock::Grouped);
                        i += 1;
                    }
                } else {
                    while i < stop
                        invariant
                            start <= first <= i <= stop,
                            stop <= end,
                            end <= self.cells@.len(),
                            view == self.view(),
                            cells == self.cells@,
                            view.mode == HistoryRenderMode::Rich,
                            projection::is_tool(cells, first as int),
                            first == projection::run_first(cells, first as int),
                            stop == projection::run_end(cells, first as int),
                            projection::group_activity(view, first as int, stop as int).call_count
                                < MIN_GROUPED_TOOL_CALLS,
                            r@.len() == i - start,
                            forall|k: int|
                                0 <= k < r@.len() ==> (#[trigger] r@[k]).deep_view()
                                    == projection::block_at(view, start + k),
                        decreases stop - i,
                    {
                        proof {
                            projection::lemma_same_run(cells, first as int, i as int);
                        }
                        let block = self.cell_block(i);
                        r.push(block);
                        i += 1;
                    }
                }
                proof {
                    projection::lemma_end(cells, first as int);
                }
            } else {
                let block = self.cell_block(i);
                r.push(block);
                i += 1;
            }
        }
        r
    }

    fn has_trailing_group(&self) -> (r: bool)
        ensures
            r == projection::trailing_group(self.view()),
    {
        let len: usize = self.cells.len();
        self.render_mode == HistoryRenderMode::Rich && len > 0 && self.tool(len - 1)
    }

    /// The place of the group that stands for a tool that runs.
    pub fn synthetic_live_tool_group_index(&self) -> (r: Option<usize>)
        ensures
            r == projection::synthetic_group(self.view()),
    {
        match self.live {
            LiveDisplay::Tool(_) => if self.render_mode == HistoryRenderMode::Rich
                && !self.has_trailing_group() {
                Some(self.cells.len())
            } else {
                None
            },
            _ => None,
        }
    }

    /// The block below those of the cells.
    fn tail_block(&self) -> (r: Option<ViewBlock>)
        ensures
            match r {
                Some(block) => projection::tail_blocks(self.view()) == seq![block.deep_view()],
                None => projection::tail_blocks(self.view()) == Seq::<BlockModel>::empty(),
            },
    {
        let len: usize = self.cells.len();
        match self.live {
            LiveDisplay::Nothing => None,
            LiveDisplay::Lines { is_stream_continuation } => Some(
                ViewBlock::LiveTail { spaced: len > 0 && !is_stream_continuation },
            ),
            LiveDisplay::Tool(tool) => {
                let spaced = len > 0 && !tool.is_stream_continuation;
                if self.render_mode == HistoryRenderMode::Raw {
                    Some(ViewBlock::LiveTail { spaced })
                } else if self.has_trailing_group() {
                    None
                } else {
                    let ids: Vec<u64> = Vec::new();
                    assert(ids@ =~= Seq::empty());
                    Some(
                        ViewBlock::Group {
                            ids,
                            live: true,
                            activity: tool.activity,
                            active: self.accepting_content,
                            hovered: is_at(self.hovered_tool_group, len),
                            expanded: is_at(self.expanded_tool_group, len),
                            top_padding: if spaced {
                                1
                            } else {
                                0
                            },
                        },
                    )
                }
            },
        }
    }

    /// The group that a cell belongs to: its first cell and its end.
    pub fn tool_group_at(&self, index: usize) -> (r: Option<(usize, usize)>)
        ensures
            projection::group_at(self.view(), index as int) == (match r {
                Some((first, end)) => Some((first as int, end as int)),
                None => None,
            }),
            r matches Some((first, end)) ==> first <= index < end <= self.cells@.len(),
    {
        if self.render_mode == HistoryRenderMode::Rich && self.tool(index) {
            let first = self.first_of_run(index);
            let end = self.end_of_run(index);
            proof {
                projection::lemma_end(self.cells@, index as int);
                assert(projection::run_end(self.cells@, index as int) > index);
            }
            if self.activity_of(first, end).call_count >= MIN_GROUPED_TOOL_CALLS {
                return Some((first, end));
            }
        }
        None
    }

    fn valid_group_place(&self, place: Option<usize>) -> (r: Option<usize>)
        ensures
            r == projection::valid_group(self.view(), place),
    {
        match place {
            None => None,
            Some(i) => if same_place(self.synthetic_live_tool_group_index(), Some(i)) {
                Some(i)
            } else {
                match self.tool_group_at(i) {
                    Some((first, _)) => Some(first),
                    None => None,
                }
            },
        }
    }

    fn valid_change_place(&self, place: Option<usize>) -> (r: Option<usize>)
        ensures
            r == projection::valid_change(self.view(), place),
    {
        match place {
            Some(i) => if i < self.cells.len() && self.cells[i].is_file_change {
                Some(i)
            } else {
                None
            },
            None => None,
        }
    }

    /// Drops hovered and expanded places that are no longer there.
    fn validate_places(&mut self)
        ensures
            final(self).view() == projection::with_valid_places(old(self).view()),
            projection::places_valid(final(self).view()),
            *final(self) == (ConversationViewport {
                hovered_tool_group: final(self).hovered_tool_group,
                expanded_tool_group: final(self).expanded_tool_group,
                hovered_file_change: final(self).hovered_file_change,
                expanded_file_change: final(self).expanded_file_change,
                ..*old(self)
            }),
    {
        let ghost was = self.view();
        let len: usize = self.cells.len();
        let hovered_group = self.valid_group_place(self.hovered_tool_group);
        let expanded_group = self.valid_group_place(self.expanded_tool_group);
        let hovered_change = self.valid_change_place(self.hovered_file_change);
        let expanded_change = self.valid_change_place(self.expanded_file_change);
        proof {
            projection::lemma_valid_again(was, self.hovered_tool_group);
            projection::lemma_valid_again(was, self.expanded_tool_group);
        }
        self.hovered_tool_group = hovered_group;
        self.expanded_tool_group = expanded_group;
        self.hovered_file_change = hovered_change;
        self.expanded_file_change = expanded_change;
        proof {
            let now = self.view();
            assert(projection::synthetic_group(now) == projection::synthetic_group(was));
            assert forall|i: int| projection::group_at(now, i) == projection::group_at(was, i) by {}
            assert(projection::valid_group(now, hovered_group) == hovered_group);
            assert(projection::valid_group(now, expanded_group) == expanded_group);
        }
    }

    /// Puts the block below those of the cells in place.
    fn push_tail(&mut self)
        requires
            old(self).blocks.deep_view() == projection::cell_blocks(old(self).view()),
        ensures
            final(self).blocks.deep_view() == projection::blocks_of(old(self).view()),
            final(self).same_but_blocks(*old(self)),
    {
        let ghost cells = projection::cell_blocks(self.view());
        match self.tail_block() {
            Some(block) => {
                self.blocks.push(block);
                assert(self.blocks.deep_view() =~= cells.push(block.deep_view()));
                assert(cells.push(block.deep_view()) =~= cells + seq![block.deep_view()]);
            },
            None => {
                assert(cells + Seq::<BlockModel>::empty() =~= cells);
            },
        }
    }

    /// Renders all blocks.
    fn rebuild(&mut self)
        ensures
            final(self).blocks.deep_view() == projection::blocks_of(old(self).view()),
            final(self).same_but_blocks(*old(self)),
    {
        let len: usize = self.cells.len();
        let blocks = self.render_cell_range(0, len);
        assert(blocks.deep_view() =~= projection::cell_blocks(self.view()));
        self.blocks = blocks;
        self.push_tail();
    }

    /// A conversation with nothing going on below its cells.
    pub fn new(cells: Vec<ViewCell>, render_mode: HistoryRenderMode) -> (r: Self)
        ensures
            r.wf(),
            r.view() == fresh_view(cells@, render_mode),
            r.live_tail_key is None,
            r.scroll.following,
    {
        let mut r = ConversationViewport {
            cells,
            render_mode,
            live: LiveDisplay::Nothing,
            live_tail_key: None,
            accepting_content: false,
            hovered_tool_group: None,
            expanded_tool_group: None,
            hovered_file_change: None,
            expanded_file_change: None,
            blocks: Vec::new(),
            scroll: PagerScroll::new(),
        };
        r.rebuild();
        r
    }

    /// The number of cells.
    pub fn committed_cell_count(&self) -> (r: usize)
        ensures
            r == self.view().cells.len(),
    {
        self.cells.len()
    }

    /// Whether the end of the conversation is followed.
    pub fn is_following_bottom(&self) -> (r: bool)
        ensures
            r == self.scroll.following,
    {
        self.scroll.following
    }

    /// Renders the block of a place.
    fn refresh(&mut self, place: Option<usize>)
        requires
            old(self).blocks@.len() == projection::blocks_of(old(self).view()).len(),
        ensures
            final(self).blocks.deep_view() == (match place {
                Some(i) if i < old(self).blocks@.len() => old(self).blocks.deep_view().update(
                    i as int,
                    projection::blocks_of(old(self).view())[i as int],
                ),
                _ => old(self).blocks.deep_view(),
            }),
            final(self).blocks@.len() == old(self).blocks@.len(),
            final(self).same_but_blocks(*old(self)),
    {
        let ghost view = self.view();
        let ghost was = self.blocks.deep_view();
        if let Some(i) = place {
            if i < self.cells.len() {
                let block = self.block(i);
                self.blocks.set(i, block);
                assert(self.blocks.deep_view() =~= was.update(i as int, block.deep_view()));
            } else if i < self.blocks.len() {
                match self.tail_block() {
                    Some(block) => {
                        assert(i == self.cells@.len());
                        self.blocks.set(i, block);
                        assert(self.blocks.deep_view() =~= was.update(
                            i as int,
                            block.deep_view(),
                        ));
                    },
                    None => {
                        assert(false);
                    },
                }
            }
        }
    }

    /// The group under the mouse.
    pub fn tool_group_hit(&self, hit: Option<BlockHit>) -> (r: Option<usize>)
        ensures
            r == group_hit(self.view(), hit),
    {
        let hit = match hit {
            Some(hit) => hit,
            None => {
                return None;
            },
        };
        if same_place(self.synthetic_live_tool_group_index(), Some(hit.index)) {
            let padding: u16 = match self.live {
                LiveDisplay::Tool(tool) => if self.cells.len() > 0 && !tool.is_stream_continuation {
                    1
                } else {
                    0
                },
                _ => 0,
            };
            if is_at(self.expanded_tool_group, hit.index) || hit.row >= padding {
                return Some(hit.index);
            }
            return None;
        }
        match self.tool_group_at(hit.index) {
            Some((first, _)) => if is_at(self.expanded_tool_group, first) || hit.row
                >= self.top_padding(first) {
                Some(first)
            } else {
                None
            },
            None => None,
        }
    }

    /// The file change whose heading or footer is under the mouse. `change` holds the rows of the
    /// change that is hit.
    pub fn file_change_hit(&self, hit: Option<BlockHit>, change: &Option<FileChangeDisplayLines>)
        -> (r: Option<usize>)
        ensures
            r == change_hit(self.view(), hit, line_counts(*change)),
    {
        match (hit, change) {
            (Some(hit), Some(change)) => {
                if hit.index < self.cells.len() && self.cells[hit.index].is_file_change {
                    let padding = self.top_padding(hit.index);
                    if hit.row >= padding && change.row_toggles(
                        (hit.row - padding) as usize,
                        is_at(self.expanded_file_change, hit.index),
                    ) {
                        return Some(hit.index);
                    }
                }
                None
            },
            _ => None,
        }
    }

    fn set_hovered_tool_group(&mut self, next: Option<usize>) -> (r: bool)
        requires
            old(self).wf(),
            projection::valid_group(old(self).view(), next) == next,
        ensures
            final(self).wf(),
            final(self).view() == (ViewModel { hovered_tool_group: next, ..old(self).view() }),
            *final(self) == (ConversationViewport {
                hovered_tool_group: next,
                blocks: final(self).blocks,
                ..*old(self)
            }),
            r == (old(self).hovered_tool_group != next),
    {
        if same_place(self.hovered_tool_group, next) {
            return false;
        }
        let len: usize = self.cells.len();
        let ghost before = self.view();
        let previous = self.hovered_tool_group;
        self.hovered_tool_group = next;
        proof {
            lemma_same_length(before, self.view());
            lemma_same_places(before, self.view());
        }
        self.refresh(previous);
        self.refresh(next);
        proof {
            let now = self.view();
            lemma_hover_changes_two_blocks(before, now, previous, next, None);
            if previous is Some {
                projection::lemma_valid(before, previous);
            }
            assert(self.blocks.deep_view() =~= projection::blocks_of(now));
        }
        true
    }

    fn set_hovered_file_change(&mut self, next: Option<usize>) -> (r: bool)
        requires
            old(self).wf(),
            projection::valid_change(old(self).view(), next) == next,
        ensures
            final(self).wf(),
            final(self).view() == (ViewModel { hovered_file_change: next, ..old(self).view() }),
            *final(self) == (ConversationViewport {
                hovered_file_change: next,
                blocks: final(self).blocks,
                ..*old(self)
            }),
            r == (old(self).hovered_file_change != next),
    {
        if same_place(self.hovered_file_change, next) {
            return false;
        }
        let ghost before = self.view();
        let previous = self.hovered_file_change;
        self.hovered_file_change = next;
        proof {
            lemma_same_length(before, self.view());
            lemma_same_places(before, self.view());
        }
        self.refresh(previous);
        self.refresh(next);
        proof {
            let now = self.view();
            lemma_hover_changes_two_blocks(before, now, previous, next, None);
            assert(self.blocks.deep_view() =~= projection::blocks_of(now));
        }
        true
    }

    /// The mouse moved. Says whether what is hovered changed.
    pub fn handle_mouse_move(
        &mut self,
        hit: Option<BlockHit>,
        change: &Option<FileChangeDisplayLines>,
    ) -> (r: bool)
        requires
            old(self).wf(),
        ensures
            final(self).wf(),
            final(self).view() == after_move(old(self).view(), hit, line_counts(*change)),
            *final(self) == (ConversationViewport {
                hovered_tool_group: final(self).hovered_tool_group,
                hovered_file_change: final(self).hovered_file_change,
                blocks: final(self).blocks,
                ..*old(self)
            }),
            r == (final(self).view() != old(self).view()),
    {
        if self.render_mode == HistoryRenderMode::Raw {
            let group_changed = self.set_hovered_tool_group(None);
            let change_changed = self.set_hovered_file_change(None);
            return group_changed || change_changed;
        }
        let len: usize = self.cells.len();
        let ghost view = self.view();
        let tool_hit = match self.tool_group_hit(hit) {
            Some(first) => if same_place(self.expanded_tool_group, Some(first)) {
                None
            } else {
                Some(first)
            },
            None => None,
        };
        let change_hit = if tool_hit.is_none() {
            self.file_change_hit(hit, change)
        } else {
            None
        };
        proof {
            lemma_group_hit_valid(view, hit);
            assert(projection::valid_group(view, tool_hit) == tool_hit);
        }
        let group_changed = self.set_hovered_tool_group(tool_hit);
        let change_changed = self.set_hovered_file_change(change_hit);
        group_changed || change_changed
    }

    /// The file change whose heading or footer a click hits.
    pub fn clicked_file_change(
        &self,
        hit: Option<BlockHit>,
        change: &Option<FileChangeDisplayLines>,
    ) -> (r: Option<usize>)
        ensures
            r == clicked_change(self.view(), hit, line_counts(*change)),
    {
        if self.tool_group_hit(hit).is_some() {
            None
        } else {
            self.file_change_hit(hit, change)
        }
    }

    /// The mouse was clicked. Says whether it hit a group or a file change.
    pub fn handle_left_click(
        &mut self,
        hit: Option<BlockHit>,
        change: &Option<FileChangeDisplayLines>,
    ) -> (r: bool)
        requires
            old(self).wf(),
        ensures
            final(self).wf(),
            final(self).view() == after_click(old(self).view(), hit, line_counts(*change)),
            *final(self) == (ConversationViewport {
                hovered_tool_group: final(self).hovered_tool_group,
                expanded_tool_group: final(self).expanded_tool_group,
                expanded_file_change: final(self).expanded_file_change,
                blocks: final(self).blocks,
                ..*old(self)
            }),
            r == (group_hit(old(self).view(), hit) is Some || change_hit(
                old(self).view(),
                hit,
                line_counts(*change),
            ) is Some),
    {
        let len: usize = self.cells.len();
        let ghost before = self.view();
        if let Some(first) = self.tool_group_hit(hit) {
            let previous = self.expanded_tool_group;
            let previous_hover = self.hovered_tool_group;
            self.hovered_tool_group = None;
            self.expanded_tool_group = toggle(previous, first);
            proof {
                lemma_same_length(before, self.view());
                lemma_same_places(before, self.view());
                lemma_group_hit_valid(before, hit);
            }
            self.refresh(previous);
            self.refresh(previous_hover);
            self.refresh(Some(first));
            proof {
                let now = self.view();
                lemma_hover_changes_two_blocks(before, now, previous, previous_hover, Some(first));
                assert(self.blocks.deep_view() =~= projection::blocks_of(now));
            }
            return true;
        }
        match self.file_change_hit(hit, change) {
            None => false,
            Some(index) => {
                let previous = self.expanded_file_change;
                self.expanded_file_change = toggle(previous, index);
                proof {
                    lemma_same_length(before, self.view());
                    lemma_same_places(before, self.view());
                }
                self.refresh(previous);
                self.refresh(Some(index));
                proof {
                    let now = self.view();
                    lemma_hover_changes_two_blocks(before, now, previous, Some(index), None);
                    assert(self.blocks.deep_view() =~= projection::blocks_of(now));
                }
                true
            },
        }
    }

    /// Collapses a file change that is expanded.
    pub fn collapse_file_changes(&mut self)
        requires
            old(self).wf(),
        ensures
            final(self).wf(),
            final(self).view() == (ViewModel { expanded_file_change: None, ..old(self).view() }),
            final(self).live_tail_key == old(self).live_tail_key,
            final(self).scroll == old(self).scroll,
    {
        let ghost before = self.view();
        let previous = self.expanded_file_change;
        self.expanded_file_change = None;
        proof {
            lemma_same_length(before, self.view());
            lemma_same_places(before, self.view());
        }
        self.refresh(previous);
        proof {
            let now = self.view();
            lemma_hover_changes_two_blocks(before, now, previous, None, None);
            assert(self.blocks.deep_view() =~= projection::blocks_of(now));
        }
    }

    /// Shows other cells; nothing goes on below them, and nothing is hovered or expanded.
    pub fn replace_cells(&mut self, cells: Vec<ViewCell>)
        ensures
            final(self).wf(),
            final(self).view() == fresh_view(cells@, old(self).render_mode),
            final(self).live_tail_key is None,
            final(self).scroll == old(self).scroll,
    {
        self.cells = cells;
        self.reset_places();
        self.rebuild();
    }

    fn reset_places(&mut self)
        ensures
            final(self).view() == fresh_view(old(self).cells@, old(self).render_mode),
            final(self).live_tail_key is None,
            final(self).scroll == old(self).scroll,
    {
        self.live = LiveDisplay::Nothing;
        self.live_tail_key = None;
        self.accepting_content = false;
        self.hovered_tool_group = None;
        self.expanded_tool_group = None;
        self.hovered_file_change = None;
        self.expanded_file_change = None;
    }

    /// Shows the cells in another way.
    pub fn set_render_mode(&mut self, render_mode: HistoryRenderMode)
        requires
            old(self).wf(),
        ensures
            final(self).wf(),
            old(self).render_mode == render_mode ==> *final(self) == *old(self),
            old(self).render_mode != render_mode ==> final(self).view() == fresh_view(
                old(self).cells@,
                render_mode,
            ) && final(self).live_tail_key is None,
            final(self).scroll == old(self).scroll,
    {
        if self.render_mode == render_mode {
            return;
        }
        self.render_mode = render_mode;
        self.reset_places();
        self.rebuild();
    }

    /// Replaces the blocks of some cells, and the one below them.
    fn replace_blocks(&mut self, start: usize, old_end: usize, new_end: usize, Ghost(before):
        Ghost<ViewModel>)
        requires
            old(self).blocks.deep_view() == projection::blocks_of(before),
            start <= old_end <= before.cells.len(),
            start <= new_end <= old(self).cells@.len(),
            old(self).cells@.len() - new_end == before.cells.len() - old_end,
            projection::no_group_crosses(old(self).cells@, start as int),
            projection::no_group_crosses(old(self).cells@, new_end as int),
            forall|i: int|
                0 <= i < start ==> #[trigger] projection::block_at(before, i)
                    == projection::block_at(old(self).view(), i),
            forall|i: int|
                old_end <= i < before.cells.len() ==> #[trigger] projection::block_at(before, i)
                    == projection::block_at(old(self).view(), i + (new_end - old_end)),
        ensures
            final(self).blocks.deep_view() == projection::blocks_of(old(self).view()),
            final(self).same_but_blocks(*old(self)),
    {
        let ghost view = self.view();
        let ghost was = self.blocks@;
        let ghost models = self.blocks.deep_view();
        let mut more = self.render_cell_range(start, new_end);
        let ghost added = more@;
        let count: usize = self.cells.len() - new_end;
        assert(models.len() >= before.cells.len());
        let mut rest = self.blocks.split_off(old_end);
        rest.truncate(count);
        self.blocks.truncate(start);
        self.blocks.append(&mut more);
        self.blocks.append(&mut rest);
        proof {
            let now = self.blocks@;
            let shift = new_end - old_end;
            assert(now =~= was.take(start as int) + added + was.subrange(
                old_end as int,
                before.cells.len() as int,
            ));
            let cells = projection::cell_blocks(view);
            assert(self.blocks.deep_view().len() == cells.len());
            assert forall|i: int| 0 <= i < cells.len() implies (#[trigger] self.blocks.deep_view()[i])
                == cells[i] by {
                assert(self.blocks.deep_view()[i] == now[i].deep_view());
                if i < start {
                    assert(now[i] == was[i]);
                    assert(models[i] == was[i].deep_view());
                    assert(models[i] == projection::block_at(before, i));
                } else if i < new_end {
                    assert(now[i] == added[i - start]);
                } else {
                    assert(now[i] == was[i - shift]);
                    assert(models[i - shift] == was[i - shift].deep_view());
                    assert(models[i - shift] == projection::block_at(before, i - shift));
                }
            }
            assert(self.blocks.deep_view() =~= cells);
        }
        self.push_tail();
    }

    /// Adds a cell at the end.
    pub fn push_cell(&mut self, cell: ViewCell)
        requires
            old(self).wf(),
        ensures
            final(self).wf(),
            final(self).view() == projection::with_pushed(old(self).view(), cell),
            final(self).live_tail_key == old(self).live_tail_key,
            final(self).scroll == old(self).scroll,
    {
        let ghost before = self.view();
        let len: usize = self.cells.len();
        let start = self.first_of_run(len);
        self.cells.push(cell);
        let total: usize = self.cells.len();
        self.validate_places();
        proof {
            lemma_pushed(before, cell, start as int);
            projection::lemma_first(before.cells, len as int);
        }
        self.replace_blocks(start, len, total, Ghost(before));
    }

    /// Inserts cells. Gives the blocks that were replaced, for what is on the screen to stay.
    pub fn insert_cells(&mut self, index: usize, cells: Vec<ViewCell>) -> (r: Option<BlockSplice>)
        requires
            old(self).wf(),
        ensures
            final(self).wf(),
            final(self).view() == (if cells@.len() == 0 {
                old(self).view()
            } else {
                projection::with_inserted(
                    old(self).view(),
                    crate::geometry::min_of(index as int, old(self).cells@.len() as int),
                    cells@,
                )
            }),
            final(self).live_tail_key == old(self).live_tail_key,
            final(self).scroll == old(self).scroll,
            r is None <==> cells@.len() == 0,
            r matches Some(splice) ==> {
                &&& splice.added == splice.removed + cells@.len()
                &&& splice.start <= crate::geometry::min_of(
                    index as int,
                    old(self).cells@.len() as int,
                ) <= splice.start + splice.removed <= old(self).cells@.len()
                &&& forall|i: int|
                    0 <= i < splice.start ==> final(self).blocks.deep_view()[i] == (
                    #[trigger] old(self).blocks.deep_view()[i])
                &&& forall|i: int|
                    splice.start + splice.removed <= i < old(self).cells@.len() ==> final(self).blocks.deep_view()[i + cells@.len()] == (
                    #[trigger] old(self).blocks.deep_view()[i])
            },
    {
        if cells.len() == 0 {
            return None;
        }
        let ghost before = self.view();
        let ghost blocks = self.blocks.deep_view();
        let ghost more = cells@;
        let len: usize = self.cells.len();
        let index: usize = if index < len {
            index
        } else {
            len
        };
        let count: usize = cells.len();
        let start = self.first_of_run(index);
        let run_end = self.end_of_run(index);
        let old_end: usize = if index == 0 && run_end == 0 && len > 0 {
            1
        } else {
            run_end
        };
        let mut added = cells;
        let mut rest = self.cells.split_off(index);
        self.cells.append(&mut added);
        self.cells.append(&mut rest);
        let total: usize = self.cells.len();
        assert(self.cells@ =~= before.cells.take(index as int) + more + before.cells.skip(
            index as int,
        ));
        self.hovered_tool_group = shift_place(self.hovered_tool_group, index, count);
        self.expanded_tool_group = shift_place(self.expanded_tool_group, index, count);
        self.hovered_file_change = shift_place(self.hovered_file_change, index, count);
        self.expanded_file_change = shift_place(self.expanded_file_change, index, count);
        self.validate_places();
        proof {
            lemma_inserted(before, index as int, more, start as int, old_end as int);
            projection::lemma_first(before.cells, index as int);
            projection::lemma_end(before.cells, index as int);
        }
        self.replace_blocks(start, old_end, old_end + count, Ghost(before));
        proof {
            let now = self.view();
            assert(self.blocks.deep_view() == projection::blocks_of(now));
            assert forall|i: int| 0 <= i < start implies self.blocks.deep_view()[i] == (
            #[trigger] blocks[i]) by {
                assert(projection::block_at(before, i) == projection::block_at(now, i));
            }
            assert forall|i: int| old_end <= i < len implies self.blocks.deep_view()[i + count] == (
            #[trigger] blocks[i]) by {
                assert(projection::block_at(before, i) == projection::block_at(now, i + count));
            }
        }
        Some(BlockSplice { start, removed: old_end - start, added: old_end - start + count })
    }

    /// Shows what goes on below the cells. Nothing changes where the key and the state are those
    /// of before.
    pub fn sync_live_tail(
        &mut self,
        key: Option<LiveTailKey>,
        accepting_content: bool,
        live: LiveDisplay,
    )
        requires
            old(self).wf(),
        ensures
            final(self).wf(),
            old(self).live_tail_key == key && old(self).accepting_content == accepting_content
                ==> *final(self) == *old(self),
            old(self).live_tail_key != key || old(self).accepting_content != accepting_content ==> {
                &&& final(self).view() == with_live(
                    old(self).view(),
                    if key is Some {
                        live
                    } else {
                        LiveDisplay::Nothing
                    },
                    accepting_content,
                )
                &&& final(self).live_tail_key == key
            },
            final(self).scroll == old(self).scroll,
    {
        if same_key(self.live_tail_key, key) && self.accepting_content == accepting_content {
            return;
        }
        let ghost before = self.view();
        let len: usize = self.cells.len();
        let start = self.first_of_run(len);
        self.live_tail_key = key;
        self.live =
        if key.is_some() {
            live
        } else {
            LiveDisplay::Nothing
        };
        self.accepting_content = accepting_content;
        let ghost next = self.view();
        self.validate_places();
        proof {
            lemma_live(before, next, start as int);
            projection::lemma_first(before.cells, len as int);
        }
        self.replace_blocks(start, len, len, Ghost(before));
    }
}

proof fn lemma_same_length(v: ViewModel, w: ViewModel)
    requires
        v.cells == w.cells,
        v.mode == w.mode,
        v.live == w.live,
    ensures
        projection::blocks_of(v).len() == projection::blocks_of(w).len(),
{
}

/// Whether a place is valid does not depend on what is hovered or expanded.
proof fn lemma_same_places(v: ViewModel, w: ViewModel)
    requires
        v.cells == w.cells,
        v.mode == w.mode,
        v.live == w.live,
    ensures
        forall|place: Option<usize>|
            #![trigger projection::valid_group(w, place)]
            projection::valid_group(v, place) == projection::valid_group(w, place),
        forall|place: Option<usize>|
            #![trigger projection::valid_change(w, place)]
            projection::valid_change(v, place) == projection::valid_change(w, place),
        projection::synthetic_group(v) == projection::synthetic_group(w),
{
    assert forall|i: int| projection::group_at(v, i) == projection::group_at(w, i) by {}
}

/// Only the blocks of the places change where something else is hovered or expanded.
proof fn lemma_hover_changes_two_blocks(
    v: ViewModel,
    w: ViewModel,
    a: Option<usize>,
    b: Option<usize>,
    c: Option<usize>,
)
    requires
        v.cells == w.cells,
        v.mode == w.mode,
        v.live == w.live,
        v.accepting_content == w.accepting_content,
        forall|i: int|
            !projection::at(a, i) && !projection::at(b, i) && !projection::at(c, i) ==> {
                &&& #[trigger] projection::at(v.hovered_tool_group, i) == projection::at(
                    w.hovered_tool_group,
                    i,
                )
                &&& projection::at(v.expanded_tool_group, i) == projection::at(
                    w.expanded_tool_group,
                    i,
                )
                &&& projection::at(v.hovered_file_change, i) == projection::at(
                    w.hovered_file_change,
                    i,
                )
                &&& projection::at(v.expanded_file_change, i) == projection::at(
                    w.expanded_file_change,
                    i,
                )
            },
    ensures
        forall|i: int|
            0 <= i < projection::blocks_of(v).len() && !projection::at(a, i) && !projection::at(
                b,
                i,
            ) && !projection::at(c, i) ==> (#[trigger] projection::blocks_of(v)[i])
                == projection::blocks_of(w)[i],
        projection::blocks_of(v).len() == projection::blocks_of(w).len(),
{
    assert forall|i: int|
        0 <= i < projection::blocks_of(v).len() && !projection::at(a, i) && !projection::at(b, i)
            && !projection::at(c, i) implies (#[trigger] projection::blocks_of(v)[i])
        == projection::blocks_of(w)[i] by {
        assert(projection::at(v.hovered_tool_group, i) == projection::at(
            w.hovered_tool_group,
            i,
        ));
        if i < v.cells.len() {
            assert(projection::blocks_of(v)[i] == projection::block_at(v, i));
            assert(projection::blocks_of(w)[i] == projection::block_at(w, i));
            projection::lemma_first(v.cells, i);
        }
    }
}

proof fn lemma_group_hit_valid(view: ViewModel, hit: Option<BlockHit>)
    requires
        view.cells.len() <= usize::MAX,
    ensures
        projection::valid_group(view, group_hit(view, hit)) == group_hit(view, hit),
{
    if let Some(hit) = hit {
        projection::lemma_valid_again(view, Some(hit.index));
    }
}

proof fn lemma_change_place(
    v: ViewModel,
    w: ViewModel,
    place: Option<usize>,
    index: int,
    shift: int,
)
    requires
        projection::valid_change(v, place) == place,
        0 <= index <= v.cells.len(),
        w.cells.len() == v.cells.len() + shift,
        w.cells.len() <= usize::MAX,
        0 <= shift,
        forall|k: int| 0 <= k < index ==> w.cells[k] == #[trigger] v.cells[k],
        forall|k: int| index <= k < v.cells.len() ==> w.cells[k + shift] == #[trigger] v.cells[k],
    ensures
        projection::valid_change(w, projection::shifted(place, index, shift))
            == projection::shifted(place, index, shift),
{
    if let Some(i) = place {
        if i < index {
            assert(w.cells[i as int] == v.cells[i as int]);
        } else {
            assert(w.cells[i + shift] == v.cells[i as int]);
        }
    }
}

/// Inserted cells change only the blocks of the groups around them.
proof fn lemma_inserted(
    v: ViewModel,
    index: int,
    cells: Seq<ViewCell>,
    start: int,
    end: int,
)
    requires
        projection::places_valid(v),
        0 <= index <= v.cells.len(),
        cells.len() > 0,
        v.cells.len() + cells.len() <= usize::MAX,
        start == projection::run_first(v.cells, index),
        end == (if index == 0 && projection::run_end(v.cells, index) == 0 && v.cells.len() > 0 {
            1
        } else {
            projection::run_end(v.cells, index)
        }),
    ensures
        ({
            let w = projection::with_inserted(v, index, cells);
            &&& forall|i: int|
                0 <= i < start ==> #[trigger] projection::block_at(v, i) == projection::block_at(
                    w,
                    i,
                )
            &&& forall|i: int|
                end <= i < v.cells.len() ==> #[trigger] projection::block_at(v, i)
                    == projection::block_at(w, i + cells.len())
            &&& projection::no_group_crosses(w.cells, start)
            &&& projection::no_group_crosses(w.cells, end + cells.len())
        }),
        0 <= start <= index <= end <= v.cells.len(),
{
    let w = projection::with_inserted(v, index, cells);
    let n = cells.len() as int;
    projection::lemma_first(v.cells, index);
    projection::lemma_end(v.cells, index);
    assert forall|k: int| 0 <= k < index implies w.cells[k] == #[trigger] v.cells[k] by {}
    assert forall|k: int| index <= k < v.cells.len() implies w.cells[k + n]
        == #[trigger] v.cells[k] by {}
    let moved = ViewModel { cells: w.cells, ..v };
    lemma_places_of(moved, w);
    projection::lemma_place_inserted(v, w, v.hovered_tool_group, start, end, index, n);
    projection::lemma_place_inserted(v, w, v.expanded_tool_group, start, end, index, n);
    lemma_change_place(v, w, v.hovered_file_change, index, n);
    lemma_change_place(v, w, v.expanded_file_change, index, n);
    lemma_valid_places_of(v, index, cells);
    if start > 0 {
        assert(w.cells[start - 1] == v.cells[start - 1]);
    }
    if end < v.cells.len() {
        assert(w.cells[end + n] == v.cells[end]);
        if end == 1 && index == 0 {
            assert(w.cells[n] == v.cells[0]);
        }
    }
    assert forall|i: int| 0 <= i < start implies #[trigger] projection::block_at(v, i)
        == projection::block_at(w, i) by {
        if projection::is_tool(v.cells, i) {
            assert(projection::at(v.hovered_tool_group, projection::run_first(v.cells, i))
                == projection::at(w.hovered_tool_group, projection::run_first(v.cells, i)));
            assert(projection::at(v.expanded_tool_group, projection::run_first(v.cells, i))
                == projection::at(w.expanded_tool_group, projection::run_first(v.cells, i)));
        }
        projection::lemma_blocks_before(v, w, start, i);
    }
    assert forall|i: int| end <= i < v.cells.len() implies #[trigger] projection::block_at(v, i)
        == projection::block_at(w, i + n) by {
        if projection::is_tool(v.cells, i) {
            assert(projection::at(v.hovered_tool_group, projection::run_first(v.cells, i))
                == projection::at(w.hovered_tool_group, projection::run_first(v.cells, i) + n));
            assert(projection::at(v.expanded_tool_group, projection::run_first(v.cells, i))
                == projection::at(w.expanded_tool_group, projection::run_first(v.cells, i) + n));
        }
        projection::lemma_blocks_behind(v, w, end, n, i);
    }
}

/// Whether a place is valid depends only on the cells, the mode and the tool that runs.
proof fn lemma_places_of(v: ViewModel, w: ViewModel)
    requires
        v.cells == w.cells,
        v.mode == w.mode,
        v.live == w.live,
    ensures
        forall|place: Option<usize>|
            #![trigger projection::valid_group(w, place)]
            projection::valid_group(v, place) == projection::valid_group(w, place),
{
    lemma_same_places(v, w);
}

proof fn lemma_valid_places_of(v: ViewModel, index: int, cells: Seq<ViewCell>)
    ensures
        ({
            let w = projection::with_inserted(v, index, cells);
            let n = cells.len() as int;
            &&& w.hovered_tool_group == projection::valid_group(
                w,
                projection::shifted(v.hovered_tool_group, index, n),
            )
            &&& w.expanded_tool_group == projection::valid_group(
                w,
                projection::shifted(v.expanded_tool_group, index, n),
            )
            &&& w.hovered_file_change == projection::valid_change(
                w,
                projection::shifted(v.hovered_file_change, index, n),
            )
            &&& w.expanded_file_change == projection::valid_change(
                w,
                projection::shifted(v.expanded_file_change, index, n),
            )
        }),
{
    let w = projection::with_inserted(v, index, cells);
    let n = cells.len() as int;
    let moved = ViewModel {
        cells: v.cells.take(index) + cells + v.cells.skip(index),
        hovered_tool_group: projection::shifted(v.hovered_tool_group, index, n),
        expanded_tool_group: projection::shifted(v.expanded_tool_group, index, n),
        hovered_file_change: projection::shifted(v.hovered_file_change, index, n),
        expanded_file_change: projection::shifted(v.expanded_file_change, index, n),
        ..v
    };
    lemma_same_places(moved, w);
}

/// What becomes of the place of a group in front of the cells that change at the end.
proof fn lemma_place_kept(v: ViewModel, w: ViewModel, place: Option<usize>, start: int)
    requires
        v.mode == w.mode,
        projection::valid_group(v, place) == place,
        v.cells.len() <= w.cells.len() <= usize::MAX,
        forall|k: int| 0 <= k < v.cells.len() ==> w.cells[k] == #[trigger] v.cells[k],
        start == projection::run_first(v.cells, v.cells.len() as int),
    ensures
        forall|i: int|
            0 <= i < start && projection::is_tool(v.cells, i) ==> #[trigger] projection::at(
                place,
                projection::run_first(v.cells, i),
            ) == projection::at(
                projection::valid_group(w, place),
                projection::run_first(v.cells, i),
            ),
{
    projection::lemma_first(v.cells, v.cells.len() as int);
    if place is Some {
        let s = place->0 as int;
        let now = projection::valid_group(w, place);
        projection::lemma_valid(v, place);
        if start > 0 {
            assert(!projection::is_tool(v.cells, start - 1));
            assert(w.cells[start - 1] == v.cells[start - 1]);
        }
        projection::lemma_first(w.cells, s);
        if s < start {
            projection::lemma_end(v.cells, s);
            let e = projection::run_end(v.cells, s);
            if e >= start {
                assert(projection::is_tool(v.cells, start - 1));
            }
            assert forall|k: int| s <= k < e implies #[trigger] projection::is_tool(
                w.cells,
                k,
            ) by {
                assert(projection::is_tool(v.cells, k));
                assert(w.cells[k] == v.cells[k]);
            }
            assert(w.cells[e] == v.cells[e]);
            if s > 0 {
                assert(w.cells[s - 1] == v.cells[s - 1]);
                projection::lemma_first(v.cells, s);
            }
            projection::lemma_first_unique(w.cells, s, s);
            projection::lemma_end_unique(w.cells, s, e);
            projection::lemma_merged_shift(v.cells, w.cells, s, e, 0);
            assert(now == Some(s as usize));
        } else if now is Some {
            if (now->0 as int) < start {
                assert(projection::is_tool(w.cells, start - 1));
            }
        }
        assert forall|i: int| 0 <= i < start && projection::is_tool(v.cells, i) implies
        #[trigger] projection::at(place, projection::run_first(v.cells, i)) == projection::at(
            now,
            projection::run_first(v.cells, i),
        ) by {
            projection::lemma_first(v.cells, i);
        }
    }
}

/// A cell at the end changes only the blocks of the group at the end.
proof fn lemma_pushed(v: ViewModel, cell: ViewCell, start: int)
    requires
        projection::places_valid(v),
        v.cells.len() + 1 <= usize::MAX,
        start == projection::run_first(v.cells, v.cells.len() as int),
    ensures
        ({
            let w = projection::with_pushed(v, cell);
            &&& forall|i: int|
                0 <= i < start ==> #[trigger] projection::block_at(v, i) == projection::block_at(
                    w,
                    i,
                )
            &&& projection::no_group_crosses(w.cells, start)
            &&& projection::no_group_crosses(w.cells, w.cells.len() as int)
        }),
{
    let w = projection::with_pushed(v, cell);
    let pushed = ViewModel { cells: v.cells.push(cell), ..v };
    lemma_same_places(pushed, w);
    lemma_kept_blocks(v, w, start);
}

/// Something else going on below the cells changes only the blocks of the group at the end.
proof fn lemma_live(v: ViewModel, next: ViewModel, start: int)
    requires
        projection::places_valid(v),
        v.cells.len() <= usize::MAX,
        next == (ViewModel { live: next.live, accepting_content: next.accepting_content, ..v }),
        start == projection::run_first(v.cells, v.cells.len() as int),
    ensures
        ({
            let w = projection::with_valid_places(next);
            &&& forall|i: int|
                0 <= i < start ==> #[trigger] projection::block_at(v, i) == projection::block_at(
                    w,
                    i,
                )
            &&& projection::no_group_crosses(w.cells, start)
            &&& projection::no_group_crosses(w.cells, w.cells.len() as int)
        }),
{
    let w = projection::with_valid_places(next);
    lemma_same_places(next, w);
    lemma_kept_blocks(v, w, start);
}

proof fn lemma_kept_blocks(v: ViewModel, w: ViewModel, start: int)
    requires
        projection::places_valid(v),
        v.mode == w.mode,
        v.cells.len() <= w.cells.len() <= usize::MAX,
        forall|k: int| 0 <= k < v.cells.len() ==> w.cells[k] == #[trigger] v.cells[k],
        start == projection::run_first(v.cells, v.cells.len() as int),
        w.hovered_tool_group == projection::valid_group(w, v.hovered_tool_group),
        w.expanded_tool_group == projection::valid_group(w, v.expanded_tool_group),
        w.hovered_file_change == projection::valid_change(w, v.hovered_file_change),
        w.expanded_file_change == projection::valid_change(w, v.expanded_file_change),
    ensures
        forall|i: int|
            0 <= i < start ==> #[trigger] projection::block_at(v, i) == projection::block_at(w, i),
        projection::no_group_crosses(w.cells, start),
        projection::no_group_crosses(w.cells, w.cells.len() as int),
{
    projection::lemma_first(v.cells, v.cells.len() as int);
    lemma_place_kept(v, w, v.hovered_tool_group, start);
    lemma_place_kept(v, w, v.expanded_tool_group, start);
    if v.hovered_file_change is Some {
        let i = v.hovered_file_change->0 as int;
        assert(w.cells[i] == v.cells[i]);
    }
    if v.expanded_file_change is Some {
        let i = v.expanded_file_change->0 as int;
        assert(w.cells[i] == v.cells[i]);
    }
    if start > 0 {
        assert(w.cells[start - 1] == v.cells[start - 1]);
    }
    assert forall|i: int| 0 <= i < start implies #[trigger] projection::block_at(v, i)
        == projection::block_at(w, i) by {
        if projection::is_tool(v.cells, i) {
            assert(projection::at(v.hovered_tool_group, projection::run_first(v.cells, i))
                == projection::at(w.hovered_tool_group, projection::run_first(v.cells, i)));
            assert(projection::at(v.expanded_tool_group, projection::run_first(v.cells, i))
                == projection::at(w.expanded_tool_group, projection::run_first(v.cells, i)));
        }
        projection::lemma_blocks_before(v, w, start, i);
    }
}

/// A second click on a group that the first one expanded collapses it again.
pub proof fn second_click_collapses(
    view: ViewModel,
    hit: Option<BlockHit>,
    lines: Option<(int, int)>,
)
    requires
        view.cells.len() <= usize::MAX,
        group_hit(view, hit) is Some,
        view.expanded_tool_group is None,
    ensures
        after_click(view, hit, lines).expanded_tool_group == group_hit(view, hit),
        after_click(after_click(view, hit, lines), hit, lines) == (ViewModel {
            hovered_tool_group: None,
            ..view
        }),
{
    let next = after_click(view, hit, lines);
    lemma_same_places(view, next);
    let place = hit->0.index;
    assert(projection::group_at(view, place as int) == projection::group_at(next, place as int));
    projection::lemma_first(view.cells, place as int);
}

/// A conversation to which cells were added one after the other is shown like one that had them
/// from the beginning.
pub proof fn pushed_cells_are_shown_alike(
    cells: Seq<ViewCell>,
    mode: HistoryRenderMode,
    cell: ViewCell,
)
    ensures
        projection::with_pushed(fresh_view(cells, mode), cell) == fresh_view(
            cells.push(cell),
            mode,
        ),
        projection::with_inserted(fresh_view(cells, mode), cells.len() as int, seq![cell])
            == fresh_view(cells.push(cell), mode),
{
    assert(cells.take(cells.len() as int) + seq![cell] + cells.skip(cells.len() as int)
        =~= cells.push(cell));
}

/// In raw mode every cell is shown on its own.
pub proof fn raw_mode_shows_every_cell(view: ViewModel, i: int)
    requires
        view.mode == HistoryRenderMode::Raw,
        0 <= i < view.cells.len(),
    ensures
        projection::blocks_of(view)[i] == projection::cell_block(view, i),
{
}

/// Every cell is shown exactly once: on its own, or by the group that it belongs to.
pub proof fn every_cell_is_shown(view: ViewModel, i: int)
    requires
        0 <= i < view.cells.len(),
    ensures
        match projection::blocks_of(view)[i] {
            BlockModel::Cell { id, .. } => id == view.cells[i].id,
            BlockModel::Group { ids, .. } => {
                &&& ids.len() > 0
                &&& ids[0] == view.cells[i].id
            },
            BlockModel::Grouped => {
                let first = projection::run_first(view.cells, i);
                &&& 0 <= first < i
                &&& match projection::blocks_of(view)[first] {
                    BlockModel::Group { ids, .. } => i - first < ids.len() && ids[i - first]
                        == view.cells[i].id,
                    _ => false,
                }
            },
            BlockModel::LiveTail { .. } => false,
        },
{
    projection::lemma_first(view.cells, i);
    projection::lemma_end(view.cells, i);
    let first = projection::run_first(view.cells, i);
    if projection::is_tool(view.cells, i) {
        projection::lemma_same_run(view.cells, i, first);
        assert(projection::blocks_of(view)[first] == projection::block_at(view, first));
    }
    assert(projection::blocks_of(view)[i] == projection::block_at(view, i));
}

/// A click on the heading of a file change expands it, or collapses it where it is expanded; the
/// group of tools that is expanded stays as it is.
pub proof fn clicks_on_headings_toggle_the_change(
    view: ViewModel,
    hit: BlockHit,
    line_count: int,
    heading_rows: int,
)
    requires
        hit.index < view.cells.len(),
        view.cells[hit.index as int].is_file_change,
        view.cells[hit.index as int].activity is None,
        view.cells.len() <= usize::MAX,
        ({
            let padding = if hit.index > 0 && !view.cells[hit.index as int].is_stream_continuation {
                1int
            } else {
                0
            };
            padding <= hit.row < padding + heading_rows
        }),
    ensures
        ({
            let once = after_click(view, Some(hit), Some((line_count, heading_rows)));
            let twice = after_click(once, Some(hit), Some((line_count, heading_rows)));
            &&& once.expanded_file_change == (if view.expanded_file_change == Some(hit.index) {
                None
            } else {
                Some(hit.index)
            })
            &&& once.expanded_tool_group == view.expanded_tool_group
            &&& once.cells == view.cells
            &&& view.expanded_file_change is None ==> twice == view
            &&& clicked_change(view, Some(hit), Some((line_count, heading_rows))) == Some(hit.index)
        }),
{
}

/// A click or a move that hits neither a group nor a file change expands and collapses nothing, and
/// a move never does.
pub proof fn other_places_do_nothing(
    view: ViewModel,
    hit: Option<BlockHit>,
    lines: Option<(int, int)>,
)
    ensures
        hit is None ==> after_click(view, hit, lines) == view,
        hit is None ==> after_move(view, hit, lines).hovered_tool_group is None && after_move(
            view,
            hit,
            lines,
        ).hovered_file_change is None,
        after_move(view, hit, lines).expanded_tool_group == view.expanded_tool_group,
        after_move(view, hit, lines).expanded_file_change == view.expanded_file_change,
        after_move(view, hit, lines).cells == view.cells,
        view.mode == HistoryRenderMode::Raw ==> after_move(view, hit, lines).hovered_tool_group
            is None,
        after_move(view, hit, lines).hovered_tool_group is Some ==> after_move(
            view,
            hit,
            lines,
        ).hovered_file_change is None,
        view.mode == HistoryRenderMode::Rich && clicked_change(view, hit, lines) is Some
            ==> after_move(view, hit, lines).hovered_file_change == clicked_change(
            view,
            hit,
            lines,
        ),
{
}

} // verus!
