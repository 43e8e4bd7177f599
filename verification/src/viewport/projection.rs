//! Which blocks the cells of a conversation are shown as.

use crate::viewport::tool_groups::{self, no_activity, ToolActivity};
use vstd::prelude::*;

verus! {

/// How few calls make up a group of tools.
pub const MIN_GROUPED_TOOL_CALLS: usize = 1;

/// What decides how a cell of the conversation is shown.
#[derive(Clone, Copy, Debug, PartialEq, Eq, Structural)]
pub struct ViewCell {
    pub id: u64,
    /// What the tools of the cell did; nothing where it is no cell of tools.
    pub activity: Option<ToolActivity>,
    /// Whether the cell goes on with the one before.
    pub is_stream_continuation: bool,
    pub is_file_change: bool,
}

/// How cells are shown.
#[derive(Clone, Copy, Debug, PartialEq, Eq, Structural)]
pub enum HistoryRenderMode {
    Rich,
    Raw,
}

/// A tool that runs and has no cell yet.
#[derive(Clone, Copy, Debug, PartialEq, Eq, Structural)]
pub struct LiveTool {
    pub activity: ToolActivity,
    pub is_stream_continuation: bool,
}

/// What goes on below the cells.
#[derive(Clone, Copy, Debug, PartialEq, Eq, Structural)]
pub enum LiveDisplay {
    Nothing,
    Lines { is_stream_continuation: bool },
    Tool(LiveTool),
}

/// A piece of the shown conversation.
#[derive(Debug)]
pub enum ViewBlock {
    /// A cell. `spaced` says whether an empty row stands above it; the other two count for a file
    /// change.
    Cell { id: u64, spaced: bool, hovered: bool, expanded: bool },
    /// A group of tools.
    Group {
        ids: Vec<u64>,
        live: bool,
        activity: ToolActivity,
        active: bool,
        hovered: bool,
        expanded: bool,
        top_padding: u16,
    },
    /// A cell that the group above shows.
    Grouped,
    /// What goes on below the cells.
    LiveTail { spaced: bool },
}

/// The model of a piece of the shown conversation.
pub ghost enum BlockModel {
    Cell { id: u64, spaced: bool, hovered: bool, expanded: bool },
    Group {
        ids: Seq<u64>,
        live: bool,
        activity: ToolActivity,
        active: bool,
        hovered: bool,
        expanded: bool,
        top_padding: u16,
    },
    Grouped,
    LiveTail { spaced: bool },
}

impl DeepView for ViewBlock {
    type V = BlockModel;

    open spec fn deep_view(&self) -> Self::V {
        match *self {
            ViewBlock::Cell { id, spaced, hovered, expanded } => BlockModel::Cell {
                id,
                spaced,
                hovered,
                expanded,
            },
            ViewBlock::Group { ids, live, activity, active, hovered, expanded, top_padding } =>
            BlockModel::Group {
                ids: ids@,
                live,
                activity,
                active,
                hovered,
                expanded,
                top_padding,
            },
            ViewBlock::Grouped => BlockModel::Grouped,
            ViewBlock::LiveTail { spaced } => BlockModel::LiveTail { spaced },
        }
    }
}

/// Everything that decides which blocks are shown.
pub ghost struct ViewModel {
    pub cells: Seq<ViewCell>,
    pub mode: HistoryRenderMode,
    pub live: LiveDisplay,
    /// Whether more may be added to the group at the end.
    pub accepting_content: bool,
    pub hovered_tool_group: Option<usize>,
    pub expanded_tool_group: Option<usize>,
    pub hovered_file_change: Option<usize>,
    pub expanded_file_change: Option<usize>,
}

/// Whether a cell is one of tools.
pub open spec fn is_tool(cells: Seq<ViewCell>, i: int) -> bool {
    0 <= i < cells.len() && cells[i].activity is Some
}

/// The first cell of the tools that reach up to a place.
pub open spec fn run_first(cells: Seq<ViewCell>, i: int) -> int
    decreases i,
{
    if i > 0 && is_tool(cells, i - 1) {
        run_first(cells, i - 1)
    } else {
        i
    }
}

/// The end of the tools that begin at a place.
pub open spec fn run_end(cells: Seq<ViewCell>, i: int) -> int
    decreases cells.len() - i,
{
    if is_tool(cells, i) {
        run_end(cells, i + 1)
    } else {
        i
    }
}

/// What the tools of some cells did together.
pub open spec fn merged(cells: Seq<ViewCell>, first: int, end: int) -> ToolActivity
    decreases end - first,
{
    if end <= first {
        no_activity()
    } else {
        tool_groups::together(
            merged(cells, first, end - 1),
            match cells[end - 1].activity {
                Some(activity) => activity,
                None => no_activity(),
            },
        )
    }
}

/// The tool that runs, where it belongs to the group that ends at a place.
pub open spec fn live_tool_at(view: ViewModel, end: int) -> Option<LiveTool> {
    match view.live {
        LiveDisplay::Tool(tool) if end == view.cells.len() => Some(tool),
        _ => None,
    }
}

/// What a group of tools did, with the tool that runs where it belongs to the group.
pub open spec fn group_activity(view: ViewModel, first: int, end: int) -> ToolActivity {
    match live_tool_at(view, end) {
        Some(tool) => tool_groups::together(merged(view.cells, first, end), tool.activity),
        None => merged(view.cells, first, end),
    }
}

/// The ids of some cells.
pub open spec fn ids_of(cells: Seq<ViewCell>, first: int, end: int) -> Seq<u64> {
    Seq::new(
        if end < first {
            0
        } else {
            (end - first) as nat
        },
        |k: int| cells[first + k].id,
    )
}

/// Whether a place is the given one.
pub open spec fn at(place: Option<usize>, i: int) -> bool {
    match place {
        Some(place) => place == i,
        None => false,
    }
}

/// A cell shown on its own.
pub open spec fn cell_block(view: ViewModel, i: int) -> BlockModel {
    BlockModel::Cell {
        id: view.cells[i].id,
        spaced: i > 0 && !view.cells[i].is_stream_continuation,
        hovered: at(view.hovered_file_change, i),
        expanded: at(view.expanded_file_change, i),
    }
}

/// The number of empty rows above a group that begins with a cell.
pub open spec fn top_padding_of(cells: Seq<ViewCell>, first: int) -> u16 {
    if first > 0 && !cells[first].is_stream_continuation {
        1
    } else {
        0
    }
}

/// A group of the cells from the first one up to the end.
pub open spec fn group_block(view: ViewModel, first: int, end: int) -> BlockModel {
    BlockModel::Group {
        ids: ids_of(view.cells, first, end),
        live: live_tool_at(view, end) is Some,
        activity: group_activity(view, first, end),
        active: end == view.cells.len() && view.accepting_content,
        hovered: at(view.hovered_tool_group, first),
        expanded: at(view.expanded_tool_group, first),
        top_padding: top_padding_of(view.cells, first),
    }
}

/// The block of a cell. Adjacent cells of tools are one group, which stands in the place of the
/// first one.
pub open spec fn block_at(view: ViewModel, i: int) -> BlockModel {
    if view.mode == HistoryRenderMode::Rich && is_tool(view.cells, i) {
        let first = run_first(view.cells, i);
        let end = run_end(view.cells, i);
        if group_activity(view, first, end).call_count < MIN_GROUPED_TOOL_CALLS {
            cell_block(view, i)
        } else if i == first {
            group_block(view, first, end)
        } else {
            BlockModel::Grouped
        }
    } else {
        cell_block(view, i)
    }
}

/// Whether the last cell is one of tools that are shown in a group.
pub open spec fn trailing_group(view: ViewModel) -> bool {
    view.mode == HistoryRenderMode::Rich && is_tool(view.cells, view.cells.len() - 1)
}

/// The place of the group that stands for a tool that runs, where no group of cells shows it.
pub open spec fn synthetic_group(view: ViewModel) -> Option<usize> {
    if view.mode == HistoryRenderMode::Rich && view.live is Tool && !trailing_group(view) {
        Some(view.cells.len() as usize)
    } else {
        None
    }
}

/// Whether an empty row stands between the cells and what goes on below them.
pub open spec fn tail_spaced(view: ViewModel, is_stream_continuation: bool) -> bool {
    view.cells.len() > 0 && !is_stream_continuation
}

/// The blocks below those of the cells.
pub open spec fn tail_blocks(view: ViewModel) -> Seq<BlockModel> {
    match view.live {
        LiveDisplay::Nothing => Seq::empty(),
        LiveDisplay::Lines { is_stream_continuation } => seq![
            BlockModel::LiveTail { spaced: tail_spaced(view, is_stream_continuation) },
        ],
        LiveDisplay::Tool(tool) => if view.mode == HistoryRenderMode::Raw {
            seq![BlockModel::LiveTail { spaced: tail_spaced(view, tool.is_stream_continuation) }]
        } else if trailing_group(view) {
            Seq::empty()
        } else {
            seq![
                BlockModel::Group {
                    ids: Seq::empty(),
                    live: true,
                    activity: tool.activity,
                    active: view.accepting_content,
                    hovered: at(view.hovered_tool_group, view.cells.len() as int),
                    expanded: at(view.expanded_tool_group, view.cells.len() as int),
                    top_padding: if tail_spaced(view, tool.is_stream_continuation) {
                        1
                    } else {
                        0
                    },
                },
            ]
        },
    }
}

/// The blocks of the cells.
pub open spec fn cell_blocks(view: ViewModel) -> Seq<BlockModel> {
    Seq::new(view.cells.len(), |i: int| block_at(view, i))
}

/// The blocks of a conversation.
pub open spec fn blocks_of(view: ViewModel) -> Seq<BlockModel> {
    cell_blocks(view) + tail_blocks(view)
}

/// The group that a cell belongs to.
pub open spec fn group_at(view: ViewModel, i: int) -> Option<(int, int)> {
    if view.mode == HistoryRenderMode::Rich && is_tool(view.cells, i) {
        let first = run_first(view.cells, i);
        let end = run_end(view.cells, i);
        if merged(view.cells, first, end).call_count >= MIN_GROUPED_TOOL_CALLS {
            Some((first, end))
        } else {
            None
        }
    } else {
        None
    }
}

/// A place of a group as the beginning of the group that is there now.
pub open spec fn valid_group(view: ViewModel, place: Option<usize>) -> Option<usize> {
    match place {
        None => None,
        Some(i) => if synthetic_group(view) == Some(i) {
            Some(i)
        } else {
            match group_at(view, i as int) {
                Some((first, _)) => Some(first as usize),
                None => None,
            }
        },
    }
}

/// A place of a file change, where there is one.
pub open spec fn valid_change(view: ViewModel, place: Option<usize>) -> Option<usize> {
    match place {
        Some(i) if i < view.cells.len() && view.cells[i as int].is_file_change => Some(i),
        _ => None,
    }
}

/// Whether the places that are hovered and expanded are those of groups and file changes.
pub open spec fn places_valid(view: ViewModel) -> bool {
    &&& valid_group(view, view.hovered_tool_group) == view.hovered_tool_group
    &&& valid_group(view, view.expanded_tool_group) == view.expanded_tool_group
    &&& valid_change(view, view.hovered_file_change) == view.hovered_file_change
    &&& valid_change(view, view.expanded_file_change) == view.expanded_file_change
}

/// A place after some cells were inserted.
pub open spec fn shifted(place: Option<usize>, index: int, count: int) -> Option<usize> {
    match place {
        Some(i) if i >= index => Some(
            if i + count > usize::MAX {
                usize::MAX
            } else {
                (i + count) as usize
            },
        ),
        _ => place,
    }
}

/// The conversation with other places.
pub open spec fn with_valid_places(view: ViewModel) -> ViewModel {
    ViewModel {
        hovered_tool_group: valid_group(view, view.hovered_tool_group),
        expanded_tool_group: valid_group(view, view.expanded_tool_group),
        hovered_file_change: valid_change(view, view.hovered_file_change),
        expanded_file_change: valid_change(view, view.expanded_file_change),
        ..view
    }
}

/// The conversation after cells were inserted.
pub open spec fn with_inserted(view: ViewModel, index: int, cells: Seq<ViewCell>) -> ViewModel {
    let count = cells.len() as int;
    with_valid_places(
        ViewModel {
            cells: view.cells.take(index) + cells + view.cells.skip(index),
            hovered_tool_group: shifted(view.hovered_tool_group, index, count),
            expanded_tool_group: shifted(view.expanded_tool_group, index, count),
            hovered_file_change: shifted(view.hovered_file_change, index, count),
            expanded_file_change: shifted(view.expanded_file_change, index, count),
            ..view
        },
    )
}

/// The conversation after a cell was added at its end.
pub open spec fn with_pushed(view: ViewModel, cell: ViewCell) -> ViewModel {
    with_valid_places(ViewModel { cells: view.cells.push(cell), ..view })
}

pub proof fn lemma_first(cells: Seq<ViewCell>, i: int)
    requires
        0 <= i,
    ensures
        0 <= run_first(cells, i) <= i,
        forall|k: int| run_first(cells, i) <= k < i ==> #[trigger] is_tool(cells, k),
        run_first(cells, i) == 0 || !is_tool(cells, run_first(cells, i) - 1),
    decreases i,
{
    if i > 0 && is_tool(cells, i - 1) {
        lemma_first(cells, i - 1);
    }
}

pub proof fn lemma_end(cells: Seq<ViewCell>, i: int)
    requires
        0 <= i <= cells.len(),
    ensures
        i <= run_end(cells, i) <= cells.len(),
        forall|k: int| i <= k < run_end(cells, i) ==> #[trigger] is_tool(cells, k),
        !is_tool(cells, run_end(cells, i)),
    decreases cells.len() - i,
{
    if is_tool(cells, i) {
        lemma_end(cells, i + 1);
    }
}

pub proof fn lemma_first_unique(cells: Seq<ViewCell>, i: int, first: int)
    requires
        0 <= first <= i,
        forall|k: int| first <= k < i ==> #[trigger] is_tool(cells, k),
        first == 0 || !is_tool(cells, first - 1),
    ensures
        run_first(cells, i) == first,
    decreases i - first,
{
    if i > first {
        assert(is_tool(cells, i - 1));
        lemma_first_unique(cells, i - 1, first);
    }
}

pub proof fn lemma_end_unique(cells: Seq<ViewCell>, i: int, end: int)
    requires
        0 <= i <= end <= cells.len(),
        forall|k: int| i <= k < end ==> #[trigger] is_tool(cells, k),
        !is_tool(cells, end),
    ensures
        run_end(cells, i) == end,
    decreases end - i,
{
    if i < end {
        assert(is_tool(cells, i));
        lemma_end_unique(cells, i + 1, end);
    }
}

pub proof fn lemma_merged_shift(
    a: Seq<ViewCell>,
    b: Seq<ViewCell>,
    first: int,
    end: int,
    shift: int,
)
    requires
        forall|k: int| first <= k < end ==> b[k + shift] == #[trigger] a[k],
    ensures
        merged(a, first, end) == merged(b, first + shift, end + shift),
    decreases end - first,
{
    if first < end {
        lemma_merged_shift(a, b, first, end - 1, shift);
        assert(b[end - 1 + shift] == a[end - 1]);
    }
}

/// Two conversations show a cell by the same block where the tools around the cell, and what is
/// hovered and expanded there, are the same.
pub proof fn lemma_block_shift(v: ViewModel, w: ViewModel, i: int, shift: int, first: int, end: int)
    requires
        v.mode == w.mode,
        v.live == w.live && v.accepting_content == w.accepting_content || end < v.cells.len()
            && end + shift < w.cells.len(),
        0 <= i < v.cells.len(),
        0 <= first <= i < end <= v.cells.len(),
        0 <= first + shift,
        end + shift <= w.cells.len(),
        forall|k: int| first <= k < end ==> w.cells[k + shift] == #[trigger] v.cells[k],
        first == 0 <==> first + shift == 0,
        i == 0 <==> i + shift == 0,
        at(v.hovered_file_change, i) == at(w.hovered_file_change, i + shift),
        at(v.expanded_file_change, i) == at(w.expanded_file_change, i + shift),
        is_tool(v.cells, i) ==> {
            &&& first == run_first(v.cells, i)
            &&& end == run_end(v.cells, i)
            &&& first + shift == 0 || !is_tool(w.cells, first + shift - 1)
            &&& !is_tool(w.cells, end + shift)
            &&& end == v.cells.len() <==> end + shift == w.cells.len()
            &&& at(v.hovered_tool_group, first) == at(w.hovered_tool_group, first + shift)
            &&& at(v.expanded_tool_group, first) == at(w.expanded_tool_group, first + shift)
        },
    ensures
        block_at(v, i) == block_at(w, i + shift),
{
    assert(w.cells[i + shift] == v.cells[i]);
    assert(w.cells[first + shift] == v.cells[first]);
    assert(is_tool(v.cells, i) == is_tool(w.cells, i + shift));
    if is_tool(v.cells, i) {
        lemma_first(v.cells, i);
        lemma_end(v.cells, i);
        assert forall|k: int| first <= k < end implies is_tool(v.cells, k) by {}
        assert forall|k: int| first + shift <= k < end + shift implies #[trigger] is_tool(
            w.cells,
            k,
        ) by {
            assert(is_tool(v.cells, k - shift));
            assert(w.cells[k - shift + shift] == v.cells[k - shift]);
        }
        lemma_first_unique(w.cells, i + shift, first + shift);
        lemma_end_unique(w.cells, i + shift, end + shift);
        lemma_merged_shift(v.cells, w.cells, first, end, shift);
        assert(ids_of(v.cells, first, end) =~= ids_of(w.cells, first + shift, end + shift)) by {
            assert forall|k: int| 0 <= k < end - first implies #[trigger] v.cells[first + k].id
                == w.cells[first + shift + k].id by {
                assert(w.cells[first + k + shift] == v.cells[first + k]);
            }
        }
    }
}

/// The last block of a run of tools is known from its first one.
pub proof fn lemma_same_run(cells: Seq<ViewCell>, i: int, k: int)
    requires
        is_tool(cells, i),
        run_first(cells, i) <= k < run_end(cells, i),
    ensures
        is_tool(cells, k),
        run_first(cells, k) == run_first(cells, i),
        run_end(cells, k) == run_end(cells, i),
{
    lemma_first(cells, i);
    lemma_end(cells, i);
    let first = run_first(cells, i);
    let end = run_end(cells, i);
    assert forall|j: int| first <= j < end implies #[trigger] is_tool(cells, j) by {}
    lemma_first_unique(cells, k, first);
    lemma_end_unique(cells, k, end);
}

/// What is known of a place that is valid.
pub proof fn lemma_valid(view: ViewModel, place: Option<usize>)
    requires
        valid_group(view, place) == place,
        place is Some,
        view.cells.len() <= usize::MAX,
    ensures
        place->0 <= view.cells.len(),
        place->0 < view.cells.len() ==> {
            &&& view.mode == HistoryRenderMode::Rich
            &&& is_tool(view.cells, place->0 as int)
            &&& run_first(view.cells, place->0 as int) == place->0
            &&& merged(
                view.cells,
                place->0 as int,
                run_end(view.cells, place->0 as int),
            ).call_count >= MIN_GROUPED_TOOL_CALLS
        },
        place->0 == view.cells.len() ==> synthetic_group(view) == place,
{
    let i = place->0;
    if synthetic_group(view) != Some(i) {
        lemma_first(view.cells, i as int);
    }
}

/// A place that was made valid stays valid.
pub proof fn lemma_valid_again(view: ViewModel, place: Option<usize>)
    requires
        view.cells.len() <= usize::MAX,
    ensures
        valid_group(view, valid_group(view, place)) == valid_group(view, place),
{
    match place {
        None => {},
        Some(i) => {
            if synthetic_group(view) != Some(i) && group_at(view, i as int) is Some {
                let first = run_first(view.cells, i as int);
                lemma_first(view.cells, i as int);
                lemma_end(view.cells, i as int);
                lemma_same_run(view.cells, i as int, first);
            }
        },
    }
}

/// The call count of a group does not shrink when cells are added to it.
pub proof fn lemma_merged_part(cells: Seq<ViewCell>, first: int, mid: int, end: int)
    requires
        first <= mid <= end,
    ensures
        merged(cells, first, mid).call_count <= merged(cells, first, end).call_count,
    decreases end - mid,
{
    if mid < end {
        lemma_merged_part(cells, first, mid, end - 1);
    }
}

/// Whether no group crosses a place between two cells.
pub open spec fn no_group_crosses(cells: Seq<ViewCell>, place: int) -> bool {
    !is_tool(cells, place - 1) || !is_tool(cells, place)
}

/// The blocks in front of a changed part stay where no group reaches into it.
pub proof fn lemma_blocks_before(v: ViewModel, w: ViewModel, start: int, i: int)
    requires
        v.mode == w.mode,
        0 <= i < start <= v.cells.len(),
        start <= w.cells.len(),
        forall|k: int| 0 <= k < start ==> w.cells[k] == #[trigger] v.cells[k],
        !is_tool(v.cells, start - 1),
        at(v.hovered_file_change, i) == at(w.hovered_file_change, i),
        at(v.expanded_file_change, i) == at(w.expanded_file_change, i),
        is_tool(v.cells, i) ==> at(v.hovered_tool_group, run_first(v.cells, i)) == at(
            w.hovered_tool_group,
            run_first(v.cells, i),
        ),
        is_tool(v.cells, i) ==> at(v.expanded_tool_group, run_first(v.cells, i)) == at(
            w.expanded_tool_group,
            run_first(v.cells, i),
        ),
    ensures
        block_at(v, i) == block_at(w, i),
{
    if is_tool(v.cells, i) {
        lemma_first(v.cells, i);
        lemma_end(v.cells, i);
        let first = run_first(v.cells, i);
        let end = run_end(v.cells, i);
        if end >= start {
            assert(is_tool(v.cells, start - 1));
        }
        assert(w.cells[end] == v.cells[end]);
        if first > 0 {
            assert(w.cells[first - 1] == v.cells[first - 1]);
        }
        lemma_block_shift(v, w, i, 0, first, end);
    } else {
        assert(w.cells[i] == v.cells[i]);
    }
}

/// The blocks behind a changed part stay where no group reaches into it.
pub proof fn lemma_blocks_behind(v: ViewModel, w: ViewModel, end: int, shift: int, i: int)
    requires
        v.mode == w.mode,
        v.live == w.live,
        v.accepting_content == w.accepting_content,
        0 < end <= i < v.cells.len(),
        0 < end + shift,
        w.cells.len() == v.cells.len() + shift,
        forall|k: int| end <= k < v.cells.len() ==> w.cells[k + shift] == #[trigger] v.cells[k],
        !is_tool(v.cells, end) || !is_tool(v.cells, end - 1) && !is_tool(w.cells, end + shift - 1),
        at(v.hovered_file_change, i) == at(w.hovered_file_change, i + shift),
        at(v.expanded_file_change, i) == at(w.expanded_file_change, i + shift),
        is_tool(v.cells, i) ==> at(v.hovered_tool_group, run_first(v.cells, i)) == at(
            w.hovered_tool_group,
            run_first(v.cells, i) + shift,
        ),
        is_tool(v.cells, i) ==> at(v.expanded_tool_group, run_first(v.cells, i)) == at(
            w.expanded_tool_group,
            run_first(v.cells, i) + shift,
        ),
    ensures
        block_at(v, i) == block_at(w, i + shift),
        is_tool(v.cells, i) ==> run_first(v.cells, i) >= end,
{
    if is_tool(v.cells, i) {
        lemma_first(v.cells, i);
        lemma_end(v.cells, i);
        let first = run_first(v.cells, i);
        let stop = run_end(v.cells, i);
        if first < end {
            assert(is_tool(v.cells, end - 1));
            if i > end {
                assert(is_tool(v.cells, end));
            }
        }
        if first == end {
            assert(is_tool(v.cells, first));
        } else {
            assert(w.cells[first - 1 + shift] == v.cells[first - 1]);
        }
        if stop < v.cells.len() {
            assert(w.cells[stop + shift] == v.cells[stop]);
        }
        lemma_block_shift(v, w, i, shift, first, stop);
    } else {
        assert(w.cells[i + shift] == v.cells[i]);
        lemma_block_shift(v, w, i, shift, i, i + 1);
    }
}

/// What becomes of the place of a group when cells are inserted: a group in front of the changed
/// part keeps its place, one behind it moves, and no other one takes their places.
pub proof fn lemma_place_inserted(
    v: ViewModel,
    w: ViewModel,
    place: Option<usize>,
    start: int,
    end: int,
    index: int,
    shift: int,
)
    requires
        v.mode == w.mode,
        v.live == w.live,
        valid_group(v, place) == place,
        0 <= start <= index <= end <= v.cells.len(),
        0 < shift,
        w.cells.len() == v.cells.len() + shift,
        w.cells.len() <= usize::MAX,
        forall|k: int| 0 <= k < index ==> w.cells[k] == #[trigger] v.cells[k],
        forall|k: int| index <= k < v.cells.len() ==> w.cells[k + shift] == #[trigger] v.cells[k],
        start == run_first(v.cells, index),
        end == run_end(v.cells, index) || index == 0 && end == 1 && !is_tool(v.cells, 0),
    ensures
        forall|i: int|
            0 <= i < start && is_tool(v.cells, i) ==> #[trigger] at(place, run_first(v.cells, i))
                == at(valid_group(w, shifted(place, index, shift)), run_first(v.cells, i)),
        forall|i: int|
            end <= i < v.cells.len() && is_tool(v.cells, i) ==> #[trigger] at(
                place,
                run_first(v.cells, i),
            ) == at(
                valid_group(w, shifted(place, index, shift)),
                run_first(v.cells, i) + shift,
            ),
{
    let moved = shifted(place, index, shift);
    let now = valid_group(w, moved);
    lemma_first(v.cells, index);
    lemma_end(v.cells, index);
    if place is Some {
        let s = place->0 as int;
        lemma_valid(v, place);
        let t = moved->0 as int;
        assert(t == if s >= index {
            s + shift
        } else {
            s
        });
        // The cells around the changed part are of other kinds.
        if start > 0 {
            assert(!is_tool(v.cells, start - 1));
            assert(w.cells[start - 1] == v.cells[start - 1]);
            assert(!is_tool(w.cells, start - 1));
        }
        if s < v.cells.len() {
            lemma_end(v.cells, s);
            let e = run_end(v.cells, s);
            lemma_first(w.cells, t);
            lemma_end(w.cells, t);
            if s < start {
                // A group in front of the changed part.
                if e >= start {
                    assert(is_tool(v.cells, start - 1));
                }
                assert forall|k: int| s <= k < e implies #[trigger] is_tool(w.cells, k) by {
                    assert(is_tool(v.cells, k));
                    assert(w.cells[k] == v.cells[k]);
                }
                assert(w.cells[e] == v.cells[e]);
                if s > 0 {
                    assert(w.cells[s - 1] == v.cells[s - 1]);
                    lemma_first(v.cells, s);
                }
                lemma_first_unique(w.cells, s, s);
                lemma_end_unique(w.cells, s, e);
                lemma_merged_shift(v.cells, w.cells, s, e, 0);
                assert(now == Some(s as usize));
            } else if s >= end {
                // A group behind the changed part.
                assert(w.cells[s + shift] == v.cells[s]);
                assert forall|k: int| t <= k < e + shift implies #[trigger] is_tool(
                    w.cells,
                    k,
                ) by {
                    assert(is_tool(v.cells, k - shift));
                    assert(w.cells[k - shift + shift] == v.cells[k - shift]);
                }
                if e < v.cells.len() {
                    assert(w.cells[e + shift] == v.cells[e]);
                }
                lemma_first(v.cells, s);
                if s > index {
                    assert(w.cells[s - 1 + shift] == v.cells[s - 1]);
                    lemma_first_unique(w.cells, t, t);
                } else {
                    assert(false);
                }
                lemma_end_unique(w.cells, t, e + shift);
                lemma_merged_shift(v.cells, w.cells, s, e, shift);
                assert(now == Some(t as usize));
            } else {
                // A group in the changed part: it begins no earlier, and ends no later.
                if now is Some {
                    let f = now->0 as int;
                    if f != t {
                        assert(f == run_first(w.cells, t));
                    }
                    assert(f <= t < end + shift);
                    if f < start {
                        assert(is_tool(w.cells, start - 1));
                    }
                }
            }
        } else {
            // The group of a tool that runs.
            if now is Some {
                assert(now->0 as int == t);
            }
        }
        assert forall|i: int| 0 <= i < start && is_tool(v.cells, i) implies #[trigger] at(
            place,
            run_first(v.cells, i),
        ) == at(now, run_first(v.cells, i)) by {
            lemma_first(v.cells, i);
        }
        assert forall|i: int|
            end <= i < v.cells.len() && is_tool(v.cells, i) implies #[trigger] at(
            place,
            run_first(v.cells, i),
        ) == at(now, run_first(v.cells, i) + shift) by {
            lemma_first(v.cells, i);
            let first = run_first(v.cells, i);
            if first < end {
                assert(is_tool(v.cells, end - 1));
                if i > end {
                    assert(is_tool(v.cells, end));
                }
            }
        }
    }
}

/// Tools next to each other that made enough calls are shown as one group in the place of the
/// first one, with the ids of all of them and with what they did together. Tools that did not are
/// shown each on its own.
pub proof fn adjacent_tools_are_one_group(view: ViewModel, first: int, end: int, k: int)
    requires
        view.mode == HistoryRenderMode::Rich,
        0 <= first < end <= view.cells.len(),
        forall|i: int| first <= i < end ==> (#[trigger] view.cells[i]).activity is Some,
        first > 0 ==> view.cells[first - 1].activity is None,
        end < view.cells.len() ==> view.cells[end].activity is None,
        !(end == view.cells.len() && view.live is Tool),
        first <= k < end,
    ensures
        merged(view.cells, first, end).call_count >= MIN_GROUPED_TOOL_CALLS ==> {
            &&& k > first ==> blocks_of(view)[k] == BlockModel::Grouped
            &&& blocks_of(view)[first] matches BlockModel::Group {
                ids,
                live,
                activity,
                active,
                hovered,
                expanded,
                top_padding,
            }
            &&& ids.len() == end - first
            &&& ids[k - first] == view.cells[k].id
            &&& !live
            &&& activity == merged(view.cells, first, end)
            &&& active <==> end == view.cells.len() && view.accepting_content
            &&& expanded <==> view.expanded_tool_group is Some && view.expanded_tool_group->0
                == first
            &&& hovered <==> view.hovered_tool_group is Some && view.hovered_tool_group->0 == first
            &&& top_padding == (if first == 0 || view.cells[first].is_stream_continuation {
                0int
            } else {
                1int
            })
        },
        merged(view.cells, first, end).call_count < MIN_GROUPED_TOOL_CALLS ==> {
            &&& blocks_of(view)[k] matches BlockModel::Cell { id, spaced, hovered, expanded }
            &&& id == view.cells[k].id
            &&& spaced <==> k > 0 && !view.cells[k].is_stream_continuation
        },
{
    assert forall|i: int| first <= i < end implies #[trigger] is_tool(view.cells, i) by {
        assert(view.cells[i].activity is Some);
    }
    lemma_first_unique(view.cells, k, first);
    lemma_end_unique(view.cells, k, end);
    lemma_first_unique(view.cells, first, first);
    lemma_end_unique(view.cells, first, end);
    assert(blocks_of(view)[k] == block_at(view, k));
    assert(blocks_of(view)[first] == block_at(view, first));
}

/// What tools did together counts each of their calls once.
pub proof fn groups_count_every_call(cells: Seq<ViewCell>, first: int, end: int)
    requires
        0 <= first < end <= cells.len(),
    ensures
        cells[end - 1].activity matches Some(activity) ==> merged(cells, first, end - 1).call_count
            + activity.call_count <= usize::MAX ==> merged(cells, first, end).call_count == merged(
            cells,
            first,
            end - 1,
        ).call_count + activity.call_count,
        cells[end - 1].activity is None ==> merged(cells, first, end) == merged(
            cells,
            first,
            end - 1,
        ),
        merged(cells, first, first) == no_activity(),
{
}

/// Cells that are inserted stand at their place, in their order, and the others keep theirs. A file
/// change that was expanded stays so, wherever it moved.
pub proof fn inserted_cells_stand_at_their_place(
    view: ViewModel,
    index: int,
    cells: Seq<ViewCell>,
    k: int,
)
    requires
        0 <= index <= view.cells.len(),
        view.cells.len() + cells.len() <= usize::MAX,
    ensures
        ({
            let after = with_inserted(view, index, cells);
            &&& after.cells.len() == view.cells.len() + cells.len()
            &&& 0 <= k < index ==> after.cells[k] == view.cells[k]
            &&& 0 <= k < cells.len() ==> after.cells[index + k] == cells[k]
            &&& index <= k < view.cells.len() ==> after.cells[k + cells.len()] == view.cells[k]
            &&& after.mode == view.mode
            &&& after.live == view.live
            &&& 0 <= k < view.cells.len() && view.cells[k].is_file_change
                && view.expanded_file_change == Some(k as usize) ==> after.expanded_file_change
                == Some(
                (if k < index {
                    k
                } else {
                    k + cells.len()
                }) as usize,
            )
            &&& view.expanded_file_change is None ==> after.expanded_file_change is None
        }),
{
}

/// What goes on below the cells has a block of its own, unless it is a tool that the group above
/// shows; where nothing goes on there is none.
pub proof fn what_goes_on_is_shown_below(view: ViewModel)
    ensures
        blocks_of(view).len() == view.cells.len() + (match view.live {
            LiveDisplay::Nothing => 0int,
            LiveDisplay::Lines { .. } => 1,
            LiveDisplay::Tool(_) => if view.mode == HistoryRenderMode::Rich && view.cells.len() > 0
                && view.cells.last().activity is Some {
                0
            } else {
                1
            },
        }),
        view.live is Lines ==> blocks_of(view).last() is LiveTail,
        view.live matches LiveDisplay::Lines { is_stream_continuation } ==> blocks_of(
            view,
        ).last()->LiveTail_spaced == (view.cells.len() > 0 && !is_stream_continuation),
        view.live is Tool && view.mode == HistoryRenderMode::Raw ==> blocks_of(view).last()
            is LiveTail,
        view.live is Tool && view.mode == HistoryRenderMode::Rich && (view.cells.len() == 0
            || view.cells.last().activity is None) ==> blocks_of(view).last() is Group
            && blocks_of(view).last()->live && blocks_of(view).last()->activity
            == view.live->Tool_0.activity,
{
    assert(cell_blocks(view).len() == view.cells.len());
}

/// A group holds the ids of its cells in their order. An empty row stands above it unless it is the
/// first or goes on with what is before it; it is active where it ends the conversation and that
/// goes on; and the tool that runs belongs to it only at the end.
pub proof fn groups_hold_their_cells(view: ViewModel, first: int, end: int, k: int)
    requires
        0 <= first < end <= view.cells.len(),
        first <= k < end,
    ensures
        group_block(view, first, end) matches BlockModel::Group {
            ids,
            live,
            activity,
            active,
            hovered,
            expanded,
            top_padding,
        } && {
            &&& ids.len() == end - first
            &&& ids[k - first] == view.cells[k].id
            &&& live <==> end == view.cells.len() && view.live is Tool
            &&& active <==> end == view.cells.len() && view.accepting_content
            &&& hovered <==> (view.hovered_tool_group matches Some(place) && place == first)
            &&& expanded <==> (view.expanded_tool_group matches Some(place) && place == first)
            &&& top_padding == (if first == 0 || view.cells[first].is_stream_continuation {
                0int
            } else {
                1
            })
            &&& !live ==> activity == merged(view.cells, first, end)
            &&& live ==> (view.live matches LiveDisplay::Tool(tool) && activity
                == tool_groups::together(merged(view.cells, first, end), tool.activity))
        },
        cell_block(view, k) matches BlockModel::Cell { id, spaced, hovered, expanded } && {
            &&& id == view.cells[k].id
            &&& spaced <==> k > 0 && !view.cells[k].is_stream_continuation
            &&& hovered <==> (view.hovered_file_change matches Some(place) && place == k)
            &&& expanded <==> (view.expanded_file_change matches Some(place) && place == k)
        },
{
}

} // verus!
