//! What the panel draws, and where.

use crate::diff_panel::panel::{
    self, ContentModel, DiffPanel, DiffPanelContent, PanelHover, PanelModel,
};
use crate::diff_panel::parser::DiffPanelFile;
use crate::diff_panel::render::{
    self, file_row, more_above, more_below, quiet, summary_line, CLOSE_SYMBOL,
};
use crate::geometry::{self, Area};
use crate::rewind_view::PlacedLine;
use crate::styled::{dim, line1, span, SpanStyle, StyledLine};
use vstd::prelude::*;

verus! {

/// What the panel compares with.
pub const COMPARED_WITH: &'static str = "uncommitted (vs HEAD)";

/// A message in the place of changes.
#[derive(Debug, PartialEq, Eq)]
pub struct PanelMessage {
    pub headline: String,
    pub hint: Option<String>,
}

/// The message in the place of changes; none where there are changes.
pub open spec fn message_of(content: ContentModel) -> Option<(Seq<char>, Option<Seq<char>>)> {
    match content {
        ContentModel::Loading => Some(("Loading diff\u{2026}"@, None)),
        ContentModel::NotRepository => Some(
            (
                "Diff unavailable"@,
                Some("The current directory is not in a Git repository"@),
            ),
        ),
        ContentModel::Failed(error) => Some(("Diff unavailable"@, Some(error))),
        ContentModel::Ready(files) => if files.len() == 0 {
            Some(("No uncommitted changes"@, None))
        } else {
            None
        },
    }
}

/// A line that is drawn into an area of one row.
pub open spec fn placed(area: Area, line: Seq<(Seq<char>, SpanStyle)>) -> (
    Area,
    Seq<(Seq<char>, SpanStyle)>,
    Option<usize>,
) {
    (area, line, None)
}

/// Where the first line of the panel stands.
pub open spec fn summary_area_of(inner: Area) -> Area {
    Area {
        x: render::moved(inner.x, 1),
        y: inner.y,
        width: render::shortened(inner.width, 3),
        height: 1,
    }
}

/// Where it says what the panel compares with.
pub open spec fn base_area_of(inner: Area) -> Area {
    Area {
        x: render::moved(inner.x, 1),
        y: render::moved(inner.y, 1),
        width: render::shortened(inner.width, 2),
        height: 1,
    }
}

/// The lines above the changes: the summary, the mark that closes the panel, and what is compared
/// where the changes are known.
pub open spec fn header_of(panel: PanelModel, inner: Area) -> Seq<
    (Area, Seq<(Seq<char>, SpanStyle)>, Option<usize>),
> {
    let files = match panel.content {
        ContentModel::Ready(files) => Some(files),
        _ => None,
    };
    let both = seq![
        placed(summary_area_of(inner), render::summary_of(files)),
        placed(
            panel.areas.close,
            seq![(CLOSE_SYMBOL@, render::quiet_of(panel.hover == PanelHover::Close))],
        ),
    ];
    if panel.content is Ready {
        both.push(placed(base_area_of(inner), seq![(COMPARED_WITH@, dim())]))
    } else {
        both
    }
}

/// A path of the list as it is drawn: its text, cut to `columns`, and the columns that it takes.
#[derive(Debug)]
pub struct ListedPath {
    pub text: String,
    pub width: usize,
    pub columns: usize,
}

impl DeepView for ListedPath {
    type V = (Seq<char>, usize, usize);

    open spec fn deep_view(&self) -> Self::V {
        (self.text@, self.width, self.columns)
    }
}

/// How many files are listed.
pub open spec fn listed_count(panel: PanelModel) -> int {
    geometry::min_of(
        panel.areas.file_list_content.height as int,
        geometry::monus(panel::files_of(panel).len() as int, panel.file_list_start as int),
    )
}

/// The row of a listed file, and where it stands.
pub open spec fn listed_row(panel: PanelModel, path: (Seq<char>, usize, usize), k: int) -> (
    Area,
    Seq<(Seq<char>, SpanStyle)>,
    Option<usize>,
) {
    let content = panel.areas.file_list_content;
    let i = panel.file_list_start + k;
    let file = panel::files_of(panel)[i];
    placed(
        Area { x: content.x, y: render::moved(content.y, k), width: content.width, height: 1 },
        render::file_row_of(
            panel.selected_file == Some(i as usize),
            panel.hover == PanelHover::File(i as usize),
            path.0,
            path.1 as int,
            path.2 as int,
            file.added as int,
            file.removed as int,
        ),
    )
}

/// The rows of the listed files.
pub open spec fn listed_rows(panel: PanelModel, paths: Seq<(Seq<char>, usize, usize)>) -> Seq<
    (Area, Seq<(Seq<char>, SpanStyle)>, Option<usize>),
> {
    Seq::new(paths.len(), |k: int| listed_row(panel, paths[k], k))
}

/// How many files are below the listed ones.
pub open spec fn files_below(panel: PanelModel) -> int {
    geometry::monus(
        panel::files_of(panel).len() as int,
        panel.file_list_start + panel.areas.file_list_content.height,
    )
}

/// The rows of the list: those of the listed files, and before and after them one that tells of
/// more files, where there are more.
pub open spec fn list_of(panel: PanelModel, paths: Seq<(Seq<char>, usize, usize)>) -> Seq<
    (Area, Seq<(Seq<char>, SpanStyle)>, Option<usize>),
> {
    let list = panel.areas.file_list;
    let above = if panel.file_list_start > 0 {
        seq![
            placed(
                Area { height: 1, ..list },
                render::more_above_of(panel.file_list_start as int),
            ),
        ]
    } else {
        Seq::empty()
    };
    let below = if files_below(panel) > 0 {
        seq![
            placed(
                Area { y: geometry::monus(list.bottom_edge(), 1) as u16, height: 1, ..list },
                render::more_below_of(files_below(panel)),
            ),
        ]
    } else {
        Seq::empty()
    };
    above + listed_rows(panel, paths) + below
}

fn place(area: Area, line: StyledLine) -> (r: PlacedLine)
    ensures
        r.deep_view() == placed(area, line.deep_view()),
{
    PlacedLine { area, line, truncate_to: None }
}

impl DiffPanel {
    /// The message in the place of changes; none where there are changes.
    pub fn message(&self) -> (r: Option<PanelMessage>)
        ensures
            match (r, message_of(self.content.deep_view())) {
                (None, None) => true,
                (Some(message), Some((headline, hint))) => message.headline@ == headline
                    && message.hint.deep_view() == hint,
                _ => false,
            },
    {
        match &self.content {
            DiffPanelContent::Loading => Some(
                PanelMessage { headline: "Loading diff\u{2026}".to_owned(), hint: None },
            ),
            DiffPanelContent::NotRepository => Some(
                PanelMessage {
                    headline: "Diff unavailable".to_owned(),
                    hint: Some("The current directory is not in a Git repository".to_owned()),
                },
            ),
            DiffPanelContent::Failed(error) => Some(
                PanelMessage {
                    headline: "Diff unavailable".to_owned(),
                    hint: Some(error.clone()),
                },
            ),
            DiffPanelContent::Ready(files) => {
                assert(files.deep_view().len() == files@.len());
                if files.len() == 0 {
                    Some(
                        PanelMessage {
                            headline: "No uncommitted changes".to_owned(),
                            hint: None,
                        },
                    )
                } else {
                    None
                }
            },
        }
    }

    /// The lines above the changes.
    pub fn header(&self, inner: Area) -> (r: Vec<PlacedLine>)
        requires
            render::totals_fit(panel::files_of(self.deep_view())),
        ensures
            r.deep_view() == header_of(self.deep_view(), inner),
    {
        let files = match &self.content {
            DiffPanelContent::Ready(files) => Some(files),
            _ => None,
        };
        let summary_area = Area {
            x: inner.x.saturating_add(1),
            y: inner.y,
            width: inner.width.saturating_sub(3),
            height: 1,
        };
        let over_close = match self.hover {
            PanelHover::Close => true,
            _ => false,
        };
        let close = line1(span(CLOSE_SYMBOL, quiet(over_close)));
        assert(close.deep_view() =~= seq![(CLOSE_SYMBOL@, render::quiet_of(over_close))]);
        let mut r: Vec<PlacedLine> = Vec::new();
        r.push(place(summary_area, summary_line(files)));
        r.push(place(self.areas.close, close));
        if files.is_some() {
            let base = line1(span(COMPARED_WITH, dim()));
            assert(base.deep_view() =~= seq![(COMPARED_WITH@, dim())]);
            let base_area = Area {
                x: inner.x.saturating_add(1),
                y: inner.y.saturating_add(1),
                width: inner.width.saturating_sub(2),
                height: 1,
            };
            r.push(place(base_area, base));
        }
        assert(r.deep_view() =~= header_of(self.deep_view(), inner));
        r
    }

    fn listed_line(&self, files: &Vec<DiffPanelFile>, path: &ListedPath, k: usize) -> (r:
        PlacedLine)
        requires
            self.content matches DiffPanelContent::Ready(all) && all == *files,
            self.file_list_start + k < files@.len(),
            k < self.areas.file_list_content.height,
        ensures
            r.deep_view() == listed_row(self.deep_view(), path.deep_view(), k as int),
    {
        let count: usize = files.len();
        assert(self.file_list_start + k < count);
        let i: usize = self.file_list_start + k;
        let content = self.areas.file_list_content;
        let selected = match self.selected_file {
            Some(file) => file == i,
            None => false,
        };
        let hovered = match self.hover {
            PanelHover::File(file) => file == i,
            _ => false,
        };
        assert(panel::files_of(self.deep_view())[i as int] == files@[i as int].deep_view());
        let row = file_row(
            selected,
            hovered,
            path.text.as_str(),
            path.width,
            path.columns,
            files[i].added,
            files[i].removed,
        );
        let area = Area {
            x: content.x,
            y: content.y.saturating_add(k as u16),
            width: content.width,
            height: 1,
        };
        place(area, row)
    }

    /// The rows of the list of files. `paths` are the paths of the listed files.
    pub fn file_list_rows(&self, paths: &Vec<ListedPath>) -> (r: Vec<PlacedLine>)
        requires
            paths@.len() == listed_count(self.deep_view()),
        ensures
            r.deep_view() == (match self.content {
                DiffPanelContent::Ready(_) => list_of(self.deep_view(), paths.deep_view()),
                _ => Seq::empty(),
            }),
    {
        let mut r: Vec<PlacedLine> = Vec::new();
        assert(r.deep_view() =~= Seq::empty());
        let files = match &self.content {
            DiffPanelContent::Ready(files) => files,
            _ => {
                return r;
            },
        };
        let ghost model = self.deep_view();
        let ghost shown = paths.deep_view();
        assert(panel::files_of(model) == files.deep_view());
        assert(files.deep_view().len() == files@.len());
        assert(shown.len() == paths@.len());
        let list = self.areas.file_list;
        if self.file_list_start > 0 {
            let area = Area { x: list.x, y: list.y, width: list.width, height: 1 };
            r.push(place(area, more_above(self.file_list_start)));
        }
        let ghost above = r.deep_view();
        let mut k: usize = 0;
        assert(above + listed_rows(model, shown).take(0) =~= above);
        while k < paths.len()
            invariant
                k <= paths@.len(),
                model == self.deep_view(),
                shown == paths.deep_view(),
                self.content matches DiffPanelContent::Ready(all) && all == *files,
                panel::files_of(model).len() == files@.len(),
                paths@.len() == listed_count(model),
                r.deep_view() == above + listed_rows(model, shown).take(k as int),
            decreases paths@.len() - k,
        {
            let ghost before = r.deep_view();
            let row = self.listed_line(files, &paths[k], k);
            r.push(row);
            assert(shown[k as int] == paths@[k as int].deep_view());
            assert(r.deep_view() =~= before.push(row.deep_view()));
            assert(listed_rows(model, shown).take(k + 1) =~= listed_rows(model, shown).take(
                k as int,
            ).push(row.deep_view()));
            assert(r.deep_view() =~= above + listed_rows(model, shown).take(k + 1));
            k += 1;
        }
        assert(listed_rows(model, shown).take(k as int) =~= listed_rows(model, shown));
        let ghost rows = r.deep_view();
        let end: usize = self.file_list_start.saturating_add(
            self.areas.file_list_content.height as usize,
        );
        let below: usize = files.len().saturating_sub(end);
        if below > 0 {
            let area = Area {
                x: list.x,
                y: list.bottom().saturating_sub(1),
                width: list.width,
                height: 1,
            };
            let row = place(area, more_below(below));
            r.push(row);
            assert(r.deep_view() =~= rows.push(row.deep_view()));
        }
        assert(r.deep_view() =~= list_of(model, shown));
        r
    }
}

/// Where the panel lists files, every row of the list has a row of its own on the screen: as many
/// rows as the list is high.
pub proof fn list_fills_its_area(
    panel: PanelModel,
    paths: Seq<(Seq<char>, usize, usize)>,
    inner: Area,
)
    requires
        panel.content is Ready,
        panel::files_of(panel).len() > 0,
        panel.file_list_start == render::first_listed(
            inner,
            panel::files_of(panel).len() as int,
            panel.file_list_start as int,
        ),
        panel.areas == render::areas_with_files(
            inner,
            panel::files_of(panel).len() as int,
            panel.file_list_start as int,
        ),
        paths.len() == listed_count(panel),
    ensures
        list_of(panel, paths).len() == panel.areas.file_list.height,
{
}

/// Each listed file has the row of the list at its place, with its own counts, and the selected and
/// the hovered one look so. What is above and below the listed files is counted.
pub proof fn listed_rows_show_their_files(
    panel: PanelModel,
    paths: Seq<(Seq<char>, usize, usize)>,
    k: int,
)
    requires
        panel.file_list_start + paths.len() <= panel::files_of(panel).len() <= usize::MAX,
        0 <= k < paths.len(),
        panel.areas.file_list_content.y + paths.len() < u16::MAX,
    ensures
        ({
            let i = panel.file_list_start + k;
            let file = panel::files_of(panel)[i];
            let above = if panel.file_list_start > 0 {
                1int
            } else {
                0
            };
            let row = list_of(panel, paths)[above + k];
            &&& row.0.y == panel.areas.file_list_content.y + k
            &&& row.0.height == 1
            &&& row.1[0].0 == (if panel.selected_file == Some(i as usize) {
                "\u{203a} "@
            } else {
                "  "@
            })
            &&& row.1[1].0 == paths[k].0
            &&& row.1[3].0 == "+"@ + crate::text::decimal(file.added as nat)
            &&& row.1[5].0 == "-"@ + crate::text::decimal(file.removed as nat)
            &&& above == 1 ==> list_of(panel, paths)[0].1[0].0 == "\u{2191} "@
                + crate::text::decimal(panel.file_list_start as nat) + " more above"@
            &&& panel.file_list_start + panel.areas.file_list_content.height < panel::files_of(
                panel,
            ).len() ==> list_of(panel, paths).last().1[0].0 == "\u{2193} "@ + crate::text::decimal(
                (panel::files_of(panel).len() - panel.file_list_start
                    - panel.areas.file_list_content.height) as nat,
            ) + " more below"@
        }),
{
    let rows = listed_rows(panel, paths);
    assert(rows[k] == listed_row(panel, paths[k], k));
    let above = if panel.file_list_start > 0 {
        1int
    } else {
        0
    };
    assert(list_of(panel, paths)[above + k] == rows[k]);
}

/// A message stands in the place of the changes unless there are some, and it says why.
pub proof fn messages_say_why_nothing_is_shown(content: ContentModel)
    ensures
        match message_of(content) {
            None => content is Ready && content->Ready_0.len() > 0,
            Some((headline, hint)) => {
                &&& !(content is Ready) || content->Ready_0.len() == 0
                &&& content is Failed ==> hint == Some(content->Failed_0)
                &&& content is NotRepository ==> hint is Some
                &&& content is Loading || content is Ready ==> hint is None
            },
        },
{
}

/// The head of the panel holds the summary and the mark that closes it, and says what is compared
/// only where the changes are known. The mark stands out while the mouse is over it.
pub proof fn heads_tell_what_is_compared(panel: PanelModel, inner: Area)
    requires
        inner.x < u16::MAX,
        inner.y < u16::MAX,
        inner.width >= 3,
    ensures
        ({
            let lines = header_of(panel, inner);
            &&& lines.len() == (if panel.content is Ready {
                3int
            } else {
                2
            })
            &&& lines[0].0.y == inner.y
            &&& lines[0].0.x == inner.x + 1
            &&& lines[0].0.x + lines[0].0.width == inner.x + inner.width - 2
            &&& lines[0].1.len() == 0 <==> !(panel.content is Ready)
            &&& panel.content matches ContentModel::Ready(files) ==> lines[0].1
                == render::summary_of(Some(files))
            &&& lines[1].0 == panel.areas.close
            &&& lines[1].1[0].0 == CLOSE_SYMBOL@
            &&& lines[1].1[0].1.dim <==> panel.hover != PanelHover::Close
            &&& panel.content is Ready ==> {
                &&& lines[2].0.y == inner.y + 1
                &&& lines[2].0.x == inner.x + 1
                &&& lines[2].0.width == inner.width - 2
                &&& lines[2].1[0].0 == COMPARED_WITH@
            }
        }),
{
}

/// The file under the mouse stands out in the list, and no other. A message names what is missing.
pub proof fn hovered_files_stand_out(
    panel: PanelModel,
    path: (Seq<char>, usize, usize),
    k: int,
    error: Seq<char>,
)
    requires
        0 <= k,
        panel.file_list_start + k <= usize::MAX,
    ensures
        listed_row(panel, path, k).1[1].1.dim <==> panel.hover != PanelHover::File(
            (panel.file_list_start + k) as usize,
        ),
        listed_row(panel, path, k).0.x == panel.areas.file_list_content.x,
        listed_row(panel, path, k).0.width == panel.areas.file_list_content.width,
        message_of(ContentModel::Loading) == Some(("Loading diff\u{2026}"@, None::<Seq<char>>)),
        message_of(ContentModel::Failed(error)) == Some(("Diff unavailable"@, Some(error))),
        message_of(ContentModel::NotRepository) == Some(
            (
                "Diff unavailable"@,
                Some("The current directory is not in a Git repository"@),
            ),
        ),
        message_of(ContentModel::Ready(Seq::empty())) == Some(
            ("No uncommitted changes"@, None::<Seq<char>>),
        ),
{
}

} // verus!
