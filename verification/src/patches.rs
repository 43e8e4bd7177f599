//! History cells about patches and image tools.

use crate::styled::{bold, dim, line1, line2, line3, plain, span, span_of, SpanStyle, StyledLine, Tint};
use crate::text::{is_blank, same_text};
use vstd::prelude::*;

verus! {

/// Bold text in a colour.
#[verifier::allow_in_spec]
pub fn bold_tinted(tint: Tint) -> SpanStyle
    returns
        (SpanStyle { tint, bold: true, dim: false, italic: false }),
{
    SpanStyle { tint, bold: true, dim: false, italic: false }
}

/// The lines of a cell that says that a patch could not be applied. `output` holds the lines
/// that show what the tool printed; they stand there only where it printed something.
pub fn new_patch_apply_failure(stderr: &str, output: Vec<StyledLine>) -> (lines: Vec<StyledLine>)
    ensures
        lines.deep_view() == seq![seq![("\u{2718} Failed to apply patch"@, bold_tinted(
            Tint::Magenta,
        ))]] + if crate::text::blank(stderr@) {
            Seq::empty()
        } else {
            output.deep_view()
        },
{
    let mut lines: Vec<StyledLine> = Vec::new();
    lines.push(line1(span("\u{2718} Failed to apply patch", bold_tinted(Tint::Magenta))));
    if !is_blank(stderr) {
        let mut output = output;
        lines.append(&mut output);
    }
    assert(lines.deep_view() =~= seq![seq![("\u{2718} Failed to apply patch"@, bold_tinted(
        Tint::Magenta,
    ))]] + if crate::text::blank(stderr@) {
        Seq::empty()
    } else {
        output.deep_view()
    });
    lines
}

/// The lines of a cell that says that an image was viewed.
pub fn new_view_image_tool_call(display_path: String) -> (lines: Vec<StyledLine>)
    ensures
        lines.deep_view() == seq![
            seq![("\u{2022} "@, dim()), ("Viewed Image"@, bold())],
            seq![("  \u{2514} "@, dim()), (display_path@, dim())],
        ],
{
    let mut lines: Vec<StyledLine> = Vec::new();
    lines.push(line2(span("\u{2022} ", dim()), span("Viewed Image", bold())));
    lines.push(line2(span("  \u{2514} ", dim()), span_of(display_path, dim())));
    assert(lines.deep_view() =~= seq![
        seq![("\u{2022} "@, dim()), ("Viewed Image"@, bold())],
        seq![("  \u{2514} "@, dim()), (display_path@, dim())],
    ]);
    lines
}

/// The heading of a cell about an image generation.
pub open spec fn image_generation_heading(status: Seq<char>) -> Seq<(Seq<char>, SpanStyle)> {
    if status == "failed"@ {
        seq![
            ("\u{2717} "@, bold_tinted(Tint::Red)),
            ("Image generation failed"@, bold()),
        ]
    } else {
        seq![("\u{2022} "@, dim()), ("Generated Image:"@, bold())]
    }
}

/// The lines of a cell about an image generation with a detail.
pub open spec fn image_generation_lines(
    status: Seq<char>,
    detail: Seq<char>,
    saved_path: Option<Seq<char>>,
) -> Seq<Seq<(Seq<char>, SpanStyle)>> {
    let head = seq![
        image_generation_heading(status),
        seq![("  \u{2514} "@, dim()), (detail, dim())],
    ];
    match saved_path {
        Some(path) => head.push(
            seq![("  \u{2514} "@, dim()), ("Saved to: "@, dim()), (path, plain())],
        ),
        None => head,
    }
}

/// The URL that the `url` crate makes of a path, by the rule for Windows or by that for Unix-like
/// systems; none where the path has none.
pub uninterp spec fn file_url_of(windows: bool, path: Seq<char>) -> Option<Seq<char>>;

/// Calls `url::Url::from_file_path`. The result depends on the path and on which of two rules the
/// crate was built with: one for Windows, and one for Unix-like systems. There is no URL for the
/// empty path; every other one is of the `file` scheme. Which of the rules it is, is left unsaid.
#[verifier::external_body]
fn file_url(path: &str) -> (r: Option<String>)
    ensures
        r.deep_view() == file_url_of(false, path@) || r.deep_view() == file_url_of(true, path@),
        r matches Some(url) ==> crate::text::has_prefix(url@, "file://"@),
        path@.len() == 0 ==> r is None,
{
    url::Url::from_file_path(path).ok().map(|url| url.to_string())
}

/// The text that stands for a path by one of the rules: its URL, or the path itself where it has
/// none.
pub open spec fn shown_path(windows: bool, path: Seq<char>) -> Seq<char> {
    match file_url_of(windows, path) {
        Some(url) => url,
        None => path,
    }
}

/// The lines of a cell about an image generation. The place where the image was saved is shown as
/// a URL where it has one.
pub fn new_image_generation_call(
    call_id: String,
    status: &str,
    revised_prompt: Option<String>,
    saved_path: Option<String>,
) -> (lines: Vec<StyledLine>)
    ensures
        ({
            let detail = match revised_prompt {
                Some(prompt) => prompt@,
                None => call_id@,
            };
            match saved_path {
                None => lines.deep_view() == image_generation_lines(status@, detail, None),
                Some(path) => exists|windows: bool|
                    lines.deep_view() == image_generation_lines(
                        status@,
                        detail,
                        Some(#[trigger] shown_path(windows, path@)),
                    ),
            }
        }),
{
    let ghost place = saved_path;
    let shown = match saved_path {
        Some(path) => match file_url(path.as_str()) {
            Some(url) => Some(url),
            None => Some(path),
        },
        None => None,
    };
    proof {
        if let Some(path) = place {
            assert(shown->0@ == shown_path(false, path@) || shown->0@ == shown_path(true, path@));
        }
    }
    image_generation_cell(call_id, status, revised_prompt, shown)
}

/// The lines of a cell about an image generation: its revised prompt, or its id where there is
/// none. `saved_path` is where the image was saved, as it is shown.
pub fn image_generation_cell(
    call_id: String,
    status: &str,
    revised_prompt: Option<String>,
    saved_path: Option<String>,
) -> (lines: Vec<StyledLine>)
    ensures
        lines.deep_view() == image_generation_lines(
            status@,
            match revised_prompt {
                Some(prompt) => prompt@,
                None => call_id@,
            },
            saved_path.deep_view(),
        ),
{
    let detail = match revised_prompt {
        Some(prompt) => prompt,
        None => call_id,
    };
    let mut lines: Vec<StyledLine> = Vec::new();
    if same_text(status, "failed") {
        lines.push(
            line2(
                span("\u{2717} ", bold_tinted(Tint::Red)),
                span("Image generation failed", bold()),
            ),
        );
    } else {
        lines.push(line2(span("\u{2022} ", dim()), span("Generated Image:", bold())));
    }
    lines.push(line2(span("  \u{2514} ", dim()), span_of(detail, dim())));
    let ghost head = seq![
        image_generation_heading(status@),
        seq![("  \u{2514} "@, dim()), (detail@, dim())],
    ];
    assert(lines.deep_view() =~= head);
    match saved_path {
        Some(path) => {
            let line = line3(
                span("  \u{2514} ", dim()),
                span("Saved to: ", dim()),
                span_of(path, plain()),
            );
            lines.push(line);
            assert(lines.deep_view() =~= head.push(line.deep_view()));
        },
        None => {},
    }
    lines
}

/// The rows of a wrapped file change in order: the wrapped rows of each source line.
pub open spec fn wrapped_rows(wrapped: Seq<Seq<Seq<(Seq<char>, SpanStyle)>>>) -> Seq<
    Seq<(Seq<char>, SpanStyle)>,
>
    decreases wrapped.len(),
{
    if wrapped.len() == 0 {
        Seq::empty()
    } else {
        wrapped_rows(wrapped.drop_last()) + wrapped.last()
    }
}

/// How many rows the first line takes.
pub open spec fn heading_height(wrapped: Seq<Seq<Seq<(Seq<char>, SpanStyle)>>>) -> nat {
    if wrapped.len() > 0 {
        wrapped[0].len()
    } else {
        0
    }
}

/// The rows of a file change. The first `heading_rows` of them are its heading.
pub struct FileChangeDisplayLines {
    pub lines: Vec<StyledLine>,
    pub heading_rows: usize,
}

/// The rows of a file change. `wrapped` holds, for each line of its summary, the rows into which
/// it was wrapped.
pub fn file_change_display_lines(wrapped: Vec<Vec<StyledLine>>) -> (r: FileChangeDisplayLines)
    ensures
        r.lines.deep_view() == wrapped_rows(wrapped.deep_view()),
        r.heading_rows == heading_height(wrapped.deep_view()),
{
    let mut lines: Vec<StyledLine> = Vec::new();
    let heading_rows: usize = if wrapped.len() > 0 {
        wrapped[0].len()
    } else {
        0
    };
    let ghost all = wrapped@;
    let ghost models = wrapped.deep_view();
    assert(models.take(0) =~= Seq::empty());
    assert(lines.deep_view() =~= Seq::empty());
    for rows in it: wrapped
        invariant
            it.seq() == all,
            models.len() == all.len(),
            forall|k: int| 0 <= k < all.len() ==> (#[trigger] models[k]) == all[k].deep_view(),
            lines.deep_view() == wrapped_rows(models.take(it.index() as int)),
    {
        let ghost i = it.index() as int;
        let ghost before = lines.deep_view();
        proof {
            assert(models.take(i + 1).drop_last() =~= models.take(i));
            assert(models[i] == all[i].deep_view());
        }
        let mut rows = rows;
        let ghost more = rows.deep_view();
        lines.append(&mut rows);
        assert(lines.deep_view() =~= before + more);
    }
    assert(models.take(models.len() as int) =~= models);
    FileChangeDisplayLines { lines, heading_rows }
}

/// What the rows of a file change depend on besides the change. The numbers stand for the theme
/// and for what the terminal can show.
#[derive(Clone, Copy, Debug)]
pub struct PatchDisplayCacheKey {
    pub width: u16,
    pub syntax_theme_revision: u64,
    pub terminal_fg: Option<(u8, u8, u8)>,
    pub terminal_bg: Option<(u8, u8, u8)>,
    pub color_level: u8,
}

/// The rows of a file change as they were last made.
pub struct PatchDisplayCache {
    pub entry: Option<(PatchDisplayCacheKey, FileChangeDisplayLines)>,
}

fn same_colour(a: Option<(u8, u8, u8)>, b: Option<(u8, u8, u8)>) -> (r: bool)
    ensures
        r == (a == b),
{
    match (a, b) {
        (Some(a), Some(b)) => a.0 == b.0 && a.1 == b.1 && a.2 == b.2,
        (None, None) => true,
        _ => false,
    }
}

impl PatchDisplayCacheKey {
    /// A key for a width: at least one column.
    pub fn at_width(self, width: u16) -> (r: Self)
        ensures
            r == (PatchDisplayCacheKey {
                width: if width == 0 {
                    1
                } else {
                    width
                },
                ..self
            }),
    {
        PatchDisplayCacheKey {
            width: if width == 0 {
                1
            } else {
                width
            },
            syntax_theme_revision: self.syntax_theme_revision,
            terminal_fg: self.terminal_fg,
            terminal_bg: self.terminal_bg,
            color_level: self.color_level,
        }
    }
}

impl PatchDisplayCache {
    /// No rows.
    pub fn new() -> (r: Self)
        ensures
            r.entry is None,
    {
        PatchDisplayCache { entry: None }
    }

    /// The rows that were last made, where the key is the same.
    pub fn lookup(&self, key: PatchDisplayCacheKey) -> (r: Option<&FileChangeDisplayLines>)
        ensures
            match self.entry {
                Some((cached, lines)) if cached == key => r == Some(&lines),
                _ => r is None,
            },
    {
        match &self.entry {
            Some((cached, lines)) => if cached.width == key.width && cached.syntax_theme_revision
                == key.syntax_theme_revision && same_colour(cached.terminal_fg, key.terminal_fg)
                && same_colour(cached.terminal_bg, key.terminal_bg) && cached.color_level
                == key.color_level {
                Some(lines)
            } else {
                None
            },
            None => None,
        }
    }

    /// Has the rows for a key ready: those that were last made where they were made for that key,
    /// else new ones from the wrapped lines of the summary.
    pub fn prepare(&mut self, key: PatchDisplayCacheKey, wrapped: Vec<Vec<StyledLine>>)
        ensures
            match old(self).entry {
                Some((cached, _)) if cached == key => *final(self) == *old(self),
                _ => {
                    &&& final(self).entry matches Some((made_for, lines))
                    &&& made_for == key
                    &&& lines.lines.deep_view() == wrapped_rows(wrapped.deep_view())
                    &&& lines.heading_rows == heading_height(wrapped.deep_view())
                },
            },
    {
        if self.lookup(key).is_none() {
            self.store(key, file_change_display_lines(wrapped));
        }
    }

    /// Keeps rows for a key; those of another key are dropped.
    pub fn store(&mut self, key: PatchDisplayCacheKey, lines: FileChangeDisplayLines)
        ensures
            final(self).entry == Some((key, lines)),
    {
        self.entry = Some((key, lines));
    }
}

/// The heading of a file change is the beginning of its rows.
pub proof fn heading_is_part_of_the_rows(wrapped: Seq<Seq<Seq<(Seq<char>, SpanStyle)>>>)
    requires
        wrapped.len() > 0,
    ensures
        wrapped[0].len() <= wrapped_rows(wrapped).len(),
        wrapped_rows(wrapped).take(wrapped[0].len() as int) == wrapped[0],
    decreases wrapped.len(),
{
    if wrapped.len() > 1 {
        heading_is_part_of_the_rows(wrapped.drop_last());
        assert(wrapped_rows(wrapped).take(wrapped[0].len() as int) =~= wrapped_rows(
            wrapped.drop_last(),
        ).take(wrapped[0].len() as int));
    } else {
        assert(wrapped_rows(wrapped.drop_last()) =~= Seq::empty());
        assert(wrapped_rows(wrapped) =~= wrapped[0]);
    }
}

/// The rows of lines that follow others are the rows of the others and then theirs, and those of
/// one line are its rows.
pub proof fn rows_follow_their_lines(
    first: Seq<Seq<Seq<(Seq<char>, SpanStyle)>>>,
    second: Seq<Seq<Seq<(Seq<char>, SpanStyle)>>>,
)
    ensures
        wrapped_rows(first + second) == wrapped_rows(first) + wrapped_rows(second),
        second.len() == 1 ==> wrapped_rows(second) == second[0],
        first.len() > 0 ==> heading_height(first + second) == first[0].len(),
    decreases second.len(),
{
    if second.len() == 0 {
        assert(first + second =~= first);
        assert(wrapped_rows(first) + Seq::<Seq<(Seq<char>, SpanStyle)>>::empty() =~= wrapped_rows(
            first,
        ));
    } else {
        rows_follow_their_lines(first, second.drop_last());
        assert((first + second).drop_last() =~= first + second.drop_last());
        assert(wrapped_rows(first + second) =~= wrapped_rows(first) + wrapped_rows(second));
        if second.len() == 1 {
            assert(second.drop_last() =~= Seq::empty());
            assert(wrapped_rows(second) =~= second[0]);
        }
    }
}

/// A cell about an image generation has its detail on the second line and the place where the
/// image was saved on the third one, and its heading says whether the generation failed.
pub proof fn image_cells_tell_detail_and_place(
    status: Seq<char>,
    detail: Seq<char>,
    saved_path: Option<Seq<char>>,
)
    ensures
        ({
            let lines = image_generation_lines(status, detail, saved_path);
            &&& lines.len() == (if saved_path is Some {
                3int
            } else {
                2int
            })
            &&& lines[0].last().0 == (if status == "failed"@ {
                "Image generation failed"@
            } else {
                "Generated Image:"@
            })
            &&& lines[1].last().0 == detail
            &&& saved_path matches Some(path) ==> lines[2].last().0 == path && lines[2][1].0
                == "Saved to: "@
        }),
{
}

} // verus!
