//! Styled text, before it is turned into terminal cells.

use crate::data::Data;
use vstd::prelude::*;

verus! {

/// A foreground colour: one of the terminal's, or one that the theme gives a meaning.
#[derive(Clone, Copy, Debug, PartialEq, Eq, Structural)]
pub enum Tint {
    Plain,
    Accent,
    Attention,
    Red,
    Green,
    Yellow,
    Blue,
    Magenta,
    Cyan,
    LightRed,
}

/// How a piece of text looks.
#[derive(Clone, Copy, Debug, PartialEq, Eq, Structural)]
pub struct SpanStyle {
    pub tint: Tint,
    pub bold: bool,
    pub dim: bool,
    pub italic: bool,
}

/// Text as it is.
#[verifier::allow_in_spec]
pub fn plain() -> SpanStyle
    returns
        (SpanStyle { tint: Tint::Plain, bold: false, dim: false, italic: false }),
{
    SpanStyle { tint: Tint::Plain, bold: false, dim: false, italic: false }
}

/// Dimmed text.
#[verifier::allow_in_spec]
pub fn dim() -> SpanStyle
    returns
        (SpanStyle { tint: Tint::Plain, bold: false, dim: true, italic: false }),
{
    SpanStyle { tint: Tint::Plain, bold: false, dim: true, italic: false }
}

/// Bold text.
#[verifier::allow_in_spec]
pub fn bold() -> SpanStyle
    returns
        (SpanStyle { tint: Tint::Plain, bold: true, dim: false, italic: false }),
{
    SpanStyle { tint: Tint::Plain, bold: true, dim: false, italic: false }
}

/// Text in a colour.
#[verifier::allow_in_spec]
pub fn tinted(tint: Tint) -> SpanStyle
    returns
        (SpanStyle { tint: tint, bold: false, dim: false, italic: false }),
{
    SpanStyle { tint: tint, bold: false, dim: false, italic: false }
}

/// A piece of text in one style.
#[derive(Debug)]
pub struct StyledSpan {
    pub content: String,
    pub style: SpanStyle,
}

/// The model of a piece of text in one style.
pub type SpanModel = (Seq<char>, SpanStyle);

impl DeepView for StyledSpan {
    type V = (Seq<char>, SpanStyle);

    open spec fn deep_view(&self) -> Self::V {
        (self.content@, self.style)
    }
}

impl Data for StyledSpan {
    fn same(&self, other: &Self) -> (r: bool) {
        self.content == other.content && self.style == other.style
    }

    fn duplicate(&self) -> (r: Self) {
        StyledSpan { content: self.content.clone(), style: self.style }
    }
}

/// A line of styled text.
#[derive(Debug)]
pub struct StyledLine {
    pub spans: Vec<StyledSpan>,
}

/// The model of a line of styled text.
pub type LineModel = Seq<(Seq<char>, SpanStyle)>;

impl DeepView for StyledLine {
    type V = Seq<(Seq<char>, SpanStyle)>;

    open spec fn deep_view(&self) -> Self::V {
        self.spans.deep_view()
    }
}

impl Data for StyledLine {
    fn same(&self, other: &Self) -> (r: bool) {
        self.spans.same(&other.spans)
    }

    fn duplicate(&self) -> (r: Self) {
        StyledLine { spans: self.spans.duplicate() }
    }
}

/// A piece of text in one style.
pub fn span(content: &str, style: SpanStyle) -> (r: StyledSpan)
    ensures
        r.deep_view() == (content@, style),
{
    StyledSpan { content: content.to_owned(), style }
}

/// A piece of text in one style, from a string of its own.
pub fn span_of(content: String, style: SpanStyle) -> (r: StyledSpan)
    ensures
        r.deep_view() == (content@, style),
{
    StyledSpan { content, style }
}

/// A line of one piece.
pub fn line1(a: StyledSpan) -> (r: StyledLine)
    ensures
        r.deep_view() == seq![a.deep_view()],
{
    let mut spans: Vec<StyledSpan> = Vec::new();
    spans.push(a);
    let r = StyledLine { spans };
    assert(r.deep_view() =~= seq![a.deep_view()]);
    r
}

/// A line of two pieces.
pub fn line2(a: StyledSpan, b: StyledSpan) -> (r: StyledLine)
    ensures
        r.deep_view() == seq![a.deep_view(), b.deep_view()],
{
    let mut spans: Vec<StyledSpan> = Vec::new();
    spans.push(a);
    spans.push(b);
    let r = StyledLine { spans };
    assert(r.deep_view() =~= seq![a.deep_view(), b.deep_view()]);
    r
}

/// A line of three pieces.
pub fn line3(a: StyledSpan, b: StyledSpan, c: StyledSpan) -> (r: StyledLine)
    ensures
        r.deep_view() == seq![a.deep_view(), b.deep_view(), c.deep_view()],
{
    let mut spans: Vec<StyledSpan> = Vec::new();
    spans.push(a);
    spans.push(b);
    spans.push(c);
    let r = StyledLine { spans };
    assert(r.deep_view() =~= seq![a.deep_view(), b.deep_view(), c.deep_view()]);
    r
}

/// Adds a piece at the end of some pieces.
pub fn push_span(spans: &mut Vec<StyledSpan>, content: &str, style: SpanStyle)
    ensures
        final(spans).deep_view() == old(spans).deep_view().push((content@, style)),
{
    spans.push(span(content, style));
    assert(spans.deep_view() =~= old(spans).deep_view().push((content@, style)));
}

/// Adds pieces at the end of some pieces.
pub fn append_spans(spans: &mut Vec<StyledSpan>, more: Vec<StyledSpan>)
    ensures
        final(spans).deep_view() == old(spans).deep_view() + more.deep_view(),
{
    let mut rest = more;
    spans.append(&mut rest);
    assert(spans.deep_view() =~= old(spans).deep_view() + more.deep_view());
}

} // verus!
