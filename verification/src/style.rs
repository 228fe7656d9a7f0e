//! Text with colours, as it is put on the screen.

use vstd::prelude::*;

verus! {

/// The colours that the program uses.
#[derive(Clone, Copy, Debug, PartialEq, Eq, Structural)]
pub enum Color {
    Background,
    Surface,
    TextPrimary,
    TextSecondary,
    TextMuted,
    Border,
    AccentPrimary,
    AccentSuccess,
    AccentWarning,
    AccentError,
    ActiveRow,
}

/// The red, green and blue parts of a colour.
pub open spec fn color_parts(color: Color) -> (u8, u8, u8) {
    match color {
        Color::Background => (22, 22, 30),
        Color::Surface => (30, 30, 40),
        Color::TextPrimary => (234, 234, 242),
        Color::TextSecondary => (177, 177, 192),
        Color::TextMuted => (122, 122, 137),
        Color::Border => (50, 50, 65),
        Color::AccentPrimary => (110, 168, 254),
        Color::AccentSuccess => (116, 198, 157),
        Color::AccentWarning => (255, 183, 77),
        Color::AccentError => (255, 107, 107),
        Color::ActiveRow => (39, 54, 79),
    }
}

impl Color {
    /// The red, green and blue parts of the colour.
    pub fn rgb(self) -> (result: (u8, u8, u8))
        ensures
            result == color_parts(self),
    {
        match self {
            Color::Background => (22, 22, 30),
            Color::Surface => (30, 30, 40),
            Color::TextPrimary => (234, 234, 242),
            Color::TextSecondary => (177, 177, 192),
            Color::TextMuted => (122, 122, 137),
            Color::Border => (50, 50, 65),
            Color::AccentPrimary => (110, 168, 254),
            Color::AccentSuccess => (116, 198, 157),
            Color::AccentWarning => (255, 183, 77),
            Color::AccentError => (255, 107, 107),
            Color::ActiveRow => (39, 54, 79),
        }
    }
}

/// How text looks. What is left out stays as it was on the screen.
#[derive(Clone, Copy, Debug, PartialEq, Eq, Structural)]
pub struct Style {
    pub fg: Option<Color>,
    pub bg: Option<Color>,
    pub bold: bool,
}

/// The style that changes nothing.
pub open spec fn plain_style() -> Style {
    Style { fg: None, bg: None, bold: false }
}

/// The style with a colour of its text.
pub open spec fn fg_style(fg: Color) -> Style {
    Style { fg: Some(fg), bg: None, bold: false }
}

/// The style with a colour of its text, in bold type.
pub open spec fn bold_style(fg: Color) -> Style {
    Style { fg: Some(fg), bg: None, bold: true }
}

/// The style with a colour behind its text.
pub open spec fn bg_style(bg: Color) -> Style {
    Style { fg: None, bg: Some(bg), bold: false }
}

/// The style with a colour of its text and one behind it.
pub open spec fn both_style(fg: Color, bg: Color) -> Style {
    Style { fg: Some(fg), bg: Some(bg), bold: false }
}

impl Style {
    /// The style that changes nothing.
    pub fn plain() -> (result: Style)
        ensures
            result == plain_style(),
    {
        Style { fg: None, bg: None, bold: false }
    }

    /// The style with a colour of its text.
    pub fn fg(fg: Color) -> (result: Style)
        ensures
            result == fg_style(fg),
    {
        Style { fg: Some(fg), bg: None, bold: false }
    }

    /// The style with a colour of its text, in bold type.
    pub fn bold(fg: Color) -> (result: Style)
        ensures
            result == bold_style(fg),
    {
        Style { fg: Some(fg), bg: None, bold: true }
    }

    /// The style with a colour behind its text.
    pub fn bg(bg: Color) -> (result: Style)
        ensures
            result == bg_style(bg),
    {
        Style { fg: None, bg: Some(bg), bold: false }
    }

    /// The style with a colour of its text and one behind it.
    pub fn both(fg: Color, bg: Color) -> (result: Style)
        ensures
            result == both_style(fg, bg),
    {
        Style { fg: Some(fg), bg: Some(bg), bold: false }
    }
}

/// A piece of text in one style.
pub struct Span {
    pub text: String,
    pub style: Style,
}

/// What a span holds.
#[verifier::ext_equal]
pub struct SpanView {
    pub text: Seq<char>,
    pub style: Style,
}

impl View for Span {
    type V = SpanView;

    open spec fn view(&self) -> SpanView {
        SpanView { text: self.text@, style: self.style }
    }
}

/// The span of a text in a style.
pub open spec fn styled(text: Seq<char>, style: Style) -> SpanView {
    SpanView { text, style }
}

/// The span of a text without a style.
pub open spec fn raw(text: Seq<char>) -> SpanView {
    SpanView { text, style: plain_style() }
}

impl Span {
    /// The span of a text in a style.
    pub fn styled(text: String, style: Style) -> (result: Span)
        ensures
            result@ == styled(text@, style),
    {
        Span { text, style }
    }

    /// The span of a text without a style.
    pub fn raw(text: String) -> (result: Span)
        ensures
            result@ == raw(text@),
    {
        Span { text, style: Style::plain() }
    }
}

/// What the spans of a list hold.
pub open spec fn span_views(spans: Seq<Span>) -> Seq<SpanView> {
    spans.map_values(|span: Span| span@)
}

/// A line of text: one text without a style, or some spans.
pub enum Line {
    Plain(String),
    Spans(Vec<Span>),
}

/// What a line holds.
#[verifier::ext_equal]
pub enum LineView {
    Plain(Seq<char>),
    Spans(Seq<SpanView>),
}

impl View for Line {
    type V = LineView;

    open spec fn view(&self) -> LineView {
        match self {
            Line::Plain(text) => LineView::Plain(text@),
            Line::Spans(spans) => LineView::Spans(span_views(spans@)),
        }
    }
}

/// The line of one span.
pub open spec fn line_of(span: SpanView) -> LineView {
    LineView::Spans(seq![span])
}

/// The text of some spans, one behind the other.
pub open spec fn spans_text(spans: Seq<SpanView>) -> Seq<char>
    decreases spans.len(),
{
    if spans.len() == 0 {
        Seq::empty()
    } else {
        spans_text(spans.drop_last()) + spans.last().text
    }
}

impl LineView {
    /// The text of the line.
    pub open spec fn text(self) -> Seq<char> {
        match self {
            LineView::Plain(text) => text,
            LineView::Spans(spans) => spans_text(spans),
        }
    }
}

impl Line {
    /// The line of one span.
    pub fn of(span: Span) -> (result: Line)
        ensures
            result@ == line_of(span@),
    {
        let spans = vec![span];
        assert(span_views(spans@) =~= seq![span@]);
        Line::Spans(spans)
    }
}

/// What the lines of a list hold.
pub open spec fn line_views(lines: Seq<Line>) -> Seq<LineView> {
    lines.map_values(|line: Line| line@)
}

/// Text of any number of lines: one text without a style, or its lines.
pub enum Text {
    Plain(String),
    Lines(Vec<Line>),
}

/// What a text holds.
#[verifier::ext_equal]
pub enum TextView {
    Plain(Seq<char>),
    Lines(Seq<LineView>),
}

impl View for Text {
    type V = TextView;

    open spec fn view(&self) -> TextView {
        match self {
            Text::Plain(text) => TextView::Plain(text@),
            Text::Lines(lines) => TextView::Lines(line_views(lines@)),
        }
    }
}

impl Text {
    /// The text of one line.
    pub fn of(line: Line) -> (result: Text)
        ensures
            result@ == TextView::Lines(seq![line@]),
    {
        let lines = vec![line];
        assert(line_views(lines@) =~= seq![line@]);
        Text::Lines(lines)
    }
}

} // verus!
