//! What is drawn: styled text, and the widgets that hold it.

use crate::battery::{Health, PowerDraw, Remaining};
use crate::layout::Area;
use crate::system::MemoryShare;
use vstd::prelude::*;
use vstd::string::*;

verus! {

// ── Colours and styles ──────────────────────────────────────────────────────

/// A colour.
#[derive(Debug, Clone, Copy, PartialEq, Eq, Structural)]
pub struct Color {
    pub red: u8,
    pub green: u8,
    pub blue: u8,
}

/// How a piece of text looks.
#[derive(Debug, Clone, Copy, PartialEq, Eq, Structural)]
pub struct Style {
    pub fg: Option<Color>,
    pub bg: Option<Color>,
    pub bold: bool,
}

/// The accent.
#[verifier::allow_in_spec]
pub fn green() -> Color
    returns
        (Color { red: 61, green: 220, blue: 132 }),
{
    Color { red: 61, green: 220, blue: 132 }
}

/// The colour of primary text.
#[verifier::allow_in_spec]
pub fn white() -> Color
    returns
        (Color { red: 255, green: 255, blue: 255 }),
{
    Color { red: 255, green: 255, blue: 255 }
}

/// A light grey, clearly readable.
#[verifier::allow_in_spec]
pub fn light() -> Color
    returns
        (Color { red: 170, green: 170, blue: 170 }),
{
    Color { red: 170, green: 170, blue: 170 }
}

/// A medium grey, visible but secondary.
#[verifier::allow_in_spec]
pub fn medium() -> Color
    returns
        (Color { red: 110, green: 110, blue: 110 }),
{
    Color { red: 110, green: 110, blue: 110 }
}

/// The colour of what is wrong.
#[verifier::allow_in_spec]
pub fn red() -> Color
    returns
        (Color { red: 220, green: 70, blue: 70 }),
{
    Color { red: 220, green: 70, blue: 70 }
}

/// The colour of borders.
#[verifier::allow_in_spec]
pub fn edge() -> Color
    returns
        (Color { red: 50, green: 50, blue: 50 }),
{
    Color { red: 50, green: 50, blue: 50 }
}

/// The border of what the keys go to.
#[verifier::allow_in_spec]
pub fn leaf() -> Color
    returns
        (Color { red: 35, green: 60, blue: 45 }),
{
    Color { red: 35, green: 60, blue: 45 }
}

/// A grey.
#[verifier::allow_in_spec]
pub fn grey(level: u8) -> Color
    returns
        (Color { red: level, green: level, blue: level }),
{
    Color { red: level, green: level, blue: level }
}

/// Text of a colour.
#[verifier::allow_in_spec]
pub fn fg(color: Color) -> Style
    returns
        (Style { fg: Some(color), bg: None, bold: false }),
{
    Style { fg: Some(color), bg: None, bold: false }
}

/// A ground of a colour.
#[verifier::allow_in_spec]
pub fn ground(color: Color) -> Style
    returns
        (Style { fg: None, bg: Some(color), bold: false }),
{
    Style { fg: None, bg: Some(color), bold: false }
}

impl Style {
    /// The style on a ground of a colour.
    #[verifier::allow_in_spec]
    pub fn on(self, color: Color) -> Style
        returns
            (Style { bg: Some(color), ..self }),
    {
        Style { bg: Some(color), ..self }
    }

    /// The style in bold.
    #[verifier::allow_in_spec]
    pub fn strong(self) -> Style
        returns
            (Style { bold: true, ..self }),
    {
        Style { bold: true, ..self }
    }
}

/// The accent.
#[verifier::allow_in_spec]
pub fn g() -> Style
    returns
        fg(green()),
{
    fg(green())
}

/// Primary text.
#[verifier::allow_in_spec]
pub fn txt() -> Style
    returns
        fg(white()),
{
    fg(white())
}

/// Readable text.
#[verifier::allow_in_spec]
pub fn dim() -> Style
    returns
        fg(light()),
{
    fg(light())
}

/// Secondary text.
#[verifier::allow_in_spec]
pub fn fnt() -> Style
    returns
        fg(medium()),
{
    fg(medium())
}

/// What is wrong.
#[verifier::allow_in_spec]
pub fn dng() -> Style
    returns
        fg(red()),
{
    fg(red())
}

/// The accent in bold.
#[verifier::allow_in_spec]
pub fn bg() -> Style
    returns
        fg(green()).strong(),
{
    fg(green()).strong()
}

/// A border.
#[verifier::allow_in_spec]
pub fn line_border() -> Style
    returns
        fg(edge()),
{
    fg(edge())
}

/// One of two styles.
#[verifier::allow_in_spec]
pub fn either(first: bool, a: Style, b: Style) -> Style
    returns
        (if first {
            a
        } else {
            b
        }),
{
    if first {
        a
    } else {
        b
    }
}

// ── Text ────────────────────────────────────────────────────────────────────

/// A number that is written with a decimal point.
#[derive(Debug, Clone, Copy, PartialEq, Eq, Structural)]
pub enum Figure {
    /// A number of millionths, written with one digit after the point.
    Millionths(i64),
    /// The same without its sign.
    Magnitude(i64),
    /// A power in watts, written with one digit after the point.
    Power(PowerDraw),
    /// A number of thousandths, written without a digit after the point.
    Thousandths(i64),
    /// A number of thousandths, written with one digit after the point.
    ThousandthsTo1(i64),
    /// A percentage, written without a digit after the point.
    Health(Health),
    /// The share of the memory that is used in percent, written without a digit
    /// after the point.
    Share(MemoryShare),
    /// A time, written in hours and minutes of two digits.
    Hours(Remaining),
}

/// A piece of text in one style. A figure may stand in it.
#[derive(Debug, Clone)]
pub struct Span {
    pub before: String,
    pub figure: Option<Figure>,
    pub after: String,
    pub style: Style,
}

/// What a `Span` holds.
pub struct SpanView {
    pub before: Seq<char>,
    pub figure: Option<Figure>,
    pub after: Seq<char>,
    pub style: Style,
}

impl View for Span {
    type V = SpanView;

    open spec fn view(&self) -> SpanView {
        SpanView {
            before: self.before@,
            figure: self.figure,
            after: self.after@,
            style: self.style,
        }
    }
}

/// A span of text alone.
pub open spec fn words(text: Seq<char>, style: Style) -> SpanView {
    SpanView { before: text, figure: None, after: seq![], style }
}

/// A span with a figure in it.
pub open spec fn around(before: Seq<char>, figure: Figure, after: Seq<char>, style: Style) -> SpanView {
    SpanView { before, figure: Some(figure), after, style }
}

/// A line of text.
#[derive(Debug, Clone)]
pub struct Line {
    pub spans: Vec<Span>,
}

impl View for Line {
    type V = Seq<SpanView>;

    open spec fn view(&self) -> Seq<SpanView> {
        Seq::new(self.spans@.len(), |i: int| self.spans@[i]@)
    }
}

impl Line {
    /// The empty line.
    pub fn new() -> (r: Self)
        ensures
            r@ == Seq::<SpanView>::empty(),
    {
        let r = Line { spans: Vec::new() };
        assert(r@ =~= Seq::<SpanView>::empty());
        r
    }

    /// Adds a span.
    pub fn push(&mut self, span: Span)
        ensures
            final(self)@ == old(self)@.push(span@),
    {
        self.spans.push(span);
        assert(self@ =~= old(self)@.push(span@));
    }

    /// Adds some text.
    pub fn text(&mut self, s: &str, style: Style)
        ensures
            final(self)@ == old(self)@.push(words(s@, style)),
    {
        self.push(span(s.to_owned(), style));
    }

    /// Adds some text.
    pub fn string(&mut self, s: String, style: Style)
        ensures
            final(self)@ == old(self)@.push(words(s@, style)),
    {
        self.push(span(s, style));
    }

    /// Adds a figure with some text around it.
    pub fn figure(&mut self, before: &str, figure: Figure, after: &str, style: Style)
        ensures
            final(self)@ == old(self)@.push(around(before@, figure, after@, style)),
    {
        self.push(
            Span { before: before.to_owned(), figure: Some(figure), after: after.to_owned(), style },
        );
    }
}

/// A span of text alone.
pub fn span(s: String, style: Style) -> (r: Span)
    ensures
        r@ == words(s@, style),
{
    let r = Span { before: s, figure: None, after: String::new(), style };
    assert(r@.after =~= seq![]);
    r
}

/// A line of one span.
pub fn line(s: &str, style: Style) -> (r: Line)
    ensures
        r@ == seq![words(s@, style)],
{
    let mut r = Line::new();
    r.text(s, style);
    r
}

// ── Widgets ─────────────────────────────────────────────────────────────────

/// Something that is drawn in an area.
#[derive(Debug, Clone)]
pub enum Widget {
    /// A border around the area, with a title where it has one.
    Frame { title: Option<Span>, border: Style },
    /// Lines of text.
    Text { lines: Vec<Line>, right: bool, style: Option<Style> },
    /// A bar that is filled to a percentage, with a label on it.
    Gauge { percent: u16, style: Style, label: Span },
    /// A list with a border at its right of which one item is chosen.
    List { items: Vec<Span>, border: Style, chosen_style: Style, chosen_mark: String, chosen: usize },
}

/// What a `Widget` holds.
pub enum WidgetView {
    Frame { title: Option<SpanView>, border: Style },
    Text { lines: Seq<Seq<SpanView>>, right: bool, style: Option<Style> },
    Gauge { percent: u16, style: Style, label: SpanView },
    List {
        items: Seq<SpanView>,
        border: Style,
        chosen_style: Style,
        chosen_mark: Seq<char>,
        chosen: usize,
    },
}

/// What some lines hold.
pub open spec fn line_views(lines: Seq<Line>) -> Seq<Seq<SpanView>> {
    Seq::new(lines.len(), |i: int| lines[i]@)
}

/// What some spans hold.
pub open spec fn span_views(spans: Seq<Span>) -> Seq<SpanView> {
    Seq::new(spans.len(), |i: int| spans[i]@)
}

impl View for Widget {
    type V = WidgetView;

    open spec fn view(&self) -> WidgetView {
        match self {
            Widget::Frame { title, border } => WidgetView::Frame {
                title: match title {
                    Some(t) => Some(t@),
                    None => None,
                },
                border: *border,
            },
            Widget::Text { lines, right, style } => WidgetView::Text {
                lines: line_views(lines@),
                right: *right,
                style: *style,
            },
            Widget::Gauge { percent, style, label } => WidgetView::Gauge {
                percent: *percent,
                style: *style,
                label: label@,
            },
            Widget::List { items, border, chosen_style, chosen_mark, chosen } => WidgetView::List {
                items: span_views(items@),
                border: *border,
                chosen_style: *chosen_style,
                chosen_mark: chosen_mark@,
                chosen: *chosen,
            },
        }
    }
}

/// A widget in its area.
#[derive(Debug, Clone)]
pub struct Placed {
    pub area: Area,
    pub widget: Widget,
}

/// What a `Placed` holds.
pub struct PlacedView {
    pub area: Area,
    pub widget: WidgetView,
}

impl View for Placed {
    type V = PlacedView;

    open spec fn view(&self) -> PlacedView {
        PlacedView { area: self.area, widget: self.widget@ }
    }
}

/// A border with a title in an area.
pub open spec fn framed(area: Area, title: Seq<char>, title_style: Style, border: Style) -> PlacedView {
    PlacedView {
        area,
        widget: WidgetView::Frame { title: Some(words(title, title_style)), border },
    }
}

/// A border without a title in an area.
pub open spec fn boxed(area: Area, border: Style) -> PlacedView {
    PlacedView { area, widget: WidgetView::Frame { title: None, border } }
}

/// Lines of text in an area.
pub open spec fn written(area: Area, lines: Seq<Seq<SpanView>>) -> PlacedView {
    PlacedView { area, widget: WidgetView::Text { lines, right: false, style: None } }
}

/// A bar in an area.
pub open spec fn gauged(area: Area, percent: u16, style: Style, label: SpanView) -> PlacedView {
    PlacedView { area, widget: WidgetView::Gauge { percent, style, label } }
}

/// Widgets that are drawn one after the other.
#[derive(Debug, Clone)]
pub struct Scene {
    pub placed: Vec<Placed>,
}

impl View for Scene {
    type V = Seq<PlacedView>;

    open spec fn view(&self) -> Seq<PlacedView> {
        Seq::new(self.placed@.len(), |i: int| self.placed@[i]@)
    }
}

impl Scene {
    /// The empty scene.
    pub fn new() -> (r: Self)
        ensures
            r@ == Seq::<PlacedView>::empty(),
    {
        let r = Scene { placed: Vec::new() };
        assert(r@ =~= Seq::<PlacedView>::empty());
        r
    }

    /// Adds a widget in an area.
    pub fn place(&mut self, area: Area, widget: Widget)
        ensures
            final(self)@ == old(self)@.push(PlacedView { area, widget: widget@ }),
    {
        let p = Placed { area, widget };
        self.placed.push(p);
        assert(self@ =~= old(self)@.push(p@));
    }

    /// Adds a border with a title.
    pub fn frame(&mut self, area: Area, title: &str, title_style: Style, border: Style)
        ensures
            final(self)@ == old(self)@.push(framed(area, title@, title_style, border)),
    {
        let title = span(title.to_owned(), title_style);
        self.place(area, Widget::Frame { title: Some(title), border });
    }

    /// Adds a border without a title.
    pub fn plain_frame(&mut self, area: Area, border: Style)
        ensures
            final(self)@ == old(self)@.push(boxed(area, border)),
    {
        self.place(area, Widget::Frame { title: None, border });
    }

    /// Adds lines of text.
    pub fn lines(&mut self, area: Area, lines: Vec<Line>)
        ensures
            final(self)@ == old(self)@.push(written(area, line_views(lines@))),
    {
        self.place(area, Widget::Text { lines, right: false, style: None });
    }

    /// Adds a line of text.
    pub fn line(&mut self, area: Area, line: Line)
        ensures
            final(self)@ == old(self)@.push(written(area, seq![line@])),
    {
        let mut lines: Vec<Line> = Vec::new();
        lines.push(line);
        assert(line_views(lines@) =~= seq![line@]);
        self.lines(area, lines);
    }

    /// Adds a bar.
    pub fn gauge(&mut self, area: Area, percent: u16, style: Style, label: Span)
        ensures
            final(self)@ == old(self)@.push(gauged(area, percent, style, label@)),
    {
        self.place(area, Widget::Gauge { percent, style, label });
    }

    /// Adds all of another scene.
    pub fn append(&mut self, other: Scene)
        ensures
            final(self)@ == old(self)@ + other@,
    {
        let mut placed = other.placed;
        self.placed.append(&mut placed);
        assert(self@ =~= old(self)@ + other@);
    }
}

// ── Laws ────────────────────────────────────────────────────────────────────

/// The colours are told apart: no two of them are the same, and text is in the
/// colour that it is named after.
pub proof fn law_colours_apart()
    ensures
        green() != red(),
        green() != white(),
        green() != light(),
        green() != medium(),
        red() != white(),
        red() != light(),
        red() != medium(),
        white() != light(),
        white() != medium(),
        light() != medium(),
        leaf() != edge(),
        edge() == grey(50),
        g().fg == Some(green()) && !g().bold,
        bg().fg == Some(green()) && bg().bold,
        txt().fg == Some(white()) && !txt().bold,
        dim().fg == Some(light()) && !dim().bold,
        fnt().fg == Some(medium()) && !fnt().bold,
        dng().fg == Some(red()) && !dng().bold,
        line_border().fg == Some(edge()),
{
}

} // verus!
