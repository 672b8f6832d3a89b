//! What the picker draws, as plain data: areas, coloured text and the list of
//! things to put on the screen, in order.
use crate::text;
use vstd::prelude::*;

verus! {

/// A number cut off at the largest screen coordinate.
pub open spec fn cut(n: int) -> u16 {
    if n > 0xffff {
        0xffff
    } else {
        n as u16
    }
}

/// A rectangle of screen cells.
#[derive(Clone, Copy, Debug, PartialEq, Eq, Structural)]
pub struct Rect {
    pub x: u16,
    pub y: u16,
    pub width: u16,
    pub height: u16,
}

impl Rect {
    /// The rectangle with no cells.
    pub open spec fn nowhere() -> Rect {
        Rect { x: 0, y: 0, width: 0, height: 0 }
    }

    /// The column after the last one.
    pub open spec fn end_x(self) -> u16 {
        cut(self.x + self.width)
    }

    /// The row after the last one.
    pub open spec fn end_y(self) -> u16 {
        cut(self.y + self.height)
    }

    /// Whether the cell lies in the rectangle.
    pub open spec fn holds(self, x: u16, y: u16) -> bool {
        self.x <= x < self.end_x() && self.y <= y < self.end_y()
    }

    /// What a border on all four sides leaves.
    pub open spec fn within_border(self) -> Rect {
        let x = if cut(self.x + 1) <= self.end_x() {
            cut(self.x + 1)
        } else {
            self.end_x()
        };
        let y = if cut(self.y + 1) <= self.end_y() {
            cut(self.y + 1)
        } else {
            self.end_y()
        };
        Rect {
            x,
            y,
            width: if self.width >= 2 {
                (self.width - 2) as u16
            } else {
                0
            },
            height: if self.height >= 2 {
                (self.height - 2) as u16
            } else {
                0
            },
        }
    }

    /// Whether the rectangle lies within another one.
    pub open spec fn inside(self, outer: Rect) -> bool {
        &&& outer.x <= self.x
        &&& self.x + self.width <= outer.x + outer.width
        &&& outer.y <= self.y
        &&& self.y + self.height <= outer.y + outer.height
    }

    /// Whether the rectangle ends where columns and rows can still be counted.
    pub open spec fn countable(self) -> bool {
        self.x + self.width <= u16::MAX && self.y + self.height <= u16::MAX
    }

    /// What is left of the rectangle below its first rows.
    pub open spec fn below(self, n: int) -> Rect {
        Rect {
            x: self.x,
            y: cut(self.y + n),
            width: self.width,
            height: (self.height - n) as u16,
        }
    }

    /// One row of the rectangle, counted from its top.
    pub open spec fn row(self, n: int) -> Rect {
        Rect { x: self.x, y: cut(self.y + n), width: self.width, height: 1 }
    }

    /// The rectangle with no cells.
    pub fn none() -> (rect: Rect)
        ensures
            rect == Rect::nowhere(),
    {
        Rect { x: 0, y: 0, width: 0, height: 0 }
    }

    pub fn new(x: u16, y: u16, width: u16, height: u16) -> (rect: Rect)
        ensures
            rect == (Rect { x, y, width, height }),
    {
        Rect { x, y, width, height }
    }

    /// The column after the last one.
    pub fn right(self) -> (end: u16)
        ensures
            end == self.end_x(),
    {
        self.x.saturating_add(self.width)
    }

    /// The row after the last one.
    pub fn bottom(self) -> (end: u16)
        ensures
            end == self.end_y(),
    {
        self.y.saturating_add(self.height)
    }

    /// Whether the cell lies in the rectangle.
    pub fn contains(self, x: u16, y: u16) -> (yes: bool)
        ensures
            yes == self.holds(x, y),
    {
        x >= self.x && x < self.right() && y >= self.y && y < self.bottom()
    }

    /// What a border on all four sides leaves.
    pub fn inner(self) -> (rect: Rect)
        ensures
            rect == self.within_border(),
    {
        let right: u16 = self.right();
        let bottom: u16 = self.bottom();
        let x: u16 = self.x.saturating_add(1);
        let y: u16 = self.y.saturating_add(1);
        Rect {
            x: if x <= right {
                x
            } else {
                right
            },
            y: if y <= bottom {
                y
            } else {
                bottom
            },
            width: self.width.saturating_sub(2),
            height: self.height.saturating_sub(2),
        }
    }

    /// One row of the rectangle, counted from its top.
    pub fn line(self, n: u16) -> (rect: Rect)
        ensures
            rect == self.row(n as int),
    {
        Rect { x: self.x, y: self.y.saturating_add(n), width: self.width, height: 1 }
    }
}

/// A terminal colour.
#[derive(Clone, Copy, Debug, PartialEq, Eq, Structural)]
pub enum Color {
    Indexed(u8),
    Blue,
    Cyan,
    DarkGray,
    Red,
    White,
}

/// How text is drawn. What is not set comes from what lies underneath.
#[derive(Clone, Copy, Debug, PartialEq, Eq, Structural)]
pub struct Style {
    pub fg: Option<Color>,
    pub bg: Option<Color>,
    pub bold: bool,
    pub underlined: bool,
}

/// What a piece of text is for, which decides how it is drawn.
#[derive(Clone, Copy, Debug, PartialEq, Eq, Structural)]
pub enum Tone {
    Plain,
    Border,
    Prompt,
    Info,
    Header,
    /// The tab of the mode being shown.
    Tab,
    Pointer,
    Match,
    /// Directories in the column being worked in.
    Dir,
    /// The side columns are context, so they are muted.
    Side,
    SideDir,
    /// The middle column's directory inside a side column.
    Here,
    /// The ancestors in the header path.
    Trail,
    Notice,
    NoticeBad,
    /// The last step of the header path.
    HerePath,
    /// The row under the cursor.
    Current,
    /// A directory in the preview of a search.
    Folder,
    /// What the action menu acts on.
    Target,
    Failure,
    /// A remark behind an action's name.
    Remark,
    /// The action under the cursor.
    Chosen,
    /// An icon in a colour of its own.
    Icon(u8),
}

impl Tone {
    /// The style a tone is drawn in. The indexed colours are those of fzf's
    /// dark theme.
    pub open spec fn paint(self) -> Style {
        let plain = Style { fg: None, bg: None, bold: false, underlined: false };
        match self {
            Tone::Plain => plain,
            Tone::Border => Style { fg: Some(Color::Indexed(240)), ..plain },
            Tone::Prompt => Style { fg: Some(Color::Indexed(110)), ..plain },
            Tone::Info => Style { fg: Some(Color::Indexed(144)), ..plain },
            Tone::Header => Style { fg: Some(Color::Indexed(109)), ..plain },
            Tone::Tab => Style {
                fg: Some(Color::Indexed(109)),
                bg: None,
                bold: true,
                underlined: true,
            },
            Tone::Pointer => Style { fg: Some(Color::Indexed(161)), ..plain },
            Tone::Match => Style { fg: Some(Color::Indexed(108)), ..plain },
            Tone::Dir => Style { fg: Some(Color::Indexed(75)), ..plain },
            Tone::Side => Style { fg: Some(Color::Indexed(244)), ..plain },
            Tone::SideDir => Style { fg: Some(Color::Indexed(67)), ..plain },
            Tone::Here => Style { fg: Some(Color::Indexed(161)), bold: true, ..plain },
            Tone::Trail => Style { fg: Some(Color::Indexed(244)), ..plain },
            Tone::Notice => Style { fg: Some(Color::Indexed(109)), bold: true, ..plain },
            Tone::NoticeBad => Style { fg: Some(Color::Indexed(161)), bold: true, ..plain },
            Tone::HerePath => Style { fg: Some(Color::Indexed(255)), bold: true, ..plain },
            Tone::Current => Style {
                fg: Some(Color::Indexed(255)),
                bg: Some(Color::Indexed(236)),
                bold: true,
                underlined: false,
            },
            Tone::Folder => Style { fg: Some(Color::Blue), bold: true, ..plain },
            Tone::Target => Style { fg: Some(Color::Cyan), ..plain },
            Tone::Failure => Style { fg: Some(Color::Red), ..plain },
            Tone::Remark => Style { fg: Some(Color::DarkGray), ..plain },
            Tone::Chosen => Style {
                fg: Some(Color::White),
                bg: Some(Color::Indexed(236)),
                bold: true,
                underlined: false,
            },
            Tone::Icon(index) => Style { fg: Some(Color::Indexed(index)), ..plain },
        }
    }

    /// The style a tone is drawn in.
    pub fn style(self) -> (style: Style)
        ensures
            style == self.paint(),
    {
        let (fg, bold): (Option<Color>, bool) = match self {
            Tone::Plain => (None, false),
            Tone::Border => (Some(Color::Indexed(240)), false),
            Tone::Prompt => (Some(Color::Indexed(110)), false),
            Tone::Info => (Some(Color::Indexed(144)), false),
            Tone::Header => (Some(Color::Indexed(109)), false),
            Tone::Tab => (Some(Color::Indexed(109)), true),
            Tone::Pointer => (Some(Color::Indexed(161)), false),
            Tone::Match => (Some(Color::Indexed(108)), false),
            Tone::Dir => (Some(Color::Indexed(75)), false),
            Tone::Side => (Some(Color::Indexed(244)), false),
            Tone::SideDir => (Some(Color::Indexed(67)), false),
            Tone::Here => (Some(Color::Indexed(161)), true),
            Tone::Trail => (Some(Color::Indexed(244)), false),
            Tone::Notice => (Some(Color::Indexed(109)), true),
            Tone::NoticeBad => (Some(Color::Indexed(161)), true),
            Tone::HerePath => (Some(Color::Indexed(255)), true),
            Tone::Current => (Some(Color::Indexed(255)), true),
            Tone::Folder => (Some(Color::Blue), true),
            Tone::Target => (Some(Color::Cyan), false),
            Tone::Failure => (Some(Color::Red), false),
            Tone::Remark => (Some(Color::DarkGray), false),
            Tone::Chosen => (Some(Color::White), true),
            Tone::Icon(index) => (Some(Color::Indexed(index)), false),
        };
        let bg: Option<Color> = match self {
            Tone::Current | Tone::Chosen => Some(Color::Indexed(236)),
            _ => None,
        };
        Style { fg, bg, bold, underlined: matches!(self, Tone::Tab) }
    }
}

/// A piece of text in one tone.
#[derive(Debug, PartialEq, Eq)]
pub struct Span {
    pub text: String,
    pub tone: Tone,
}

/// A piece of text as mathematical values.
#[verifier::ext_equal]
pub struct SpanView {
    pub text: Seq<char>,
    pub tone: Tone,
}

impl View for Span {
    type V = SpanView;

    open spec fn view(&self) -> SpanView {
        SpanView { text: self.text@, tone: self.tone }
    }
}

/// A piece of text in one tone.
pub open spec fn spanned(text: Seq<char>, tone: Tone) -> SpanView {
    SpanView { text, tone }
}

/// A piece of text in one tone.
pub fn span(text: &str, tone: Tone) -> (span: Span)
    ensures
        span@ == spanned(text@, tone),
{
    Span { text: text.to_owned(), tone }
}

/// Adds a piece of text at the end of the list.
pub fn add_span(spans: &mut Vec<Span>, text: &str, tone: Tone)
    ensures
        text::views(final(spans)@) == text::views(old(spans)@).push(spanned(text@, tone)),
        final(spans)@.len() == old(spans)@.len() + 1,
{
    let piece = span(text, tone);
    proof {
        text::lemma_views_push(spans@, piece);
    }
    spans.push(piece);
}

/// One line of text. Its tone lies under the tones of its pieces.
#[derive(Debug, PartialEq, Eq)]
pub struct Line {
    pub spans: Vec<Span>,
    pub tone: Tone,
    /// Whether the line is aligned to the right.
    pub right: bool,
}

/// A line as mathematical values.
#[verifier::ext_equal]
pub struct LineView {
    pub spans: Seq<SpanView>,
    pub tone: Tone,
    pub right: bool,
}

impl View for Line {
    type V = LineView;

    open spec fn view(&self) -> LineView {
        LineView { spans: text::views(self.spans@), tone: self.tone, right: self.right }
    }
}

/// A line of the given pieces with nothing under them.
pub open spec fn lined(spans: Seq<SpanView>) -> LineView {
    LineView { spans, tone: Tone::Plain, right: false }
}

/// A line of one piece.
pub open spec fn one_line(text: Seq<char>, tone: Tone) -> LineView {
    lined(seq![spanned(text, tone)])
}

/// A line of the given pieces with nothing under them.
pub fn line(spans: Vec<Span>) -> (line: Line)
    ensures
        line@ == lined(text::views(spans@)),
{
    Line { spans, tone: Tone::Plain, right: false }
}

/// A line of one piece.
pub fn line_of(text: &str, tone: Tone) -> (out: Line)
    ensures
        out@ == one_line(text@, tone),
{
    let mut spans: Vec<Span> = Vec::new();
    add_span(&mut spans, text, tone);
    assert(text::views(spans@) =~= seq![spanned(text@, tone)]);
    line(spans)
}

/// Adds a line at the end of the list.
pub fn add_line(lines: &mut Vec<Line>, line: Line)
    ensures
        text::views(final(lines)@) == text::views(old(lines)@).push(line@),
        final(lines)@.len() == old(lines)@.len() + 1,
{
    proof {
        text::lemma_views_push(lines@, line);
    }
    lines.push(line);
}

/// Something to put on the screen.
#[derive(Debug, PartialEq, Eq)]
pub enum Draw {
    /// A border with rounded corners round the area, with text on its top and
    /// bottom edges.
    Frame { area: Rect, tone: Tone, title: Line, bottom: Line },
    /// Lines of text from the top of the area, broken where they are too long
    /// if `wrap` says so.
    Text { area: Rect, lines: Vec<Line>, wrap: bool },
    /// The rows of a list from the top of the area.
    Rows { area: Rect, lines: Vec<Line> },
}

/// Something to put on the screen, as mathematical values.
#[verifier::ext_equal]
pub enum DrawView {
    Frame { area: Rect, tone: Tone, title: LineView, bottom: LineView },
    Text { area: Rect, lines: Seq<LineView>, wrap: bool },
    Rows { area: Rect, lines: Seq<LineView> },
}

impl DrawView {
    /// Where it is drawn.
    pub open spec fn place(self) -> Rect {
        match self {
            DrawView::Frame { area, .. } => area,
            DrawView::Text { area, .. } => area,
            DrawView::Rows { area, .. } => area,
        }
    }
}

impl View for Draw {
    type V = DrawView;

    open spec fn view(&self) -> DrawView {
        match self {
            Draw::Frame { area, tone, title, bottom } => DrawView::Frame {
                area: *area,
                tone: *tone,
                title: title@,
                bottom: bottom@,
            },
            Draw::Text { area, lines, wrap } => DrawView::Text {
                area: *area,
                lines: text::views(lines@),
                wrap: *wrap,
            },
            Draw::Rows { area, lines } => DrawView::Rows { area: *area, lines: text::views(lines@) },
        }
    }
}

/// Everything on the screen: what to draw, in order, and where the cursor is.
#[derive(Debug, PartialEq, Eq)]
pub struct Screen {
    pub draws: Vec<Draw>,
    pub cursor: Option<(u16, u16)>,
}

/// A screen as mathematical values.
#[verifier::ext_equal]
pub struct ScreenView {
    pub draws: Seq<DrawView>,
    pub cursor: Option<(u16, u16)>,
}

impl ScreenView {
    /// Whether everything is drawn within an area.
    pub open spec fn stays_in(self, area: Rect) -> bool {
        forall|i: int|
            0 <= i < self.draws.len() ==> (#[trigger] self.draws[i]).place().inside(area)
    }
}

impl View for Screen {
    type V = ScreenView;

    open spec fn view(&self) -> ScreenView {
        ScreenView { draws: text::views(self.draws@), cursor: self.cursor }
    }
}

impl ScreenView {
    /// A screen with nothing on it.
    pub open spec fn blank() -> ScreenView {
        ScreenView { draws: Seq::empty(), cursor: None }
    }

    /// The screen with one thing more drawn on it.
    pub open spec fn with(self, draw: DrawView) -> ScreenView {
        ScreenView { draws: self.draws.push(draw), cursor: self.cursor }
    }

    /// The screen with a single line of text drawn on it.
    pub open spec fn with_line(self, area: Rect, line: LineView) -> ScreenView {
        self.with(DrawView::Text { area, lines: seq![line], wrap: false })
    }

    /// The screen with the cursor at the given cell.
    pub open spec fn at(self, x: u16, y: u16) -> ScreenView {
        ScreenView { draws: self.draws, cursor: Some((x, y)) }
    }
}

impl Screen {
    /// A screen with nothing on it.
    pub fn new() -> (screen: Screen)
        ensures
            screen@ == ScreenView::blank(),
    {
        let draws: Vec<Draw> = Vec::new();
        assert(text::views(draws@) =~= Seq::empty());
        Screen { draws, cursor: None }
    }

    /// Draws one thing more.
    pub fn draw(&mut self, draw: Draw)
        ensures
            final(self)@ == old(self)@.with(draw@),
    {
        proof {
            text::lemma_views_push(self.draws@, draw);
        }
        self.draws.push(draw);
    }

    /// Draws a border with text on its edges.
    pub fn frame(&mut self, area: Rect, tone: Tone, title: Line, bottom: Line)
        ensures
            final(self)@ == old(self)@.with(
                DrawView::Frame { area, tone, title: title@, bottom: bottom@ },
            ),
    {
        self.draw(Draw::Frame { area, tone, title, bottom });
    }

    /// Draws lines of text.
    pub fn text(&mut self, area: Rect, lines: Vec<Line>, wrap: bool)
        ensures
            final(self)@ == old(self)@.with(
                DrawView::Text { area, lines: text::views(lines@), wrap },
            ),
    {
        self.draw(Draw::Text { area, lines, wrap });
    }

    /// Draws a single line of text.
    pub fn line(&mut self, area: Rect, line: Line)
        ensures
            final(self)@ == old(self)@.with_line(area, line@),
    {
        let mut lines: Vec<Line> = Vec::new();
        let ghost shown = line@;
        add_line(&mut lines, line);
        assert(text::views(lines@) =~= seq![shown]);
        self.text(area, lines, false);
    }

    /// Draws the rows of a list.
    pub fn rows(&mut self, area: Rect, lines: Vec<Line>)
        ensures
            final(self)@ == old(self)@.with(DrawView::Rows { area, lines: text::views(lines@) }),
    {
        self.draw(Draw::Rows { area, lines });
    }
}

/// A character written `count` times.
pub open spec fn repeated(c: char, count: nat) -> Seq<char> {
    Seq::new(count, |i: int| c)
}

/// A character written `count` times.
pub fn repeat(c: char, count: usize) -> (out: String)
    ensures
        out@ == repeated(c, count as nat),
{
    let mut out = String::new();
    let mut i: usize = 0;
    while i < count
        invariant
            i <= count,
            out@ == repeated(c, i as nat),
        decreases count - i,
    {
        out.push(c);
        i += 1;
        assert(out@ =~= repeated(c, i as nat));
    }
    out
}

/// How much of an area a part of it asks for.
#[derive(Clone, Copy, Debug, PartialEq, Eq, Structural)]
pub enum Size {
    Length(u16),
    Percentage(u16),
    Min(u16),
}

/// The sum of the lengths of the first `count` sizes.
pub open spec fn lengths(sizes: Seq<Size>, count: nat) -> nat
    decreases count,
{
    if count == 0 {
        0
    } else {
        lengths(sizes, (count - 1) as nat) + match sizes[count - 1] {
            Size::Length(n) => n as nat,
            _ => 0,
        }
    }
}

/// Whether sizes are lengths followed by one part that takes what they leave,
/// and there is room for them.
pub open spec fn stacks(sizes: Seq<Size>, room: u16) -> bool {
    &&& sizes.len() > 0
    &&& forall|i: int| 0 <= i < sizes.len() - 1 ==> #[trigger] sizes[i] is Length
    &&& match sizes.last() {
        Size::Min(least) => lengths(sizes, (sizes.len() - 1) as nat) + least <= room,
        _ => false,
    }
}

/// One part of an area cut into lengths from the top and the rest below them.
pub open spec fn stacked(area: Rect, sizes: Seq<Size>, at: int) -> Rect {
    let above = lengths(sizes, at as nat);
    Rect {
        x: area.x,
        y: (area.y + above) as u16,
        width: area.width,
        height: match sizes[at] {
            Size::Length(n) => n,
            _ => (area.height - above) as u16,
        },
    }
}

/// `ratatui::layout::Layout::vertical` and `split`: cuts the area into parts
/// one below the other, one for each size. Each part is as wide as the area
/// and lies within it. Lengths that there is room for are kept, from the top,
/// and a least height behind them takes the rest. How the height is shared out
/// otherwise is left to the layout solver and not stated: the solver walks
/// tables that each process hashes with a seed of its own.
#[verifier::external_body]
pub(crate) fn split_rows(area: Rect, sizes: &Vec<Size>) -> (parts: Vec<Rect>)
    ensures
        parts@.len() == sizes@.len(),
        forall|i: int|
            0 <= i < parts@.len() ==> (#[trigger] parts@[i]).x == area.x && parts@[i].width
                == area.width && area.y <= parts@[i].y && parts@[i].y + parts@[i].height
                <= area.end_y(),
        stacks(sizes@, area.height) && area.y + area.height <= u16::MAX ==> forall|i: int|
            0 <= i < parts@.len() ==> #[trigger] parts@[i] == stacked(area, sizes@, i),
{
    let sizes = sizes.iter().map(|size| match *size {
        Size::Length(n) => ratatui::layout::Constraint::Length(n),
        Size::Percentage(n) => ratatui::layout::Constraint::Percentage(n),
        Size::Min(n) => ratatui::layout::Constraint::Min(n),
    });
    let (x, y, width, height) = (area.x, area.y, area.width, area.height);
    let layout = ratatui::layout::Layout::vertical(sizes);
    let parts = layout.split(ratatui::layout::Rect { x, y, width, height });
    parts.iter().map(|p| Rect { x: p.x, y: p.y, width: p.width, height: p.height }).collect()
}

/// What the first `count` sizes ask for of a width, in hundredths of a column.
pub open spec fn asked(sizes: Seq<Size>, width: u16, count: nat) -> nat
    decreases count,
{
    if count == 0 {
        0
    } else {
        asked(sizes, width, (count - 1) as nat) + match sizes[count - 1] {
            Size::Length(n) => 100 * n as nat,
            Size::Percentage(p) => p as nat * width as nat,
            Size::Min(n) => 100 * n as nat,
        }
    }
}

/// Whether sizes share out a width: at most the last of them takes what the
/// others leave, they ask for no more than there is, and for all of it where
/// none takes the rest.
pub open spec fn shares(sizes: Seq<Size>, width: u16) -> bool {
    &&& sizes.len() > 0
    &&& forall|i: int| 0 <= i < sizes.len() - 1 ==> !(#[trigger] sizes[i] is Min)
    &&& asked(sizes, width, sizes.len()) <= 100 * width
    &&& !(sizes.last() is Min) ==> asked(sizes, width, sizes.len()) == 100 * width
}

/// Whether a part is as wide as its size says, a share to less than a column.
pub open spec fn has_size(part: Rect, size: Size, width: u16) -> bool {
    match size {
        Size::Length(n) => part.width == n,
        Size::Percentage(p) => -100 < 100 * part.width - p * width < 100,
        Size::Min(n) => part.width >= n,
    }
}

/// Whether parts lie side by side in an area from end to end, in the order of
/// their sizes and as wide as these say.
pub open spec fn side_by_side(area: Rect, sizes: Seq<Size>, parts: Seq<Rect>) -> bool {
    &&& parts[0].x == area.x
    &&& parts.last().x + parts.last().width == area.x + area.width
    &&& forall|i: int, j: int|
        0 <= i && j == i + 1 && j < parts.len() ==> (#[trigger] parts[i]).x + parts[i].width == (
        #[trigger] parts[j]).x
    &&& forall|i: int|
        0 <= i < parts.len() ==> has_size(#[trigger] parts[i], sizes[i], area.width)
}

/// `ratatui::layout::Layout::horizontal` and `split`: cuts the area into parts
/// side by side, one for each size. Each part is as high as the area and lies
/// within it. Where the sizes share out the width, the parts follow each other
/// from end to end: lengths are kept, a share is met to less than a column,
/// and a least width at the end takes the rest. How a width is shared out that
/// the sizes do not share out is left to the layout solver and not stated: the
/// solver walks tables that each process hashes with a seed of its own.
#[verifier::external_body]
pub(crate) fn split_columns(area: Rect, sizes: &Vec<Size>) -> (parts: Vec<Rect>)
    ensures
        parts@.len() == sizes@.len(),
        forall|i: int|
            0 <= i < parts@.len() ==> (#[trigger] parts@[i]).y == area.y && parts@[i].height
                == area.height && area.x <= parts@[i].x && parts@[i].x + parts@[i].width
                <= area.end_x(),
        shares(sizes@, area.width) && area.x + area.width <= u16::MAX ==> side_by_side(
            area,
            sizes@,
            parts@,
        ),
{
    let sizes = sizes.iter().map(|size| match *size {
        Size::Length(n) => ratatui::layout::Constraint::Length(n),
        Size::Percentage(n) => ratatui::layout::Constraint::Percentage(n),
        Size::Min(n) => ratatui::layout::Constraint::Min(n),
    });
    let (x, y, width, height) = (area.x, area.y, area.width, area.height);
    let layout = ratatui::layout::Layout::horizontal(sizes);
    let parts = layout.split(ratatui::layout::Rect { x, y, width, height });
    parts.iter().map(|p| Rect { x: p.x, y: p.y, width: p.width, height: p.height }).collect()
}

} // verus!
