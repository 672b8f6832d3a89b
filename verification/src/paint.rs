//! Drawing the picker: what goes where on the screen, and what the mouse then
//! finds there.
use crate::browse;
use crate::browse::{Browser, Item};
use crate::cli::{mode_index, Mode};
use crate::favorites;
use crate::fuzzy;
use crate::menu;
use crate::menu::{cursor_column, tone_lines};
use crate::order;
use crate::order::distinct_ascending;
use crate::paths;
use crate::paths::{Location, Platform};
use crate::picker;
use crate::picker::{output_path, Button, Nav, Picker, PickerView, Preview, Spot, Targets};
use crate::rows;
use crate::rows::{
    browse_row, centred_scroll, crumb_spans, footer_line, location_spans, mode_tabs, result_row,
    Crumb, RowMarks,
};
use crate::scan;
use crate::scan::Entry;
use crate::screen;
use crate::screen::{
    add_line, add_span, line, line_of, repeat, split_columns, split_rows, Line, Rect, Screen, Size,
    Span, Tone,
};
use crate::text;
use crate::text::{cat, cat3, ends_with, number, shorten};
use crate::width;
use crate::width::text_width;
use vstd::prelude::*;
use vstd::string::StringExecFns;

verus! {

/// The preview is left out of windows narrower than this.
pub const MIN_WIDTH_FOR_PREVIEW: u16 = 80;

/// The width of a navigation button.
pub const BUTTON_WIDTH: u16 = 3;

/// The key hints of a search.
pub const SEARCH_HINTS: &'static str =
    " Tab: mode  ^P: actions  ^B: pin  F5: refresh  Enter: cd  Esc: clear/exit ";

/// The key hints of the browser.
pub const BROWSE_HINTS: &'static str =
    " Left: up  Right: enter  Alt-Left/Right: history  Tab: mode  ^P: actions  ^B: pin  Enter: cd ";

/// The line with the counts, and a rule over the rest of its width.
pub open spec fn info_line(counts: Seq<char>, width: u16) -> screen::LineView {
    screen::lined(
        seq![
            screen::spanned(counts, Tone::Info),
            screen::spanned(
                screen::repeated(
                    '─',
                    if counts.len() >= width {
                        0
                    } else {
                        (width - counts.len()) as nat
                    },
                ),
                Tone::Border,
            ),
        ],
    )
}

fn draw_info(counts: &str, width: u16) -> (out: Line)
    ensures
        out@ == info_line(counts@, width),
{
    let mut spans: Vec<Span> = Vec::new();
    add_span(&mut spans, counts, Tone::Info);
    let rule: usize = (width as usize).saturating_sub(text::length(counts));
    add_span(&mut spans, repeat('─', rule).as_str(), Tone::Border);
    assert(text::views(spans@) =~= info_line(counts@, width).spans);
    line(spans)
}

/// The line that is typed on.
pub open spec fn prompt_line(typed: Seq<char>) -> screen::LineView {
    screen::lined(seq![screen::spanned("> "@, Tone::Prompt), screen::spanned(typed, Tone::Plain)])
}

fn draw_prompt(typed: &str) -> (out: Line)
    ensures
        out@ == prompt_line(typed@),
{
    let mut spans: Vec<Span> = Vec::new();
    add_span(&mut spans, "> ", Tone::Prompt);
    add_span(&mut spans, typed, Tone::Plain);
    assert(text::views(spans@) =~= prompt_line(typed@).spans);
    line(spans)
}

/// How many of how many are shown.
pub open spec fn tally(start: Seq<char>, shown: nat, total: nat) -> Seq<char> {
    start + text::decimal(shown) + "/"@ + text::decimal(total) + " "@
}

fn count_text(start: &str, shown: u128, total: u128) -> (out: String)
    ensures
        out@ == tally(start@, shown as nat, total as nat),
{
    let mut out = cat3(start, number(shown).as_str(), "/");
    out.append(number(total).as_str());
    out.append(" ");
    out
}

/// Whether a name in the preview is that of a directory, which ends in a
/// separator.
pub open spec fn names_directory(name: Seq<char>, platform: Platform) -> bool {
    name.len() > 0 && name.last() == platform.sep()
}

/// A name in the preview without the separator of a directory.
pub open spec fn bare_name(name: Seq<char>, platform: Platform) -> Seq<char> {
    if names_directory(name, platform) {
        name.drop_last()
    } else {
        name
    }
}

fn plain_name(name: &str, platform: Platform) -> (out: String)
    ensures
        out@ == bare_name(name@, platform),
{
    if ends_with(name, platform.separator()) {
        shorten(name)
    } else {
        name.to_owned()
    }
}

impl PickerView {
    /// Whether a place is pinned.
    pub open spec fn marks(self, place: paths::LocationView) -> bool {
        self.pinned.contains(favorites::key_of(place.display(self.platform), self.platform))
    }
}

impl Picker {
    /// Whether a place is pinned.
    fn is_marked(&self, place: &Location) -> (yes: bool)
        ensures
            yes == self@.marks(place@),
    {
        self.pinned.contains(place.display(self.platform).as_str(), self.platform)
    }
}

fn add_spot(spots: &mut Vec<Spot>, spot: Spot)
    ensures
        text::views(final(spots)@) == text::views(old(spots)@).push(spot@),
{
    proof {
        text::lemma_views_push(spots@, spot);
    }
    spots.push(spot);
}

/// The places that the shown names of a directory stand for, one for each row.
pub open spec fn name_spots(
    dir: paths::LocationView,
    names: Seq<Seq<char>>,
    area: Rect,
    platform: Platform,
) -> Seq<picker::SpotView> {
    Seq::new(
        menu::window(names.len(), 0, area.height),
        |k: int|
            picker::SpotView {
                area: area.row(k),
                path: dir.child(bare_name(names[k], platform)),
            },
    )
}

fn add_name_spots(
    spots: &mut Vec<Spot>,
    dir: &Location,
    names: &Vec<String>,
    area: Rect,
    platform: Platform,
)
    ensures
        text::views(final(spots)@) == text::views(old(spots)@) + name_spots(
            dir@,
            text::views(names@),
            area,
            platform,
        ),
{
    let ghost before = text::views(spots@);
    let ghost all = name_spots(dir@, text::views(names@), area, platform);
    let total: usize = names.len();
    let count: usize = if total < area.height as usize {
        total
    } else {
        area.height as usize
    };
    assert(all.len() == count);
    let mut k: usize = 0;
    assert(before + all.take(0) =~= before);
    while k < count
        invariant
            k <= count <= names@.len(),
            count <= area.height,
            all == name_spots(dir@, text::views(names@), area, platform),
            all.len() == count,
            text::views(spots@) == before + all.take(k as int),
        decreases count - k,
    {
        assert(text::views(names@)[k as int] == names@[k as int]@);
        let name = plain_name(names[k].as_str(), platform);
        let spot = Spot { area: area.line(k as u16), path: dir.child(name.as_str()) };
        assert(all.take(k + 1) =~= all.take(k as int).push(spot@));
        assert((before + all.take(k as int)).push(spot@) =~= before + all.take(k as int).push(
            spot@,
        ));
        add_spot(spots, spot);
        k += 1;
    }
    assert(all.take(k as int) =~= all);
}

/// The parts of the screen of a search.
#[derive(Clone, Copy, Debug, PartialEq, Eq, Structural)]
pub struct SearchAreas {
    pub list: Rect,
    /// Only where the window is wide enough.
    pub preview: Option<Rect>,
    pub prompt: Rect,
    pub info: Rect,
    pub header: Rect,
    pub rows: Rect,
}

/// The parts of the browser's screen.
#[derive(Clone, Copy, Debug, PartialEq, Eq, Structural)]
pub struct BrowseAreas {
    pub prompt: Rect,
    pub info: Rect,
    pub header: Rect,
    pub parent: Rect,
    pub left_bar: Rect,
    pub current: Rect,
    pub right_bar: Rect,
    pub preview: Rect,
}

/// The sizes of the prompt, the counts, the header and what is below them.
fn stack() -> (sizes: Vec<Size>)
    ensures
        sizes@ == seq![Size::Length(1), Size::Length(1), Size::Length(1), Size::Min(0)],
{
    let mut sizes: Vec<Size> = Vec::new();
    sizes.push(Size::Length(1));
    sizes.push(Size::Length(1));
    sizes.push(Size::Length(1));
    sizes.push(Size::Min(0));
    sizes
}

/// Whether four parts of an area are three lines and the rest below them. In
/// an area without room for the lines they lie somewhere in it.
pub open spec fn lined_up(area: Rect, prompt: Rect, info: Rect, header: Rect, rest: Rect) -> bool {
    &&& area.height >= 3 ==> prompt == area.row(0) && info == area.row(1) && header == area.row(2)
        && rest == area.below(3)
    &&& prompt.inside(area) && info.inside(area) && header.inside(area) && rest.inside(area)
    &&& prompt.x == area.x && prompt.width == area.width
    &&& info.x == area.x && info.width == area.width
    &&& header.x == area.x && header.width == area.width
    &&& rest.x == area.x && rest.width == area.width
}

/// Cuts an area into three lines and the rest below them.
fn line_up(area: Rect) -> (parts: (Rect, Rect, Rect, Rect))
    requires
        area.countable(),
    ensures
        lined_up(area, parts.0, parts.1, parts.2, parts.3),
{
    let sizes = stack();
    let parts = split_rows(area, &sizes);
    proof {
        reveal_with_fuel(screen::lengths, 4);
        assert(screen::stacks(sizes@, area.height) == (area.height >= 3));
        if area.height >= 3 {
            assert(parts@[0] == screen::stacked(area, sizes@, 0));
            assert(parts@[1] == screen::stacked(area, sizes@, 1));
            assert(parts@[2] == screen::stacked(area, sizes@, 2));
            assert(parts@[3] == screen::stacked(area, sizes@, 3));
        }
    }
    (parts[0], parts[1], parts[2], parts[3])
}

/// Whether a part takes a share of a width, in hundredths, to less than a
/// column.
pub open spec fn takes(part: Rect, share: int, width: u16) -> bool {
    -100 < 100 * part.width - share * width < 100
}

/// Whether the parts share out an area for a search: the list has all of a
/// narrow window, and three fifths of a wider one, where the preview has the
/// rest beside it.
pub open spec fn search_shared(area: Rect, areas: SearchAreas) -> bool {
    &&& match areas.preview {
        Some(preview) => {
            &&& area.width >= MIN_WIDTH_FOR_PREVIEW
            &&& is_column(area, areas.list)
            &&& is_column(area, preview)
            &&& areas.list.x == area.x
            &&& areas.list.x + areas.list.width == preview.x
            &&& preview.x + preview.width == area.x + area.width
            &&& takes(areas.list, 60, area.width)
        },
        None => area.width < MIN_WIDTH_FOR_PREVIEW && areas.list == area,
    }
    &&& lined_up(areas.list.within_border(), areas.prompt, areas.info, areas.header, areas.rows)
}

/// Shares out an area for a search: the list takes three fifths of a window
/// that is wide enough for a preview, and all of a narrower one.
pub fn search_areas(area: Rect) -> (areas: SearchAreas)
    requires
        area.countable(),
    ensures
        search_shared(area, areas),
{
    let wide = area.width >= MIN_WIDTH_FOR_PREVIEW;
    let mut list = area;
    let mut preview: Option<Rect> = None;
    if wide {
        let mut sizes: Vec<Size> = Vec::new();
        sizes.push(Size::Percentage(60));
        sizes.push(Size::Percentage(40));
        let parts = split_columns(area, &sizes);
        proof {
            reveal_with_fuel(screen::asked, 3);
            assert(sizes@ =~= seq![Size::Percentage(60), Size::Percentage(40)]);
            assert(screen::shares(sizes@, area.width));
            assert(screen::has_size(parts@[0], sizes@[0], area.width));
        }
        list = parts[0];
        preview = Some(parts[1]);
    }
    let (prompt, info, header, rows) = line_up(list.inner());
    SearchAreas { list, preview, prompt, info, header, rows }
}

/// Whether the parts share out an area for the browser: three columns with
/// bars between them below the prompt, the counts and the header.
pub open spec fn browse_shared(area: Rect, areas: BrowseAreas) -> bool {
    exists|columns: Rect| #[trigger]
        lined_up(area.within_border(), areas.prompt, areas.info, areas.header, columns)
            && areas.columned(columns)
}

impl BrowseAreas {
    /// Whether an area is cut into the three columns and the bars between
    /// them: a fifth of the width goes to the parent, nine twentieths to the
    /// current directory, a column to each bar and the rest to the preview. In
    /// an area without room for the bars they lie somewhere in it.
    pub open spec fn columned(self, area: Rect) -> bool {
        &&& is_column(area, self.parent)
        &&& is_column(area, self.left_bar)
        &&& is_column(area, self.current)
        &&& is_column(area, self.right_bar)
        &&& is_column(area, self.preview)
        &&& area.width >= 6 ==> {
            &&& self.parent.x == area.x
            &&& self.parent.x + self.parent.width == self.left_bar.x
            &&& self.left_bar.x + 1 == self.current.x
            &&& self.current.x + self.current.width == self.right_bar.x
            &&& self.right_bar.x + 1 == self.preview.x
            &&& self.preview.x + self.preview.width == area.x + area.width
            &&& self.left_bar.width == 1
            &&& self.right_bar.width == 1
            &&& takes(self.parent, 20, area.width)
            &&& takes(self.current, 45, area.width)
        }
    }
}

/// Whether a part is a column of an area, as high as the area.
pub open spec fn is_column(area: Rect, part: Rect) -> bool {
    part.inside(area) && part.y == area.y && part.height == area.height
}

/// Shares out an area for the browser: three columns below the prompt, the
/// counts and the header. The middle one is the subject, so it gets the most
/// room.
pub fn browse_areas(area: Rect) -> (areas: BrowseAreas)
    requires
        area.countable(),
    ensures
        browse_shared(area, areas),
{
    let (prompt, info, header, below) = line_up(area.inner());
    let mut sizes: Vec<Size> = Vec::new();
    sizes.push(Size::Percentage(20));
    sizes.push(Size::Length(1));
    sizes.push(Size::Percentage(45));
    sizes.push(Size::Length(1));
    sizes.push(Size::Min(0));
    let columns = split_columns(below, &sizes);
    let areas = BrowseAreas {
        prompt,
        info,
        header,
        parent: columns[0],
        left_bar: columns[1],
        current: columns[2],
        right_bar: columns[3],
        preview: columns[4],
    };
    proof {
        reveal_with_fuel(screen::asked, 6);
        assert(sizes@ =~= seq![
            Size::Percentage(20),
            Size::Length(1),
            Size::Percentage(45),
            Size::Length(1),
            Size::Min(0),
        ]);
        if below.width >= 6 {
            assert(screen::asked(sizes@, below.width, 1) == 20 * below.width);
            assert(screen::asked(sizes@, below.width, 2) == 20 * below.width + 100);
            assert(sizes@[2] == Size::Percentage(45));
            assert(screen::asked(sizes@, below.width, 3) == screen::asked(sizes@, below.width, 2)
                + 45 * below.width);
            assert(screen::asked(sizes@, below.width, 3) == 65 * below.width + 100);
            assert(screen::asked(sizes@, below.width, 4) == 65 * below.width + 200);
            assert(screen::asked(sizes@, below.width, 5) == 65 * below.width + 200);
            assert(screen::shares(sizes@, below.width));
            assert(screen::has_size(columns@[0], sizes@[0], below.width));
            assert(screen::has_size(columns@[1], sizes@[1], below.width));
            assert(screen::has_size(columns@[2], sizes@[2], below.width));
            assert(screen::has_size(columns@[3], sizes@[3], below.width));
        }
        assert(areas.columned(below));
        assert(lined_up(area.within_border(), areas.prompt, areas.info, areas.header, below));
    }
    areas
}

/// The first row shown so that the selected one is in view.
pub open spec fn scrolled(selected: nat, total: nat, height: nat) -> nat {
    let last = if height == 0 {
        selected
    } else if selected < height - 1 {
        0
    } else {
        (selected - (height - 1)) as nat
    };
    let most = if total < height {
        0
    } else {
        (total - height) as nat
    };
    if last < most {
        last
    } else {
        most
    }
}

/// The first row shown so that the selected one is in view.
pub fn scroll(selected: usize, total: usize, height: usize) -> (first: usize)
    ensures
        first == scrolled(selected as nat, total as nat, height as nat),
{
    let last: usize = selected.saturating_sub(height.saturating_sub(1));
    let most: usize = total.saturating_sub(height);
    if last < most {
        last
    } else {
        most
    }
}

/// A selected row is among those shown.
pub proof fn the_selected_row_is_shown(selected: nat, total: nat, height: nat)
    requires
        selected < total,
        height > 0,
    ensures
        scrolled(selected, total, height) <= selected < scrolled(selected, total, height) + height,
{
}

/// A candidate, the row it is shown in, and the positions that the query
/// matched in its text.
#[derive(Debug)]
pub struct Candidate {
    pub row: u32,
    pub entry: Entry,
    pub hits: Vec<u32>,
}

#[verifier::ext_equal]
pub struct CandidateView {
    pub row: u32,
    pub entry: scan::EntryView,
    pub hits: Seq<u32>,
}

impl View for Candidate {
    type V = CandidateView;

    open spec fn view(&self) -> CandidateView {
        CandidateView { row: self.row, entry: self.entry@, hits: self.hits@ }
    }
}

/// Finds what a query matched in candidates.
pub struct Marker {
    matcher: nucleo::Matcher,
}

impl Marker {
    pub fn new() -> Marker {
        Marker { matcher: fuzzy::new_matcher() }
    }

    /// A candidate with the positions that a query matched in its text.
    pub fn mark(&mut self, row: u32, entry: Entry, query: &str) -> (candidate: Candidate)
        requires
            query@.len() <= fuzzy::QUERY_LIMIT,
            entry@.display.len() <= fuzzy::TEXT_LIMIT,
        ensures
            candidate@.row == row,
            candidate@.entry == entry@,
            fuzzy::matched_in_path(
                query@,
                fuzzy::leveled(query@, entry@.display),
                candidate@.hits,
            ),
    {
        let hits = fuzzy::mark_path(query, entry.display.as_str(), &mut self.matcher);
        Candidate { row, entry, hits }
    }
}

/// What the engine behind a search has found so far.
#[derive(Debug)]
pub struct Findings {
    /// How many candidates match, and how many there are.
    pub count: u32,
    pub total: u32,
    pub scanning: bool,
    /// Why the candidates could not be had.
    pub error: Option<String>,
    /// The candidates in the rows that are shown.
    pub candidates: Vec<Candidate>,
    /// The directory that the selection would lead to, if it is one.
    pub destination: Option<Location>,
}

#[verifier::ext_equal]
pub struct FindingsView {
    pub count: u32,
    pub total: u32,
    pub scanning: bool,
    pub error: Option<Seq<char>>,
    pub candidates: Seq<CandidateView>,
    pub destination: Option<paths::LocationView>,
}

impl View for Findings {
    type V = FindingsView;

    open spec fn view(&self) -> FindingsView {
        FindingsView {
            count: self.count,
            total: self.total,
            scanning: self.scanning,
            error: text::inside(self.error),
            candidates: text::views(self.candidates@),
            destination: text::inside(self.destination),
        }
    }
}

/// The next picture of the spinner, which turns every fourth frame.
pub open spec fn spinner(frame: u32) -> char {
    let n = (frame / 4) % 4;
    if n == 0 {
        '|'
    } else if n == 1 {
        '/'
    } else if n == 2 {
        '-'
    } else {
        '\\'
    }
}

fn spinner_at(frame: u32) -> (c: char)
    ensures
        c == spinner(frame),
{
    match (frame / 4) % 4 {
        0 => '|',
        1 => '/',
        2 => '-',
        _ => '\\',
    }
}

/// A number counted on, round and round.
pub open spec fn next_frame(frame: u32) -> u32 {
    if frame == u32::MAX {
        0
    } else {
        (frame + 1) as u32
    }
}

impl PickerView {
    /// The title of the preview: the directory from the root of the search.
    pub open spec fn preview_title(self, dir: Option<paths::LocationView>) -> Seq<char> {
        match dir {
            None => ""@,
            Some(dir) => {
                let shown = if dir.within(self.root) {
                    dir.below(self.root).display(self.platform)
                } else {
                    dir.display(self.platform)
                };
                " "@ + (if shown.len() == 0 {
                    "."@
                } else {
                    shown
                }) + " "@
            },
        }
    }

    /// Whether the preview holds the contents of a directory.
    pub open spec fn previews(self, dir: Option<paths::LocationView>) -> bool {
        dir is Some && self.preview is Some && self.preview->0.dir == dir->0
    }

    /// One name in the preview of a search.
    pub open spec fn preview_row(self, dir: paths::LocationView, name: Seq<char>) -> screen::LineView {
        let is_dir = names_directory(name, self.platform);
        let marks = RowMarks {
            icons: self.config.icons,
            favorite: is_dir && self.marks(dir.child(bare_name(name, self.platform))),
            inside: false,
        };
        let icon = marks.icon(name, is_dir, self.platform);
        screen::LineView {
            spans: seq![
                screen::spanned(icon, crate::icons::icon_tone(icon)),
                screen::spanned(name, Tone::Plain),
            ],
            tone: if is_dir {
                Tone::Folder
            } else {
                Tone::Plain
            },
            right: false,
        }
    }

    /// The names in the preview of a search, as many as fit.
    pub open spec fn preview_rows(self, dir: paths::LocationView, height: u16) -> Seq<
        screen::LineView,
    > {
        let names = self.preview->0.names;
        Seq::new(
            menu::window(names.len(), 0, height),
            |k: int| self.preview_row(dir, names[k]),
        )
    }

    /// A screen with the preview of a search drawn on it.
    pub open spec fn with_preview(
        self,
        screen: screen::ScreenView,
        area: Rect,
        dir: Option<paths::LocationView>,
    ) -> screen::ScreenView {
        let framed = screen.with(
            screen::DrawView::Frame {
                area,
                tone: Tone::Border,
                title: screen::one_line(self.preview_title(dir), Tone::Header),
                bottom: screen::lined(Seq::empty()),
            },
        );
        let inner = area.within_border();
        if self.previews(dir) {
            framed.with(
                screen::DrawView::Rows {
                    area: inner,
                    lines: self.preview_rows(dir->0, inner.height),
                },
            )
        } else {
            framed
        }
    }

    /// The places that the preview of a search can be clicked for.
    pub open spec fn preview_spots(self, area: Rect, dir: Option<paths::LocationView>) -> Seq<
        picker::SpotView,
    > {
        if self.previews(dir) {
            name_spots(dir->0, self.preview->0.names, area.within_border(), self.platform)
        } else {
            Seq::empty()
        }
    }

    /// What a search says of where it searches.
    pub open spec fn search_place(self) -> Seq<screen::SpanView> {
        match self.mode {
            Mode::Recent => seq![screen::spanned("zoxide"@, Tone::Header)],
            Mode::Favorites => seq![screen::spanned("pinned directories"@, Tone::Header)],
            _ => rows::pieces(rows::path_crumbs(self.root, self.platform)),
        }
    }

    /// One candidate's row.
    pub open spec fn candidate_row(self, candidate: CandidateView) -> screen::LineView {
        rows::search_row(
            candidate.entry.display,
            !(self.mode is Files),
            candidate.row == self.source_here()->0.selected,
            order::ascending(candidate.hits),
            RowMarks {
                icons: self.config.icons,
                favorite: self.marks(picker::output(candidate.entry, self.mode)),
                inside: false,
            },
            self.platform,
        )
    }

    /// The rows of the candidates.
    pub open spec fn candidate_rows(self, found: FindingsView) -> Seq<screen::LineView> {
        found.candidates.map_values(|candidate: CandidateView| self.candidate_row(candidate))
    }

    /// Whether the rows of candidates are drawn.
    pub open spec fn lists(self, areas: SearchAreas, found: FindingsView) -> bool {
        found.error is None && areas.rows.height > 0 && found.count > 0
    }

    /// The text of a search that could not be made.
    pub open spec fn failure(self, error: Seq<char>) -> Seq<char> {
        "Cannot load "@ + self.mode.name() + ": "@ + error
            + "\nF5: retry  Tab: mode  Esc: cancel"@
    }

    /// A screen with what is below the header of a search drawn on it.
    pub open spec fn with_results(
        self,
        screen: screen::ScreenView,
        areas: SearchAreas,
        found: FindingsView,
    ) -> screen::ScreenView {
        let empty = !found.scanning && found.total == 0;
        match found.error {
            Some(error) => screen.with(
                screen::DrawView::Text {
                    area: areas.rows,
                    lines: menu::toned(text::lines_of(self.failure(error)), Tone::Failure),
                    wrap: true,
                },
            ),
            None => {
                let hinted = if self.mode is Recent && empty {
                    screen.with_line(
                        areas.rows,
                        screen::one_line("No history yet. F5: refresh  Tab: mode"@, Tone::Plain),
                    )
                } else if self.mode is Favorites && empty {
                    screen.with(
                        screen::DrawView::Text {
                            area: areas.rows,
                            lines: seq![
                                screen::one_line(
                                    "No favorites yet. Ctrl-B: pin a folder in another mode. Tab: mode"@,
                                    Tone::Plain,
                                ),
                            ],
                            wrap: true,
                        },
                    )
                } else {
                    screen
                };
                if self.lists(areas, found) {
                    hinted.with(
                        screen::DrawView::Rows {
                            area: areas.rows,
                            lines: self.candidate_rows(found),
                        },
                    )
                } else {
                    hinted
                }
            },
        }
    }

    /// The frame that a search is drawn in next.
    pub open spec fn frame_drawn(self, found: FindingsView) -> u32 {
        if found.scanning {
            next_frame(self.frame_count)
        } else {
            self.frame_count
        }
    }

    /// The picture of a search.
    pub open spec fn search_picture(self, areas: SearchAreas, found: FindingsView) -> screen::ScreenView {
        let blank = screen::ScreenView::blank();
        let beside = match areas.preview {
            Some(area) => self.with_preview(blank, area, found.destination),
            None => blank,
        };
        let framed = beside.with(
            screen::DrawView::Frame {
                area: areas.list,
                tone: Tone::Border,
                title: screen::lined(rows::tab_bar(self.mode)),
                bottom: rows::footer(self.notice, SEARCH_HINTS@),
            },
        );
        let asked = framed.with_line(areas.prompt, prompt_line(self.query)).at(
            screen::cut(areas.prompt.x + 2 + self.query.len()),
            areas.prompt.y,
        );
        let turning = seq![
            if found.scanning {
                spinner(self.frame_drawn(found))
            } else {
                ' '
            },
        ];
        let counted = asked.with_line(
            areas.info,
            info_line(
                tally(turning + " "@, found.count as nat, found.total as nat),
                areas.info.width,
            ),
        );
        let placed = counted.with_line(areas.header, screen::lined(self.search_place()));
        self.with_results(placed, areas, found)
    }

    /// The picker once a search has been drawn.
    pub open spec fn search_drawn(self, areas: SearchAreas, found: FindingsView) -> PickerView {
        let listed = self.lists(areas, found);
        let first = scrolled(
            self.source_here()->0.selected as nat,
            found.count as nat,
            areas.rows.height as nat,
        );
        PickerView {
            frame_count: self.frame_drawn(found),
            targets: picker::TargetsView {
                rows: if listed {
                    areas.rows
                } else {
                    Rect::nowhere()
                },
                first: if listed {
                    first as usize
                } else {
                    0
                },
                count: if listed {
                    found.count as usize
                } else {
                    0
                },
                header: areas.list.row(0),
                modes_x: screen::cut(areas.list.x + 2),
                nav: Seq::empty(),
                crumbs: Seq::empty(),
                paths: match areas.preview {
                    Some(area) => self.preview_spots(area, found.destination),
                    None => Seq::empty(),
                },
            },
            ..self
        }
    }
}

impl PickerView {
    /// The first row of a list of candidates that is shown.
    pub open spec fn list_first(self, areas: SearchAreas, count: u32) -> nat {
        scrolled(self.cursor() as nat, count as nat, areas.rows.height as nat)
    }

    /// The row after the last one of a list of candidates that is shown.
    pub open spec fn list_end(self, areas: SearchAreas, count: u32) -> nat {
        let first = self.list_first(areas, count);
        first + menu::window(count as nat, first as int, areas.rows.height)
    }
}

impl Picker {
    /// The rows of a list of candidates that are shown: the first of them, and
    /// the one after the last.
    pub fn list_window(&self, areas: SearchAreas, count: u32) -> (rows: (u32, u32))
        requires
            self@.wf(),
            !(self@.mode is Browse),
        ensures
            rows.0 == self@.sourced().list_first(areas, count),
            rows.1 == self@.sourced().list_end(areas, count),
    {
        let index: usize = mode_index(self.mode);
        let selected: u32 = match self.sources[index] {
            Some(source) => source.selected,
            None => 0,
        };
        let height: u32 = areas.rows.height as u32;
        assert(self@.sourced().cursor() == selected);
        let first: usize = scroll(selected as usize, count as usize, height as usize);
        let first: u32 = first as u32;
        if first >= count {
            (first, first)
        } else if count - first < height {
            (first, count)
        } else {
            (first, first + height)
        }
    }
}

impl Picker {
    fn draw_preview_row(&self, dir: &Location, name: &str) -> (out: Line)
        ensures
            out@ == self@.preview_row(dir@, name@),
    {
        let is_dir = ends_with(name, self.platform.separator());
        let bare = plain_name(name, self.platform);
        let marks = RowMarks {
            icons: self.config.icons,
            favorite: is_dir && self.is_marked(&dir.child(bare.as_str())),
            inside: false,
        };
        let icon = marks.prefix(name, is_dir, self.platform);
        let mut spans: Vec<Span> = Vec::new();
        let piece = crate::icons::span(icon);
        add_span(&mut spans, piece.text.as_str(), piece.tone);
        add_span(&mut spans, name, Tone::Plain);
        assert(text::views(spans@) =~= self@.preview_row(dir@, name@).spans);
        let mut out = line(spans);
        if is_dir {
            out.tone = Tone::Folder;
        }
        out
    }

    fn previews(&self, dir: &Option<Location>) -> (yes: bool)
        ensures
            yes == self@.previews(text::inside(*dir)),
    {
        match (dir, &self.preview) {
            (Some(dir), Some(preview)) => preview.dir.is(dir),
            _ => false,
        }
    }

    /// Draws the preview of a search, and records what it can be clicked for.
    pub fn render_preview(
        &self,
        screen: &mut Screen,
        spots: &mut Vec<Spot>,
        area: Rect,
        dir: &Option<Location>,
    )
        ensures
            final(screen)@ == self@.with_preview(old(screen)@, area, text::inside(*dir)),
            text::views(final(spots)@) == text::views(old(spots)@) + self@.preview_spots(
                area,
                text::inside(*dir),
            ),
    {
        let title = match dir {
            None => "".to_owned(),
            Some(dir) => {
                let shown = match dir.strip_prefix(&self.root) {
                    Some(rest) => rest.display(self.platform),
                    None => dir.display(self.platform),
                };
                if shown.as_str().is_empty() {
                    cat3(" ", ".", " ")
                } else {
                    cat3(" ", shown.as_str(), " ")
                }
            },
        };
        let none: Vec<Span> = Vec::new();
        assert(text::views(none@) =~= Seq::empty());
        screen.frame(area, Tone::Border, line_of(title.as_str(), Tone::Header), line(none));
        let inner = area.inner();
        let ghost before = text::views(spots@);
        assert(before + Seq::<picker::SpotView>::empty() =~= before);
        if !self.previews(dir) {
            return;
        }
        if let (Some(dir), Some(preview)) = (dir, &self.preview) {
            add_name_spots(spots, dir, &preview.names, inner, self.platform);
            let ghost all = self@.preview_rows(dir@, inner.height);
            let ghost names = text::views(preview.names@);
            let total: usize = preview.names.len();
            let count: usize = if total < inner.height as usize {
                total
            } else {
                inner.height as usize
            };
            assert(all.len() == count);
            let mut drawn: Vec<Line> = Vec::new();
            let mut k: usize = 0;
            assert(text::views(drawn@) =~= all.take(0));
            while k < count
                invariant
                    k <= count <= preview.names@.len(),
                    names == text::views(preview.names@),
                    self@.preview is Some,
                    self@.preview->0.names == names,
                    all == self@.preview_rows(dir@, inner.height),
                    all.len() == count,
                    text::views(drawn@) == all.take(k as int),
                decreases count - k,
            {
                assert(names[k as int] == preview.names@[k as int]@);
                let row = self.draw_preview_row(dir, preview.names[k].as_str());
                assert(all.take(k + 1) =~= all.take(k as int).push(row@));
                add_line(&mut drawn, row);
                k += 1;
            }
            assert(all.take(k as int) =~= all);
            screen.rows(inner, drawn);
        }
    }

    fn draw_candidates(&self, found: &Findings, selected: u32) -> (out: Vec<Line>)
        requires
            self@.source_here() == Some(picker::Source { selected, ..self@.source_here()->0 }),
        ensures
            text::views(out@) == self@.candidate_rows(found@),
    {
        let ghost all = self@.candidate_rows(found@);
        let mut out: Vec<Line> = Vec::new();
        let mut k: usize = 0;
        assert(text::views(out@) =~= all.take(0));
        while k < found.candidates.len()
            invariant
                k <= found.candidates@.len(),
                self@.source_here() == Some(picker::Source { selected, ..self@.source_here()->0 }),
                all == self@.candidate_rows(found@),
                text::views(out@) == all.take(k as int),
            decreases found.candidates@.len() - k,
        {
            let candidate = &found.candidates[k];
            assert(found@.candidates[k as int] == candidate@);
            let display = candidate.entry.display.as_str();
            proof {
                order::lemma_ascending(candidate.hits@);
            }
            let hits = distinct_ascending(&candidate.hits);
            let marks = RowMarks {
                icons: self.config.icons,
                favorite: self.is_marked(&output_path(&candidate.entry, self.mode)),
                inside: false,
            };
            let row = result_row(
                display,
                !matches!(self.mode, Mode::Files),
                candidate.row == selected,
                &hits,
                marks,
                self.platform,
            );
            assert(all.take(k + 1) =~= all.take(k as int).push(row@));
            add_line(&mut out, row);
            k += 1;
        }
        assert(all.take(k as int) =~= all);
        out
    }

    fn draw_results(&self, screen: &mut Screen, areas: SearchAreas, found: &Findings, selected: u32)
        requires
            self@.source_here() == Some(picker::Source { selected, ..self@.source_here()->0 }),
        ensures
            final(screen)@ == self@.with_results(old(screen)@, areas, found@),
    {
        if let Some(error) = &found.error {
            let start = cat3("Cannot load ", self.mode.label(), ": ");
            let message = cat3(start.as_str(), error.as_str(), "\nF5: retry  Tab: mode  Esc: cancel");
            assert(message@ =~= self@.failure(error@));
            screen.text(areas.rows, tone_lines(message.as_str(), Tone::Failure), true);
            return;
        }
        let empty = !found.scanning && found.total == 0;
        if empty {
            match self.mode {
                Mode::Recent => {
                    screen.line(
                        areas.rows,
                        line_of("No history yet. F5: refresh  Tab: mode", Tone::Plain),
                    );
                },
                Mode::Favorites => {
                    let mut lines: Vec<Line> = Vec::new();
                    let hint = line_of(
                        "No favorites yet. Ctrl-B: pin a folder in another mode. Tab: mode",
                        Tone::Plain,
                    );
                    let ghost shown = hint@;
                    add_line(&mut lines, hint);
                    assert(text::views(lines@) =~= seq![shown]);
                    screen.text(areas.rows, lines, true);
                },
                _ => {},
            }
        }
        if areas.rows.height > 0 && found.count > 0 {
            screen.rows(areas.rows, self.draw_candidates(found, selected));
        }
    }

    /// What to draw of a search in the parts of an area, and from then on what
    /// the mouse finds there.
    pub fn draw_search(&mut self, areas: SearchAreas, found: &Findings) -> (screen: Screen)
        requires
            old(self)@.wf(),
            !(old(self)@.mode is Browse),
        ensures
            screen@ == old(self)@.sourced().search_picture(areas, found@),
            final(self)@ == old(self)@.sourced().search_drawn(areas, found@),
            final(self)@.wf(),
    {
        let source = self.source();
        let ghost start = self@;
        let mut screen = Screen::new();
        let mut paths: Vec<Spot> = Vec::new();
        assert(text::views(paths@) =~= Seq::empty());
        if let Some(area) = areas.preview {
            self.render_preview(&mut screen, &mut paths, area, &found.destination);
        }
        assert(text::views(paths@) =~= match areas.preview {
            Some(area) => start.preview_spots(area, found@.destination),
            None => Seq::empty(),
        });
        screen.frame(
            areas.list,
            Tone::Border,
            line(mode_tabs(self.mode)),
            footer_line(&self.notice, SEARCH_HINTS),
        );
        screen.line(areas.prompt, draw_prompt(self.query.as_str()));
        let typed: usize = text::length(self.query.as_str());
        let typed: u16 = if typed > 0xffff {
            0xffff
        } else {
            typed as u16
        };
        screen.cursor = Some(
            (areas.prompt.x.saturating_add(2).saturating_add(typed), areas.prompt.y),
        );
        let frame: u32 = if found.scanning {
            self.frame_count.wrapping_add(1)
        } else {
            self.frame_count
        };
        assert(frame == start.frame_drawn(found@));
        let mut turning = String::new();
        if found.scanning {
            turning.push(spinner_at(frame));
        } else {
            turning.push(' ');
        }
        assert(turning@ =~= seq![
            if found.scanning {
                spinner(start.frame_drawn(found@))
            } else {
                ' '
            },
        ]);
        let head = cat(turning.as_str(), " ");
        let counts = count_text(head.as_str(), found.count as u128, found.total as u128);
        screen.line(areas.info, draw_info(counts.as_str(), areas.info.width));
        let place = match self.mode {
            Mode::Recent => {
                let mut spans: Vec<Span> = Vec::new();
                add_span(&mut spans, "zoxide", Tone::Header);
                assert(text::views(spans@) =~= start.search_place());
                spans
            },
            Mode::Favorites => {
                let mut spans: Vec<Span> = Vec::new();
                add_span(&mut spans, "pinned directories", Tone::Header);
                assert(text::views(spans@) =~= start.search_place());
                spans
            },
            _ => location_spans(&self.root, self.platform),
        };
        screen.line(areas.header, line(place));
        self.draw_results(&mut screen, areas, found, source.selected);
        let mut targets = Targets::none(areas.list.x.saturating_add(2));
        targets.header = areas.list.line(0);
        targets.paths = paths;
        if found.error.is_none() && areas.rows.height > 0 && found.count > 0 {
            targets.rows = areas.rows;
            targets.first = scroll(
                source.selected as usize,
                found.count as usize,
                areas.rows.height as usize,
            );
            targets.count = found.count as usize;
        }
        self.frame_count = frame;
        self.targets = targets;
        screen
    }
}

/// A column some cells further on.
pub open spec fn right_of(x: u16, cells: u16) -> u16 {
    screen::cut(x + cells)
}

/// The width of a text in whole cells of the screen.
pub open spec fn cells_of(text: Seq<char>) -> u16 {
    screen::cut(width::columns(text) as int)
}

fn cell_width(text: &str) -> (cells: u16)
    ensures
        cells == cells_of(text@),
{
    let columns: usize = text_width(text);
    if columns > 0xffff {
        0xffff
    } else {
        columns as u16
    }
}

/// A button at a column of the header, if there is anywhere to go and it is
/// not cut off.
pub open spec fn button(area: Rect, x: u16, enabled: bool, nav: Nav) -> Seq<Button> {
    if enabled && x + BUTTON_WIDTH <= area.end_x() {
        seq![Button { area: Rect { x, y: area.y, width: BUTTON_WIDTH, height: 1 }, nav }]
    } else {
        Seq::empty()
    }
}

/// The buttons of the header that can be clicked.
pub open spec fn buttons(area: Rect, back: bool, forward: bool, up: bool) -> Seq<Button> {
    let second = right_of(area.x, BUTTON_WIDTH);
    let third = right_of(second, BUTTON_WIDTH);
    button(area, area.x, back, Nav::Back) + button(area, second, forward, Nav::Forward) + button(
        area,
        third,
        up,
        Nav::Up,
    )
}

fn add_button(buttons: &mut Vec<Button>, area: Rect, x: u16, enabled: bool, nav: Nav)
    ensures
        final(buttons)@ == old(buttons)@ + button(area, x, enabled, nav),
{
    let ghost before = buttons@;
    if enabled && x as u32 + BUTTON_WIDTH as u32 <= area.right() as u32 {
        buttons.push(Button { area: Rect { x, y: area.y, width: BUTTON_WIDTH, height: 1 }, nav });
    }
    assert(buttons@ =~= before + button(area, x, enabled, nav));
}

/// The column after the first `count` pieces of the header path.
pub open spec fn crumb_x(
    crumbs: Seq<(screen::SpanView, Option<paths::LocationView>)>,
    count: nat,
    x: u16,
) -> u16
    decreases count,
{
    if count == 0 {
        x
    } else {
        right_of(
            crumb_x(crumbs, (count - 1) as nat, x),
            cells_of(crumbs[count - 1].0.text),
        )
    }
}

/// The steps among the first `count` pieces of the header path that can be
/// clicked: those that are drawn whole.
pub open spec fn crumb_spots(
    crumbs: Seq<(screen::SpanView, Option<paths::LocationView>)>,
    count: nat,
    x: u16,
    area: Rect,
) -> Seq<picker::SpotView>
    decreases count,
{
    if count == 0 {
        Seq::empty()
    } else {
        let before = crumb_spots(crumbs, (count - 1) as nat, x, area);
        let at = crumb_x(crumbs, (count - 1) as nat, x);
        let cells = cells_of(crumbs[count - 1].0.text);
        match crumbs[count - 1].1 {
            Some(dir) => if at + cells <= area.end_x() {
                before.push(
                    picker::SpotView {
                        area: Rect { x: at, y: area.y, width: cells, height: 1 },
                        path: dir,
                    },
                )
            } else {
                before
            },
            None => before,
        }
    }
}

/// The bars of a separating column.
pub open spec fn bars(height: u16) -> Seq<screen::LineView> {
    Seq::new(height as nat, |i: int| screen::one_line("│"@, Tone::Border))
}

fn draw_bars(height: u16) -> (out: Vec<Line>)
    ensures
        text::views(out@) == bars(height),
{
    let mut out: Vec<Line> = Vec::new();
    let mut i: u16 = 0;
    assert(text::views(out@) =~= bars(height).take(0));
    while i < height
        invariant
            i <= height,
            text::views(out@) == bars(height).take(i as int),
        decreases height - i,
    {
        let bar = line_of("│", Tone::Border);
        assert(bars(height).take(i + 1) =~= bars(height).take(i as int).push(bar@));
        add_line(&mut out, bar);
        i += 1;
    }
    assert(bars(height).take(i as int) =~= bars(height));
    out
}

impl PickerView {
    /// The tone of a button: quiet where there is nowhere to go.
    pub open spec fn button_tone(enabled: bool) -> Tone {
        if enabled {
            Tone::Header
        } else {
            Tone::Border
        }
    }

    /// The buttons in front of the browser's path, and the star of a favorite.
    pub open spec fn location_front(self) -> Seq<screen::SpanView> {
        let b = self.browser->0;
        let star = if self.marks(b.cwd) {
            seq![screen::spanned(crate::icons::STAR@, crate::icons::icon_tone(crate::icons::STAR@))]
        } else {
            Seq::empty()
        };
        seq![
            screen::spanned(" ◀ "@, PickerView::button_tone(b.trail(false).len() > 0)),
            screen::spanned(" ▶ "@, PickerView::button_tone(b.trail(true).len() > 0)),
            screen::spanned(" ▲ "@, PickerView::button_tone(b.cwd.parent() is Some)),
            screen::spanned(" "@, Tone::Plain),
        ] + star
    }

    /// The buttons and the path of the browser.
    pub open spec fn location_title(self) -> Seq<screen::SpanView> {
        self.location_front() + rows::pieces(
            rows::path_crumbs(self.browser->0.cwd, self.platform),
        ) + seq![screen::spanned(" "@, Tone::Plain)]
    }

    /// The buttons of the browser that can be clicked.
    pub open spec fn location_buttons(self, area: Rect) -> Seq<Button> {
        let b = self.browser->0;
        buttons(area, b.trail(false).len() > 0, b.trail(true).len() > 0, b.cwd.parent() is Some)
    }

    /// Where the path of the browser starts.
    pub open spec fn location_x(self, area: Rect) -> u16 {
        let second = right_of(area.x, BUTTON_WIDTH);
        let third = right_of(second, BUTTON_WIDTH);
        let gap = right_of(right_of(third, BUTTON_WIDTH), 1);
        if self.marks(self.browser->0.cwd) {
            right_of(gap, cells_of(crate::icons::STAR@))
        } else {
            gap
        }
    }

    /// The steps of the browser's path that can be clicked.
    pub open spec fn location_spots(self, area: Rect) -> Seq<picker::SpotView> {
        let crumbs = rows::path_crumbs(self.browser->0.cwd, self.platform);
        crumb_spots(crumbs, crumbs.len(), self.location_x(area), area)
    }

    /// The place of the current directory in its parent's listing.
    pub open spec fn here(self, items: Seq<browse::ItemView>) -> Option<usize> {
        browse::first_named(items, self.browser->0.cwd.file_name(), 0)
    }

    /// The first row of the parent's listing that is shown.
    pub open spec fn parent_first(self, items: Seq<browse::ItemView>, height: u16) -> usize {
        rows::centred(
            match self.here(items) {
                Some(at) => at,
                None => 0,
            },
            items.len() as usize,
            height as usize,
        )
    }

    /// One row of the parent's listing.
    pub open spec fn parent_row(self, items: Seq<browse::ItemView>, at: int, width: u16) -> screen::LineView {
        let item = items[at];
        let current = self.here(items) is Some && self.here(items)->0 == at;
        rows::column_row(
            item.shown(self.platform),
            item.is_dir,
            current,
            true,
            Seq::empty(),
            width as usize,
            RowMarks {
                icons: self.config.icons,
                favorite: item.is_dir && self.marks(
                    self.browser->0.cwd.parent()->0.child(item.name),
                ),
                inside: current,
            },
            self.platform,
        )
    }

    /// The rows of the parent's listing that are shown.
    pub open spec fn parent_rows(self, items: Seq<browse::ItemView>, area: Rect) -> Seq<screen::LineView> {
        let first = self.parent_first(items, area.height);
        Seq::new(
            menu::window(items.len(), first as int, area.height),
            |k: int| self.parent_row(items, first + k, area.width),
        )
    }

    /// The places that the parent's listing can be clicked for.
    pub open spec fn parent_spots(self, items: Seq<browse::ItemView>, area: Rect) -> Seq<
        picker::SpotView,
    > {
        let first = self.parent_first(items, area.height);
        Seq::new(
            menu::window(items.len(), first as int, area.height),
            |k: int|
                picker::SpotView {
                    area: area.row(k),
                    path: self.browser->0.cwd.parent()->0.child(items[first + k].name),
                },
        )
    }

    /// One row of the current directory.
    pub open spec fn current_row(self, at: int, width: u16) -> screen::LineView {
        let b = self.browser->0;
        let row = b.rows[at];
        let item = b.items[row.index as int];
        rows::column_row(
            item.shown(self.platform),
            item.is_dir,
            at == b.selected,
            false,
            row.hits,
            width as usize,
            RowMarks {
                icons: self.config.icons,
                favorite: item.is_dir && self.marks(b.cwd.child(item.name)),
                inside: false,
            },
            self.platform,
        )
    }

    /// The first row of the current directory that is shown.
    pub open spec fn current_first(self, height: u16) -> nat {
        scrolled(self.browser->0.selected as nat, self.browser->0.rows.len(), height as nat)
    }

    /// The rows of the current directory that are shown.
    pub open spec fn current_rows(self, area: Rect) -> Seq<screen::LineView> {
        let first = self.current_first(area.height);
        Seq::new(
            menu::window(self.browser->0.rows.len(), first as int, area.height),
            |k: int| self.current_row(first + k, area.width),
        )
    }

    /// The selected directory, where the selection is one.
    pub open spec fn selected_dir(self, is_dir: bool) -> Option<paths::LocationView> {
        if is_dir {
            self.browser->0.current_path()
        } else {
            None
        }
    }

    /// One name in the browser's preview.
    pub open spec fn preview_column_row(
        self,
        dir: paths::LocationView,
        name: Seq<char>,
        width: u16,
    ) -> screen::LineView {
        let is_dir = names_directory(name, self.platform);
        rows::column_row(
            name,
            is_dir,
            false,
            true,
            Seq::empty(),
            width as usize,
            RowMarks {
                icons: self.config.icons,
                favorite: is_dir && self.marks(dir.child(bare_name(name, self.platform))),
                inside: false,
            },
            self.platform,
        )
    }

    /// The names in the browser's preview that are shown.
    pub open spec fn preview_column(self, dir: paths::LocationView, area: Rect) -> Seq<
        screen::LineView,
    > {
        let names = self.preview->0.names;
        Seq::new(
            menu::window(names.len(), 0, area.height),
            |k: int| self.preview_column_row(dir, names[k], area.width),
        )
    }

    /// The picture of the browser. `parent` holds the entries of the directory
    /// above, and `is_dir` tells whether the selection is a directory.
    pub open spec fn browse_picture(
        self,
        area: Rect,
        areas: BrowseAreas,
        parent: Seq<browse::ItemView>,
        is_dir: bool,
    ) -> screen::ScreenView {
        let b = self.browser->0;
        let framed = screen::ScreenView::blank().with(
            screen::DrawView::Frame {
                area,
                tone: Tone::Border,
                title: screen::lined(rows::tab_bar(Mode::Browse)),
                bottom: rows::footer(self.notice, BROWSE_HINTS@),
            },
        );
        let asked = framed.with_line(areas.prompt, prompt_line(b.filter));
        let pointed = if areas.prompt.width > 0 && areas.prompt.height > 0 {
            asked.at(menu::prompt_cursor(areas.prompt, b.filter), areas.prompt.y)
        } else {
            asked
        };
        let counted = pointed.with_line(
            areas.info,
            info_line(tally("  "@, b.rows.len(), b.items.len()), areas.info.width),
        );
        let located = counted.with_line(areas.header, screen::lined(self.location_title()));
        let parted = located.with(
            screen::DrawView::Text {
                area: areas.left_bar,
                lines: bars(areas.left_bar.height),
                wrap: false,
            },
        ).with(
            screen::DrawView::Text {
                area: areas.right_bar,
                lines: bars(areas.right_bar.height),
                wrap: false,
            },
        );
        let above = if b.cwd.parent() is Some {
            parted.with(
                screen::DrawView::Rows {
                    area: areas.parent,
                    lines: self.parent_rows(browse::listed(parent), areas.parent),
                },
            )
        } else {
            parted
        };
        let here = above.with(
            screen::DrawView::Rows { area: areas.current, lines: self.current_rows(areas.current) },
        );
        let dir = self.selected_dir(is_dir);
        if self.previews(dir) {
            here.with(
                screen::DrawView::Rows {
                    area: areas.preview,
                    lines: self.preview_column(dir->0, areas.preview),
                },
            )
        } else {
            here
        }
    }

    /// The picker once the browser has been drawn.
    pub open spec fn browse_drawn(
        self,
        area: Rect,
        areas: BrowseAreas,
        parent: Seq<browse::ItemView>,
        is_dir: bool,
    ) -> PickerView {
        let b = self.browser->0;
        let dir = self.selected_dir(is_dir);
        PickerView {
            targets: picker::TargetsView {
                rows: areas.current,
                first: self.current_first(areas.current.height) as usize,
                count: b.rows.len() as usize,
                header: area.row(0),
                modes_x: screen::cut(area.x + 2),
                nav: self.location_buttons(areas.header),
                crumbs: self.location_spots(areas.header),
                paths: (if b.cwd.parent() is Some {
                    self.parent_spots(browse::listed(parent), areas.parent)
                } else {
                    Seq::empty()
                }) + (if self.previews(dir) {
                    name_spots(dir->0, self.preview->0.names, areas.preview, self.platform)
                } else {
                    Seq::empty()
                }),
            },
            ..self
        }
    }
}

fn button_style(enabled: bool) -> (tone: Tone)
    ensures
        tone == PickerView::button_tone(enabled),
{
    if enabled {
        Tone::Header
    } else {
        Tone::Border
    }
}

/// Adds the pieces of the header path to a title. Gives the steps that can be
/// clicked.
fn place_crumbs(pieces: &Vec<Crumb>, start: u16, area: Rect, title: &mut Vec<Span>) -> (crumbs: Vec<
    Spot,
>)
    ensures
        text::views(final(title)@) == text::views(old(title)@) + rows::pieces(text::views(pieces@)),
        text::views(crumbs@) == crumb_spots(text::views(pieces@), pieces@.len(), start, area),
{
    let ghost front = text::views(title@);
    let ghost all = text::views(pieces@);
    let mut x: u16 = start;
    let mut crumbs: Vec<Spot> = Vec::new();
    let mut i: usize = 0;
    assert(text::views(crumbs@) =~= crumb_spots(all, 0, start, area));
    assert(front + rows::pieces(all.take(0)) =~= front);
    while i < pieces.len()
        invariant
            i <= pieces@.len(),
            all == text::views(pieces@),
            x == crumb_x(all, i as nat, start),
            text::views(crumbs@) == crumb_spots(all, i as nat, start, area),
            text::views(title@) == front + rows::pieces(all.take(i as int)),
        decreases pieces@.len() - i,
    {
        assert(all[i as int] == pieces@[i as int]@);
        let piece = &pieces[i];
        let cells: u16 = cell_width(piece.span.text.as_str());
        if let Some(dir) = &piece.dir {
            // What is cut off at the edge must not answer clicks.
            if x as u32 + cells as u32 <= area.right() as u32 {
                add_spot(
                    &mut crumbs,
                    Spot { area: Rect { x, y: area.y, width: cells, height: 1 }, path: dir.clone() },
                );
            }
        }
        x = x.saturating_add(cells);
        proof {
            assert(rows::pieces(all.take(i + 1)) =~= rows::pieces(all.take(i as int)).push(
                all[i as int].0,
            ));
            assert((front + rows::pieces(all.take(i as int))).push(all[i as int].0) =~= front
                + rows::pieces(all.take(i + 1)));
        }
        add_span(title, piece.span.text.as_str(), piece.span.tone);
        i += 1;
    }
    assert(all.take(i as int) =~= all);
    crumbs
}

/// What the header of the browser shows, and what it can be clicked for.
struct Heading {
    title: Vec<Span>,
    nav: Vec<Button>,
    crumbs: Vec<Spot>,
}

impl Picker {
    /// The buttons in front of the browser's path, and the column after them.
    fn location_head(&self, browser: &Browser, area: Rect) -> (head: (Vec<Span>, u16))
        requires
            self@.browser == Some(browser@),
        ensures
            text::views(head.0@) == self@.location_front(),
            head.1 == self@.location_x(area),
    {
        let mut title: Vec<Span> = Vec::new();
        add_span(&mut title, " ◀ ", button_style(browser.has_history(false)));
        add_span(&mut title, " ▶ ", button_style(browser.has_history(true)));
        add_span(&mut title, " ▲ ", button_style(browser.cwd.has_parent()));
        add_span(&mut title, " ", Tone::Plain);
        let second: u16 = area.x.saturating_add(BUTTON_WIDTH);
        let third: u16 = second.saturating_add(BUTTON_WIDTH);
        let mut x: u16 = third.saturating_add(BUTTON_WIDTH).saturating_add(1);
        if self.is_marked(&browser.cwd) {
            let star = crate::icons::span(crate::icons::STAR);
            add_span(&mut title, star.text.as_str(), star.tone);
            x = x.saturating_add(cell_width(crate::icons::STAR));
        }
        assert(text::views(title@) =~= self@.location_front());
        (title, x)
    }

    /// The buttons and the path of the browser. They have a row to themselves;
    /// where each piece lands is recorded, so that it can be clicked.
    fn browse_location(&self, browser: &Browser, area: Rect) -> (heading: Heading)
        requires
            self@.browser == Some(browser@),
        ensures
            text::views(heading.title@) == self@.location_title(),
            heading.nav@ == self@.location_buttons(area),
            text::views(heading.crumbs@) == self@.location_spots(area),
    {
        let back = browser.has_history(false);
        let forward = browser.has_history(true);
        let up = browser.cwd.has_parent();
        let second: u16 = area.x.saturating_add(BUTTON_WIDTH);
        let third: u16 = second.saturating_add(BUTTON_WIDTH);
        let mut nav: Vec<Button> = Vec::new();
        add_button(&mut nav, area, area.x, back, Nav::Back);
        add_button(&mut nav, area, second, forward, Nav::Forward);
        add_button(&mut nav, area, third, up, Nav::Up);
        assert(nav@ =~= buttons(area, back, forward, up));
        let (mut title, x) = self.location_head(browser, area);
        let pieces = crumb_spans(&browser.cwd, self.platform);
        let crumbs = place_crumbs(&pieces, x, area, &mut title);
        add_span(&mut title, " ", Tone::Plain);
        assert(text::views(title@) =~= self@.location_title());
        Heading { title, nav, crumbs }
    }

    fn draw_parent(
        &self,
        browser: &Browser,
        items: &Vec<Item>,
        here: Option<usize>,
        area: Rect,
        spots: &mut Vec<Spot>,
    ) -> (out: Vec<Line>)
        requires
            self@.browser == Some(browser@),
            browser@.cwd.parent() is Some,
            here == self@.here(text::views(items@)),
        ensures
            text::views(out@) == self@.parent_rows(text::views(items@), area),
            text::views(final(spots)@) == text::views(old(spots)@) + self@.parent_spots(
                text::views(items@),
                area,
            ),
    {
        let ghost views = text::views(items@);
        let ghost all = self@.parent_rows(views, area);
        let ghost places = self@.parent_spots(views, area);
        let ghost before = text::views(spots@);
        let total: usize = items.len();
        let height: usize = area.height as usize;
        let focus: usize = match here {
            Some(at) => at,
            None => 0,
        };
        let first: usize = centred_scroll(focus, total, height);
        assert(first == self@.parent_first(views, area.height));
        let mut out: Vec<Line> = Vec::new();
        let none: Vec<u32> = Vec::new();
        assert(none@ =~= Seq::<u32>::empty());
        let parent = match browser.cwd.parent() {
            Some(parent) => parent,
            None => {
                return out;
            },
        };
        let count: usize = if first >= total {
            0
        } else if total - first < height {
            total - first
        } else {
            height
        };
        assert(all.len() == count);
        assert(places.len() == count);
        let mut k: usize = 0;
        assert(text::views(out@) =~= all.take(0));
        assert(before + places.take(0) =~= before);
        while k < count
            invariant
                k <= count,
                count <= area.height,
                first + count <= total || count == 0,
                total == items@.len(),
                views == text::views(items@),
                self@.browser == Some(browser@),
                browser@.cwd.parent() == Some(parent@),
                here == self@.here(views),
                none@ == Seq::<u32>::empty(),
                first == self@.parent_first(views, area.height),
                all == self@.parent_rows(views, area),
                places == self@.parent_spots(views, area),
                all.len() == count,
                places.len() == count,
                text::views(out@) == all.take(k as int),
                text::views(spots@) == before + places.take(k as int),
            decreases count - k,
        {
            let at: usize = first + k;
            let item = &items[at];
            assert(views[at as int] == item@);
            let place = parent.child(item.name.as_str());
            let current = match here {
                Some(row) => row == at,
                None => false,
            };
            let marks = RowMarks {
                icons: self.config.icons,
                favorite: item.is_dir && self.is_marked(&place),
                inside: current,
            };
            let row = browse_row(
                item.label(self.platform).as_str(),
                item.is_dir,
                current,
                true,
                &none,
                area.width as usize,
                marks,
                self.platform,
            );
            let spot = Spot { area: area.line(k as u16), path: place };
            proof {
                assert(all.take(k + 1) =~= all.take(k as int).push(row@));
                assert(places.take(k + 1) =~= places.take(k as int).push(spot@));
                assert((before + places.take(k as int)).push(spot@) =~= before + places.take(
                    k as int,
                ).push(spot@));
            }
            add_line(&mut out, row);
            add_spot(spots, spot);
            k += 1;
        }
        assert(all.take(k as int) =~= all);
        assert(places.take(k as int) =~= places);
        out
    }

    fn draw_current(&self, browser: &Browser, area: Rect) -> (out: Vec<Line>)
        requires
            self@.browser == Some(browser@),
            browser@.wf(),
        ensures
            text::views(out@) == self@.current_rows(area),
    {
        let ghost all = self@.current_rows(area);
        let ghost b = browser@;
        let total: usize = browser.rows.len();
        let height: usize = area.height as usize;
        assert(b.rows.len() == total);
        let first: usize = scroll(browser.selected, total, height);
        let count: usize = if first >= total {
            0
        } else if total - first < height {
            total - first
        } else {
            height
        };
        assert(all.len() == count);
        let mut out: Vec<Line> = Vec::new();
        let mut k: usize = 0;
        assert(text::views(out@) =~= all.take(0));
        while k < count
            invariant
                k <= count,
                first + count <= total || count == 0,
                total == browser.rows@.len(),
                self@.browser == Some(browser@),
                b == browser@,
                b.wf(),
                first == self@.current_first(area.height),
                all == self@.current_rows(area),
                all.len() == count,
                text::views(out@) == all.take(k as int),
            decreases count - k,
        {
            let at: usize = first + k;
            let shown = &browser.rows[at];
            assert(b.rows[at as int] == shown@);
            let index: usize = shown.index;
            let item = &browser.items[index];
            assert(b.items[index as int] == item@);
            proof {
                let raw = fuzzy::marked(b.filter, item@.name).1;
                order::lemma_ascending(raw);
                assert(order::is_ascending(shown.hits@));
            }
            let marks = RowMarks {
                icons: self.config.icons,
                favorite: item.is_dir && self.is_marked(&browser.cwd.child(item.name.as_str())),
                inside: false,
            };
            let row = browse_row(
                item.label(self.platform).as_str(),
                item.is_dir,
                at == browser.selected,
                false,
                &shown.hits,
                area.width as usize,
                marks,
                self.platform,
            );
            assert(all.take(k + 1) =~= all.take(k as int).push(row@));
            add_line(&mut out, row);
            k += 1;
        }
        assert(all.take(k as int) =~= all);
        out
    }

    fn draw_preview_column(&self, dir: &Location, preview: &Preview, area: Rect) -> (out: Vec<Line>)
        requires
            self@.preview == Some(preview@),
        ensures
            text::views(out@) == self@.preview_column(dir@, area),
    {
        let ghost all = self@.preview_column(dir@, area);
        let ghost names = text::views(preview.names@);
        let none: Vec<u32> = Vec::new();
        assert(none@ =~= Seq::<u32>::empty());
        let total: usize = preview.names.len();
        let count: usize = if total < area.height as usize {
            total
        } else {
            area.height as usize
        };
        assert(all.len() == count);
        let mut out: Vec<Line> = Vec::new();
        let mut k: usize = 0;
        assert(text::views(out@) =~= all.take(0));
        while k < count
            invariant
                k <= count <= preview.names@.len(),
                names == text::views(preview.names@),
                self@.preview == Some(preview@),
                none@ == Seq::<u32>::empty(),
                all == self@.preview_column(dir@, area),
                all.len() == count,
                text::views(out@) == all.take(k as int),
            decreases count - k,
        {
            assert(names[k as int] == preview.names@[k as int]@);
            let name = preview.names[k].as_str();
            let is_dir = ends_with(name, self.platform.separator());
            let bare = plain_name(name, self.platform);
            let marks = RowMarks {
                icons: self.config.icons,
                favorite: is_dir && self.is_marked(&dir.child(bare.as_str())),
                inside: false,
            };
            let row = browse_row(
                name,
                is_dir,
                false,
                true,
                &none,
                area.width as usize,
                marks,
                self.platform,
            );
            assert(all.take(k + 1) =~= all.take(k as int).push(row@));
            add_line(&mut out, row);
            k += 1;
        }
        assert(all.take(k as int) =~= all);
        out
    }

    /// What to draw of the browser in the parts of an area, and from then on
    /// what the mouse finds there.
    pub fn draw_browse(
        &mut self,
        area: Rect,
        areas: BrowseAreas,
        parent: Vec<Item>,
        is_dir: bool,
    ) -> (screen: Screen)
        requires
            old(self)@.wf(),
            old(self)@.mode is Browse,
        ensures
            screen@ == old(self)@.browse_picture(area, areas, text::views(parent@), is_dir),
            final(self)@ == old(self)@.browse_drawn(area, areas, text::views(parent@), is_dir),
            final(self)@.wf(),
    {
        let ghost start = self@;
        let ghost entries = text::views(parent@);
        let mut screen = Screen::new();
        let mut targets = Targets::none(area.x.saturating_add(2));
        if let Some(browser) = &self.browser {
            let ghost b = browser@;
            screen.frame(
                area,
                Tone::Border,
                line(mode_tabs(Mode::Browse)),
                footer_line(&self.notice, BROWSE_HINTS),
            );
            screen.line(areas.prompt, draw_prompt(browser.filter.as_str()));
            if areas.prompt.width > 0 && areas.prompt.height > 0 {
                screen.cursor = Some(
                    (cursor_column(areas.prompt, browser.filter.as_str()), areas.prompt.y),
                );
            }
            let shown: usize = browser.rows.len();
            let total: usize = browser.items.len();
            let counts = count_text("  ", shown as u128, total as u128);
            screen.line(areas.info, draw_info(counts.as_str(), areas.info.width));
            let heading = self.browse_location(browser, areas.header);
            screen.line(areas.header, line(heading.title));
            screen.text(areas.left_bar, draw_bars(areas.left_bar.height), false);
            screen.text(areas.right_bar, draw_bars(areas.right_bar.height), false);
            let mut paths: Vec<Spot> = Vec::new();
            assert(text::views(paths@) =~= Seq::empty());
            if let Some((items, here)) = browser.parent_listing(parent) {
                let rows = self.draw_parent(browser, &items, here, areas.parent, &mut paths);
                screen.rows(areas.parent, rows);
            }
            assert(text::views(paths@) =~= if b.cwd.parent() is Some {
                start.parent_spots(browse::listed(entries), areas.parent)
            } else {
                Seq::empty()
            });
            screen.rows(areas.current, self.draw_current(browser, areas.current));
            let dir = if is_dir {
                browser.selected_path()
            } else {
                None
            };
            let ghost above = text::views(paths@);
            if self.previews(&dir) {
                if let (Some(dir), Some(preview)) = (&dir, &self.preview) {
                    add_name_spots(&mut paths, dir, &preview.names, areas.preview, self.platform);
                    screen.rows(
                        areas.preview,
                        self.draw_preview_column(dir, preview, areas.preview),
                    );
                }
            } else {
                assert(above + Seq::<picker::SpotView>::empty() =~= above);
            }
            targets.header = area.line(0);
            targets.nav = heading.nav;
            targets.crumbs = heading.crumbs;
            targets.paths = paths;
            targets.rows = areas.current;
            targets.first = scroll(browser.selected, shown, areas.current.height as usize);
            targets.count = shown;
        }
        self.targets = targets;
        screen
    }

    /// What to draw of the browser in an area.
    pub fn render_browse(&mut self, area: Rect, parent: Vec<Item>, is_dir: bool) -> (screen: Screen)
        requires
            old(self)@.wf(),
            old(self)@.mode is Browse,
            area.countable(),
        ensures
            exists|areas: BrowseAreas| #[trigger]
                old(self)@.browse_picture(area, areas, text::views(parent@), is_dir) == screen@
                    && browse_shared(area, areas) && final(self)@ == old(self)@.browse_drawn(
                    area,
                    areas,
                    text::views(parent@),
                    is_dir,
                ),
            final(self)@.wf(),
    {
        let areas = browse_areas(area);
        self.draw_browse(area, areas, parent, is_dir)
    }
}

/// What has to be known from outside to draw the picker.
#[derive(Debug)]
pub enum Sight {
    /// The entries of the directory above the browser's, and whether the
    /// selection is a directory.
    Browser(Vec<Item>, bool),
    /// What a search has found, and the parts of the screen it is shown in.
    Search(SearchAreas, Findings),
}

impl Sight {
    /// Whether this is what the mode shows, in parts of the area.
    pub open spec fn fits(self, mode: Mode, area: Rect) -> bool {
        match self {
            Sight::Browser(_, _) => mode is Browse,
            Sight::Search(areas, _) => !(mode is Browse) && search_shared(area, areas),
        }
    }
}

impl PickerView {
    /// With nothing to click.
    pub open spec fn untargeted(self) -> PickerView {
        PickerView { targets: picker::TargetsView::none(self.targets.modes_x), ..self }
    }

    /// Whether a screen is a picture of the picker in an area, after which the
    /// picker is as given: that of the menu where one is open, otherwise that
    /// of the browser or of the search.
    pub open spec fn pictured(
        self,
        area: Rect,
        sight: Sight,
        screen: screen::ScreenView,
        after: PickerView,
    ) -> bool {
        match (self.menu, sight) {
            (Some(menu), _) => exists|target: Rect, prompt: Rect, warning: Rect, rows: Rect| #[trigger]
                menu.picture(area, target, prompt, warning, rows, self.platform) == screen
                    && menu.shared(area, target, prompt, warning, rows) && after == (PickerView {
                    menu: Some(menu.placed(rows)),
                    ..self.untargeted()
                }),
            (None, Sight::Browser(parent, is_dir)) => exists|areas: BrowseAreas| #[trigger]
                self.browse_picture(area, areas, text::views(parent@), is_dir) == screen
                    && browse_shared(area, areas) && after == self.browse_drawn(
                    area,
                    areas,
                    text::views(parent@),
                    is_dir,
                ),
            (None, Sight::Search(areas, found)) => {
                &&& screen == self.sourced().search_picture(areas, found@)
                &&& after == self.sourced().search_drawn(areas, found@)
            },
        }
    }
}

impl Picker {
    /// What to draw of the picker in an area. Drawing reads no directory, so
    /// that a burst of scrolling costs nothing.
    pub fn render(&mut self, area: Rect, sight: Sight) -> (screen: Screen)
        requires
            old(self)@.wf(),
            old(self)@.menu is None ==> sight.fits(old(self)@.mode, area),
            area.countable(),
        ensures
            old(self)@.pictured(area, sight, screen@, final(self)@),
            final(self)@.preview == old(self)@.preview,
            final(self)@.wf(),
    {
        let platform = self.platform;
        if let Some(menu) = &mut self.menu {
            let screen = menu.render(area, platform);
            self.targets = Targets::none(self.targets.modes_x);
            return screen;
        }
        match sight {
            Sight::Browser(parent, is_dir) => self.render_browse(area, parent, is_dir),
            Sight::Search(areas, found) => self.draw_search(areas, &found),
        }
    }
}

} // verus!
