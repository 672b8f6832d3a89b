//! The picker: what is shown, what is selected, and what each key and click
//! does. Whatever needs the file system or another program comes out as a
//! task, and its result is told back.
use crate::actions;
use crate::actions::Action;
use crate::browse;
use crate::browse::{Browser, Item, Visit};
use crate::cli::{mode_after, mode_at, mode_index, Mode, MODES};
use crate::config;
use crate::config::Config;
use crate::favorites::Index;
use crate::fuzzy;
use crate::keys::{
    is_typed_text, KeyCode, KeyEvent, Modifiers, MouseButton, MouseEvent, MouseKind,
};
use crate::menu;
use crate::menu::{Decision, Menu};
use crate::order;
use crate::order::{stable_order, SortKey};
use crate::paths;
use crate::paths::{Location, Platform};
use crate::scan;
use crate::scan::Entry;
use crate::screen::Rect;
use crate::text;
use crate::text::{shorten, starts_with};
use vstd::prelude::*;

verus! {

/// How long a confirmation stays, in milliseconds.
pub const NOTICE_LINGER: u64 = 3000;

/// How long clicks are swallowed after the screen is replaced wholesale, so
/// that the rest of a double tap does not land on whatever moved there.
pub const CLICK_GUARD: u64 = 300;

/// How long after a click another one makes it a double click.
pub const DOUBLE_CLICK: u64 = 500;

/// A moment some milliseconds after another.
pub open spec fn later(now: u64, delay: u64) -> u64 {
    if now + delay > u64::MAX {
        u64::MAX
    } else {
        (now + delay) as u64
    }
}

/// One mode's candidates, as far as the picker decides about them.
#[derive(Clone, Copy, Debug, PartialEq, Eq, Structural)]
pub struct Source {
    pub selected: u32,
    pub query_empty: bool,
    /// Nothing has been read for it yet.
    pub fresh: bool,
}

impl Source {
    /// Whether the candidates stand in browse order: those of a scan do while
    /// there is no query. The saved lists keep their own order.
    pub open spec fn in_order(self, mode: Mode) -> bool {
        self.query_empty && !(mode is Recent || mode is Favorites)
    }

    /// Whether the candidates stand in browse order.
    pub fn browsing(&self, mode: Mode) -> (yes: bool)
        ensures
            yes == self.in_order(mode),
    {
        self.query_empty && !matches!(mode, Mode::Recent | Mode::Favorites)
    }

    /// The selection kept within the candidates.
    pub open spec fn clamped(self, count: u32) -> Source {
        Source {
            selected: if count == 0 {
                0
            } else if self.selected >= count {
                (count - 1) as u32
            } else {
                self.selected
            },
            ..self
        }
    }

    /// Keeps the selection within the candidates.
    pub fn clamp_selection(&mut self, count: u32)
        ensures
            *final(self) == old(self).clamped(count),
    {
        if count == 0 {
            self.selected = 0;
        } else if self.selected >= count {
            self.selected = count - 1;
        }
    }
}

/// The number of times a character occurs.
pub open spec fn occurrences(text: Seq<char>, c: char) -> nat
    decreases text.len(),
{
    if text.len() == 0 {
        0
    } else {
        occurrences(text.drop_last(), c) + if text.last() == c {
            1nat
        } else {
            0nat
        }
    }
}

fn count_char(text: &str, c: char) -> (count: u64)
    ensures
        count == occurrences(text@, c),
{
    let chars = text::chars_of(text);
    let total: usize = chars.len();
    let mut count: u64 = 0;
    let mut i: usize = 0;
    assert(chars@.take(0) =~= Seq::empty());
    while i < total
        invariant
            i <= total == chars@.len(),
            count <= i,
            count == occurrences(chars@.take(i as int), c),
        decreases total - i,
    {
        assert(chars@.take(i + 1).drop_last() =~= chars@.take(i as int));
        if chars[i] == c {
            count += 1;
        }
        i += 1;
    }
    assert(chars@.take(i as int) =~= chars@);
    count
}

/// By what a candidate stands in browse order: shallow paths first, then by
/// name without regard to case.
pub open spec fn depth_key(display: Seq<char>, platform: Platform) -> order::KeyView {
    order::KeyView {
        rank: occurrences(display, platform.sep()) as u64,
        text: text::unicode_lower(display),
    }
}

/// By what the candidates stand in browse order.
pub open spec fn depth_keys(displays: Seq<Seq<char>>, platform: Platform) -> Seq<order::KeyView> {
    displays.map_values(|display: Seq<char>| depth_key(display, platform))
}

/// The candidates in browse order, by their positions. A walk finds them in an
/// order that means nothing to a reader.
pub fn browse_order(displays: &Vec<String>, platform: Platform) -> (order: Vec<usize>)
    ensures
        order::is_order(
            depth_keys(text::views(displays@), platform),
            order@,
            0,
            displays@.len() as int,
        ),
{
    let ghost all = text::views(displays@);
    let mut keys: Vec<SortKey> = Vec::new();
    let mut i: usize = 0;
    assert(text::views(keys@) =~= depth_keys(all.take(0), platform));
    while i < displays.len()
        invariant
            i <= displays@.len(),
            all == text::views(displays@),
            text::views(keys@) == depth_keys(all.take(i as int), platform),
        decreases displays@.len() - i,
    {
        let lower = text::to_lower(displays[i].as_str());
        let key = SortKey {
            rank: count_char(displays[i].as_str(), platform.separator()),
            text: text::chars_of(lower.as_str()),
        };
        proof {
            text::lemma_views_push(keys@, key);
            assert(all[i as int] == displays@[i as int]@);
            assert(depth_keys(all.take(i + 1), platform) =~= depth_keys(
                all.take(i as int),
                platform,
            ).push(key@));
        }
        keys.push(key);
        i += 1;
    }
    assert(all.take(i as int) =~= all);
    stable_order(&keys)
}

/// Which candidate is the nth row.
#[derive(Clone, Copy, Debug, PartialEq, Eq, Structural)]
pub enum Shown {
    /// The candidate at a position among all of them.
    Item(u32),
    /// The nth of those that match, best first.
    Matched(u32),
    /// There is none.
    Missing,
}

/// What a row of the list shows: while browsing the candidate that the browse
/// order puts there, otherwise the nth that matches.
pub open spec fn row_shown(order: Option<Seq<u32>>, browsing: bool, n: u32) -> Shown {
    match order {
        Some(order) => if browsing {
            if n < order.len() {
                Shown::Item(order[n as int])
            } else {
                Shown::Missing
            }
        } else {
            Shown::Matched(n)
        },
        None => Shown::Matched(n),
    }
}

/// Which candidate is the nth row: by browse order while browsing, once that
/// is known, and by rank otherwise.
pub fn visible(order: &Option<Vec<u32>>, browsing: bool, n: u32) -> (row: Shown)
    ensures
        row == row_shown(
            match *order {
                Some(order) => Some(order@),
                None => None,
            },
            browsing,
            n,
        ),
{
    match order {
        Some(order) => if browsing {
            if (n as u64) < order.len() as u64 {
                Shown::Item(order[n as usize])
            } else {
                Shown::Missing
            }
        } else {
            Shown::Matched(n)
        },
        None => Shown::Matched(n),
    }
}

/// The listing shown on the right, with the directory it was read from.
#[derive(Debug)]
pub struct Preview {
    pub dir: Location,
    pub names: Vec<String>,
}

#[verifier::ext_equal]
pub struct PreviewView {
    pub dir: paths::LocationView,
    pub names: Seq<Seq<char>>,
}

impl View for Preview {
    type V = PreviewView;

    open spec fn view(&self) -> PreviewView {
        PreviewView { dir: self.dir@, names: text::views(self.names@) }
    }
}

/// A place that can be clicked.
#[derive(Debug)]
pub struct Spot {
    pub area: Rect,
    pub path: Location,
}

#[verifier::ext_equal]
pub struct SpotView {
    pub area: Rect,
    pub path: paths::LocationView,
}

impl View for Spot {
    type V = SpotView;

    open spec fn view(&self) -> SpotView {
        SpotView { area: self.area, path: self.path@ }
    }
}

/// The buttons at the head of the browse header.
#[derive(Clone, Copy, Debug, PartialEq, Eq, Structural)]
pub enum Nav {
    Back,
    Forward,
    Up,
}

/// A button that can be clicked.
#[derive(Clone, Copy, Debug, PartialEq, Eq, Structural)]
pub struct Button {
    pub area: Rect,
    pub nav: Nav,
}

/// A click on a row, which another one may make a double click.
#[derive(Debug)]
pub struct Click {
    pub path: Location,
    pub x: u16,
    pub y: u16,
    pub at: u64,
}

#[verifier::ext_equal]
pub struct ClickView {
    pub path: paths::LocationView,
    pub x: u16,
    pub y: u16,
    pub at: u64,
}

impl View for Click {
    type V = ClickView;

    open spec fn view(&self) -> ClickView {
        ClickView { path: self.path@, x: self.x, y: self.y, at: self.at }
    }
}

/// Where on the screen the mouse finds what.
#[derive(Debug)]
pub struct Targets {
    /// The rows of the list, which of them is the first one shown, and how
    /// many there are.
    pub rows: Rect,
    pub first: usize,
    pub count: usize,
    pub header: Rect,
    /// The column where the mode tabs start.
    pub modes_x: u16,
    pub nav: Vec<Button>,
    pub crumbs: Vec<Spot>,
    pub paths: Vec<Spot>,
}

#[verifier::ext_equal]
pub struct TargetsView {
    pub rows: Rect,
    pub first: usize,
    pub count: usize,
    pub header: Rect,
    pub modes_x: u16,
    pub nav: Seq<Button>,
    pub crumbs: Seq<SpotView>,
    pub paths: Seq<SpotView>,
}

impl View for Targets {
    type V = TargetsView;

    open spec fn view(&self) -> TargetsView {
        TargetsView {
            rows: self.rows,
            first: self.first,
            count: self.count,
            header: self.header,
            modes_x: self.modes_x,
            nav: self.nav@,
            crumbs: text::views(self.crumbs@),
            paths: text::views(self.paths@),
        }
    }
}

impl TargetsView {
    /// Nothing to click.
    pub open spec fn none(modes_x: u16) -> TargetsView {
        TargetsView {
            rows: Rect::nowhere(),
            first: 0,
            count: 0,
            header: Rect::nowhere(),
            modes_x,
            nav: Seq::empty(),
            crumbs: Seq::empty(),
            paths: Seq::empty(),
        }
    }
}

impl TargetsView {
    /// The row that the mouse picks, if it picks one: the one it points at, or
    /// one three further than `cursor`.
    pub open spec fn picked(self, mouse: MouseEvent, cursor: int) -> Option<int> {
        if !self.rows.holds(mouse.column, mouse.row) || self.count == 0 {
            None
        } else {
            match mouse.kind {
                MouseKind::Down(MouseButton::Left) | MouseKind::Down(MouseButton::Right) => {
                    let row = self.first + (mouse.row - self.rows.y);
                    if row >= self.count {
                        None
                    } else {
                        Some(row)
                    }
                },
                MouseKind::ScrollUp => Some(
                    if cursor < 3 {
                        0
                    } else {
                        cursor - 3
                    },
                ),
                MouseKind::ScrollDown => Some(
                    if cursor + 3 > self.count - 1 {
                        self.count - 1
                    } else {
                        cursor + 3
                    },
                ),
                _ => None,
            }
        }
    }
}

impl Targets {
    /// Nothing to click.
    pub fn none(modes_x: u16) -> (targets: Targets)
        ensures
            targets@ == TargetsView::none(modes_x),
    {
        let crumbs: Vec<Spot> = Vec::new();
        let paths: Vec<Spot> = Vec::new();
        assert(text::views(crumbs@) =~= Seq::empty());
        assert(text::views(paths@) =~= Seq::empty());
        Targets {
            rows: Rect::none(),
            first: 0,
            count: 0,
            header: Rect::none(),
            modes_x,
            nav: Vec::new(),
            crumbs,
            paths,
        }
    }
}

/// What is left to do outside after a key or a click.
#[derive(Debug)]
pub enum Task {
    Nothing,
    /// Leave without a choice.
    Cancel,
    /// Leave with the selection, if there is one.
    Accept,
    /// Run an action on an item.
    Execute(Box<Action>, Location),
    /// Open the action menu for an item.
    OpenMenu(Location),
    /// Pin a directory or take its pin away.
    TogglePin(Location),
    /// Read the pins again.
    ReloadPins,
    /// Read the pins and then the listing again.
    Refresh(Option<Visit>),
    /// Match the current candidates against the query, which only got longer
    /// if the flag says so.
    Requery(bool),
    /// Start browsing: in the given place if it is a directory, else in the
    /// root.
    OpenBrowser(Option<Location>),
    /// Read a directory to browse in.
    Read(Visit),
    /// Go to a place, and show the browser if the flag says so.
    Navigate(Location, bool),
    /// Go back, or forward, to the nearest directory that is still there.
    Retrace(bool),
    /// Show an item in the file manager.
    Reveal(Location),
    /// Open a file with its application.
    Launch(Location),
    /// Reveal a directory or launch a file.
    Show(Location),
    /// Fit the screen to its new number of rows.
    Resize(u16),
}

#[verifier::ext_equal]
pub enum TaskView {
    Nothing,
    Cancel,
    Accept,
    Execute(actions::ActionView, paths::LocationView),
    OpenMenu(paths::LocationView),
    TogglePin(paths::LocationView),
    ReloadPins,
    Refresh(Option<browse::VisitView>),
    Requery(bool),
    OpenBrowser(Option<paths::LocationView>),
    Read(browse::VisitView),
    Navigate(paths::LocationView, bool),
    Retrace(bool),
    Reveal(paths::LocationView),
    Launch(paths::LocationView),
    Show(paths::LocationView),
    Resize(u16),
}

impl View for Task {
    type V = TaskView;

    open spec fn view(&self) -> TaskView {
        match self {
            Task::Nothing => TaskView::Nothing,
            Task::Cancel => TaskView::Cancel,
            Task::Accept => TaskView::Accept,
            Task::Execute(action, target) => TaskView::Execute((**action)@, target@),
            Task::OpenMenu(path) => TaskView::OpenMenu(path@),
            Task::TogglePin(path) => TaskView::TogglePin(path@),
            Task::ReloadPins => TaskView::ReloadPins,
            Task::Refresh(visit) => TaskView::Refresh(text::inside(*visit)),
            Task::Requery(append) => TaskView::Requery(*append),
            Task::OpenBrowser(path) => TaskView::OpenBrowser(text::inside(*path)),
            Task::Read(visit) => TaskView::Read(visit@),
            Task::Navigate(path, show) => TaskView::Navigate(path@, *show),
            Task::Retrace(forward) => TaskView::Retrace(*forward),
            Task::Reveal(path) => TaskView::Reveal(path@),
            Task::Launch(path) => TaskView::Launch(path@),
            Task::Show(path) => TaskView::Show(path@),
            Task::Resize(rows) => TaskView::Resize(*rows),
        }
    }
}

/// The place that a candidate stands for. A file stands for its directory: the
/// point is to cd there.
pub open spec fn output(entry: scan::EntryView, mode: Mode) -> paths::LocationView {
    match (mode, entry.path.parent()) {
        (Mode::Files, Some(parent)) => parent,
        _ => entry.path,
    }
}

/// The place that a candidate stands for.
pub fn output_path(entry: &Entry, mode: Mode) -> (place: Location)
    ensures
        place@ == output(entry@, mode),
{
    match mode {
        Mode::Files => match entry.path.parent() {
            Some(parent) => parent,
            None => entry.path.clone(),
        },
        _ => entry.path.clone(),
    }
}

/// The picker.
pub struct Picker {
    /// One for each mode that has been shown.
    pub sources: Vec<Option<Source>>,
    /// There once browsing was shown.
    pub browser: Option<Browser>,
    pub mode: Mode,
    pub query: String,
    pub root: Location,
    pub config: Config,
    pub preview: Option<Preview>,
    pub frame_count: u32,
    pub notice: Option<String>,
    /// When the notice goes by itself. Failures wait to be read.
    pub notice_until: Option<u64>,
    pub clicks_blocked_until: Option<u64>,
    pub pinned: Index,
    pub menu: Option<Menu>,
    pub targets: Targets,
    pub last_click: Option<Click>,
    pub platform: Platform,
}

/// The picker as mathematical values.
#[verifier::ext_equal]
pub struct PickerView {
    pub sources: Seq<Option<Source>>,
    pub browser: Option<browse::BrowserView>,
    pub mode: Mode,
    pub query: Seq<char>,
    pub root: paths::LocationView,
    pub config: config::ConfigView,
    pub preview: Option<PreviewView>,
    pub frame_count: u32,
    pub notice: Option<Seq<char>>,
    pub notice_until: Option<u64>,
    pub clicks_blocked_until: Option<u64>,
    pub pinned: Set<Seq<char>>,
    pub menu: Option<menu::MenuView>,
    pub targets: TargetsView,
    pub last_click: Option<ClickView>,
    pub platform: Platform,
}

impl View for Picker {
    type V = PickerView;

    open spec fn view(&self) -> PickerView {
        PickerView {
            sources: self.sources@,
            browser: text::inside(self.browser),
            mode: self.mode,
            query: self.query@,
            root: self.root@,
            config: self.config@,
            preview: text::inside(self.preview),
            frame_count: self.frame_count,
            notice: text::inside(self.notice),
            notice_until: self.notice_until,
            clicks_blocked_until: self.clicks_blocked_until,
            pinned: self.pinned@,
            menu: text::inside(self.menu),
            targets: self.targets@,
            last_click: text::inside(self.last_click),
            platform: self.platform,
        }
    }
}

impl PickerView {
    /// There is a browser while browsing, and its parts are in order.
    pub open spec fn wf(self) -> bool {
        &&& self.sources.len() == MODES
        &&& self.query.len() <= fuzzy::QUERY_LIMIT
        &&& self.mode is Browse ==> self.browser is Some
        &&& self.browser is Some ==> self.browser->0.wf()
        &&& self.menu is Some ==> self.menu->0.wf()
    }

    /// The picker as it opens, with no browser yet.
    pub open spec fn opened(
        mode: Mode,
        root: paths::LocationView,
        config: config::ConfigView,
        pinned: Set<Seq<char>>,
        notice: Option<Seq<char>>,
        platform: Platform,
    ) -> PickerView {
        PickerView {
            sources: seq![None, None, None, None, None],
            browser: None,
            mode,
            query: Seq::empty(),
            root,
            config,
            preview: None,
            frame_count: 0,
            notice,
            notice_until: None,
            clicks_blocked_until: None,
            pinned,
            menu: None,
            targets: TargetsView::none(0),
            last_click: None,
            platform,
        }
    }

    /// Without a notice.
    pub open spec fn quiet(self) -> PickerView {
        PickerView { notice: None, notice_until: None, ..self }
    }

    /// With a notice that stays until the next action.
    pub open spec fn noticed(self, text: Seq<char>) -> PickerView {
        PickerView { notice: Some(text), notice_until: None, ..self }
    }

    /// With a notice that goes by itself.
    pub open spec fn confirmed(self, text: Seq<char>, now: u64) -> PickerView {
        PickerView { notice: Some(text), notice_until: Some(later(now, NOTICE_LINGER)), ..self }
    }

    /// Whether the notice's time is up.
    pub open spec fn notice_due(self, now: u64) -> bool {
        self.notice_until is Some && now >= self.notice_until->0
    }

    /// Whether a click is left over from the previous screen.
    pub open spec fn guarded(self, now: u64) -> bool {
        self.clicks_blocked_until is Some && now < self.clicks_blocked_until->0
    }

    /// With the guard against leftover clicks dropped once it is over.
    pub open spec fn past_guard(self, now: u64) -> PickerView {
        if self.clicks_blocked_until is Some && !self.guarded(now) {
            PickerView { clicks_blocked_until: None, ..self }
        } else {
            self
        }
    }

    /// With clicks guarded against, because the screen has been replaced.
    pub open spec fn guarding(self, now: u64) -> PickerView {
        PickerView {
            clicks_blocked_until: Some(later(now, CLICK_GUARD)),
            last_click: None,
            ..self
        }
    }

    /// Without a preview, so that it is read anew.
    pub open spec fn unpreviewed(self) -> PickerView {
        PickerView { preview: None, ..self }
    }

    /// With the candidates of a mode replaced.
    pub open spec fn put(self, mode: Mode, source: Option<Source>) -> PickerView {
        PickerView { sources: self.sources.update(mode.index(), source), ..self }
    }

    /// The candidates of the current mode.
    pub open spec fn source_here(self) -> Option<Source> {
        self.sources[self.mode.index()]
    }

    /// With candidates for the current mode, started if there were none.
    pub open spec fn sourced(self) -> PickerView {
        if self.source_here() is None {
            self.put(
                self.mode,
                Some(Source { selected: 0, query_empty: self.query.len() == 0, fresh: true }),
            )
        } else {
            self
        }
    }

    /// With the cursor of the current mode's candidates put somewhere.
    pub open spec fn selecting(self, selected: u32) -> PickerView {
        let p = self.sourced();
        p.put(p.mode, Some(Source { selected, ..p.source_here()->0 }))
    }

    /// With the current mode's candidates being read.
    pub open spec fn reading(self) -> PickerView {
        self.sourced().put(
            self.mode,
            Some(Source { fresh: false, ..self.sourced().source_here()->0 }),
        )
    }

    /// With the cursor of the current mode kept within its candidates.
    pub open spec fn kept_within(self, count: u32) -> PickerView {
        self.sourced().put(self.mode, Some(self.sourced().source_here()->0.clamped(count)))
    }

    /// With a confirmation gone whose time is up.
    pub open spec fn expired(self, now: u64) -> PickerView {
        if self.notice_due(now) {
            self.quiet()
        } else {
            self
        }
    }

    /// With the browser replaced.
    pub open spec fn browsing(self, browser: browse::BrowserView) -> PickerView {
        PickerView { browser: Some(browser), ..self }
    }

    /// With the search moved to another root. Every mode starts again there.
    pub open spec fn rooted(self, root: paths::LocationView) -> PickerView {
        if root == self.root {
            self
        } else {
            PickerView {
                root,
                sources: seq![None, None, None, None, None],
                preview: None,
                ..self
            }
        }
    }

    /// With another query, and the matching this asks for.
    pub open spec fn searched(self, query: Seq<char>) -> (PickerView, TaskView) {
        if self.mode is Browse {
            (self.browsing(self.browser->0.filtered(query)), TaskView::Nothing)
        } else {
            let p = PickerView { query, ..self }.sourced();
            (
                p.put(
                    p.mode,
                    Some(
                        Source {
                            selected: 0,
                            query_empty: query.len() == 0,
                            fresh: p.source_here()->0.fresh,
                        },
                    ),
                ),
                TaskView::Requery(text::begins(query, self.query)),
            )
        }
    }

    /// What is typed at the moment: the filter while browsing, else the query.
    pub open spec fn typed(self) -> Seq<char> {
        if self.mode is Browse {
            self.browser->0.filter
        } else {
            self.query
        }
    }

    /// The item under the cursor, as it is. While browsing this is the current
    /// directory where nothing is selected.
    pub open spec fn item(self, entry: Option<scan::EntryView>) -> Option<paths::LocationView> {
        if self.mode is Browse {
            match self.browser->0.current_path() {
                Some(path) => Some(path),
                None => Some(self.browser->0.cwd),
            }
        } else {
            match entry {
                Some(entry) => Some(entry.path),
                None => None,
            }
        }
    }

    /// The directory to cd into, or to pin.
    pub open spec fn place(self, entry: Option<scan::EntryView>) -> Option<paths::LocationView> {
        if self.mode is Browse {
            Some(self.browser->0.destination())
        } else {
            match entry {
                Some(entry) => Some(output(entry, self.mode)),
                None => None,
            }
        }
    }

    /// What showing the mode `step` tabs further comes to. Leaving the browser
    /// moves the search to its directory. The first time the browser is shown
    /// it opens at the selection.
    pub open spec fn switched(self, step: int, entry: Option<scan::EntryView>) -> (
        PickerView,
        TaskView,
    ) {
        let entering = self.mode.further(step);
        if entering == self.mode {
            (self, TaskView::Nothing)
        } else if entering is Browse && self.browser is None {
            (self, TaskView::OpenBrowser(self.place(entry)))
        } else {
            let left = if self.mode is Browse {
                self.rooted(self.browser->0.cwd)
            } else {
                self
            };
            let p = PickerView { mode: entering, ..left };
            if entering is Browse {
                (p, TaskView::Nothing)
            } else if entering is Favorites {
                (p.put(entering, None).sourced(), TaskView::ReloadPins)
            } else {
                (p.sourced(), TaskView::Nothing)
            }
        }
    }

    /// What a move of the browser comes to.
    pub open spec fn going(visit: Option<browse::VisitView>) -> TaskView {
        match visit {
            Some(visit) => TaskView::Read(visit),
            None => TaskView::Nothing,
        }
    }

    /// What a key does while browsing.
    pub open spec fn browse_key(self, key: KeyEvent) -> (PickerView, TaskView) {
        let b = self.browser->0;
        let ctrl = key.modifiers.control;
        match key.code {
            KeyCode::Left => (self, PickerView::going(b.upward())),
            KeyCode::Right => (self, PickerView::going(b.inward())),
            KeyCode::Up => (self.browsing(b.moved(-1)), TaskView::Nothing),
            KeyCode::Down => (self.browsing(b.moved(1)), TaskView::Nothing),
            KeyCode::PageUp => (self.browsing(b.moved(-10)), TaskView::Nothing),
            KeyCode::PageDown => (self.browsing(b.moved(10)), TaskView::Nothing),
            KeyCode::Backspace => if b.filter.len() == 0 {
                (self, PickerView::going(b.upward()))
            } else {
                self.searched(text::shortened(b.filter))
            },
            KeyCode::Char(c) => if ctrl {
                if c == 'h' {
                    (self, PickerView::going(b.upward()))
                } else if c == 'l' {
                    (self, PickerView::going(b.inward()))
                } else if c == 'k' {
                    (self.browsing(b.moved(-1)), TaskView::Nothing)
                } else if c == 'j' {
                    (self.browsing(b.moved(1)), TaskView::Nothing)
                } else if c == 'u' {
                    self.searched(Seq::empty())
                } else {
                    (self, TaskView::Nothing)
                }
            } else if key.types() {
                self.searched(b.filter.push(c))
            } else {
                (self, TaskView::Nothing)
            },
            _ => (self, TaskView::Nothing),
        }
    }

    /// With the cursor of a search one row up.
    pub open spec fn cursor_up(self) -> PickerView {
        let p = self.sourced();
        let selected = p.source_here()->0.selected;
        p.selecting(
            if selected == 0 {
                0
            } else {
                (selected - 1) as u32
            },
        )
    }

    /// With the cursor of a search one row down.
    pub open spec fn cursor_down(self) -> PickerView {
        let p = self.sourced();
        let selected = p.source_here()->0.selected;
        p.selecting(
            if selected == u32::MAX {
                selected
            } else {
                (selected + 1) as u32
            },
        )
    }

    /// What a key does in a search.
    pub open spec fn search_key(self, key: KeyEvent) -> (PickerView, TaskView) {
        let ctrl = key.modifiers.control;
        match key.code {
            KeyCode::Up => (self.cursor_up(), TaskView::Nothing),
            KeyCode::Down => (self.cursor_down(), TaskView::Nothing),
            KeyCode::Backspace => self.searched(text::shortened(self.query)),
            KeyCode::Char(c) => if ctrl {
                if c == 'k' {
                    (self.cursor_up(), TaskView::Nothing)
                } else if c == 'j' {
                    (self.cursor_down(), TaskView::Nothing)
                } else if c == 'u' {
                    self.searched(Seq::empty())
                } else {
                    (self, TaskView::Nothing)
                }
            } else if key.types() {
                self.searched(self.query.push(c))
            } else {
                (self, TaskView::Nothing)
            },
            _ => (self, TaskView::Nothing),
        }
    }

    /// What F5 does: the pins and the listing are read again.
    pub open spec fn refreshed(self) -> (PickerView, TaskView) {
        let p = self.unpreviewed();
        if p.mode is Browse {
            (p, TaskView::Refresh(Some(p.browser->0.again())))
        } else {
            (p.put(p.mode, None).sourced(), TaskView::Refresh(None))
        }
    }

    /// What the key for pins does.
    pub open spec fn pin_key(self, entry: Option<scan::EntryView>) -> (PickerView, TaskView) {
        match self.place(entry) {
            Some(path) => (self, TaskView::TogglePin(path)),
            None => (
                self.noticed("Nothing selected. Switch to browse to pin this folder."@),
                TaskView::Nothing,
            ),
        }
    }

    /// What a key does to an open menu.
    pub open spec fn menu_key(self, key: KeyEvent) -> (PickerView, TaskView) {
        let (after, decision) = self.menu->0.handled(key);
        match decision {
            menu::DecisionView::Stay => (
                PickerView { menu: Some(after), ..self },
                TaskView::Nothing,
            ),
            menu::DecisionView::Close => (PickerView { menu: None, ..self }, TaskView::Nothing),
            menu::DecisionView::Run(action) => (
                PickerView { menu: None, ..self },
                TaskView::Execute(action, after.target),
            ),
        }
    }

    /// Whether a key means the same in every mode.
    pub open spec fn general(key: KeyEvent) -> bool {
        match key.code {
            KeyCode::Char(c) => key.modifiers.control && (c == 'p' || c == 'b' || c == 'c' || c
                == 'o' || c == 'e'),
            KeyCode::F(n) => n == 5,
            KeyCode::Esc | KeyCode::Enter | KeyCode::Tab | KeyCode::BackTab => true,
            _ => false,
        }
    }

    /// What a key does that means the same in every mode.
    pub open spec fn general_key(self, key: KeyEvent, entry: Option<scan::EntryView>) -> (
        PickerView,
        TaskView,
    ) {
        match key.code {
            KeyCode::Char(c) => if c == 'p' {
                (
                    self,
                    TaskView::OpenMenu(
                        match self.item(entry) {
                            Some(path) => path,
                            None => self.root,
                        },
                    ),
                )
            } else if c == 'b' {
                self.pin_key(entry)
            } else if c == 'c' {
                (self, TaskView::Cancel)
            } else {
                match self.item(entry) {
                    Some(path) => (
                        self,
                        if c == 'o' {
                            TaskView::Reveal(path)
                        } else {
                            TaskView::Launch(path)
                        },
                    ),
                    None => (self, TaskView::Nothing),
                }
            },
            KeyCode::F(_) => self.refreshed(),
            KeyCode::Esc => if self.typed().len() > 0 {
                self.searched(Seq::empty())
            } else {
                (self, TaskView::Cancel)
            },
            KeyCode::Enter => (self, TaskView::Accept),
            KeyCode::Tab => self.switched(1, entry),
            _ => self.switched(-1, entry),
        }
    }

    /// What a key does. `entry` is the candidate under the cursor.
    pub open spec fn keyed(self, key: KeyEvent, entry: Option<scan::EntryView>) -> (
        PickerView,
        TaskView,
    ) {
        let start = PickerView { last_click: None, ..self };
        if start.menu is Some {
            start.menu_key(key)
        } else {
            let p = start.quiet();
            if p.mode is Browse && key.modifiers.alt && (key.code is Left || key.code is Right) {
                (p, TaskView::Retrace(key.code is Right))
            } else if PickerView::general(key) {
                p.general_key(key, entry)
            } else if p.mode is Browse {
                p.browse_key(key)
            } else {
                p.search_key(key)
            }
        }
    }

    /// Whether there is room for what a key types.
    pub open spec fn has_room(self, key: KeyEvent) -> bool {
        key.code is Char && key.types() ==> match self.menu {
            Some(menu) => menu.query.len() < fuzzy::QUERY_LIMIT,
            None => self.typed().len() < fuzzy::QUERY_LIMIT,
        }
    }

    /// The first of the spots from `from` on that holds the pointer.
    pub open spec fn spot_at(spots: Seq<SpotView>, mouse: MouseEvent, from: int) -> Option<
        paths::LocationView,
    >
        decreases spots.len() - from,
    {
        if from >= spots.len() {
            None
        } else if spots[from].area.holds(mouse.column, mouse.row) {
            Some(spots[from].path)
        } else {
            PickerView::spot_at(spots, mouse, from + 1)
        }
    }

    /// The first of the buttons from `from` on that holds the pointer.
    pub open spec fn button_at(buttons: Seq<Button>, mouse: MouseEvent, from: int) -> Option<Nav>
        decreases buttons.len() - from,
    {
        if from >= buttons.len() {
            None
        } else if buttons[from].area.holds(mouse.column, mouse.row) {
            Some(buttons[from].nav)
        } else {
            PickerView::button_at(buttons, mouse, from + 1)
        }
    }

    /// The tab from `from` on that a column falls on, where that tab starts at
    /// `x`. One column separates two tabs.
    pub open spec fn tab_at(column: u16, x: int, from: int) -> Option<int>
        decreases MODES - from,
    {
        if from >= MODES {
            None
        } else {
            let end = x + Mode::nth(from).name().len();
            if x <= column < end {
                Some(from)
            } else {
                PickerView::tab_at(column, end + 1, from + 1)
            }
        }
    }

    /// What the other mouse button does with an item: the menu with Control,
    /// otherwise the desktop.
    pub open spec fn right_clicked(path: paths::LocationView, modifiers: Modifiers) -> TaskView {
        if modifiers.control {
            TaskView::OpenMenu(path)
        } else {
            TaskView::Show(path)
        }
    }

    /// What a click on a place does.
    pub open spec fn place_clicked(self, path: paths::LocationView, mouse: MouseEvent) -> (
        PickerView,
        TaskView,
    ) {
        let p = PickerView { last_click: None, ..self };
        if mouse.kind == MouseKind::Down(MouseButton::Right) {
            (p, PickerView::right_clicked(path, mouse.modifiers))
        } else if p.mode is Browse && path == p.browser->0.cwd {
            (p.unpreviewed(), PickerView::going(p.browser->0.upward()))
        } else {
            (p.unpreviewed(), TaskView::Navigate(path, true))
        }
    }

    /// What a button of the browse header does. It mirrors a key.
    pub open spec fn navigated(self, nav: Nav) -> (PickerView, TaskView) {
        let p = self.quiet();
        match nav {
            Nav::Up => match p.browser {
                Some(browser) => (p.unpreviewed(), PickerView::going(browser.upward())),
                None => (p, TaskView::Nothing),
            },
            Nav::Back => (p, TaskView::Retrace(false)),
            Nav::Forward => (p, TaskView::Retrace(true)),
        }
    }

    /// What a click on a step of the header path does.
    pub open spec fn crumb_clicked(self, dir: paths::LocationView) -> (PickerView, TaskView) {
        let p = self.quiet();
        if p.browser is Some && p.browser->0.cwd == dir {
            (p, TaskView::Nothing)
        } else {
            (p.unpreviewed(), TaskView::Navigate(dir, false))
        }
    }

    /// The row that the cursor is on.
    pub open spec fn cursor(self) -> int {
        if self.mode is Browse {
            self.browser->0.selected as int
        } else {
            self.source_here()->0.selected as int
        }
    }

    /// Whether a click on a path is the second of a double click.
    pub open spec fn doubled(self, path: paths::LocationView, mouse: MouseEvent, now: u64) -> bool {
        match self.last_click {
            Some(click) => click.path == path && click.x == mouse.column && click.y == mouse.row
                && now - click.at <= DOUBLE_CLICK,
            None => false,
        }
    }

    /// What a left click on a row does while browsing, once the row is
    /// selected: the second of two goes into the directory.
    pub open spec fn row_clicked(self, mouse: MouseEvent, now: u64) -> (PickerView, TaskView) {
        match self.browser->0.current_path() {
            None => (self, TaskView::Nothing),
            Some(path) => if self.doubled(path, mouse, now) {
                (
                    PickerView { last_click: None, ..self }.unpreviewed(),
                    PickerView::going(self.browser->0.inward()),
                )
            } else {
                (
                    PickerView {
                        last_click: Some(
                            ClickView { path, x: mouse.column, y: mouse.row, at: now },
                        ),
                        ..self
                    },
                    TaskView::Nothing,
                )
            },
        }
    }

    /// What the mouse does on the rows of the list. `under` is the candidate
    /// in the row under the pointer.
    pub open spec fn list_moused(
        self,
        mouse: MouseEvent,
        under: Option<scan::EntryView>,
        now: u64,
    ) -> (PickerView, TaskView) {
        let start = if self.mode is Browse {
            self
        } else {
            self.sourced()
        };
        match start.targets.picked(mouse, start.cursor()) {
            None => if self.targets.rows.holds(mouse.column, mouse.row) && self.targets.count > 0 {
                (start, TaskView::Nothing)
            } else {
                (self, TaskView::Nothing)
            },
            Some(row) => {
                let p = if start.mode is Browse {
                    start.browsing(
                        browse::BrowserView { selected: row as usize, ..start.browser->0 },
                    )
                } else {
                    start.selecting(row as u32)
                };
                if mouse.kind == MouseKind::Down(MouseButton::Left) && p.mode is Browse {
                    p.row_clicked(mouse, now)
                } else if mouse.kind == MouseKind::Down(MouseButton::Right) {
                    match p.item(under) {
                        Some(path) => (p, PickerView::right_clicked(path, mouse.modifiers)),
                        None => (p, TaskView::Nothing),
                    }
                } else {
                    (p, TaskView::Nothing)
                }
            },
        }
    }

    /// What the mouse does. `entry` is the candidate under the cursor, `under`
    /// the one in the row under the pointer.
    pub open spec fn moused(
        self,
        mouse: MouseEvent,
        entry: Option<scan::EntryView>,
        under: Option<scan::EntryView>,
        now: u64,
    ) -> (PickerView, TaskView) {
        let left = mouse.kind == MouseKind::Down(MouseButton::Left);
        let right = mouse.kind == MouseKind::Down(MouseButton::Right);
        if !self.config.mouse || self.menu is Some {
            (self, TaskView::Nothing)
        } else if mouse.pressed() && self.guarded(now) {
            (self, TaskView::Nothing)
        } else {
            let free = if mouse.pressed() {
                self.past_guard(now)
            } else {
                self
            };
            let p = if left || mouse.kind == MouseKind::Up(MouseButton::Left) {
                free
            } else {
                PickerView { last_click: None, ..free }
            };
            let t = p.targets;
            let path = PickerView::spot_at(t.paths, mouse, 0);
            let button = PickerView::button_at(t.nav, mouse, 0);
            let crumb = PickerView::spot_at(t.crumbs, mouse, 0);
            let tab = PickerView::tab_at(mouse.column, t.modes_x as int, 0);
            if (left || right) && path is Some {
                p.place_clicked(path->0, mouse)
            } else if left && button is Some {
                p.navigated(button->0)
            } else if left && crumb is Some {
                p.crumb_clicked(crumb->0)
            } else if left && t.header.holds(mouse.column, mouse.row) && tab is Some {
                p.switched(tab->0 - p.mode.index(), entry)
            } else {
                p.list_moused(mouse, under, now)
            }
        }
    }
}

/// No candidates for any mode.
fn no_sources() -> (sources: Vec<Option<Source>>)
    ensures
        sources@ == seq![None::<Source>, None, None, None, None],
{
    let mut sources: Vec<Option<Source>> = Vec::new();
    sources.push(None);
    sources.push(None);
    sources.push(None);
    sources.push(None);
    sources.push(None);
    assert(sources@ =~= seq![None::<Source>, None, None, None, None]);
    sources
}

fn find_spot(spots: &Vec<Spot>, mouse: MouseEvent) -> (found: Option<Location>)
    ensures
        text::inside(found) == PickerView::spot_at(text::views(spots@), mouse, 0),
{
    let ghost all = text::views(spots@);
    let mut i: usize = 0;
    while i < spots.len()
        invariant
            i <= spots@.len(),
            all == text::views(spots@),
            PickerView::spot_at(all, mouse, 0) == PickerView::spot_at(all, mouse, i as int),
        decreases spots@.len() - i,
    {
        assert(all[i as int] == spots@[i as int]@);
        if spots[i].area.contains(mouse.column, mouse.row) {
            return Some(spots[i].path.clone());
        }
        i += 1;
    }
    None
}

fn find_button(buttons: &Vec<Button>, mouse: MouseEvent) -> (found: Option<Nav>)
    ensures
        found == PickerView::button_at(buttons@, mouse, 0),
{
    let mut i: usize = 0;
    while i < buttons.len()
        invariant
            i <= buttons@.len(),
            PickerView::button_at(buttons@, mouse, 0) == PickerView::button_at(
                buttons@,
                mouse,
                i as int,
            ),
        decreases buttons@.len() - i,
    {
        if buttons[i].area.contains(mouse.column, mouse.row) {
            return Some(buttons[i].nav);
        }
        i += 1;
    }
    None
}

fn find_tab(column: u16, start: u16) -> (found: Option<usize>)
    ensures
        match found {
            Some(index) => index < MODES && PickerView::tab_at(column, start as int, 0) == Some(
                index as int,
            ),
            None => PickerView::tab_at(column, start as int, 0) is None,
        },
{
    let mut x: u32 = start as u32;
    let mut i: usize = 0;
    while i < MODES
        invariant
            i <= MODES,
            x <= 0xffff + 10 * i,
            PickerView::tab_at(column, start as int, 0) == PickerView::tab_at(
                column,
                x as int,
                i as int,
            ),
        decreases MODES - i,
    {
        let mode = mode_at(i);
        proof {
            reveal_strlit("dirs");
            reveal_strlit("files");
            reveal_strlit("recent");
            reveal_strlit("favorites");
            reveal_strlit("browse");
        }
        let length: usize = text::length(mode.label());
        let end: u32 = x + length as u32;
        if x <= column as u32 && (column as u32) < end {
            return Some(i);
        }
        x = end + 1;
        i += 1;
    }
    None
}

fn going(visit: Option<Visit>) -> (task: Task)
    ensures
        task@ == PickerView::going(text::inside(visit)),
{
    match visit {
        Some(visit) => Task::Read(visit),
        None => Task::Nothing,
    }
}

fn right_click(path: Location, modifiers: Modifiers) -> (task: Task)
    ensures
        task@ == PickerView::right_clicked(path@, modifiers),
{
    if modifiers.control {
        Task::OpenMenu(path)
    } else {
        Task::Show(path)
    }
}

impl Picker {
    /// The picker as it opens, with no browser yet.
    pub fn new(
        mode: Mode,
        root: Location,
        config: Config,
        pinned: Index,
        notice: Option<String>,
        platform: Platform,
    ) -> (picker: Picker)
        ensures
            picker@ == PickerView::opened(
                mode,
                root@,
                config@,
                pinned@,
                text::inside(notice),
                platform,
            ),
            !(mode is Browse) ==> picker@.wf(),
    {
        let query = String::new();
        assert(query@ =~= Seq::<char>::empty());
        Picker {
            sources: no_sources(),
            browser: None,
            mode,
            query,
            root,
            config,
            preview: None,
            frame_count: 0,
            notice,
            notice_until: None,
            clicks_blocked_until: None,
            pinned,
            menu: None,
            targets: Targets::none(0),
            last_click: None,
            platform,
        }
    }

    /// A message that stays until the next action replaces it.
    pub fn set_notice(&mut self, text: String)
        ensures
            final(self)@ == old(self)@.noticed(text@),
    {
        self.notice = Some(text);
        self.notice_until = None;
    }

    /// A message that goes by itself, to confirm something that finished.
    pub fn set_transient_notice(&mut self, text: String, now: u64)
        ensures
            final(self)@ == old(self)@.confirmed(text@, now),
    {
        self.notice = Some(text);
        self.notice_until = Some(now.saturating_add(NOTICE_LINGER));
    }

    pub fn clear_notice(&mut self)
        ensures
            final(self)@ == old(self)@.quiet(),
    {
        self.notice = None;
        self.notice_until = None;
    }

    /// Takes a confirmation away once its time is up, and says whether it did.
    pub fn expire_notice(&mut self, now: u64) -> (due: bool)
        ensures
            due == old(self)@.notice_due(now),
            final(self)@ == old(self)@.expired(now),
    {
        let due = match self.notice_until {
            Some(until) => now >= until,
            None => false,
        };
        if due {
            self.clear_notice();
        }
        due
    }

    /// Starts ignoring clicks, because what is under the pointer has changed.
    pub fn block_clicks(&mut self, now: u64)
        ensures
            final(self)@ == old(self)@.guarding(now),
    {
        self.clicks_blocked_until = Some(now.saturating_add(CLICK_GUARD));
        self.last_click = None;
    }

    /// Whether a press is left over from the screen of a moment ago.
    pub fn clicks_blocked(&mut self, now: u64) -> (blocked: bool)
        ensures
            blocked == old(self)@.guarded(now),
            final(self)@ == old(self)@.past_guard(now),
    {
        match self.clicks_blocked_until {
            Some(until) => if now < until {
                true
            } else {
                self.clicks_blocked_until = None;
                false
            },
            None => false,
        }
    }

    /// Starts the current mode's candidates if there are none, and gives what
    /// the picker knows of them.
    pub fn source(&mut self) -> (source: Source)
        requires
            old(self)@.sources.len() == MODES,
        ensures
            final(self)@ == old(self)@.sourced(),
            final(self)@.source_here() == Some(source),
            old(self)@.wf() ==> final(self)@.wf(),
    {
        let index: usize = mode_index(self.mode);
        let found: Option<Source> = self.sources[index];
        match found {
            Some(source) => source,
            None => {
                let source = Source {
                    selected: 0,
                    query_empty: self.query.as_str().is_empty(),
                    fresh: true,
                };
                self.sources[index] = Some(source);
                source
            },
        }
    }

    fn put_source(&mut self, mode: Mode, source: Option<Source>)
        requires
            old(self)@.sources.len() == MODES,
        ensures
            final(self)@ == old(self)@.put(mode, source),
            old(self)@.wf() ==> final(self)@.wf(),
    {
        let index: usize = mode_index(mode);
        self.sources[index] = source;
    }

    /// Puts the cursor of the current mode's candidates somewhere.
    pub fn select(&mut self, selected: u32)
        requires
            old(self)@.sources.len() == MODES,
        ensures
            final(self)@ == old(self)@.selecting(selected),
            old(self)@.wf() ==> final(self)@.wf(),
    {
        let mut source = self.source();
        source.selected = selected;
        self.put_source(self.mode, Some(source));
    }

    /// Notes that the current mode's candidates are being read.
    pub fn started(&mut self)
        requires
            old(self)@.sources.len() == MODES,
        ensures
            final(self)@ == old(self)@.reading(),
            old(self)@.wf() ==> final(self)@.wf(),
    {
        let mut source = self.source();
        source.fresh = false;
        self.put_source(self.mode, Some(source));
    }

    /// Keeps the cursor within the candidates that match.
    pub fn clamp(&mut self, count: u32)
        requires
            old(self)@.sources.len() == MODES,
        ensures
            final(self)@ == old(self)@.kept_within(count),
            old(self)@.wf() ==> final(self)@.wf(),
    {
        let mut source = self.source();
        source.clamp_selection(count);
        self.put_source(self.mode, Some(source));
    }

    /// Changes the query, or the filter while browsing.
    pub fn set_query(&mut self, query: &str) -> (task: Task)
        requires
            old(self)@.wf(),
            query@.len() <= fuzzy::QUERY_LIMIT,
        ensures
            (final(self)@, task@) == old(self)@.searched(query@),
            final(self)@.wf(),
    {
        if matches!(self.mode, Mode::Browse) {
            if let Some(browser) = &mut self.browser {
                browser.set_filter(query);
            }
            return Task::Nothing;
        }
        let append = starts_with(query, self.query.as_str());
        self.query = query.to_owned();
        let mut source = self.source();
        source.selected = 0;
        source.query_empty = query.is_empty();
        self.put_source(self.mode, Some(source));
        Task::Requery(append)
    }

    /// Moves the root of the search. Every mode starts again from there.
    pub fn set_root(&mut self, root: Location)
        ensures
            final(self)@ == old(self)@.rooted(root@),
            old(self)@.wf() ==> final(self)@.wf(),
    {
        if root.is(&self.root) {
            return;
        }
        self.root = root;
        self.sources = no_sources();
        self.preview = None;
    }

    /// The item under the cursor, as it is.
    pub fn selected_path(&self, entry: &Option<Entry>) -> (path: Option<Location>)
        requires
            self@.wf(),
        ensures
            text::inside(path) == self@.item(text::inside(*entry)),
    {
        if matches!(self.mode, Mode::Browse) {
            match &self.browser {
                Some(browser) => match browser.selected_path() {
                    Some(path) => Some(path),
                    None => Some(browser.cwd.clone()),
                },
                None => None,
            }
        } else {
            match entry {
                Some(entry) => Some(entry.path.clone()),
                None => None,
            }
        }
    }

    /// The directory to cd into, or to pin.
    pub fn selected_place(&self, entry: &Option<Entry>) -> (place: Option<Location>)
        requires
            self@.wf(),
        ensures
            text::inside(place) == self@.place(text::inside(*entry)),
    {
        if matches!(self.mode, Mode::Browse) {
            match &self.browser {
                Some(browser) => Some(browser.target()),
                None => None,
            }
        } else {
            match entry {
                Some(entry) => Some(output_path(entry, self.mode)),
                None => None,
            }
        }
    }

    /// Shows the mode `step` tabs further.
    pub fn switch_mode(&mut self, step: isize, entry: &Option<Entry>) -> (task: Task)
        requires
            old(self)@.wf(),
        ensures
            (final(self)@, task@) == old(self)@.switched(step as int, text::inside(*entry)),
            final(self)@.wf(),
    {
        let entering = mode_after(self.mode, step);
        if entering == self.mode {
            return Task::Nothing;
        }
        if matches!(entering, Mode::Browse) && self.browser.is_none() {
            return Task::OpenBrowser(self.selected_place(entry));
        }
        if matches!(self.mode, Mode::Browse) {
            let cwd = match &self.browser {
                Some(browser) => browser.cwd.clone(),
                None => self.root.clone(),
            };
            self.set_root(cwd);
        }
        self.mode = entering;
        match entering {
            Mode::Browse => Task::Nothing,
            Mode::Favorites => {
                self.put_source(entering, None);
                let _source = self.source();
                Task::ReloadPins
            },
            _ => {
                let _source = self.source();
                Task::Nothing
            },
        }
    }

    fn handle_browse_key(&mut self, key: KeyEvent) -> (task: Task)
        requires
            old(self)@.wf(),
            old(self)@.mode is Browse,
            old(self)@.menu is None,
            old(self)@.has_room(key),
        ensures
            (final(self)@, task@) == old(self)@.browse_key(key),
            final(self)@.wf(),
    {
        let ctrl = key.modifiers.control;
        match key.code {
            KeyCode::Left => self.go_up(),
            KeyCode::Right => self.go_in(),
            KeyCode::Up => self.move_browser(-1),
            KeyCode::Down => self.move_browser(1),
            KeyCode::PageUp => self.move_browser(-10),
            KeyCode::PageDown => self.move_browser(10),
            KeyCode::Backspace => {
                let filter = self.current_text();
                if filter.as_str().is_empty() {
                    self.go_up()
                } else {
                    self.set_query(shorten(filter.as_str()).as_str())
                }
            },
            KeyCode::Char(c) => if ctrl {
                if c == 'h' {
                    self.go_up()
                } else if c == 'l' {
                    self.go_in()
                } else if c == 'k' {
                    self.move_browser(-1)
                } else if c == 'j' {
                    self.move_browser(1)
                } else if c == 'u' {
                    self.empty_query()
                } else {
                    Task::Nothing
                }
            } else if is_typed_text(&key) {
                let mut filter = self.current_text();
                filter.push(c);
                self.set_query(filter.as_str())
            } else {
                Task::Nothing
            },
            _ => Task::Nothing,
        }
    }

    fn go_up(&self) -> (task: Task)
        requires
            self@.wf(),
            self@.mode is Browse,
        ensures
            task@ == PickerView::going(self@.browser->0.upward()),
    {
        match &self.browser {
            Some(browser) => going(browser.up()),
            None => Task::Nothing,
        }
    }

    fn go_in(&self) -> (task: Task)
        requires
            self@.wf(),
            self@.mode is Browse,
        ensures
            task@ == PickerView::going(self@.browser->0.inward()),
    {
        match &self.browser {
            Some(browser) => going(browser.enter()),
            None => Task::Nothing,
        }
    }

    fn move_browser(&mut self, delta: isize) -> (task: Task)
        requires
            old(self)@.wf(),
            old(self)@.mode is Browse,
        ensures
            final(self)@ == old(self)@.browsing(old(self)@.browser->0.moved(delta as int)),
            task@ == TaskView::Nothing,
            final(self)@.wf(),
    {
        if let Some(browser) = &mut self.browser {
            browser.move_selection(delta);
        }
        Task::Nothing
    }

    fn empty_query(&mut self) -> (task: Task)
        requires
            old(self)@.wf(),
        ensures
            (final(self)@, task@) == old(self)@.searched(Seq::empty()),
            final(self)@.wf(),
    {
        let empty = String::new();
        assert(empty@ =~= Seq::<char>::empty());
        self.set_query(empty.as_str())
    }

    /// What is typed at the moment.
    pub fn current_text(&self) -> (text: String)
        requires
            self@.wf(),
        ensures
            text@ == self@.typed(),
    {
        if matches!(self.mode, Mode::Browse) {
            match &self.browser {
                Some(browser) => browser.filter.clone(),
                None => String::new(),
            }
        } else {
            self.query.clone()
        }
    }

    fn handle_search_key(&mut self, key: KeyEvent) -> (task: Task)
        requires
            old(self)@.wf(),
            !(old(self)@.mode is Browse),
            old(self)@.menu is None,
            old(self)@.has_room(key),
        ensures
            (final(self)@, task@) == old(self)@.search_key(key),
            final(self)@.wf(),
    {
        let ctrl = key.modifiers.control;
        match key.code {
            KeyCode::Up => self.cursor_up(),
            KeyCode::Down => self.cursor_down(),
            KeyCode::Backspace => {
                let query = shorten(self.query.as_str());
                self.set_query(query.as_str())
            },
            KeyCode::Char(c) => if ctrl {
                if c == 'k' {
                    self.cursor_up()
                } else if c == 'j' {
                    self.cursor_down()
                } else if c == 'u' {
                    self.empty_query()
                } else {
                    Task::Nothing
                }
            } else if is_typed_text(&key) {
                let mut query = self.query.clone();
                query.push(c);
                self.set_query(query.as_str())
            } else {
                Task::Nothing
            },
            _ => Task::Nothing,
        }
    }

    fn cursor_up(&mut self) -> (task: Task)
        requires
            old(self)@.wf(),
        ensures
            final(self)@ == old(self)@.cursor_up(),
            task@ == TaskView::Nothing,
            final(self)@.wf(),
    {
        let source = self.source();
        self.select(source.selected.saturating_sub(1));
        Task::Nothing
    }

    fn cursor_down(&mut self) -> (task: Task)
        requires
            old(self)@.wf(),
        ensures
            final(self)@ == old(self)@.cursor_down(),
            task@ == TaskView::Nothing,
            final(self)@.wf(),
    {
        let source = self.source();
        self.select(source.selected.saturating_add(1));
        Task::Nothing
    }

    fn refresh(&mut self) -> (task: Task)
        requires
            old(self)@.wf(),
        ensures
            (final(self)@, task@) == old(self)@.refreshed(),
            final(self)@.wf(),
    {
        self.preview = None;
        if matches!(self.mode, Mode::Browse) {
            match &self.browser {
                Some(browser) => Task::Refresh(Some(browser.refresh())),
                None => Task::Refresh(None),
            }
        } else {
            self.put_source(self.mode, None);
            let _source = self.source();
            Task::Refresh(None)
        }
    }

    fn handle_general_key(&mut self, key: KeyEvent, entry: &Option<Entry>) -> (task: Task)
        requires
            old(self)@.wf(),
            PickerView::general(key),
        ensures
            (final(self)@, task@) == old(self)@.general_key(key, text::inside(*entry)),
            final(self)@.wf(),
    {
        match key.code {
            KeyCode::Char(c) => if c == 'p' {
                match self.selected_path(entry) {
                    Some(path) => Task::OpenMenu(path),
                    None => Task::OpenMenu(self.root.clone()),
                }
            } else if c == 'b' {
                match self.selected_place(entry) {
                    Some(path) => Task::TogglePin(path),
                    None => {
                        self.set_notice(
                            "Nothing selected. Switch to browse to pin this folder.".to_owned(),
                        );
                        Task::Nothing
                    },
                }
            } else if c == 'c' {
                Task::Cancel
            } else {
                match self.selected_path(entry) {
                    Some(path) => if c == 'o' {
                        Task::Reveal(path)
                    } else {
                        Task::Launch(path)
                    },
                    None => Task::Nothing,
                }
            },
            KeyCode::F(_) => self.refresh(),
            KeyCode::Esc => if self.current_text().as_str().is_empty() {
                Task::Cancel
            } else {
                self.empty_query()
            },
            KeyCode::Enter => Task::Accept,
            KeyCode::Tab => self.switch_mode(1, entry),
            _ => self.switch_mode(-1, entry),
        }
    }

    fn handle_menu_key(&mut self, key: KeyEvent) -> (task: Task)
        requires
            old(self)@.wf(),
            old(self)@.menu is Some,
            old(self)@.has_room(key),
        ensures
            (final(self)@, task@) == old(self)@.menu_key(key),
            final(self)@.wf(),
    {
        match self.menu.take() {
            Some(menu) => {
                let mut menu = menu;
                match menu.handle(key) {
                    Decision::Stay => {
                        self.menu = Some(menu);
                        Task::Nothing
                    },
                    Decision::Close => Task::Nothing,
                    Decision::Run(action) => Task::Execute(action, menu.target),
                }
            },
            None => Task::Nothing,
        }
    }

    /// Does what a key asks for. `entry` is the candidate under the cursor.
    pub fn handle_key(&mut self, key: KeyEvent, entry: &Option<Entry>) -> (task: Task)
        requires
            old(self)@.wf(),
            old(self)@.has_room(key),
        ensures
            (final(self)@, task@) == old(self)@.keyed(key, text::inside(*entry)),
            final(self)@.wf(),
    {
        self.last_click = None;
        if self.menu.is_some() {
            return self.handle_menu_key(key);
        }
        self.clear_notice();
        let browse = matches!(self.mode, Mode::Browse);
        if browse && key.modifiers.alt {
            match key.code {
                KeyCode::Left => {
                    return Task::Retrace(false);
                },
                KeyCode::Right => {
                    return Task::Retrace(true);
                },
                _ => {},
            }
        }
        let general = match key.code {
            KeyCode::Char(c) => key.modifiers.control && (c == 'p' || c == 'b' || c == 'c' || c
                == 'o' || c == 'e'),
            KeyCode::F(n) => n == 5,
            KeyCode::Esc | KeyCode::Enter | KeyCode::Tab | KeyCode::BackTab => true,
            _ => false,
        };
        if general {
            self.handle_general_key(key, entry)
        } else if browse {
            self.handle_browse_key(key)
        } else {
            self.handle_search_key(key)
        }
    }

    /// Whether there is room for what a key types.
    pub fn accepts(&self, key: &KeyEvent) -> (yes: bool)
        requires
            self@.wf(),
        ensures
            yes == self@.has_room(*key),
    {
        match key.code {
            KeyCode::Char(_) => if is_typed_text(key) {
                let length: usize = match &self.menu {
                    Some(menu) => text::length(menu.query.as_str()),
                    None => text::length(self.current_text().as_str()),
                };
                length < fuzzy::QUERY_LIMIT
            } else {
                true
            },
            _ => true,
        }
    }
}

/// Something that happened at the terminal.
#[derive(Clone, Copy, Debug, PartialEq, Eq, Structural)]
pub enum Event {
    Mouse(MouseEvent),
    Key(KeyEvent),
    /// The window has another number of rows.
    Resize(u16),
    Other,
}

impl PickerView {
    /// What a key event does. A key going up does nothing.
    pub open spec fn pressed(self, key: KeyEvent, entry: Option<scan::EntryView>) -> (
        PickerView,
        TaskView,
    ) {
        if key.release {
            (self, TaskView::Nothing)
        } else {
            self.keyed(key, entry)
        }
    }

    /// What the mouse does to an open menu: a click on an action runs it as
    /// Enter would, and the rest of a double tap is not to reach whatever takes
    /// the menu's place.
    pub open spec fn menu_moused(self, mouse: MouseEvent, entry: Option<scan::EntryView>, now: u64) -> (
        PickerView,
        TaskView,
    ) {
        let (after, run) = self.menu->0.clicked(mouse);
        let p = PickerView { menu: Some(after), ..self };
        if run {
            p.guarding(now).keyed(KeyEvent::press(KeyCode::Enter, Modifiers::bare()), entry)
        } else {
            (p, TaskView::Nothing)
        }
    }

    /// What an event does. `entry` is the candidate under the cursor, `under`
    /// the one in the row under the pointer.
    pub open spec fn stepped(
        self,
        event: Event,
        entry: Option<scan::EntryView>,
        under: Option<scan::EntryView>,
        now: u64,
    ) -> (PickerView, TaskView) {
        match event {
            Event::Mouse(mouse) => if mouse.pressed() && self.guarded(now) {
                (self, TaskView::Nothing)
            } else {
                let p = if mouse.pressed() {
                    self.past_guard(now)
                } else {
                    self
                };
                if p.config.mouse && p.menu is Some {
                    p.menu_moused(mouse, entry, now)
                } else {
                    p.moused(mouse, entry, under, now)
                }
            },
            Event::Key(key) => self.pressed(key, entry),
            Event::Resize(rows) => (self, TaskView::Resize(rows)),
            Event::Other => (self, TaskView::Nothing),
        }
    }

    /// Whether there is room for what an event types.
    pub open spec fn takes(self, event: Event) -> bool {
        match event {
            Event::Key(key) => self.has_room(key),
            _ => true,
        }
    }
}

impl Picker {
    fn click_place(&mut self, path: Location, mouse: MouseEvent) -> (task: Task)
        requires
            old(self)@.wf(),
        ensures
            (final(self)@, task@) == old(self)@.place_clicked(path@, mouse),
            final(self)@.wf(),
    {
        self.last_click = None;
        if matches!(mouse.kind, MouseKind::Down(MouseButton::Right)) {
            return right_click(path, mouse.modifiers);
        }
        self.preview = None;
        if matches!(self.mode, Mode::Browse) {
            if let Some(browser) = &self.browser {
                if path.is(&browser.cwd) {
                    return going(browser.up());
                }
            }
        }
        Task::Navigate(path, true)
    }

    /// Does what a button of the browse header stands for.
    pub fn navigate(&mut self, nav: Nav) -> (task: Task)
        requires
            old(self)@.wf(),
        ensures
            (final(self)@, task@) == old(self)@.navigated(nav),
            final(self)@.wf(),
    {
        self.clear_notice();
        match nav {
            Nav::Up => match &self.browser {
                Some(browser) => {
                    let task = going(browser.up());
                    self.preview = None;
                    task
                },
                None => Task::Nothing,
            },
            Nav::Back => Task::Retrace(false),
            Nav::Forward => Task::Retrace(true),
        }
    }

    fn click_crumb(&mut self, dir: Location) -> (task: Task)
        requires
            old(self)@.wf(),
        ensures
            (final(self)@, task@) == old(self)@.crumb_clicked(dir@),
            final(self)@.wf(),
    {
        self.clear_notice();
        if let Some(browser) = &self.browser {
            if dir.is(&browser.cwd) {
                return Task::Nothing;
            }
        }
        self.preview = None;
        Task::Navigate(dir, false)
    }

    /// The row under the pointer, where there is one.
    pub fn row_under(&self, mouse: MouseEvent) -> (row: Option<usize>)
        ensures
            match row {
                Some(row) => self@.targets.rows.holds(mouse.column, mouse.row) && row
                    == self@.targets.first + (mouse.row - self@.targets.rows.y) && row
                    < self@.targets.count,
                None => !self@.targets.rows.holds(mouse.column, mouse.row)
                    || self@.targets.first + (mouse.row - self@.targets.rows.y)
                    >= self@.targets.count,
            },
    {
        if !self.targets.rows.contains(mouse.column, mouse.row) {
            return None;
        }
        let offset: usize = (mouse.row - self.targets.rows.y) as usize;
        if self.targets.first < self.targets.count && offset < self.targets.count
            - self.targets.first {
            Some(self.targets.first + offset)
        } else {
            None
        }
    }

    fn pick_row(&self, mouse: MouseEvent, cursor: usize) -> (row: Option<usize>)
        ensures
            match row {
                Some(row) => self@.targets.picked(mouse, cursor as int) == Some(row as int),
                None => self@.targets.picked(mouse, cursor as int) is None,
            },
    {
        if !self.targets.rows.contains(mouse.column, mouse.row) || self.targets.count == 0 {
            return None;
        }
        let last: usize = self.targets.count - 1;
        match mouse.kind {
            MouseKind::Down(MouseButton::Left) | MouseKind::Down(MouseButton::Right) => {
                self.row_under(mouse)
            },
            MouseKind::ScrollUp => Some(cursor.saturating_sub(3)),
            MouseKind::ScrollDown => {
                let next: usize = cursor.saturating_add(3);
                if next > last {
                    Some(last)
                } else {
                    Some(next)
                }
            },
            _ => None,
        }
    }

    fn click_row(&mut self, mouse: MouseEvent, now: u64) -> (task: Task)
        requires
            old(self)@.wf(),
            old(self)@.mode is Browse,
        ensures
            (final(self)@, task@) == old(self)@.row_clicked(mouse, now),
            final(self)@.wf(),
    {
        let path = match &self.browser {
            Some(browser) => match browser.selected_path() {
                Some(path) => path,
                None => {
                    return Task::Nothing;
                },
            },
            None => {
                return Task::Nothing;
            },
        };
        let double = match &self.last_click {
            Some(click) => click.path.is(&path) && click.x == mouse.column && click.y == mouse.row
                && now.saturating_sub(click.at) <= DOUBLE_CLICK,
            None => false,
        };
        if double {
            let task = self.go_in();
            self.last_click = None;
            self.preview = None;
            task
        } else {
            self.last_click = Some(Click { path, x: mouse.column, y: mouse.row, at: now });
            Task::Nothing
        }
    }

    fn mouse_list(&mut self, mouse: MouseEvent, under: &Option<Entry>, now: u64) -> (task: Task)
        requires
            old(self)@.wf(),
        ensures
            (final(self)@, task@) == old(self)@.list_moused(mouse, text::inside(*under), now),
            final(self)@.wf(),
    {
        let browse = matches!(self.mode, Mode::Browse);
        let cursor: usize = if browse {
            match &self.browser {
                Some(browser) => browser.selected,
                None => 0,
            }
        } else {
            let index: usize = mode_index(self.mode);
            match self.sources[index] {
                Some(source) => source.selected as usize,
                None => 0,
            }
        };
        let ghost before = self@;
        let ghost start = if before.mode is Browse {
            before
        } else {
            before.sourced()
        };
        assert(start.cursor() == cursor);
        let picked = self.pick_row(mouse, cursor);
        let row = match picked {
            Some(row) => row,
            None => {
                if !browse && self.targets.rows.contains(mouse.column, mouse.row)
                    && self.targets.count > 0 {
                    let _source = self.source();
                }
                return Task::Nothing;
            },
        };
        if browse {
            if let Some(browser) = &mut self.browser {
                browser.selected = row;
            }
        } else {
            self.select(row as u32);
        }
        match mouse.kind {
            MouseKind::Down(MouseButton::Left) => if browse {
                self.click_row(mouse, now)
            } else {
                Task::Nothing
            },
            MouseKind::Down(MouseButton::Right) => match self.selected_path(under) {
                Some(path) => right_click(path, mouse.modifiers),
                None => Task::Nothing,
            },
            _ => Task::Nothing,
        }
    }

    /// Does what the mouse asks for. `entry` is the candidate under the
    /// cursor, `under` the one in the row under the pointer.
    pub fn handle_mouse(
        &mut self,
        mouse: MouseEvent,
        entry: &Option<Entry>,
        under: &Option<Entry>,
        now: u64,
    ) -> (task: Task)
        requires
            old(self)@.wf(),
        ensures
            (final(self)@, task@) == old(self)@.moused(
                mouse,
                text::inside(*entry),
                text::inside(*under),
                now,
            ),
            final(self)@.wf(),
    {
        if !self.config.mouse || self.menu.is_some() {
            return Task::Nothing;
        }
        if mouse.is_press() && self.clicks_blocked(now) {
            return Task::Nothing;
        }
        let left = matches!(mouse.kind, MouseKind::Down(MouseButton::Left));
        let right = matches!(mouse.kind, MouseKind::Down(MouseButton::Right));
        let lifted = matches!(mouse.kind, MouseKind::Up(MouseButton::Left));
        if !left && !lifted {
            self.last_click = None;
        }
        if left || right {
            if let Some(path) = find_spot(&self.targets.paths, mouse) {
                return self.click_place(path, mouse);
            }
        }
        if left {
            if let Some(nav) = find_button(&self.targets.nav, mouse) {
                return self.navigate(nav);
            }
            if let Some(dir) = find_spot(&self.targets.crumbs, mouse) {
                return self.click_crumb(dir);
            }
            if self.targets.header.contains(mouse.column, mouse.row) {
                if let Some(index) = find_tab(mouse.column, self.targets.modes_x) {
                    let step: isize = index as isize - mode_index(self.mode) as isize;
                    return self.switch_mode(step, entry);
                }
            }
        }
        self.mouse_list(mouse, under, now)
    }

    /// Does what an event asks for. `entry` is the candidate under the cursor,
    /// `under` the one in the row under the pointer.
    pub fn handle_event(
        &mut self,
        event: Event,
        entry: &Option<Entry>,
        under: &Option<Entry>,
        now: u64,
    ) -> (task: Task)
        requires
            old(self)@.wf(),
            old(self)@.takes(event),
        ensures
            (final(self)@, task@) == old(self)@.stepped(
                event,
                text::inside(*entry),
                text::inside(*under),
                now,
            ),
            final(self)@.wf(),
    {
        match event {
            Event::Mouse(mouse) => {
                if mouse.is_press() && self.clicks_blocked(now) {
                    return Task::Nothing;
                }
                if !self.config.mouse || self.menu.is_none() {
                    return self.handle_mouse(mouse, entry, under, now);
                }
                let mut run = false;
                if let Some(menu) = &mut self.menu {
                    run = menu.handle_mouse(mouse);
                }
                if !run {
                    return Task::Nothing;
                }
                self.block_clicks(now);
                self.handle_key(KeyEvent::new(KeyCode::Enter, Modifiers::none()), entry)
            },
            Event::Key(key) => if key.release {
                Task::Nothing
            } else {
                self.handle_key(key, entry)
            },
            Event::Resize(rows) => Task::Resize(rows),
            Event::Other => Task::Nothing,
        }
    }
}

} // verus!
