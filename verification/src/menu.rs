//! The menu of actions for one selected item. Typing narrows it.
use crate::actions;
use crate::actions::{Action, RunMode};
use crate::fuzzy;
use crate::keys::{is_typed_text, KeyCode, KeyEvent, MouseButton, MouseEvent, MouseKind};
use crate::order;
use crate::order::rank;
use crate::paths;
use crate::paths::{Location, Platform};
use crate::screen;
use crate::screen::{
    add_line, add_span, line, line_of, split_rows, Line, Rect, Screen, Size, Span, Tone,
};
use crate::text;
use crate::text::{cat, lines, shorten};
use crate::width;
use crate::width::text_width;
use vstd::prelude::*;

verus! {

/// What a key does to the menu.
#[derive(Debug, PartialEq, Eq)]
pub enum Decision {
    Stay,
    Close,
    Run(Box<Action>),
}

/// What a key does to the menu, as mathematical values.
#[verifier::ext_equal]
pub enum DecisionView {
    Stay,
    Close,
    Run(actions::ActionView),
}

impl View for Decision {
    type V = DecisionView;

    open spec fn view(&self) -> DecisionView {
        match self {
            Decision::Stay => DecisionView::Stay,
            Decision::Close => DecisionView::Close,
            Decision::Run(action) => DecisionView::Run((**action)@),
        }
    }
}

/// The menu of actions for the item that was selected when it was opened.
#[derive(Debug)]
pub struct Menu {
    pub target: Location,
    pub items: Vec<Action>,
    pub query: String,
    pub visible: Vec<usize>,
    pub selected: usize,
    pub error: Option<String>,
    pub mouse_rows: Rect,
    pub mouse_first: usize,
}

/// A menu as mathematical values.
#[verifier::ext_equal]
pub struct MenuView {
    pub target: paths::LocationView,
    pub items: Seq<actions::ActionView>,
    pub query: Seq<char>,
    pub visible: Seq<usize>,
    pub selected: usize,
    pub error: Option<Seq<char>>,
    pub mouse_rows: Rect,
    pub mouse_first: usize,
}

impl View for Menu {
    type V = MenuView;

    open spec fn view(&self) -> MenuView {
        MenuView {
            target: self.target@,
            items: text::views(self.items@),
            query: self.query@,
            visible: self.visible@,
            selected: self.selected,
            error: text::inside(self.error),
            mouse_rows: self.mouse_rows,
            mouse_first: self.mouse_first,
        }
    }
}

/// Whether the names are short enough to be matched.
pub open spec fn matchable(items: Seq<actions::ActionView>) -> bool {
    forall|i: int| 0 <= i < items.len() ==> (#[trigger] items[i]).title().len() <= fuzzy::TEXT_LIMIT
}

/// The scores that a query gives the actions.
pub open spec fn scores(items: Seq<actions::ActionView>, query: Seq<char>) -> Seq<Option<u32>> {
    items.map_values(|action: actions::ActionView| fuzzy::scored(query, action.title()))
}

/// One row of the menu.
pub open spec fn menu_line(action: actions::ActionView, current: bool) -> screen::LineView {
    screen::LineView {
        spans: seq![
            screen::spanned(
                if current {
                    "▌ "@
                } else {
                    "  "@
                },
                Tone::Plain,
            ),
            screen::spanned(action.title(), Tone::Plain),
            screen::spanned(
                if action.run() is Terminal {
                    "  [terminal]"@
                } else {
                    ""@
                },
                Tone::Remark,
            ),
        ],
        tone: if current {
            Tone::Chosen
        } else {
            Tone::Plain
        },
        right: false,
    }
}

/// The lines of a text in one tone.
pub open spec fn toned(lines: Seq<Seq<char>>, tone: Tone) -> Seq<screen::LineView> {
    lines.map_values(|line: Seq<char>| screen::one_line(line, tone))
}

/// How many rows a window of the given height shows from `first` on.
pub open spec fn window(total: nat, first: int, height: u16) -> nat {
    if first >= total {
        0
    } else if total - first < height {
        (total - first) as nat
    } else {
        height as nat
    }
}

/// Where the cursor stands behind a prompt of two columns and the typed text.
pub open spec fn prompt_cursor(area: Rect, typed: Seq<char>) -> u16 {
    let column = 2 + width::columns(typed);
    let last = area.width - 1;
    screen::cut(
        area.x + if column < last {
            column
        } else {
            last
        },
    )
}

impl MenuView {
    /// The cursor is on a row, and the rows are actions of the menu.
    pub open spec fn wf(self) -> bool {
        &&& matchable(self.items)
        &&& self.query.len() <= fuzzy::QUERY_LIMIT
        &&& self.selected < self.visible.len() || self.selected == 0
        &&& forall|k: int|
            0 <= k < self.visible.len() ==> (#[trigger] self.visible[k]) < self.items.len()
    }

    /// The number of lines that a warning is given.
    pub open spec fn warning_height(self) -> int {
        if self.error is Some {
            3
        } else {
            0
        }
    }

    /// Whether four parts share out an area for the menu: a line for the item,
    /// a line for the filter, the warning and the actions below them. In an
    /// area without room for all of that they lie somewhere in it.
    pub open spec fn shared(
        self,
        area: Rect,
        target: Rect,
        prompt: Rect,
        warning: Rect,
        rows: Rect,
    ) -> bool {
        let inner = area.within_border();
        let warned = self.warning_height();
        &&& inner.height >= 2 + warned ==> target == inner.row(0) && prompt == inner.row(1)
            && warning == (Rect { height: warned as u16, ..inner.below(2) }) && rows == inner.below(
            2 + warned,
        )
        &&& target.inside(inner) && prompt.inside(inner) && warning.inside(inner) && rows.inside(
            inner,
        )
    }

    /// The menu as it opens, with every action shown.
    pub open spec fn opened(
        target: paths::LocationView,
        items: Seq<actions::ActionView>,
        error: Option<Seq<char>>,
    ) -> MenuView {
        MenuView {
            target,
            items,
            query: Seq::empty(),
            visible: Seq::new(items.len(), |i: int| i as usize),
            selected: 0,
            error,
            mouse_rows: Rect::nowhere(),
            mouse_first: 0,
        }
    }

    /// The menu with another query: the actions that match, best first.
    pub open spec fn filtered(self, query: Seq<char>) -> MenuView {
        MenuView {
            query,
            visible: order::ranking(scores(self.items, query)),
            selected: 0,
            ..self
        }
    }

    /// The last row.
    pub open spec fn last(self) -> int {
        if self.visible.len() == 0 {
            0
        } else {
            self.visible.len() - 1
        }
    }

    /// The menu with the cursor moved, which stops at the ends.
    pub open spec fn moved(self, delta: int) -> MenuView {
        let next = self.selected + delta;
        MenuView {
            selected: if next < 0 {
                0
            } else if next > self.last() {
                self.last() as usize
            } else {
                next as usize
            },
            ..self
        }
    }

    /// Whether a key adds a character to the query.
    pub open spec fn typed(self, key: KeyEvent) -> bool {
        key.code is Char && key.types()
    }

    /// What a key does to the menu.
    pub open spec fn handled(self, key: KeyEvent) -> (MenuView, DecisionView) {
        let ctrl = key.modifiers.control;
        match key.code {
            KeyCode::Esc => (self, DecisionView::Close),
            KeyCode::Enter => if self.selected < self.visible.len() {
                (
                    self,
                    DecisionView::Run(self.items[self.visible[self.selected as int] as int]),
                )
            } else {
                (self, DecisionView::Stay)
            },
            KeyCode::Up => (self.moved(-1), DecisionView::Stay),
            KeyCode::Down => (self.moved(1), DecisionView::Stay),
            KeyCode::Backspace => (
                self.filtered(text::shortened(self.query)),
                DecisionView::Stay,
            ),
            KeyCode::Char(c) => if ctrl {
                if c == 'c' || c == 'p' {
                    (self, DecisionView::Close)
                } else if c == 'k' {
                    (self.moved(-1), DecisionView::Stay)
                } else if c == 'j' {
                    (self.moved(1), DecisionView::Stay)
                } else if c == 'u' {
                    (self.filtered(Seq::empty()), DecisionView::Stay)
                } else {
                    (self, DecisionView::Stay)
                }
            } else if key.types() {
                (self.filtered(self.query.push(c)), DecisionView::Stay)
            } else {
                (self, DecisionView::Stay)
            },
            _ => (self, DecisionView::Stay),
        }
    }

    /// What the mouse does to the menu, and whether the selected action is to
    /// be run.
    pub open spec fn clicked(self, mouse: MouseEvent) -> (MenuView, bool) {
        let row = self.mouse_first + (mouse.row - self.mouse_rows.y);
        if !self.mouse_rows.holds(mouse.column, mouse.row) {
            (self, false)
        } else {
            match mouse.kind {
                MouseKind::Down(MouseButton::Left) => if row < self.visible.len() {
                    (MenuView { selected: row as usize, ..self }, true)
                } else {
                    (self, false)
                },
                MouseKind::ScrollUp => (self.moved(-3), false),
                MouseKind::ScrollDown => (self.moved(3), false),
                _ => (self, false),
            }
        }
    }

    /// How the height of the menu is shared out.
    pub open spec fn sizes(self) -> Seq<Size> {
        seq![
            Size::Length(1),
            Size::Length(1),
            Size::Length(
                if self.error is Some {
                    3
                } else {
                    0
                },
            ),
            Size::Min(0),
        ]
    }

    /// The first row shown in a window of the given height.
    pub open spec fn first(self, height: u16) -> usize {
        if height <= 1 {
            self.selected
        } else if self.selected < height - 1 {
            0
        } else {
            (self.selected - (height - 1)) as usize
        }
    }

    /// The rows shown in a window of the given height.
    pub open spec fn shown(self, height: u16) -> Seq<screen::LineView> {
        let first = self.first(height);
        Seq::new(
            window(self.visible.len(), first as int, height),
            |k: int|
                menu_line(self.items[self.visible[first + k] as int], first + k == self.selected),
        )
    }

    /// The menu once it has been drawn: the rows answer the mouse where they
    /// were put.
    pub open spec fn placed(self, rows: Rect) -> MenuView {
        if self.visible.len() == 0 {
            MenuView { mouse_rows: Rect::nowhere(), ..self }
        } else {
            MenuView { mouse_rows: rows, mouse_first: self.first(rows.height), ..self }
        }
    }

    /// What is drawn in the four parts of an area.
    pub open spec fn picture(
        self,
        area: Rect,
        target: Rect,
        prompt: Rect,
        warning: Rect,
        rows: Rect,
        platform: Platform,
    ) -> screen::ScreenView {
        let frame = screen::ScreenView::blank().with(
            screen::DrawView::Frame {
                area,
                tone: Tone::Plain,
                title: screen::one_line(" Actions "@, Tone::Plain),
                bottom: screen::one_line(" Click / Enter: run  Esc / Ctrl-P: back "@, Tone::Plain),
            },
        );
        let named = frame.with_line(
            target,
            screen::one_line(self.target.display(platform), Tone::Target),
        );
        let asked = named.with_line(prompt, screen::one_line("> "@ + self.query, Tone::Plain));
        let pointed = if prompt.width > 0 && prompt.height > 0 {
            asked.at(prompt_cursor(prompt, self.query), prompt.y)
        } else {
            asked
        };
        let warned = match self.error {
            Some(error) => pointed.with(
                screen::DrawView::Text {
                    area: warning,
                    lines: toned(text::lines_of(error), Tone::Failure),
                    wrap: true,
                },
            ),
            None => pointed,
        };
        if self.visible.len() == 0 {
            warned.with_line(rows, screen::one_line("No matching actions"@, Tone::Plain))
        } else {
            warned.with(screen::DrawView::Rows { area: rows, lines: self.shown(rows.height) })
        }
    }
}

/// The lines of a text in one tone.
pub fn tone_lines(text: &str, tone: Tone) -> (out: Vec<Line>)
    ensures
        text::views(out@) == toned(text::lines_of(text@), tone),
{
    let all = lines(text);
    let ghost views = text::views(all@);
    let mut out: Vec<Line> = Vec::new();
    let mut i: usize = 0;
    assert(text::views(out@) =~= toned(views.take(0), tone));
    while i < all.len()
        invariant
            i <= all@.len(),
            views == text::views(all@),
            text::views(out@) == toned(views.take(i as int), tone),
        decreases all@.len() - i,
    {
        assert(views[i as int] == all@[i as int]@);
        assert(toned(views.take(i + 1), tone) =~= toned(views.take(i as int), tone).push(
            screen::one_line(views[i as int], tone),
        ));
        add_line(&mut out, line_of(all[i].as_str(), tone));
        i += 1;
    }
    assert(views.take(i as int) =~= views);
    out
}

/// Where the cursor stands behind a prompt of two columns and the typed text.
pub fn cursor_column(area: Rect, typed: &str) -> (x: u16)
    requires
        area.width > 0,
    ensures
        x == prompt_cursor(area, typed@),
{
    let column: usize = text_width(typed).saturating_add(2);
    let last: u16 = area.width - 1;
    let offset: u16 = if column < last as usize {
        column as u16
    } else {
        last
    };
    area.x.saturating_add(offset)
}

fn draw_row(action: &Action, current: bool) -> (out: Line)
    ensures
        out@ == menu_line(action@, current),
{
    let mut spans: Vec<Span> = Vec::new();
    add_span(
        &mut spans,
        if current {
            "▌ "
        } else {
            "  "
        },
        Tone::Plain,
    );
    add_span(&mut spans, action.name(), Tone::Plain);
    let suffix = match action.run_mode() {
        RunMode::Terminal => "  [terminal]",
        RunMode::Detach => "",
    };
    add_span(&mut spans, suffix, Tone::Remark);
    assert(text::views(spans@) =~= menu_line(action@, current).spans);
    let mut out = line(spans);
    if current {
        out.tone = Tone::Chosen;
    }
    out
}

impl Menu {
    /// The menu of the given actions for an item, with every action shown.
    /// `error` tells what is wrong with the user's own actions.
    pub fn new(target: Location, items: Vec<Action>, error: Option<String>) -> (menu: Menu)
        requires
            matchable(text::views(items@)),
        ensures
            menu@ == MenuView::opened(target@, text::views(items@), text::inside(error)),
            menu@.wf(),
    {
        let count: usize = items.len();
        let mut visible: Vec<usize> = Vec::new();
        let mut i: usize = 0;
        while i < count
            invariant
                i <= count,
                visible@ == Seq::new(i as nat, |k: int| k as usize),
            decreases count - i,
        {
            visible.push(i);
            i += 1;
            assert(visible@ =~= Seq::new(i as nat, |k: int| k as usize));
        }
        let query = String::new();
        assert(query@ =~= Seq::<char>::empty());
        Menu {
            target,
            items,
            query,
            visible,
            selected: 0,
            error,
            mouse_rows: Rect::none(),
            mouse_first: 0,
        }
    }

    /// Does what a key asks for: closes the menu, runs the selected action,
    /// moves the cursor or narrows the menu.
    pub fn handle(&mut self, key: KeyEvent) -> (decision: Decision)
        requires
            old(self)@.wf(),
            old(self)@.typed(key) ==> old(self)@.query.len() < fuzzy::QUERY_LIMIT,
        ensures
            (final(self)@, decision@) == old(self)@.handled(key),
            final(self)@.wf(),
    {
        let ctrl = key.modifiers.control;
        match key.code {
            KeyCode::Esc => {
                return Decision::Close;
            },
            KeyCode::Enter => {
                if self.selected < self.visible.len() {
                    let index: usize = self.visible[self.selected];
                    assert(index < self@.items.len());
                    assert(self@.items[index as int] == self.items@[index as int]@);
                    return Decision::Run(Box::new(self.items[index].clone()));
                }
            },
            KeyCode::Up => self.step_up(1),
            KeyCode::Down => self.step_down(1),
            KeyCode::Backspace => {
                self.query = shorten(self.query.as_str());
                self.filter();
            },
            KeyCode::Char(c) => {
                if ctrl {
                    if c == 'c' || c == 'p' {
                        return Decision::Close;
                    } else if c == 'k' {
                        self.step_up(1);
                    } else if c == 'j' {
                        self.step_down(1);
                    } else if c == 'u' {
                        self.query = String::new();
                        assert(self.query@ =~= Seq::<char>::empty());
                        self.filter();
                    }
                } else if is_typed_text(&key) {
                    self.query.push(c);
                    self.filter();
                }
            },
            _ => {},
        }
        Decision::Stay
    }

    fn step_up(&mut self, rows: usize)
        requires
            old(self)@.wf(),
        ensures
            final(self)@ == old(self)@.moved(-(rows as int)),
            final(self)@.wf(),
    {
        self.selected = self.selected.saturating_sub(rows);
    }

    fn step_down(&mut self, rows: usize)
        requires
            old(self)@.wf(),
        ensures
            final(self)@ == old(self)@.moved(rows as int),
            final(self)@.wf(),
    {
        let last: usize = self.visible.len().saturating_sub(1);
        let next: usize = self.selected.saturating_add(rows);
        self.selected = if next > last {
            last
        } else {
            next
        };
    }

    /// Shows the actions that match the query, best first.
    fn filter(&mut self)
        requires
            matchable(old(self)@.items),
            old(self)@.query.len() <= fuzzy::QUERY_LIMIT,
        ensures
            final(self)@ == old(self)@.filtered(old(self)@.query),
            final(self)@.wf(),
    {
        let ghost all = self@.items;
        let mut matcher = fuzzy::new_matcher();
        let mut found: Vec<Option<u32>> = Vec::new();
        let mut i: usize = 0;
        while i < self.items.len()
            invariant
                i <= self.items@.len(),
                all == text::views(self.items@),
                matchable(all),
                self.query@.len() <= fuzzy::QUERY_LIMIT,
                found@ == scores(all, self.query@).take(i as int),
            decreases self.items@.len() - i,
        {
            assert(all[i as int] == self.items@[i as int]@);
            let score = fuzzy::match_text(self.query.as_str(), self.items[i].name(), &mut matcher);
            found.push(score);
            i += 1;
            assert(found@ =~= scores(all, self.query@).take(i as int));
        }
        assert(found@ =~= scores(all, self.query@));
        self.visible = rank(&found);
        self.selected = 0;
    }

    /// Selects the action that was clicked; true asks for it to be run.
    pub fn handle_mouse(&mut self, mouse: MouseEvent) -> (run: bool)
        requires
            old(self)@.wf(),
        ensures
            (final(self)@, run) == old(self)@.clicked(mouse),
            final(self)@.wf(),
    {
        if !self.mouse_rows.contains(mouse.column, mouse.row) {
            return false;
        }
        match mouse.kind {
            MouseKind::Down(MouseButton::Left) => {
                let offset: usize = (mouse.row - self.mouse_rows.y) as usize;
                let count: usize = self.visible.len();
                if self.mouse_first < count && offset < count - self.mouse_first {
                    self.selected = self.mouse_first + offset;
                    return true;
                }
            },
            MouseKind::ScrollUp => self.step_up(3),
            MouseKind::ScrollDown => self.step_down(3),
            _ => {},
        }
        false
    }

    /// What to draw of the menu in an area.
    pub fn render(&mut self, area: Rect, platform: Platform) -> (screen: Screen)
        requires
            old(self)@.wf(),
            area.countable(),
        ensures
            exists|target: Rect, prompt: Rect, warning: Rect, rows: Rect| #[trigger]
                old(self)@.picture(area, target, prompt, warning, rows, platform) == screen@
                    && old(self)@.shared(area, target, prompt, warning, rows) && final(self)@
                    == old(self)@.placed(rows),
            final(self)@.wf(),
    {
        let mut sizes: Vec<Size> = Vec::new();
        sizes.push(Size::Length(1));
        sizes.push(Size::Length(1));
        sizes.push(
            Size::Length(
                if self.error.is_some() {
                    3
                } else {
                    0
                },
            ),
        );
        sizes.push(Size::Min(0));
        let inner = area.inner();
        let parts = split_rows(inner, &sizes);
        proof {
            reveal_with_fuel(screen::lengths, 4);
            let warned = self@.warning_height();
            assert(screen::stacks(sizes@, inner.height) == (inner.height >= 2 + warned));
            if inner.height >= 2 + warned {
                assert(parts@[0] == screen::stacked(inner, sizes@, 0));
                assert(parts@[1] == screen::stacked(inner, sizes@, 1));
                assert(parts@[2] == screen::stacked(inner, sizes@, 2));
                assert(parts@[3] == screen::stacked(inner, sizes@, 3));
            }
            assert(self@.shared(area, parts@[0], parts@[1], parts@[2], parts@[3]));
        }
        self.draw(area, parts[0], parts[1], parts[2], parts[3], platform)
    }

    /// What to draw of the menu in the four parts of an area.
    pub fn draw(
        &mut self,
        area: Rect,
        target: Rect,
        prompt: Rect,
        warning: Rect,
        rows: Rect,
        platform: Platform,
    ) -> (screen: Screen)
        requires
            old(self)@.wf(),
        ensures
            screen@ == old(self)@.picture(area, target, prompt, warning, rows, platform),
            final(self)@ == old(self)@.placed(rows),
            final(self)@.wf(),
    {
        let mut screen = Screen::new();
        screen.frame(
            area,
            Tone::Plain,
            line_of(" Actions ", Tone::Plain),
            line_of(" Click / Enter: run  Esc / Ctrl-P: back ", Tone::Plain),
        );
        screen.line(target, line_of(self.target.display(platform).as_str(), Tone::Target));
        screen.line(prompt, line_of(cat("> ", self.query.as_str()).as_str(), Tone::Plain));
        if prompt.width > 0 && prompt.height > 0 {
            screen.cursor = Some((cursor_column(prompt, self.query.as_str()), prompt.y));
        }
        if let Some(error) = &self.error {
            screen.text(warning, tone_lines(error.as_str(), Tone::Failure), true);
        }
        let count: usize = self.visible.len();
        if count == 0 {
            self.mouse_rows = Rect::none();
            screen.line(rows, line_of("No matching actions", Tone::Plain));
            return screen;
        }
        let height: usize = rows.height as usize;
        let first: usize = self.selected.saturating_sub(height.saturating_sub(1));
        let ghost shown = self@.shown(rows.height);
        let ghost view = self@;
        assert(first == view.first(rows.height));
        let end: usize = if count - first < height {
            count
        } else {
            first + height
        };
        let mut drawn: Vec<Line> = Vec::new();
        let mut row: usize = first;
        assert(text::views(drawn@) =~= shown.take(0));
        while row < end
            invariant
                first <= row <= end <= count,
                view == self@,
                view.wf(),
                count == self.visible@.len(),
                first == view.first(rows.height),
                shown == view.shown(rows.height),
                shown.len() == end - first,
                text::views(drawn@) == shown.take(row - first),
            decreases end - row,
        {
            let index: usize = self.visible[row];
            assert(index < view.items.len());
            assert(view.items[index as int] == self.items@[index as int]@);
            let line = draw_row(&self.items[index], row == self.selected);
            assert(shown.take(row - first + 1) =~= shown.take(row - first).push(line@));
            add_line(&mut drawn, line);
            row += 1;
        }
        assert(shown.take(end - first) =~= shown);
        self.mouse_rows = rows;
        self.mouse_first = first;
        screen.rows(rows, drawn);
        screen
    }
}

/// Whatever is typed and clicked, the menu acts on the item that it was opened
/// for, and offers the same actions.
pub proof fn target_stays_fixed(menu: MenuView, key: KeyEvent, mouse: MouseEvent)
    ensures
        menu.handled(key).0.target == menu.target,
        menu.handled(key).0.items == menu.items,
        menu.clicked(mouse).0.target == menu.target,
        menu.clicked(mouse).0.items == menu.items,
{
}

/// A click that asks for an action runs the row that was clicked, exactly as
/// Enter does.
pub proof fn click_runs_the_row_under_the_pointer(menu: MenuView, mouse: MouseEvent, enter: KeyEvent)
    requires
        menu.wf(),
        menu.visible.len() <= usize::MAX,
        menu.clicked(mouse).1,
        enter.code is Enter,
    ensures
        ({
            let row = menu.mouse_first + (mouse.row - menu.mouse_rows.y);
            menu.clicked(mouse).0.handled(enter).1 == DecisionView::Run(
                menu.items[menu.visible[row] as int],
            )
        }),
{
}

/// Escape closes the menu whatever was typed, and changes nothing in it.
pub proof fn escape_only_closes_the_menu(menu: MenuView, escape: KeyEvent)
    requires
        escape.code is Esc,
    ensures
        menu.handled(escape) == (menu, DecisionView::Close),
{
}

/// Characters typed with Control or Alt never reach the query.
pub proof fn commands_stay_out_of_the_query(menu: MenuView, key: KeyEvent)
    requires
        key.code is Char,
        key.modifiers.control || key.modifiers.alt,
    ensures
        menu.handled(key).0.query == menu.query || menu.handled(key).0.query.len() == 0,
{
}

} // verus!
