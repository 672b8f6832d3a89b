//! What the mouse does, whatever the mode and the state of the picker, and
//! what the answers to the tasks of a key or a click change.
use crate::browse;
use crate::browse::{BrowserView, ItemView};
use crate::cli::Mode;
use crate::key_laws;
use crate::keys::{Modifiers, MouseButton, MouseEvent, MouseKind};
use crate::paths::LocationView;
use crate::picker::{
    Button, ClickView, Event, Nav, PickerView, SpotView, TargetsView, TaskView,
};
use crate::scan;
use crate::screen::Rect;
use vstd::prelude::*;

verus! {

/// A rectangle holds the cells from its corner on, as many as its width and
/// height, and no other; one without width or height holds none.
pub proof fn a_rectangle_holds_its_cells(rect: Rect, x: u16, y: u16)
    ensures
        rect.x + rect.width <= u16::MAX && rect.y + rect.height <= u16::MAX ==> rect.holds(x, y)
            == (rect.x <= x && x - rect.x < rect.width && rect.y <= y && y - rect.y < rect.height),
        rect.width == 0 || rect.height == 0 ==> !rect.holds(x, y),
        rect.holds(x, y) ==> x >= rect.x && y >= rect.y && x - rect.x < rect.width && y - rect.y
            < rect.height,
{
}

proof fn lemma_spot(spots: Seq<SpotView>, mouse: MouseEvent, from: int, at: int)
    requires
        0 <= from <= at < spots.len(),
        spots[at].area.holds(mouse.column, mouse.row),
        forall|k: int|
            from <= k < at ==> !(#[trigger] spots[k]).area.holds(mouse.column, mouse.row),
    ensures
        PickerView::spot_at(spots, mouse, from) == Some(spots[at].path),
    decreases at - from,
{
    if from < at {
        assert(!spots[from].area.holds(mouse.column, mouse.row));
        lemma_spot(spots, mouse, from + 1, at);
    }
}

proof fn lemma_no_spot(spots: Seq<SpotView>, mouse: MouseEvent, from: int)
    requires
        0 <= from,
        forall|k: int|
            from <= k < spots.len() ==> !(#[trigger] spots[k]).area.holds(mouse.column, mouse.row),
    ensures
        PickerView::spot_at(spots, mouse, from) is None,
    decreases spots.len() - from,
{
    if from < spots.len() {
        assert(!spots[from].area.holds(mouse.column, mouse.row));
        lemma_no_spot(spots, mouse, from + 1);
    }
}

/// The pointer hits the first of the spots that hold it, whichever that is,
/// and none where none does.
pub proof fn the_pointer_hits_the_first_spot_under_it(
    spots: Seq<SpotView>,
    mouse: MouseEvent,
    at: int,
)
    ensures
        0 <= at < spots.len() && spots[at].area.holds(mouse.column, mouse.row) && (forall|k: int|
            0 <= k < at ==> !(#[trigger] spots[k]).area.holds(mouse.column, mouse.row))
            ==> PickerView::spot_at(spots, mouse, 0) == Some(spots[at].path),
        (forall|k: int|
            0 <= k < spots.len() ==> !(#[trigger] spots[k]).area.holds(mouse.column, mouse.row))
            ==> PickerView::spot_at(spots, mouse, 0) is None,
{
    if 0 <= at < spots.len() && spots[at].area.holds(mouse.column, mouse.row) && (forall|k: int|
        0 <= k < at ==> !(#[trigger] spots[k]).area.holds(mouse.column, mouse.row)) {
        lemma_spot(spots, mouse, 0, at);
    }
    if forall|k: int|
        0 <= k < spots.len() ==> !(#[trigger] spots[k]).area.holds(mouse.column, mouse.row) {
        lemma_no_spot(spots, mouse, 0);
    }
}

proof fn lemma_button(buttons: Seq<Button>, mouse: MouseEvent, from: int, at: int)
    requires
        0 <= from <= at < buttons.len(),
        buttons[at].area.holds(mouse.column, mouse.row),
        forall|k: int|
            from <= k < at ==> !(#[trigger] buttons[k]).area.holds(mouse.column, mouse.row),
    ensures
        PickerView::button_at(buttons, mouse, from) == Some(buttons[at].nav),
    decreases at - from,
{
    if from < at {
        assert(!buttons[from].area.holds(mouse.column, mouse.row));
        lemma_button(buttons, mouse, from + 1, at);
    }
}

proof fn lemma_no_button(buttons: Seq<Button>, mouse: MouseEvent, from: int)
    requires
        0 <= from,
        forall|k: int|
            from <= k < buttons.len() ==> !(#[trigger] buttons[k]).area.holds(
                mouse.column,
                mouse.row,
            ),
    ensures
        PickerView::button_at(buttons, mouse, from) is None,
    decreases buttons.len() - from,
{
    if from < buttons.len() {
        assert(!buttons[from].area.holds(mouse.column, mouse.row));
        lemma_no_button(buttons, mouse, from + 1);
    }
}

/// The pointer hits the first of the buttons that hold it, and none where none
/// does.
pub proof fn the_pointer_hits_the_first_button_under_it(
    buttons: Seq<Button>,
    mouse: MouseEvent,
    at: int,
)
    ensures
        0 <= at < buttons.len() && buttons[at].area.holds(mouse.column, mouse.row) && (forall|
            k: int,
        |
            0 <= k < at ==> !(#[trigger] buttons[k]).area.holds(mouse.column, mouse.row))
            ==> PickerView::button_at(buttons, mouse, 0) == Some(buttons[at].nav),
        (forall|k: int|
            0 <= k < buttons.len() ==> !(#[trigger] buttons[k]).area.holds(
                mouse.column,
                mouse.row,
            )) ==> PickerView::button_at(buttons, mouse, 0) is None,
{
    if 0 <= at < buttons.len() && buttons[at].area.holds(mouse.column, mouse.row) && (forall|
        k: int,
    |
        0 <= k < at ==> !(#[trigger] buttons[k]).area.holds(mouse.column, mouse.row)) {
        lemma_button(buttons, mouse, 0, at);
    }
    if forall|k: int|
        0 <= k < buttons.len() ==> !(#[trigger] buttons[k]).area.holds(mouse.column, mouse.row) {
        lemma_no_button(buttons, mouse, 0);
    }
}

/// The tabs stand side by side, each as wide as its name and one column apart:
/// dirs, files, recent, favorites and browse. A column between two of them or
/// past the last falls on none.
pub proof fn each_tab_answers_where_its_name_stands(column: u16, x: int)
    ensures
        ({
            let tab = PickerView::tab_at(column, x, 0);
            &&& (tab == Some(0int)) == (x <= column < x + 4)
            &&& (tab == Some(1int)) == (x + 5 <= column < x + 10)
            &&& (tab == Some(2int)) == (x + 11 <= column < x + 17)
            &&& (tab == Some(3int)) == (x + 18 <= column < x + 27)
            &&& (tab == Some(4int)) == (x + 28 <= column < x + 34)
            &&& tab is Some ==> 0 <= tab->0 < 5
        }),
{
    reveal_strlit("dirs");
    reveal_strlit("files");
    reveal_strlit("recent");
    reveal_strlit("favorites");
    reveal_strlit("browse");
    reveal_with_fuel(PickerView::tab_at, 6);
}

/// With the menu open the mouse reaches nothing behind it; it reaches the menu
/// alone.
pub proof fn the_mouse_stays_in_an_open_menu(
    p: PickerView,
    mouse: MouseEvent,
    entry: Option<scan::EntryView>,
    under: Option<scan::EntryView>,
    now: u64,
)
    requires
        p.menu is Some,
        p.config.mouse,
        p.clicks_blocked_until is None,
        !(mouse.kind == MouseKind::Down(MouseButton::Left)),
    ensures
        ({
            let (after, task) = p.stepped(Event::Mouse(mouse), entry, under, now);
            &&& task == TaskView::Nothing
            &&& after.menu is Some
            &&& after == (PickerView { menu: after.menu, ..p })
            &&& after.menu->0.target == p.menu->0.target
            &&& after.menu->0.items == p.menu->0.items
        }),
{
}

/// A left click on an action of the menu runs that action on the menu's item,
/// closes the menu, and keeps further clicks away for a moment.
pub proof fn a_click_runs_the_action_under_it(
    p: PickerView,
    mouse: MouseEvent,
    entry: Option<scan::EntryView>,
    under: Option<scan::EntryView>,
    now: u64,
)
    requires
        p.menu is Some,
        p.config.mouse,
        p.clicks_blocked_until is None,
        mouse.kind == MouseKind::Down(MouseButton::Left),
        p.menu->0.mouse_rows.holds(mouse.column, mouse.row),
        p.menu->0.visible.len() <= usize::MAX,
    ensures
        ({
            let (after, task) = p.stepped(Event::Mouse(mouse), entry, under, now);
            let m = p.menu->0;
            let row = m.mouse_first + (mouse.row - m.mouse_rows.y);
            &&& row < m.visible.len() ==> task == TaskView::Execute(
                m.items[m.visible[row] as int],
                m.target,
            )
            &&& row < m.visible.len() ==> after.menu is None && after.last_click is None
            &&& row < m.visible.len() && now <= u64::MAX - 300 ==> after.clicks_blocked_until
                == Some((now + 300) as u64)
            &&& row >= m.visible.len() ==> task == TaskView::Nothing && after.menu == p.menu
        }),
{
}

/// What the right mouse button asks for of an item: the menu with Control held,
/// and the desktop otherwise.
pub proof fn the_right_button_shows_or_asks(path: LocationView, modifiers: Modifiers)
    ensures
        modifiers.control ==> PickerView::right_clicked(path, modifiers) == TaskView::OpenMenu(
            path,
        ),
        !modifiers.control ==> PickerView::right_clicked(path, modifiers) == TaskView::Show(path),
{
}

/// A left click on a place goes there, in the browser, whatever the mode; on
/// the directory that is browsed it goes up instead. A right click shows the
/// place or opens the menu for it.
pub proof fn clicking_a_place_goes_there(
    p: PickerView,
    mouse: MouseEvent,
    entry: Option<scan::EntryView>,
    under: Option<scan::EntryView>,
    now: u64,
    at: int,
)
    requires
        p.menu is None,
        p.config.mouse,
        p.clicks_blocked_until is None,
        0 <= at < p.targets.paths.len(),
        p.targets.paths[at].area.holds(mouse.column, mouse.row),
        forall|k: int|
            0 <= k < at ==> !(#[trigger] p.targets.paths[k]).area.holds(mouse.column, mouse.row),
    ensures
        ({
            let (after, task) = p.stepped(Event::Mouse(mouse), entry, under, now);
            let place = p.targets.paths[at].path;
            let left = mouse.kind == MouseKind::Down(MouseButton::Left);
            let right = mouse.kind == MouseKind::Down(MouseButton::Right);
            let here = p.mode is Browse && place == p.browser->0.cwd;
            &&& left && !here ==> task == TaskView::Navigate(place, true)
            &&& left && here && place.parts.len() > 0 ==> task is Read && task->Read_0.dir.anchor
                == place.anchor && task->Read_0.dir.parts == place.parts.take(
                place.parts.len() - 1,
            )
            &&& left && here && place.parts.len() == 0 ==> task == TaskView::Nothing
            &&& left ==> after == (PickerView { last_click: None, preview: None, ..p })
            &&& right && mouse.modifiers.control ==> task == TaskView::OpenMenu(place)
            &&& right && !mouse.modifiers.control ==> task == TaskView::Show(place)
            &&& right ==> after == (PickerView { last_click: None, ..p })
        }),
{
    lemma_spot(p.targets.paths, mouse, 0, at);
    let place = p.targets.paths[at].path;
    if place.parts.len() > 0 {
        assert(place.parts.drop_last() =~= place.parts.take(place.parts.len() - 1));
    }
}

/// The buttons of the browse header mirror keys: back and forward retrace, and
/// up goes to the directory above. The message goes.
pub proof fn the_header_buttons_mirror_keys(p: PickerView, nav: Nav)
    ensures
        p.navigated(Nav::Back) == (
            PickerView { notice: None, notice_until: None, ..p },
            TaskView::Retrace(false),
        ),
        p.navigated(Nav::Forward) == (
            PickerView { notice: None, notice_until: None, ..p },
            TaskView::Retrace(true),
        ),
        p.browser is Some && p.browser->0.cwd.parts.len() > 0 ==> p.navigated(Nav::Up).1 is Read
            && p.navigated(Nav::Up).1->Read_0.dir.anchor == p.browser->0.cwd.anchor && p.navigated(
            Nav::Up,
        ).1->Read_0.dir.parts == p.browser->0.cwd.parts.take(p.browser->0.cwd.parts.len() - 1),
        p.browser is Some && p.browser->0.cwd.parts.len() == 0 ==> p.navigated(Nav::Up).1
            == TaskView::Nothing,
        p.browser is None ==> p.navigated(Nav::Up).1 == TaskView::Nothing,
        p.navigated(nav).0 == (PickerView {
            notice: None,
            notice_until: None,
            preview: p.navigated(nav).0.preview,
            ..p
        }),
{
    if p.browser is Some && p.browser->0.cwd.parts.len() > 0 {
        let parts = p.browser->0.cwd.parts;
        assert(parts.drop_last() =~= parts.take(parts.len() - 1));
    }
}

/// A click on a step of the header path goes to that directory and stays in
/// the mode; on the directory that is browsed it does nothing.
pub proof fn clicking_a_step_goes_there(p: PickerView, dir: LocationView)
    ensures
        p.browser is Some && p.browser->0.cwd == dir ==> p.crumb_clicked(dir) == (
            PickerView { notice: None, notice_until: None, ..p },
            TaskView::Nothing,
        ),
        !(p.browser is Some && p.browser->0.cwd == dir) ==> p.crumb_clicked(dir) == (
            PickerView { notice: None, notice_until: None, preview: None, ..p },
            TaskView::Navigate(dir, false),
        ),
{
}

/// A button of the header answers a left click before a step of the path does,
/// and a step before a tab; a place on the screen comes before them all.
pub proof fn what_a_left_click_reaches_first(
    p: PickerView,
    mouse: MouseEvent,
    entry: Option<scan::EntryView>,
    under: Option<scan::EntryView>,
    now: u64,
)
    requires
        p.menu is None,
        p.config.mouse,
        p.clicks_blocked_until is None,
        mouse.kind == MouseKind::Down(MouseButton::Left),
        PickerView::spot_at(p.targets.paths, mouse, 0) is None,
    ensures
        ({
            let out = p.stepped(Event::Mouse(mouse), entry, under, now);
            let button = PickerView::button_at(p.targets.nav, mouse, 0);
            let crumb = PickerView::spot_at(p.targets.crumbs, mouse, 0);
            let tab = PickerView::tab_at(mouse.column, p.targets.modes_x as int, 0);
            let on_header = p.targets.header.holds(mouse.column, mouse.row);
            &&& button is Some ==> out == p.navigated(button->0)
            &&& button is None && crumb is Some ==> out == p.crumb_clicked(crumb->0)
            &&& button is None && crumb is None && on_header && tab is Some ==> out == p.switched(
                tab->0 - p.mode.index(),
                entry,
            )
        }),
{
}

/// In a list a click picks the row under the pointer, the wheel the row three
/// up or down from the cursor, stopping at the ends; anything else, and
/// anything outside the rows, picks none.
pub proof fn what_the_mouse_picks_in_a_list(t: TargetsView, mouse: MouseEvent, cursor: int)
    requires
        0 <= cursor,
    ensures
        ({
            let picked = t.picked(mouse, cursor);
            let on = t.rows.holds(mouse.column, mouse.row) && t.count > 0;
            let click = mouse.kind == MouseKind::Down(MouseButton::Left) || mouse.kind
                == MouseKind::Down(MouseButton::Right);
            let row = t.first + mouse.row - t.rows.y;
            &&& !on ==> picked is None
            &&& on && click && row < t.count ==> picked == Some(row)
            &&& on && click && row >= t.count ==> picked is None
            &&& on && mouse.kind is ScrollUp && cursor >= 3 ==> picked == Some(cursor - 3)
            &&& on && mouse.kind is ScrollUp && cursor < 3 ==> picked == Some(0int)
            &&& on && mouse.kind is ScrollDown && cursor + 3 < t.count ==> picked == Some(
                cursor + 3,
            )
            &&& on && mouse.kind is ScrollDown && cursor + 3 >= t.count ==> picked == Some(
                t.count - 1,
            )
            &&& !click && !(mouse.kind is ScrollUp) && !(mouse.kind is ScrollDown) ==> picked is None
        }),
{
}

/// Picking a row of the browser moves its cursor there and nothing else; a
/// right click then shows the entry in that row, or opens the menu for it with
/// Control held.
pub proof fn picking_a_row_while_browsing(
    p: PickerView,
    mouse: MouseEvent,
    under: Option<scan::EntryView>,
    now: u64,
    row: int,
)
    requires
        p.mode is Browse,
        p.browser is Some,
        p.targets.picked(mouse, p.browser->0.selected as int) == Some(row),
        0 <= row < p.browser->0.rows.len(),
        p.browser->0.rows.len() <= usize::MAX,
    ensures
        ({
            let (after, task) = p.list_moused(mouse, under, now);
            let b = p.browser->0;
            let item = b.items[b.rows[row].index as int];
            &&& after.browser == Some((BrowserView { selected: row as usize, ..b }))
            &&& after == (PickerView {
                browser: after.browser,
                last_click: after.last_click,
                preview: after.preview,
                ..p
            })
            &&& mouse.kind is ScrollUp || mouse.kind is ScrollDown ==> task == TaskView::Nothing
            &&& mouse.kind == MouseKind::Down(MouseButton::Right) && mouse.modifiers.control
                ==> task == TaskView::OpenMenu(key_laws::below(b.cwd, item.name))
            &&& mouse.kind == MouseKind::Down(MouseButton::Right) && !mouse.modifiers.control
                ==> task == TaskView::Show(key_laws::below(b.cwd, item.name))
        }),
{
}

/// A left click on a row of the browser only selects it, and is remembered.
/// Another one on the same cell and the same entry within half a second goes
/// into the directory there; one that comes later, or elsewhere, selects again.
pub proof fn two_quick_clicks_go_in(
    p: PickerView,
    mouse: MouseEvent,
    under: Option<scan::EntryView>,
    now: u64,
    row: int,
)
    requires
        p.mode is Browse,
        p.browser is Some,
        mouse.kind == MouseKind::Down(MouseButton::Left),
        p.targets.picked(mouse, p.browser->0.selected as int) == Some(row),
        0 <= row < p.browser->0.rows.len(),
        p.browser->0.rows.len() <= usize::MAX,
    ensures
        ({
            let (after, task) = p.list_moused(mouse, under, now);
            let b = p.browser->0;
            let item = b.items[b.rows[row].index as int];
            let place = key_laws::below(b.cwd, item.name);
            let again = p.last_click is Some && p.last_click->0.path == place
                && p.last_click->0.x == mouse.column && p.last_click->0.y == mouse.row && now
                - p.last_click->0.at <= 500;
            &&& !again ==> task == TaskView::Nothing && after.last_click == Some(
                ClickView { path: place, x: mouse.column, y: mouse.row, at: now },
            ) && after.preview == p.preview
            &&& again && item.is_dir ==> task is Read && task->Read_0.dir == place
            &&& again && !item.is_dir ==> task == TaskView::Nothing
            &&& again ==> after.last_click is None && after.preview is None
        }),
{
}

/// Picking a row of a search moves the cursor of the current mode there and
/// keeps the other modes as they are; a right click then shows the candidate
/// in that row, or opens the menu for it with Control held.
pub proof fn picking_a_row_of_a_search(
    p: PickerView,
    mouse: MouseEvent,
    under: Option<scan::EntryView>,
    now: u64,
    row: int,
)
    requires
        p.wf(),
        !(p.mode is Browse),
        p.sources[p.mode.index()] is Some,
        p.targets.picked(mouse, p.sources[p.mode.index()]->0.selected as int) == Some(row),
        0 <= row <= u32::MAX,
    ensures
        ({
            let (after, task) = p.list_moused(mouse, under, now);
            let here = after.sources[p.mode.index()];
            let right = mouse.kind == MouseKind::Down(MouseButton::Right);
            &&& here is Some && here->0.selected == row
            &&& here->0.query_empty == p.sources[p.mode.index()]->0.query_empty && here->0.fresh
                == p.sources[p.mode.index()]->0.fresh
            &&& key_laws::agree_but_for(after, p, p.mode)
            &&& after == (PickerView { sources: after.sources, ..p })
            &&& !right || under is None ==> task == TaskView::Nothing
            &&& right && under is Some && mouse.modifiers.control ==> task == TaskView::OpenMenu(
                under->0.path,
            )
            &&& right && under is Some && !mouse.modifiers.control ==> task == TaskView::Show(
                under->0.path,
            )
        }),
{
}

/// Clicks are kept away for three tenths of a second after the screen was
/// replaced, and not a moment longer; a confirmation stays for three seconds.
pub proof fn how_long_things_stay(p: PickerView, now: u64, then: u64, message: Seq<char>)
    requires
        now <= u64::MAX - 3000,
    ensures
        p.guarding(now).guarded(then) == (then < now + 300),
        p.guarding(now).last_click is None,
        p.confirmed(message, now).notice == Some(message),
        p.confirmed(message, now).notice_due(then) == (then >= now + 3000),
        p.noticed(message).notice == Some(message),
        !p.noticed(message).notice_due(then),
        p.guarding(now) == (PickerView {
            clicks_blocked_until: p.guarding(now).clicks_blocked_until,
            last_click: None,
            ..p
        }),
        p.confirmed(message, now) == (PickerView {
            notice: Some(message),
            notice_until: p.confirmed(message, now).notice_until,
            ..p
        }),
        p.noticed(message) == (PickerView { notice: Some(message), notice_until: None, ..p }),
        p.past_guard(now) == (PickerView {
            clicks_blocked_until: p.past_guard(now).clicks_blocked_until,
            ..p
        }),
        p.guarded(now) ==> p.past_guard(now) == p,
        !p.guarded(now) ==> p.past_guard(now).clicks_blocked_until is None,
{
}

/// The browser opens in the directory asked for and shows all of it; the
/// search stays as it was.
pub proof fn opening_the_browser_shows_the_directory(
    p: PickerView,
    cwd: LocationView,
    entries: Seq<ItemView>,
)
    ensures
        ({
            let after = p.browser_opened(cwd, entries);
            &&& after.mode is Browse
            &&& after.browser is Some
            &&& after.browser->0.cwd == cwd
            &&& after.browser->0.items == browse::listed(entries)
            &&& after.browser->0.filter.len() == 0
            &&& after == (PickerView { mode: Mode::Browse, browser: after.browser, ..p })
        }),
{
}

/// Going to a directory ends in it, going to a file in the directory that
/// holds it; it shows the browser only where that is
/// wanted. What the browser showed is there to go back to, or the root of the
/// search where it showed nothing yet.
pub proof fn going_to_a_place_ends_there(
    p: PickerView,
    dir: LocationView,
    name: Seq<char>,
    entries: Seq<ItemView>,
    show: bool,
)
    requires
        name != "."@,
        name != ".."@,
    ensures
        ({
            let after = p.went_to(dir, true, entries, show);
            let beside = p.went_to(key_laws::below(dir, name), false, entries, show);
            let from = if p.browser is Some {
                p.browser->0.cwd
            } else {
                p.root
            };
            &&& after.browser is Some && after.browser->0.cwd == dir
            &&& beside.browser is Some && beside.browser->0.cwd == dir
            &&& after.browser->0.items == browse::listed(entries)
            &&& after.browser->0.filter.len() == 0
            &&& after.browser->0.back.len() > 0 && after.browser->0.back.last() == from
            &&& after.browser->0.ahead.len() == 0
            &&& after.browser->0.selected == 0
            &&& show ==> after.mode is Browse && beside.mode is Browse
            &&& !show ==> after.mode == p.mode && beside.mode == p.mode
            &&& after == (PickerView { mode: after.mode, browser: after.browser, ..p })
        }),
{
    assert(dir.parts.push(name).drop_last() =~= dir.parts);
}

/// A directory that was read for the browser is what it shows from then on;
/// nothing but the browser changes.
pub proof fn a_read_directory_is_shown(
    p: PickerView,
    visit: browse::VisitView,
    entries: Seq<ItemView>,
)
    ensures
        p.browser is None ==> p.arrived(visit, entries) == p,
        p.browser is Some ==> {
            let after = p.arrived(visit, entries);
            &&& after.browser is Some
            &&& after.browser->0.cwd == visit.dir
            &&& after.browser->0.items == browse::listed(entries)
            &&& after.browser->0.back == visit.back && after.browser->0.ahead == visit.ahead
            &&& after == (PickerView { browser: after.browser, ..p })
        },
{
}

/// A preview is read anew exactly where it shows another directory, or none.
pub proof fn a_preview_of_another_directory_is_stale(p: PickerView, dir: LocationView)
    ensures
        p.preview is None ==> p.preview_stale(dir),
        p.preview is Some ==> p.preview_stale(dir) == (p.preview->0.dir != dir),
{
}

/// An item is called by its last name, and by its whole path where it has
/// none.
pub proof fn an_item_is_called_by_its_name(p: PickerView, dir: LocationView, name: Seq<char>)
    ensures
        name != "."@ && name != ".."@ ==> p.called(key_laws::below(dir, name)) == name,
        dir.parts.len() == 0 ==> p.called(dir) == dir.anchor,
{
    if dir.parts.len() == 0 {
        assert(dir.display(p.platform) =~= dir.anchor);
    }
}

/// A pin that was set and one that was taken away are told apart, by the path.
pub proof fn a_pin_is_told_by_its_path(path: Seq<char>)
    ensures
        crate::replies::pin_notice(path, true) == "Pinned: "@ + path,
        crate::replies::pin_notice(path, false) == "Unpinned: "@ + path,
{
    reveal_strlit("Pinned");
    reveal_strlit("Unpinned");
    reveal_strlit(": ");
    reveal_strlit("Pinned: ");
    reveal_strlit("Unpinned: ");
    assert("Pinned"@ + ": "@ =~= "Pinned: "@);
    assert("Unpinned"@ + ": "@ =~= "Unpinned: "@);
}

/// A picker opens with nothing typed, nothing selected, no menu and no
/// browser, in the mode and the root asked for.
pub proof fn a_picker_opens_empty(
    mode: Mode,
    root: LocationView,
    config: crate::config::ConfigView,
    pinned: Set<Seq<char>>,
    notice: Option<Seq<char>>,
    platform: crate::paths::Platform,
    other: Mode,
)
    ensures
        ({
            let p = PickerView::opened(mode, root, config, pinned, notice, platform);
            &&& p.mode == mode && p.root == root && p.config == config && p.pinned == pinned
                && p.notice == notice && p.platform == platform
            &&& p.query.len() == 0
            &&& p.sources[other.index()] is None
            &&& p.browser is None && p.menu is None && p.preview is None && p.last_click is None
            &&& p.clicks_blocked_until is None && p.notice_until is None
        }),
{
}

/// What changes the screen has it drawn; a drawing leaves nothing to draw, and
/// while events wait nothing is drawn and nothing is forgotten.
pub proof fn changes_are_drawn_and_not_forgotten(
    pace: crate::session::Pace,
    tick: crate::session::Tick,
)
    ensures
        pace.after_touch().dirty,
        tick.finished || tick.changed || tick.running || tick.busy ==> pace.after_tick(tick).dirty,
        pace.dirty ==> pace.after_tick(tick).dirty,
        pace.after_turn(true) == pace,
        !pace.after_turn(false).dirty,
{
}

/// Letting a button go, and anything else the mouse does but pressing and
/// turning its wheel, asks for nothing and moves no cursor. Letting the left
/// one go does not break a double click.
pub proof fn letting_go_does_nothing(
    p: PickerView,
    mouse: MouseEvent,
    entry: Option<scan::EntryView>,
    under: Option<scan::EntryView>,
    now: u64,
)
    requires
        p.wf(),
        p.menu is None,
        p.config.mouse,
        mouse.kind is Up || mouse.kind is Other,
        p.mode is Browse || p.sources[p.mode.index()] is Some,
    ensures
        ({
            let (after, task) = p.stepped(Event::Mouse(mouse), entry, under, now);
            &&& task == TaskView::Nothing
            &&& mouse.kind == MouseKind::Up(MouseButton::Left) ==> after == p
            &&& after == (PickerView { last_click: after.last_click, ..p })
            &&& mouse.kind != MouseKind::Up(MouseButton::Left) ==> after.last_click is None
        }),
{
}

/// The wheel turns the list and nothing else, wherever in its rows the pointer
/// is, and forgets the last click.
pub proof fn the_wheel_turns_the_list(
    p: PickerView,
    mouse: MouseEvent,
    entry: Option<scan::EntryView>,
    under: Option<scan::EntryView>,
    now: u64,
)
    requires
        p.wf(),
        p.menu is None,
        p.config.mouse,
        mouse.kind is ScrollUp || mouse.kind is ScrollDown,
        p.mode is Browse,
        p.targets.rows.holds(mouse.column, mouse.row),
        p.targets.count == p.browser->0.rows.len(),
        p.browser->0.selected < p.browser->0.rows.len(),
    ensures
        ({
            let (after, task) = p.stepped(Event::Mouse(mouse), entry, under, now);
            let b = p.browser->0;
            &&& task == TaskView::Nothing
            &&& after == (PickerView {
                last_click: None,
                browser: Some(BrowserView { selected: after.browser->0.selected, ..b }),
                ..p
            })
            &&& mouse.kind is ScrollUp && b.selected >= 3 ==> after.browser->0.selected
                == b.selected - 3
            &&& mouse.kind is ScrollUp && b.selected < 3 ==> after.browser->0.selected == 0
            &&& mouse.kind is ScrollDown && b.selected + 3 < b.rows.len()
                ==> after.browser->0.selected == b.selected + 3
            &&& mouse.kind is ScrollDown && b.selected + 3 >= b.rows.len()
                ==> after.browser->0.selected == b.rows.len() - 1
        }),
{
}

/// Only presses are kept away after the screen was replaced; what the wheel
/// does, and a press once the time is up, goes through.
pub proof fn what_counts_as_a_press(mouse: MouseEvent)
    ensures
        mouse.kind is Down ==> mouse.pressed(),
        mouse.kind is Up || mouse.kind is ScrollUp || mouse.kind is ScrollDown || mouse.kind is Other
            ==> !mouse.pressed(),
{
}

/// A click that hits no place, no button, no step and no tab falls on the list;
/// a right click passes over buttons, steps and tabs, and a middle one does
/// nothing anywhere.
pub proof fn what_else_a_click_reaches(
    p: PickerView,
    mouse: MouseEvent,
    entry: Option<scan::EntryView>,
    under: Option<scan::EntryView>,
    now: u64,
)
    requires
        p.wf(),
        p.menu is None,
        p.config.mouse,
        p.clicks_blocked_until is None,
        PickerView::spot_at(p.targets.paths, mouse, 0) is None,
        p.mode is Browse || p.sources[p.mode.index()] is Some,
    ensures
        ({
            let out = p.stepped(Event::Mouse(mouse), entry, under, now);
            let hit = PickerView::button_at(p.targets.nav, mouse, 0) is Some || PickerView::spot_at(
                p.targets.crumbs,
                mouse,
                0,
            ) is Some || p.targets.header.holds(mouse.column, mouse.row) && PickerView::tab_at(
                mouse.column,
                p.targets.modes_x as int,
                0,
            ) is Some;
            &&& mouse.kind == MouseKind::Down(MouseButton::Left) && !hit ==> out == p.list_moused(
                mouse,
                under,
                now,
            )
            &&& mouse.kind == MouseKind::Down(MouseButton::Right) ==> out == (PickerView {
                last_click: None,
                ..p
            }).list_moused(mouse, under, now)
            &&& mouse.kind == MouseKind::Down(MouseButton::Middle) ==> out == (
                PickerView { last_click: None, ..p },
                TaskView::Nothing,
            )
        }),
{
}

/// A moment later is so many milliseconds on, as far as they can be counted.
pub proof fn later_is_so_many_milliseconds_on(now: u64, delay: u64)
    ensures
        now + delay <= u64::MAX ==> crate::picker::later(now, delay) == now + delay,
        now + delay > u64::MAX ==> crate::picker::later(now, delay) == u64::MAX,
{
}

} // verus!
