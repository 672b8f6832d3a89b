//! What the picker keeps to, whatever is typed and clicked.
use crate::browse;
use crate::cli::Mode;
use crate::keys::{KeyCode, KeyEvent, MouseButton, MouseEvent, MouseKind};
use crate::menu;
use crate::paint;
use crate::paint::{BrowseAreas, SearchAreas};
use crate::paths;
use crate::paths::Platform;
use crate::picker;
use crate::picker::{PickerView, TaskView};
use crate::scan;
use crate::screen::Rect;
use crate::text;
use vstd::prelude::*;

verus! {

/// Escape first clears what is typed, and only then leaves the picker.
pub proof fn escape_clears_before_it_leaves(
    p: PickerView,
    escape: KeyEvent,
    entry: Option<scan::EntryView>,
)
    requires
        p.wf(),
        p.menu is None,
        escape.code is Esc,
    ensures
        p.typed().len() == 0 ==> p.keyed(escape, entry).1 == TaskView::Cancel,
        p.typed().len() > 0 ==> {
            let cleared = p.keyed(escape, entry);
            &&& !(cleared.1 is Cancel)
            &&& cleared.0.typed().len() == 0
            &&& cleared.0.mode == p.mode
            &&& cleared.0.keyed(escape, entry).1 == TaskView::Cancel
        },
{
}

/// Control-C leaves the picker at once, whatever is typed.
pub proof fn control_c_leaves_at_once(p: PickerView, key: KeyEvent, entry: Option<scan::EntryView>)
    requires
        p.wf(),
        p.menu is None,
        key.code == KeyCode::Char('c'),
        key.modifiers.control,
    ensures
        p.keyed(key, entry) == (crate::key_laws::settled(p), TaskView::Cancel),
{
}

/// A character pressed with Alt reaches neither the query nor the filter.
pub proof fn alt_characters_are_not_typed(
    p: PickerView,
    key: KeyEvent,
    entry: Option<scan::EntryView>,
)
    requires
        p.wf(),
        p.menu is None,
        key.code is Char,
        key.modifiers.alt,
        !key.modifiers.control,
    ensures
        p.keyed(key, entry).0.typed() == p.typed(),
        p.keyed(key, entry).1 == TaskView::Nothing,
{
}

/// A plain character is added to the end of what is typed.
pub proof fn plain_characters_are_typed(
    p: PickerView,
    key: KeyEvent,
    entry: Option<scan::EntryView>,
)
    requires
        p.wf(),
        p.menu is None,
        key.code is Char,
        key.types(),
    ensures
        p.keyed(key, entry).0.typed() == p.typed().push(key.code->Char_0),
{
}

/// A press left over from the screen before does nothing at all. Wheel and
/// release events are not held back.
pub proof fn leftover_clicks_do_nothing(
    p: PickerView,
    mouse: MouseEvent,
    entry: Option<scan::EntryView>,
    under: Option<scan::EntryView>,
    shown: u64,
    now: u64,
)
    requires
        mouse.pressed(),
        now < picker::later(shown, picker::CLICK_GUARD),
    ensures
        p.guarding(shown).moused(mouse, entry, under, now) == (
            p.guarding(shown),
            TaskView::Nothing,
        ),
        p.guarding(shown).stepped(picker::Event::Mouse(mouse), entry, under, now) == (
            p.guarding(shown),
            TaskView::Nothing,
        ),
{
}

/// Once the guard's time has passed, a click does what it would have done
/// without it.
pub proof fn the_guard_ends(
    p: PickerView,
    mouse: MouseEvent,
    entry: Option<scan::EntryView>,
    under: Option<scan::EntryView>,
    until: u64,
    now: u64,
)
    requires
        p.clicks_blocked_until is None,
        mouse.pressed(),
        until <= now,
    ensures
        ({
            let guarded = PickerView { clicks_blocked_until: Some(until), ..p };
            p.config.mouse && p.menu is None ==> guarded.moused(mouse, entry, under, now)
                == p.moused(mouse, entry, under, now)
        }),
{
    let guarded = PickerView { clicks_blocked_until: Some(until), ..p };
    assert(guarded.past_guard(now) == p);
    assert(p.past_guard(now) == p);
}

/// With the mouse turned off, it does nothing.
pub proof fn mouse_can_be_turned_off(
    p: PickerView,
    mouse: MouseEvent,
    entry: Option<scan::EntryView>,
    under: Option<scan::EntryView>,
    now: u64,
)
    requires
        !p.config.mouse,
    ensures
        p.moused(mouse, entry, under, now) == (p, TaskView::Nothing),
{
}

/// Leaving the browser for another mode and coming back finds it as it was:
/// in the same directory, with the same filter and selection. Meanwhile the
/// search starts in the browser's directory.
pub proof fn switching_modes_restores_the_browser(
    p: PickerView,
    step: int,
    entry: Option<scan::EntryView>,
    later: Option<scan::EntryView>,
)
    requires
        p.wf(),
        p.mode is Browse,
        !(p.mode.further(step) is Browse),
    ensures
        ({
            let away = p.switched(step, entry).0;
            let back = away.switched(-step, later).0;
            &&& away.mode == p.mode.further(step)
            &&& away.root == p.browser->0.cwd
            &&& away.browser == p.browser
            &&& back.mode is Browse
            &&& back.browser == p.browser
        }),
{
    crate::cli::stepping_through_the_modes_wraps_both_ways(p.mode, step);
}

/// A message about a failure stays until something else is done; a
/// confirmation goes once its time is up and not before.
pub proof fn failures_stay_and_confirmations_go(
    p: PickerView,
    text: Seq<char>,
    shown: u64,
    now: u64,
)
    ensures
        !p.noticed(text).notice_due(now),
        p.confirmed(text, shown).notice_due(now) <==> now >= picker::later(
            shown,
            picker::NOTICE_LINGER,
        ),
{
}

/// Two clicks on the same row within the time of a double click go into the
/// directory in it; the first alone only selects it.
pub proof fn double_click_goes_in(p: PickerView, mouse: MouseEvent, first: u64, second: u64)
    requires
        p.wf(),
        p.mode is Browse,
        p.browser->0.current_path() is Some,
        !p.doubled(p.browser->0.current_path()->0, mouse, first),
        first <= second,
    ensures
        ({
            let once = p.row_clicked(mouse, first);
            let twice = once.0.row_clicked(mouse, second);
            &&& once.1 == TaskView::Nothing
            &&& once.0.browser == p.browser
            &&& second - first <= picker::DOUBLE_CLICK ==> twice.1 == PickerView::going(
                p.browser->0.inward(),
            )
            &&& second - first > picker::DOUBLE_CLICK ==> twice.1 == TaskView::Nothing
        }),
{
}

/// A click on a tab shows that tab's mode, whichever was shown before, unless
/// the browser has to be opened first.
pub proof fn clicking_a_tab_shows_its_mode(
    p: PickerView,
    tab: int,
    entry: Option<scan::EntryView>,
)
    requires
        p.wf(),
        0 <= tab < 5,
    ensures
        ({
            let out = p.switched(tab - p.mode.index(), entry);
            out.0.mode == Mode::nth(tab) || (Mode::nth(tab) is Browse && p.browser is None
                && out.1 is OpenBrowser)
        }),
{
}

/// A step of the modes keeps the query, the pins and the settings.
pub proof fn switching_modes_keeps_the_query(
    p: PickerView,
    step: int,
    entry: Option<scan::EntryView>,
)
    ensures
        p.switched(step, entry).0.query == p.query,
        p.switched(step, entry).0.pinned == p.pinned,
        p.switched(step, entry).0.config == p.config,
{
}

/// While the menu is open no key reaches what is behind it.
pub proof fn the_menu_takes_every_key(p: PickerView, key: KeyEvent, entry: Option<scan::EntryView>)
    requires
        p.menu is Some,
    ensures
        ({
            let out = p.keyed(key, entry).0;
            &&& out.mode == p.mode
            &&& out.query == p.query
            &&& out.browser == p.browser
            &&& out.sources == p.sources
            &&& out.root == p.root
            &&& out.preview == p.preview
        }),
{
}

/// What is chosen in a search of files is the directory that the file is in.
pub proof fn files_stand_for_their_directory(dir: paths::LocationView, name: Seq<char>, display: Seq<char>)
    ensures
        picker::output(scan::EntryView { path: dir.child(name), display }, Mode::Files) == dir,
        picker::output(scan::EntryView { path: dir, display }, Mode::Dirs) == dir,
{
    assert(dir.child(name).parts.drop_last() =~= dir.parts);
}

/// A place that is printed does not end in a separator, unless it is a root.
pub proof fn a_printed_place_has_no_trailing_separator(place: paths::LocationView, platform: Platform)
    requires
        place.parts.len() > 0,
        place.parts.last().len() > 0,
        !place.parts.last().contains(platform.sep()),
    ensures
        place.display(platform).len() > 0,
        place.display(platform).last() != platform.sep(),
{
    let joined = text::joined(place.parts, seq![platform.sep()]);
    let last = place.parts.last();
    assert(last.contains(last.last()));
    assert(joined.len() >= last.len() && joined.last() == last.last());
}

/// The names of two stretches of a path read one after the other.
proof fn lemma_joined_parts(front: Seq<Seq<char>>, back: Seq<Seq<char>>, between: Seq<char>)
    requires
        front.len() > 0,
        back.len() > 0,
    ensures
        text::joined(front + back, between) == text::joined(front, between) + between
            + text::joined(back, between),
    decreases back.len(),
{
    assert((front + back).drop_last() =~= front + back.drop_last());
    assert((front + back).last() == back.last());
    if back.len() == 1 {
        assert(front + back.drop_last() =~= front);
        assert(back.last() == back[0]);
    } else {
        lemma_joined_parts(front, back.drop_last(), between);
        assert(text::joined(front, between) + between + text::joined(back.drop_last(), between)
            + between + back.last() =~= text::joined(front, between) + between + (text::joined(
            back.drop_last(),
            between,
        ) + between + back.last()));
    }
}

/// What is shown of a candidate is its path from the root on: the root, a
/// separator and what is shown read as the path that is printed. A root
/// directory brings its own separator.
pub proof fn candidates_are_shown_from_the_root_on(
    root: paths::LocationView,
    path: paths::LocationView,
    depth: usize,
    is_dir: Option<bool>,
    mode: Mode,
    platform: Platform,
)
    requires
        scan::candidate(root, path, depth, is_dir, mode, platform) is Some,
        path.parts.len() > root.parts.len(),
    ensures
        ({
            let entry = scan::candidate(root, path, depth, is_dir, mode, platform)->0;
            &&& entry.path == path
            &&& root.parts.len() > 0 ==> path.display(platform) == root.display(platform)
                + seq![platform.sep()] + entry.display
            &&& root.parts.len() == 0 ==> path.display(platform) == root.display(platform)
                + entry.display
        }),
{
    let between = seq![platform.sep()];
    let below = path.parts.skip(root.parts.len() as int);
    assert(root.parts + below =~= path.parts);
    let entry = scan::candidate(root, path, depth, is_dir, mode, platform)->0;
    assert(entry.display =~= text::joined(below, between));
    if root.parts.len() > 0 {
        lemma_joined_parts(root.parts, below, between);
        assert(path.display(platform) =~= root.display(platform) + between + entry.display);
    } else {
        assert(below =~= path.parts);
        assert(root.display(platform) =~= root.anchor);
        assert(path.display(platform) =~= root.display(platform) + entry.display);
    }
}

/// Drawing changes nothing but what the mouse can hit and the spinner.
pub proof fn drawing_only_lays_out_what_can_be_clicked(
    p: PickerView,
    area: Rect,
    areas: BrowseAreas,
    parent: Seq<browse::ItemView>,
    is_dir: bool,
    parts: SearchAreas,
    found: paint::FindingsView,
)
    ensures
        (PickerView { targets: p.targets, ..p.browse_drawn(area, areas, parent, is_dir) }) == p,
        (PickerView {
            targets: p.targets,
            frame_count: p.frame_count,
            ..p.search_drawn(parts, found)
        }) == p,
{
}

/// A click in the list selects the row that is drawn under the pointer.
pub proof fn a_click_selects_the_row_drawn_there(
    p: PickerView,
    area: Rect,
    areas: BrowseAreas,
    parent: Seq<browse::ItemView>,
    is_dir: bool,
    mouse: MouseEvent,
    now: u64,
)
    requires
        p.wf(),
        p.mode is Browse,
        p.browser->0.rows.len() <= usize::MAX,
        mouse.kind == MouseKind::Down(MouseButton::Left),
        areas.current.holds(mouse.column, mouse.row),
        mouse.row - areas.current.y < p.current_rows(areas.current).len(),
    ensures
        ({
            let k = mouse.row - areas.current.y;
            let row = p.current_first(areas.current.height) + k;
            let drawn = p.browse_drawn(area, areas, parent, is_dir);
            &&& p.current_rows(areas.current)[k] == p.current_row(row, areas.current.width)
            &&& drawn.list_moused(mouse, None, now).0.browser->0.selected == row
        }),
{
}

/// A click on the blank below the rows does nothing.
pub proof fn a_click_below_the_rows_does_nothing(
    p: PickerView,
    area: Rect,
    areas: BrowseAreas,
    parent: Seq<browse::ItemView>,
    is_dir: bool,
    mouse: MouseEvent,
    now: u64,
)
    requires
        p.wf(),
        p.mode is Browse,
        p.browser->0.rows.len() <= usize::MAX,
        mouse.kind == MouseKind::Down(MouseButton::Left),
        areas.current.holds(mouse.column, mouse.row),
        mouse.row - areas.current.y >= p.current_rows(areas.current).len(),
    ensures
        ({
            let drawn = p.browse_drawn(area, areas, parent, is_dir);
            drawn.list_moused(mouse, None, now) == (drawn, TaskView::Nothing)
        }),
{
}

/// A click in a list of candidates selects the one that is drawn under the
/// pointer.
pub proof fn a_click_selects_the_candidate_drawn_there(
    p: PickerView,
    areas: SearchAreas,
    found: paint::FindingsView,
    mouse: MouseEvent,
    now: u64,
)
    requires
        p.wf(),
        !(p.mode is Browse),
        p.lists(areas, found),
        found.candidates.len() == p.sourced().list_end(areas, found.count)
            - p.sourced().list_first(areas, found.count),
        forall|k: int|
            0 <= k < found.candidates.len() ==> (#[trigger] found.candidates[k]).row
                == p.sourced().list_first(areas, found.count) + k,
        mouse.kind == MouseKind::Down(MouseButton::Left),
        areas.rows.holds(mouse.column, mouse.row),
        mouse.row - areas.rows.y < found.candidates.len(),
    ensures
        ({
            let drawn = p.sourced().search_drawn(areas, found);
            let after = drawn.list_moused(mouse, None, now);
            after.0.source_here()->0.selected == found.candidates[mouse.row - areas.rows.y].row
        }),
{
    let first = p.sourced().list_first(areas, found.count);
    assert(found.candidates[mouse.row - areas.rows.y].row == first + (mouse.row - areas.rows.y));
}

/// What a border leaves of an area lies within the area.
proof fn lemma_border_inside(area: Rect, part: Rect)
    requires
        area.countable(),
        part.inside(area.within_border()),
    ensures
        part.inside(area),
{
}

/// The browser draws nothing outside its window, and puts the cursor in it.
pub proof fn the_browser_stays_in_its_window(
    p: PickerView,
    area: Rect,
    areas: BrowseAreas,
    parent: Seq<browse::ItemView>,
    is_dir: bool,
)
    requires
        area.countable(),
        paint::browse_shared(area, areas),
    ensures
        p.browse_picture(area, areas, parent, is_dir).stays_in(area),
        match p.browse_picture(area, areas, parent, is_dir).cursor {
            Some((x, y)) => area.holds(x, y),
            None => true,
        },
{
    let columns = choose|columns: Rect| #[trigger]
        paint::lined_up(area.within_border(), areas.prompt, areas.info, areas.header, columns)
            && areas.columned(columns);
    lemma_border_inside(area, areas.prompt);
    lemma_border_inside(area, areas.info);
    lemma_border_inside(area, areas.header);
    lemma_border_inside(area, areas.parent);
    lemma_border_inside(area, areas.left_bar);
    lemma_border_inside(area, areas.current);
    lemma_border_inside(area, areas.right_bar);
    lemma_border_inside(area, areas.preview);
}

/// A search draws nothing outside its window.
pub proof fn a_search_stays_in_its_window(
    p: PickerView,
    area: Rect,
    areas: SearchAreas,
    found: paint::FindingsView,
)
    requires
        area.countable(),
        paint::search_shared(area, areas),
    ensures
        p.search_picture(areas, found).stays_in(area),
{
    lemma_border_inside(areas.list, areas.prompt);
    lemma_border_inside(areas.list, areas.info);
    lemma_border_inside(areas.list, areas.header);
    lemma_border_inside(areas.list, areas.rows);
    if areas.preview is Some {
        lemma_border_inside(areas.preview->0, areas.preview->0.within_border());
    }
}

/// The menu draws nothing outside its window.
pub proof fn the_menu_stays_in_its_window(
    m: menu::MenuView,
    area: Rect,
    target: Rect,
    prompt: Rect,
    warning: Rect,
    rows: Rect,
    platform: Platform,
)
    requires
        area.countable(),
        m.shared(area, target, prompt, warning, rows),
    ensures
        m.picture(area, target, prompt, warning, rows, platform).stays_in(area),
{
    lemma_border_inside(area, target);
    lemma_border_inside(area, prompt);
    lemma_border_inside(area, warning);
    lemma_border_inside(area, rows);
}

} // verus!
