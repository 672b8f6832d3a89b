//! What each key does, whatever the mode and the state of the picker.
use crate::browse;
use crate::browse::BrowserView;
use crate::cli::{Mode, MODES};
use crate::keys::{KeyCode, KeyEvent};
use crate::paths::LocationView;
use crate::picker::{Event, PickerView, Source, TaskView};
use crate::scan;
use crate::text;
use vstd::prelude::*;

verus! {

/// The picker with its message and the memory of the last click gone, and
/// nothing else changed.
pub open spec fn settled(p: PickerView) -> PickerView {
    PickerView { last_click: None, notice: None, notice_until: None, ..p }
}

/// The sources of two states agree but for one mode.
pub open spec fn agree_but_for(a: PickerView, b: PickerView, mode: Mode) -> bool {
    &&& a.sources.len() == b.sources.len()
    &&& forall|i: int| 0 <= i < a.sources.len() && i != mode.index() ==> a.sources[i] == b.sources[i]
}

/// The place one name below another.
pub open spec fn below(dir: LocationView, name: Seq<char>) -> LocationView {
    LocationView { anchor: dir.anchor, parts: dir.parts.push(name) }
}

/// A key that is held down acts; one that is let go does nothing.
pub proof fn only_a_press_acts(
    p: PickerView,
    key: KeyEvent,
    entry: Option<scan::EntryView>,
    under: Option<scan::EntryView>,
    now: u64,
    rows: u16,
)
    ensures
        key.release ==> p.stepped(Event::Key(key), entry, under, now) == (p, TaskView::Nothing),
        !key.release ==> p.stepped(Event::Key(key), entry, under, now) == p.keyed(key, entry),
        p.stepped(Event::Resize(rows), entry, under, now) == (p, TaskView::Resize(rows)),
        p.stepped(Event::Other, entry, under, now) == (p, TaskView::Nothing),
{
}

/// Control-P opens the menu for the item under the cursor: the path of the
/// candidate there in every mode that lists candidates, and the place of the
/// selected row while browsing. Only where nothing is selected it is for the
/// root of the search, or the directory that is browsed.
pub proof fn control_p_opens_the_menu_for_the_item(
    p: PickerView,
    key: KeyEvent,
    entry: Option<scan::EntryView>,
)
    requires
        p.menu is None,
        key.code == KeyCode::Char('p'),
        key.modifiers.control,
    ensures
        p.keyed(key, entry).0 == settled(p),
        !(p.mode is Browse) && entry is Some ==> p.keyed(key, entry).1 == TaskView::OpenMenu(
            entry->0.path,
        ),
        !(p.mode is Browse) && entry is None ==> p.keyed(key, entry).1 == TaskView::OpenMenu(p.root),
        p.mode is Browse ==> ({
            let b = p.browser->0;
            p.keyed(key, entry).1 == TaskView::OpenMenu(
                if b.selected < b.rows.len() {
                    below(b.cwd, b.items[b.rows[b.selected as int].index as int].name)
                } else {
                    b.cwd
                },
            )
        }),
{
}

/// Control-O shows the item under the cursor in the file manager and Control-E
/// opens it: the candidate itself, the selected row while browsing, or the
/// browsed directory where no row is. Without an item they do nothing.
pub proof fn control_o_and_e_act_on_the_item(
    p: PickerView,
    key: KeyEvent,
    entry: Option<scan::EntryView>,
)
    requires
        p.menu is None,
        key.code == KeyCode::Char('o') || key.code == KeyCode::Char('e'),
        key.modifiers.control,
    ensures
        p.keyed(key, entry).0 == settled(p),
        ({
            let b = p.browser->0;
            let item = if p.mode is Browse {
                if b.selected < b.rows.len() {
                    Some(below(b.cwd, b.items[b.rows[b.selected as int].index as int].name))
                } else {
                    Some(b.cwd)
                }
            } else if entry is Some {
                Some(entry->0.path)
            } else {
                None
            };
            &&& item is None ==> p.keyed(key, entry).1 == TaskView::Nothing
            &&& item is Some && key.code == KeyCode::Char('o') ==> p.keyed(key, entry).1
                == TaskView::Reveal(item->0)
            &&& item is Some && key.code == KeyCode::Char('e') ==> p.keyed(key, entry).1
                == TaskView::Launch(item->0)
        }),
{
}

/// Control-B turns over the pin of a directory: the selected one, the one a
/// selected file is in, or the browsed one where no directory is selected.
/// Without a candidate it says so and pins nothing.
pub proof fn control_b_pins_a_directory(
    p: PickerView,
    key: KeyEvent,
    entry: Option<scan::EntryView>,
)
    requires
        p.menu is None,
        key.code == KeyCode::Char('b'),
        key.modifiers.control,
    ensures
        !(p.mode is Browse) && entry is None ==> {
            let (after, task) = p.keyed(key, entry);
            &&& task == TaskView::Nothing
            &&& after.notice is Some && after.notice_until is None
            &&& after == (PickerView { notice: after.notice, ..settled(p) })
        },
        p.mode is Browse || entry is Some ==> p.keyed(key, entry).0 == settled(p),
        entry is Some && (p.mode is Dirs || p.mode is Recent || p.mode is Favorites) ==> p.keyed(
            key,
            entry,
        ).1 == TaskView::TogglePin(entry->0.path),
        entry is Some && p.mode is Files && entry->0.path.parts.len() > 0 ==> p.keyed(key, entry).1
            == TaskView::TogglePin(
            LocationView {
                anchor: entry->0.path.anchor,
                parts: entry->0.path.parts.take(entry->0.path.parts.len() - 1),
            },
        ),
        p.mode is Browse ==> ({
            let b = p.browser->0;
            let item = b.items[b.rows[b.selected as int].index as int];
            p.keyed(key, entry).1 == TaskView::TogglePin(
                if b.selected < b.rows.len() && item.is_dir {
                    below(b.cwd, item.name)
                } else {
                    b.cwd
                },
            )
        }),
{
    if entry is Some && entry->0.path.parts.len() > 0 {
        let parts = entry->0.path.parts;
        assert(parts.drop_last() =~= parts.take(parts.len() - 1));
    }
}

/// Enter accepts the selection in every mode and changes nothing.
pub proof fn enter_accepts_the_selection(
    p: PickerView,
    key: KeyEvent,
    entry: Option<scan::EntryView>,
)
    requires
        p.menu is None,
        key.code is Enter,
    ensures
        p.keyed(key, entry) == (settled(p), TaskView::Accept),
{
}

/// Escape empties what is typed, and leaves only where nothing is: the search
/// forgets its query and starts at the first candidate, the browser its filter.
pub proof fn escape_empties_what_is_typed(
    p: PickerView,
    key: KeyEvent,
    entry: Option<scan::EntryView>,
)
    requires
        p.wf(),
        p.menu is None,
        key.code is Esc,
    ensures
        !(p.mode is Browse) && p.query.len() == 0 ==> p.keyed(key, entry) == (
            settled(p),
            TaskView::Cancel,
        ),
        p.mode is Browse && p.browser->0.filter.len() == 0 ==> p.keyed(key, entry) == (
            settled(p),
            TaskView::Cancel,
        ),
        !(p.mode is Browse) && p.query.len() > 0 ==> {
            let (after, task) = p.keyed(key, entry);
            &&& after.query.len() == 0
            &&& task == TaskView::Requery(false)
            &&& after.sources[p.mode.index()] is Some
            &&& after.sources[p.mode.index()]->0.selected == 0
        },
        p.mode is Browse && p.browser->0.filter.len() > 0 ==> {
            let (after, task) = p.keyed(key, entry);
            &&& after.browser->0.filter.len() == 0
            &&& after.query == p.query
            &&& task == TaskView::Nothing
        },
{
    if !(p.mode is Browse) && p.query.len() > 0 {
        assert(!text::begins(Seq::empty(), p.query));
    }
}

/// The modes follow one another in the order of their tabs, and the last is
/// followed by the first.
pub proof fn tab_goes_through_the_modes_in_order(mode: Mode)
    ensures
        Mode::Dirs.further(1) == Mode::Files,
        Mode::Files.further(1) == Mode::Recent,
        Mode::Recent.further(1) == Mode::Favorites,
        Mode::Favorites.further(1) == Mode::Browse,
        Mode::Browse.further(1) == Mode::Dirs,
        mode.further(1).further(-1) == mode,
        mode.further(-1).further(1) == mode,
        mode.further(0) == mode,
{
}

/// A step to a mode by its distance among the tabs leads to that mode.
pub proof fn a_step_leads_to_the_mode_asked_for(mode: Mode, other: Mode)
    ensures
        mode.further(other.index() - mode.index()) == other,
        Mode::nth(mode.index()) == mode,
        0 <= mode.index() < MODES,
        mode.index() == other.index() ==> mode == other,
{
}

/// Tab shows the next mode and the reverse the one before. The first time the
/// browser is shown it opens at the selected directory instead.
pub proof fn tab_shows_the_next_mode(p: PickerView, key: KeyEvent, entry: Option<scan::EntryView>)
    requires
        p.wf(),
        p.menu is None,
        key.code is Tab || key.code is BackTab,
    ensures
        ({
            let (after, task) = p.keyed(key, entry);
            let next = if key.code is Tab {
                p.mode.further(1)
            } else {
                p.mode.further(-1)
            };
            &&& next is Browse && p.browser is None ==> after == settled(p) && task is OpenBrowser
            &&& next is Browse && p.browser is None && entry is None ==> task
                == TaskView::OpenBrowser(None)
            &&& next is Browse && p.browser is None && entry is Some && !(p.mode is Files) ==> task
                == TaskView::OpenBrowser(Some(entry->0.path))
            &&& !(next is Browse && p.browser is None) ==> after.mode == next
            &&& !(next is Browse && p.browser is None) && next is Favorites ==> task
                == TaskView::ReloadPins
            &&& !(next is Browse && p.browser is None) && !(next is Favorites) ==> task
                == TaskView::Nothing
            &&& after.query == p.query && after.browser == p.browser && after.pinned == p.pinned
                && after.config == p.config && after.menu is None && after.targets == p.targets
        }),
{
}

/// What showing another mode changes: leaving the browser takes the root of
/// the search along to the browsed directory, and a new root has every mode
/// read again. Coming from a search nothing moves and the other modes keep what
/// they have; the mode that is shown keeps it too, unless it shows the pins,
/// which are always read again. A mode shown for the first time starts at its
/// first candidate.
pub proof fn showing_a_mode_keeps_the_others(
    p: PickerView,
    step: int,
    entry: Option<scan::EntryView>,
)
    requires
        p.wf(),
        p.mode.further(step) != p.mode,
        !(p.mode.further(step) is Browse),
    ensures
        ({
            let (after, task) = p.switched(step, entry);
            let next = p.mode.further(step);
            let here = after.sources[next.index()];
            &&& !(p.mode is Browse) ==> after.root == p.root && agree_but_for(after, p, next)
                && after.preview == p.preview
            &&& p.mode is Browse ==> after.root == p.browser->0.cwd
            &&& p.mode is Browse && p.browser->0.cwd == p.root ==> agree_but_for(after, p, next)
                && after.preview == p.preview
            &&& p.mode is Browse && p.browser->0.cwd != p.root ==> after.preview is None && forall|
                i: int,
            |
                0 <= i < MODES && i != next.index() ==> after.sources[i] is None
            &&& here is Some
            &&& next is Favorites || after.root != p.root || p.sources[next.index()] is None ==> here
                == Some(Source { selected: 0, query_empty: p.query.len() == 0, fresh: true })
            &&& !(next is Favorites) && after.root == p.root && p.sources[next.index()] is Some
                ==> here == p.sources[next.index()]
            &&& after.mode == next
            &&& after.query == p.query
            &&& after.browser == p.browser
        }),
{
}

/// Coming back to the browser changes nothing but the mode.
pub proof fn coming_back_to_the_browser(p: PickerView, step: int, entry: Option<scan::EntryView>)
    requires
        !(p.mode is Browse),
        p.mode.further(step) is Browse,
        p.browser is Some,
    ensures
        p.switched(step, entry) == (PickerView { mode: Mode::Browse, ..p }, TaskView::Nothing),
{
}

/// F5 has the pins and what is listed read again. The browser stays where it
/// is; a search starts again at its first candidate and keeps its query.
pub proof fn f5_reads_everything_again(
    p: PickerView,
    key: KeyEvent,
    entry: Option<scan::EntryView>,
)
    requires
        p.wf(),
        p.menu is None,
        key.code == KeyCode::F(5),
    ensures
        ({
            let (after, task) = p.keyed(key, entry);
            &&& after.preview is None
            &&& p.mode is Browse ==> after == (PickerView { preview: None, ..settled(p) })
            &&& p.mode is Browse ==> task is Refresh && task->Refresh_0 is Some
                && task->Refresh_0->0.dir == p.browser->0.cwd && task->Refresh_0->0.keep_filter
            &&& !(p.mode is Browse) ==> task == TaskView::Refresh(None)
            &&& !(p.mode is Browse) ==> after.sources[p.mode.index()] == Some(
                Source { selected: 0, query_empty: p.query.len() == 0, fresh: true },
            ) && agree_but_for(after, p, p.mode)
            &&& after == (PickerView { preview: None, sources: after.sources, ..settled(p) })
        }),
{
}

/// While browsing, the keys for left go to the directory above and those for
/// right into the selected one; where there is none they do nothing. Nothing
/// else changes before the directory is read.
pub proof fn left_and_right_walk_the_tree(
    p: PickerView,
    key: KeyEvent,
    entry: Option<scan::EntryView>,
)
    requires
        p.wf(),
        p.menu is None,
        p.mode is Browse,
        !key.modifiers.alt,
    ensures
        ({
            let (after, task) = p.keyed(key, entry);
            let b = p.browser->0;
            let item = b.items[b.rows[b.selected as int].index as int];
            let up = key.code is Left || key.code == KeyCode::Char('h') && key.modifiers.control
                || key.code is Backspace && b.filter.len() == 0;
            let inward = key.code is Right || key.code == KeyCode::Char('l')
                && key.modifiers.control;
            &&& up || inward ==> after == settled(p)
            &&& up && b.cwd.parts.len() > 0 ==> task is Read && task->Read_0.dir.anchor
                == b.cwd.anchor && task->Read_0.dir.parts == b.cwd.parts.take(
                b.cwd.parts.len() - 1,
            )
            &&& up && b.cwd.parts.len() == 0 ==> task == TaskView::Nothing
            &&& inward && b.selected < b.rows.len() && item.is_dir ==> task is Read
                && task->Read_0.dir == below(b.cwd, item.name)
            &&& inward && !(b.selected < b.rows.len() && item.is_dir) ==> task == TaskView::Nothing
        }),
{
    let parts = p.browser->0.cwd.parts;
    if parts.len() > 0 {
        assert(parts.drop_last() =~= parts.take(parts.len() - 1));
    }
}

/// While browsing, the keys for up and down move the cursor by one row and the
/// page keys by ten, and stop at the ends. Only the cursor changes.
pub proof fn up_and_down_move_the_browser_cursor(
    p: PickerView,
    key: KeyEvent,
    entry: Option<scan::EntryView>,
)
    requires
        p.wf(),
        p.menu is None,
        p.mode is Browse,
        p.browser->0.selected < p.browser->0.rows.len(),
        p.browser->0.rows.len() <= usize::MAX,
    ensures
        ({
            let (after, task) = p.keyed(key, entry);
            let b = p.browser->0;
            let ctrl = key.modifiers.control;
            let by: int = if key.code is Up || key.code == KeyCode::Char('k') && ctrl {
                -1
            } else if key.code is Down || key.code == KeyCode::Char('j') && ctrl {
                1
            } else if key.code is PageUp {
                -10
            } else if key.code is PageDown {
                10
            } else {
                0
            };
            by != 0 ==> {
                &&& task == TaskView::Nothing
                &&& after == (PickerView {
                    browser: Some(BrowserView { selected: after.browser->0.selected, ..b }),
                    ..settled(p)
                })
                &&& 0 <= b.selected + by < b.rows.len() ==> after.browser->0.selected == b.selected
                    + by
                &&& b.selected + by < 0 ==> after.browser->0.selected == 0
                &&& b.selected + by >= b.rows.len() ==> after.browser->0.selected == b.rows.len()
                    - 1
            }
        }),
{
}

/// In a search, the keys for up and down move the cursor of the current mode
/// by one candidate, never above the first. Nothing else changes.
pub proof fn up_and_down_move_the_search_cursor(
    p: PickerView,
    key: KeyEvent,
    entry: Option<scan::EntryView>,
)
    requires
        p.wf(),
        p.menu is None,
        !(p.mode is Browse),
        p.sources[p.mode.index()] is Some,
    ensures
        ({
            let (after, task) = p.keyed(key, entry);
            let source = p.sources[p.mode.index()]->0;
            let ctrl = key.modifiers.control;
            let up = key.code is Up || key.code == KeyCode::Char('k') && ctrl;
            let down = key.code is Down || key.code == KeyCode::Char('j') && ctrl;
            up || down ==> {
                let now = after.sources[p.mode.index()]->0;
                &&& task == TaskView::Nothing
                &&& after == (PickerView { sources: after.sources, ..settled(p) })
                &&& agree_but_for(after, p, p.mode)
                &&& after.sources[p.mode.index()] is Some
                &&& now == (Source { selected: now.selected, ..source })
                &&& up && source.selected > 0 ==> now.selected == source.selected - 1
                &&& up && source.selected == 0 ==> now.selected == 0
                &&& down && source.selected < u32::MAX ==> now.selected == source.selected + 1
            }
        }),
{
}

/// With Alt, left and right retrace the way back and forward while browsing.
pub proof fn alt_left_and_right_retrace(
    p: PickerView,
    key: KeyEvent,
    entry: Option<scan::EntryView>,
)
    requires
        p.menu is None,
        p.mode is Browse,
        key.modifiers.alt,
    ensures
        key.code is Left ==> p.keyed(key, entry) == (settled(p), TaskView::Retrace(false)),
        key.code is Right ==> p.keyed(key, entry) == (settled(p), TaskView::Retrace(true)),
{
}

/// Typing in a search makes the query longer by one character at its end, puts
/// the cursor on the first candidate of the mode and has the candidates matched
/// by the longer query. The other modes keep what they have.
pub proof fn typing_narrows_the_search(
    p: PickerView,
    c: char,
    key: KeyEvent,
    entry: Option<scan::EntryView>,
)
    requires
        p.wf(),
        p.menu is None,
        !(p.mode is Browse),
        key.code == KeyCode::Char(c),
        !key.modifiers.control,
        !key.modifiers.alt,
    ensures
        ({
            let (after, task) = p.keyed(key, entry);
            let here = after.sources[p.mode.index()];
            &&& after.query == p.query + seq![c]
            &&& task == TaskView::Requery(true)
            &&& here is Some && here->0.selected == 0 && !here->0.query_empty
            &&& p.sources[p.mode.index()] is Some ==> here->0.fresh
                == p.sources[p.mode.index()]->0.fresh
            &&& p.sources[p.mode.index()] is None ==> here->0.fresh
            &&& agree_but_for(after, p, p.mode)
            &&& after == (PickerView { query: after.query, sources: after.sources, ..settled(p) })
        }),
{
    assert(p.query.push(c) =~= p.query + seq![c]);
    assert(p.query.push(c).subrange(0, p.query.len() as int) =~= p.query);
}

/// Taking back in a search takes the last character of the query, and
/// Control-U all of them; the candidates are then matched anew, and the cursor
/// is on the first one.
pub proof fn taking_back_widens_the_search(
    p: PickerView,
    key: KeyEvent,
    entry: Option<scan::EntryView>,
)
    requires
        p.wf(),
        p.menu is None,
        !(p.mode is Browse),
        p.query.len() > 0,
        key.code is Backspace || key.code == KeyCode::Char('u') && key.modifiers.control,
    ensures
        ({
            let (after, task) = p.keyed(key, entry);
            let here = after.sources[p.mode.index()];
            &&& key.code is Backspace ==> after.query == p.query.take(p.query.len() - 1)
            &&& !(key.code is Backspace) ==> after.query.len() == 0
            &&& task == TaskView::Requery(false)
            &&& here is Some && here->0.selected == 0
            &&& here->0.query_empty == (after.query.len() == 0)
            &&& agree_but_for(after, p, p.mode)
            &&& after == (PickerView { query: after.query, sources: after.sources, ..settled(p) })
        }),
{
    assert(p.query.drop_last() =~= p.query.take(p.query.len() - 1));
    assert(!text::begins(p.query.drop_last(), p.query));
    assert(!text::begins(Seq::empty(), p.query));
}

/// While browsing, typing makes the filter longer by one character at its end,
/// taking back takes its last one and Control-U all of them. The rows are then
/// those that the filter leaves, with the cursor on the best; the place, the
/// listing, the trails and the query stay.
pub proof fn typing_narrows_the_listing(
    p: PickerView,
    c: char,
    key: KeyEvent,
    entry: Option<scan::EntryView>,
)
    requires
        p.wf(),
        p.menu is None,
        p.mode is Browse,
    ensures
        ({
            let (after, task) = p.keyed(key, entry);
            let b = p.browser->0;
            let a = after.browser->0;
            let typed = key.code == KeyCode::Char(c) && !key.modifiers.control
                && !key.modifiers.alt;
            let taken = key.code is Backspace && b.filter.len() > 0;
            let emptied = key.code == KeyCode::Char('u') && key.modifiers.control;
            &&& typed ==> a.filter == b.filter + seq![c]
            &&& taken ==> a.filter == b.filter.take(b.filter.len() - 1)
            &&& emptied ==> a.filter.len() == 0
            &&& typed || taken || emptied ==> {
                &&& task == TaskView::Nothing
                &&& a.rows == browse::rows_of(b.items, a.filter)
                &&& a.selected == 0
                &&& a.items == b.items && a.cwd == b.cwd && a.back == b.back && a.ahead == b.ahead
                &&& after == (PickerView { browser: Some(a), ..settled(p) })
            }
        }),
{
    let b = p.browser->0;
    assert(b.filter.push(c) =~= b.filter + seq![c]);
    if b.filter.len() > 0 {
        assert(b.filter.drop_last() =~= b.filter.take(b.filter.len() - 1));
    }
}

/// A key without a meaning of its own does nothing but let the last message
/// go.
pub proof fn other_keys_do_nothing(p: PickerView, key: KeyEvent, entry: Option<scan::EntryView>)
    requires
        p.menu is None,
    ensures
        key.code is Other ==> p.keyed(key, entry) == (settled(p), TaskView::Nothing),
        key.code is F && key.code != KeyCode::F(5) ==> p.keyed(key, entry) == (
            settled(p),
            TaskView::Nothing,
        ),
        !(p.mode is Browse) && (key.code is Left || key.code is Right || key.code is PageUp
            || key.code is PageDown) ==> p.keyed(key, entry) == (settled(p), TaskView::Nothing),
        key.code is Char && !key.modifiers.control && key.modifiers.alt ==> p.keyed(key, entry) == (
            settled(p),
            TaskView::Nothing,
        ),
{
}

/// Whether a key can be taken: text can be typed only while there is room for
/// it, and every other key always can.
pub proof fn commands_always_have_room(p: PickerView, key: KeyEvent)
    ensures
        !(key.code is Char) ==> p.has_room(key),
        key.modifiers.control || key.modifiers.alt ==> p.has_room(key),
        key.code is Char && !key.modifiers.control && !key.modifiers.alt && p.menu is None && !(
        p.mode is Browse) ==> p.has_room(key) == (p.query.len() < crate::fuzzy::QUERY_LIMIT),
        key.code is Char && !key.modifiers.control && !key.modifiers.alt && p.menu is None
            && p.mode is Browse ==> p.has_room(key) == (p.browser->0.filter.len()
            < crate::fuzzy::QUERY_LIMIT),
        key.code is Char && !key.modifiers.control && !key.modifiers.alt && p.menu is Some
            ==> p.has_room(key) == (p.menu->0.query.len() < crate::fuzzy::QUERY_LIMIT),
{
}

/// A candidate stands for itself, but a file for the directory it is in.
pub proof fn a_candidate_stands_for_a_directory(
    entry: scan::EntryView,
    mode: Mode,
    display: Seq<char>,
)
    ensures
        !(mode is Files) ==> crate::picker::output(entry, mode) == entry.path,
        mode is Files && entry.path.parts.len() == 0 ==> crate::picker::output(entry, mode)
            == entry.path,
        mode is Files && entry.path.parts.len() > 0 ==> crate::picker::output(entry, mode)
            == (LocationView {
            anchor: entry.path.anchor,
            parts: entry.path.parts.take(entry.path.parts.len() - 1),
        }),
        crate::picker::output((scan::EntryView { display, ..entry }), mode)
            == crate::picker::output(entry, mode),
{
    if entry.path.parts.len() > 0 {
        assert(entry.path.parts.drop_last() =~= entry.path.parts.take(
            entry.path.parts.len() - 1,
        ));
    }
}

/// Moving the search to the root it already has changes nothing; any other
/// root has every mode read again and the preview with it.
pub proof fn a_new_root_starts_every_mode_again(p: PickerView, root: LocationView, mode: Mode)
    ensures
        p.rooted(root).root == root,
        root == p.root ==> p.rooted(root) == p,
        root != p.root ==> p.rooted(root).sources.len() == MODES
            && p.rooted(root).sources[mode.index()] is None && p.rooted(root).preview is None,
        p.rooted(root).mode == p.mode && p.rooted(root).query == p.query && p.rooted(root).browser
            == p.browser && p.rooted(root).pinned == p.pinned && p.rooted(root).notice == p.notice,
{
}

/// Keeping the cursor within the candidates moves it to the last one where it
/// is past that, and nowhere else.
pub proof fn the_cursor_is_kept_on_a_candidate(source: Source, count: u32)
    ensures
        source.selected < count ==> source.clamped(count) == source,
        count > 0 && source.selected >= count ==> source.clamped(count).selected == count - 1,
        count == 0 ==> source.clamped(count).selected == 0,
        source.clamped(count) == (Source { selected: source.clamped(count).selected, ..source }),
        count > 0 ==> source.clamped(count).selected < count,
{
}

/// What the walk found stands in browse order while nothing is typed; the
/// saved lists never do.
pub proof fn only_walks_without_a_query_are_in_browse_order(source: Source, mode: Mode)
    ensures
        mode is Recent || mode is Favorites ==> !source.in_order(mode),
        mode is Dirs || mode is Files || mode is Browse ==> source.in_order(mode)
            == source.query_empty,
{
}

/// The depth of a candidate counts its separators; what lies higher comes
/// first, and at the same depth the names decide, without regard to case.
pub proof fn higher_candidates_come_first(
    one: Seq<char>,
    two: Seq<char>,
    platform: crate::paths::Platform,
    c: char,
)
    ensures
        crate::picker::occurrences(one + two, c) == crate::picker::occurrences(one, c)
            + crate::picker::occurrences(two, c),
        crate::picker::occurrences(seq![c], c) == 1,
        !one.contains(c) ==> crate::picker::occurrences(one, c) == 0,
        crate::picker::depth_key(one, platform).rank == crate::picker::occurrences(
            one,
            platform.sep(),
        ) as u64,
        crate::picker::depth_key(one, platform).text == text::unicode_lower(one),
    decreases two.len(),
{
    reveal_with_fuel(crate::picker::occurrences, 2);
    assert(seq![c].drop_last() =~= Seq::<char>::empty());
    assert(crate::picker::occurrences(seq![c], c) == 1);
    if !one.contains(c) {
        lemma_none_occurs(one, c);
    }
    if two.len() == 0 {
        assert(one + two =~= one);
    } else {
        higher_candidates_come_first(one, two.drop_last(), platform, c);
        assert((one + two).drop_last() =~= one + two.drop_last());
        assert((one + two).last() == two.last());
    }
}

proof fn lemma_none_occurs(text: Seq<char>, c: char)
    requires
        !text.contains(c),
    ensures
        crate::picker::occurrences(text, c) == 0,
    decreases text.len(),
{
    if text.len() > 0 {
        let front = text.drop_last();
        assert(text[text.len() - 1] != c);
        assert forall|i: int| 0 <= i < front.len() implies front[i] != c by {
            assert(front[i] == text[i]);
        }
        lemma_none_occurs(front, c);
    }
}

/// Showing the mode that is already shown changes nothing.
pub proof fn showing_the_same_mode_changes_nothing(
    p: PickerView,
    step: int,
    entry: Option<scan::EntryView>,
)
    requires
        step % 5 == 0,
    ensures
        p.switched(step, entry) == (p, TaskView::Nothing),
{
    assert((p.mode.index() + step) % 5 == p.mode.index());
}

/// The first time the browser is shown it opens at what is selected: the
/// directory, or the one that a file is in, and at nothing in particular where
/// nothing is.
pub proof fn the_browser_first_opens_at_the_selection(
    p: PickerView,
    step: int,
    entry: Option<scan::EntryView>,
)
    requires
        !(p.mode is Browse),
        p.mode.further(step) is Browse,
        p.browser is None,
    ensures
        p.switched(step, entry).0 == p,
        entry is None ==> p.switched(step, entry).1 == TaskView::OpenBrowser(None),
        entry is Some && !(p.mode is Files) ==> p.switched(step, entry).1 == TaskView::OpenBrowser(
            Some(entry->0.path),
        ),
        entry is Some && p.mode is Files && entry->0.path.parts.len() > 0 ==> p.switched(
            step,
            entry,
        ).1 == TaskView::OpenBrowser(
            Some(
                LocationView {
                    anchor: entry->0.path.anchor,
                    parts: entry->0.path.parts.take(entry->0.path.parts.len() - 1),
                },
            ),
        ),
{
    if entry is Some {
        a_candidate_stands_for_a_directory(entry->0, p.mode, entry->0.display);
    }
}

/// With the menu open, Enter runs the action under its cursor on its item and
/// closes it; Escape closes it and runs nothing. Any other key leaves it open,
/// unless it is one of the two that close it, and nothing behind it changes.
pub proof fn keys_go_to_an_open_menu(p: PickerView, key: KeyEvent, entry: Option<scan::EntryView>)
    requires
        p.menu is Some,
    ensures
        ({
            let (after, task) = p.keyed(key, entry);
            let m = p.menu->0;
            &&& key.code is Enter && m.selected < m.visible.len() ==> task == TaskView::Execute(
                m.items[m.visible[m.selected as int] as int],
                m.target,
            ) && after == (PickerView { menu: None, last_click: None, ..p })
            &&& key.code is Enter && m.selected >= m.visible.len() ==> task == TaskView::Nothing
                && after == (PickerView { last_click: None, ..p })
            &&& key.code is Esc ==> task == TaskView::Nothing && after == (PickerView {
                menu: None,
                last_click: None,
                ..p
            })
            &&& key.modifiers.control && (key.code == KeyCode::Char('p') || key.code
                == KeyCode::Char('c')) ==> task == TaskView::Nothing && after.menu is None
            &&& !(key.code is Enter) ==> task == TaskView::Nothing
            &&& !(key.code is Enter) && !(key.code is Esc) && !(key.code is Char)
                ==> after.menu is Some
            &&& after == (PickerView { menu: after.menu, last_click: None, ..p })
        }),
{
}

/// A character with Control that has no meaning of its own does nothing, in
/// every mode.
pub proof fn other_commands_do_nothing(
    p: PickerView,
    c: char,
    key: KeyEvent,
    entry: Option<scan::EntryView>,
)
    requires
        p.menu is None,
        key.code == KeyCode::Char(c),
        key.modifiers.control,
        c != 'p' && c != 'b' && c != 'c' && c != 'o' && c != 'e',
        c != 'k' && c != 'j' && c != 'u',
        p.mode is Browse ==> c != 'h' && c != 'l',
    ensures
        p.keyed(key, entry) == (settled(p), TaskView::Nothing),
{
}

} // verus!
