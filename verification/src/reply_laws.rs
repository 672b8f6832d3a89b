//! What the picker makes of work that was done for it, whatever came back.
use crate::actions::ActionView;
use crate::browse;
use crate::browse::{ItemView, VisitView};
use crate::cli::Mode;
use crate::key_laws;
use crate::paths::LocationView;
use crate::picker;
use crate::picker::{PickerView, Shown, Source};
use crate::replies;
use crate::replies::{OpeningView, PreviewStepView};
use crate::rows;
use crate::scan;
use vstd::prelude::*;

verus! {

/// The browser opens in the place asked for if that is a directory, and in the
/// root of the search otherwise.
pub proof fn where_the_browser_opens(p: PickerView, place: LocationView, is_dir: bool)
    ensures
        p.browser_place(Some(place), true) == place,
        p.browser_place(Some(place), false) == p.root,
        p.browser_place(None, is_dir) == p.root,
{
}

/// The directories to go back to are told from the nearest on: the one that was
/// left last comes first, and so for those to go forward to.
pub proof fn the_nearest_directory_comes_first(p: PickerView, k: int)
    requires
        p.browser is Some,
        0 <= k,
    ensures
        p.ways(false).len() == p.browser->0.back.len(),
        p.ways(true).len() == p.browser->0.ahead.len(),
        k < p.browser->0.back.len() ==> p.ways(false)[k] == p.browser->0.back[
            p.browser->0.back.len() - 1 - k],
        k < p.browser->0.ahead.len() ==> p.ways(true)[k] == p.browser->0.ahead[
            p.browser->0.ahead.len() - 1 - k],
{
}

/// Going back leads to the nearest directory that is still there, whichever
/// that is, and has it read; the preview goes. Where none is there nothing
/// moves and that is said.
pub proof fn going_back_finds_the_nearest_directory(
    p: PickerView,
    forward: bool,
    available: Seq<bool>,
    k: int,
)
    requires
        p.browser is Some,
        available.len() == p.ways(forward).len(),
    ensures
        ({
            let (after, visit) = p.retraced(forward, available);
            &&& 0 <= k < available.len() && available[k] && (forall|i: int|
                0 <= i < k ==> !available[i]) ==> {
                &&& visit is Some
                &&& visit->0.dir == p.ways(forward)[k]
                &&& after == (PickerView { preview: None, ..p })
                &&& !forward ==> visit->0.ahead == p.browser->0.ahead + seq![p.browser->0.cwd]
                    && visit->0.back == p.browser->0.back.take(p.browser->0.back.len() - 1 - k)
                &&& forward ==> visit->0.back == p.browser->0.back + seq![p.browser->0.cwd]
                    && visit->0.ahead == p.browser->0.ahead.take(
                    p.browser->0.ahead.len() - 1 - k,
                )
            }
            &&& (forall|i: int| 0 <= i < available.len() ==> !available[i]) ==> visit is None
                && after == (PickerView { notice: after.notice, notice_until: None, ..p })
                && after.notice is Some
        }),
{
    let b = p.browser->0;
    assert(b.ahead.push(b.cwd) =~= b.ahead + seq![b.cwd]);
    assert(b.back.push(b.cwd) =~= b.back + seq![b.cwd]);
    if 0 <= k < available.len() && available[k] && (forall|i: int| 0 <= i < k ==> !available[i]) {
        assert(crate::invoke::is_first_present(available, k));
        let found = crate::invoke::first_present(available)->0;
        assert(crate::invoke::is_first_present(available, found));
        assert(found == k);
    }
    if forall|i: int| 0 <= i < available.len() ==> !available[i] {
        assert forall|i: int| !crate::invoke::is_first_present(available, i) by {}
    }
}

/// The menu opens for the item asked for, with the actions and the warning that
/// were found, and changes nothing else.
pub proof fn the_menu_opens_for_the_item(
    p: PickerView,
    target: LocationView,
    items: Seq<ActionView>,
    error: Option<Seq<char>>,
)
    ensures
        ({
            let after = p.with_menu(target, items, error);
            &&& after.menu is Some
            &&& after.menu->0.target == target
            &&& after.menu->0.items == items
            &&& after.menu->0.error == error
            &&& after == (PickerView { menu: after.menu, ..p })
        }),
{
}

/// Pins that were read are the ones marked from then on; pins that could not
/// be read leave the marks as they are, and that is said.
pub proof fn pins_that_cannot_be_read_stay(p: PickerView, pinned: Set<Seq<char>>, error: Seq<char>)
    ensures
        p.pins_read(Ok(pinned)) == (PickerView { pinned, ..p }),
        p.pins_read(Err(error)).pinned == p.pinned,
        p.pins_read(Err(error)) == (PickerView {
            notice: Some("Cannot load favorite markers: "@ + error),
            notice_until: None,
            ..p
        }),
{
}

/// A pin that was turned over marks what is pinned now, is told, and has the
/// favorites read again when they are next shown; the other modes keep what
/// they have. One that could not be changes nothing but the message.
pub proof fn a_pin_that_was_turned_over_is_told(
    p: PickerView,
    path: LocationView,
    added: bool,
    pinned: Set<Seq<char>>,
    error: Seq<char>,
)
    requires
        p.wf(),
    ensures
        ({
            let after = p.pin_turned(path, Ok((added, pinned)));
            let shown = path.display(p.platform);
            &&& after.pinned == pinned
            &&& after.sources[3] is None
            &&& key_laws::agree_but_for(after, p, Mode::Favorites)
            &&& added ==> after.notice == Some("Pinned"@ + ": "@ + shown)
            &&& !added ==> after.notice == Some("Unpinned"@ + ": "@ + shown)
            &&& after == (PickerView {
                pinned,
                sources: after.sources,
                notice: after.notice,
                notice_until: None,
                ..p
            })
        }),
        p.pin_turned(path, Err(error)) == (PickerView {
            notice: Some("Cannot update favorites: "@ + error),
            notice_until: None,
            ..p
        }),
{
}

/// An item that was opened is confirmed by its name, which goes by itself; one
/// that could not be is told with its error, which stays.
pub proof fn an_opened_item_is_told_by_its_name(
    p: PickerView,
    dir: LocationView,
    name: Seq<char>,
    error: Seq<char>,
    now: u64,
)
    requires
        name != "."@,
        name != ".."@,
        now <= u64::MAX - 3000,
    ensures
        ({
            let target = key_laws::below(dir, name);
            let opened = p.handed_over(target, Ok(()), now);
            let failed = p.handed_over(target, Err(error), now);
            &&& opened == (PickerView {
                notice: Some("Opened: "@ + name),
                notice_until: Some((now + 3000) as u64),
                ..p
            })
            &&& failed == (PickerView {
                notice: Some("Cannot open "@ + name + ": "@ + error),
                notice_until: None,
                ..p
            })
        }),
{
}

/// What Enter chooses: the candidate under the cursor as it is, none where there
/// is none; while browsing the selected directory, or the browsed one where the
/// selection is none, and always something.
pub proof fn what_enter_chooses(p: PickerView, entry: Option<scan::EntryView>)
    ensures
        !(p.mode is Browse) ==> p.choice(entry) == entry,
        p.mode is Browse ==> ({
            let b = p.browser->0;
            let item = b.items[b.rows[b.selected as int].index as int];
            let chosen = p.choice(entry);
            &&& chosen is Some
            &&& b.selected < b.rows.len() && item.is_dir ==> chosen->0.path == key_laws::below(
                b.cwd,
                item.name,
            )
            &&& !(b.selected < b.rows.len() && item.is_dir) ==> chosen->0.path == b.cwd
            &&& chosen->0.display == chosen->0.path.display(p.platform)
        }),
{
}

/// What a run prints: the directory that the chosen candidate stands for, which
/// for a file is the one it is in, and nothing without a choice.
pub proof fn what_a_run_prints(entry: scan::EntryView, mode: Mode)
    ensures
        replies::printed(None, mode) is None,
        !(mode is Files) ==> replies::printed(Some(entry), mode) == Some(entry.path),
        mode is Files && entry.path.parts.len() > 0 ==> replies::printed(Some(entry), mode) == Some(
            LocationView {
                anchor: entry.path.anchor,
                parts: entry.path.parts.take(entry.path.parts.len() - 1),
            },
        ),
{
    key_laws::a_candidate_stands_for_a_directory(entry, mode, entry.display);
}

/// The preview shows what the cursor is on: the selected entry while browsing,
/// and the directory that the candidate stands for in a search.
pub proof fn the_preview_follows_the_cursor(p: PickerView, entry: Option<scan::EntryView>)
    ensures
        p.mode is Browse && p.browser->0.selected < p.browser->0.rows.len() ==> p.previewed_place(
            entry,
        ) == Some(
            key_laws::below(
                p.browser->0.cwd,
                p.browser->0.items[p.browser->0.rows[p.browser->0.selected as int].index as int].name,
            ),
        ),
        p.mode is Browse && p.browser->0.selected >= p.browser->0.rows.len() ==> p.previewed_place(
            entry,
        ) is None,
        !(p.mode is Browse) && entry is None ==> p.previewed_place(entry) is None,
        !(p.mode is Browse) && !(p.mode is Files) && entry is Some ==> p.previewed_place(entry)
            == Some(entry->0.path),
        p.mode is Files && entry is Some && entry->0.path.parts.len() > 0 ==> p.previewed_place(
            entry,
        ) == Some(
            LocationView {
                anchor: entry->0.path.anchor,
                parts: entry->0.path.parts.take(entry->0.path.parts.len() - 1),
            },
        ),
{
    if entry is Some {
        key_laws::a_candidate_stands_for_a_directory(entry->0, p.mode, entry->0.display);
    }
}

/// A preview of the right directory is kept, one of another is read anew, and
/// one that should show nothing is dropped. Reading does not take the old one
/// away before the new one is there.
pub proof fn a_preview_is_read_only_where_it_has_to_be(p: PickerView, dir: LocationView)
    ensures
        ({
            let (after, step) = p.preview_checked(Some(dir));
            &&& after == p
            &&& p.preview is Some && p.preview->0.dir == dir ==> step is Keep
            &&& p.preview is None || p.preview->0.dir != dir ==> step == PreviewStepView::Load(dir)
        }),
        p.preview is None ==> p.preview_checked(None) == (p, PreviewStepView::Keep),
        p.preview is Some ==> p.preview_checked(None) == (
            PickerView { preview: None, ..p },
            PreviewStepView::Dropped,
        ),
{
}

/// A directory that was read for the preview is what it shows, and needs not be
/// read again.
pub proof fn a_loaded_preview_is_kept(
    p: PickerView,
    dir: LocationView,
    entries: Option<Seq<ItemView>>,
)
    ensures
        ({
            let after = p.preview_loaded(dir, entries);
            &&& after.preview is Some
            &&& after.preview->0.dir == dir
            &&& after.preview->0.names == rows::preview_names(entries, p.platform)
            &&& after == (PickerView { preview: after.preview, ..p })
            &&& after.preview_checked(Some(dir)).1 is Keep
        }),
{
}

/// After an action had the terminal its message is shown and stays, the preview
/// goes, and the browser has its directory read again.
pub proof fn taking_up_again_reads_the_directory_again(p: PickerView, message: Seq<char>)
    ensures
        ({
            let (after, visit) = p.resumed(message);
            &&& after == (PickerView {
                notice: Some(message),
                notice_until: None,
                preview: None,
                ..p
            })
            &&& p.browser is None ==> visit is None
            &&& p.browser is Some ==> visit is Some && visit->0.dir == p.browser->0.cwd
                && visit->0.keep_filter && visit->0.back == p.browser->0.back && visit->0.ahead
                == p.browser->0.ahead
        }),
{
}

/// To go to a directory it is read itself, to go to a file the directory that
/// holds it: the same that going there then ends in.
pub proof fn what_is_read_to_go_to_a_place(
    browser: browse::BrowserView,
    dir: LocationView,
    name: Seq<char>,
    is_dir: bool,
)
    ensures
        replies::directory_read(dir, true) == dir,
        replies::directory_read(key_laws::below(dir, name), false) == dir,
        browser.toward(dir, is_dir).dir == replies::directory_read(dir, is_dir),
{
    assert(dir.parts.push(name).drop_last() =~= dir.parts);
}

/// How an action ended is told by its name, or by the copy that was made; what
/// was copied is told from what was started.
pub proof fn how_an_action_ended_is_told(action: ActionView, copy: Seq<char>, error: Seq<char>)
    ensures
        replies::ending(action, Ok(Some(copy))) == "Temporary copy: "@ + copy,
        action is Copy ==> replies::ending(action, Ok(None)) == "Copied"@ + ": "@ + action.title(),
        !(action is Copy) ==> replies::ending(action, Ok(None)) == "Started"@ + ": "@
            + action.title(),
        replies::ending(action, Err(error)) == action.title() + ": "@ + error,
{
}

/// A run that may take a single candidate shows nothing where there is one, and
/// takes it; without any it ends, a failed scan fails it, and any other number
/// of them, or the browser, is shown. Otherwise everything is shown.
pub proof fn a_single_candidate_is_taken(
    mode: Mode,
    error: Option<Seq<char>>,
    count: u32,
    entry: Option<scan::EntryView>,
)
    ensures
        replies::first_step(false, mode, error, count, entry) is Show,
        replies::first_step(true, Mode::Browse, error, count, entry) is Show,
        !(mode is Browse) && error is Some ==> replies::first_step(true, mode, error, count, entry)
            == OpeningView::Failed(error->0),
        !(mode is Browse) ==> replies::first_step(true, mode, None, 0, entry) is Nothing,
        !(mode is Browse) && !(mode is Files) && entry is Some ==> replies::first_step(
            true,
            mode,
            None,
            1,
            entry,
        ) == OpeningView::Only(entry->0.path),
        mode is Files && entry is Some && entry->0.path.parts.len() > 0 ==> replies::first_step(
            true,
            mode,
            None,
            1,
            entry,
        ) == OpeningView::Only(
            LocationView {
                anchor: entry->0.path.anchor,
                parts: entry->0.path.parts.take(entry->0.path.parts.len() - 1),
            },
        ),
        count > 1 ==> replies::first_step(true, mode, None, count, entry) is Show,
{
    if entry is Some {
        key_laws::a_candidate_stands_for_a_directory(entry->0, mode, entry->0.display);
    }
}

/// A row of the list shows the candidate that the browse order puts there while
/// the list is in that order, and the nth match otherwise.
pub proof fn what_a_row_of_the_list_shows(order: Seq<u32>, browsing: bool, n: u32)
    ensures
        n < order.len() ==> picker::row_shown(Some(order), true, n) == Shown::Item(order[n as int]),
        n >= order.len() ==> picker::row_shown(Some(order), true, n) == Shown::Missing,
        picker::row_shown(Some(order), false, n) == Shown::Matched(n),
        picker::row_shown(None, browsing, n) == Shown::Matched(n),
{
}

/// Reading the candidates of a mode, and keeping its cursor on one of them,
/// changes nothing of the other modes.
pub proof fn the_modes_are_read_one_by_one(p: PickerView, count: u32)
    requires
        p.wf(),
    ensures
        ({
            let read = p.reading();
            let kept = p.kept_within(count);
            let here = p.mode.index();
            &&& read.sources[here] is Some && !read.sources[here]->0.fresh
            &&& kept.sources[here] is Some
            &&& count > 0 ==> kept.sources[here]->0.selected < count
            &&& p.sources[here] is Some ==> read.sources[here]->0.selected
                == p.sources[here]->0.selected
            &&& p.sources[here] is Some && p.sources[here]->0.selected < count
                ==> kept.sources[here]->0.selected == p.sources[here]->0.selected
            &&& p.sources[here] is None ==> read.sources[here]->0.selected == 0
            &&& key_laws::agree_but_for(read, p, p.mode) && key_laws::agree_but_for(
                kept,
                p,
                p.mode,
            )
            &&& read == (PickerView { sources: read.sources, ..p })
            &&& kept == (PickerView { sources: kept.sources, ..p })
        }),
{
}

/// A mode's candidates are started once: its cursor is then on the first, and
/// what it already has stays.
pub proof fn a_mode_is_started_once(p: PickerView, selected: u32)
    requires
        p.wf(),
    ensures
        ({
            let here = p.mode.index();
            &&& p.sources[here] is Some ==> p.sourced() == p
            &&& p.sources[here] is None ==> p.sourced().sources[here] == Some(
                Source { selected: 0, query_empty: p.query.len() == 0, fresh: true },
            )
            &&& key_laws::agree_but_for(p.sourced(), p, p.mode)
            &&& p.sourced().sourced() == p.sourced()
            &&& p.selecting(selected).sources[here] is Some
            &&& p.selecting(selected).sources[here]->0.selected == selected
            &&& key_laws::agree_but_for(p.selecting(selected), p, p.mode)
        }),
{
}

/// A confirmation whose time is up goes, and nothing else changes; any other
/// message stays.
pub proof fn only_a_due_confirmation_goes(p: PickerView, now: u64)
    ensures
        p.notice_until is None ==> p.expired(now) == p,
        p.notice_until is Some && now < p.notice_until->0 ==> p.expired(now) == p,
        p.notice_until is Some && now >= p.notice_until->0 ==> p.expired(now) == (PickerView {
            notice: None,
            notice_until: None,
            ..p
        }),
{
}

/// A move of the browser is read, and no move asks for nothing.
pub proof fn a_move_is_read(visit: VisitView)
    ensures
        PickerView::going(Some(visit)) == picker::TaskView::Read(visit),
        PickerView::going(None) == picker::TaskView::Nothing,
{
}

/// Without a browser there is nowhere to go back or forward to, and trying to
/// says so.
pub proof fn without_a_browser_there_is_no_way_back(
    p: PickerView,
    forward: bool,
    available: Seq<bool>,
    visit: VisitView,
    entries: Seq<ItemView>,
)
    requires
        p.browser is None,
    ensures
        p.ways(forward).len() == 0,
        p.retraced(forward, available).1 is None,
        p.retraced(forward, available).0.notice is Some,
        p.arrived(visit, entries) == p,
{
}

} // verus!
