//! What holds of browsing, whatever the listing and the filter.
use crate::browse;
use crate::browse::{BrowserView, ItemView, VisitView};
use crate::order;
use crate::paths::LocationView;
use vstd::prelude::*;

verus! {

/// The directory to cd into follows the row under the cursor, whatever is
/// typed: a directory there is where it leads, one name below the current one,
/// and only a file, or no row at all, leaves the current directory. It is the
/// same place that is selected, and that going in leads to.
pub proof fn the_directory_under_the_cursor_is_the_destination(browser: BrowserView)
    ensures
        browser.selected < browser.rows.len() ==> ({
            let item = browser.items[browser.rows[browser.selected as int].index as int];
            let below = LocationView {
                anchor: browser.cwd.anchor,
                parts: browser.cwd.parts.push(item.name),
            };
            &&& browser.current() == Some(item)
            &&& browser.current_path() == Some(below)
            &&& item.is_dir ==> browser.destination() == below
            &&& !item.is_dir ==> browser.destination() == browser.cwd
            &&& item.is_dir ==> browser.inward() is Some && browser.inward()->0.dir == below
            &&& !item.is_dir ==> browser.inward() is None
        }),
        browser.selected >= browser.rows.len() ==> {
            &&& browser.current() is None
            &&& browser.current_path() is None
            &&& browser.destination() == browser.cwd
            &&& browser.inward() is None
        },
        browser.current() is Some && browser.current()->0.is_dir ==> browser.destination()
            == browser.current_path()->0,
{
}

/// Typing moves the destination to the best match: a directory there is where
/// it leads, however long the filter.
pub proof fn typing_takes_the_destination_along(browser: BrowserView, filter: Seq<char>)
    ensures
        ({
            let out = browser.filtered(filter);
            let rows = browse::rows_of(browser.items, filter);
            &&& out.rows == rows
            &&& rows.len() > 0 && browser.items[rows[0].index as int].is_dir ==> out.destination()
                == (LocationView {
                anchor: browser.cwd.anchor,
                parts: browser.cwd.parts.push(browser.items[rows[0].index as int].name),
            })
            &&& rows.len() == 0 || !browser.items[rows[0].index as int].is_dir
                ==> out.destination() == browser.cwd
        }),
{
}

/// Where a selection leads depends on the current directory and on the entry
/// under the cursor alone: neither the filter, nor the other rows, nor the
/// directories visited before play a part.
pub proof fn only_the_entry_under_the_cursor_counts(one: BrowserView, other: BrowserView)
    requires
        one.cwd == other.cwd,
        one.current() == other.current(),
    ensures
        one.destination() == other.destination(),
        one.current_path() == other.current_path(),
        one.inward() is Some == other.inward() is Some,
        one.inward() is Some ==> one.inward()->0.dir == other.inward()->0.dir,
{
}

/// A move keeps the directory that was left to go back to, behind all that
/// were there, and leaves nothing to go forward to. It clears the filter.
pub proof fn a_move_remembers_where_it_started(
    browser: BrowserView,
    path: LocationView,
    is_dir: bool,
    k: int,
)
    ensures
        ({
            let moves: Seq<Option<VisitView>> = seq![
                browser.inward(),
                browser.upward(),
                Some(browser.toward(path, is_dir)),
            ];
            0 <= k < 3 && moves[k] is Some ==> {
                &&& moves[k]->0.back == browser.back + seq![browser.cwd]
                &&& moves[k]->0.ahead.len() == 0
                &&& !moves[k]->0.keep_filter
            }
        }),
{
    assert(browser.back.push(browser.cwd) =~= browser.back + seq![browser.cwd]);
}

/// Going in selects the first row; going up leads one name up, from anywhere
/// but the root, and selects the directory that was left.
pub proof fn going_up_selects_the_directory_left(browser: BrowserView)
    ensures
        browser.upward() is None == (browser.cwd.parts.len() == 0),
        browser.cwd.parts.len() > 0 ==> {
            &&& browser.upward()->0.dir.anchor == browser.cwd.anchor
            &&& browser.upward()->0.dir.parts + seq![browser.cwd.parts.last()]
                == browser.cwd.parts
            &&& browser.cwd.parts.last() != "."@ && browser.cwd.parts.last() != ".."@
                ==> browser.upward()->0.reselect == Some(browser.cwd.parts.last())
        },
        browser.inward() is Some ==> browser.inward()->0.reselect is None,
{
    if browser.cwd.parts.len() > 0 {
        assert(browser.cwd.parts.drop_last() + seq![browser.cwd.parts.last()]
            =~= browser.cwd.parts);
    }
}

/// Going to a directory leads into it; going to a file leads to the directory
/// that holds it and selects it there.
pub proof fn going_to_a_file_selects_it(browser: BrowserView, dir: LocationView, name: Seq<char>)
    requires
        name != "."@,
        name != ".."@,
    ensures
        browser.toward(dir, true).dir == dir,
        browser.toward(dir, true).reselect is None,
        ({
            let file = LocationView { anchor: dir.anchor, parts: dir.parts.push(name) };
            &&& browser.toward(file, false).dir == dir
            &&& browser.toward(file, false).reselect == Some(name)
        }),
{
    assert(dir.parts.push(name).drop_last() =~= dir.parts);
}

/// Reading the current directory again changes nothing where it still holds
/// what it held and no name stands there twice: the place, the filter, the
/// rows, the cursor and both trails stay.
pub proof fn refreshing_an_unchanged_directory_changes_nothing(
    browser: BrowserView,
    entries: Seq<ItemView>,
)
    requires
        browser.wf(),
        browser.items == browse::listed(entries),
        browser.selected < browser.rows.len() || browser.selected == 0,
        forall|i: int, j: int|
            0 <= i < browser.rows.len() && 0 <= j < browser.rows.len()
                && browser.items[(#[trigger] browser.rows[i]).index as int].name
                == browser.items[(#[trigger] browser.rows[j]).index as int].name ==> i == j,
    ensures
        browser.arrived(browser.again(), entries) == browser,
{
    if browser.selected < browser.rows.len() {
        lemma_row_found(
            browser.items,
            browser.rows,
            browser.current()->0.name,
            0,
            browser.selected as int,
        );
        let at = browse::row_named(
            browser.items,
            browser.rows,
            browser.current()->0.name,
            0,
        )->0;
        assert(browser.rows[at].index == browser.rows[at].index);
        assert(browser.rows[browser.selected as int].index
            == browser.rows[browser.selected as int].index);
        assert(at == browser.selected);
    }
    assert(browser.arrived(browser.again(), entries) =~= browser);
}

proof fn lemma_row_found(
    items: Seq<ItemView>,
    rows: Seq<browse::RowView>,
    name: Seq<char>,
    from: int,
    at: int,
)
    requires
        0 <= from <= at < rows.len(),
        items[rows[at].index as int].name == name,
    ensures
        browse::row_named(items, rows, name, from) is Some,
        from <= browse::row_named(items, rows, name, from)->0 <= at,
        items[rows[browse::row_named(items, rows, name, from)->0].index as int].name == name,
        forall|k: int|
            from <= k < browse::row_named(items, rows, name, from)->0
                ==> items[(#[trigger] rows[k]).index as int].name != name,
    decreases at - from,
{
    if items[rows[from].index as int].name != name {
        lemma_row_found(items, rows, name, from + 1, at);
    }
}

proof fn lemma_row_missing(
    items: Seq<ItemView>,
    rows: Seq<browse::RowView>,
    name: Seq<char>,
    from: int,
)
    requires
        0 <= from,
        forall|k: int|
            from <= k < rows.len() ==> items[(#[trigger] rows[k]).index as int].name != name,
    ensures
        browse::row_named(items, rows, name, from) is None,
    decreases rows.len() - from,
{
    if from < rows.len() {
        assert(items[rows[from].index as int].name != name);
        lemma_row_missing(items, rows, name, from + 1);
    }
}

/// On arrival the cursor stands on the first row that shows the name to be
/// selected; where no row shows it, or none is to be, it stands on the first.
pub proof fn arriving_selects_the_name_asked_for(
    browser: BrowserView,
    visit: VisitView,
    entries: Seq<ItemView>,
    k: int,
)
    requires
        browser.arrived(visit, entries).rows.len() <= usize::MAX,
    ensures
        ({
            let out = browser.arrived(visit, entries);
            let shows = |at: int|
                out.items[out.rows[at].index as int].name == visit.reselect->0;
            &&& visit.reselect is None ==> out.selected == 0
            &&& visit.reselect is Some && 0 <= k < out.rows.len() && shows(k) ==> out.selected <= k
                && shows(out.selected as int)
            &&& visit.reselect is Some && (forall|at: int|
                0 <= at < out.rows.len() ==> !#[trigger] shows(at)) ==> out.selected == 0
        }),
{
    let out = browser.arrived(visit, entries);
    let shows = |at: int| out.items[out.rows[at].index as int].name == visit.reselect->0;
    if visit.reselect is Some {
        let name = visit.reselect->0;
        if 0 <= k < out.rows.len() && shows(k) {
            lemma_row_found(out.items, out.rows, name, 0, k);
        }
        if forall|at: int| 0 <= at < out.rows.len() ==> !#[trigger] shows(at) {
            assert forall|at: int| 0 <= at < out.rows.len() implies out.items[(
            #[trigger] out.rows[at]).index as int].name != name by {
                assert(!shows(at));
            }
            lemma_row_missing(out.items, out.rows, name, 0);
        }
    }
}

/// On arrival the place, the listing and both trails are those of the move, and
/// the rows are those that the filter leaves; the filter is empty unless the
/// move keeps it.
pub proof fn arriving_shows_the_new_directory(
    browser: BrowserView,
    visit: VisitView,
    entries: Seq<ItemView>,
)
    ensures
        ({
            let out = browser.arrived(visit, entries);
            &&& out.cwd == visit.dir
            &&& out.items == browse::listed(entries)
            &&& out.back == visit.back
            &&& out.ahead == visit.ahead
            &&& visit.keep_filter ==> out.filter == browser.filter
            &&& !visit.keep_filter ==> out.filter.len() == 0
            &&& !visit.keep_filter ==> out.rows.len() == out.items.len()
            &&& out.rows == browse::rows_of(out.items, out.filter)
        }),
{
}

/// A fresh browser shows all of the directory, with the cursor on the first
/// row and nowhere to go back or forward to.
pub proof fn a_fresh_browser_shows_everything(cwd: LocationView, entries: Seq<ItemView>, k: int)
    requires
        browse::listed(entries).len() <= usize::MAX,
    ensures
        ({
            let out = BrowserView::opened(cwd, entries);
            &&& out.cwd == cwd
            &&& out.items == browse::listed(entries)
            &&& out.rows.len() == out.items.len()
            &&& 0 <= k < out.rows.len() ==> out.rows[k].index == k && out.rows[k].hits.len() == 0
            &&& out.filter.len() == 0
            &&& out.selected == 0
            &&& out.back.len() == 0
            &&& out.ahead.len() == 0
        }),
{
}

/// Reading again stays in the directory, keeps the filter and both trails, and
/// asks for the entry under the cursor.
pub proof fn refreshing_keeps_the_place(browser: BrowserView)
    ensures
        browser.again().dir == browser.cwd,
        browser.again().keep_filter,
        browser.again().back == browser.back,
        browser.again().ahead == browser.ahead,
        browser.selected < browser.rows.len() ==> browser.again().reselect == Some(
            browser.items[browser.rows[browser.selected as int].index as int].name,
        ),
        browser.selected >= browser.rows.len() ==> browser.again().reselect is None,
{
}

/// Going back takes the nearest directory that is still there, drops it and
/// those past it from the trail, and puts the one left on the other trail; so
/// does going forward, the other way round.
pub proof fn retracing_takes_the_nearest_directory(browser: BrowserView, skipped: int)
    requires
        0 <= skipped,
    ensures
        skipped < browser.back.len() ==> {
            let visit = browser.along(false, skipped);
            &&& visit.dir == browser.back[browser.back.len() - 1 - skipped]
            &&& visit.back.len() == browser.back.len() - 1 - skipped
            &&& forall|i: int| 0 <= i < visit.back.len() ==> visit.back[i] == browser.back[i]
            &&& visit.ahead == browser.ahead + seq![browser.cwd]
            &&& visit.reselect is None && !visit.keep_filter
        },
        skipped < browser.ahead.len() ==> {
            let visit = browser.along(true, skipped);
            &&& visit.dir == browser.ahead[browser.ahead.len() - 1 - skipped]
            &&& visit.ahead.len() == browser.ahead.len() - 1 - skipped
            &&& forall|i: int| 0 <= i < visit.ahead.len() ==> visit.ahead[i] == browser.ahead[i]
            &&& visit.back == browser.back + seq![browser.cwd]
            &&& visit.reselect is None && !visit.keep_filter
        },
{
    assert(browser.ahead.push(browser.cwd) =~= browser.ahead + seq![browser.cwd]);
    assert(browser.back.push(browser.cwd) =~= browser.back + seq![browser.cwd]);
}

/// The cursor moves by as many rows as asked and stops at the ends; nothing
/// else changes. From a row away from the ends, moving back undoes a move.
pub proof fn the_cursor_stops_at_the_ends(browser: BrowserView, delta: int)
    requires
        browser.selected < browser.rows.len(),
        browser.rows.len() <= usize::MAX,
    ensures
        ({
            let out = browser.moved(delta);
            let next = browser.selected + delta;
            &&& 0 <= next < browser.rows.len() ==> out.selected == next
            &&& next < 0 ==> out.selected == 0
            &&& next >= browser.rows.len() ==> out.selected == browser.rows.len() - 1
            &&& out == (BrowserView { selected: out.selected, ..browser })
            &&& 0 <= next < browser.rows.len() ==> out.moved(-delta) == browser
        }),
{
}

/// A filter changes neither the place, nor the listing, nor the trails, and
/// puts the cursor on the best row. Filters do not add up: the last one counts.
pub proof fn the_last_filter_counts(browser: BrowserView, one: Seq<char>, two: Seq<char>)
    ensures
        ({
            let out = browser.filtered(one);
            &&& out.cwd == browser.cwd
            &&& out.items == browser.items
            &&& out.back == browser.back
            &&& out.ahead == browser.ahead
            &&& out.filter == one
            &&& out.selected == 0
            &&& out.filtered(two) == browser.filtered(two)
        }),
{
}

/// Each row marks the places that the filter matched in its own name, each
/// once and in order.
pub proof fn rows_mark_what_the_filter_matched(
    items: Seq<ItemView>,
    filter: Seq<char>,
    k: int,
    hit: u32,
)
    requires
        filter.len() > 0,
        0 <= k < browse::rows_of(items, filter).len(),
    ensures
        ({
            let row = browse::rows_of(items, filter)[k];
            let found = crate::fuzzy::marked(filter, items[row.index as int].name).1;
            &&& row.hits.contains(hit) == found.contains(hit)
            &&& forall|i: int, j: int| 0 <= i < j < row.hits.len() ==> row.hits[i] < row.hits[j]
        }),
{
    let row = browse::rows_of(items, filter)[k];
    order::lemma_ascending(crate::fuzzy::marked(filter, items[row.index as int].name).1);
}

/// Directories stand before files in a listing, and each group in the order of
/// its names without regard to case.
pub proof fn directories_stand_first(entries: Seq<ItemView>, i: int, j: int)
    requires
        0 <= i < j < browse::listed(entries).len(),
    ensures
        ({
            let items = browse::listed(entries);
            &&& items[j].is_dir ==> items[i].is_dir
            &&& items[i].is_dir == items[j].is_dir ==> !order::text_less(
                crate::text::unicode_lower(items[j].name),
                crate::text::unicode_lower(items[i].name),
            )
        }),
{
    browse::a_listing_is_in_order(entries);
    let items = browse::taken(entries);
    let keys = browse::sort_keys(items);
    let order = browse::arrangement(items);
    assert(order::precedes(keys, order[i] as int, order[j] as int));
    order::lemma_precedes_asymmetric(keys, order[i] as int, order[j] as int);
    assert(browse::listed(entries)[i] == items[order[i] as int]);
    assert(browse::listed(entries)[j] == items[order[j] as int]);
}

/// A listing holds every entry of a directory of ordinary size, and only such
/// entries; of a larger one it holds as many as the limit, from the first on.
pub proof fn a_listing_leaves_nothing_out(entries: Seq<ItemView>, k: int)
    ensures
        entries.len() <= browse::DIR_LIMIT ==> browse::listed(entries).len() == entries.len(),
        entries.len() > browse::DIR_LIMIT ==> browse::listed(entries).len() == browse::DIR_LIMIT,
        0 <= k < entries.len() && k < browse::DIR_LIMIT ==> browse::listed(entries).contains(
            entries[k],
        ),
        0 <= k < browse::listed(entries).len() ==> entries.contains(browse::listed(entries)[k]),
{
    browse::a_listing_is_in_order(entries);
    let items = browse::taken(entries);
    let order = browse::arrangement(items);
    let out = browse::listed(entries);
    if 0 <= k < entries.len() && k < browse::DIR_LIMIT {
        assert(order.contains(k as usize));
        let p = order.index_of(k as usize);
        assert(out[p] == items[k]);
    }
    if 0 <= k < out.len() {
        let at = order[k] as int;
        assert(out[k] == items[at]);
        assert(order::is_order(browse::sort_keys(items), order, 0, items.len() as int));
        assert(items[at] == entries[at]);
    }
}

/// A directory is shown with a separator behind its name, a file by its name.
pub proof fn directories_are_told_from_files(item: ItemView, platform: crate::paths::Platform)
    ensures
        item.is_dir && platform is Windows ==> item.shown(platform) == item.name + seq!['\\'],
        item.is_dir && !(platform is Windows) ==> item.shown(platform) == item.name + seq!['/'],
        !item.is_dir ==> item.shown(platform) == item.name,
{
    assert(item.name.push(platform.sep()) =~= item.name + seq![platform.sep()]);
}

proof fn lemma_first_named(items: Seq<ItemView>, name: Seq<char>, from: int, at: int)
    requires
        0 <= from <= at < items.len(),
        items.len() <= usize::MAX,
        items[at].name == name,
        forall|k: int| from <= k < at ==> (#[trigger] items[k]).name != name,
    ensures
        browse::first_named(items, Some(name), from) == Some(at as usize),
    decreases at - from,
{
    if from < at {
        assert(items[from].name != name);
        lemma_first_named(items, name, from + 1, at);
    }
}

proof fn lemma_none_named(items: Seq<ItemView>, name: Seq<char>, from: int)
    requires
        0 <= from,
        forall|k: int| from <= k < items.len() ==> (#[trigger] items[k]).name != name,
    ensures
        browse::first_named(items, Some(name), from) is None,
    decreases items.len() - from,
{
    if from < items.len() {
        assert(items[from].name != name);
        lemma_none_named(items, name, from + 1);
    }
}

/// In the listing of the directory above, the entry marked is the first one
/// with the name of the current directory; where there is none, none is.
pub proof fn the_listing_above_marks_where_one_is(items: Seq<ItemView>, name: Seq<char>, at: int)
    requires
        items.len() <= usize::MAX,
    ensures
        0 <= at < items.len() && items[at].name == name && (forall|k: int|
            0 <= k < at ==> (#[trigger] items[k]).name != name) ==> browse::first_named(
            items,
            Some(name),
            0,
        ) == Some(at as usize),
        (forall|k: int| 0 <= k < items.len() ==> (#[trigger] items[k]).name != name)
            ==> browse::first_named(items, Some(name), 0) is None,
        browse::first_named(items, None, 0) is None,
{
    if 0 <= at < items.len() && items[at].name == name && (forall|k: int|
        0 <= k < at ==> (#[trigger] items[k]).name != name) {
        lemma_first_named(items, name, 0, at);
    }
    if forall|k: int| 0 <= k < items.len() ==> (#[trigger] items[k]).name != name {
        lemma_none_named(items, name, 0);
    }
}

/// A filter shows an entry exactly if the filter matches the entry's own name,
/// and a better match stands above a worse one.
pub proof fn a_filter_goes_by_the_names(browser: BrowserView, filter: Seq<char>, i: int, a: int, b: int)
    requires
        browser.items.len() <= usize::MAX,
        filter.len() > 0,
        0 <= i < browser.items.len(),
    ensures
        ({
            let out = browser.filtered(filter);
            let of = |at: int| crate::fuzzy::marked(filter, browser.items[at].name).0;
            &&& of(i) is Some ==> exists|k: int|
                0 <= k < out.rows.len() && (#[trigger] out.rows[k]).index == i
            &&& of(i) is None ==> forall|k: int|
                0 <= k < out.rows.len() ==> (#[trigger] out.rows[k]).index != i
            &&& 0 <= a < b < out.rows.len() ==> of(out.rows[a].index as int)->0 >= of(
                out.rows[b].index as int,
            )->0 && out.rows[a].index != out.rows[b].index
        }),
{
    let out = browser.filtered(filter);
    let scores = browse::scores(browser.items, filter);
    let ranked = order::ranking(scores);
    order::a_ranking_puts_higher_scores_first(scores, i, a, b);
    order::lemma_ranking_holds(scores);
    if crate::fuzzy::marked(filter, browser.items[i].name).0 is Some {
        assert(ranked.contains(i as usize));
        let k = ranked.index_of(i as usize);
        assert(out.rows[k].index == i);
    } else {
        assert forall|k: int| 0 <= k < out.rows.len() implies (#[trigger] out.rows[k]).index
            != i by {
            assert(scores[ranked[k] as int] is Some);
        }
    }
}

} // verus!
