//! Browsing: walking the tree one level at a time. Typing narrows the current
//! level only.
use crate::fuzzy;
use crate::order;
use crate::order::{distinct_ascending, rank, stable_order, SortKey};
use crate::paths;
use crate::paths::{Location, Platform};
use crate::text;
use crate::text::{chars_of, same, to_lower};
use vstd::prelude::*;

verus! {

/// The most entries taken from one directory, so that a pathological folder
/// does not freeze the picker.
pub const DIR_LIMIT: usize = 20_000;

/// One entry of a directory.
#[derive(Debug, PartialEq, Eq)]
pub struct Item {
    pub name: String,
    pub is_dir: bool,
}

/// An entry as mathematical values.
#[verifier::ext_equal]
pub struct ItemView {
    pub name: Seq<char>,
    pub is_dir: bool,
}

impl View for Item {
    type V = ItemView;

    open spec fn view(&self) -> ItemView {
        ItemView { name: self.name@, is_dir: self.is_dir }
    }
}

impl Clone for Item {
    fn clone(&self) -> (copy: Self)
        ensures
            copy@ == self@,
    {
        Item { name: self.name.clone(), is_dir: self.is_dir }
    }
}

impl ItemView {
    /// The name as it is shown: directories carry a separator at the end.
    pub open spec fn shown(self, platform: Platform) -> Seq<char> {
        if self.is_dir {
            self.name.push(platform.sep())
        } else {
            self.name
        }
    }
}

impl Item {
    /// The name as it is shown: directories carry a separator at the end.
    pub fn label(&self, platform: Platform) -> (label: String)
        ensures
            label@ == self@.shown(platform),
    {
        let mut label = self.name.clone();
        if self.is_dir {
            label.push(platform.separator());
        }
        label
    }
}

/// By what an entry is sorted: directories first, then by name without regard
/// to case.
pub open spec fn sort_key(item: ItemView) -> order::KeyView {
    order::KeyView {
        rank: if item.is_dir {
            0
        } else {
            1
        },
        text: text::unicode_lower(item.name),
    }
}

/// By what the entries are sorted.
pub open spec fn sort_keys(items: Seq<ItemView>) -> Seq<order::KeyView> {
    items.map_values(|item: ItemView| sort_key(item))
}

/// The order in which the entries stand.
pub open spec fn arrangement(items: Seq<ItemView>) -> Seq<usize> {
    choose|order: Seq<usize>| order::is_order(sort_keys(items), order, 0, items.len() as int)
}

/// As many entries as are taken from a directory.
pub open spec fn taken(entries: Seq<ItemView>) -> Seq<ItemView> {
    if entries.len() > DIR_LIMIT {
        entries.take(DIR_LIMIT as int)
    } else {
        entries
    }
}

/// What is listed of a directory's entries: directories first, each group
/// sorted without regard to case.
pub open spec fn listed(entries: Seq<ItemView>) -> Seq<ItemView> {
    let items = taken(entries);
    let order = arrangement(items);
    Seq::new(items.len(), |k: int| items[order[k] as int])
}

/// A listing holds what was taken from the directory, each entry as often as it
/// came and no other, in the order of the keys; entries with the same key stand
/// in the order in which they were read.
pub proof fn a_listing_is_in_order(entries: Seq<ItemView>)
    ensures
        order::is_order(
            sort_keys(taken(entries)),
            arrangement(taken(entries)),
            0,
            taken(entries).len() as int,
        ),
        arrangement(taken(entries)).no_duplicates(),
        forall|at: int|
            0 <= at < taken(entries).len() ==> #[trigger] arrangement(taken(entries)).contains(
                at as usize,
            ),
        listed(entries).len() == taken(entries).len(),
        forall|k: int|
            0 <= k < listed(entries).len() ==> #[trigger] listed(entries)[k] == taken(
                entries,
            )[arrangement(taken(entries))[k] as int],
{
    let items = taken(entries);
    let keys = sort_keys(items);
    let order = arrangement(items);
    order::lemma_order_holds(keys);
    assert(order::is_order(keys, order, 0, items.len() as int));
    assert forall|at: int| 0 <= at < items.len() implies #[trigger] order.contains(
        at as usize,
    ) by {
        order::lemma_order_complete(keys, order, at);
    }
    assert forall|a: int, b: int|
        0 <= a < order.len() && 0 <= b < order.len() && a != b implies order[a] != order[b] by {
        if a < b {
            order::lemma_precedes_asymmetric(keys, order[a] as int, order[b] as int);
        } else {
            order::lemma_precedes_asymmetric(keys, order[b] as int, order[a] as int);
        }
    }
}

/// Whether the names are short enough to be matched.
pub open spec fn matchable(items: Seq<ItemView>) -> bool {
    forall|i: int| 0 <= i < items.len() ==> (#[trigger] items[i]).name.len() <= fuzzy::TEXT_LIMIT
}

/// What is listed of a directory's entries, given in the order in which they
/// were read.
pub fn read_dir(entries: Vec<Item>) -> (items: Vec<Item>)
    ensures
        text::views(items@) == listed(text::views(entries@)),
        order::is_order(
            sort_keys(taken(text::views(entries@))),
            arrangement(taken(text::views(entries@))),
            0,
            taken(text::views(entries@)).len() as int,
        ),
        items@.len() == taken(text::views(entries@)).len(),
        forall|e: ItemView| #[trigger]
            taken(text::views(entries@)).contains(e) ==> text::views(items@).contains(e),
        forall|i: int, j: int|
            #![trigger items@[i], items@[j]]
            0 <= i < j < items@.len() && items@[j].is_dir ==> items@[i].is_dir,
        forall|i: int, j: int|
            0 <= i < j < items@.len() && items@[i].is_dir == items@[j].is_dir ==> !order::text_less(
                text::unicode_lower((#[trigger] items@[j]).name@),
                text::unicode_lower((#[trigger] items@[i]).name@),
            ),
        matchable(text::views(entries@)) ==> matchable(text::views(items@)),
{
    let ghost all = text::views(entries@);
    let mut entries = entries;
    entries.truncate(DIR_LIMIT);
    let ghost kept = text::views(entries@);
    assert(kept =~= taken(all));
    let mut keys: Vec<SortKey> = Vec::new();
    let mut i: usize = 0;
    assert(text::views(keys@) =~= sort_keys(kept.take(0)));
    while i < entries.len()
        invariant
            i <= entries@.len(),
            kept == text::views(entries@),
            text::views(keys@) == sort_keys(kept.take(i as int)),
        decreases entries@.len() - i,
    {
        let lower = to_lower(entries[i].name.as_str());
        let key = SortKey {
            rank: if entries[i].is_dir {
                0
            } else {
                1
            },
            text: chars_of(lower.as_str()),
        };
        proof {
            text::lemma_views_push(keys@, key);
            assert(kept[i as int] == entries@[i as int]@);
            assert(sort_keys(kept.take(i + 1)) =~= sort_keys(kept.take(i as int)).push(key@));
        }
        keys.push(key);
        i += 1;
    }
    assert(kept.take(i as int) =~= kept);
    let ghost views = sort_keys(kept);
    let found = stable_order(&keys);
    let count: usize = entries.len();
    proof {
        assert(order::is_order(views, found@, 0, kept.len() as int));
        let chosen = arrangement(kept);
        assert(order::is_order(views, chosen, 0, kept.len() as int));
        order::lemma_order_unique(views, found@, chosen);
    }
    let mut items: Vec<Item> = Vec::new();
    let mut k: usize = 0;
    while k < found.len()
        invariant
            k <= found@.len() == kept.len(),
            kept == text::views(entries@),
            kept == taken(all),
            found@ == arrangement(kept),
            order::is_order(sort_keys(kept), found@, 0, kept.len() as int),
            text::views(items@) == listed(all).take(k as int),
        decreases found@.len() - k,
    {
        let item = entries[found[k]].clone();
        proof {
            text::lemma_views_push(items@, item);
            assert(kept[found@[k as int] as int] == item@);
            assert(listed(all).take(k + 1) =~= listed(all).take(k as int).push(item@));
        }
        items.push(item);
        k += 1;
    }
    proof {
        let out = text::views(items@);
        assert(listed(all).take(k as int) =~= listed(all));
        assert(out == listed(all));
        assert forall|e: ItemView| #[trigger] kept.contains(e) implies out.contains(e) by {
            let at = kept.index_of(e);
            order::lemma_order_complete(views, found@, at);
            let p = found@.index_of(at as usize);
            assert(out[p] == kept[at]);
        }
        assert forall|a: int, b: int|
            0 <= a < b < items@.len() implies order::precedes(
            views,
            found@[a] as int,
            found@[b] as int,
        ) && (#[trigger] items@[a])@ == kept[found@[a] as int] && (#[trigger] items@[b])@
            == kept[found@[b] as int] by {
            assert(out[a] == items@[a]@);
            assert(out[b] == items@[b]@);
        }
        assert forall|a: int, b: int|
            0 <= a < b < items@.len() && items@[a].is_dir == items@[b].is_dir implies !order::text_less(
            text::unicode_lower((#[trigger] items@[b]).name@),
            text::unicode_lower((#[trigger] items@[a]).name@),
        ) by {
            order::lemma_precedes_asymmetric(views, found@[a] as int, found@[b] as int);
        }
        if matchable(all) {
            assert forall|a: int| 0 <= a < out.len() implies (#[trigger] out[a]).name.len()
                <= fuzzy::TEXT_LIMIT by {
                assert(out[a] == kept[found@[a] as int]);
                assert(kept[found@[a] as int] == all[found@[a] as int]);
            }
        }
    }
    items
}

/// One row of the middle column after filtering.
#[derive(Debug, PartialEq, Eq)]
pub struct Row {
    pub index: usize,
    /// The positions that the filter matched, ascending, for highlighting.
    pub hits: Vec<u32>,
}

/// A row as mathematical values.
#[verifier::ext_equal]
pub struct RowView {
    pub index: usize,
    pub hits: Seq<u32>,
}

impl View for Row {
    type V = RowView;

    open spec fn view(&self) -> RowView {
        RowView { index: self.index, hits: self.hits@ }
    }
}

/// The scores that a filter gives the entries.
pub open spec fn scores(items: Seq<ItemView>, filter: Seq<char>) -> Seq<Option<u32>> {
    items.map_values(|item: ItemView| fuzzy::marked(filter, item.name).0)
}

/// The rows that a filter leaves: those that match, best first, or all of
/// them in order where there is no filter.
pub open spec fn rows_of(items: Seq<ItemView>, filter: Seq<char>) -> Seq<RowView> {
    if filter.len() == 0 {
        Seq::new(items.len(), |i: int| RowView { index: i as usize, hits: Seq::empty() })
    } else {
        let ranked = order::ranking(scores(items, filter));
        Seq::new(
            ranked.len(),
            |k: int|
                RowView {
                    index: ranked[k],
                    hits: order::ascending(
                        fuzzy::marked(filter, items[ranked[k] as int].name).1,
                    ),
                },
        )
    }
}

/// The first row whose entry has the given name.
pub open spec fn row_named(
    items: Seq<ItemView>,
    rows: Seq<RowView>,
    name: Seq<char>,
    from: int,
) -> Option<int>
    decreases rows.len() - from,
{
    if from >= rows.len() {
        None
    } else if items[rows[from].index as int].name == name {
        Some(from)
    } else {
        row_named(items, rows, name, from + 1)
    }
}

/// The row to select when a listing is shown anew.
pub open spec fn selection(
    items: Seq<ItemView>,
    rows: Seq<RowView>,
    reselect: Option<Seq<char>>,
) -> usize {
    match reselect {
        Some(name) => match row_named(items, rows, name, 0) {
            Some(at) => at as usize,
            None => 0,
        },
        None => 0,
    }
}

/// A move to a directory, worked out before the directory is read.
#[derive(Debug)]
pub struct Visit {
    pub dir: Location,
    /// The name to select there.
    pub reselect: Option<String>,
    /// Whether the filter stays.
    pub keep_filter: bool,
    /// The directories to go back to afterwards, nearest last.
    pub back: Vec<Location>,
    /// The directories to go forward to afterwards, nearest last.
    pub ahead: Vec<Location>,
}

/// A move as mathematical values.
#[verifier::ext_equal]
pub struct VisitView {
    pub dir: paths::LocationView,
    pub reselect: Option<Seq<char>>,
    pub keep_filter: bool,
    pub back: Seq<paths::LocationView>,
    pub ahead: Seq<paths::LocationView>,
}

impl View for Visit {
    type V = VisitView;

    open spec fn view(&self) -> VisitView {
        VisitView {
            dir: self.dir@,
            reselect: text::inside(self.reselect),
            keep_filter: self.keep_filter,
            back: text::views(self.back@),
            ahead: text::views(self.ahead@),
        }
    }
}

/// Where the user is while browsing.
pub struct Browser {
    pub cwd: Location,
    pub items: Vec<Item>,
    pub filter: String,
    pub rows: Vec<Row>,
    pub selected: usize,
    pub matcher: nucleo::Matcher,
    pub back: Vec<Location>,
    pub ahead: Vec<Location>,
}

/// Where the user is while browsing, as mathematical values.
#[verifier::ext_equal]
pub struct BrowserView {
    pub cwd: paths::LocationView,
    pub items: Seq<ItemView>,
    pub filter: Seq<char>,
    pub rows: Seq<RowView>,
    pub selected: usize,
    pub back: Seq<paths::LocationView>,
    pub ahead: Seq<paths::LocationView>,
}

impl View for Browser {
    type V = BrowserView;

    open spec fn view(&self) -> BrowserView {
        BrowserView {
            cwd: self.cwd@,
            items: text::views(self.items@),
            filter: self.filter@,
            rows: text::views(self.rows@),
            selected: self.selected,
            back: text::views(self.back@),
            ahead: text::views(self.ahead@),
        }
    }
}

impl BrowserView {
    /// The rows are those that the filter leaves of the listing.
    pub open spec fn wf(self) -> bool {
        &&& matchable(self.items)
        &&& self.filter.len() <= fuzzy::QUERY_LIMIT
        &&& self.rows == rows_of(self.items, self.filter)
        &&& forall|k: int|
            0 <= k < self.rows.len() ==> (#[trigger] self.rows[k]).index < self.items.len()
    }

    /// A browser in a directory with the given entries, come from nowhere.
    pub open spec fn opened(cwd: paths::LocationView, entries: Seq<ItemView>) -> BrowserView {
        let items = listed(entries);
        BrowserView {
            cwd,
            items,
            filter: Seq::empty(),
            rows: rows_of(items, Seq::empty()),
            selected: 0,
            back: Seq::empty(),
            ahead: Seq::empty(),
        }
    }

    /// The entry under the cursor.
    pub open spec fn current(self) -> Option<ItemView> {
        if self.selected < self.rows.len() {
            Some(self.items[self.rows[self.selected as int].index as int])
        } else {
            None
        }
    }

    /// The place of the entry under the cursor.
    pub open spec fn current_path(self) -> Option<paths::LocationView> {
        match self.current() {
            Some(item) => Some(self.cwd.child(item.name)),
            None => None,
        }
    }

    /// The directory to cd into: the selected one, or the current one where a
    /// file or nothing is selected.
    pub open spec fn destination(self) -> paths::LocationView {
        match self.current() {
            Some(item) => if item.is_dir {
                self.cwd.child(item.name)
            } else {
                self.cwd
            },
            None => self.cwd,
        }
    }

    /// A move to a directory that starts a new trail forward.
    pub open spec fn onward(
        self,
        dir: paths::LocationView,
        reselect: Option<Seq<char>>,
    ) -> VisitView {
        VisitView {
            dir,
            reselect,
            keep_filter: false,
            back: self.back.push(self.cwd),
            ahead: Seq::empty(),
        }
    }

    /// The move into the selected directory.
    pub open spec fn inward(self) -> Option<VisitView> {
        match self.current() {
            Some(item) => if item.is_dir {
                Some(self.onward(self.cwd.child(item.name), None))
            } else {
                None
            },
            None => None,
        }
    }

    /// The move to the directory above, where the one just left is selected.
    pub open spec fn upward(self) -> Option<VisitView> {
        match self.cwd.parent() {
            Some(parent) => Some(self.onward(parent, self.cwd.file_name())),
            None => None,
        }
    }

    /// The move to a place: into a directory, or to where a file is, which is
    /// then selected.
    pub open spec fn toward(self, path: paths::LocationView, is_dir: bool) -> VisitView {
        match (is_dir, path.parent()) {
            (false, Some(parent)) => self.onward(parent, path.file_name()),
            _ => self.onward(path, None),
        }
    }

    /// The move that reads the current directory again.
    pub open spec fn again(self) -> VisitView {
        VisitView {
            dir: self.cwd,
            reselect: match self.current() {
                Some(item) => Some(item.name),
                None => None,
            },
            keep_filter: true,
            back: self.back,
            ahead: self.ahead,
        }
    }

    /// The directories visited before, or those gone back from.
    pub open spec fn trail(self, forward: bool) -> Seq<paths::LocationView> {
        if forward {
            self.ahead
        } else {
            self.back
        }
    }

    /// The move along the trail past `skipped` directories that are no longer
    /// there.
    pub open spec fn along(self, forward: bool, skipped: int) -> VisitView {
        let trail = self.trail(forward);
        let at = trail.len() - 1 - skipped;
        VisitView {
            dir: trail[at],
            reselect: None,
            keep_filter: false,
            back: if forward {
                self.back.push(self.cwd)
            } else {
                trail.take(at)
            },
            ahead: if forward {
                trail.take(at)
            } else {
                self.ahead.push(self.cwd)
            },
        }
    }

    /// The browser after a move to a directory with the given entries.
    pub open spec fn arrived(self, visit: VisitView, entries: Seq<ItemView>) -> BrowserView {
        let items = listed(entries);
        let filter = if visit.keep_filter {
            self.filter
        } else {
            Seq::empty()
        };
        let rows = rows_of(items, filter);
        BrowserView {
            cwd: visit.dir,
            items,
            filter,
            rows,
            selected: selection(items, rows, visit.reselect),
            back: visit.back,
            ahead: visit.ahead,
        }
    }

    /// The browser with another filter, which selects the best row.
    pub open spec fn filtered(self, filter: Seq<char>) -> BrowserView {
        BrowserView { filter, rows: rows_of(self.items, filter), selected: 0, ..self }
    }

    /// The browser with the cursor moved, which stops at the ends.
    pub open spec fn moved(self, delta: int) -> BrowserView {
        let last = self.rows.len() - 1;
        let next = self.selected + delta;
        BrowserView {
            selected: if self.rows.len() == 0 || next < 0 {
                0
            } else if next > last {
                last as usize
            } else {
                next as usize
            },
            ..self
        }
    }
}

fn copy_places(places: &Vec<Location>, count: usize) -> (copy: Vec<Location>)
    requires
        count <= places@.len(),
    ensures
        text::views(copy@) == text::views(places@).take(count as int),
{
    let ghost all = text::views(places@);
    let mut copy: Vec<Location> = Vec::new();
    let mut i: usize = 0;
    assert(text::views(copy@) =~= all.take(0));
    while i < count
        invariant
            i <= count <= places@.len(),
            all == text::views(places@),
            text::views(copy@) == all.take(i as int),
        decreases count - i,
    {
        let place = places[i].clone();
        proof {
            text::lemma_views_push(copy@, place);
            assert(all.take(i + 1) =~= all.take(i as int).push(place@));
        }
        copy.push(place);
        i += 1;
    }
    copy
}

fn add_place(places: &mut Vec<Location>, place: Location)
    ensures
        text::views(final(places)@) == text::views(old(places)@).push(place@),
{
    proof {
        text::lemma_views_push(places@, place);
    }
    places.push(place);
}

/// The rows that a filter leaves of the entries.
fn filter_rows(items: &Vec<Item>, filter: &str, matcher: &mut nucleo::Matcher) -> (rows: Vec<Row>)
    requires
        matchable(text::views(items@)),
        filter@.len() <= fuzzy::QUERY_LIMIT,
    ensures
        text::views(rows@) == rows_of(text::views(items@), filter@),
        forall|k: int|
            0 <= k < rows@.len() ==> (#[trigger] text::views(rows@)[k]).index < items@.len(),
{
    let ghost all = text::views(items@);
    let count: usize = items.len();
    let mut rows: Vec<Row> = Vec::new();
    let mut i: usize = 0;
    if filter.is_empty() {
        assert(filter@.len() == 0);
        while i < count
            invariant
                i <= count == items@.len(),
                all == text::views(items@),
                filter@.len() == 0,
                text::views(rows@) == rows_of(all, filter@).take(i as int),
            decreases count - i,
        {
            let row = Row { index: i, hits: Vec::new() };
            proof {
                text::lemma_views_push(rows@, row);
                assert(row@.hits =~= Seq::<u32>::empty());
                assert(rows_of(all, filter@).take(i + 1) =~= rows_of(all, filter@).take(
                    i as int,
                ).push(row@));
            }
            rows.push(row);
            i += 1;
        }
        assert(rows_of(all, filter@).take(i as int) =~= rows_of(all, filter@));
        return rows;
    }
    let mut found: Vec<Option<u32>> = Vec::new();
    let mut marks: Vec<Vec<u32>> = Vec::new();
    while i < count
        invariant
            i <= count == items@.len(),
            all == text::views(items@),
            matchable(all),
            filter@.len() <= fuzzy::QUERY_LIMIT,
            found@ == scores(all, filter@).take(i as int),
            marks@.len() == i,
            forall|k: int|
                0 <= k < i ==> (#[trigger] marks@[k])@ == fuzzy::marked(
                    filter@,
                    all[k].name,
                ).1,
        decreases count - i,
    {
        assert(all[i as int] == items@[i as int]@);
        let (score, hits) = fuzzy::mark_text(filter, items[i].name.as_str(), matcher);
        found.push(score);
        marks.push(hits);
        i += 1;
        assert(found@ =~= scores(all, filter@).take(i as int));
    }
    assert(found@ =~= scores(all, filter@));
    let ranked = rank(&found);
    let mut k: usize = 0;
    while k < ranked.len()
        invariant
            k <= ranked@.len(),
            all == text::views(items@),
            marks@.len() == items@.len(),
            filter@.len() > 0,
            found@ == scores(all, filter@),
            order::is_ranking(found@, ranked@),
            ranked@ == order::ranking(found@),
            forall|m: int|
                0 <= m < marks@.len() ==> (#[trigger] marks@[m])@ == fuzzy::marked(
                    filter@,
                    all[m].name,
                ).1,
            text::views(rows@) == rows_of(all, filter@).take(k as int),
        decreases ranked@.len() - k,
    {
        let index: usize = ranked[k];
        let row = Row { index, hits: distinct_ascending(&marks[index]) };
        proof {
            text::lemma_views_push(rows@, row);
            assert(rows_of(all, filter@).take(k + 1) =~= rows_of(all, filter@).take(k as int).push(
                row@,
            ));
        }
        rows.push(row);
        k += 1;
    }
    proof {
        assert(rows_of(all, filter@).take(k as int) =~= rows_of(all, filter@));
        assert forall|m: int| 0 <= m < rows@.len() implies (#[trigger] text::views(rows@)[m]).index
            < items@.len() by {
            assert(rows_of(all, filter@)[m].index == ranked@[m]);
        }
    }
    rows
}

/// The row to select when a listing is shown anew.
fn choose_row(items: &Vec<Item>, rows: &Vec<Row>, reselect: &Option<String>) -> (selected: usize)
    requires
        forall|k: int|
            0 <= k < rows@.len() ==> (#[trigger] text::views(rows@)[k]).index < items@.len(),
    ensures
        selected == selection(text::views(items@), text::views(rows@), text::inside(*reselect)),
{
    let name = match reselect {
        Some(name) => name,
        None => {
            return 0;
        },
    };
    let ghost all = text::views(items@);
    let ghost shown = text::views(rows@);
    let mut i: usize = 0;
    while i < rows.len()
        invariant
            i <= rows@.len(),
            all == text::views(items@),
            shown == text::views(rows@),
            text::inside(*reselect) == Some(name@),
            forall|k: int| 0 <= k < rows@.len() ==> (#[trigger] shown[k]).index < items@.len(),
            row_named(all, shown, name@, 0) == row_named(all, shown, name@, i as int),
        decreases rows@.len() - i,
    {
        let ghost here = shown[i as int];
        assert(here == rows@[i as int]@);
        let index: usize = rows[i].index;
        assert(all[index as int] == items@[index as int]@);
        if same(items[index].name.as_str(), name.as_str()) {
            return i;
        }
        i += 1;
    }
    0
}

impl Browser {
    /// A browser in a directory with the given entries.
    pub fn new(cwd: Location, entries: Vec<Item>) -> (browser: Browser)
        requires
            matchable(text::views(entries@)),
        ensures
            browser@ == BrowserView::opened(cwd@, text::views(entries@)),
            browser@.wf(),
    {
        let items = read_dir(entries);
        let mut matcher = fuzzy::new_matcher();
        let filter = String::new();
        let rows = filter_rows(&items, filter.as_str(), &mut matcher);
        assert(filter@ =~= Seq::<char>::empty());
        let back: Vec<Location> = Vec::new();
        let ahead: Vec<Location> = Vec::new();
        assert(text::views(back@) =~= Seq::empty());
        assert(text::views(ahead@) =~= Seq::empty());
        Browser { cwd, items, filter, rows, selected: 0, matcher, back, ahead }
    }

    pub fn items(&self) -> (items: &Vec<Item>)
        ensures
            text::views(items@) == self@.items,
    {
        &self.items
    }

    pub fn rows(&self) -> (rows: &Vec<Row>)
        ensures
            text::views(rows@) == self@.rows,
    {
        &self.rows
    }

    /// The entry under the cursor.
    pub fn selected_item(&self) -> (item: Option<&Item>)
        requires
            self@.wf(),
        ensures
            match item {
                Some(item) => self@.current() == Some(item@),
                None => self@.current() is None,
            },
    {
        if self.selected < self.rows.len() {
            assert(self@.rows[self.selected as int] == self.rows@[self.selected as int]@);
            let index: usize = self.rows[self.selected].index;
            assert(self@.items[index as int] == self.items@[index as int]@);
            Some(&self.items[index])
        } else {
            None
        }
    }

    /// The place of the entry under the cursor.
    pub fn selected_path(&self) -> (path: Option<Location>)
        requires
            self@.wf(),
        ensures
            text::inside(path) == self@.current_path(),
    {
        match self.selected_item() {
            Some(item) => Some(self.cwd.child(item.name.as_str())),
            None => None,
        }
    }

    /// The directory to cd into: the selected one, or the current one where a
    /// file or nothing is selected.
    pub fn target(&self) -> (place: Location)
        requires
            self@.wf(),
        ensures
            place@ == self@.destination(),
    {
        match self.selected_item() {
            Some(item) => if item.is_dir {
                self.cwd.child(item.name.as_str())
            } else {
                self.cwd.clone()
            },
            None => self.cwd.clone(),
        }
    }

    fn onward(&self, dir: Location, reselect: Option<String>) -> (visit: Visit)
        ensures
            visit@ == self@.onward(dir@, text::inside(reselect)),
    {
        let mut back = copy_places(&self.back, self.back.len());
        assert(self@.back.take(self@.back.len() as int) =~= self@.back);
        add_place(&mut back, self.cwd.clone());
        let ahead: Vec<Location> = Vec::new();
        assert(text::views(ahead@) =~= Seq::empty());
        Visit { dir, reselect, keep_filter: false, back, ahead }
    }

    /// The move into the selected directory. Files are left alone.
    pub fn enter(&self) -> (visit: Option<Visit>)
        requires
            self@.wf(),
        ensures
            text::inside(visit) == self@.inward(),
    {
        match self.selected_item() {
            Some(item) => if item.is_dir {
                Some(self.onward(self.cwd.child(item.name.as_str()), None))
            } else {
                None
            },
            None => None,
        }
    }

    /// The move to the directory above, where the one just left is selected.
    pub fn up(&self) -> (visit: Option<Visit>)
        ensures
            text::inside(visit) == self@.upward(),
    {
        match self.cwd.parent() {
            Some(parent) => Some(self.onward(parent, self.cwd.file_name())),
            None => None,
        }
    }

    /// The move to a place: into a directory, or to where a file is, which is
    /// then selected.
    pub fn navigate_to(&self, path: &Location, is_dir: bool) -> (visit: Visit)
        ensures
            visit@ == self@.toward(path@, is_dir),
    {
        if !is_dir {
            if let Some(parent) = path.parent() {
                return self.onward(parent, path.file_name());
            }
        }
        self.onward(path.clone(), None)
    }

    /// The move that reads the current directory again.
    pub fn refresh(&self) -> (visit: Visit)
        requires
            self@.wf(),
        ensures
            visit@ == self@.again(),
    {
        let reselect = match self.selected_item() {
            Some(item) => Some(item.name.clone()),
            None => None,
        };
        assert(self@.back.take(self@.back.len() as int) =~= self@.back);
        assert(self@.ahead.take(self@.ahead.len() as int) =~= self@.ahead);
        Visit {
            dir: self.cwd.clone(),
            reselect,
            keep_filter: true,
            back: copy_places(&self.back, self.back.len()),
            ahead: copy_places(&self.ahead, self.ahead.len()),
        }
    }

    /// Whether there is anything to go back or forward to.
    pub fn has_history(&self, forward: bool) -> (yes: bool)
        ensures
            yes == (self@.trail(forward).len() > 0),
    {
        if forward {
            self.ahead.len() > 0
        } else {
            self.back.len() > 0
        }
    }

    /// The directories to go back or forward to, nearest first.
    pub fn history_places(&self, forward: bool) -> (places: Vec<Location>)
        ensures
            text::views(places@) == self@.trail(forward).reverse(),
    {
        let trail = if forward {
            &self.ahead
        } else {
            &self.back
        };
        let ghost all = self@.trail(forward);
        let count: usize = trail.len();
        let mut places: Vec<Location> = Vec::new();
        let mut i: usize = 0;
        assert(text::views(places@) =~= all.reverse().take(0));
        while i < count
            invariant
                i <= count == trail@.len(),
                all == text::views(trail@),
                text::views(places@) == all.reverse().take(i as int),
            decreases count - i,
        {
            let place = trail[count - 1 - i].clone();
            assert(all.reverse().take(i + 1) =~= all.reverse().take(i as int).push(place@));
            add_place(&mut places, place);
            i += 1;
        }
        assert(all.reverse().take(i as int) =~= all.reverse());
        places
    }

    /// The move back or forward to the nearest directory that is still there,
    /// given which of the directories are, nearest first.
    pub fn history(&self, forward: bool, available: &Vec<bool>) -> (visit: Option<Visit>)
        requires
            available@.len() == self@.trail(forward).len(),
        ensures
            match visit {
                Some(visit) => exists|skipped: int| #[trigger]
                    crate::invoke::is_first_present(available@, skipped) && visit@ == self@.along(
                        forward,
                        skipped,
                    ),
                None => forall|i: int| 0 <= i < available@.len() ==> !available@[i],
            },
    {
        let trail = if forward {
            &self.ahead
        } else {
            &self.back
        };
        let ghost all = self@.trail(forward);
        let count: usize = trail.len();
        assert(text::views(trail@) == all);
        let mut i: usize = 0;
        while i < count
            invariant
                i <= count == trail@.len() == available@.len(),
                all == text::views(trail@),
                all == self@.trail(forward),
                forall|k: int| 0 <= k < i ==> !available@[k],
            decreases count - i,
        {
            if available[i] {
                let at: usize = count - 1 - i;
                let rest = copy_places(trail, at);
                let mut other = if forward {
                    copy_places(&self.back, self.back.len())
                } else {
                    copy_places(&self.ahead, self.ahead.len())
                };
                proof {
                    assert(self@.back.take(self@.back.len() as int) =~= self@.back);
                    assert(self@.ahead.take(self@.ahead.len() as int) =~= self@.ahead);
                    assert(crate::invoke::is_first_present(available@, i as int));
                }
                add_place(&mut other, self.cwd.clone());
                let dir = trail[at].clone();
                assert(all[at as int] == trail@[at as int]@);
                let visit = if forward {
                    Visit { dir, reselect: None, keep_filter: false, back: other, ahead: rest }
                } else {
                    Visit { dir, reselect: None, keep_filter: false, back: rest, ahead: other }
                };
                assert(visit@ == self@.along(forward, i as int));
                return Some(visit);
            }
            i += 1;
        }
        None
    }

    /// Completes a move: the directory now shows the given entries.
    pub fn arrive(&mut self, visit: Visit, entries: Vec<Item>)
        requires
            old(self)@.wf(),
            matchable(text::views(entries@)),
        ensures
            final(self)@ == old(self)@.arrived(visit@, text::views(entries@)),
            final(self)@.wf(),
    {
        let items = read_dir(entries);
        let filter = if visit.keep_filter {
            self.filter.clone()
        } else {
            String::new()
        };
        assert(filter@ =~= if visit.keep_filter {
            self@.filter
        } else {
            Seq::empty()
        });
        let rows = filter_rows(&items, filter.as_str(), &mut self.matcher);
        self.selected = choose_row(&items, &rows, &visit.reselect);
        self.items = items;
        self.rows = rows;
        self.filter = filter;
        self.cwd = visit.dir;
        self.back = visit.back;
        self.ahead = visit.ahead;
    }

    /// Moves the cursor, which stops at the ends.
    pub fn move_selection(&mut self, delta: isize)
        ensures
            final(self)@ == old(self)@.moved(delta as int),
    {
        let count: usize = self.rows.len();
        assert(self@.rows.len() == count);
        if count == 0 {
            self.selected = 0;
            return;
        }
        let last: usize = count - 1;
        let next: i128 = self.selected as i128 + delta as i128;
        self.selected = if next < 0 {
            0
        } else if next > last as i128 {
            last
        } else {
            next as usize
        };
    }

    /// Narrows the listing and selects the best row.
    pub fn set_filter(&mut self, filter: &str)
        requires
            old(self)@.wf(),
            filter@.len() <= fuzzy::QUERY_LIMIT,
        ensures
            final(self)@ == old(self)@.filtered(filter@),
            final(self)@.wf(),
    {
        self.filter = filter.to_owned();
        self.rows = filter_rows(&self.items, filter, &mut self.matcher);
        self.selected = 0;
    }

    /// The listing of the parent directory, given its entries, and the place
    /// of the current directory in it.
    pub fn parent_listing(&self, entries: Vec<Item>) -> (listing: Option<
        (Vec<Item>, Option<usize>),
    >)
        ensures
            match listing {
                Some((items, here)) => self@.cwd.parent() is Some && text::views(items@) == listed(
                    text::views(entries@),
                ) && here == first_named(text::views(items@), self@.cwd.file_name(), 0),
                None => self@.cwd.parent() is None,
            },
    {
        if !self.cwd.has_parent() {
            return None;
        }
        let items = read_dir(entries);
        let ghost all = text::views(items@);
        let name = match self.cwd.file_name() {
            Some(name) => name,
            None => {
                return Some((items, None));
            },
        };
        let mut i: usize = 0;
        while i < items.len()
            invariant
                i <= items@.len(),
                all == text::views(items@),
                all == listed(text::views(entries@)),
                self@.cwd.parent() is Some,
                self@.cwd.file_name() == Some(name@),
                first_named(all, Some(name@), 0) == first_named(all, Some(name@), i as int),
            decreases items@.len() - i,
        {
            assert(all[i as int] == items@[i as int]@);
            if same(items[i].name.as_str(), name.as_str()) {
                return Some((items, Some(i)));
            }
            i += 1;
        }
        Some((items, None))
    }
}

/// The first entry from `from` on that has the given name.
pub open spec fn first_named(items: Seq<ItemView>, name: Option<Seq<char>>, from: int) -> Option<
    usize,
>
    decreases items.len() - from,
{
    if name is None || from >= items.len() {
        None
    } else if items[from].name == name->0 {
        Some(from as usize)
    } else {
        first_named(items, name, from + 1)
    }
}

proof fn lemma_row_named(
    items: Seq<ItemView>,
    rows: Seq<RowView>,
    name: Seq<char>,
    from: int,
    at: int,
)
    requires
        0 <= from <= at < rows.len(),
        items[rows[at].index as int].name == name,
    ensures
        row_named(items, rows, name, from) is Some,
        from <= row_named(items, rows, name, from)->0 <= at,
        items[rows[row_named(items, rows, name, from)->0].index as int].name == name,
    decreases at - from,
{
    if items[rows[from].index as int].name != name {
        lemma_row_named(items, rows, name, from + 1, at);
    }
}

/// Going into a directory and up again leads back to where it started, with
/// the directory that was left selected, as long as the listing has not
/// changed meanwhile.
pub proof fn going_in_and_up_returns_to_the_place(
    browser: BrowserView,
    entries: Seq<ItemView>,
    inside: Seq<ItemView>,
)
    requires
        browser.wf(),
        browser.items == listed(entries),
        browser.inward() is Some,
        browser.current()->0.name != "."@,
        browser.current()->0.name != ".."@,
    ensures
        ({
            let within = browser.arrived(browser.inward()->0, inside);
            let above = within.arrived(within.upward()->0, entries);
            &&& within.cwd == browser.cwd.child(browser.current()->0.name)
            &&& within.upward() is Some
            &&& above.cwd == browser.cwd
            &&& above.items == browser.items
            &&& above.current() is Some
            &&& above.current()->0.name == browser.current()->0.name
        }),
{
    let name = browser.current()->0.name;
    let within = browser.arrived(browser.inward()->0, inside);
    let up = within.upward()->0;
    assert(within.cwd.parts.drop_last() =~= browser.cwd.parts);
    assert(within.cwd.parts.last() == name);
    let items = browser.items;
    let rows = rows_of(items, Seq::empty());
    let index = browser.rows[browser.selected as int].index;
    assert(rows[index as int].index == index);
    lemma_row_named(items, rows, name, 0, index as int);
}

/// Going back after a move leads to where the move started, and going forward
/// again to where it led. The directories to go back to are then as they were
/// after the move.
pub proof fn going_back_and_forward_retraces_a_move(
    browser: BrowserView,
    dir: paths::LocationView,
    reselect: Option<Seq<char>>,
    there: Seq<ItemView>,
    here: Seq<ItemView>,
    again: Seq<ItemView>,
)
    ensures
        ({
            let moved = browser.arrived(browser.onward(dir, reselect), there);
            let back = moved.arrived(moved.along(false, 0), here);
            let forward = back.arrived(back.along(true, 0), again);
            &&& moved.trail(false).len() > 0
            &&& back.cwd == browser.cwd
            &&& back.back == browser.back
            &&& back.trail(true).len() > 0
            &&& forward.cwd == dir
            &&& forward.back == moved.back
            &&& forward.ahead == moved.ahead
        }),
{
    let moved = browser.arrived(browser.onward(dir, reselect), there);
    let back = moved.arrived(moved.along(false, 0), here);
    assert(moved.back.take(moved.back.len() - 1) =~= browser.back);
    let forward = back.arrived(back.along(true, 0), again);
    assert(forward.ahead =~= moved.ahead);
    assert(forward.back =~= moved.back);
}

/// A filter shows the entries that match it, each once and none else, the
/// better match first; it changes neither the place nor the listing.
pub proof fn filter_shows_exactly_what_matches(browser: BrowserView, filter: Seq<char>)
    requires
        browser.items.len() <= usize::MAX,
        filter.len() > 0,
    ensures
        ({
            let out = browser.filtered(filter);
            &&& out.cwd == browser.cwd
            &&& out.items == browser.items
            &&& out.selected == 0
            &&& forall|k: int|
                0 <= k < out.rows.len() ==> (#[trigger] out.rows[k]).index < out.items.len()
                    && scores(out.items, filter)[out.rows[k].index as int] is Some
            &&& forall|i: int|
                0 <= i < out.items.len() && (#[trigger] scores(out.items, filter)[i]) is Some
                    ==> exists|k: int|
                    0 <= k < out.rows.len() && (#[trigger] out.rows[k]).index == i
            &&& forall|a: int, b: int|
                #![trigger out.rows[a], out.rows[b]]
                0 <= a < b < out.rows.len() ==> order::outranks(
                    scores(out.items, filter),
                    out.rows[a].index as int,
                    out.rows[b].index as int,
                )
        }),
{
    let out = browser.filtered(filter);
    let found = scores(browser.items, filter);
    order::lemma_ranking_holds(found);
    let ranked = order::ranking(found);
    assert forall|i: int|
        0 <= i < out.items.len() && (#[trigger] found[i]) is Some implies exists|k: int|
        0 <= k < out.rows.len() && (#[trigger] out.rows[k]).index == i by {
        assert(ranked.contains(i as usize));
        let k = ranked.index_of(i as usize);
        assert(out.rows[k].index == i);
    }
    assert forall|a: int, b: int|
        #![trigger out.rows[a], out.rows[b]]
        0 <= a < b < out.rows.len() implies order::outranks(
        found,
        out.rows[a].index as int,
        out.rows[b].index as int,
    ) by {
        assert(out.rows[a].index == ranked[a]);
        assert(out.rows[b].index == ranked[b]);
    }
}

/// Clearing the filter shows the whole listing again, in its own order.
pub proof fn clearing_the_filter_shows_everything(browser: BrowserView, filter: Seq<char>, k: int)
    requires
        browser.items.len() <= usize::MAX,
        0 <= k < browser.items.len(),
    ensures
        ({
            let out = browser.filtered(filter).filtered(Seq::empty());
            &&& out.rows.len() == browser.items.len()
            &&& out.rows[k].index == k
            &&& out.rows[k].hits.len() == 0
        }),
{
}

} // verus!
