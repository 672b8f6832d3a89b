//! What holds of the pictures: what each row reads as, what stands out, and
//! that what is drawn is what is there.
use crate::browse;
use crate::browse::ItemView;
use crate::cli::Mode;
use crate::favorites;
use crate::icons;
use crate::key_laws;
use crate::paint;
use crate::paint::{BrowseAreas, CandidateView, FindingsView, SearchAreas};
use crate::paths;
use crate::paths::{LocationView, Platform};
use crate::picker::{Button, Nav, PickerView};
use crate::rows;
use crate::rows::RowMarks;
use crate::screen;
use crate::screen::{DrawView, Rect, SpanView, Tone};
use crate::text;
use crate::width;
use vstd::prelude::*;

verus! {

/// The tone of each character of a row, in order.
pub open spec fn tones(spans: Seq<SpanView>) -> Seq<Tone>
    decreases spans.len(),
{
    if spans.len() == 0 {
        Seq::empty()
    } else {
        tones(spans.drop_last()) + Seq::new(
            spans.last().text.len(),
            |i: int| spans.last().tone,
        )
    }
}

proof fn lemma_flat_parts(a: Seq<SpanView>, b: Seq<SpanView>)
    ensures
        rows::flat(a + b) == rows::flat(a) + rows::flat(b),
    decreases b.len(),
{
    if b.len() == 0 {
        assert(a + b =~= a);
        assert(rows::flat(a) + rows::flat(b) =~= rows::flat(a));
    } else {
        lemma_flat_parts(a, b.drop_last());
        assert((a + b).drop_last() =~= a + b.drop_last());
        assert((a + b).last() == b.last());
        assert(rows::flat(a + b) =~= rows::flat(a) + rows::flat(b));
    }
}

proof fn lemma_flat_one(span: SpanView)
    ensures
        rows::flat(seq![span]) == span.text,
{
    assert(seq![span].drop_last() =~= Seq::<SpanView>::empty());
    assert(rows::flat(Seq::<SpanView>::empty()) =~= Seq::<char>::empty());
    assert(rows::flat(seq![span]) =~= span.text);
}

proof fn lemma_run_tones(text: Seq<char>, hits: Seq<u32>)
    ensures
        tones(rows::runs(text, hits)).len() == text.len(),
        forall|k: int|
            0 <= k < text.len() ==> #[trigger] tones(rows::runs(text, hits))[k] == rows::hit_tone(
                rows::hit(hits, k),
            ),
        text.len() > 0 ==> rows::runs(text, hits).len() > 0 && rows::runs(text, hits).last().tone
            == rows::hit_tone(rows::hit(hits, text.len() - 1)),
    decreases text.len(),
{
    let all = rows::runs(text, hits);
    if text.len() > 0 {
        let front = text.drop_last();
        let n = text.len() as int;
        let before = rows::runs(front, hits);
        lemma_run_tones(front, hits);
        let tone = rows::hit_tone(rows::hit(hits, n - 1));
        if n >= 2 && rows::hit(hits, n - 2) == rows::hit(hits, n - 1) {
            assert(all.drop_last() =~= before.drop_last());
            assert(all.last().tone == tone);
            assert(before.last().tone == tone);
            assert(tones(all) =~= tones(before).push(tone)) by {
                let old_last = Seq::new(before.last().text.len(), |i: int| before.last().tone);
                let new_last = Seq::new(all.last().text.len(), |i: int| all.last().tone);
                assert(new_last =~= old_last.push(tone));
            }
        } else {
            assert(all.drop_last() =~= before);
            assert(tones(all) =~= tones(before).push(tone)) by {
                let new_last = Seq::new(all.last().text.len(), |i: int| all.last().tone);
                assert(new_last =~= seq![tone]);
            }
        }
    } else {
        assert(all =~= Seq::<SpanView>::empty());
    }
}

/// In a row, the characters that matched stand out and no other does.
pub proof fn matched_characters_stand_out(text: Seq<char>, hits: Seq<u32>, k: int)
    requires
        0 <= k < text.len(),
        k <= u32::MAX,
    ensures
        tones(rows::runs(text, hits)).len() == text.len(),
        hits.contains(k as u32) ==> tones(rows::runs(text, hits))[k] is Match,
        !hits.contains(k as u32) ==> tones(rows::runs(text, hits))[k] is Plain,
{
    lemma_run_tones(text, hits);
    if hits.contains(k as u32) {
        let i = hits.index_of(k as u32);
        assert(hits[i] == k);
        assert(rows::hit(hits, k));
    } else if rows::hit(hits, k) {
        let i = choose|i: int| 0 <= i < hits.len() && #[trigger] hits[i] == k;
        assert(hits[i] == k as u32);
    }
    assert(tones(rows::runs(text, hits))[k] == rows::hit_tone(rows::hit(hits, k)));
}

/// The matches that fall on what is shown are kept, in order, and no other.
pub proof fn only_matches_beyond_the_row_go(values: Seq<u32>, limit: nat, value: u32)
    ensures
        rows::below(values, limit) == values.filter(|v: u32| v < limit),
        rows::below(values, limit).contains(value) == (values.contains(value) && value < limit),
    decreases values.len(),
{
    reveal(Seq::filter);
    if values.len() > 0 {
        let front = values.drop_last();
        only_matches_beyond_the_row_go(front, limit, value);
        let before = rows::below(front, limit);
        let out = rows::below(values, limit);
        if out.contains(value) {
            let i = out.index_of(value);
            if i < before.len() {
                assert(before[i] == value);
                let k = front.index_of(value);
                assert(values[k] == value);
            } else {
                assert(values[values.len() - 1] == value);
            }
        }
        if values.contains(value) && value < limit {
            let k = values.index_of(value);
            if k < front.len() {
                assert(front[k] == value);
                let i = before.index_of(value);
                assert(out[i] == value);
            } else {
                assert(out[out.len() - 1] == value);
            }
        }
    }
}

proof fn lemma_row_text(row: Seq<SpanView>, icon: Seq<char>)
    requires
        row.len() > 0,
    ensures
        rows::flat(rows::with_icon(row, icon)) == row[0].text + icon + rows::flat(row.skip(1)),
        rows::with_icon(row, icon)[0] == row[0],
{
    let head = seq![row[0]];
    let rest = row.skip(1);
    assert(row =~= head + rest);
    lemma_flat_parts(head, rest);
    lemma_flat_one(row[0]);
    if icon.len() == 0 {
        assert(row[0].text + icon =~= row[0].text);
    } else {
        let piece = screen::spanned(icon, icons::icon_tone(icon));
        let out = rows::with_icon(row, icon);
        assert(out =~= head + seq![piece] + rest);
        lemma_flat_parts(head + seq![piece], rest);
        lemma_flat_parts(head, seq![piece]);
        lemma_flat_one(piece);
    }
}

/// A row of a search reads as its mark, its icon and all of its text; the row
/// under the cursor is marked with a bar and stands out, and no other is.
pub proof fn a_search_row_reads_as_its_text(
    display: Seq<char>,
    is_dir: bool,
    current: bool,
    hits: Seq<u32>,
    marks: RowMarks,
    platform: Platform,
)
    ensures
        ({
            let row = rows::search_row(display, is_dir, current, hits, marks, platform);
            let bar = if current {
                "▌ "@
            } else {
                "  "@
            };
            &&& rows::flat(row.spans) == bar + marks.icon(display, is_dir, platform) + display
            &&& row.spans[0].text == bar
            &&& current ==> row.tone is Current && row.spans[0].tone is Pointer
            &&& !current ==> row.tone is Plain && row.spans[0].tone is Plain
        }),
{
    let line = rows::highlighted(current, display, hits);
    rows::highlighting_keeps_the_text(current, display, hits);
    lemma_row_text(line.spans, marks.icon(display, is_dir, platform));
}

/// A row of a browse column reads as its mark, its icon and its name. A name
/// that fits is shown whole. In the column that is browsed the row under the
/// cursor is marked with a bar; the columns beside it have none.
pub proof fn a_column_row_reads_as_its_name(
    label: Seq<char>,
    is_dir: bool,
    current: bool,
    side: bool,
    hits: Seq<u32>,
    width: usize,
    marks: RowMarks,
    platform: Platform,
)
    ensures
        ({
            let row = rows::column_row(
                label,
                is_dir,
                current,
                side,
                hits,
                width,
                marks,
                platform,
            );
            let bar = if current && !side {
                "▌ "@
            } else {
                "  "@
            };
            let icon = marks.icon(label, is_dir, platform);
            let taken = 2 + width::columns(icon) + width::columns(label);
            &&& row.spans[0].text == bar
            &&& width >= taken && width::columns(label) > 0 ==> rows::flat(row.spans) == bar + icon
                + label
            &&& current && !side ==> row.tone is Current
            &&& current && side ==> row.tone is Here
            &&& !current && is_dir && side ==> row.tone is SideDir
            &&& !current && is_dir && !side ==> row.tone is Dir
            &&& !current && !is_dir && side ==> row.tone is Side
            &&& !current && !is_dir && !side ==> row.tone is Plain
        }),
{
    let full = marks.icon(label, is_dir, platform);
    let icon = if width >= 2 + width::columns(full) {
        full
    } else {
        ""@
    };
    let used = 2 + width::columns(icon);
    let shown = width::fitted(
        label,
        if width >= used {
            (width - used) as usize
        } else {
            0
        },
    );
    let kept = rows::below(hits, shown.len());
    let line = rows::highlighted(current && !side, shown, kept);
    rows::highlighting_keeps_the_text(current && !side, shown, kept);
    lemma_row_text(line.spans, icon);
}

/// A pin marks a row before anything else does; without icons nothing else
/// stands before a name, and with them a directory never looks like a file.
pub proof fn what_stands_before_a_name(
    marks: RowMarks,
    name: Seq<char>,
    other: Seq<char>,
    is_dir: bool,
    platform: Platform,
)
    ensures
        marks.favorite ==> marks.icon(name, is_dir, platform) == "★ "@,
        !marks.favorite && !marks.icons ==> marks.icon(name, is_dir, platform) == ""@,
        !marks.favorite && marks.icons && is_dir && marks.inside ==> marks.icon(
            name,
            is_dir,
            platform,
        ) == "\u{f07c} "@,
        !marks.favorite && marks.icons && is_dir && !marks.inside ==> marks.icon(
            name,
            is_dir,
            platform,
        ) == "\u{f07b} "@,
        !marks.favorite && is_dir ==> marks.icon(name, is_dir, platform) == marks.icon(
            other,
            is_dir,
            platform,
        ),
        !marks.favorite && marks.icons && !is_dir ==> marks.icon(name, is_dir, platform)
            != "\u{f07b} "@,
{
    if !marks.favorite && marks.icons && !is_dir {
        reveal_strlit("\u{f07b} ");
        reveal_strlit("\u{f1c3} ");
        reveal_strlit("\u{f1c2} ");
        reveal_strlit("\u{f1c4} ");
        reveal_strlit("\u{f1c1} ");
        reveal_strlit("\u{f013} ");
        reveal_strlit("\u{f1c0} ");
        reveal_strlit("\u{f085} ");
        reveal_strlit("\u{f031} ");
        reveal_strlit("\u{f121} ");
        reveal_strlit("\u{f1c5} ");
        reveal_strlit("\u{f1c6} ");
        reveal_strlit("\u{f1c7} ");
        reveal_strlit("\u{f1c8} ");
        reveal_strlit("\u{f15c} ");
        reveal_strlit("\u{f15b} ");
        assert("\u{f07b} "@[0] == '\u{f07b}');
        assert(marks.icon(name, is_dir, platform)[0] != '\u{f07b}');
    }
}

/// Files of one extension look alike, whatever their names. The case of the
/// extension plays no part.
pub proof fn files_of_one_extension_look_alike(
    stem: Seq<char>,
    other: Seq<char>,
    ext: Seq<char>,
    platform: Platform,
)
    requires
        stem.len() > 0,
        other.len() > 0,
        ext.len() > 0,
        forall|k: int| 0 <= k < stem.len() ==> !platform.separates(#[trigger] stem[k]),
        forall|k: int| 0 <= k < other.len() ==> !platform.separates(#[trigger] other[k]),
        forall|k: int| 0 <= k < ext.len() ==> !platform.separates(#[trigger] ext[k]) && ext[k] != '.',
    ensures
        icons::lower_extension(stem + seq!['.'] + ext, platform) == text::ascii_lower(ext),
        icons::prefix_of(stem + seq!['.'] + ext, false, true, platform) == icons::prefix_of(
            other + seq!['.'] + ext,
            false,
            true,
            platform,
        ),
{
    lemma_extension(stem, ext, platform);
    lemma_extension(other, ext, platform);
}

proof fn lemma_extension(stem: Seq<char>, ext: Seq<char>, platform: Platform)
    requires
        stem.len() > 0,
        ext.len() > 0,
        forall|k: int| 0 <= k < stem.len() ==> !platform.separates(#[trigger] stem[k]),
        forall|k: int| 0 <= k < ext.len() ==> !platform.separates(#[trigger] ext[k]) && ext[k] != '.',
    ensures
        icons::lower_extension(stem + seq!['.'] + ext, platform) == text::ascii_lower(ext),
{
    let name = stem + seq!['.'] + ext;
    let at = stem.len() as int;
    assert forall|k: int| 0 <= k < name.len() implies !platform.separates(#[trigger] name[k]) by {
        if k < at {
            assert(name[k] == stem[k]);
        } else if k > at {
            assert(name[k] == ext[k - at - 1]);
        } else {
            assert(name[k] == '.');
        }
    }
    reveal_strlit(".");
    reveal_strlit("..");
    assert(name.last() == ext.last());
    assert(name != ".."@) by {
        if name == ".."@ {
            assert(name[1] == '.');
            assert(name[name.len() - 1] == ext[ext.len() - 1]);
        }
    }
    assert(name != "."@);
    crate::path_laws::the_last_name_names_a_path(Seq::empty(), '/', name, platform);
    assert(paths::is_extension_dot(name, at)) by {
        assert forall|k: int| at < k < name.len() implies name[k] != '.' by {
            assert(name[k] == ext[k - at - 1]);
        }
    }
    let found = paths::extension_dot(name)->0;
    assert(paths::is_extension_dot(name, found));
    assert(found == at) by {
        if found < at {
            assert(name[at] == '.');
        } else if found > at {
            assert(name[found] == ext[found - at - 1]);
        }
    }
    assert(name.skip(at + 1) =~= ext);
}

/// A message takes the place of the key hints, set off by blanks; one about a
/// failure is told from the others by its colour.
pub proof fn a_message_takes_the_place_of_the_hints(message: Seq<char>, hints: Seq<char>)
    ensures
        ({
            let line = rows::footer(Some(message), hints);
            let bad = text::begins(message, "Cannot"@) || text::begins(message, "No "@);
            &&& rows::flat(line.spans) == seq![' '] + message + seq![' ']
            &&& bad ==> line.spans[0].tone is NoticeBad
            &&& !bad ==> line.spans[0].tone is Notice
            &&& line.right
        }),
        rows::flat(rows::footer(None, hints).spans) == hints,
        rows::footer(None, hints).right,
{
    reveal_strlit(" ");
    assert(" "@ =~= seq![' ']);
    lemma_flat_one(rows::footer(Some(message), hints).spans[0]);
    lemma_flat_one(rows::footer(None, hints).spans[0]);
    assert(rows::footer(None, hints).spans =~= seq![rows::footer(None, hints).spans[0]]);
    let line = rows::footer(Some(message), hints);
    assert(line.spans =~= seq![line.spans[0]]);
}

/// A focus with room on both sides stands in the middle of the window; near an
/// end the window stops there.
pub proof fn the_focus_stands_in_the_middle(focus: usize, len: usize, height: usize)
    requires
        focus < len,
        0 < height < len,
    ensures
        ({
            let first = rows::centred(focus, len, height);
            &&& focus >= height / 2 && focus - height / 2 <= len - height ==> focus - first == height
                / 2
            &&& focus < height / 2 ==> first == 0
            &&& focus - height / 2 > len - height ==> first + height == len
        }),
{
}

/// A list is not scrolled while the selection is on its first page, never past
/// its end, and no further than the selection needs.
pub proof fn a_list_is_scrolled_no_further_than_needed(selected: nat, total: nat, height: nat)
    requires
        selected < total,
        height > 0,
    ensures
        ({
            let first = paint::scrolled(selected, total, height);
            &&& selected < height ==> first == 0
            &&& total <= height ==> first == 0
            &&& total > height ==> first + height <= total
            &&& first > 0 ==> selected == first + height - 1
        }),
{
}

/// The steps of a path lead from its root down to it, one name at a time; each
/// is called by its last name, the root by what it is written as.
pub proof fn the_steps_of_a_path(path: LocationView, platform: Platform, i: int)
    requires
        0 <= i <= path.parts.len(),
    ensures
        ({
            let steps = rows::steps(path, platform);
            &&& steps.len() == path.parts.len() + 1
            &&& steps[i].1.anchor == path.anchor
            &&& steps[i].1.parts == path.parts.take(i)
            &&& i == 0 ==> steps[i].0 == path.anchor
            &&& i > 0 && path.parts[i - 1] != "."@ && path.parts[i - 1] != ".."@ ==> steps[i].0
                == path.parts[i - 1]
            &&& steps[path.parts.len() as int].1 == path
        }),
{
    let dir = rows::ancestor(path, i);
    assert(path.parts.take(path.parts.len() as int) =~= path.parts);
    if i == 0 {
        assert(dir.parts =~= Seq::empty());
        assert(dir.display(platform) =~= path.anchor);
    } else {
        assert(dir.parts.last() == path.parts[i - 1]);
    }
}

/// The tabs read in the order of the modes, and that of the current mode alone
/// stands out.
pub proof fn the_tabs_read_in_order(mode: Mode, k: int)
    requires
        0 <= k < 5,
    ensures
        ({
            let bar = rows::tab_bar(mode);
            &&& bar.len() == 11
            &&& bar[0].text == "["@ && bar[10].text == "] "@
            &&& bar[1].text == "dirs"@ && bar[3].text == "files"@ && bar[5].text == "recent"@
                && bar[7].text == "favorites"@ && bar[9].text == "browse"@
            &&& bar[2 + 2 * k].text == if k < 4 {
                "|"@
            } else {
                bar[10].text
            }
            &&& (bar[1 + 2 * k].tone is Tab) == (k == mode.index())
            &&& bar[2 * k].tone is Header
        }),
{
    reveal_with_fuel(rows::tabs, 6);
}

/// The preview names the first entries of a directory in the order of its
/// listing, each as it is shown, as many as the limit; a directory that cannot
/// be read is said to be so.
pub proof fn the_preview_names_the_first_entries(
    entries: Seq<ItemView>,
    platform: Platform,
    k: int,
)
    ensures
        ({
            let names = rows::preview_names(Some(entries), platform);
            let items = browse::listed(entries);
            &&& items.len() <= 500 ==> names.len() == items.len()
            &&& items.len() > 500 ==> names.len() == 500
            &&& 0 <= k < names.len() && items[k].is_dir ==> names[k] == items[k].name
                + seq![platform.sep()]
            &&& 0 <= k < names.len() && !items[k].is_dir ==> names[k] == items[k].name
        }),
        rows::preview_names(None, platform) == seq!["(unreadable)"@],
{
    let items = browse::listed(entries);
    if 0 <= k < items.len() {
        assert(items[k].name.push(platform.sep()) =~= items[k].name + seq![platform.sep()]);
    }
}

/// A name in the preview gives its entry back: what ends in a separator is a
/// directory, and without it stands the name.
pub proof fn a_name_in_the_preview_gives_its_entry_back(item: ItemView, platform: Platform)
    requires
        item.name.len() == 0 || item.name.last() != platform.sep(),
    ensures
        paint::names_directory(item.shown(platform), platform) == item.is_dir,
        paint::bare_name(item.shown(platform), platform) == item.name,
{
    assert(item.name.push(platform.sep()).drop_last() =~= item.name);
}

/// A row of the preview can be clicked for the entry that it names, from the
/// first row down, as many as there are rows.
pub proof fn clicking_a_name_leads_to_its_entry(
    dir: LocationView,
    names: Seq<Seq<char>>,
    item: ItemView,
    area: Rect,
    platform: Platform,
    k: int,
)
    requires
        0 <= k < names.len(),
        k < area.height,
        area.y + area.height <= u16::MAX,
        names[k] == item.shown(platform),
        item.name.len() == 0 || item.name.last() != platform.sep(),
    ensures
        ({
            let spots = paint::name_spots(dir, names, area, platform);
            &&& k < spots.len()
            &&& spots[k].path == key_laws::below(dir, item.name)
            &&& spots[k].area.x == area.x && spots[k].area.width == area.width
            &&& spots[k].area.y == area.y + k && spots[k].area.height == 1
        }),
{
    a_name_in_the_preview_gives_its_entry_back(item, platform);
}

/// A place is marked if the pins hold it as it is written, and only if they
/// hold a path that is looked up alike.
pub proof fn a_pinned_place_is_marked(p: PickerView, list: Seq<Seq<char>>, place: LocationView)
    requires
        p.pinned == favorites::keys(list, p.platform).to_set(),
    ensures
        list.contains(place.display(p.platform)) ==> p.marks(place),
        p.marks(place) ==> exists|i: int|
            0 <= i < list.len() && favorites::key_of(#[trigger] list[i], p.platform)
                == favorites::key_of(place.display(p.platform), p.platform),
{
    let shown = place.display(p.platform);
    let key = favorites::key_of(shown, p.platform);
    favorites::marked_are_the_pinned_directories(list, key, p.platform);
    if list.contains(shown) {
        let i = list.index_of(shown);
        assert(favorites::key_of(list[i], p.platform) == key);
    }
}

/// The prompt reads as what is typed behind its sign; the counts tell how many
/// are shown and how many there are.
pub proof fn the_prompt_and_the_counts(
    typed: Seq<char>,
    start: Seq<char>,
    shown: nat,
    total: nat,
    width: u16,
)
    ensures
        rows::flat(paint::prompt_line(typed).spans) == "> "@ + typed,
        paint::tally(start, shown, total) == start + text::decimal(shown) + "/"@ + text::decimal(
            total,
        ) + " "@,
        ({
            let counts = paint::tally(start, shown, total);
            let line = paint::info_line(counts, width);
            &&& line.spans.len() == 2
            &&& line.spans[0].text == counts
            &&& counts.len() <= width ==> line.spans[0].text.len() + line.spans[1].text.len()
                == width
            &&& counts.len() >= width ==> line.spans[1].text.len() == 0
            &&& forall|k: int| 0 <= k < line.spans[1].text.len() ==> line.spans[1].text[k] == '─'
        }),
{
    let line = paint::prompt_line(typed);
    assert(line.spans =~= seq![line.spans[0]] + seq![line.spans[1]]);
    lemma_flat_parts(seq![line.spans[0]], seq![line.spans[1]]);
    lemma_flat_one(line.spans[0]);
    lemma_flat_one(line.spans[1]);
}

/// The spinner stands still for four frames and shows four signs in turn; a
/// frame is counted exactly while the scan goes on.
pub proof fn the_spinner_turns(frame: u32, p: PickerView, found: FindingsView)
    ensures
        frame % 4 != 3 && frame < u32::MAX ==> paint::spinner((frame + 1) as u32)
            == paint::spinner(frame),
        frame % 4 == 3 && frame < u32::MAX ==> paint::spinner((frame + 1) as u32)
            != paint::spinner(frame),
        frame <= u32::MAX - 16 ==> paint::spinner((frame + 16) as u32) == paint::spinner(frame),
        found.scanning && p.frame_count < u32::MAX ==> p.frame_drawn(found) == p.frame_count + 1,
        !found.scanning ==> p.frame_drawn(found) == p.frame_count,
{
    if frame < u32::MAX {
        let next = (frame + 1) as u32;
        if frame % 4 != 3 {
            assert(next / 4 == frame / 4);
        } else {
            assert(next / 4 == frame / 4 + 1);
        }
    }
    if frame <= u32::MAX - 16 {
        let later = (frame + 16) as u32;
        assert(later / 4 == frame / 4 + 4);
    }
}

/// The title of the preview tells where its directory lies: from the root of
/// the search where it is below it, and in full elsewhere.
pub proof fn the_preview_title_tells_the_place(
    p: PickerView,
    names: Seq<Seq<char>>,
    other: LocationView,
)
    ensures
        p.preview_title(None) == ""@,
        p.preview_title(Some(p.root)) == " . "@,
        names.len() > 0 && text::joined(names, seq![p.platform.sep()]).len() > 0
            ==> p.preview_title(
            Some(LocationView { anchor: p.root.anchor, parts: p.root.parts + names }),
        ) == " "@ + text::joined(names, seq![p.platform.sep()]) + " "@,
        other.anchor != p.root.anchor && other.display(p.platform).len() > 0 ==> p.preview_title(
            Some(other),
        ) == " "@ + other.display(p.platform) + " "@,
{
    reveal_strlit(" . ");
    reveal_strlit(" ");
    reveal_strlit(".");
    assert(" "@ + "."@ + " "@ =~= " . "@);
    let root = p.root;
    assert(root.parts.take(root.parts.len() as int) =~= root.parts);
    assert(root.parts.skip(root.parts.len() as int) =~= Seq::empty());
    assert(root.below(root).display(p.platform) =~= Seq::empty());
    let place = LocationView { anchor: root.anchor, parts: root.parts + names };
    assert(place.parts.take(root.parts.len() as int) =~= root.parts);
    assert(place.parts.skip(root.parts.len() as int) =~= names);
    assert(place.below(root).display(p.platform) =~= text::joined(
        names,
        seq![p.platform.sep()],
    ));
}

/// A candidate's row reads as the candidate is shown, is that of the cursor
/// exactly where the cursor is, and carries a star exactly where the place it
/// stands for is pinned.
pub proof fn a_candidate_is_drawn_as_it_is_shown(p: PickerView, candidate: CandidateView)
    ensures
        ({
            let row = p.candidate_row(candidate);
            let current = candidate.row == p.sources[p.mode.index()]->0.selected;
            let bar = if current {
                "▌ "@
            } else {
                "  "@
            };
            let pinned = p.marks(crate::picker::output(candidate.entry, p.mode));
            &&& row.spans[0].text == bar
            &&& current ==> row.tone is Current
            &&& !current ==> row.tone is Plain
            &&& pinned ==> rows::flat(row.spans) == bar + "★ "@ + candidate.entry.display
            &&& !pinned && !p.config.icons ==> rows::flat(row.spans) == bar
                + candidate.entry.display
            &&& !pinned && p.config.icons && !(p.mode is Files) ==> rows::flat(row.spans) == bar
                + "\u{f07b} "@ + candidate.entry.display
        }),
{
    let pinned = p.marks(crate::picker::output(candidate.entry, p.mode));
    let marks = RowMarks { icons: p.config.icons, favorite: pinned, inside: false };
    let current = candidate.row == p.sources[p.mode.index()]->0.selected;
    let is_dir = !(p.mode is Files);
    a_search_row_reads_as_its_text(
        candidate.entry.display,
        is_dir,
        current,
        crate::order::ascending(candidate.hits),
        marks,
        p.platform,
    );
    what_stands_before_a_name(
        marks,
        candidate.entry.display,
        candidate.entry.display,
        is_dir,
        p.platform,
    );
    reveal_strlit("");
    let bar = if current {
        "▌ "@
    } else {
        "  "@
    };
    assert(bar + ""@ =~= bar);
}

/// Every candidate that was found for the window is drawn, in its order, one
/// row each.
pub proof fn every_candidate_is_drawn(
    p: PickerView,
    areas: SearchAreas,
    found: FindingsView,
    k: int,
)
    requires
        found.error is None,
        found.count > 0,
        areas.rows.height > 0,
    ensures
        ({
            let picture = p.search_picture(areas, found);
            let lines = p.candidate_rows(found);
            &&& lines.len() == found.candidates.len()
            &&& 0 <= k < lines.len() ==> lines[k] == p.candidate_row(found.candidates[k])
            &&& picture.draws.len() > 0
            &&& picture.draws.last() == (DrawView::Rows { area: areas.rows, lines })
        }),
{
}

/// Wherever a search is drawn, its prompt shows the query, its header the
/// place, and its frame the tabs and the message or the hints.
pub proof fn a_search_shows_what_is_typed(p: PickerView, areas: SearchAreas, found: FindingsView)
    ensures
        ({
            let draws = p.search_picture(areas, found).draws;
            let n: int = if areas.preview is None {
                0
            } else if p.previews(found.destination) {
                2
            } else {
                1
            };
            &&& draws.len() >= n + 4
            &&& draws[n] == (DrawView::Frame {
                area: areas.list,
                tone: Tone::Border,
                title: screen::lined(rows::tab_bar(p.mode)),
                bottom: rows::footer(p.notice, paint::SEARCH_HINTS@),
            })
            &&& draws[n + 1] == (DrawView::Text {
                area: areas.prompt,
                lines: seq![paint::prompt_line(p.query)],
                wrap: false,
            })
            &&& draws[n + 3] == (DrawView::Text {
                area: areas.header,
                lines: seq![screen::lined(p.search_place())],
                wrap: false,
            })
        }),
{
}

/// What a search says of where it searches: the saved lists by their name, the
/// walks by the path of their root.
pub proof fn a_search_tells_where_it_searches(p: PickerView)
    requires
        rows::plainly_written(p.root, p.platform),
    ensures
        p.mode is Recent ==> rows::flat(p.search_place()) == "zoxide"@,
        p.mode is Favorites ==> rows::flat(p.search_place()) == "pinned directories"@,
        p.mode is Dirs || p.mode is Files ==> rows::flat(p.search_place()) == p.root.display(
            p.platform,
        ),
{
    rows::crumbs_read_as_the_path(p.root, p.platform);
    if p.mode is Recent || p.mode is Favorites {
        lemma_flat_one(p.search_place()[0]);
        assert(p.search_place() =~= seq![p.search_place()[0]]);
    }
}

/// A search that failed says so with its mode and its error, and lists
/// nothing.
pub proof fn a_failed_search_lists_nothing(
    p: PickerView,
    areas: SearchAreas,
    found: FindingsView,
    error: Seq<char>,
)
    requires
        found.error == Some(error),
    ensures
        ({
            let draws = p.search_picture(areas, found).draws;
            let after = p.search_drawn(areas, found);
            &&& draws.len() > 0
            &&& draws.last() is Text && draws.last()->Text_area == areas.rows
            &&& p.failure(error) == "Cannot load "@ + p.mode.name() + ": "@ + error
                + "\nF5: retry  Tab: mode  Esc: cancel"@
            &&& after.targets.count == 0
            &&& after.targets.rows == Rect::nowhere()
        }),
{
}

/// What answers the mouse once a search is drawn: the rows where they are, from
/// the first one shown on, and all that match; and the tabs on the top border.
pub proof fn what_answers_the_mouse_in_a_search(
    p: PickerView,
    areas: SearchAreas,
    found: FindingsView,
)
    requires
        areas.list.x <= u16::MAX - 2,
    ensures
        ({
            let t = p.search_drawn(areas, found).targets;
            let listed = found.error is None && areas.rows.height > 0 && found.count > 0;
            &&& listed ==> t.rows == areas.rows && t.count == found.count
            &&& listed && p.sources[p.mode.index()]->0.selected < found.count ==> t.first
                <= p.sources[p.mode.index()]->0.selected < t.first + areas.rows.height
            &&& !listed ==> t.rows == Rect::nowhere() && t.count == 0
            &&& t.modes_x == areas.list.x + 2
            &&& t.header.y == areas.list.y && t.header.height == 1 && t.header.x == areas.list.x
                && t.header.width == areas.list.width
            &&& t.nav.len() == 0 && t.crumbs.len() == 0
            &&& areas.preview is None ==> t.paths.len() == 0
        }),
{
}

/// The buttons of the header stand side by side, three columns each: back,
/// forward and up. One that leads nowhere, or is cut off, does not answer.
pub proof fn the_header_buttons_stand_side_by_side(
    area: Rect,
    back: bool,
    forward: bool,
    up: bool,
    b: Button,
)
    requires
        area.x + area.width <= u16::MAX,
        area.width >= 9,
    ensures
        paint::buttons(area, back, forward, up).contains(b) == {
            ||| back && b == (Button {
                area: Rect { x: area.x, y: area.y, width: 3, height: 1 },
                nav: Nav::Back,
            })
            ||| forward && b == (Button {
                area: Rect { x: (area.x + 3) as u16, y: area.y, width: 3, height: 1 },
                nav: Nav::Forward,
            })
            ||| up && b == (Button {
                area: Rect { x: (area.x + 6) as u16, y: area.y, width: 3, height: 1 },
                nav: Nav::Up,
            })
        },
{
    let one = paint::button(area, area.x, back, Nav::Back);
    let second = paint::right_of(area.x, paint::BUTTON_WIDTH);
    let two = paint::button(area, second, forward, Nav::Forward);
    let third = paint::right_of(second, paint::BUTTON_WIDTH);
    let three = paint::button(area, third, up, Nav::Up);
    let all = paint::buttons(area, back, forward, up);
    assert(all == one + two + three);
    if all.contains(b) {
        let i = all.index_of(b);
        if i < one.len() {
            assert(all[i] == one[i]);
        } else if i < one.len() + two.len() {
            assert(all[i] == two[i - one.len()]);
        } else {
            assert(all[i] == three[i - one.len() - two.len()]);
        }
    }
    if back && b == one[0] {
        assert(all[0] == b);
    }
    if forward && b == two[0] {
        assert(all[one.len() as int] == b);
    }
    if up && b == three[0] {
        assert(all[(one.len() + two.len()) as int] == b);
    }
}

/// The buttons of the browser answer exactly where they lead somewhere: back
/// and forward along the trails, and up from anywhere but a root.
pub proof fn buttons_answer_where_they_lead(p: PickerView, area: Rect, b: Button)
    requires
        area.x + area.width <= u16::MAX,
        area.width >= 9,
        p.location_buttons(area).contains(b),
    ensures
        b.nav is Back ==> p.browser->0.back.len() > 0,
        b.nav is Forward ==> p.browser->0.ahead.len() > 0,
        b.nav is Up ==> p.browser->0.cwd.parts.len() > 0,
{
    let w = p.browser->0;
    the_header_buttons_stand_side_by_side(
        area,
        w.back.len() > 0,
        w.ahead.len() > 0,
        w.cwd.parts.len() > 0,
        b,
    );
}

/// Every step of the path that answers the mouse leads to one of the path's
/// directories, on the line of the header and before its end.
pub proof fn steps_answer_where_they_are_drawn(
    crumbs: Seq<(SpanView, Option<LocationView>)>,
    count: nat,
    x: u16,
    area: Rect,
    k: int,
)
    requires
        count <= crumbs.len(),
        0 <= k < paint::crumb_spots(crumbs, count, x, area).len(),
    ensures
        ({
            let spot = paint::crumb_spots(crumbs, count, x, area)[k];
            &&& spot.area.y == area.y && spot.area.height == 1
            &&& spot.area.x + spot.area.width <= area.end_x()
            &&& exists|i: int| 0 <= i < count && (#[trigger] crumbs[i]).1 == Some(spot.path)
        }),
    decreases count,
{
    if count > 0 {
        let before = paint::crumb_spots(crumbs, (count - 1) as nat, x, area);
        if k < before.len() {
            steps_answer_where_they_are_drawn(crumbs, (count - 1) as nat, x, area, k);
            let spot = before[k];
            let i = choose|i: int| 0 <= i < count - 1 && (#[trigger] crumbs[i]).1 == Some(spot.path);
            assert(crumbs[i].1 == Some(spot.path));
        } else {
            assert(crumbs[count - 1].1 is Some);
        }
    }
}

/// A row of the browsed directory reads as the entry that is in it, and is
/// that of the cursor exactly where the cursor is.
pub proof fn a_browsed_row_is_its_entry(p: PickerView, at: int, width: u16)
    requires
        0 <= at < p.browser->0.rows.len(),
    ensures
        ({
            let b = p.browser->0;
            let item = b.items[b.rows[at].index as int];
            let row = p.current_row(at, width);
            let pinned = item.is_dir && p.marks(key_laws::below(b.cwd, item.name));
            let label = item.shown(p.platform);
            let bar = if at == b.selected {
                "▌ "@
            } else {
                "  "@
            };
            &&& row.spans[0].text == bar
            &&& (row.tone is Current) == (at == b.selected)
            &&& pinned && width >= 2 + width::columns("★ "@) + width::columns(label)
                && width::columns(label) > 0 ==> rows::flat(row.spans) == bar + "★ "@ + label
            &&& !pinned && !p.config.icons && width >= 2 + width::columns(""@) + width::columns(
                label,
            ) && width::columns(label) > 0 ==> rows::flat(row.spans) == bar + label
            &&& !pinned && p.config.icons && item.is_dir && width >= 2 + width::columns(
                "\u{f07b} "@,
            ) + width::columns(label) && width::columns(label) > 0 ==> rows::flat(row.spans) == bar
                + "\u{f07b} "@ + label
        }),
{
    let b = p.browser->0;
    let item = b.items[b.rows[at].index as int];
    let marks = RowMarks {
        icons: p.config.icons,
        favorite: item.is_dir && p.marks(b.cwd.child(item.name)),
        inside: false,
    };
    let label = item.shown(p.platform);
    a_column_row_reads_as_its_name(
        label,
        item.is_dir,
        at == b.selected,
        false,
        b.rows[at].hits,
        width as usize,
        marks,
        p.platform,
    );
    what_stands_before_a_name(marks, label, label, item.is_dir, p.platform);
    reveal_strlit("");
    let bar = if at == b.selected {
        "▌ "@
    } else {
        "  "@
    };
    assert(bar + ""@ =~= bar);
}

/// The window on the browsed directory shows the row under the cursor and the
/// rows around it, each once and in order.
pub proof fn the_browsed_rows_are_shown_in_order(p: PickerView, area: Rect, k: int)
    requires
        p.browser->0.selected < p.browser->0.rows.len(),
        area.height > 0,
    ensures
        ({
            let b = p.browser->0;
            let first = p.current_first(area.height);
            let rows = p.current_rows(area);
            &&& first <= b.selected < first + area.height
            &&& b.rows.len() <= area.height ==> rows.len() == b.rows.len()
            &&& b.rows.len() > area.height ==> rows.len() == area.height
            &&& 0 <= k < rows.len() ==> rows[k] == p.current_row(first + k, area.width)
        }),
{
}

/// The picture of the browser holds the prompt with the filter, the counts of
/// what is shown and of all there is, the path, and the rows of the directory;
/// beside them the directory above where there is one, and the preview where
/// it shows the selected directory.
pub proof fn the_browser_draws_what_is_there(
    p: PickerView,
    area: Rect,
    areas: BrowseAreas,
    parent: Seq<ItemView>,
    is_dir: bool,
)
    ensures
        ({
            let b = p.browser->0;
            let draws = p.browse_picture(area, areas, parent, is_dir).draws;
            let above: int = if b.cwd.parts.len() > 0 {
                1
            } else {
                0
            };
            let shows = is_dir && p.preview is Some && b.current_path() is Some
                && p.preview->0.dir == b.current_path()->0;
            &&& draws.len() == 7 + above + if shows {
                1int
            } else {
                0
            }
            &&& draws[0] is Frame && draws[0]->Frame_area == area
            &&& draws[1] == (DrawView::Text {
                area: areas.prompt,
                lines: seq![paint::prompt_line(b.filter)],
                wrap: false,
            })
            &&& draws[2] == (DrawView::Text {
                area: areas.info,
                lines: seq![
                    paint::info_line(
                        paint::tally("  "@, b.rows.len(), b.items.len()),
                        areas.info.width,
                    ),
                ],
                wrap: false,
            })
            &&& draws[3] == (DrawView::Text {
                area: areas.header,
                lines: seq![screen::lined(p.location_title())],
                wrap: false,
            })
            &&& above == 1 ==> draws[6] == (DrawView::Rows {
                area: areas.parent,
                lines: p.parent_rows(browse::listed(parent), areas.parent),
            })
            &&& draws[6 + above] == (DrawView::Rows {
                area: areas.current,
                lines: p.current_rows(areas.current),
            })
            &&& shows ==> draws[7 + above] == (DrawView::Rows {
                area: areas.preview,
                lines: p.preview_column(b.current_path()->0, areas.preview),
            })
        }),
{
}

/// What answers the mouse once the browser is drawn: the rows of the directory
/// from the first one shown on, the buttons and the steps of the header, the
/// tabs, and the entries of the directory above.
pub proof fn what_answers_the_mouse_in_the_browser(
    p: PickerView,
    area: Rect,
    areas: BrowseAreas,
    parent: Seq<ItemView>,
    is_dir: bool,
)
    requires
        area.x <= u16::MAX - 2,
        p.browser->0.rows.len() <= usize::MAX,
        p.browser->0.selected < p.browser->0.rows.len(),
        areas.current.height > 0,
    ensures
        ({
            let t = p.browse_drawn(area, areas, parent, is_dir).targets;
            let b = p.browser->0;
            &&& t.rows == areas.current
            &&& t.count == b.rows.len()
            &&& t.first <= b.selected < t.first + areas.current.height
            &&& t.modes_x == area.x + 2
            &&& t.header.x == area.x && t.header.y == area.y && t.header.width == area.width
                && t.header.height == 1
            &&& t.nav == p.location_buttons(areas.header)
            &&& t.crumbs == p.location_spots(areas.header)
        }),
{
}

/// An entry of the directory above answers in the row that it is drawn in, and
/// leads to that entry. The row of the current directory is marked there.
pub proof fn the_entries_above_answer_in_their_rows(
    p: PickerView,
    items: Seq<ItemView>,
    area: Rect,
    k: int,
)
    requires
        p.browser->0.cwd.parts.len() > 0,
        0 <= k < p.parent_spots(items, area).len(),
        area.y + area.height <= u16::MAX,
        items.len() <= usize::MAX,
    ensures
        ({
            let first = p.parent_first(items, area.height);
            let spot = p.parent_spots(items, area)[k];
            let cwd = p.browser->0.cwd;
            let above = LocationView {
                anchor: cwd.anchor,
                parts: cwd.parts.take(cwd.parts.len() - 1),
            };
            &&& p.parent_rows(items, area).len() == p.parent_spots(items, area).len()
            &&& p.parent_rows(items, area)[k] == p.parent_row(items, first + k, area.width)
            &&& spot.path == key_laws::below(above, items[first + k].name)
            &&& spot.area.y == area.y + k && spot.area.height == 1
            &&& spot.area.x == area.x && spot.area.width == area.width
            &&& (p.parent_row(items, first + k, area.width).tone is Here) == (p.here(items)
                == Some((first + k) as usize))
        }),
{
    let cwd = p.browser->0.cwd;
    assert(cwd.parts.drop_last() =~= cwd.parts.take(cwd.parts.len() - 1));
}

/// The path in the header stands behind the three buttons and a gap, and behind
/// the star of a pinned directory.
pub proof fn the_header_reads_as_buttons_and_path(p: PickerView)
    requires
        rows::plainly_written(p.browser->0.cwd, p.platform),
    ensures
        ({
            let b = p.browser->0;
            let title = rows::flat(p.location_title());
            let path = b.cwd.display(p.platform);
            &&& !p.marks(b.cwd) ==> title == " ◀  ▶  ▲  "@ + path + " "@
            &&& p.marks(b.cwd) ==> title == " ◀  ▶  ▲  "@ + "★ "@ + path + " "@
            &&& p.location_front()[0].tone == if b.back.len() > 0 {
                Tone::Header
            } else {
                Tone::Border
            }
            &&& p.location_front()[1].tone == if b.ahead.len() > 0 {
                Tone::Header
            } else {
                Tone::Border
            }
            &&& p.location_front()[2].tone == if b.cwd.parts.len() > 0 {
                Tone::Header
            } else {
                Tone::Border
            }
        }),
{
    let b = p.browser->0;
    rows::crumbs_read_as_the_path(b.cwd, p.platform);
    let front = p.location_front();
    let path = rows::pieces(rows::path_crumbs(b.cwd, p.platform));
    let gap = seq![screen::spanned(" "@, Tone::Plain)];
    lemma_flat_parts(front + path, gap);
    lemma_flat_parts(front, path);
    lemma_flat_one(gap[0]);
    let one = seq![front[0]];
    let two = seq![front[1]];
    let three = seq![front[2]];
    let four = seq![front[3]];
    let start = one + two + three + four;
    lemma_flat_parts(one + two + three, four);
    lemma_flat_parts(one + two, three);
    lemma_flat_parts(one, two);
    lemma_flat_one(front[0]);
    lemma_flat_one(front[1]);
    lemma_flat_one(front[2]);
    lemma_flat_one(front[3]);
    reveal_strlit(" ◀ ");
    reveal_strlit(" ▶ ");
    reveal_strlit(" ▲ ");
    reveal_strlit(" ");
    reveal_strlit(" ◀  ▶  ▲  ");
    assert(rows::flat(start) =~= " ◀  ▶  ▲  "@);
    if p.marks(b.cwd) {
        let star = seq![front[4]];
        assert(front =~= start + star);
        lemma_flat_parts(start, star);
        lemma_flat_one(front[4]);
    } else {
        assert(front =~= start);
    }
}

/// The preview column and the preview of a search show the names they hold from
/// the first on, as many as fit.
pub proof fn the_preview_shows_its_names(
    p: PickerView,
    dir: LocationView,
    area: Rect,
    height: u16,
    k: int,
)
    requires
        p.preview is Some,
    ensures
        ({
            let names = p.preview->0.names;
            let column = p.preview_column(dir, area);
            let rows = p.preview_rows(dir, height);
            &&& names.len() <= area.height ==> column.len() == names.len()
            &&& names.len() > area.height ==> column.len() == area.height
            &&& names.len() <= height ==> rows.len() == names.len()
            &&& names.len() > height ==> rows.len() == height
            &&& 0 <= k < column.len() ==> column[k] == p.preview_column_row(
                dir,
                names[k],
                area.width,
            )
            &&& 0 <= k < rows.len() ==> rows[k].spans.len() == 2 && rows[k].spans[1].text
                == names[k]
        }),
{
}

/// The preview is drawn exactly where it holds the directory it is for.
pub proof fn the_preview_is_drawn_where_it_fits(p: PickerView, dir: LocationView)
    ensures
        !p.previews(None),
        p.preview is None ==> !p.previews(Some(dir)),
        p.preview is Some ==> p.previews(Some(dir)) == (p.preview->0.dir == dir),
        p.selected_dir(false) is None,
        p.selected_dir(true) == p.browser->0.current_path(),
{
}

/// A text that fits is shown whole; one that does not ends in an ellipsis
/// behind a beginning of it.
pub proof fn a_trimmed_text_is_a_beginning(text: Seq<char>, room: usize)
    ensures
        room > 0 && width::columns(text) <= room ==> width::fitted(text, room) == text,
        room == 0 ==> width::fitted(text, room).len() == 0,
        room > 0 && width::columns(text) > room ==> {
            let out = width::fitted(text, room);
            &&& out.len() > 0 && out.last() == '…'
            &&& out.len() - 1 <= text.len()
            &&& out.drop_last() == text.take(out.len() - 1)
            &&& out.len() - 1 < text.len() ==> width::cells(text.take(out.len() as int)) > room - 1
        },
{
    if room > 0 && width::columns(text) > room {
        lemma_head(text, (room - 1) as nat);
        let out = width::fitted(text, room);
        let head = width::head(text, (room - 1) as nat);
        assert(out.drop_last() =~= head);
    }
}

proof fn lemma_head(text: Seq<char>, room: nat)
    ensures
        width::head(text, room).len() <= text.len(),
        width::head(text, room) == text.take(width::head(text, room).len() as int),
        width::head(text, room).len() < text.len() ==> width::cells(
            text.take(width::head(text, room).len() as int + 1),
        ) > room,
    decreases text.len(),
{
    if text.len() > 0 {
        let front = text.drop_last();
        lemma_head(front, room);
        let before = width::head(front, room);
        let n = before.len() as int;
        assert(front.take(n) =~= text.take(n));
        if n < front.len() {
            assert(front.take(n + 1) =~= text.take(n + 1));
        } else {
            assert(text.take(n + 1) =~= text);
            assert(text.take(text.len() as int) =~= text);
        }
    } else {
        assert(text.take(0) =~= text);
    }
}

/// The menu shows the path of its item, what is typed in it, its warning where
/// there is one, and the actions, or that none matches.
pub proof fn the_menu_shows_its_item_and_actions(
    m: crate::menu::MenuView,
    area: Rect,
    target: Rect,
    prompt: Rect,
    warning: Rect,
    below: Rect,
    platform: Platform,
)
    ensures
        ({
            let draws = m.picture(area, target, prompt, warning, below, platform).draws;
            let warned: int = if m.error is Some {
                1
            } else {
                0
            };
            &&& draws.len() == 4 + warned
            &&& draws[0] is Frame && draws[0]->Frame_area == area
            &&& draws[1] == (DrawView::Text {
                area: target,
                lines: seq![screen::one_line(m.target.display(platform), Tone::Target)],
                wrap: false,
            })
            &&& draws[2] == (DrawView::Text {
                area: prompt,
                lines: seq![screen::one_line("> "@ + m.query, Tone::Plain)],
                wrap: false,
            })
            &&& m.error is Some ==> draws[3] == (DrawView::Text {
                area: warning,
                lines: crate::menu::toned(text::lines_of(m.error->0), Tone::Failure),
                wrap: true,
            })
            &&& m.visible.len() > 0 ==> draws[3 + warned] == (DrawView::Rows {
                area: below,
                lines: m.shown(below.height),
            })
            &&& m.visible.len() == 0 ==> draws[3 + warned] == (DrawView::Text {
                area: below,
                lines: seq![screen::one_line("No matching actions"@, Tone::Plain)],
                wrap: false,
            })
        }),
{
}

/// Where the actions of a menu answer the mouse: in the rows they were drawn
/// in, from the first one shown on, and nowhere where none is shown.
pub proof fn where_a_menu_answers_the_mouse(m: crate::menu::MenuView, area: Rect)
    ensures
        m.visible.len() > 0 ==> m.placed(area).mouse_rows == area && m.placed(area).mouse_first
            == m.first(area.height),
        m.visible.len() == 0 ==> m.placed(area).mouse_rows == Rect::nowhere(),
        m.placed(area) == (crate::menu::MenuView {
            mouse_rows: m.placed(area).mouse_rows,
            mouse_first: m.placed(area).mouse_first,
            ..m
        }),
{
}

/// The cursor of a prompt stands behind what is typed, and never past the end
/// of its line.
pub proof fn the_cursor_stands_behind_what_is_typed(area: Rect, typed: Seq<char>)
    requires
        area.width > 0,
        area.x + area.width <= u16::MAX,
    ensures
        ({
            let x = crate::menu::prompt_cursor(area, typed);
            &&& area.x <= x < area.x + area.width
            &&& 2 + width::columns(typed) < area.width ==> x == area.x + 2 + width::columns(typed)
            &&& 2 + width::columns(typed) >= area.width ==> x == area.x + area.width - 1
        }),
{
}

/// The screen of a search has a preview exactly if the window has eighty
/// columns; it then has two fifths of it, to the right of the list, and the two
/// fill the window. Below the border stand the prompt, the counts, the header
/// and the rows, in this order.
pub proof fn how_the_screen_of_a_search_is_shared_out(area: Rect, areas: SearchAreas)
    requires
        paint::search_shared(area, areas),
        area.x + area.width <= u16::MAX,
        area.y + area.height <= u16::MAX,
        area.height >= 5,
    ensures
        areas.preview is Some == (area.width >= 80),
        areas.list.x == area.x && areas.list.y == area.y && areas.list.height == area.height,
        areas.preview is None ==> areas.list.width == area.width,
        areas.preview matches Some(preview) ==> {
            &&& preview.x == area.x + areas.list.width
            &&& areas.list.width + preview.width == area.width
            &&& preview.y == area.y && preview.height == area.height
            &&& 60 * area.width - 100 < 100 * areas.list.width < 60 * area.width + 100
            &&& 40 * area.width - 100 < 100 * preview.width < 40 * area.width + 100
        },
        areas.prompt.y == area.y + 1 && areas.prompt.height == 1,
        areas.info.y == area.y + 2 && areas.info.height == 1,
        areas.header.y == area.y + 3 && areas.header.height == 1,
        areas.rows.y == area.y + 4 && areas.rows.height == area.height - 5,
        areas.list.width >= 2 ==> {
            &&& areas.prompt.x == area.x + 1 && areas.prompt.width == areas.list.width - 2
            &&& areas.info.x == area.x + 1 && areas.info.width == areas.list.width - 2
            &&& areas.header.x == area.x + 1 && areas.header.width == areas.list.width - 2
            &&& areas.rows.x == area.x + 1 && areas.rows.width == areas.list.width - 2
        },
{
}

/// The browser's screen has the prompt, the counts and the header one below
/// the other, and under them three columns with a bar between each two: a fifth
/// for the directory above, nine twentieths for the browsed one and the rest
/// for the preview. Together they fill the width.
pub proof fn how_the_screen_of_the_browser_is_shared_out(area: Rect, areas: BrowseAreas)
    requires
        paint::browse_shared(area, areas),
        area.x + area.width <= u16::MAX,
        area.y + area.height <= u16::MAX,
        area.height >= 5,
        area.width >= 8,
    ensures
        areas.prompt.y == area.y + 1 && areas.prompt.height == 1,
        areas.info.y == area.y + 2 && areas.info.height == 1,
        areas.header.y == area.y + 3 && areas.header.height == 1,
        areas.prompt.x == area.x + 1 && areas.prompt.width == area.width - 2,
        areas.info.x == area.x + 1 && areas.info.width == area.width - 2,
        areas.header.x == area.x + 1 && areas.header.width == area.width - 2,
        areas.parent.y == area.y + 4 && areas.parent.height == area.height - 5,
        areas.current.y == area.y + 4 && areas.current.height == area.height - 5,
        areas.preview.y == area.y + 4 && areas.preview.height == area.height - 5,
        areas.parent.x == area.x + 1,
        areas.left_bar.x == areas.parent.x + areas.parent.width && areas.left_bar.width == 1,
        areas.current.x == areas.left_bar.x + 1,
        areas.right_bar.x == areas.current.x + areas.current.width && areas.right_bar.width == 1,
        areas.preview.x == areas.right_bar.x + 1,
        areas.parent.width + areas.current.width + areas.preview.width + 2 == area.width - 2,
        -100 < 100 * areas.parent.width - 20 * (area.width - 2) < 100,
        -100 < 100 * areas.current.width - 45 * (area.width - 2) < 100,
{
    let inner = area.within_border();
    let columns = choose|columns: Rect| #[trigger]
        paint::lined_up(inner, areas.prompt, areas.info, areas.header, columns) && areas.columned(
            columns,
        );
    assert(inner.width == area.width - 2 && inner.height == area.height - 2);
    assert(inner.x == area.x + 1 && inner.y == area.y + 1);
    assert(columns == inner.below(3));
}

/// A border takes one cell from each side; a row is one line of an area, and
/// what is below its first lines starts behind them.
pub proof fn what_is_left_of_an_area(area: Rect, n: int)
    requires
        area.x + area.width <= u16::MAX,
        area.y + area.height <= u16::MAX,
        0 <= n <= area.height,
    ensures
        area.width >= 2 && area.height >= 2 ==> area.within_border() == (Rect {
            x: (area.x + 1) as u16,
            y: (area.y + 1) as u16,
            width: (area.width - 2) as u16,
            height: (area.height - 2) as u16,
        }),
        area.row(n) == (Rect {
            x: area.x,
            y: (area.y + n) as u16,
            width: area.width,
            height: 1,
        }),
        area.below(n) == (Rect {
            x: area.x,
            y: (area.y + n) as u16,
            width: area.width,
            height: (area.height - n) as u16,
        }),
{
}

/// The row under the cursor and the chosen action are the only ones with a
/// ground of their own; what is current is bold, and only the tab of the mode
/// is underlined.
pub proof fn what_stands_out_on_the_screen(tone: Tone)
    ensures
        tone.paint().bg is Some == (tone is Current || tone is Chosen),
        tone.paint().underlined == tone is Tab,
        tone.paint().bold == (tone is Tab || tone is Here || tone is Notice || tone is NoticeBad
            || tone is HerePath || tone is Current || tone is Folder || tone is Chosen),
        tone.paint().fg is None == tone is Plain,
        Tone::Match.paint().fg != Tone::Plain.paint().fg,
        Tone::NoticeBad.paint().fg != Tone::Notice.paint().fg,
        Tone::Dir.paint().fg != Tone::Side.paint().fg,
        Tone::SideDir.paint().fg != Tone::Side.paint().fg,
        Tone::HerePath.paint().fg != Tone::Trail.paint().fg,
        tone matches Tone::Icon(index) ==> tone.paint().fg == Some(screen::Color::Indexed(index)),
{
}

/// The path in the header starts behind the three buttons and a blank, and
/// behind the star of a pinned directory.
pub proof fn where_the_header_path_starts(p: PickerView, area: Rect)
    requires
        area.x + 10 + width::columns("★ "@) <= u16::MAX,
    ensures
        !p.marks(p.browser->0.cwd) ==> p.location_x(area) == area.x + 10,
        p.marks(p.browser->0.cwd) ==> p.location_x(area) == area.x + 10 + width::columns("★ "@),
{
}

/// Each piece of the header path starts where the one before it ends.
pub proof fn the_pieces_of_the_header_path_follow_each_other(
    crumbs: Seq<(SpanView, Option<LocationView>)>,
    count: nat,
    x: u16,
)
    requires
        count < crumbs.len(),
    ensures
        paint::crumb_x(crumbs, 0, x) == x,
        paint::crumb_x(crumbs, count, x) + width::columns(crumbs[count as int].0.text) <= u16::MAX
            ==> paint::crumb_x(crumbs, count + 1, x) == paint::crumb_x(crumbs, count, x)
            + width::columns(crumbs[count as int].0.text),
{
}

/// Every step of the header path that is drawn whole answers the mouse, over
/// the columns of its name, and leads to its own directory.
pub proof fn every_step_drawn_whole_answers(
    crumbs: Seq<(SpanView, Option<LocationView>)>,
    count: nat,
    x: u16,
    area: Rect,
    i: int,
)
    requires
        0 <= i < count <= crumbs.len(),
        crumbs[i].1 is Some,
        width::columns(crumbs[i].0.text) <= u16::MAX,
        paint::crumb_x(crumbs, i as nat, x) + width::columns(crumbs[i].0.text) <= area.end_x(),
    ensures
        paint::crumb_spots(crumbs, count, x, area).contains(
            crate::picker::SpotView {
                area: Rect {
                    x: paint::crumb_x(crumbs, i as nat, x),
                    y: area.y,
                    width: width::columns(crumbs[i].0.text) as u16,
                    height: 1,
                },
                path: crumbs[i].1->0,
            },
        ),
    decreases count,
{
    let spots = paint::crumb_spots(crumbs, count, x, area);
    let before = paint::crumb_spots(crumbs, (count - 1) as nat, x, area);
    if i < count - 1 {
        every_step_drawn_whole_answers(crumbs, (count - 1) as nat, x, area, i);
        let spot = crate::picker::SpotView {
            area: Rect {
                x: paint::crumb_x(crumbs, i as nat, x),
                y: area.y,
                width: width::columns(crumbs[i].0.text) as u16,
                height: 1,
            },
            path: crumbs[i].1->0,
        };
        let k = before.index_of(spot);
        assert(spots[k] == spot);
    } else {
        assert(spots[spots.len() - 1].path == crumbs[i].1->0);
    }
}

/// A window shows the rows from its first one on, as many as it is high or as
/// there are left.
pub proof fn how_many_rows_a_window_shows(total: nat, first: int, height: u16)
    requires
        0 <= first,
    ensures
        first >= total ==> crate::menu::window(total, first, height) == 0,
        first < total && total - first >= height ==> crate::menu::window(total, first, height)
            == height,
        first < total && total - first < height ==> crate::menu::window(total, first, height)
            == total - first,
{
}

/// The candidates asked for are those in the window: the one under the cursor
/// is among them, and they are as many as fit.
pub proof fn which_candidates_are_asked_for(p: PickerView, areas: SearchAreas, count: u32)
    requires
        !(p.mode is Browse),
        p.sources[p.mode.index()]->0.selected < count,
        areas.rows.height > 0,
    ensures
        ({
            let first = p.list_first(areas, count);
            let end = p.list_end(areas, count);
            &&& first <= p.sources[p.mode.index()]->0.selected < end
            &&& end <= count
            &&& count <= areas.rows.height ==> first == 0 && end == count
            &&& count > areas.rows.height ==> end - first == areas.rows.height
        }),
{
}

/// A line of one piece reads as that piece in its tone, on nothing and from the
/// left; what is drawn later lies behind what was drawn before.
pub proof fn how_lines_and_screens_are_made(
    text: Seq<char>,
    tone: Tone,
    spans: Seq<SpanView>,
    screen: screen::ScreenView,
    draw: DrawView,
    area: Rect,
    x: u16,
    y: u16,
)
    ensures
        screen::spanned(text, tone).text == text && screen::spanned(text, tone).tone == tone,
        screen::lined(spans).spans == spans && screen::lined(spans).tone is Plain
            && !screen::lined(spans).right,
        screen::one_line(text, tone).spans == seq![SpanView { text, tone }],
        screen::one_line(text, tone).tone is Plain && !screen::one_line(text, tone).right,
        screen.with(draw).draws == screen.draws + seq![draw],
        screen.with(draw).cursor == screen.cursor,
        screen.at(x, y).cursor == Some((x, y)) && screen.at(x, y).draws == screen.draws,
        screen::ScreenView::blank().draws.len() == 0 && screen::ScreenView::blank().cursor is None,
        screen.with_line(area, screen::one_line(text, tone)).draws == screen.draws + seq![
            DrawView::Text {
                area,
                lines: seq![screen::one_line(text, tone)],
                wrap: false,
            },
        ],
{
    assert(screen.draws.push(draw) =~= screen.draws + seq![draw]);
}

/// The lines of a text in one tone are the lines, in order.
pub proof fn toned_lines_are_the_lines(lines: Seq<Seq<char>>, tone: Tone, k: int)
    requires
        0 <= k < lines.len(),
    ensures
        crate::menu::toned(lines, tone).len() == lines.len(),
        crate::menu::toned(lines, tone)[k].spans == seq![SpanView { text: lines[k], tone }],
{
}

/// The bars between the columns reach from top to bottom.
pub proof fn the_bars_reach_from_top_to_bottom(height: u16, k: int)
    requires
        0 <= k < height,
    ensures
        paint::bars(height).len() == height,
        paint::bars(height)[k].spans == seq![SpanView { text: "│"@, tone: Tone::Border }],
{
}

/// The cursor of a search stands behind its query, and that of the browser
/// behind its filter.
pub proof fn the_cursor_is_on_the_prompt(
    p: PickerView,
    areas: SearchAreas,
    found: FindingsView,
    area: Rect,
    columns: BrowseAreas,
    parent: Seq<ItemView>,
    is_dir: bool,
)
    ensures
        areas.prompt.x + 2 + p.query.len() <= u16::MAX ==> p.search_picture(areas, found).cursor
            == Some(((areas.prompt.x + 2 + p.query.len()) as u16, areas.prompt.y)),
        columns.prompt.width > 0 && columns.prompt.height > 0 ==> p.browse_picture(
            area,
            columns,
            parent,
            is_dir,
        ).cursor == Some(
            (
                crate::menu::prompt_cursor(columns.prompt, p.browser->0.filter),
                columns.prompt.y,
            ),
        ),
{
}

/// The counts of a search tell how many match and how many there are, behind a
/// spinner that turns only while the scan goes on.
pub proof fn the_counts_of_a_search(p: PickerView, areas: SearchAreas, found: FindingsView)
    ensures
        ({
            let draws = p.search_picture(areas, found).draws;
            let n: int = if areas.preview is None {
                0
            } else if p.previews(found.destination) {
                2
            } else {
                1
            };
            let sign = if found.scanning {
                paint::spinner(p.frame_drawn(found))
            } else {
                ' '
            };
            &&& draws.len() > n + 2
            &&& draws[n + 2] == (DrawView::Text {
                area: areas.info,
                lines: seq![
                    paint::info_line(
                        seq![sign] + " "@ + text::decimal(found.count as nat) + "/"@
                            + text::decimal(found.total as nat) + " "@,
                        areas.info.width,
                    ),
                ],
                wrap: false,
            })
        }),
{
}

/// What a search says where it has nothing to list: the lists of the user, once
/// their reading has ended, how to fill them.
pub proof fn an_empty_list_says_how_to_fill_it(
    p: PickerView,
    screen: screen::ScreenView,
    areas: SearchAreas,
    found: FindingsView,
)
    requires
        found.error is None,
        found.count == 0,
    ensures
        ({
            let draws = p.with_results(screen, areas, found).draws;
            let empty = !found.scanning && found.total == 0;
            &&& !(empty && (p.mode is Recent || p.mode is Favorites)) ==> draws == screen.draws
            &&& empty && p.mode is Recent ==> draws.len() == screen.draws.len() + 1
                && draws.last() is Text && draws.last()->Text_lines[0].spans[0].text
                == "No history yet. F5: refresh  Tab: mode"@
            &&& empty && p.mode is Favorites ==> draws.len() == screen.draws.len() + 1
                && draws.last() is Text && draws.last()->Text_lines[0].spans[0].text
                == "No favorites yet. Ctrl-B: pin a folder in another mode. Tab: mode"@
        }),
{
}

/// A name in the preview of a search carries a star where it is that of a
/// pinned directory; without icons nothing else stands before a name.
pub proof fn pinned_names_carry_a_star_in_the_preview(
    p: PickerView,
    dir: LocationView,
    item: ItemView,
)
    requires
        item.name.len() == 0 || item.name.last() != p.platform.sep(),
    ensures
        ({
            let row = p.preview_row(dir, item.shown(p.platform));
            let pinned = item.is_dir && p.marks(key_laws::below(dir, item.name));
            &&& row.spans.len() == 2
            &&& row.spans[1].text == item.shown(p.platform)
            &&& pinned ==> row.spans[0].text == "★ "@
            &&& !pinned && !p.config.icons ==> row.spans[0].text == ""@
            &&& !pinned && p.config.icons && item.is_dir ==> row.spans[0].text == "\u{f07b} "@
            &&& item.is_dir ==> row.tone is Folder
            &&& !item.is_dir ==> row.tone is Plain
        }),
{
    a_name_in_the_preview_gives_its_entry_back(item, p.platform);
}

/// A name in the browser's preview reads as it does there, behind a star where
/// it is that of a pinned directory, and is never marked as the cursor's.
pub proof fn a_previewed_row_is_its_entry(
    p: PickerView,
    dir: LocationView,
    item: ItemView,
    width: u16,
)
    requires
        item.name.len() == 0 || item.name.last() != p.platform.sep(),
    ensures
        ({
            let label = item.shown(p.platform);
            let row = p.preview_column_row(dir, label, width);
            let pinned = item.is_dir && p.marks(key_laws::below(dir, item.name));
            &&& row.spans[0].text == "  "@
            &&& item.is_dir ==> row.tone is SideDir
            &&& !item.is_dir ==> row.tone is Side
            &&& pinned && width >= 2 + width::columns("★ "@) + width::columns(label)
                && width::columns(label) > 0 ==> rows::flat(row.spans) == "  "@ + "★ "@ + label
            &&& !pinned && !p.config.icons && width >= 2 + width::columns(""@) + width::columns(
                label,
            ) && width::columns(label) > 0 ==> rows::flat(row.spans) == "  "@ + label
            &&& !pinned && p.config.icons && item.is_dir && width >= 2 + width::columns(
                "\u{f07b} "@,
            ) + width::columns(label) && width::columns(label) > 0 ==> rows::flat(row.spans)
                == "  "@ + "\u{f07b} "@ + label
        }),
{
    a_name_in_the_preview_gives_its_entry_back(item, p.platform);
    let label = item.shown(p.platform);
    let marks = RowMarks {
        icons: p.config.icons,
        favorite: item.is_dir && p.marks(dir.child(item.name)),
        inside: false,
    };
    a_column_row_reads_as_its_name(
        label,
        item.is_dir,
        false,
        true,
        Seq::empty(),
        width as usize,
        marks,
        p.platform,
    );
    what_stands_before_a_name(marks, label, label, item.is_dir, p.platform);
    reveal_strlit("");
    assert("  "@ + ""@ =~= "  "@);
}

/// A row of the directory above reads as its entry, behind a star where it is a
/// pinned directory; the directory that is browsed stands out there.
pub proof fn a_row_above_is_its_entry(p: PickerView, items: Seq<ItemView>, at: int, width: u16)
    requires
        0 <= at < items.len(),
        p.browser->0.cwd.parts.len() > 0,
    ensures
        ({
            let item = items[at];
            let label = item.shown(p.platform);
            let row = p.parent_row(items, at, width);
            let cwd = p.browser->0.cwd;
            let above = LocationView {
                anchor: cwd.anchor,
                parts: cwd.parts.take(cwd.parts.len() - 1),
            };
            let pinned = item.is_dir && p.marks(key_laws::below(above, item.name));
            let here = p.here(items) is Some && p.here(items)->0 == at;
            &&& row.spans[0].text == "  "@
            &&& (row.tone is Here) == here
            &&& pinned && width >= 2 + width::columns("★ "@) + width::columns(label)
                && width::columns(label) > 0 ==> rows::flat(row.spans) == "  "@ + "★ "@ + label
            &&& !pinned && !p.config.icons && width >= 2 + width::columns(""@) + width::columns(
                label,
            ) && width::columns(label) > 0 ==> rows::flat(row.spans) == "  "@ + label
            &&& !pinned && p.config.icons && item.is_dir && here && width >= 2 + width::columns(
                "\u{f07c} "@,
            ) + width::columns(label) && width::columns(label) > 0 ==> rows::flat(row.spans)
                == "  "@ + "\u{f07c} "@ + label
            &&& !pinned && p.config.icons && item.is_dir && !here && width >= 2 + width::columns(
                "\u{f07b} "@,
            ) + width::columns(label) && width::columns(label) > 0 ==> rows::flat(row.spans)
                == "  "@ + "\u{f07b} "@ + label
        }),
{
    let item = items[at];
    let label = item.shown(p.platform);
    let cwd = p.browser->0.cwd;
    assert(cwd.parts.drop_last() =~= cwd.parts.take(cwd.parts.len() - 1));
    let here = p.here(items) is Some && p.here(items)->0 == at;
    let marks = RowMarks {
        icons: p.config.icons,
        favorite: item.is_dir && p.marks(cwd.parent()->0.child(item.name)),
        inside: here,
    };
    a_column_row_reads_as_its_name(
        label,
        item.is_dir,
        here,
        true,
        Seq::empty(),
        width as usize,
        marks,
        p.platform,
    );
    what_stands_before_a_name(marks, label, label, item.is_dir, p.platform);
    reveal_strlit("");
    assert("  "@ + ""@ =~= "  "@);
}

/// Beside the list of a wide window stands the preview, under the title of the
/// directory that the selection would lead to, with that directory's names.
pub proof fn the_preview_stands_beside_the_list(
    p: PickerView,
    areas: SearchAreas,
    found: FindingsView,
    area: Rect,
)
    requires
        areas.preview == Some(area),
    ensures
        ({
            let draws = p.search_picture(areas, found).draws;
            &&& draws.len() > 2
            &&& draws[0] is Frame && draws[0]->Frame_area == area
            &&& draws[0]->Frame_title == screen::one_line(
                p.preview_title(found.destination),
                Tone::Header,
            )
            &&& p.previews(found.destination) ==> draws[1] == (DrawView::Rows {
                area: area.within_border(),
                lines: p.preview_rows(found.destination->0, area.within_border().height),
            })
        }),
{
}

/// The places that answer the mouse in the browser: the entries of the
/// directory above, where there is one, and those of the preview where it shows
/// the selected directory. In a search it is those of the preview.
pub proof fn which_places_answer_the_mouse(
    p: PickerView,
    area: Rect,
    columns: BrowseAreas,
    parent: Seq<ItemView>,
    is_dir: bool,
    areas: SearchAreas,
    found: FindingsView,
)
    ensures
        ({
            let b = p.browser->0;
            let paths = p.browse_drawn(area, columns, parent, is_dir).targets.paths;
            let above = p.parent_spots(browse::listed(parent), columns.parent);
            let shows = is_dir && p.preview is Some && b.current_path() is Some
                && p.preview->0.dir == b.current_path()->0;
            let beside = paint::name_spots(
                b.current_path()->0,
                p.preview->0.names,
                columns.preview,
                p.platform,
            );
            &&& b.cwd.parts.len() > 0 && shows ==> paths == above + beside
            &&& b.cwd.parts.len() > 0 && !shows ==> paths == above
            &&& b.cwd.parts.len() == 0 && shows ==> paths == beside
            &&& b.cwd.parts.len() == 0 && !shows ==> paths.len() == 0
        }),
        areas.preview matches Some(side) ==> p.search_drawn(areas, found).targets.paths
            == if found.destination is Some && p.preview is Some && p.preview->0.dir
            == found.destination->0 {
            paint::name_spots(
                found.destination->0,
                p.preview->0.names,
                side.within_border(),
                p.platform,
            )
        } else {
            Seq::empty()
        },
{
    let above = p.parent_spots(browse::listed(parent), columns.parent);
    assert(above + Seq::<crate::picker::SpotView>::empty() =~= above);
    let beside = paint::name_spots(
        p.browser->0.current_path()->0,
        p.preview->0.names,
        columns.preview,
        p.platform,
    );
    assert(Seq::<crate::picker::SpotView>::empty() + beside =~= beside);
}

/// The steps that answer in the header are those of the browsed directory's own
/// path.
pub proof fn the_header_steps_are_those_of_the_path(p: PickerView, area: Rect, k: int)
    requires
        0 <= k < p.location_spots(area).len(),
    ensures
        exists|i: int|
            0 <= i < rows::path_crumbs(p.browser->0.cwd, p.platform).len() && (
            #[trigger] rows::path_crumbs(p.browser->0.cwd, p.platform)[i]).1 == Some(
                p.location_spots(area)[k].path,
            ),
        p.browser->0.cwd.anchor == p.location_spots(area)[k].path.anchor,
        p.location_spots(area)[k].path.parts.len() <= p.browser->0.cwd.parts.len(),
        p.location_spots(area)[k].path.parts == p.browser->0.cwd.parts.take(
            p.location_spots(area)[k].path.parts.len() as int,
        ),
{
    let cwd = p.browser->0.cwd;
    let crumbs = rows::path_crumbs(cwd, p.platform);
    steps_answer_where_they_are_drawn(crumbs, crumbs.len(), p.location_x(area), area, k);
    let spot = p.location_spots(area)[k];
    let i = choose|i: int| 0 <= i < crumbs.len() && (#[trigger] crumbs[i]).1 == Some(spot.path);
    lemma_crumb_dirs(cwd, p.platform, (cwd.parts.len() + 1) as nat, i);
}

proof fn lemma_crumb_dirs(path: LocationView, platform: Platform, count: nat, i: int)
    requires
        count <= path.parts.len() + 1,
        ({
            let all = rows::crumbs(
                rows::steps(path, platform),
                count,
                path.parts.len() as int,
                platform,
            );
            0 <= i < all.len() && all[i].1 is Some
        }),
    ensures
        ({
            let dir = rows::crumbs(
                rows::steps(path, platform),
                count,
                path.parts.len() as int,
                platform,
            )[i].1->0;
            &&& dir.anchor == path.anchor
            &&& dir.parts.len() <= path.parts.len()
            &&& dir.parts == path.parts.take(dir.parts.len() as int)
        }),
    decreases count,
{
    let steps = rows::steps(path, platform);
    let last = path.parts.len() as int;
    if count > 0 {
        let all = rows::crumbs(steps, count, last, platform);
        let before = rows::crumbs(steps, (count - 1) as nat, last, platform);
        if i < before.len() {
            lemma_crumb_dirs(path, platform, (count - 1) as nat, i);
            assert(all[i] == before[i]);
        } else if i == all.len() - 1 {
            assert(all[i].1 == Some(steps[count - 1].1));
            assert(steps[count - 1].1.parts == path.parts.take(count - 1));
        }
    }
}

/// The directory that is browsed is among the entries shown of the one above,
/// and in their middle where there is room.
pub proof fn the_browsed_directory_is_shown_above(
    p: PickerView,
    items: Seq<ItemView>,
    height: u16,
    at: usize,
)
    requires
        p.here(items) == Some(at),
        at < items.len(),
        items.len() <= usize::MAX,
        height > 0,
    ensures
        ({
            let first = p.parent_first(items, height);
            &&& first <= at < first + height
            &&& items.len() <= height ==> first == 0
            &&& items.len() > height && at >= height / 2 && at - height / 2 <= items.len() - height
                ==> at - first == height / 2
        }),
{
    rows::scrolling_keeps_the_focus_in_view(at, items.len() as usize, height as usize);
}

/// Which entry of the directory above stands for the browsed one: the first
/// with its name, and none at a root.
pub proof fn which_entry_above_is_the_browsed_one(p: PickerView, items: Seq<ItemView>, at: int)
    requires
        items.len() <= usize::MAX,
    ensures
        p.browser->0.cwd.parts.len() == 0 ==> p.here(items) is None,
        p.browser->0.cwd.parts.len() > 0 && p.browser->0.cwd.parts.last() != "."@
            && p.browser->0.cwd.parts.last() != ".."@ && 0 <= at < items.len() && items[at].name
            == p.browser->0.cwd.parts.last() && (forall|k: int|
            0 <= k < at ==> (#[trigger] items[k]).name != items[at].name) ==> p.here(items) == Some(
            at as usize,
        ),
{
    let cwd = p.browser->0.cwd;
    if cwd.parts.len() > 0 {
        crate::browse_laws::the_listing_above_marks_where_one_is(items, cwd.parts.last(), at);
    }
}

/// An open menu is what is drawn, whatever is behind it; drawing it leaves
/// nothing behind it to click, and changes the menu only in where its rows
/// answer.
pub proof fn an_open_menu_covers_everything(
    p: PickerView,
    area: Rect,
    sight: paint::Sight,
    screen: screen::ScreenView,
    after: PickerView,
)
    requires
        p.menu is Some,
        p.pictured(area, sight, screen, after),
    ensures
        after.menu is Some,
        after.targets.count == 0 && after.targets.paths.len() == 0 && after.targets.crumbs.len()
            == 0 && after.targets.nav.len() == 0,
        after == (PickerView { menu: after.menu, targets: after.targets, ..p }),
        after.menu->0 == (crate::menu::MenuView {
            mouse_rows: after.menu->0.mouse_rows,
            mouse_first: after.menu->0.mouse_first,
            ..p.menu->0
        }),
        after.menu->0.mouse_rows == Rect::nowhere() || after.menu->0.mouse_rows.inside(
            area.within_border(),
        ),
        screen.draws.len() > 0 && screen.draws[0] is Frame && screen.draws[0]->Frame_area == area,
{
    let m = p.menu->0;
    let (target, prompt, warning, below) = choose|
        target: Rect,
        prompt: Rect,
        warning: Rect,
        below: Rect,
    | #[trigger]
        m.picture(area, target, prompt, warning, below, p.platform) == screen && m.shared(
            area,
            target,
            prompt,
            warning,
            below,
        ) && after == (PickerView { menu: Some(m.placed(below)), ..p.untargeted() });
    the_menu_shows_its_item_and_actions(m, area, target, prompt, warning, below, p.platform);
}

/// The parts of a menu lie one below the other inside its border: the item, the
/// prompt, the warning where there is one, and the actions in the rest.
pub proof fn how_a_menu_is_shared_out(
    m: crate::menu::MenuView,
    area: Rect,
    target: Rect,
    prompt: Rect,
    warning: Rect,
    below: Rect,
)
    requires
        m.shared(area, target, prompt, warning, below),
        area.x + area.width <= u16::MAX,
        area.y + area.height <= u16::MAX,
        area.width >= 2,
        area.height >= 7,
    ensures
        target == (Rect {
            x: (area.x + 1) as u16,
            y: (area.y + 1) as u16,
            width: (area.width - 2) as u16,
            height: 1,
        }),
        prompt == (Rect { y: (area.y + 2) as u16, ..target }),
        warning.y == area.y + 3,
        m.error is Some ==> warning.height == 3 && below.y == area.y + 6 && below.height
            == area.height - 7,
        m.error is None ==> warning.height == 0 && below.y == area.y + 3 && below.height
            == area.height - 4,
        below.x == area.x + 1 && below.width == area.width - 2,
{
}

/// The lines of a screen and what is below them are as wide as their area,
/// however high it is, and lie within it.
pub proof fn lines_are_as_wide_as_their_area(
    area: Rect,
    prompt: Rect,
    info: Rect,
    header: Rect,
    rest: Rect,
)
    requires
        paint::lined_up(area, prompt, info, header, rest),
    ensures
        prompt.x == area.x && prompt.width == area.width,
        info.x == area.x && info.width == area.width,
        header.x == area.x && header.width == area.width,
        rest.x == area.x && rest.width == area.width,
        prompt.inside(area) && info.inside(area) && header.inside(area) && rest.inside(area),
{
}

} // verus!
