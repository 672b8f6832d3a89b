//! The lines that the picker's screen is made of.
use crate::browse;
use crate::browse::{read_dir, Item};
use crate::cli::{mode_at, Mode, MODES};
use crate::icons;
use crate::order;
use crate::paths;
use crate::paths::{separator_text, Location, Platform};
use crate::screen;
use crate::screen::{add_span, line, line_of, Line, Span, Tone};
use crate::text;
use crate::text::{cat3, chars_of, ends_with, starts_with};
use crate::width;
use crate::width::{fit, text_width};
use vstd::prelude::*;

verus! {

/// The most names shown of a directory in the preview.
pub const PREVIEW_LIMIT: usize = 500;

/// Whether a position is among those that matched.
pub open spec fn hit(hits: Seq<u32>, at: int) -> bool {
    exists|k: int| 0 <= k < hits.len() && #[trigger] hits[k] == at
}

/// The tone of a matched or an ordinary character.
pub open spec fn hit_tone(matched: bool) -> Tone {
    if matched {
        Tone::Match
    } else {
        Tone::Plain
    }
}

/// A text cut into its longest runs of matched and of ordinary characters.
pub open spec fn runs(text: Seq<char>, hits: Seq<u32>) -> Seq<screen::SpanView>
    decreases text.len(),
{
    if text.len() == 0 {
        Seq::empty()
    } else {
        let n = text.len() as int;
        let before = runs(text.drop_last(), hits);
        let tone = hit_tone(hit(hits, n - 1));
        if n >= 2 && hit(hits, n - 2) == hit(hits, n - 1) {
            before.drop_last().push(
                screen::spanned(before.last().text.push(text.last()), tone),
            )
        } else {
            before.push(screen::spanned(seq![text.last()], tone))
        }
    }
}

/// What stands before a row: a bar on the row under the cursor.
pub open spec fn pointer(current: bool) -> screen::SpanView {
    if current {
        screen::spanned("▌ "@, Tone::Pointer)
    } else {
        screen::spanned("  "@, Tone::Plain)
    }
}

/// A row with the matched characters in their own colour.
pub open spec fn highlighted(current: bool, text: Seq<char>, hits: Seq<u32>) -> screen::LineView {
    screen::lined(seq![pointer(current)] + runs(text, hits))
}

proof fn lemma_runs_some(text: Seq<char>, hits: Seq<u32>)
    ensures
        text.len() > 0 ==> runs(text, hits).len() > 0,
        text.len() > 0 ==> runs(text, hits).last().tone == hit_tone(hit(hits, text.len() - 1)),
        text.len() > 0 ==> runs(text, hits).last().text.len() > 0,
{
}

/// A row with the characters at `hits` in their own colour. The row under the
/// cursor has a bar before it.
pub fn highlight_line(current: bool, text: &str, hits: &Vec<u32>) -> (out: Line)
    requires
        order::is_ascending(hits@),
    ensures
        out@ == highlighted(current, text@, hits@),
{
    let mut spans: Vec<Span> = Vec::new();
    if current {
        add_span(&mut spans, "▌ ", Tone::Pointer);
    } else {
        add_span(&mut spans, "  ", Tone::Plain);
    }
    let ghost start = seq![pointer(current)];
    assert(text::views(spans@) =~= start);
    let chars = chars_of(text);
    let count: usize = chars.len();
    let mut run = String::new();
    let mut run_hit = false;
    let mut next: usize = 0;
    let mut i: usize = 0;
    while i < count
        invariant
            i <= count == chars@.len(),
            chars@ == text@,
            order::is_ascending(hits@),
            next <= hits@.len(),
            forall|k: int| 0 <= k < next ==> hits@[k] < i,
            forall|k: int| next <= k < hits@.len() ==> hits@[k] >= i,
            i == 0 ==> run@.len() == 0 && text::views(spans@) == start,
            i > 0 ==> run@.len() > 0 && run_hit == hit(hits@, i - 1),
            i > 0 ==> text::views(spans@).push(screen::spanned(run@, hit_tone(run_hit))) == start
                + runs(chars@.take(i as int), hits@),
        decreases count - i,
    {
        let is_hit = next < hits.len() && hits[next] as usize == i;
        proof {
            if is_hit {
                assert(hit(hits@, i as int));
            } else if hit(hits@, i as int) {
                let k = choose|k: int| 0 <= k < hits@.len() && #[trigger] hits@[k] == i;
                if k > next {
                    assert(hits@[next as int] < hits@[k]);
                }
            }
        }
        if is_hit {
            next += 1;
        }
        let ghost before = runs(chars@.take(i as int), hits@);
        let ghost all = start + before;
        proof {
            assert(chars@.take(i + 1).drop_last() =~= chars@.take(i as int));
            lemma_runs_some(chars@.take(i as int), hits@);
        }
        if i > 0 && is_hit != run_hit {
            let tone = if run_hit {
                Tone::Match
            } else {
                Tone::Plain
            };
            add_span(&mut spans, run.as_str(), tone);
            run = String::new();
        }
        let ghost kept = run@;
        run.push(chars[i]);
        run_hit = is_hit;
        proof {
            let piece = screen::spanned(run@, hit_tone(is_hit));
            let c = chars@[i as int];
            if i == 0 {
                assert(run@ =~= seq![c]);
                assert(before =~= Seq::empty());
                assert(text::views(spans@).push(piece) =~= start + runs(chars@.take(i + 1), hits@));
            } else if kept.len() == 0 {
                assert(run@ =~= seq![c]);
                assert(text::views(spans@) == all);
                assert(all.push(piece) =~= start + before.push(piece));
            } else {
                let earlier = screen::spanned(kept, hit_tone(is_hit));
                assert(text::views(spans@).push(earlier) == all);
                assert(all.last() == earlier);
                assert(before.last() == earlier);
                assert(text::views(spans@) =~= all.drop_last());
                assert(all.drop_last().push(piece) =~= start + before.drop_last().push(piece));
            }
        }
        i += 1;
    }
    if count > 0 {
        let tone = if run_hit {
            Tone::Match
        } else {
            Tone::Plain
        };
        add_span(&mut spans, run.as_str(), tone);
    }
    proof {
        assert(chars@.take(i as int) =~= chars@);
        if count == 0 {
            assert(runs(chars@, hits@) =~= Seq::empty());
            assert(start + runs(chars@, hits@) =~= start);
        }
    }
    line(spans)
}

/// The text of the pieces, one after the other.
pub open spec fn flat(spans: Seq<screen::SpanView>) -> Seq<char>
    decreases spans.len(),
{
    if spans.len() == 0 {
        Seq::empty()
    } else {
        flat(spans.drop_last()) + spans.last().text
    }
}

/// Highlighting loses nothing: the pieces behind the pointer are the text.
/// They are told apart by tone alone, so that no two neighbours are alike.
pub proof fn highlighting_keeps_the_text(current: bool, text: Seq<char>, hits: Seq<u32>)
    ensures
        highlighted(current, text, hits).spans[0] == pointer(current),
        flat(highlighted(current, text, hits).spans.skip(1)) == text,
        forall|k: int|
            #![trigger runs(text, hits)[k]]
            0 <= k < runs(text, hits).len() - 1 ==> runs(text, hits)[k].tone != runs(
                text,
                hits,
            )[k + 1].tone,
{
    lemma_runs(text, hits);
    let all = seq![pointer(current)] + runs(text, hits);
    assert(all.skip(1) =~= runs(text, hits));
}

proof fn lemma_runs(text: Seq<char>, hits: Seq<u32>)
    ensures
        flat(runs(text, hits)) == text,
        forall|k: int|
            #![trigger runs(text, hits)[k]]
            0 <= k < runs(text, hits).len() - 1 ==> runs(text, hits)[k].tone != runs(
                text,
                hits,
            )[k + 1].tone,
    decreases text.len(),
{
    let all = runs(text, hits);
    if text.len() > 0 {
        let front = text.drop_last();
        let before = runs(front, hits);
        let n = text.len() as int;
        lemma_runs(front, hits);
        lemma_runs_some(front, hits);
        if n >= 2 && hit(hits, n - 2) == hit(hits, n - 1) {
            assert(all.drop_last() =~= before.drop_last());
            assert(all.last().tone == before.last().tone);
            assert(flat(before.drop_last()) + before.last().text.push(text.last()) =~= (flat(
                before.drop_last(),
            ) + before.last().text).push(text.last()));
            assert forall|k: int|
                #![trigger all[k]]
                0 <= k < all.len() - 1 implies all[k].tone != all[k + 1].tone by {
                assert(before[k].tone != before[k + 1].tone);
            }
        } else {
            assert(all.drop_last() =~= before);
            assert(flat(before) + seq![text.last()] =~= text);
            assert forall|k: int|
                #![trigger all[k]]
                0 <= k < all.len() - 1 implies all[k].tone != all[k + 1].tone by {
                if k < before.len() - 1 {
                    assert(before[k].tone != before[k + 1].tone);
                }
            }
        }
        assert(front.push(text.last()) =~= text);
    } else {
        assert(all =~= Seq::empty());
    }
}

/// What marks a row. A pin takes the icon's place, also where icons are off.
#[derive(Clone, Copy, Debug, PartialEq, Eq, Structural)]
pub struct RowMarks {
    pub icons: bool,
    pub favorite: bool,
    /// The row stands for the directory that the listing is inside.
    pub inside: bool,
}

impl RowMarks {
    /// What stands before the name.
    pub open spec fn icon(self, name: Seq<char>, is_dir: bool, platform: Platform) -> Seq<char> {
        if self.favorite {
            icons::STAR@
        } else if self.inside && is_dir && self.icons {
            icons::OPEN_FOLDER@
        } else {
            icons::prefix_of(name, is_dir, self.icons, platform)
        }
    }

    /// What stands before the name.
    pub fn prefix(self, name: &str, is_dir: bool, platform: Platform) -> (icon: &'static str)
        ensures
            icon@ == self.icon(name@, is_dir, platform),
    {
        if self.favorite {
            icons::STAR
        } else if self.inside && is_dir && self.icons {
            icons::OPEN_FOLDER
        } else {
            icons::prefix(name, is_dir, self.icons, platform)
        }
    }
}

/// The values below a limit.
pub open spec fn below(values: Seq<u32>, limit: nat) -> Seq<u32>
    decreases values.len(),
{
    if values.len() == 0 {
        values
    } else if values.last() < limit {
        below(values.drop_last(), limit).push(values.last())
    } else {
        below(values.drop_last(), limit)
    }
}

fn keep_below(values: &Vec<u32>, limit: usize) -> (kept: Vec<u32>)
    requires
        order::is_ascending(values@),
    ensures
        kept@ == below(values@, limit as nat),
        order::is_ascending(kept@),
{
    let mut kept: Vec<u32> = Vec::new();
    let mut i: usize = 0;
    assert(kept@ =~= below(values@.take(0), limit as nat));
    while i < values.len()
        invariant
            i <= values@.len(),
            order::is_ascending(values@),
            kept@ == below(values@.take(i as int), limit as nat),
            order::is_ascending(kept@),
            forall|k: int|
                0 <= k < kept@.len() ==> exists|j: int|
                    0 <= j < i && values@[j] == #[trigger] kept@[k],
        decreases values@.len() - i,
    {
        assert(values@.take(i + 1).drop_last() =~= values@.take(i as int));
        if (values[i] as u64) < limit as u64 {
            kept.push(values[i]);
        }
        i += 1;
    }
    assert(values@.take(i as int) =~= values@);
    kept
}

/// What the tone of a row in a browse column is. Only the focused column has a
/// background; a side column marks where the middle one is more quietly.
pub open spec fn column_tone(current: bool, side: bool, is_dir: bool) -> Tone {
    if current {
        if side {
            Tone::Here
        } else {
            Tone::Current
        }
    } else if is_dir {
        if side {
            Tone::SideDir
        } else {
            Tone::Dir
        }
    } else if side {
        Tone::Side
    } else {
        Tone::Plain
    }
}

/// A list of pieces with an icon put in behind the pointer, if there is one.
pub open spec fn with_icon(spans: Seq<screen::SpanView>, icon: Seq<char>) -> Seq<screen::SpanView> {
    if icon.len() == 0 || spans.len() == 0 {
        spans
    } else {
        spans.insert(1, screen::spanned(icon, icons::icon_tone(icon)))
    }
}

/// One row of a browse column, trimmed to the column's width. An icon that
/// does not fit is left out.
pub open spec fn column_row(
    label: Seq<char>,
    is_dir: bool,
    current: bool,
    side: bool,
    hits: Seq<u32>,
    width: usize,
    marks: RowMarks,
    platform: Platform,
) -> screen::LineView {
    let full = marks.icon(label, is_dir, platform);
    let icon = if width >= 2 + width::columns(full) {
        full
    } else {
        ""@
    };
    let taken = 2 + width::columns(icon);
    let text = width::fitted(
        label,
        if width >= taken {
            (width - taken) as usize
        } else {
            0
        },
    );
    let row = highlighted(current && !side, text, below(hits, text.len()));
    screen::LineView {
        spans: with_icon(row.spans, icon),
        tone: column_tone(current, side, is_dir),
        right: false,
    }
}

fn add_icon(spans: &mut Vec<Span>, icon: &str)
    requires
        old(spans)@.len() > 0,
    ensures
        text::views(final(spans)@) == with_icon(text::views(old(spans)@), icon@),
{
    if !icon.is_empty() {
        let ghost before = text::views(spans@);
        let piece = icons::span(icon);
        let ghost shown = piece@;
        spans.insert(1, piece);
        assert(text::views(spans@) =~= before.insert(1, shown));
    }
}

/// One row of a browse column, trimmed to the column's width.
pub fn browse_row(
    label: &str,
    is_dir: bool,
    current: bool,
    side: bool,
    hits: &Vec<u32>,
    width: usize,
    marks: RowMarks,
    platform: Platform,
) -> (out: Line)
    requires
        order::is_ascending(hits@),
    ensures
        out@ == column_row(label@, is_dir, current, side, hits@, width, marks, platform),
{
    let full = marks.prefix(label, is_dir, platform);
    let icon = if width >= 2 && width - 2 >= text_width(full) {
        full
    } else {
        ""
    };
    let room: usize = width.saturating_sub(2).saturating_sub(text_width(icon));
    let text = fit(label, room);
    let kept = keep_below(hits, text::length(text.as_str()));
    let mut out = highlight_line(current && !side, text.as_str(), &kept);
    assert(out@.spans.len() == out.spans@.len());
    add_icon(&mut out.spans, icon);
    out.tone = match (current, side, is_dir) {
        (true, false, _) => Tone::Current,
        (true, true, _) => Tone::Here,
        (false, true, true) => Tone::SideDir,
        (false, false, true) => Tone::Dir,
        (false, true, false) => Tone::Side,
        (false, false, false) => Tone::Plain,
    };
    out
}

/// One row of a search, with its icon. The row under the cursor stands out.
pub open spec fn search_row(
    display: Seq<char>,
    is_dir: bool,
    current: bool,
    hits: Seq<u32>,
    marks: RowMarks,
    platform: Platform,
) -> screen::LineView {
    screen::LineView {
        spans: with_icon(
            highlighted(current, display, hits).spans,
            marks.icon(display, is_dir, platform),
        ),
        tone: if current {
            Tone::Current
        } else {
            Tone::Plain
        },
        right: false,
    }
}

/// One row of a search, with its icon.
pub fn result_row(
    display: &str,
    is_dir: bool,
    current: bool,
    hits: &Vec<u32>,
    marks: RowMarks,
    platform: Platform,
) -> (out: Line)
    requires
        order::is_ascending(hits@),
    ensures
        out@ == search_row(display@, is_dir, current, hits@, marks, platform),
{
    let mut out = highlight_line(current, display, hits);
    assert(out@.spans.len() == out.spans@.len());
    add_icon(&mut out.spans, marks.prefix(display, is_dir, platform));
    if current {
        out.tone = Tone::Current;
    }
    out
}

/// The bottom border: a notice where there is one, otherwise the key hints. A
/// notice is told apart from the hints, and a failure from a confirmation.
pub open spec fn footer(notice: Option<Seq<char>>, hints: Seq<char>) -> screen::LineView {
    let piece = match notice {
        Some(text) => screen::spanned(
            " "@ + text + " "@,
            if text::begins(text, "Cannot"@) || text::begins(text, "No "@) {
                Tone::NoticeBad
            } else {
                Tone::Notice
            },
        ),
        None => screen::spanned(hints, Tone::Border),
    };
    screen::LineView { spans: seq![piece], tone: Tone::Plain, right: true }
}

/// The bottom border.
pub fn footer_line(notice: &Option<String>, hints: &str) -> (out: Line)
    ensures
        out@ == footer(text::inside(*notice), hints@),
{
    let mut out = match notice {
        Some(text) => {
            let failed = starts_with(text.as_str(), "Cannot") || starts_with(text.as_str(), "No ");
            let tone = if failed {
                Tone::NoticeBad
            } else {
                Tone::Notice
            };
            line_of(cat3(" ", text.as_str(), " ").as_str(), tone)
        },
        None => line_of(hints, Tone::Border),
    };
    out.right = true;
    out
}

/// The first row of a window that has `focus` in its middle, but does not go
/// past the ends of the list.
pub open spec fn centred(focus: usize, len: usize, height: usize) -> usize {
    if height == 0 || len <= height || focus < height / 2 {
        0
    } else if focus - height / 2 > len - height {
        (len - height) as usize
    } else {
        (focus - height / 2) as usize
    }
}

/// The first row of a window that has `focus` in its middle. The parent column
/// is context, so what is on either side of the row matters as much.
pub fn centred_scroll(focus: usize, len: usize, height: usize) -> (first: usize)
    ensures
        first == centred(focus, len, height),
{
    if height == 0 || len <= height {
        return 0;
    }
    let first: usize = focus.saturating_sub(height / 2);
    let most: usize = len - height;
    if first > most {
        most
    } else {
        first
    }
}

/// The row in focus is in the window, and the window is in the list. A list
/// that fits is not scrolled.
pub proof fn scrolling_keeps_the_focus_in_view(focus: usize, len: usize, height: usize)
    requires
        focus < len,
        height > 0,
    ensures
        centred(focus, len, height) <= focus < centred(focus, len, height) + height,
        len > height ==> centred(focus, len, height) + height <= len,
        len <= height ==> centred(focus, len, height) == 0,
{
}

/// The directory that a path's first `count` names lead to.
pub open spec fn ancestor(path: paths::LocationView, count: int) -> paths::LocationView {
    paths::LocationView { anchor: path.anchor, parts: path.parts.take(count) }
}

/// What a step of a path is called: its name, or all of it where it has none,
/// as a root does.
pub open spec fn step_name(dir: paths::LocationView, platform: Platform) -> Seq<char> {
    match dir.file_name() {
        Some(name) => name,
        None => dir.display(platform),
    }
}

/// The steps of a path, outermost first, each with the directory it stands for.
pub open spec fn steps(path: paths::LocationView, platform: Platform) -> Seq<
    (Seq<char>, paths::LocationView),
> {
    Seq::new(
        path.parts.len() + 1,
        |i: int| (step_name(ancestor(path, i), platform), ancestor(path, i)),
    )
}

/// A step of a path and the directory it leads to.
#[derive(Debug)]
pub struct Step {
    pub name: String,
    pub dir: Location,
}

impl View for Step {
    type V = (Seq<char>, paths::LocationView);

    open spec fn view(&self) -> (Seq<char>, paths::LocationView) {
        (self.name@, self.dir@)
    }
}

/// The steps of a path, outermost first, each with the directory it stands for.
pub fn breadcrumb(path: &Location, platform: Platform) -> (out: Vec<Step>)
    ensures
        text::views(out@) == steps(path@, platform),
{
    let ghost all = steps(path@, platform);
    let count: usize = path.parts.len();
    let mut dir = Location { anchor: path.anchor.clone(), parts: Vec::new() };
    let mut out: Vec<Step> = Vec::new();
    let mut i: usize = 0;
    assert(dir@ =~= ancestor(path@, 0));
    assert(text::views(out@) =~= all.take(0));
    loop
        invariant_except_break
            text::views(out@) == all.take(i as int),
        invariant
            i <= count == path.parts@.len(),
            all == steps(path@, platform),
            dir@ == ancestor(path@, i as int),
        ensures
            text::views(out@) == all,
        decreases count - i,
    {
        let name = match dir.file_name() {
            Some(name) => name,
            None => dir.display(platform),
        };
        let step = Step { name, dir: dir.clone() };
        proof {
            text::lemma_views_push(out@, step);
            assert(all.take(i + 1) =~= all.take(i as int).push(step@));
        }
        out.push(step);
        if i == count {
            assert(all.take(i + 1) =~= all);
            break;
        }
        dir = dir.child(path.parts[i].as_str());
        assert(dir@ =~= ancestor(path@, i + 1));
        i += 1;
    }
    out
}

/// A piece of a path and the directory it leads to, where it stands for one.
#[derive(Debug)]
pub struct Crumb {
    pub span: Span,
    pub dir: Option<Location>,
}

impl View for Crumb {
    type V = (screen::SpanView, Option<paths::LocationView>);

    open spec fn view(&self) -> (screen::SpanView, Option<paths::LocationView>) {
        (self.span@, text::inside(self.dir))
    }
}

/// The first `count` steps of a path as pieces of text, with separators
/// between them where a step does not end in one. The last step of all, `last`,
/// stands out.
pub open spec fn crumbs(
    steps: Seq<(Seq<char>, paths::LocationView)>,
    count: nat,
    last: int,
    platform: Platform,
) -> Seq<(screen::SpanView, Option<paths::LocationView>)>
    decreases count,
{
    if count == 0 {
        Seq::empty()
    } else {
        let before = crumbs(steps, (count - 1) as nat, last, platform);
        let ended = before.len() > 0 && {
            let text = before.last().0.text;
            text.len() > 0 && text.last() == platform.sep()
        };
        let spaced = if count > 1 && !ended {
            before.push((screen::spanned(seq![platform.sep()], Tone::Trail), None))
        } else {
            before
        };
        let tone = if count - 1 == last {
            Tone::HerePath
        } else {
            Tone::Trail
        };
        spaced.push((screen::spanned(steps[count - 1].0, tone), Some(steps[count - 1].1)))
    }
}

/// The path as pieces of text, each with the directory it leads to. The last
/// step is the one being looked at.
pub open spec fn path_crumbs(path: paths::LocationView, platform: Platform) -> Seq<
    (screen::SpanView, Option<paths::LocationView>),
> {
    crumbs(steps(path, platform), path.parts.len() + 1, path.parts.len() as int, platform)
}

fn add_crumb(out: &mut Vec<Crumb>, crumb: Crumb)
    ensures
        text::views(final(out)@) == text::views(old(out)@).push(crumb@),
        final(out)@.len() == old(out)@.len() + 1,
{
    proof {
        text::lemma_views_push(out@, crumb);
    }
    out.push(crumb);
}

/// The path as pieces of text, each with the directory it leads to.
pub fn crumb_spans(path: &Location, platform: Platform) -> (out: Vec<Crumb>)
    ensures
        text::views(out@) == path_crumbs(path@, platform),
{
    let found = breadcrumb(path, platform);
    let ghost all = steps(path@, platform);
    let count: usize = found.len();
    assert(text::views(found@).len() == count);
    let last: usize = count - 1;
    let mut out: Vec<Crumb> = Vec::new();
    let mut i: usize = 0;
    assert(text::views(out@) =~= crumbs(all, 0, last as int, platform));
    while i < count
        invariant
            i <= count == found@.len(),
            all == text::views(found@),
            last == count - 1,
            text::views(out@) == crumbs(all, i as nat, last as int, platform),
            out@.len() == crumbs(all, i as nat, last as int, platform).len(),
        decreases count - i,
    {
        assert(all[i as int] == found@[i as int]@);
        let pieces: usize = out.len();
        let ended = pieces > 0 && ends_with(
            out[pieces - 1].span.text.as_str(),
            platform.separator(),
        );
        proof {
            if pieces > 0 {
                assert(text::views(out@).last() == out@[pieces - 1]@);
            }
        }
        if i > 0 && !ended {
            let sep = separator_text(platform);
            add_crumb(
                &mut out,
                Crumb { span: screen::span(sep.as_str(), Tone::Trail), dir: None },
            );
        }
        let tone = if i == last {
            Tone::HerePath
        } else {
            Tone::Trail
        };
        add_crumb(
            &mut out,
            Crumb {
                span: screen::span(found[i].name.as_str(), tone),
                dir: Some(found[i].dir.clone()),
            },
        );
        i += 1;
    }
    out
}

/// The texts of the crumbs' pieces.
pub open spec fn pieces(
    crumbs: Seq<(screen::SpanView, Option<paths::LocationView>)>,
) -> Seq<screen::SpanView> {
    crumbs.map_values(|crumb: (screen::SpanView, Option<paths::LocationView>)| crumb.0)
}

/// The path as pieces of text, with its last step standing out.
pub fn location_spans(path: &Location, platform: Platform) -> (out: Vec<Span>)
    ensures
        text::views(out@) == pieces(path_crumbs(path@, platform)),
{
    let crumbs = crumb_spans(path, platform);
    let ghost all = text::views(crumbs@);
    let mut out: Vec<Span> = Vec::new();
    let mut i: usize = 0;
    assert(text::views(out@) =~= pieces(all.take(0)));
    while i < crumbs.len()
        invariant
            i <= crumbs@.len(),
            all == text::views(crumbs@),
            text::views(out@) == pieces(all.take(i as int)),
        decreases crumbs@.len() - i,
    {
        assert(all[i as int] == crumbs@[i as int]@);
        assert(pieces(all.take(i + 1)) =~= pieces(all.take(i as int)).push(all[i as int].0));
        add_span(&mut out, crumbs[i].span.text.as_str(), crumbs[i].span.tone);
        i += 1;
    }
    assert(all.take(i as int) =~= all);
    out
}

/// Whether a path is written out plainly: it starts at a root, and each of its
/// names is a name proper, without a separator at its end.
pub open spec fn plainly_written(path: paths::LocationView, platform: Platform) -> bool {
    &&& path.anchor.len() > 0
    &&& path.anchor.last() == platform.sep()
    &&& forall|i: int|
        0 <= i < path.parts.len() ==> (#[trigger] path.parts[i]).len() > 0 && path.parts[i].last()
            != platform.sep() && path.parts[i] != "."@ && path.parts[i] != ".."@
}

/// The pieces of a path still read as the path, so nothing is lost by taking
/// it apart, and only the last step stands out.
pub proof fn crumbs_read_as_the_path(path: paths::LocationView, platform: Platform)
    requires
        plainly_written(path, platform),
    ensures
        flat(pieces(path_crumbs(path, platform))) == path.display(platform),
        path_crumbs(path, platform).last().0.tone is HerePath,
        path_crumbs(path, platform).last().1 == Some(path),
        forall|k: int|
            0 <= k < path_crumbs(path, platform).len() - 1 ==> (#[trigger] path_crumbs(
                path,
                platform,
            )[k]).0.tone is Trail,
{
    lemma_crumbs(path, platform, (path.parts.len() + 1) as nat);
    assert(path.parts.take(path.parts.len() as int) =~= path.parts);
}

proof fn lemma_crumbs(path: paths::LocationView, platform: Platform, count: nat)
    requires
        plainly_written(path, platform),
        0 < count <= path.parts.len() + 1,
    ensures
        ({
            let out = crumbs(steps(path, platform), count, path.parts.len() as int, platform);
            &&& out.len() > 0
            &&& flat(pieces(out)) == ancestor(path, count - 1).display(platform)
            &&& out.last().0.text == step_name(ancestor(path, count - 1), platform)
            &&& out.last().1 == Some(ancestor(path, count - 1))
            &&& out.last().0.tone == if count == path.parts.len() + 1 {
                Tone::HerePath
            } else {
                Tone::Trail
            }
            &&& forall|k: int| 0 <= k < out.len() - 1 ==> (#[trigger] out[k]).0.tone is Trail
        }),
    decreases count,
{
    let all = steps(path, platform);
    let last = path.parts.len() as int;
    let out = crumbs(all, count, last, platform);
    let here = ancestor(path, count - 1);
    let sep = seq![platform.sep()];
    assert(pieces(out).drop_last() =~= pieces(out.drop_last()));
    if count == 1 {
        assert(here.parts =~= Seq::empty());
        assert(text::joined(here.parts, sep) =~= Seq::empty());
        assert(here.display(platform) =~= path.anchor);
        assert(crumbs(all, 0, last, platform) =~= Seq::empty());
        assert(out.drop_last() =~= Seq::empty());
        assert(flat(pieces(out.drop_last())) =~= Seq::empty());
        assert(Seq::<char>::empty() + path.anchor =~= path.anchor);
    } else {
        lemma_crumbs(path, platform, (count - 1) as nat);
        let before = crumbs(all, (count - 1) as nat, last, platform);
        let above = ancestor(path, count - 2);
        assert(here.parts.drop_last() =~= above.parts);
        assert(here.parts.last() == path.parts[count - 2]);
        let name = path.parts[count - 2];
        if count == 2 {
            assert(above.parts =~= Seq::empty());
            assert(text::joined(above.parts, sep) =~= Seq::empty());
            assert(above.display(platform) =~= path.anchor);
            assert(before.last().0.text == path.anchor);
            assert(out.drop_last() =~= before);
            assert(text::joined(here.parts, sep) == name);
            assert(here.display(platform) =~= path.anchor + name);
        } else {
            assert(above.parts.last() == path.parts[count - 3]);
            assert(before.last().0.text == path.parts[count - 3]);
            let gap = before.push((screen::spanned(sep, Tone::Trail), None));
            assert(out.drop_last() =~= gap);
            assert(pieces(gap).drop_last() =~= pieces(before));
            assert(flat(pieces(gap)) == flat(pieces(before)) + sep);
            assert(here.display(platform) =~= above.display(platform) + sep + name);
        }
    }
}

/// The first `count` tabs, separated by bars. The tab of the current mode
/// stands out.
pub open spec fn tabs(mode: Mode, count: nat) -> Seq<screen::SpanView>
    decreases count,
{
    if count == 0 {
        seq![screen::spanned("["@, Tone::Header)]
    } else {
        let before = tabs(mode, (count - 1) as nat);
        let spaced = if count > 1 {
            before.push(screen::spanned("|"@, Tone::Header))
        } else {
            before
        };
        let shown = Mode::nth(count - 1);
        spaced.push(
            screen::spanned(
                shown.name(),
                if shown == mode {
                    Tone::Tab
                } else {
                    Tone::Header
                },
            ),
        )
    }
}

/// The names of the modes in brackets.
pub open spec fn tab_bar(mode: Mode) -> Seq<screen::SpanView> {
    tabs(mode, MODES as nat).push(screen::spanned("] "@, Tone::Header))
}

/// The names of the modes in brackets, the current one standing out.
pub fn mode_tabs(mode: Mode) -> (out: Vec<Span>)
    ensures
        text::views(out@) == tab_bar(mode),
{
    let mut out: Vec<Span> = Vec::new();
    add_span(&mut out, "[", Tone::Header);
    assert(text::views(out@) =~= tabs(mode, 0));
    let mut i: usize = 0;
    while i < MODES
        invariant
            i <= MODES,
            text::views(out@) == tabs(mode, i as nat),
        decreases MODES - i,
    {
        if i > 0 {
            add_span(&mut out, "|", Tone::Header);
        }
        let shown = mode_at(i);
        let tone = if shown == mode {
            Tone::Tab
        } else {
            Tone::Header
        };
        add_span(&mut out, shown.label(), tone);
        i += 1;
    }
    add_span(&mut out, "] ", Tone::Header);
    out
}

/// What the preview shows of a directory: the labels of its first entries, or
/// that it cannot be read.
pub open spec fn preview_names(entries: Option<Seq<browse::ItemView>>, platform: Platform) -> Seq<
    Seq<char>,
> {
    match entries {
        None => seq!["(unreadable)"@],
        Some(entries) => {
            let items = browse::listed(entries);
            Seq::new(
                if items.len() > PREVIEW_LIMIT {
                    PREVIEW_LIMIT as nat
                } else {
                    items.len()
                },
                |i: int| items[i].shown(platform),
            )
        },
    }
}

/// What the preview shows of a directory, directories first.
pub fn list_dir(entries: Option<Vec<Item>>, platform: Platform) -> (names: Vec<String>)
    ensures
        text::views(names@) == preview_names(
            match entries {
                Some(entries) => Some(text::views(entries@)),
                None => None,
            },
            platform,
        ),
{
    let mut names: Vec<String> = Vec::new();
    let entries = match entries {
        Some(entries) => entries,
        None => {
            names.push("(unreadable)".to_owned());
            assert(text::views(names@) =~= seq!["(unreadable)"@]);
            return names;
        },
    };
    let ghost raw = text::views(entries@);
    let items = read_dir(entries);
    let ghost all = preview_names(Some(raw), platform);
    let total: usize = items.len();
    assert(text::views(items@).len() == total);
    let count: usize = if total > PREVIEW_LIMIT {
        PREVIEW_LIMIT
    } else {
        total
    };
    let mut i: usize = 0;
    assert(text::views(names@) =~= all.take(0));
    while i < count
        invariant
            i <= count <= items@.len(),
            text::views(items@) == browse::listed(raw),
            all == preview_names(Some(raw), platform),
            all.len() == count,
            text::views(names@) == all.take(i as int),
        decreases count - i,
    {
        let name = items[i].label(platform);
        proof {
            assert(text::views(items@)[i as int] == items@[i as int]@);
            text::lemma_views_push(names@, name);
            assert(all.take(i + 1) =~= all.take(i as int).push(name@));
        }
        names.push(name);
        i += 1;
    }
    assert(all.take(i as int) =~= all);
    names
}

/// The height of the picker in a window of so many rows.
pub open spec fn height_of(rows: u16) -> u16 {
    if rows == 0 {
        1
    } else {
        rows
    }
}

/// The row to take the screen up again at.
pub open spec fn row_after(top: u16, rows: u16) -> u16 {
    if top < rows {
        top
    } else if rows == 0 {
        0
    } else {
        (rows - 1) as u16
    }
}

/// The height of the picker: the whole window, and at least one row.
pub fn inline_height(rows: u16) -> (height: u16)
    ensures
        height == height_of(rows),
{
    if rows == 0 {
        1
    } else {
        rows
    }
}

/// The row to take the screen up again at, after it was left at `top`, in a
/// window that may have become smaller.
pub fn resume_row(top: u16, rows: u16) -> (row: u16)
    ensures
        row == row_after(top, rows),
{
    let last: u16 = rows.saturating_sub(1);
    if top < last {
        top
    } else {
        last
    }
}

/// The picker takes the whole window, and at least one row. It is taken up
/// again at the row it was left at, or at the last one of a window that no
/// longer has that row.
pub proof fn the_picker_keeps_to_its_window(top: u16, rows: u16)
    ensures
        height_of(rows) >= 1,
        rows > 0 ==> height_of(rows) == rows,
        rows > 0 ==> row_after(top, rows) < rows,
        top < rows ==> row_after(top, rows) == top,
        rows > 0 && top >= rows ==> row_after(top, rows) == rows - 1,
{
}

} // verus!
