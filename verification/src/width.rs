//! Display width: how many terminal columns a text takes.
use crate::text::chars_of;
use vstd::prelude::*;

verus! {

/// The number of columns that a text takes on the screen.
pub uninterp spec fn columns(text: Seq<char>) -> usize;

/// The number of columns that a character takes, unless it is a control
/// character.
pub uninterp spec fn char_columns(c: char) -> Option<usize>;

/// `unicode_width::UnicodeWidthStr::width`: the displayed width of a text.
/// The width tables are named, not written out.
#[verifier::external_body]
pub(crate) fn text_width(text: &str) -> (width: usize)
    ensures
        width == columns(text@),
{
    unicode_width::UnicodeWidthStr::width(text)
}

/// `unicode_width::UnicodeWidthChar::width`: the displayed width of one
/// character, which is nothing for a control character.
#[verifier::external_body]
pub(crate) fn char_width(c: char) -> (width: Option<usize>)
    ensures
        width == char_columns(c),
{
    unicode_width::UnicodeWidthChar::width(c)
}

/// The columns that a character takes in a trimmed text.
pub open spec fn cell(c: char) -> nat {
    match char_columns(c) {
        Some(width) => width as nat,
        None => 0,
    }
}

/// The columns that the characters take one by one.
pub open spec fn cells(text: Seq<char>) -> nat
    decreases text.len(),
{
    if text.len() == 0 {
        0
    } else {
        cells(text.drop_last()) + cell(text.last())
    }
}

/// The characters from the front that fit in `room` columns: up to the first
/// one that no longer does.
pub open spec fn head(text: Seq<char>, room: nat) -> Seq<char>
    decreases text.len(),
{
    if text.len() == 0 {
        text
    } else {
        let before = head(text.drop_last(), room);
        if before.len() == text.len() - 1 && cells(text) <= room {
            text
        } else {
            before
        }
    }
}

/// A text trimmed to a width: whole where it fits, otherwise its head with an
/// ellipsis in the last column.
pub open spec fn fitted(text: Seq<char>, width: usize) -> Seq<char> {
    if width == 0 {
        Seq::empty()
    } else if columns(text) <= width {
        text
    } else {
        head(text, (width - 1) as nat).push('…')
    }
}

proof fn lemma_head_stops(text: Seq<char>, at: int, room: nat)
    requires
        0 <= at < text.len(),
        head(text.take(at), room) == text.take(at),
        cells(text.take(at + 1)) > room,
    ensures
        head(text, room) == text.take(at),
    decreases text.len(),
{
    if at + 1 == text.len() {
        assert(text.take(at + 1) =~= text);
        assert(text.drop_last() =~= text.take(at));
    } else {
        let before = text.drop_last();
        assert(before.take(at) =~= text.take(at));
        assert(before.take(at + 1) =~= text.take(at + 1));
        lemma_head_stops(before, at, room);
    }
}

/// Trims `text` to `width` columns, ending in an ellipsis where it does not
/// fit. Columns are counted, so a wide character is never cut in half.
pub fn fit(text: &str, width: usize) -> (out: String)
    ensures
        out@ == fitted(text@, width),
{
    if width == 0 {
        return String::new();
    }
    if text_width(text) <= width {
        return text.to_owned();
    }
    let chars = chars_of(text);
    let room: usize = width - 1;
    let mut out = String::new();
    let mut used: usize = 0;
    let mut i: usize = 0;
    while i < chars.len()
        invariant_except_break
            head(chars@.take(i as int), room as nat) == chars@.take(i as int),
            out@ == chars@.take(i as int),
            i == chars@.len() ==> chars@.take(i as int) == chars@,
        invariant
            i <= chars@.len(),
            chars@ == text@,
            used <= room,
            used == cells(chars@.take(i as int)),
        ensures
            out@ == head(chars@, room as nat),
        decreases chars@.len() - i,
    {
        let w: usize = match char_width(chars[i]) {
            Some(w) => w,
            None => 0,
        };
        assert(chars@.take(i + 1).drop_last() =~= chars@.take(i as int));
        if w > room - used {
            proof {
                lemma_head_stops(chars@, i as int, room as nat);
            }
            break;
        }
        out.push(chars[i]);
        used += w;
        i += 1;
        assert(out@ =~= chars@.take(i as int));
    }
    out.push('…');
    out
}

proof fn lemma_head_fits(text: Seq<char>, room: nat)
    ensures
        cells(head(text, room)) <= room,
        head(text, room).len() <= text.len(),
        head(text, room) == text.take(head(text, room).len() as int),
    decreases text.len(),
{
    if text.len() > 0 {
        lemma_head_fits(text.drop_last(), room);
        let before = head(text.drop_last(), room);
        assert(text.drop_last().take(before.len() as int) =~= text.take(before.len() as int));
        assert(text.take(text.len() as int) =~= text);
    } else {
        assert(text.take(0) =~= text);
    }
}

/// A trimmed text either is the whole text, no wider than asked, or a head of
/// it and an ellipsis, which leave room for the ellipsis' own column. A width
/// of nothing leaves nothing.
pub proof fn fitted_text_keeps_within_its_width(text: Seq<char>, width: usize)
    ensures
        width == 0 ==> fitted(text, width).len() == 0,
        width > 0 && columns(text) <= width ==> fitted(text, width) == text,
        width > 0 && columns(text) > width ==> {
            let out = fitted(text, width);
            &&& out.len() > 0
            &&& out.last() == '…'
            &&& out.len() - 1 <= text.len()
            &&& out.drop_last() == text.take(out.len() - 1)
            &&& cells(out.drop_last()) < width
        },
{
    if width > 0 && columns(text) > width {
        lemma_head_fits(text, (width - 1) as nat);
        let kept = head(text, (width - 1) as nat);
        assert(kept.push('…').drop_last() =~= kept);
    }
}

} // verus!
