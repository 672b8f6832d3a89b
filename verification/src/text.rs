//! Text as a sequence of characters: searching, trimming, splitting and
//! joining, with each operation stated over `Seq<char>`.
use vstd::prelude::*;
use vstd::string::StringExecFns;

verus! {

/// `String::push`: appends the given character to the end of the string.
pub assume_specification[ String::push ](s: &mut String, c: char)
    ensures
        final(s)@ == old(s)@.push(c),
;

/// The views of a sequence of values, one by one.
pub open spec fn views<T: View>(values: Seq<T>) -> Seq<T::V> {
    values.map_values(|value: T| value@)
}

pub proof fn lemma_views_push<T: View>(values: Seq<T>, value: T)
    ensures
        views(values.push(value)) == views(values).push(value@),
{
    assert(views(values.push(value)) =~= views(values).push(value@));
}

/// The characters of `text`.
pub fn chars_of(text: &str) -> (chars: Vec<char>)
    ensures
        chars@ == text@,
{
    let mut chars: Vec<char> = Vec::new();
    for c in iter: text.chars()
        invariant
            chars@ == iter.seq().take(iter.index()),
            iter.seq() == text@,
    {
        chars.push(c);
        assert(iter.seq().take(iter.index() + 1) =~= iter.seq().take(iter.index()).push(c));
    }
    assert(text@.take(text@.len() as int) =~= text@);
    chars
}

/// The text made of `chars[from..to]`.
pub fn slice_text(chars: &Vec<char>, from: usize, to: usize) -> (text: String)
    requires
        from <= to <= chars@.len(),
    ensures
        text@ == chars@.subrange(from as int, to as int),
{
    let mut text = String::new();
    let mut i: usize = from;
    while i < to
        invariant
            from <= i <= to <= chars@.len(),
            text@ == chars@.subrange(from as int, i as int),
        decreases to - i,
    {
        text.push(chars[i]);
        i += 1;
        assert(text@ =~= chars@.subrange(from as int, i as int));
    }
    text
}

/// Whether two texts hold the same characters.
pub fn same(left: &str, right: &str) -> (equal: bool)
    ensures
        equal == (left@ == right@),
{
    let a = chars_of(left);
    let b = chars_of(right);
    if a.len() != b.len() {
        return false;
    }
    let mut i: usize = 0;
    while i < a.len()
        invariant
            i <= a@.len() == b@.len(),
            forall|k: int| 0 <= k < i ==> a@[k] == b@[k],
            a@ == left@,
            b@ == right@,
        decreases a@.len() - i,
    {
        if a[i] != b[i] {
            return false;
        }
        i += 1;
    }
    assert(left@ =~= right@);
    true
}


/// Whether `needle` stands in `hay` at position `at`.
pub open spec fn occurs_at(hay: Seq<char>, needle: Seq<char>, at: int) -> bool {
    &&& 0 <= at
    &&& at + needle.len() <= hay.len()
    &&& hay.subrange(at, at + needle.len()) == needle
}

/// Whether `needle` stands anywhere in `hay`.
pub open spec fn occurs(hay: Seq<char>, needle: Seq<char>) -> bool {
    exists|at: int| occurs_at(hay, needle, at)
}

/// The first position at or after `from` where `needle` stands in `hay`.
pub open spec fn first_from(hay: Seq<char>, needle: Seq<char>, from: int) -> Option<int>
    decreases hay.len() + 1 - from,
{
    if from + needle.len() > hay.len() {
        None
    } else if occurs_at(hay, needle, from) {
        Some(from)
    } else {
        first_from(hay, needle, from + 1)
    }
}

/// What `first_from` finds is an occurrence with none before it, and it
/// finds nothing only where there is none.
pub proof fn lemma_first_from(hay: Seq<char>, needle: Seq<char>, from: int)
    requires
        0 <= from,
    ensures
        first_from(hay, needle, from) matches Some(at) ==> from <= at && occurs_at(hay, needle, at)
            && forall|k: int| from <= k < at ==> !occurs_at(hay, needle, k),
        first_from(hay, needle, from) is None ==> forall|k: int|
            from <= k ==> !occurs_at(hay, needle, k),
    decreases hay.len() + 1 - from,
{
    if from + needle.len() <= hay.len() && !occurs_at(hay, needle, from) {
        lemma_first_from(hay, needle, from + 1);
    }
}

/// An occurrence with none before it is the first one.
pub proof fn lemma_first_is(hay: Seq<char>, needle: Seq<char>, from: int, at: int)
    requires
        0 <= from <= at,
        occurs_at(hay, needle, at),
        forall|k: int| from <= k < at ==> !occurs_at(hay, needle, k),
    ensures
        first_from(hay, needle, from) == Some(at),
{
    lemma_first_from(hay, needle, from);
}

/// `occurs` holds exactly where a search from the start finds something.
pub proof fn lemma_occurs_first(hay: Seq<char>, needle: Seq<char>)
    ensures
        occurs(hay, needle) == (first_from(hay, needle, 0) is Some),
{
    lemma_first_from(hay, needle, 0);
}

fn matches_at(hay: &Vec<char>, needle: &Vec<char>, at: usize) -> (found: bool)
    requires
        at + needle@.len() <= hay@.len(),
    ensures
        found == occurs_at(hay@, needle@, at as int),
{
    let length: usize = hay.len();
    let mut i: usize = 0;
    while i < needle.len()
        invariant
            length == hay@.len(),
            at + needle@.len() <= hay@.len(),
            i <= needle@.len(),
            forall|k: int| 0 <= k < i ==> hay@[at + k] == needle@[k],
        decreases needle@.len() - i,
    {
        if hay[at + i] != needle[i] {
            assert(hay@.subrange(at as int, at + needle@.len())[i as int] != needle@[i as int]);
            return false;
        }
        i += 1;
    }
    assert(hay@.subrange(at as int, at + needle@.len()) =~= needle@);
    true
}

/// The first position at or after `from` where `needle` stands in `hay`.
pub fn find(hay: &Vec<char>, needle: &Vec<char>, from: usize) -> (at: Option<usize>)
    ensures
        match at {
            Some(i) => first_from(hay@, needle@, from as int) == Some(i as int),
            None => first_from(hay@, needle@, from as int) is None,
        },
{
    let mut i: usize = from;
    while i <= hay.len() && needle.len() <= hay.len() - i
        invariant
            from <= i,
            i <= hay@.len() + 1 || i == from,
            first_from(hay@, needle@, from as int) == first_from(hay@, needle@, i as int),
        decreases hay@.len() + 1 - i,
    {
        if matches_at(hay, needle, i) {
            return Some(i);
        }
        if i == hay.len() {
            assert(hay@.subrange(i as int, i as int) =~= needle@);
            return None;
        }
        i += 1;
    }
    None
}

/// Whether `needle` stands anywhere in `hay`.
pub fn contains(hay: &str, needle: &str) -> (found: bool)
    ensures
        found == occurs(hay@, needle@),
{
    proof {
        lemma_occurs_first(hay@, needle@);
    }
    find(&chars_of(hay), &chars_of(needle), 0).is_some()
}

/// Whether `text` begins with `prefix`.
pub open spec fn begins(text: Seq<char>, prefix: Seq<char>) -> bool {
    occurs_at(text, prefix, 0)
}

/// Whether `text` begins with `prefix`.
pub fn starts_with(text: &str, prefix: &str) -> (found: bool)
    ensures
        found == begins(text@, prefix@),
{
    let chars = chars_of(text);
    let start = chars_of(prefix);
    start.len() <= chars.len() && matches_at(&chars, &start, 0)
}

/// Whether the character occurs in `text`.
pub fn has_char(text: &str, c: char) -> (found: bool)
    ensures
        found == text@.contains(c),
{
    let chars = chars_of(text);
    let mut i: usize = 0;
    while i < chars.len()
        invariant
            i <= chars@.len(),
            chars@ == text@,
            forall|k: int| 0 <= k < i ==> chars@[k] != c,
        decreases chars@.len() - i,
    {
        if chars[i] == c {
            assert(text@[i as int] == c);
            return true;
        }
        i += 1;
    }
    false
}

/// `text` without the leading characters that satisfy `drop`.
pub open spec fn trim_front(text: Seq<char>, drop: spec_fn(char) -> bool) -> Seq<char>
    decreases text.len(),
{
    if text.len() > 0 && drop(text[0]) {
        trim_front(text.skip(1), drop)
    } else {
        text
    }
}

/// `text` without the trailing characters that satisfy `drop`.
pub open spec fn trim_back(text: Seq<char>, drop: spec_fn(char) -> bool) -> Seq<char>
    decreases text.len(),
{
    if text.len() > 0 && drop(text.last()) {
        trim_back(text.drop_last(), drop)
    } else {
        text
    }
}

/// Whether a character has the Unicode White_Space property.
pub open spec fn white_space(c: char) -> bool {
    ||| '\u{9}' <= c <= '\u{d}'
    ||| c == ' '
    ||| c == '\u{85}'
    ||| c == '\u{a0}'
    ||| c == '\u{1680}'
    ||| '\u{2000}' <= c <= '\u{200a}'
    ||| c == '\u{2028}'
    ||| c == '\u{2029}'
    ||| c == '\u{202f}'
    ||| c == '\u{205f}'
    ||| c == '\u{3000}'
}

/// Whether a character has the Unicode White_Space property.
pub fn is_white_space(c: char) -> (white: bool)
    ensures
        white == white_space(c),
{
    ('\u{9}' <= c && c <= '\u{d}') || c == ' ' || c == '\u{85}' || c == '\u{a0}' || c
        == '\u{1680}' || ('\u{2000}' <= c && c <= '\u{200a}') || c == '\u{2028}' || c
        == '\u{2029}' || c == '\u{202f}' || c == '\u{205f}' || c == '\u{3000}'
}

/// `text` without white space at either end.
pub open spec fn trimmed(text: Seq<char>) -> Seq<char> {
    trim_back(trim_front(text, |c: char| white_space(c)), |c: char| white_space(c))
}

/// `text` without white space at either end.
pub fn trim(text: &str) -> (out: String)
    ensures
        out@ == trimmed(text@),
{
    let chars = chars_of(text);
    let ghost white = |c: char| white_space(c);
    let mut from: usize = 0;
    assert(chars@.skip(0) =~= chars@);
    while from < chars.len() && is_white_space(chars[from])
        invariant
            from <= chars@.len(),
            white == (|c: char| white_space(c)),
            trim_front(chars@, white) == trim_front(chars@.skip(from as int), white),
        decreases chars@.len() - from,
    {
        assert(chars@.skip(from as int).skip(1) =~= chars@.skip(from + 1));
        from += 1;
    }
    let ghost front = chars@.skip(from as int);
    let mut to: usize = chars.len();
    assert(chars@.subrange(from as int, to as int) =~= front);
    while to > from && is_white_space(chars[to - 1])
        invariant
            from <= to <= chars@.len(),
            white == (|c: char| white_space(c)),
            front == chars@.skip(from as int),
            trim_back(front, white) == trim_back(chars@.subrange(from as int, to as int), white),
        decreases to,
    {
        assert(chars@.subrange(from as int, to as int).drop_last() =~= chars@.subrange(
            from as int,
            to - 1,
        ));
        to -= 1;
    }
    slice_text(&chars, from, to)
}

/// `text` without the given character at its end, however often it stands there.
pub fn trim_end_char(text: &str, c: char) -> (out: String)
    ensures
        out@ == trim_back(text@, |x: char| x == c),
{
    let chars = chars_of(text);
    let ghost is_c = |x: char| x == c;
    let mut to: usize = chars.len();
    assert(chars@.take(to as int) =~= chars@);
    while to > 0 && chars[to - 1] == c
        invariant
            to <= chars@.len(),
            is_c == (|x: char| x == c),
            trim_back(chars@, is_c) == trim_back(chars@.take(to as int), is_c),
        decreases to,
    {
        assert(chars@.take(to as int).drop_last() =~= chars@.take(to - 1));
        to -= 1;
    }
    assert(chars@.subrange(0, to as int) =~= chars@.take(to as int));
    slice_text(&chars, 0, to)
}

/// `text` without the given character at its start, however often it stands
/// there.
pub fn trim_start_char(text: &str, c: char) -> (out: String)
    ensures
        out@ == trim_front(text@, |x: char| x == c),
{
    let chars = chars_of(text);
    let ghost is_c = |x: char| x == c;
    let count: usize = chars.len();
    let mut from: usize = 0;
    assert(chars@.skip(0) =~= chars@);
    while from < count && chars[from] == c
        invariant
            from <= count == chars@.len(),
            is_c == (|x: char| x == c),
            trim_front(chars@, is_c) == trim_front(chars@.skip(from as int), is_c),
        decreases count - from,
    {
        assert(chars@.skip(from as int).skip(1) =~= chars@.skip(from + 1));
        from += 1;
    }
    assert(chars@.subrange(from as int, count as int) =~= chars@.skip(from as int));
    slice_text(&chars, from, count)
}

/// The lower case of an ASCII letter; any other character is itself.
pub open spec fn ascii_lower_char(c: char) -> char {
    if 'A' <= c && c <= 'Z' {
        ((c as u8) + 32) as char
    } else {
        c
    }
}

/// `text` with its ASCII letters in lower case.
pub open spec fn ascii_lower(text: Seq<char>) -> Seq<char> {
    text.map_values(|c: char| ascii_lower_char(c))
}

/// The upper case of an ASCII letter; any other character is itself.
pub open spec fn ascii_upper_char(c: char) -> char {
    if 'a' <= c && c <= 'z' {
        ((c as u8) - 32) as char
    } else {
        c
    }
}

/// `text` with its ASCII letters in upper case.
pub open spec fn ascii_upper(text: Seq<char>) -> Seq<char> {
    text.map_values(|c: char| ascii_upper_char(c))
}

pub fn lower_char(c: char) -> (out: char)
    ensures
        out == ascii_lower_char(c),
{
    if 'A' <= c && c <= 'Z' {
        ((c as u8) + 32u8) as char
    } else {
        c
    }
}

/// `text` with its ASCII letters in lower case.
pub fn to_ascii_lower(text: &str) -> (out: String)
    ensures
        out@ == ascii_lower(text@),
{
    let chars = chars_of(text);
    let mut out = String::new();
    let mut i: usize = 0;
    while i < chars.len()
        invariant
            i <= chars@.len(),
            out@ == ascii_lower(chars@.take(i as int)),
        decreases chars@.len() - i,
    {
        out.push(lower_char(chars[i]));
        i += 1;
        assert(out@ =~= ascii_lower(chars@.take(i as int)));
    }
    assert(chars@.take(i as int) =~= chars@);
    out
}

/// Whether two texts are equal when the case of ASCII letters is ignored.
pub fn same_ignoring_case(left: &str, right: &str) -> (equal: bool)
    ensures
        equal == (ascii_lower(left@) == ascii_lower(right@)),
{
    same(to_ascii_lower(left).as_str(), to_ascii_lower(right).as_str())
}

/// The Unicode lower case of a text.
pub uninterp spec fn unicode_lower(text: Seq<char>) -> Seq<char>;

/// `str::to_lowercase`: the lower case equivalent of the text, by the Unicode
/// tables, which are named here and not written out.
#[verifier::external_body]
pub(crate) fn to_lower(text: &str) -> (out: String)
    ensures
        out@ == unicode_lower(text@),
{
    text.to_lowercase()
}

/// The decimal digit of a number below ten.
pub open spec fn digit(n: nat) -> char {
    (48 + n) as char
}

/// A number in decimal notation.
pub open spec fn decimal(n: nat) -> Seq<char>
    decreases n,
{
    if n < 10 {
        seq![digit(n)]
    } else {
        decimal(n / 10).push(digit(n % 10))
    }
}

/// A number in decimal notation.
pub fn number(n: u128) -> (text: String)
    ensures
        text@ == decimal(n as nat),
    decreases n,
{
    if n < 10 {
        let mut text = String::new();
        text.push((48u8 + n as u8) as char);
        assert(text@ =~= seq![digit(n as nat)]);
        text
    } else {
        let mut text = number(n / 10);
        text.push((48u8 + (n % 10) as u8) as char);
        text
    }
}

/// `text` with every `from` replaced by `to`.
pub open spec fn replaced(text: Seq<char>, from: char, to: Seq<char>) -> Seq<char>
    decreases text.len(),
{
    if text.len() == 0 {
        Seq::empty()
    } else {
        replaced(text.drop_last(), from, to) + (if text.last() == from {
            to
        } else {
            seq![text.last()]
        })
    }
}

/// `text` with every `from` replaced by `to`.
pub fn replace(text: &str, from: char, to: &str) -> (out: String)
    ensures
        out@ == replaced(text@, from, to@),
{
    let chars = chars_of(text);
    let mut out = String::new();
    let mut i: usize = 0;
    while i < chars.len()
        invariant
            i <= chars@.len(),
            out@ == replaced(chars@.take(i as int), from, to@),
        decreases chars@.len() - i,
    {
        assert(chars@.take(i + 1).drop_last() =~= chars@.take(i as int));
        if chars[i] == from {
            out.append(to);
        } else {
            out.push(chars[i]);
            assert(out@ =~= replaced(chars@.take(i as int), from, to@) + seq![chars@[i as int]]);
        }
        i += 1;
    }
    assert(chars@.take(i as int) =~= chars@);
    out
}

/// A line without the carriage return before its line feed.
pub open spec fn without_return(line: Seq<char>) -> Seq<char> {
    if line.len() > 0 && line.last() == '\r' {
        line.drop_last()
    } else {
        line
    }
}

/// The lines of a text. A line ends at a line feed, with the carriage return
/// before it if there is one, and a last line feed opens no further line.
pub open spec fn lines_of(text: Seq<char>) -> Seq<Seq<char>>
    decreases text.len(),
{
    if text.len() == 0 {
        Seq::empty()
    } else {
        match first_from(text, seq!['\n'], 0) {
            None => seq![text],
            Some(at) => if 0 <= at < text.len() {
                seq![without_return(text.take(at))] + lines_of(text.skip(at + 1))
            } else {
                Seq::empty()
            },
        }
    }
}

/// The lines of a text.
pub fn lines(text: &str) -> (out: Vec<String>)
    ensures
        views(out@) == lines_of(text@),
{
    let chars = chars_of(text);
    let mut newline: Vec<char> = Vec::new();
    newline.push('\n');
    assert(newline@ =~= seq!['\n']);
    let mut out: Vec<String> = Vec::new();
    let mut from: usize = 0;
    assert(chars@.skip(0) =~= chars@);
    assert(views(out@) + lines_of(chars@.skip(0)) =~= lines_of(chars@));
    while from < chars.len()
        invariant
            from <= chars@.len(),
            newline@ == seq!['\n'],
            views(out@) + lines_of(chars@.skip(from as int)) == lines_of(chars@),
        decreases chars@.len() - from,
    {
        let ghost rest = chars@.skip(from as int);
        proof {
            lemma_first_from(chars@, newline@, from as int);
            lemma_first_from(rest, newline@, 0);
        }
        match find(&chars, &newline, from) {
            None => {
                let line = slice_text(&chars, from, chars.len());
                proof {
                    if first_from(rest, newline@, 0) is Some {
                        let at = first_from(rest, newline@, 0)->0;
                        assert(occurs_at(chars@, newline@, from + at)) by {
                            assert(chars@.subrange(from + at, from + at + 1) =~= rest.subrange(
                                at,
                                at + 1,
                            ));
                        }
                    }
                    assert(line@ =~= rest);
                    lemma_views_push(out@, line);
                }
                out.push(line);
                from = chars.len();
                assert(lines_of(chars@.skip(from as int)) =~= Seq::<Seq<char>>::empty());
                assert(views(out@) =~= lines_of(chars@));
            },
            Some(at) => {
                proof {
                    let k = at - from;
                    assert(rest.subrange(k, k + 1) =~= chars@.subrange(at as int, at + 1));
                    assert forall|j: int| 0 <= j < k implies !occurs_at(rest, newline@, j) by {
                        assert(rest.subrange(j, j + 1) =~= chars@.subrange(from + j, from + j + 1));
                        assert(!occurs_at(chars@, newline@, from + j));
                    }
                    lemma_first_is(rest, newline@, 0, k);
                    assert(rest.take(k) =~= chars@.subrange(from as int, at as int));
                    assert(rest.skip(k + 1) =~= chars@.skip(at + 1));
                }
                let end: usize = if at > from && chars[at - 1] == '\r' {
                    at - 1
                } else {
                    at
                };
                let line = slice_text(&chars, from, end);
                proof {
                    assert(line@ =~= without_return(chars@.subrange(from as int, at as int)));
                    lemma_views_push(out@, line);
                    assert(views(out@).push(line@) + lines_of(chars@.skip(at + 1)) =~= views(out@)
                        + (seq![line@] + lines_of(chars@.skip(at + 1))));
                }
                out.push(line);
                from = at + 1;
            },
        }
    }
    assert(lines_of(chars@.skip(from as int)) =~= Seq::<Seq<char>>::empty());
    assert(views(out@) =~= lines_of(chars@));
    out
}

/// The parts one after another with `between` between each two.
pub open spec fn joined(parts: Seq<Seq<char>>, between: Seq<char>) -> Seq<char>
    decreases parts.len(),
{
    if parts.len() == 0 {
        Seq::empty()
    } else if parts.len() == 1 {
        parts[0]
    } else {
        joined(parts.drop_last(), between) + between + parts.last()
    }
}

/// The parts one after another with `between` between each two.
pub fn join(parts: &Vec<String>, between: &str) -> (out: String)
    ensures
        out@ == joined(views(parts@), between@),
{
    let mut out = String::new();
    let mut i: usize = 0;
    while i < parts.len()
        invariant
            i <= parts@.len(),
            out@ == joined(views(parts@).take(i as int), between@),
        decreases parts@.len() - i,
    {
        assert(views(parts@).take(i + 1).drop_last() =~= views(parts@).take(i as int));
        if i > 0 {
            out.append(between);
        }
        out.append(parts[i].as_str());
        assert(out@ =~= joined(views(parts@).take(i + 1), between@));
        i += 1;
    }
    assert(views(parts@).take(i as int) =~= views(parts@));
    out
}

/// Two texts one after the other.
pub fn cat(a: &str, b: &str) -> (out: String)
    ensures
        out@ == a@ + b@,
{
    let mut out = a.to_owned();
    out.append(b);
    out
}

/// Three texts one after the other.
pub fn cat3(a: &str, b: &str, c: &str) -> (out: String)
    ensures
        out@ == a@ + b@ + c@,
{
    let mut out = cat(a, b);
    out.append(c);
    out
}

/// The view of a value that may be missing.
pub open spec fn inside<T: View>(value: Option<T>) -> Option<T::V> {
    match value {
        Some(inner) => Some(inner@),
        None => None,
    }
}

/// The view of a result whose error is a message.
pub open spec fn outcome<T: View>(result: Result<T, String>) -> Result<T::V, Seq<char>> {
    match result {
        Ok(value) => Ok(value@),
        Err(error) => Err(error@),
    }
}

/// Copies a text that may be missing.
pub fn copy_text(text: &Option<String>) -> (copy: Option<String>)
    ensures
        inside(copy) == inside(*text),
{
    match text {
        Some(inner) => Some(inner.clone()),
        None => None,
    }
}

/// A text without its last character.
pub open spec fn shortened(text: Seq<char>) -> Seq<char> {
    if text.len() == 0 {
        text
    } else {
        text.drop_last()
    }
}

/// A text without its last character.
pub fn shorten(text: &str) -> (out: String)
    ensures
        out@ == shortened(text@),
{
    let chars = chars_of(text);
    let count: usize = chars.len();
    if count == 0 {
        return text.to_owned();
    }
    let out = slice_text(&chars, 0, count - 1);
    assert(out@ =~= text@.drop_last());
    out
}

/// Whether a text ends with the given character.
pub fn ends_with(text: &str, c: char) -> (yes: bool)
    ensures
        yes == (text@.len() > 0 && text@.last() == c),
{
    let chars = chars_of(text);
    chars.len() > 0 && chars[chars.len() - 1] == c
}

/// The number of characters in a text.
pub fn length(text: &str) -> (count: usize)
    ensures
        count == text@.len(),
{
    chars_of(text).len()
}

} // verus!
