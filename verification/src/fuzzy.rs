//! Fuzzy matching of a typed query against names.
use crate::text::{chars_of, slice_text};
use vstd::prelude::*;

verus! {

/// The matching engine's scratch memory.
#[verifier::external_type_specification]
#[verifier::external_body]
pub struct ExMatcher(nucleo::Matcher);

/// The longest query that is matched. Parsing may double the backslashes of a
/// word, and so its length. A character of the parsed word adds at most 26
/// points to the score, the first one 36, and the engine counts the points of
/// a word in sixteen bits.
pub const QUERY_LIMIT: usize = 1260;

/// The longest text that is matched. The engine takes some texts by their
/// bytes, up to four for a character, and multiplies the length of the text by
/// that of the parsed word, in a machine word of 32 bits or more.
pub const TEXT_LIMIT: usize = 0x6_8000;

/// A character after simple case folding.
pub uninterp spec fn case_folded(c: char) -> char;

/// Whether a character is a lower case letter.
pub uninterp spec fn small_letter(c: char) -> bool;

/// `nucleo::chars::to_lower_case`: simple case folding. A folded character is
/// not folded further.
#[verifier::external_body]
pub(crate) fn fold_case(c: char) -> (folded: char)
    ensures
        folded == case_folded(c),
        case_folded(folded) == folded,
{
    nucleo::chars::to_lower_case(c)
}

/// `char::is_lowercase`.
#[verifier::external_body]
pub(crate) fn is_small_letter(c: char) -> (yes: bool)
    ensures
        yes == small_letter(c),
{
    c.is_lowercase()
}

/// Whether a lower case letter stands for another one where case is ignored,
/// as the final sigma stands for the sigma. Some steps of the engine fold such
/// a letter and others do not.
pub open spec fn folds(c: char) -> bool {
    small_letter(c) && case_folded(c) != c
}

/// Whether all of a text is ASCII.
pub open spec fn is_plain(text: Seq<char>) -> bool {
    forall|i: int| 0 <= i < text.len() ==> #[trigger] text[i] <= '\u{7f}'
}

/// Whether all steps of the engine read a text alike: for a query in ASCII each
/// of them folds every letter, for another one the text has to hold no letter
/// on which they differ. The engine takes it for granted that the steps agree
/// on where a match begins, and may stop where they do not.
pub open spec fn is_level(query: Seq<char>, text: Seq<char>) -> bool {
    is_plain(query) || forall|i: int| 0 <= i < text.len() ==> !folds(#[trigger] text[i])
}

/// A character as a query that is not ASCII is matched against it.
pub open spec fn leveled_char(c: char) -> char {
    if folds(c) {
        case_folded(c)
    } else {
        c
    }
}

/// A text as a query is matched against it.
pub open spec fn leveled(query: Seq<char>, text: Seq<char>) -> Seq<char> {
    if is_plain(query) {
        text
    } else {
        text.map_values(|c: char| leveled_char(c))
    }
}

/// The score that a query gives a text, if the text matches it.
pub uninterp spec fn fuzzy_score(query: Seq<char>, text: Seq<char>) -> Option<u32>;

/// The score that a query gives a text, and the positions its words matched,
/// word after word. `paths` says that the separators of paths count as word
/// boundaries, and `windows` that the backslash is among these separators; it
/// has a bearing on paths alone.
pub uninterp spec fn fuzzy_hits(
    query: Seq<char>,
    text: Seq<char>,
    paths: bool,
    windows: bool,
) -> (Option<u32>, Seq<u32>);

/// Whether these are the positions that a query matched in a path, by the
/// separators of one system or of the other.
pub open spec fn matched_in_path(query: Seq<char>, text: Seq<char>, hits: Seq<u32>) -> bool {
    ||| hits == fuzzy_hits(query, text, true, false).1
    ||| hits == fuzzy_hits(query, text, true, true).1
}

/// `nucleo::Matcher::new` with the default settings.
#[verifier::external_body]
pub(crate) fn new_matcher() -> nucleo::Matcher {
    nucleo::Matcher::new(nucleo::Config::DEFAULT)
}

/// `nucleo::pattern::Pattern::score` of the pattern parsed from `query` with
/// case ignored, under the default settings. The scoring is named, not
/// written out; it depends on the two texts alone.
#[verifier::external_body]
pub(crate) fn score(query: &str, text: &str, matcher: &mut nucleo::Matcher) -> (score: Option<u32>)
    requires
        query@.len() <= QUERY_LIMIT,
        text@.len() <= TEXT_LIMIT,
        is_level(query@, text@),
    ensures
        score == fuzzy_score(query@, text@),
{
    matcher.config = nucleo::Config::DEFAULT;
    let pattern = nucleo::pattern::Pattern::parse(
        query,
        nucleo::pattern::CaseMatching::Ignore,
        nucleo::pattern::Normalization::Smart,
    );
    let mut buffer: Vec<char> = Vec::new();
    pattern.score(nucleo::Utf32Str::new(text, &mut buffer), matcher)
}

/// `nucleo::pattern::Pattern::indices` of the pattern parsed from `query` with
/// case ignored, under the default settings: the score, and the positions as
/// they were appended to an empty list.
#[verifier::external_body]
pub(crate) fn hits(query: &str, text: &str, matcher: &mut nucleo::Matcher) -> (found: (
    Option<u32>,
    Vec<u32>,
))
    requires
        query@.len() <= QUERY_LIMIT,
        text@.len() <= TEXT_LIMIT,
        is_level(query@, text@),
    ensures
        (found.0, found.1@) == fuzzy_hits(query@, text@, false, false),
{
    matcher.config = nucleo::Config::DEFAULT;
    let pattern = nucleo::pattern::Pattern::parse(
        query,
        nucleo::pattern::CaseMatching::Ignore,
        nucleo::pattern::Normalization::Smart,
    );
    let mut buffer: Vec<char> = Vec::new();
    let mut hits: Vec<u32> = Vec::new();
    let score = pattern.indices(nucleo::Utf32Str::new(text, &mut buffer), matcher, &mut hits);
    (score, hits)
}

/// `nucleo::pattern::Pattern::indices` as in `hits`, under the settings for
/// paths, `Config::match_paths`: the positions. That function takes the
/// separators of the system that the engine was built for, so the positions
/// are those by one set of separators or by the other. Which of the two it is
/// goes unsaid.
#[verifier::external_body]
pub(crate) fn path_hits(query: &str, text: &str, matcher: &mut nucleo::Matcher) -> (hits: Vec<u32>)
    requires
        query@.len() <= QUERY_LIMIT,
        text@.len() <= TEXT_LIMIT,
        is_level(query@, text@),
    ensures
        matched_in_path(query@, text@, hits@),
{
    matcher.config = nucleo::Config::DEFAULT.match_paths();
    let pattern = nucleo::pattern::Pattern::parse(
        query,
        nucleo::pattern::CaseMatching::Ignore,
        nucleo::pattern::Normalization::Smart,
    );
    let mut buffer: Vec<char> = Vec::new();
    let mut hits: Vec<u32> = Vec::new();
    let _score = pattern.indices(nucleo::Utf32Str::new(text, &mut buffer), matcher, &mut hits);
    hits
}

fn plain(text: &str) -> (yes: bool)
    ensures
        yes == is_plain(text@),
{
    let chars = chars_of(text);
    let mut i: usize = 0;
    while i < chars.len()
        invariant
            i <= chars@.len(),
            chars@ == text@,
            forall|k: int| 0 <= k < i ==> #[trigger] chars@[k] <= '\u{7f}',
        decreases chars@.len() - i,
    {
        if chars[i] > '\u{7f}' {
            assert(text@[i as int] > '\u{7f}');
            return false;
        }
        i += 1;
    }
    true
}

fn level_char(c: char) -> (out: char)
    ensures
        out == leveled_char(c),
        !folds(out),
{
    if is_small_letter(c) {
        fold_case(c)
    } else {
        c
    }
}

/// A text as a query is matched against it.
fn level(query: &str, text: &str) -> (out: String)
    ensures
        out@ == leveled(query@, text@),
        is_level(query@, out@),
{
    if plain(query) {
        return text.to_owned();
    }
    let chars = chars_of(text);
    let mut made: Vec<char> = Vec::new();
    let mut i: usize = 0;
    while i < chars.len()
        invariant
            i <= chars@.len(),
            chars@ == text@,
            made@.len() == i,
            forall|k: int| 0 <= k < i ==> #[trigger] made@[k] == leveled_char(text@[k]),
            forall|k: int| 0 <= k < i ==> !folds(#[trigger] made@[k]),
        decreases chars@.len() - i,
    {
        made.push(level_char(chars[i]));
        i += 1;
    }
    let count: usize = made.len();
    let out = slice_text(&made, 0, count);
    assert(out@ =~= made@);
    assert(out@ =~= leveled(query@, text@));
    out
}

/// The score that a query gives a text, if the text matches it.
pub open spec fn scored(query: Seq<char>, text: Seq<char>) -> Option<u32> {
    fuzzy_score(query, leveled(query, text))
}

/// The score that a query gives a text, and the positions that it matched.
pub open spec fn marked(query: Seq<char>, text: Seq<char>) -> (Option<u32>, Seq<u32>) {
    fuzzy_hits(query, leveled(query, text), false, false)
}

/// The score that a query gives a text, if the text matches it.
pub fn match_text(query: &str, text: &str, matcher: &mut nucleo::Matcher) -> (found: Option<u32>)
    requires
        query@.len() <= QUERY_LIMIT,
        text@.len() <= TEXT_LIMIT,
    ensures
        found == scored(query@, text@),
{
    score(query, level(query, text).as_str(), matcher)
}

/// The score that a query gives a text, and the positions that it matched.
pub fn mark_text(query: &str, text: &str, matcher: &mut nucleo::Matcher) -> (found: (
    Option<u32>,
    Vec<u32>,
))
    requires
        query@.len() <= QUERY_LIMIT,
        text@.len() <= TEXT_LIMIT,
    ensures
        (found.0, found.1@) == marked(query@, text@),
{
    hits(query, level(query, text).as_str(), matcher)
}

/// The positions that a query matched in a path.
pub fn mark_path(query: &str, text: &str, matcher: &mut nucleo::Matcher) -> (found: Vec<u32>)
    requires
        query@.len() <= QUERY_LIMIT,
        text@.len() <= TEXT_LIMIT,
    ensures
        matched_in_path(query@, leveled(query@, text@), found@),
{
    path_hits(query, level(query, text).as_str(), matcher)
}

/// A query in ASCII is matched against a text as it stands. For any other
/// query each character of the text is matched in the form that all steps of
/// the engine agree on; the length stays, so that positions in one are
/// positions in the other.
pub proof fn what_a_query_is_matched_against(query: Seq<char>, text: Seq<char>, k: int)
    ensures
        is_plain(query) ==> leveled(query, text) == text,
        leveled(query, text).len() == text.len(),
        0 <= k < text.len() && !(small_letter(text[k]) && case_folded(text[k]) != text[k])
            ==> leveled(query, text)[k] == text[k],
        0 <= k < text.len() && !is_plain(query) && small_letter(text[k]) ==> leveled(query, text)[k]
            == case_folded(text[k]),
        is_plain(query) == (forall|i: int| 0 <= i < query.len() ==> query[i] <= '\u{7f}'),
{
    if is_plain(query) {
        assert forall|i: int| 0 <= i < query.len() implies query[i] <= '\u{7f}' by {}
    }
}

/// A text is scored and marked by the query alone and by all of its own
/// characters.
pub proof fn a_query_scores_the_text_itself(query: Seq<char>, text: Seq<char>)
    requires
        is_plain(query),
    ensures
        scored(query, text) == fuzzy_score(query, text),
        marked(query, text) == fuzzy_hits(query, text, false, false),
{
}

} // verus!
