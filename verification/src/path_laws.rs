//! What holds of texts and of paths, whatever they hold.
use crate::paths;
use crate::paths::{LocationView, Platform};
use crate::text;
use vstd::prelude::*;

verus! {

/// Going one name down and up again leads back; different names lead to
/// different places, and the place below is never the place itself.
pub proof fn a_child_lies_one_name_below(place: LocationView, name: Seq<char>, other: Seq<char>)
    ensures
        place.child(name).anchor == place.anchor,
        place.child(name).parts == place.parts + seq![name],
        place.child(name).parent() == Some(place),
        place.child(name) != place,
        place.child(name) == place.child(other) ==> name == other,
        name != "."@ && name != ".."@ ==> place.child(name).file_name() == Some(name),
        name == "."@ || name == ".."@ ==> place.child(name).file_name() is None,
{
    let below = place.child(name);
    assert(below.parts =~= place.parts + seq![name]);
    assert(below.parts.drop_last() =~= place.parts);
    assert(below.parts.len() == place.parts.len() + 1);
    assert(below.parts.last() == name);
    assert(place.child(other).parts.last() == other);
}

/// Every place but the root of its anchor has one above it, and is the child
/// of it by its last name.
pub proof fn only_a_root_has_nothing_above(place: LocationView)
    ensures
        place.parent() is None == (place.parts.len() == 0),
        place.parent() is Some ==> ({
            let above = place.parent()->0;
            &&& above.anchor == place.anchor
            &&& above.parts.len() + 1 == place.parts.len()
            &&& above.child(place.parts.last()) == place
        }),
        place.parts.len() == 0 ==> place.file_name() is None,
{
    if place.parts.len() > 0 {
        assert(place.parts.drop_last().push(place.parts.last()) =~= place.parts);
    }
}

/// A sibling stands in the same directory under the other name.
pub proof fn a_sibling_stands_in_the_same_directory(
    dir: LocationView,
    name: Seq<char>,
    other: Seq<char>,
)
    requires
        name != "."@,
        name != ".."@,
    ensures
        dir.child(name).sibling(other) == dir.child(other),
        (LocationView { anchor: dir.anchor, parts: Seq::empty() }).sibling(other)
            == (LocationView { anchor: dir.anchor, parts: seq![other] }),
{
    assert(dir.parts.push(name).drop_last() =~= dir.parts);
    assert(Seq::<Seq<char>>::empty().push(other) =~= seq![other]);
}

/// A place lies within another exactly if names lead down to it, and these are
/// the names that tell where it lies below it.
pub proof fn what_lies_within_is_reached_by_names(
    root: LocationView,
    names: Seq<Seq<char>>,
    place: LocationView,
)
    ensures
        ({
            let below = LocationView { anchor: root.anchor, parts: root.parts + names };
            &&& below.within(root)
            &&& below.below(root).parts == names
            &&& below.below(root).anchor.len() == 0
        }),
        place.within(root) ==> place.anchor == root.anchor && place.parts == root.parts
            + place.below(root).parts,
        place.anchor != root.anchor ==> !place.within(root),
{
    let below = LocationView { anchor: root.anchor, parts: root.parts + names };
    assert(below.parts.take(root.parts.len() as int) =~= root.parts);
    assert(below.parts.skip(root.parts.len() as int) =~= names);
    if place.within(root) {
        assert(place.parts =~= place.parts.take(root.parts.len() as int) + place.parts.skip(
            root.parts.len() as int,
        ));
    }
}

/// A place is written as its anchor and its names with the system's separator
/// between them: a backslash on Windows, a slash elsewhere.
pub proof fn a_place_is_written_name_by_name(
    place: LocationView,
    name: Seq<char>,
    platform: Platform,
)
    ensures
        (LocationView { anchor: place.anchor, parts: Seq::empty() }).display(platform)
            == place.anchor,
        place.parts.len() == 0 ==> place.child(name).display(platform) == place.anchor + name,
        place.parts.len() > 0 && platform is Windows ==> place.child(name).display(platform)
            == place.display(platform) + seq!['\\'] + name,
        place.parts.len() > 0 && !(platform is Windows) ==> place.child(name).display(platform)
            == place.display(platform) + seq!['/'] + name,
{
    let below = place.child(name);
    assert(below.parts.drop_last() =~= place.parts);
    assert(below.parts.last() == name);
    assert(place.anchor + Seq::<char>::empty() =~= place.anchor);
    assert(below.display(platform) =~= if place.parts.len() == 0 {
        place.anchor + name
    } else {
        place.display(platform) + seq![platform.sep()] + name
    });
}

/// Windows reads both slashes as separators, the other systems only the plain
/// one; what a system writes it also reads.
pub proof fn what_separates_names(platform: Platform, c: char)
    ensures
        platform.separates(platform.sep()),
        platform.separates('/'),
        platform.separates('\\') == (platform is Windows),
        platform.separates(c) ==> c == '/' || c == '\\',
{
}

proof fn lemma_pieces(path: Seq<char>, platform: Platform)
    ensures
        paths::pieces_of(path, platform).len() > 0,
        forall|i: int, k: int|
            0 <= i < paths::pieces_of(path, platform).len() && 0 <= k < paths::pieces_of(
                path,
                platform,
            )[i].len() ==> !platform.separates(#[trigger] paths::pieces_of(path, platform)[i][k]),
    decreases path.len(),
{
    if path.len() > 0 {
        lemma_pieces(path.drop_last(), platform);
        let before = paths::pieces_of(path.drop_last(), platform);
        let now = paths::pieces_of(path, platform);
        assert forall|i: int, k: int|
            0 <= i < now.len() && 0 <= k < now[i].len() implies !platform.separates(
            #[trigger] now[i][k],
        ) by {
            if i < before.len() - 1 {
                assert(now[i] == before[i]);
                assert(!platform.separates(before[i][k]));
            } else if platform.separates(path.last()) {
                if i == before.len() - 1 {
                    assert(now[i] == before[i]);
                    assert(!platform.separates(before[i][k]));
                }
            } else {
                assert(now[i] == before.last().push(path.last()));
                if k < before.last().len() {
                    assert(!platform.separates(before[before.len() - 1][k]));
                }
            }
        }
    }
}

/// No piece of a path holds a separator.
pub proof fn pieces_hold_no_separator(path: Seq<char>, platform: Platform, i: int, k: int)
    requires
        0 <= i < paths::pieces_of(path, platform).len(),
        0 <= k < paths::pieces_of(path, platform)[i].len(),
    ensures
        !platform.separates(paths::pieces_of(path, platform)[i][k]),
{
    lemma_pieces(path, platform);
}

proof fn lemma_joined_push(parts: Seq<Seq<char>>, part: Seq<char>, between: Seq<char>)
    requires
        parts.len() > 0,
    ensures
        text::joined(parts.push(part), between) == text::joined(parts, between) + between + part,
{
    assert(parts.push(part).drop_last() =~= parts);
}

/// The pieces of a path give it back when they are joined: by a slash where
/// only that separates names, and by whichever separator stands throughout.
pub proof fn pieces_give_the_path_back(path: Seq<char>, platform: Platform, sep: char)
    requires
        platform.separates(sep),
        forall|k: int| 0 <= k < path.len() && platform.separates(#[trigger] path[k]) ==> path[k] == sep,
    ensures
        text::joined(paths::pieces_of(path, platform), seq![sep]) == path,
    decreases path.len(),
{
    let pieces = paths::pieces_of(path, platform);
    let between = seq![sep];
    if path.len() == 0 {
        assert(text::joined(pieces, between) =~= path);
    } else {
        let front = path.drop_last();
        let before = paths::pieces_of(front, platform);
        assert forall|k: int|
            0 <= k < front.len() && platform.separates(#[trigger] front[k]) implies front[k]
            == sep by {
            assert(front[k] == path[k]);
        }
        pieces_give_the_path_back(front, platform, sep);
        lemma_pieces(front, platform);
        if platform.separates(path.last()) {
            assert(path[path.len() - 1] == sep);
            lemma_joined_push(before, Seq::empty(), between);
            assert(text::joined(pieces, between) =~= path);
        } else {
            let kept = before.drop_last();
            let longer = before.last().push(path.last());
            if kept.len() == 0 {
                assert(before.len() == 1);
                assert(pieces.len() == 1);
                assert(pieces[0] == longer);
                assert(before[0] == front);
                assert(longer =~= path);
            } else {
                lemma_joined_push(kept, longer, between);
                assert(kept.push(before.last()) =~= before);
                lemma_joined_push(kept, before.last(), between);
                assert(pieces == kept.push(longer));
                let head = text::joined(kept, between) + between;
                assert(head + before.last() == front);
                assert(head + longer =~= front.push(path.last()));
                assert(front.push(path.last()) =~= path);
            }
        }
    }
}

/// Every step of a path is one of its pieces that is not empty. A piece that
/// is neither empty nor a single dot is always a step; a single dot is one only
/// at the start of a path.
pub proof fn steps_are_the_pieces_that_lead_somewhere(pieces: Seq<Seq<char>>, piece: Seq<char>)
    ensures
        paths::steps_of(pieces).contains(piece) ==> pieces.contains(piece) && piece.len() > 0,
        pieces.contains(piece) && piece.len() > 0 && piece != "."@ ==> paths::steps_of(
            pieces,
        ).contains(piece),
        paths::steps_of(pieces).contains("."@) ==> pieces[0] == "."@,
    decreases pieces.len(),
{
    reveal_strlit(".");
    if pieces.len() > 0 {
        let front = pieces.drop_last();
        steps_are_the_pieces_that_lead_somewhere(front, piece);
        let before = paths::steps_of(front);
        let steps = paths::steps_of(pieces);
        if steps.contains(piece) {
            let at = steps.index_of(piece);
            if at < before.len() {
                assert(before[at] == piece);
                assert(before.contains(piece));
                let i = front.index_of(piece);
                assert(pieces[i] == piece);
            } else {
                assert(pieces[pieces.len() - 1] == piece);
            }
        }
        if pieces.contains(piece) && piece.len() > 0 && piece != "."@ {
            let i = pieces.index_of(piece);
            if i < front.len() {
                assert(front[i] == piece);
                let at = before.index_of(piece);
                assert(steps[at] == piece);
            } else {
                assert(steps[steps.len() - 1] == piece);
            }
        }
        if steps.contains("."@) {
            let at = steps.index_of("."@);
            if at < before.len() {
                assert(before[at] == "."@);
                assert(before.contains("."@));
                lemma_front_dot(front);
            }
        }
    }
}

proof fn lemma_front_dot(pieces: Seq<Seq<char>>)
    requires
        paths::steps_of(pieces).contains("."@),
    ensures
        pieces.len() > 0,
        pieces[0] == "."@,
    decreases pieces.len(),
{
    if pieces.len() > 0 {
        let front = pieces.drop_last();
        let before = paths::steps_of(front);
        let steps = paths::steps_of(pieces);
        let at = steps.index_of("."@);
        if at < before.len() {
            assert(before[at] == "."@);
            lemma_front_dot(front);
        }
    }
}

/// A path of names, none of them empty or only a dot, has these names for its
/// steps: none is left out, none is added and their order stays.
pub proof fn names_are_the_steps_of_their_path(names: Seq<Seq<char>>)
    requires
        forall|i: int| 0 <= i < names.len() ==> (#[trigger] names[i]).len() > 0 && names[i] != "."@,
    ensures
        paths::steps_of(names) == names,
    decreases names.len(),
{
    if names.len() > 0 {
        let front = names.drop_last();
        assert forall|i: int| 0 <= i < front.len() implies (#[trigger] front[i]).len() > 0
            && front[i] != "."@ by {
            assert(front[i] == names[i]);
        }
        names_are_the_steps_of_their_path(front);
        assert(names[names.len() - 1].len() > 0);
        assert(front.push(names.last()) =~= names);
    }
}

proof fn lemma_pieces_of_name(front: Seq<char>, name: Seq<char>, platform: Platform)
    requires
        forall|k: int| 0 <= k < name.len() ==> !platform.separates(#[trigger] name[k]),
    ensures
        paths::pieces_of(front + name, platform) == paths::pieces_of(
            front,
            platform,
        ).drop_last().push(paths::pieces_of(front, platform).last() + name),
    decreases name.len(),
{
    let before = paths::pieces_of(front, platform);
    lemma_pieces(front, platform);
    if name.len() == 0 {
        assert(front + name =~= front);
        assert(before.last() + name =~= before.last());
        assert(before.drop_last().push(before.last()) =~= before);
    } else {
        let short = name.drop_last();
        assert forall|k: int| 0 <= k < short.len() implies !platform.separates(
            #[trigger] short[k],
        ) by {
            assert(short[k] == name[k]);
        }
        lemma_pieces_of_name(front, short, platform);
        let whole = front + name;
        assert(whole.drop_last() =~= front + short);
        assert(whole.last() == name[name.len() - 1]);
        let inner = paths::pieces_of(front + short, platform);
        assert(inner.drop_last() =~= before.drop_last());
        assert(inner.last().push(whole.last()) =~= before.last() + name);
    }
}

/// The name of what a path leads to is what stands behind its last separator,
/// unless that only points at another place. Separators at the end of a path
/// do not change it.
pub proof fn the_last_name_names_a_path(
    dir: Seq<char>,
    sep: char,
    name: Seq<char>,
    platform: Platform,
)
    requires
        platform.separates(sep),
        name.len() > 0,
        forall|k: int| 0 <= k < name.len() ==> !platform.separates(#[trigger] name[k]),
    ensures
        name != "."@ && name != ".."@ ==> paths::name_of(dir.push(sep) + name, platform) == Some(
            name,
        ) && paths::name_of(name, platform) == Some(name),
        name == ".."@ ==> paths::name_of(dir.push(sep) + name, platform) is None,
        paths::name_of(dir.push(sep), platform) == paths::name_of(dir, platform),
{
    let front = dir.push(sep);
    assert(front.drop_last() =~= dir);
    assert(front.last() == sep);
    let before = paths::pieces_of(dir, platform);
    lemma_pieces(dir, platform);
    let opened = paths::pieces_of(front, platform);
    assert(opened == before.push(Seq::empty()));
    assert(opened.drop_last() =~= before);
    assert(paths::steps_of(opened) == paths::steps_of(before));
    lemma_pieces_of_name(front, name, platform);
    assert(opened.last() + name =~= name);
    let whole = paths::pieces_of(front + name, platform);
    assert(whole == before.push(name));
    assert(whole.drop_last() =~= before);
    reveal_strlit("..");
    reveal_strlit(".");
    if name != "."@ {
        assert(paths::steps_of(whole) == paths::steps_of(before).push(name));
    }
    lemma_pieces_of_name(Seq::empty(), name, platform);
    assert(Seq::<char>::empty() + name =~= name);
    let alone = paths::pieces_of(name, platform);
    assert(alone =~= seq![name]);
    assert(alone.drop_last() =~= Seq::<Seq<char>>::empty());
    assert(paths::steps_of(Seq::<Seq<char>>::empty()) =~= Seq::<Seq<char>>::empty());
    if name != "."@ && name != ".."@ {
        assert(paths::steps_of(alone) =~= seq![name]);
    }
}

/// A name with an extension is its stem, a dot and the extension; the stem is
/// not empty and the extension holds no dot. A name has none exactly if no dot
/// stands behind its first character.
pub proof fn a_name_is_its_stem_and_extension(name: Seq<char>)
    ensures
        paths::extension_of(name) is Some ==> {
            &&& name == paths::stem_of(name) + seq!['.'] + paths::extension_of(name)->0
            &&& paths::stem_of(name).len() > 0
            &&& !paths::extension_of(name)->0.contains('.')
        },
        paths::extension_of(name) is None ==> paths::stem_of(name) == name,
        paths::extension_of(name) is None == (forall|k: int|
            0 < k < name.len() ==> name[k] != '.'),
{
    if exists|i: int| paths::is_extension_dot(name, i) {
        let at = paths::extension_dot(name)->0;
        assert(paths::is_extension_dot(name, at));
        assert(name =~= name.take(at) + seq!['.'] + name.skip(at + 1));
        assert(name[at] == '.');
    } else {
        assert forall|k: int| 0 < k < name.len() implies name[k] != '.' by {
            if exists|k: int| 0 < k < name.len() && name[k] == '.' {
                let k = choose|k: int| 0 < k < name.len() && name[k] == '.';
                lemma_last_dot(name, k);
            }
        }
    }
}

proof fn lemma_last_dot(name: Seq<char>, at: int)
    requires
        0 < at < name.len(),
        name[at] == '.',
    ensures
        exists|i: int| paths::is_extension_dot(name, i),
    decreases name.len() - at,
{
    if exists|k: int| at < k < name.len() && name[k] == '.' {
        let k = choose|k: int| at < k < name.len() && name[k] == '.';
        lemma_last_dot(name, k);
    } else {
        assert(paths::is_extension_dot(name, at));
    }
}

/// Away from Windows a path is absolute exactly if it starts with a slash. On
/// Windows it is if it starts with two separators, or with a drive letter, a
/// colon and a separator; a drive alone or a single separator is not enough.
pub proof fn what_is_absolute(rest: Seq<char>, c: char, platform: Platform)
    ensures
        !(platform is Windows) ==> paths::absolute(seq![c] + rest, platform) == (c == '/'),
        !paths::absolute(Seq::empty(), platform),
        platform is Windows ==> paths::absolute(seq!['\\', '\\'] + rest, platform)
            && paths::absolute(seq!['/', '/'] + rest, platform),
        platform is Windows && ('a' <= c <= 'z' || 'A' <= c <= 'Z') ==> paths::absolute(
            seq![c, ':', '\\'] + rest,
            platform,
        ) && paths::absolute(seq![c, ':', '/'] + rest, platform) && !paths::absolute(
            seq![c, ':'],
            platform,
        ),
        platform is Windows && rest.len() > 0 && rest[0] != '\\' && rest[0] != '/' && rest[0] != ':'
            ==> !paths::absolute(seq![c] + rest, platform),
{
    assert((seq![c] + rest)[0] == c);
    assert((seq!['\\', '\\'] + rest)[0] == '\\' && (seq!['\\', '\\'] + rest)[1] == '\\');
    assert((seq!['/', '/'] + rest)[0] == '/' && (seq!['/', '/'] + rest)[1] == '/');
    let one = seq![c, ':', '\\'] + rest;
    assert(one[0] == c && one[1] == ':' && one[2] == '\\');
    let two = seq![c, ':', '/'] + rest;
    assert(two[0] == c && two[1] == ':' && two[2] == '/');
    if rest.len() > 0 {
        assert((seq![c] + rest)[1] == rest[0]);
    }
}

/// An absolute path is reached from anywhere as it stands. Any other path goes
/// below the base, behind one separator, unless it starts with a drive or a
/// separator on Windows.
pub proof fn a_relative_path_goes_below_the_base(
    base: Seq<char>,
    other: Seq<char>,
    path: Seq<char>,
    platform: Platform,
)
    ensures
        paths::absolute(path, platform) ==> paths::joined_path(base, path, platform) == path
            && paths::joined_path(other, path, platform) == path,
        !paths::absolute(path, platform) && !(platform is Windows) ==> {
            let out = paths::joined_path(base, path, platform);
            &&& base.len() > 0 && base.last() != '/' ==> out == base + seq!['/'] + path
            &&& base.len() > 0 && base.last() == '/' ==> out == base + path
            &&& base.len() == 0 ==> out == path
        },
        platform is Windows && path.len() > 0 && path[0] != '/' && path[0] != '\\' && !(path.len()
            > 1 && path[1] == ':') ==> {
            let out = paths::joined_path(base, path, platform);
            &&& base.len() > 0 && base.last() != '/' && base.last() != '\\' ==> out == base
                + seq!['\\'] + path
            &&& base.len() > 0 && (base.last() == '/' || base.last() == '\\') ==> out == base
                + path
            &&& base.len() == 0 ==> out == path
        },
{
    assert(Seq::<char>::empty() + path =~= path);
    assert(base.push(platform.sep()) =~= base + seq![platform.sep()]);
    if base.len() == 0 {
        assert(base + path =~= path);
    }
}

/// The literal form of a Windows path loses its prefix, that of a share gets
/// its double backslash back, and any other path stays as it is.
pub proof fn the_literal_prefix_goes(path: Seq<char>)
    ensures
        !text::begins(path, "UNC\\"@) ==> paths::plain_form("\\\\?\\"@ + path) == path,
        paths::plain_form("\\\\?\\UNC\\"@ + path) == "\\\\"@ + path,
        path.len() < 4 || path.take(4) != "\\\\?\\"@ ==> paths::plain_form(path) == path,
{
    let long = "\\\\?\\UNC\\"@ + path;
    let short = "\\\\?\\"@ + path;
    reveal_strlit("\\\\?\\UNC\\");
    reveal_strlit("\\\\?\\");
    reveal_strlit("UNC\\");
    assert("\\\\?\\UNC\\"@ =~= "\\\\?\\"@ + "UNC\\"@);
    assert(long.subrange(0, 8) =~= "\\\\?\\UNC\\"@);
    assert(long.skip(8) =~= path);
    assert(short.subrange(0, 4) =~= "\\\\?\\"@);
    assert(short.skip(4) =~= path);
    if text::begins(short, "\\\\?\\UNC\\"@) {
        assert(path.subrange(0, 4) =~= short.subrange(0, 8).skip(4));
        assert("\\\\?\\UNC\\"@.skip(4) =~= "UNC\\"@);
        assert(text::begins(path, "UNC\\"@));
    }
    if path.len() >= 4 {
        assert(path.take(4) =~= path.subrange(0, 4));
        if text::begins(path, "\\\\?\\UNC\\"@) {
            assert(path.subrange(0, 4) =~= path.subrange(0, 8).take(4));
            assert("\\\\?\\UNC\\"@.take(4) =~= "\\\\?\\"@);
        }
    }
}

proof fn lemma_trim_front(text: Seq<char>, drop: spec_fn(char) -> bool)
    ensures
        ({
            let out = text::trim_front(text, drop);
            &&& out.len() <= text.len()
            &&& text.skip(text.len() - out.len()) == out
            &&& forall|k: int| 0 <= k < text.len() - out.len() ==> drop(#[trigger] text[k])
            &&& out.len() > 0 ==> !drop(out[0])
        }),
    decreases text.len(),
{
    if text.len() > 0 && drop(text[0]) {
        let rest = text.skip(1);
        lemma_trim_front(rest, drop);
        let out = text::trim_front(rest, drop);
        assert(text.skip(text.len() - out.len()) =~= rest.skip(rest.len() - out.len()));
        assert forall|k: int| 0 <= k < text.len() - out.len() implies drop(#[trigger] text[k]) by {
            if k > 0 {
                assert(rest[k - 1] == text[k]);
            }
        }
    } else {
        assert(text.skip(0) =~= text);
    }
}

proof fn lemma_trim_back(text: Seq<char>, drop: spec_fn(char) -> bool)
    ensures
        ({
            let out = text::trim_back(text, drop);
            &&& out.len() <= text.len()
            &&& text.take(out.len() as int) == out
            &&& forall|k: int| out.len() <= k < text.len() ==> drop(#[trigger] text[k])
            &&& out.len() > 0 ==> !drop(out.last())
        }),
    decreases text.len(),
{
    if text.len() > 0 && drop(text.last()) {
        let rest = text.drop_last();
        lemma_trim_back(rest, drop);
        let out = text::trim_back(rest, drop);
        assert(text.take(out.len() as int) =~= rest.take(out.len() as int));
        assert forall|k: int| out.len() <= k < text.len() implies drop(#[trigger] text[k]) by {
            if k < rest.len() {
                assert(rest[k] == text[k]);
            }
        }
    } else {
        assert(text.take(text.len() as int) =~= text);
    }
}

/// Trimming takes white space away from both ends and nothing else: what is
/// left stands in the text with only white space around it, and neither starts
/// nor ends with any.
pub proof fn trimming_takes_only_white_space(text: Seq<char>)
    ensures
        exists|before: Seq<char>, after: Seq<char>|
            {
                &&& text == #[trigger] (before + text::trimmed(text) + after)
                &&& forall|k: int| 0 <= k < before.len() ==> text::white_space(#[trigger] before[k])
                &&& forall|k: int| 0 <= k < after.len() ==> text::white_space(#[trigger] after[k])
            },
        text::trimmed(text).len() > 0 ==> !text::white_space(text::trimmed(text)[0])
            && !text::white_space(text::trimmed(text).last()),
{
    let white = |c: char| text::white_space(c);
    let front = text::trim_front(text, white);
    let out = text::trim_back(front, white);
    lemma_trim_front(text, white);
    lemma_trim_back(front, white);
    let cut = text.len() - front.len();
    let before = text.take(cut);
    let after = front.skip(out.len() as int);
    assert(text =~= before + out + after) by {
        assert(front =~= out + after);
        assert(text =~= before + front);
    }
    assert forall|k: int| 0 <= k < before.len() implies text::white_space(
        #[trigger] before[k],
    ) by {
        assert(white(text[k]));
    }
    assert forall|k: int| 0 <= k < after.len() implies text::white_space(#[trigger] after[k]) by {
        assert(white(front[out.len() + k]));
    }
    assert(text::trimmed(text) == out);
    assert(text == before + text::trimmed(text) + after);
    if out.len() > 0 {
        assert(out[0] == front[0]);
        assert(!white(front[0]));
        assert(!white(out.last()));
    }
}

/// What counts as white space: the blank, the tab and the line ends do, letters,
/// digits and slashes do not.
pub proof fn blanks_and_line_ends_are_white_space(c: char)
    ensures
        text::white_space(' '),
        text::white_space('\t'),
        text::white_space('\n'),
        text::white_space('\r'),
        '!' <= c <= '~' ==> !text::white_space(c),
{
}

/// Taking a character off the end takes all of it there, and nothing else.
pub proof fn taking_a_character_off_the_end(text: Seq<char>, c: char)
    ensures
        ({
            let out = text::trim_back(text, |x: char| x == c);
            &&& out.len() <= text.len()
            &&& text.take(out.len() as int) == out
            &&& forall|k: int| out.len() <= k < text.len() ==> text[k] == c
            &&& out.len() > 0 ==> out.last() != c
        }),
{
    let is_c = |x: char| x == c;
    lemma_trim_back(text, is_c);
    let out = text::trim_back(text, is_c);
    assert forall|k: int| out.len() <= k < text.len() implies text[k] == c by {
        assert(is_c(text[k]));
    }
}

/// Replacing works on each character alone: a text made of two parts is
/// replaced part by part, the character itself becomes its replacement, and
/// any other stays.
pub proof fn replacing_works_character_by_character(
    one: Seq<char>,
    two: Seq<char>,
    c: char,
    from: char,
    to: Seq<char>,
)
    ensures
        text::replaced(one + two, from, to) == text::replaced(one, from, to) + text::replaced(
            two,
            from,
            to,
        ),
        text::replaced(seq![from], from, to) == to,
        c != from ==> text::replaced(seq![c], from, to) == seq![c],
        text::replaced(Seq::empty(), from, to).len() == 0,
    decreases two.len(),
{
    assert(seq![from].drop_last() =~= Seq::<char>::empty());
    assert(seq![c].drop_last() =~= Seq::<char>::empty());
    assert(text::replaced(Seq::empty(), from, to) =~= Seq::<char>::empty());
    assert(text::replaced(seq![from], from, to) =~= to);
    if c != from {
        assert(text::replaced(seq![c], from, to) =~= seq![c]);
    }
    if two.len() == 0 {
        assert(one + two =~= one);
        assert(text::replaced(one, from, to) + text::replaced(two, from, to) =~= text::replaced(
            one,
            from,
            to,
        ));
    } else {
        let front = two.drop_last();
        replacing_works_character_by_character(one, front, c, from, to);
        assert((one + two).drop_last() =~= one + front);
        assert((one + two).last() == two.last());
        assert(text::replaced(one + two, from, to) =~= text::replaced(one, from, to)
            + text::replaced(two, from, to));
    }
}

/// A line and what follows its line feed are the first line and the other
/// lines of a text; a carriage return before the line feed belongs to neither.
/// A text without a line feed is one line, unless it is empty.
pub proof fn a_text_is_read_line_by_line(line: Seq<char>, rest: Seq<char>)
    requires
        !line.contains('\n'),
    ensures
        text::lines_of(line + seq!['\n'] + rest).len() == 1 + text::lines_of(rest).len(),
        text::lines_of(line + seq!['\n'] + rest).skip(1) == text::lines_of(rest),
        line.len() == 0 || line.last() != '\r' ==> text::lines_of(line + seq!['\n'] + rest)[0]
            == line,
        text::lines_of(line + seq!['\r', '\n'] + rest)[0] == line,
        text::lines_of(line + seq!['\r', '\n'] + rest).skip(1) == text::lines_of(rest),
        line.len() > 0 ==> text::lines_of(line) == seq![line],
        text::lines_of(Seq::empty()).len() == 0,
{
    lemma_first_line(line, rest);
    let returned = line.push('\r');
    assert(!returned.contains('\n')) by {
        if returned.contains('\n') {
            let at = returned.index_of('\n');
            assert(line[at] == '\n');
        }
    }
    lemma_first_line(returned, rest);
    assert(returned + seq!['\n'] + rest =~= line + seq!['\r', '\n'] + rest);
    assert(returned.drop_last() =~= line);
    if line.len() > 0 {
        text::lemma_first_from(line, seq!['\n'], 0);
        if text::first_from(line, seq!['\n'], 0) is Some {
            let at = text::first_from(line, seq!['\n'], 0)->0;
            assert(line[at] == line.subrange(at, at + 1)[0]);
            assert(line.contains('\n'));
        }
    }
}

proof fn lemma_first_line(line: Seq<char>, rest: Seq<char>)
    requires
        !line.contains('\n'),
    ensures
        ({
            let lines = text::lines_of(line + seq!['\n'] + rest);
            &&& lines.len() == 1 + text::lines_of(rest).len()
            &&& lines.skip(1) == text::lines_of(rest)
            &&& lines[0] == if line.len() > 0 && line.last() == '\r' {
                line.drop_last()
            } else {
                line
            }
        }),
{
    let all = line + seq!['\n'] + rest;
    let at = line.len() as int;
    assert(all.subrange(at, at + 1) =~= seq!['\n']);
    assert forall|k: int| 0 <= k < at implies !text::occurs_at(all, seq!['\n'], k) by {
        assert(all.subrange(k, k + 1)[0] == line[k]);
        assert(line.contains(line[k]));
    }
    text::lemma_first_is(all, seq!['\n'], 0, at);
    assert(all.take(at) =~= line);
    assert(all.skip(at + 1) =~= rest);
    assert(text::lines_of(all).skip(1) =~= text::lines_of(rest));
}

/// Texts joined are the texts one after another with what stands between them
/// between each two; one alone stays as it is.
pub proof fn joining_puts_a_text_between_each_two(
    parts: Seq<Seq<char>>,
    part: Seq<char>,
    between: Seq<char>,
)
    ensures
        parts.len() > 0 ==> text::joined(parts.push(part), between) == text::joined(parts, between)
            + between + part,
        text::joined(seq![part], between) == part,
        text::joined(Seq::empty(), between).len() == 0,
{
    if parts.len() > 0 {
        lemma_joined_push(parts, part, between);
    }
}

/// Lower case changes the capital letters of ASCII, each to its own small
/// letter, and no other character; the length stays.
pub proof fn lower_case_changes_capital_letters_only(text: Seq<char>, k: int)
    requires
        0 <= k < text.len(),
    ensures
        text::ascii_lower(text).len() == text.len(),
        'A' <= text[k] <= 'Z' ==> text::ascii_lower(text)[k] as int == text[k] as int + 32,
        !('A' <= text[k] <= 'Z') ==> text::ascii_lower(text)[k] == text[k],
        text::ascii_lower(text::ascii_lower(text)) == text::ascii_lower(text),
{
    let low = text::ascii_lower(text);
    assert forall|i: int| 0 <= i < low.len() implies text::ascii_lower(low)[i] == low[i] by {
        let c = text[i];
        assert(low[i] == text::ascii_lower_char(c));
    }
    assert(text::ascii_lower(low) =~= low);
}

/// A text occurs in another that is a front, the text and a rest, right behind
/// the front; it is a beginning where there is no front.
pub proof fn an_occurrence_splits_a_text(front: Seq<char>, needle: Seq<char>, rest: Seq<char>)
    ensures
        text::occurs(front + needle + rest, needle),
        text::begins(needle + rest, needle),
        text::occurs_at(front + needle + rest, needle, front.len() as int),
{
    let all = front + needle + rest;
    let at = front.len() as int;
    assert(all.subrange(at, at + needle.len()) =~= needle);
    assert((needle + rest).subrange(0, needle.len() as int) =~= needle);
    assert(text::occurs_at(all, needle, at));
}

/// Taking a character back takes the last one and leaves the others.
pub proof fn taking_back_undoes_typing(text: Seq<char>, c: char)
    ensures
        text::shortened(text.push(c)) == text,
        text.len() > 0 ==> text::shortened(text) + seq![text.last()] == text,
        text.len() == 0 ==> text::shortened(text).len() == 0,
{
    assert(text.push(c).drop_last() =~= text);
    if text.len() > 0 {
        assert(text.drop_last() + seq![text.last()] =~= text);
    }
}

/// A number is written in its decimal digits, the highest first.
pub proof fn a_number_is_written_in_digits(n: nat, d: nat)
    requires
        d < 10,
    ensures
        text::decimal(d) == seq![(48 + d) as char],
        n > 0 ==> text::decimal(10 * n + d) == text::decimal(n) + seq![(48 + d) as char],
{
    if n > 0 {
        let m: nat = 10 * n + d;
        assert(m / 10 == n && m % 10 == d);
        assert(text::decimal(m) =~= text::decimal(n) + seq![(48 + d) as char]);
    }
    assert(text::decimal(d) =~= seq![(48 + d) as char]);
}

/// Reading a path piece by piece, an empty piece adds no step, a single dot one
/// only where it comes first, and any other piece always itself, at the end.
pub proof fn each_piece_adds_its_step(pieces: Seq<Seq<char>>, piece: Seq<char>)
    ensures
        piece.len() == 0 ==> paths::steps_of(pieces.push(piece)) == paths::steps_of(pieces),
        piece.len() > 0 && piece != "."@ ==> paths::steps_of(pieces.push(piece))
            == paths::steps_of(pieces) + seq![piece],
        piece == "."@ && pieces.len() > 0 ==> paths::steps_of(pieces.push(piece))
            == paths::steps_of(pieces),
        paths::steps_of(seq!["."@]) == seq!["."@],
{
    reveal_strlit(".");
    assert(pieces.push(piece).drop_last() =~= pieces);
    assert(paths::steps_of(pieces).push(piece) =~= paths::steps_of(pieces) + seq![piece]);
    assert(seq!["."@].drop_last() =~= Seq::<Seq<char>>::empty());
    assert(paths::steps_of(Seq::<Seq<char>>::empty()) =~= Seq::<Seq<char>>::empty());
    assert(paths::steps_of(seq!["."@]) =~= seq!["."@]);
}

/// The columns of a text are those of its characters together; one that has no
/// width of its own takes none.
pub proof fn the_columns_of_a_text_add_up(text: Seq<char>, c: char)
    ensures
        crate::width::cells(Seq::empty()) == 0,
        crate::width::cells(text.push(c)) == crate::width::cells(text) + crate::width::cell(c),
        crate::width::char_columns(c) is None ==> crate::width::cell(c) == 0,
        crate::width::char_columns(c) is Some ==> crate::width::cell(c)
            == crate::width::char_columns(c)->0,
{
    assert(text.push(c).drop_last() =~= text);
}

/// On Windows a path with a drive of its own replaces the base, and one that
/// starts with a separator keeps only the base's drive.
pub proof fn drives_and_leading_separators(
    base: Seq<char>,
    letter: char,
    drive: char,
    rest: Seq<char>,
    path: Seq<char>,
)
    requires
        'a' <= letter <= 'z' || 'A' <= letter <= 'Z',
        'a' <= drive <= 'z' || 'A' <= drive <= 'Z',
        path.len() == 0 || (path[0] != '\\' && path[0] != '/'),
    ensures
        paths::joined_path(base, seq![letter, ':'] + path, Platform::Windows) == seq![letter, ':']
            + path,
        paths::joined_path(seq![drive, ':'] + rest, seq!['\\'] + path, Platform::Windows)
            == seq![drive, ':', '\\'] + path,
        base.len() < 2 || base[1] != ':' ==> paths::joined_path(
            base,
            seq!['\\'] + path,
            Platform::Windows,
        ) == seq!['\\'] + path,
        !paths::absolute(seq![letter, ':'] + path, Platform::Windows),
        !paths::absolute(seq!['\\'] + path, Platform::Windows),
        !paths::absolute(seq!['/'] + path, Platform::Windows),
{
    let own = seq![letter, ':'] + path;
    assert(own[0] == letter && own[1] == ':');
    if path.len() > 0 {
        assert(own[2] == path[0]);
        assert((seq!['\\'] + path)[1] == path[0]);
        assert((seq!['/'] + path)[1] == path[0]);
    }
    let lead = seq!['\\'] + path;
    assert(lead[0] == '\\');
    let from = seq![drive, ':'] + rest;
    assert(from[0] == drive && from[1] == ':');
    assert(from.take(2) =~= seq![drive, ':']);
    assert(seq![drive, ':'] + lead =~= seq![drive, ':', '\\'] + path);
    assert(Seq::<char>::empty() + lead =~= lead);
}

/// A path on Windows is absolute only from a drive or a double separator.
pub proof fn only_a_drive_or_a_double_separator_is_absolute(path: Seq<char>)
    requires
        paths::absolute(path, Platform::Windows),
    ensures
        path.len() >= 2,
        (path[0] == '\\' || path[0] == '/') && (path[1] == '\\' || path[1] == '/') || path[1] == ':'
            && path.len() >= 3 && (path[2] == '\\' || path[2] == '/'),
{
}

} // verus!
