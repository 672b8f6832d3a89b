//! Places in the file system: a path taken apart into the anchor it starts
//! from and the names below it, and the few questions asked of a path that
//! is still one text.
use crate::text;
use crate::text::{chars_of, same, slice_text};
use vstd::prelude::*;
use vstd::string::StringExecFns;

verus! {

/// The systems whose path and desktop conventions differ.
#[derive(Clone, Copy, Debug, PartialEq, Eq, Structural)]
pub enum Platform {
    Linux,
    MacOs,
    Windows,
}

impl Platform {
    /// The separator that paths are written with.
    pub open spec fn sep(self) -> char {
        if self is Windows {
            '\\'
        } else {
            '/'
        }
    }

    /// Whether a character separates names. Windows reads both slashes.
    pub open spec fn separates(self, c: char) -> bool {
        c == '/' || c == self.sep()
    }

    /// The separator that paths are written with.
    pub fn separator(self) -> (c: char)
        ensures
            c == self.sep(),
    {
        match self {
            Platform::Windows => '\\',
            _ => '/',
        }
    }
}

/// A separator as text.
pub fn separator_text(platform: Platform) -> (text: String)
    ensures
        text@ == seq![platform.sep()],
{
    let mut text = String::new();
    text.push(platform.separator());
    assert(text@ =~= seq![platform.sep()]);
    text
}

/// Copies a list of texts.
pub fn copy_texts(texts: &Vec<String>) -> (copy: Vec<String>)
    ensures
        text::views(copy@) == text::views(texts@),
{
    let mut copy: Vec<String> = Vec::new();
    let mut i: usize = 0;
    while i < texts.len()
        invariant
            i <= texts@.len(),
            text::views(copy@) == text::views(texts@).take(i as int),
        decreases texts@.len() - i,
    {
        let text = texts[i].clone();
        proof {
            text::lemma_views_push(copy@, text);
            assert(text::views(texts@).take(i + 1) =~= text::views(texts@).take(i as int).push(text@));
        }
        copy.push(text);
        i += 1;
    }
    assert(text::views(texts@).take(i as int) =~= text::views(texts@));
    copy
}

/// Whether two lists hold the same texts in the same order.
pub fn same_texts(left: &Vec<String>, right: &Vec<String>) -> (equal: bool)
    ensures
        equal == (text::views(left@) == text::views(right@)),
{
    if left.len() != right.len() {
        assert(text::views(left@).len() != text::views(right@).len());
        return false;
    }
    let mut i: usize = 0;
    while i < left.len()
        invariant
            i <= left@.len() == right@.len(),
            forall|k: int| 0 <= k < i ==> left@[k]@ == right@[k]@,
        decreases left@.len() - i,
    {
        if !same(left[i].as_str(), right[i].as_str()) {
            assert(text::views(left@)[i as int] != text::views(right@)[i as int]);
            return false;
        }
        i += 1;
    }
    assert(text::views(left@) =~= text::views(right@));
    true
}

/// A place: the anchor it starts from, such as `/` or `C:\`, and the names
/// below it, outermost first. A relative place has an empty anchor.
#[derive(Debug, PartialEq, Eq)]
pub struct Location {
    pub anchor: String,
    pub parts: Vec<String>,
}

/// A place as mathematical values.
#[verifier::ext_equal]
pub struct LocationView {
    pub anchor: Seq<char>,
    pub parts: Seq<Seq<char>>,
}

impl LocationView {
    /// The place one name further down.
    pub open spec fn child(self, name: Seq<char>) -> LocationView {
        LocationView { anchor: self.anchor, parts: self.parts.push(name) }
    }

    /// The place one level up, if there is one.
    pub open spec fn parent(self) -> Option<LocationView> {
        if self.parts.len() == 0 {
            None
        } else {
            Some(LocationView { anchor: self.anchor, parts: self.parts.drop_last() })
        }
    }

    /// The last name, unless it only points at another place.
    pub open spec fn file_name(self) -> Option<Seq<char>> {
        if self.parts.len() == 0 || self.parts.last() == ".."@ || self.parts.last() == "."@ {
            None
        } else {
            Some(self.parts.last())
        }
    }

    /// The place with its last name replaced.
    pub open spec fn sibling(self, name: Seq<char>) -> LocationView {
        match (self.file_name(), self.parent()) {
            (Some(_), Some(above)) => above.child(name),
            _ => self.child(name),
        }
    }

    /// The place as it is written.
    pub open spec fn display(self, platform: Platform) -> Seq<char> {
        self.anchor + text::joined(self.parts, seq![platform.sep()])
    }

    /// Whether the place is `root` or lies below it.
    pub open spec fn within(self, root: LocationView) -> bool {
        &&& self.anchor == root.anchor
        &&& root.parts.len() <= self.parts.len()
        &&& self.parts.take(root.parts.len() as int) == root.parts
    }

    /// The names that lead from `root` down to the place.
    pub open spec fn below(self, root: LocationView) -> LocationView {
        LocationView { anchor: Seq::empty(), parts: self.parts.skip(root.parts.len() as int) }
    }
}

impl View for Location {
    type V = LocationView;

    open spec fn view(&self) -> LocationView {
        LocationView { anchor: self.anchor@, parts: text::views(self.parts@) }
    }
}

impl Clone for Location {
    fn clone(&self) -> (copy: Self)
        ensures
            copy@ == self@,
    {
        Location { anchor: self.anchor.clone(), parts: copy_texts(&self.parts) }
    }
}

impl Location {
    /// The place one name further down.
    pub fn child(&self, name: &str) -> (below: Location)
        ensures
            below@ == self@.child(name@),
    {
        let mut parts = copy_texts(&self.parts);
        let name = name.to_owned();
        proof {
            text::lemma_views_push(parts@, name);
        }
        parts.push(name);
        Location { anchor: self.anchor.clone(), parts }
    }

    /// The place one level up, if there is one.
    pub fn parent(&self) -> (above: Option<Location>)
        ensures
            match above {
                Some(place) => self@.parent() == Some(place@),
                None => self@.parent() is None,
            },
    {
        if self.parts.len() == 0 {
            return None;
        }
        let mut parts = copy_texts(&self.parts);
        let ghost all = text::views(parts@);
        let _last = parts.pop();
        assert(text::views(parts@) =~= all.drop_last());
        Some(Location { anchor: self.anchor.clone(), parts })
    }

    /// Whether there is a level above.
    pub fn has_parent(&self) -> (found: bool)
        ensures
            found == (self@.parent() is Some),
    {
        self.parts.len() > 0
    }

    /// The last name, unless it only points at another place.
    pub fn file_name(&self) -> (name: Option<String>)
        ensures
            match name {
                Some(text) => self@.file_name() == Some(text@),
                None => self@.file_name() is None,
            },
    {
        let count: usize = self.parts.len();
        if count == 0 {
            return None;
        }
        let last = &self.parts[count - 1];
        assert(text::views(self.parts@).last() == last@);
        if same(last.as_str(), "..") || same(last.as_str(), ".") {
            None
        } else {
            Some(last.clone())
        }
    }

    /// The place with its last name replaced.
    pub fn with_file_name(&self, name: &str) -> (place: Location)
        ensures
            place@ == self@.sibling(name@),
    {
        match (self.file_name(), self.parent()) {
            (Some(_), Some(above)) => above.child(name),
            _ => self.child(name),
        }
    }

    /// Whether two places are the same.
    pub fn is(&self, other: &Location) -> (equal: bool)
        ensures
            equal == (self@ == other@),
    {
        same(self.anchor.as_str(), other.anchor.as_str()) && same_texts(&self.parts, &other.parts)
    }

    /// The place as it is written.
    pub fn display(&self, platform: Platform) -> (text: String)
        ensures
            text@ == self@.display(platform),
    {
        let mut text = self.anchor.clone();
        let names = text::join(&self.parts, separator_text(platform).as_str());
        text.append(names.as_str());
        text
    }

    /// The names that lead from `root` down to this place, if it lies there.
    pub fn strip_prefix(&self, root: &Location) -> (rest: Option<Location>)
        ensures
            match rest {
                Some(place) => self@.within(root@) && place@ == self@.below(root@),
                None => !self@.within(root@),
            },
    {
        if !same(self.anchor.as_str(), root.anchor.as_str()) || root.parts.len()
            > self.parts.len() {
            return None;
        }
        let depth: usize = root.parts.len();
        let mut i: usize = 0;
        while i < depth
            invariant
                i <= depth == root.parts@.len() <= self.parts@.len(),
                self@.anchor == root@.anchor,
                forall|k: int| 0 <= k < i ==> self.parts@[k]@ == root.parts@[k]@,
            decreases depth - i,
        {
            if !same(self.parts[i].as_str(), root.parts[i].as_str()) {
                assert(self@.parts.take(depth as int)[i as int] != root@.parts[i as int]);
                return None;
            }
            i += 1;
        }
        assert(self@.parts.take(depth as int) =~= root@.parts);
        let mut parts: Vec<String> = Vec::new();
        while i < self.parts.len()
            invariant
                depth == root.parts@.len(),
                depth <= i <= self.parts@.len(),
                text::views(parts@) == self@.parts.subrange(depth as int, i as int),
            decreases self.parts@.len() - i,
        {
            let name = self.parts[i].clone();
            proof {
                text::lemma_views_push(parts@, name);
            }
            parts.push(name);
            i += 1;
            assert(text::views(parts@) =~= self@.parts.subrange(depth as int, i as int));
        }
        assert(text::views(parts@) =~= self@.parts.skip(depth as int));
        Some(Location { anchor: String::new(), parts })
    }
}


/// The pieces of a path text between its separators, empty ones included.
pub open spec fn pieces_of(path: Seq<char>, platform: Platform) -> Seq<Seq<char>>
    decreases path.len(),
{
    if path.len() == 0 {
        seq![Seq::empty()]
    } else {
        let before = pieces_of(path.drop_last(), platform);
        if platform.separates(path.last()) {
            before.push(Seq::empty())
        } else {
            before.drop_last().push(before.last().push(path.last()))
        }
    }
}

/// Whether the piece at `index` names a step: empty pieces do not, and `.`
/// only does at the very start.
pub open spec fn is_step(piece: Seq<char>, index: int) -> bool {
    piece.len() > 0 && (piece != "."@ || index == 0)
}

/// The pieces that name a step.
pub open spec fn steps_of(pieces: Seq<Seq<char>>) -> Seq<Seq<char>>
    decreases pieces.len(),
{
    if pieces.len() == 0 {
        Seq::empty()
    } else {
        let before = steps_of(pieces.drop_last());
        if is_step(pieces.last(), pieces.len() - 1) {
            before.push(pieces.last())
        } else {
            before
        }
    }
}

/// The steps of a path text, in order.
pub open spec fn path_steps(path: Seq<char>, platform: Platform) -> Seq<Seq<char>> {
    steps_of(pieces_of(path, platform))
}

/// The pieces of a path text between its separators, empty ones included.
pub fn split_pieces(path: &str, platform: Platform) -> (pieces: Vec<String>)
    ensures
        text::views(pieces@) == pieces_of(path@, platform),
{
    let chars = chars_of(path);
    let mut pieces: Vec<String> = Vec::new();
    let mut current = String::new();
    let mut i: usize = 0;
    assert(text::views(pieces@).push(current@) =~= pieces_of(chars@.take(0), platform));
    while i < chars.len()
        invariant
            i <= chars@.len(),
            text::views(pieces@).push(current@) == pieces_of(chars@.take(i as int), platform),
        decreases chars@.len() - i,
    {
        let ghost before = pieces_of(chars@.take(i as int), platform);
        assert(chars@.take(i + 1).drop_last() =~= chars@.take(i as int));
        let c = chars[i];
        if c == '/' || c == platform.separator() {
            proof {
                text::lemma_views_push(pieces@, current);
            }
            pieces.push(current);
            current = String::new();
            assert(text::views(pieces@).push(current@) =~= before.push(Seq::empty()));
        } else {
            current.push(c);
            assert(text::views(pieces@).push(current@) =~= before.drop_last().push(
                before.last().push(c),
            ));
        }
        i += 1;
    }
    assert(chars@.take(i as int) =~= chars@);
    proof {
        text::lemma_views_push(pieces@, current);
    }
    pieces.push(current);
    pieces
}

/// The steps of a path text, in order.
pub fn split_steps(path: &str, platform: Platform) -> (steps: Vec<String>)
    ensures
        text::views(steps@) == path_steps(path@, platform),
{
    let pieces = split_pieces(path, platform);
    let ghost all = text::views(pieces@);
    let mut steps: Vec<String> = Vec::new();
    let mut i: usize = 0;
    assert(text::views(steps@) =~= steps_of(all.take(0)));
    while i < pieces.len()
        invariant
            i <= pieces@.len(),
            all == text::views(pieces@),
            text::views(steps@) == steps_of(all.take(i as int)),
        decreases pieces@.len() - i,
    {
        assert(all.take(i + 1).drop_last() =~= all.take(i as int));
        assert(all.take(i + 1).last() == pieces@[i as int]@);
        if !pieces[i].as_str().is_empty() && (i == 0 || !same(pieces[i].as_str(), ".")) {
            let piece = pieces[i].clone();
            proof {
                text::lemma_views_push(steps@, piece);
            }
            steps.push(piece);
        }
        i += 1;
    }
    assert(all.take(i as int) =~= all);
    steps
}

/// The last step of a path text, unless it only points at another place.
pub open spec fn name_of(path: Seq<char>, platform: Platform) -> Option<Seq<char>> {
    LocationView { anchor: Seq::empty(), parts: path_steps(path, platform) }.file_name()
}

/// The last step of a path text, unless it only points at another place.
pub fn file_name(path: &str, platform: Platform) -> (name: Option<String>)
    ensures
        match name {
            Some(text) => name_of(path@, platform) == Some(text@),
            None => name_of(path@, platform) is None,
        },
{
    let place = Location { anchor: String::new(), parts: split_steps(path, platform) };
    place.file_name()
}

/// The position of the dot before a name's extension. A dot that starts the
/// name introduces none.
pub open spec fn extension_dot(name: Seq<char>) -> Option<int> {
    if exists|i: int| is_extension_dot(name, i) {
        Some(choose|i: int| is_extension_dot(name, i))
    } else {
        None
    }
}

/// Whether `at` is the last dot of the name, past its first character.
pub open spec fn is_extension_dot(name: Seq<char>, at: int) -> bool {
    &&& 0 < at < name.len()
    &&& name[at] == '.'
    &&& forall|k: int| at < k < name.len() ==> name[k] != '.'
}

fn find_extension_dot(name: &Vec<char>) -> (at: Option<usize>)
    ensures
        match at {
            Some(i) => i < name@.len() && extension_dot(name@) == Some(i as int)
                && is_extension_dot(name@, i as int),
            None => extension_dot(name@) is None,
        },
{
    let mut i: usize = name.len();
    while i > 1
        invariant
            i <= name@.len(),
            forall|k: int| i <= k < name@.len() ==> name@[k] != '.',
        decreases i,
    {
        i -= 1;
        if name[i] == '.' {
            assert(is_extension_dot(name@, i as int));
            let ghost found = extension_dot(name@)->0;
            assert(is_extension_dot(name@, found));
            assert(found == i);
            return Some(i);
        }
    }
    assert forall|k: int| !is_extension_dot(name@, k) by {}
    None
}

/// What follows the last dot of a name, if the name has an extension.
pub open spec fn extension_of(name: Seq<char>) -> Option<Seq<char>> {
    match extension_dot(name) {
        Some(at) => Some(name.skip(at + 1)),
        None => None,
    }
}

/// A name without its extension.
pub open spec fn stem_of(name: Seq<char>) -> Seq<char> {
    match extension_dot(name) {
        Some(at) => name.take(at),
        None => name,
    }
}

/// What follows the last dot of a name, if the name has an extension.
pub fn extension(name: &str) -> (ext: Option<String>)
    ensures
        match ext {
            Some(text) => extension_of(name@) == Some(text@),
            None => extension_of(name@) is None,
        },
{
    let chars = chars_of(name);
    match find_extension_dot(&chars) {
        Some(at) => {
            let end: usize = chars.len();
            let ext = slice_text(&chars, at + 1, end);
            assert(ext@ =~= name@.skip(at + 1));
            Some(ext)
        },
        None => None,
    }
}

/// A name without its extension.
pub fn file_stem(name: &str) -> (stem: String)
    ensures
        stem@ == stem_of(name@),
{
    let chars = chars_of(name);
    match find_extension_dot(&chars) {
        Some(at) => {
            let stem = slice_text(&chars, 0, at);
            assert(stem@ =~= name@.take(at as int));
            stem
        },
        None => name.to_owned(),
    }
}

/// Whether a path text begins with a drive letter and a colon.
pub open spec fn has_drive(path: Seq<char>) -> bool {
    path.len() >= 2 && path[1] == ':' && is_letter(path[0])
}

/// An ASCII letter.
pub open spec fn is_letter(c: char) -> bool {
    'a' <= c <= 'z' || 'A' <= c <= 'Z'
}

/// Whether a path text stands for the same place wherever it is read: from
/// the root, or on Windows from the root of a drive or a double slash.
pub open spec fn absolute(path: Seq<char>, platform: Platform) -> bool {
    if platform is Windows {
        ||| has_drive(path) && path.len() >= 3 && platform.separates(path[2])
        ||| path.len() >= 2 && platform.separates(path[0]) && platform.separates(path[1])
    } else {
        path.len() > 0 && path[0] == '/'
    }
}

/// Whether a path text stands for the same place wherever it is read.
pub fn is_absolute(path: &str, platform: Platform) -> (yes: bool)
    ensures
        yes == absolute(path@, platform),
{
    let c = chars_of(path);
    let sep = platform.separator();
    match platform {
        Platform::Windows => {
            (starts_with_drive(&c) && c.len() >= 3 && (c[2] == '/' || c[2] == sep)) || (c.len() >= 2
                && (c[0] == '/' || c[0] == sep) && (c[1] == '/' || c[1] == sep))
        },
        _ => c.len() > 0 && c[0] == '/',
    }
}

fn starts_with_drive(c: &Vec<char>) -> (yes: bool)
    ensures
        yes == has_drive(c@),
{
    c.len() >= 2 && c[1] == ':' && (('a' <= c[0] && c[0] <= 'z') || ('A' <= c[0] && c[0] <= 'Z'))
}

/// The path text reached from `base` by `path`: an absolute path replaces the
/// base, on Windows a drive replaces it too and a leading separator keeps only
/// its drive, and any other path goes below it.
pub open spec fn joined_path(base: Seq<char>, path: Seq<char>, platform: Platform) -> Seq<char> {
    if absolute(path, platform) || (platform is Windows && has_drive(path)) {
        path
    } else if platform is Windows && path.len() > 0 && platform.separates(path[0]) {
        (if has_drive(base) {
            base.take(2)
        } else {
            Seq::empty()
        }) + path
    } else if base.len() == 0 || platform.separates(base.last()) {
        base + path
    } else {
        base.push(platform.sep()) + path
    }
}

/// The path text reached from `base` by `path`.
pub fn join_path(base: &str, path: &str, platform: Platform) -> (out: String)
    ensures
        out@ == joined_path(base@, path@, platform),
{
    let b = chars_of(base);
    let p = chars_of(path);
    let sep = platform.separator();
    let windows = matches!(platform, Platform::Windows);
    if is_absolute(path, platform) || (windows && starts_with_drive(&p)) {
        return path.to_owned();
    }
    if windows && p.len() > 0 && (p[0] == '/' || p[0] == sep) {
        let mut out = if starts_with_drive(&b) {
            slice_text(&b, 0, 2)
        } else {
            String::new()
        };
        assert(out@ =~= if has_drive(base@) {
            base@.take(2)
        } else {
            Seq::empty()
        });
        out.append(path);
        return out;
    }
    let mut out = base.to_owned();
    if b.len() > 0 && b[b.len() - 1] != '/' && b[b.len() - 1] != sep {
        out.push(sep);
    }
    out.append(path);
    out
}

/// A path text without the prefix that Windows puts before a path in its
/// literal form.
pub open spec fn plain_form(path: Seq<char>) -> Seq<char> {
    if text::begins(path, "\\\\?\\UNC\\"@) {
        "\\\\"@ + path.skip("\\\\?\\UNC\\"@.len() as int)
    } else if text::begins(path, "\\\\?\\"@) {
        path.skip("\\\\?\\"@.len() as int)
    } else {
        path
    }
}

/// A path text without the prefix that Windows puts before a path in its
/// literal form.
pub fn strip_verbatim(path: &str) -> (out: String)
    ensures
        out@ == plain_form(path@),
{
    let chars = chars_of(path);
    let count: usize = chars.len();
    if text::starts_with(path, "\\\\?\\UNC\\") {
        let from: usize = text::length("\\\\?\\UNC\\");
        let rest = slice_text(&chars, from, count);
        assert(rest@ =~= path@.skip(from as int));
        return text::cat("\\\\", rest.as_str());
    }
    if text::starts_with(path, "\\\\?\\") {
        let from: usize = text::length("\\\\?\\");
        let rest = slice_text(&chars, from, count);
        assert(rest@ =~= path@.skip(from as int));
        return rest;
    }
    path.to_owned()
}

} // verus!
