//! Candidates: what the walk below a root and the saved lists contribute.
use crate::cli::Mode;
use crate::paths;
use crate::paths::{split_pieces, Location, Platform};
use crate::text;
use crate::text::{cat, cat3, chars_of, lines, same, starts_with, trim};
use vstd::prelude::*;

verus! {

/// One candidate: the place that is printed when it is chosen, and the text
/// that is shown and matched, relative to the root.
#[derive(Debug, PartialEq, Eq)]
pub struct Entry {
    pub path: Location,
    pub display: String,
}

/// A candidate as mathematical values.
#[verifier::ext_equal]
pub struct EntryView {
    pub path: paths::LocationView,
    pub display: Seq<char>,
}

impl View for Entry {
    type V = EntryView;

    open spec fn view(&self) -> EntryView {
        EntryView { path: self.path@, display: self.display@ }
    }
}

impl Clone for Entry {
    fn clone(&self) -> (copy: Self)
        ensures
            copy@ == self@,
    {
        Entry { path: self.path.clone(), display: self.display.clone() }
    }
}

/// Whether a mode lists what the walk finds: directories or everything else.
pub open spec fn wanted(mode: Mode, is_dir: bool) -> bool {
    match mode {
        Mode::Dirs => is_dir,
        Mode::Files => !is_dir,
        _ => false,
    }
}

/// The candidate that something found by the walk makes. The root itself,
/// things of unknown kind and those the mode does not list make none.
pub open spec fn candidate(
    root: paths::LocationView,
    path: paths::LocationView,
    depth: usize,
    is_dir: Option<bool>,
    mode: Mode,
    platform: Platform,
) -> Option<EntryView> {
    if depth == 0 || is_dir is None || !wanted(mode, is_dir->0) || !path.within(root) {
        None
    } else {
        Some(EntryView { path, display: path.below(root).display(platform) })
    }
}

/// The candidate that something found by the walk makes.
pub fn to_entry(
    root: &Location,
    path: &Location,
    depth: usize,
    is_dir: Option<bool>,
    mode: Mode,
    platform: Platform,
) -> (entry: Option<Entry>)
    ensures
        text::inside(entry) == candidate(root@, path@, depth, is_dir, mode, platform),
{
    if depth == 0 {
        return None;
    }
    let is_dir = match is_dir {
        Some(is_dir) => is_dir,
        None => {
            return None;
        },
    };
    let listed = match mode {
        Mode::Dirs => is_dir,
        Mode::Files => !is_dir,
        _ => false,
    };
    if !listed {
        return None;
    }
    match path.strip_prefix(root) {
        Some(rest) => Some(Entry { path: path.clone(), display: rest.display(platform) }),
        None => None,
    }
}

/// Whether the walk takes something in.
pub open spec fn taken_in(
    name: Seq<char>,
    depth: usize,
    is_dir: bool,
    points_elsewhere: bool,
    exclude: Seq<Seq<char>>,
) -> bool {
    !(depth > 0 && is_dir && points_elsewhere) && !(is_dir && exclude.contains(name))
}

/// Whether the walk takes something in: not directories below the root that
/// only point elsewhere, nor those whose name is excluded.
pub fn walks(
    name: &str,
    depth: usize,
    is_dir: bool,
    points_elsewhere: bool,
    exclude: &Vec<String>,
) -> (goes: bool)
    ensures
        goes == taken_in(name@, depth, is_dir, points_elsewhere, text::views(exclude@)),
{
    if !is_dir {
        return true;
    }
    if depth > 0 && points_elsewhere {
        return false;
    }
    let ghost all = text::views(exclude@);
    let mut i: usize = 0;
    while i < exclude.len()
        invariant
            i <= exclude@.len(),
            all == text::views(exclude@),
            is_dir,
            forall|k: int| 0 <= k < i ==> all[k] != name@,
        decreases exclude@.len() - i,
    {
        assert(all[i as int] == exclude@[i as int]@);
        if same(exclude[i].as_str(), name) {
            assert(all.contains(name@));
            return false;
        }
        i += 1;
    }
    assert(!all.contains(name@));
    true
}

/// A saved directory as a candidate.
pub open spec fn saved(path: paths::LocationView, platform: Platform) -> EntryView {
    EntryView { path, display: path.display(platform) }
}

/// A saved directory as a candidate: it is shown whole.
pub fn saved_entry(path: &Location, platform: Platform) -> (entry: Entry)
    ensures
        entry@ == saved(path@, platform),
{
    Entry { path: path.clone(), display: path.display(platform) }
}

/// The drive of a path in its literal form, such as that of `\\?\C:\`.
pub open spec fn literal_drive(path: Seq<char>) -> Option<char> {
    if text::begins(path, "\\\\?\\"@) && paths::has_drive(path.skip(4)) && (path.len() == 6
        || path[6] == '\\') {
        Some(path[4])
    } else {
        None
    }
}

/// Whether a path names a share or a device rather than a drive.
pub open spec fn remote(path: Seq<char>) -> bool {
    let pieces = paths::pieces_of(path, Platform::Windows);
    &&& pieces.len() >= 4
    &&& pieces[0].len() == 0
    &&& pieces[1].len() == 0
    &&& (pieces[2] == "?"@ || pieces[2] == "."@ || (pieces[2].len() > 0 && pieces[3].len() > 0))
}

/// The drive that a recursive scan of an absolute Windows path would read, or
/// why it is not scanned.
pub open spec fn drive_of(path: Seq<char>) -> Result<char, Seq<char>> {
    match literal_drive(path) {
        Some(drive) => Ok(drive),
        None => if remote(path) {
            Err(
                "Recursive scan blocked on network or unsupported paths. Use browse (Tab) instead."@,
            )
        } else if paths::has_drive(path) {
            Ok(path[0])
        } else {
            Err("Cannot verify scan drive. Use browse (Tab) instead."@)
        },
    }
}

fn find_literal_drive(path: &str) -> (drive: Option<char>)
    ensures
        drive == literal_drive(path@),
{
    if !starts_with(path, "\\\\?\\") {
        return None;
    }
    let c = chars_of(path);
    proof {
        reveal_strlit("\\\\?\\");
        assert(path@.len() >= 4);
        if path@.len() >= 6 {
            assert(path@.skip(4)[0] == path@[4]);
            assert(path@.skip(4)[1] == path@[5]);
        }
    }
    if c.len() >= 6 && c[5] == ':' && (('a' <= c[4] && c[4] <= 'z') || ('A' <= c[4] && c[4] <= 'Z'))
        && (c.len() == 6 || c[6] == '\\') {
        Some(c[4])
    } else {
        None
    }
}

fn is_remote(path: &str) -> (yes: bool)
    ensures
        yes == remote(path@),
{
    let pieces = split_pieces(path, Platform::Windows);
    let ghost all = text::views(pieces@);
    if pieces.len() < 4 {
        return false;
    }
    assert(all[0] == pieces@[0]@ && all[1] == pieces@[1]@ && all[2] == pieces@[2]@ && all[3]
        == pieces@[3]@);
    let third = pieces[2].as_str();
    pieces[0].as_str().is_empty() && pieces[1].as_str().is_empty() && (same(third, "?") || same(
        third,
        ".",
    ) || (!third.is_empty() && !pieces[3].as_str().is_empty()))
}

/// The drive that a recursive scan of an absolute Windows path would read, or
/// why it is not scanned.
pub fn scan_drive(path: &str) -> (drive: Result<char, String>)
    ensures
        match drive {
            Ok(letter) => drive_of(path@) == Ok::<char, Seq<char>>(letter),
            Err(error) => drive_of(path@) == Err::<char, Seq<char>>(error@),
        },
{
    if let Some(drive) = find_literal_drive(path) {
        return Ok(drive);
    }
    if is_remote(path) {
        return Err(
            "Recursive scan blocked on network or unsupported paths. Use browse (Tab) instead.".to_owned(),
        );
    }
    let c = chars_of(path);
    if c.len() >= 2 && c[1] == ':' && (('a' <= c[0] && c[0] <= 'z') || ('A' <= c[0] && c[0] <= 'Z')) {
        Ok(c[0])
    } else {
        Err("Cannot verify scan drive. Use browse (Tab) instead.".to_owned())
    }
}

/// Whether a drive may be scanned, by the type that Windows reports.
pub open spec fn scannable(kind: u32) -> bool {
    kind == 2 || kind == 3 || kind == 5 || kind == 6
}

/// Whether a drive may be scanned, by the type that Windows reports:
/// removable, fixed, optical and memory drives may.
pub fn check_drive_type(kind: u32) -> (checked: Result<(), String>)
    ensures
        match checked {
            Ok(_) => scannable(kind),
            Err(error) => !scannable(kind) && error@
                == "Recursive scan blocked on network or unverified drives. Use browse (Tab) instead."@,
        },
{
    if kind == 2 || kind == 3 || kind == 5 || kind == 6 {
        Ok(())
    } else {
        Err(
            "Recursive scan blocked on network or unverified drives. Use browse (Tab) instead.".to_owned(),
        )
    }
}

/// How asking zoxide for its history ended.
#[derive(Debug)]
pub enum History {
    /// The program is not installed.
    NotInstalled,
    /// The program cannot be run.
    NotRun(String),
    /// The program failed and said why.
    Failed(String),
    /// What the program printed.
    Printed(String),
}

/// The lines that hold something.
pub open spec fn filled(lines: Seq<Seq<char>>) -> Seq<Seq<char>>
    decreases lines.len(),
{
    if lines.len() == 0 {
        lines
    } else if lines.last().len() == 0 {
        filled(lines.drop_last())
    } else {
        filled(lines.drop_last()).push(lines.last())
    }
}

/// The history in zoxide's order, or what to tell the user.
pub open spec fn history_of(history: History) -> Result<Seq<Seq<char>>, Seq<char>> {
    match history {
        History::NotInstalled => Err(
            "cannot run zoxide: recent mode lists the directories zoxide remembers, and zoxide is not installed. Install it (winget install ajeetdsouza.zoxide), or use favorites for the places you care about: Ctrl-B pins the selected folder. dirs, files and browse need nothing."@,
        ),
        History::NotRun(error) => Err("cannot run zoxide: "@ + error@),
        History::Failed(report) => Err("zoxide query failed: "@ + text::trimmed(report@)),
        History::Printed(text) => Ok(filled(text::lines_of(text@))),
    }
}

fn keep_filled(all: Vec<String>) -> (kept: Vec<String>)
    ensures
        text::views(kept@) == filled(text::views(all@)),
{
    let ghost views = text::views(all@);
    let mut kept: Vec<String> = Vec::new();
    let mut i: usize = 0;
    assert(text::views(kept@) =~= filled(views.take(0)));
    while i < all.len()
        invariant
            i <= all@.len(),
            views == text::views(all@),
            text::views(kept@) == filled(views.take(i as int)),
        decreases all@.len() - i,
    {
        assert(views.take(i + 1).drop_last() =~= views.take(i as int));
        assert(views.take(i + 1).last() == all@[i as int]@);
        if !all[i].as_str().is_empty() {
            let line = all[i].clone();
            proof {
                text::lemma_views_push(kept@, line);
            }
            kept.push(line);
        }
        i += 1;
    }
    assert(views.take(i as int) =~= views);
    kept
}

/// The recent directories in zoxide's order, or what to tell the user: saying
/// only that a program is missing would leave them to work out what to do.
pub fn recent(history: History) -> (paths: Result<Vec<String>, String>)
    ensures
        match paths {
            Ok(list) => history_of(history) == Ok::<Seq<Seq<char>>, Seq<char>>(text::views(list@)),
            Err(error) => history_of(history) == Err::<Seq<Seq<char>>, Seq<char>>(error@),
        },
{
    match history {
        History::NotInstalled => Err(
            "cannot run zoxide: recent mode lists the directories zoxide remembers, and zoxide is not installed. Install it (winget install ajeetdsouza.zoxide), or use favorites for the places you care about: Ctrl-B pins the selected folder. dirs, files and browse need nothing.".to_owned(),
        ),
        History::NotRun(error) => Err(cat("cannot run zoxide: ", error.as_str())),
        History::Failed(report) => {
            let report = trim(report.as_str());
            Err(cat("zoxide query failed: ", report.as_str()))
        },
        History::Printed(text) => Ok(keep_filled(lines(text.as_str()))),
    }
}

/// What became of resolving the links in the root of a scan.
#[derive(Debug)]
pub enum Resolved {
    /// Whether the place they lead to may be scanned.
    Place(Result<(), String>),
    /// There is nothing there.
    Missing,
    /// It could not be found out.
    Failed(String),
}

/// Why a root may not be scanned, if it may not: where it is itself, `given`,
/// and where its links lead.
pub open spec fn root_fault(given: Result<(), String>, resolved: Resolved) -> Option<Seq<char>> {
    match (given, resolved) {
        (Err(refused), _) => Some(refused@),
        (Ok(_), Resolved::Place(Err(refused))) => Some(refused@),
        (Ok(_), Resolved::Failed(reason)) => Some(
            "Cannot verify scan location: "@ + reason@ + ". Use browse instead."@,
        ),
        _ => None,
    }
}

/// Whether a root may be scanned: where it is itself, `given`, and where its
/// links lead.
pub fn check_scan_root(given: Result<(), String>, resolved: Resolved) -> (checked: Result<
    (),
    String,
>)
    ensures
        match checked {
            Ok(_) => root_fault(given, resolved) is None,
            Err(error) => root_fault(given, resolved) == Some(error@),
        },
{
    match given {
        Err(refused) => Err(refused),
        Ok(_) => match resolved {
            Resolved::Place(verdict) => verdict,
            Resolved::Missing => Ok(()),
            Resolved::Failed(reason) => Err(
                cat3("Cannot verify scan location: ", reason.as_str(), ". Use browse instead."),
            ),
        },
    }
}

/// What the walk finds is a candidate exactly if it lies below the root, is of
/// a known kind and the mode lists that kind: directories in one mode, all else
/// in the other. How deep it lies plays no part, and neither does anything
/// beside it.
pub proof fn the_walk_leaves_no_candidate_out(
    root: paths::LocationView,
    names: Seq<Seq<char>>,
    depth: usize,
    deeper: usize,
    is_dir: bool,
    mode: Mode,
    platform: Platform,
)
    requires
        depth > 0,
        deeper > 0,
    ensures
        ({
            let path = paths::LocationView { anchor: root.anchor, parts: root.parts + names };
            let found = candidate(root, path, depth, Some(is_dir), mode, platform);
            &&& found is Some == ((mode is Dirs && is_dir) || (mode is Files && !is_dir))
            &&& found == candidate(root, path, deeper, Some(is_dir), mode, platform)
            &&& found is Some ==> found->0.path == path
            &&& found is Some ==> found->0.display == text::joined(names, seq![platform.sep()])
            &&& candidate(root, path, 0, Some(is_dir), mode, platform) is None
            &&& candidate(root, path, depth, None, mode, platform) is None
        }),
{
    let path = paths::LocationView { anchor: root.anchor, parts: root.parts + names };
    assert(path.parts.take(root.parts.len() as int) =~= root.parts);
    assert(path.parts.skip(root.parts.len() as int) =~= names);
    assert(path.below(root).display(platform) =~= text::joined(names, seq![platform.sep()]));
}

/// What lies outside the root is no candidate in any mode, and nothing that is
/// found is one in the modes that do not walk.
pub proof fn nothing_outside_the_root_is_a_candidate(
    root: paths::LocationView,
    path: paths::LocationView,
    depth: usize,
    is_dir: Option<bool>,
    mode: Mode,
    platform: Platform,
)
    ensures
        candidate(root, path, depth, is_dir, mode, platform) is Some ==> {
            &&& path.anchor == root.anchor
            &&& path.parts.len() >= root.parts.len()
            &&& forall|k: int| 0 <= k < root.parts.len() ==> path.parts[k] == root.parts[k]
            &&& mode is Dirs || mode is Files
        },
{
    if candidate(root, path, depth, is_dir, mode, platform) is Some {
        assert forall|k: int| 0 <= k < root.parts.len() implies path.parts[k] == root.parts[k] by {
            assert(path.parts.take(root.parts.len() as int)[k] == path.parts[k]);
        }
    }
}

/// A thing that was found is listed in one of the two modes that walk and in
/// that one alone.
pub proof fn one_mode_lists_each_thing(
    root: paths::LocationView,
    path: paths::LocationView,
    depth: usize,
    is_dir: bool,
    platform: Platform,
)
    requires
        depth > 0,
        path.within(root),
    ensures
        candidate(root, path, depth, Some(is_dir), Mode::Dirs, platform) is Some == is_dir,
        candidate(root, path, depth, Some(is_dir), Mode::Files, platform) is Some == !is_dir,
{
}

/// The drive of a Windows path is its letter, written plainly or in the literal
/// form; a share, a device and a path without a drive have none.
pub proof fn a_path_on_a_drive_names_it(letter: char, rest: Seq<char>)
    requires
        'a' <= letter <= 'z' || 'A' <= letter <= 'Z',
    ensures
        drive_of("\\\\?\\"@ + seq![letter, ':', '\\'] + rest) == Ok::<char, Seq<char>>(letter),
        drive_of("\\\\?\\"@ + seq![letter, ':']) == Ok::<char, Seq<char>>(letter),
        drive_of(seq![letter, ':'] + rest) == Ok::<char, Seq<char>>(letter),
{
    reveal_strlit("\\\\?\\");
    let one = "\\\\?\\"@ + seq![letter, ':', '\\'] + rest;
    assert(one.subrange(0, 4) =~= "\\\\?\\"@);
    assert(one.skip(4)[0] == letter && one.skip(4)[1] == ':');
    assert(one[6] == '\\' && one[4] == letter);
    let two = "\\\\?\\"@ + seq![letter, ':'];
    assert(two.subrange(0, 4) =~= "\\\\?\\"@);
    assert(two.skip(4)[0] == letter && two.skip(4)[1] == ':');
    assert(two[4] == letter);
    let plain = seq![letter, ':'] + rest;
    assert(plain[0] == letter && plain[1] == ':');
    if text::begins(plain, "\\\\?\\"@) {
        assert(plain.subrange(0, 4)[0] == plain[0]);
    }
    lemma_first_piece(plain, letter);
}

proof fn lemma_first_piece(path: Seq<char>, c: char)
    requires
        path.len() > 0,
        path[0] == c,
        c != '/',
        c != '\\',
    ensures
        paths::pieces_of(path, Platform::Windows).len() > 0,
        paths::pieces_of(path, Platform::Windows)[0].len() > 0,
    decreases path.len(),
{
    let front = path.drop_last();
    if path.len() > 1 {
        lemma_first_piece(front, c);
        let before = paths::pieces_of(front, Platform::Windows);
        let now = paths::pieces_of(path, Platform::Windows);
        if Platform::Windows.separates(path.last()) {
            assert(now[0] == before[0]);
        } else if before.len() == 1 {
            assert(now[0] == before.last().push(path.last()));
        } else {
            assert(now[0] == before[0]);
        }
    } else {
        assert(front =~= Seq::empty());
        assert(paths::pieces_of(front, Platform::Windows) =~= seq![Seq::<char>::empty()]);
        assert(path.last() == c);
        assert(paths::pieces_of(path, Platform::Windows)[0] == Seq::<char>::empty().push(c));
    }
}

/// A path that starts with a drive names one, and so does its literal form; what
/// is refused starts with neither.
pub proof fn only_a_path_without_a_drive_is_refused(path: Seq<char>)
    ensures
        drive_of(path) is Err ==> !(path.len() >= 2 && path[1] == ':' && ('a' <= path[0] <= 'z'
            || 'A' <= path[0] <= 'Z')),
        drive_of(path) is Ok ==> path.contains(drive_of(path)->Ok_0) && ('a' <= drive_of(path)->Ok_0
            <= 'z' || 'A' <= drive_of(path)->Ok_0 <= 'Z'),
{
    if path.len() >= 2 && path[1] == ':' && ('a' <= path[0] <= 'z' || 'A' <= path[0] <= 'Z') {
        let rest = path.skip(2);
        assert(seq![path[0], ':'] + rest =~= path);
        a_path_on_a_drive_names_it(path[0], rest);
    }
    reveal_strlit("\\\\?\\");
    if literal_drive(path) is Some {
        assert(path.skip(4)[0] == path[4]);
    }
}

/// A share, named by its server and its folder, is never scanned, and neither
/// is an empty path.
pub proof fn a_share_is_not_scanned(server: Seq<char>, folder: Seq<char>)
    requires
        server.len() > 0,
        folder.len() > 0,
        server != "?"@,
        forall|k: int| 0 <= k < server.len() ==> server[k] != '\\' && server[k] != '/',
        forall|k: int| 0 <= k < folder.len() ==> folder[k] != '\\' && folder[k] != '/',
    ensures
        drive_of("\\\\"@ + server + seq!['\\'] + folder) is Err,
        drive_of(Seq::empty()) is Err,
{
    reveal_strlit("\\\\");
    reveal_strlit("\\\\?\\");
    reveal_strlit("?");
    let path = "\\\\"@ + server + seq!['\\'] + folder;
    assert(path[0] == '\\');
    if text::begins(path, "\\\\?\\"@) {
        assert(path.subrange(0, 4) =~= "\\\\?\\"@);
        assert(path[2] == path.subrange(0, 4)[2]);
        assert(path[3] == path.subrange(0, 4)[3]);
        assert(path[2] == server[0]);
        if server.len() > 1 {
            assert(path[3] == server[1]);
        } else {
            assert(server =~= "?"@);
        }
    }
    assert(literal_drive(path) is None);
    assert(!paths::has_drive(path));
}

/// What zoxide printed is taken line by line in its order, without the empty
/// lines: each other line, and nothing else.
pub proof fn history_keeps_every_line_in_order(lines: Seq<Seq<char>>, line: Seq<char>)
    ensures
        filled(lines) == lines.filter(|line: Seq<char>| line.len() > 0),
        filled(lines).contains(line) == (lines.contains(line) && line.len() > 0),
    decreases lines.len(),
{
    reveal(Seq::filter);
    if lines.len() > 0 {
        let front = lines.drop_last();
        history_keeps_every_line_in_order(front, line);
        let before = filled(front);
        let out = filled(lines);
        if out.contains(line) {
            let i = out.index_of(line);
            if i < before.len() {
                assert(before[i] == line);
                let k = front.index_of(line);
                assert(lines[k] == line);
            } else {
                assert(lines[lines.len() - 1] == line);
            }
        }
        if lines.contains(line) && line.len() > 0 {
            let k = lines.index_of(line);
            if k < front.len() {
                assert(front[k] == line);
                let i = before.index_of(line);
                assert(out[i] == line);
            } else {
                assert(out[out.len() - 1] == line);
            }
        }
    }
}

/// A history that was printed is always taken; anything else is told.
pub proof fn a_printed_history_is_taken(history: History)
    ensures
        history_of(history) is Ok == history is Printed,
        history matches History::Printed(printed) ==> history_of(history)->Ok_0 == text::lines_of(
            printed@,
        ).filter(|line: Seq<char>| line.len() > 0),
{
    if let History::Printed(printed) = history {
        history_keeps_every_line_in_order(text::lines_of(printed@), Seq::empty());
    }
}

/// The walk takes in every file. It goes into every directory but those whose
/// name is excluded and, below the root, those that only point elsewhere.
pub proof fn what_the_walk_takes_in(
    name: Seq<char>,
    depth: usize,
    points_elsewhere: bool,
    exclude: Seq<Seq<char>>,
    k: int,
)
    ensures
        taken_in(name, depth, false, points_elsewhere, exclude),
        0 <= k < exclude.len() && exclude[k] == name ==> !taken_in(
            name,
            depth,
            true,
            points_elsewhere,
            exclude,
        ),
        depth > 0 && points_elsewhere ==> !taken_in(name, depth, true, points_elsewhere, exclude),
        (forall|i: int| 0 <= i < exclude.len() ==> #[trigger] exclude[i] != name) ==> taken_in(
            name,
            depth,
            true,
            false,
            exclude,
        ) && taken_in(name, 0, true, points_elsewhere, exclude),
{
}

/// Removable, fixed, optical and memory drives may be scanned; drives of an
/// unknown kind, without a root or on a network may not.
pub proof fn which_drives_may_be_scanned(kind: u32)
    ensures
        scannable(2) && scannable(3) && scannable(5) && scannable(6),
        kind <= 1 || kind == 4 || kind > 6 ==> !scannable(kind),
{
}

/// A root may be scanned exactly if neither it nor where it leads is refused;
/// where nothing is there to lead to, it alone decides.
pub proof fn a_root_is_scanned_where_nothing_refuses_it(
    given: Result<(), String>,
    resolved: Resolved,
)
    ensures
        root_fault(given, resolved) is None == (given is Ok && (resolved is Missing
            || resolved matches Resolved::Place(Ok(_)))),
        given matches Err(refused) ==> root_fault(given, resolved) == Some(refused@),
        given is Ok ==> (resolved matches Resolved::Place(Err(refused)) ==> root_fault(
            given,
            resolved,
        ) == Some(refused@)),
{
}

/// A saved directory is a candidate for itself, and is shown by its whole path.
pub proof fn a_saved_directory_is_shown_whole(path: paths::LocationView, platform: Platform)
    ensures
        saved(path, platform).path == path,
        saved(path, platform).display == path.anchor + text::joined(
            path.parts,
            seq![platform.sep()],
        ),
{
}

} // verus!
