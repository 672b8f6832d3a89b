//! The choices made on the command line and the process's answer to them.
use crate::paths::Location;
use crate::text::cat;
use vstd::prelude::*;

verus! {

/// What the picker lists.
#[derive(Clone, Copy, Debug, PartialEq, Eq, Structural)]
pub enum Mode {
    /// Directories below the root.
    Dirs,
    /// Files below the root. The parent directory of the chosen file is printed.
    Files,
    /// Recently visited directories from zoxide.
    Recent,
    /// Pinned directories, independent of zoxide.
    Favorites,
    /// The tree, one level at a time.
    Browse,
}

/// The number of modes.
pub const MODES: usize = 5;

impl Mode {
    /// The name a mode goes by.
    pub open spec fn name(self) -> Seq<char> {
        match self {
            Mode::Dirs => "dirs"@,
            Mode::Files => "files"@,
            Mode::Recent => "recent"@,
            Mode::Favorites => "favorites"@,
            Mode::Browse => "browse"@,
        }
    }

    /// The name a mode goes by.
    pub fn label(self) -> (label: &'static str)
        ensures
            label@ == self.name(),
    {
        match self {
            Mode::Dirs => "dirs",
            Mode::Files => "files",
            Mode::Recent => "recent",
            Mode::Favorites => "favorites",
            Mode::Browse => "browse",
        }
    }

    /// The place of a mode among the tabs.
    pub open spec fn index(self) -> int {
        match self {
            Mode::Dirs => 0,
            Mode::Files => 1,
            Mode::Recent => 2,
            Mode::Favorites => 3,
            Mode::Browse => 4,
        }
    }

    /// The mode at a place among the tabs.
    pub open spec fn nth(index: int) -> Mode {
        if index == 0 {
            Mode::Dirs
        } else if index == 1 {
            Mode::Files
        } else if index == 2 {
            Mode::Recent
        } else if index == 3 {
            Mode::Favorites
        } else {
            Mode::Browse
        }
    }

    /// The mode `step` tabs further, round and round.
    pub open spec fn further(self, step: int) -> Mode {
        Mode::nth((self.index() + step) % 5)
    }
}

/// The place of a mode among the tabs.
pub fn mode_index(mode: Mode) -> (index: usize)
    ensures
        index == mode.index(),
        index < MODES,
{
    match mode {
        Mode::Dirs => 0,
        Mode::Files => 1,
        Mode::Recent => 2,
        Mode::Favorites => 3,
        Mode::Browse => 4,
    }
}

/// The mode at a place among the tabs.
pub fn mode_at(index: usize) -> (mode: Mode)
    requires
        index < MODES,
    ensures
        mode == Mode::nth(index as int),
        mode.index() == index,
{
    match index {
        0 => Mode::Dirs,
        1 => Mode::Files,
        2 => Mode::Recent,
        3 => Mode::Favorites,
        _ => Mode::Browse,
    }
}

/// The mode `step` tabs further, round and round.
pub fn mode_after(mode: Mode, step: isize) -> (next: Mode)
    ensures
        next == mode.further(step as int),
{
    let index: usize = mode_index(mode);
    let forward: usize = if step >= 0 {
        (step as usize) % 5
    } else {
        let back: usize = (-(step + 1)) as usize;
        4 - back % 5
    };
    assert((index + forward) % 5 == (index + step) % 5);
    mode_at((index + forward) % 5)
}

/// Stepping on and back again ends where it began, and as many steps as there
/// are tabs lead back as well.
pub proof fn stepping_through_the_modes_wraps_both_ways(mode: Mode, step: int)
    ensures
        mode.further(step).further(-step) == mode,
        mode.further(step + 5) == mode.further(step),
        mode.further(0) == mode,
{
    let there = (mode.index() + step) % 5;
    assert(mode.further(step).index() == there);
    assert((there - step) % 5 == mode.index());
    assert((mode.index() + step + 5) % 5 == there);
}

/// What to pick, from where, and whether the picker has to be shown.
#[derive(Debug)]
pub struct PickArgs {
    pub mode: Mode,
    pub query: String,
    pub root: Option<Location>,
    /// Print the only candidate without showing the picker.
    pub select_1: bool,
}

/// The shells that can be set up.
#[derive(Clone, Copy, Debug, PartialEq, Eq, Structural)]
pub enum Shell {
    Powershell,
    Cmd,
    Bash,
}

impl Shell {
    /// The name a shell goes by.
    pub open spec fn name(self) -> Seq<char> {
        match self {
            Shell::Powershell => "powershell"@,
            Shell::Cmd => "cmd"@,
            Shell::Bash => "bash"@,
        }
    }

    /// The name a shell goes by.
    pub fn label(self) -> (label: &'static str)
        ensures
            label@ == self.name(),
    {
        match self {
            Shell::Powershell => "powershell",
            Shell::Cmd => "cmd",
            Shell::Bash => "bash",
        }
    }
}

/// How a run ended.
#[derive(Debug)]
pub enum Outcome {
    /// A place was chosen and is printed.
    Path(Location),
    /// Nothing was chosen.
    Cancelled,
    /// The command did its work.
    Done,
    /// The command could not do its work.
    Failed,
}

/// The code of a run that chose nothing.
pub const EXIT_CANCELLED: u8 = 1;

/// The code of a run that failed.
pub const EXIT_ERROR: u8 = 2;

/// The exit code that an outcome calls for.
pub open spec fn code_of(outcome: Outcome) -> u8 {
    match outcome {
        Outcome::Path(_) | Outcome::Done => 0,
        Outcome::Cancelled => EXIT_CANCELLED,
        Outcome::Failed => EXIT_ERROR,
    }
}

/// The process's exit code: 0 for a choice or finished work, 1 for nothing
/// chosen, 2 for an error.
pub fn exit_code(outcome: &Outcome) -> (code: u8)
    ensures
        code == code_of(*outcome),
        code == 0 <==> (outcome is Path || outcome is Done),
        code == EXIT_CANCELLED <==> outcome is Cancelled,
        code == EXIT_ERROR <==> outcome is Failed,
{
    match outcome {
        Outcome::Path(_) | Outcome::Done => 0,
        Outcome::Cancelled => EXIT_CANCELLED,
        Outcome::Failed => EXIT_ERROR,
    }
}

/// Why a search cannot start in a place, if it cannot.
pub open spec fn root_error(path: Seq<char>, is_dir: bool) -> Option<Seq<char>> {
    if is_dir {
        None
    } else {
        Some("not a directory: "@ + path)
    }
}

/// The end of a pick: the place that was chosen, or nothing.
pub open spec fn end_of(picked: Option<Location>) -> Outcome {
    match picked {
        Some(place) => Outcome::Path(place),
        None => Outcome::Cancelled,
    }
}

/// The end of a pick: the place that was chosen, or nothing.
pub fn pick_outcome(picked: Option<Location>) -> (outcome: Outcome)
    ensures
        outcome == end_of(picked),
{
    match picked {
        Some(place) => Outcome::Path(place),
        None => Outcome::Cancelled,
    }
}

/// The query to start with.
pub open spec fn query_at_start(argument: Seq<char>, environment: Option<Seq<char>>) -> Seq<char> {
    match environment {
        Some(text) => text,
        None => argument,
    }
}

/// The query to start with: that of the environment where it is set, since
/// cmd.exe mangles arguments, otherwise that of the command line.
pub fn initial_query(argument: String, environment: Option<String>) -> (query: String)
    ensures
        query@ == query_at_start(argument@, crate::text::inside(environment)),
{
    match environment {
        Some(text) => text,
        None => argument,
    }
}

/// What `init` does for a shell.
#[derive(Clone, Copy, Debug, PartialEq, Eq, Structural)]
pub enum InitPlan {
    /// Print the integration.
    Print,
    /// Write script files into the directory.
    Write,
    /// Bash needs functions, which files cannot hold.
    Refuse,
}

/// What `init` does for a shell.
pub open spec fn planned(shell: Shell, to_directory: bool) -> InitPlan {
    if !to_directory {
        InitPlan::Print
    } else if shell is Bash {
        InitPlan::Refuse
    } else {
        InitPlan::Write
    }
}

/// What `init` does for a shell: files where a directory is given, except for
/// bash, and printing otherwise.
pub fn init_plan(shell: Shell, to_directory: bool) -> (plan: InitPlan)
    ensures
        plan == planned(shell, to_directory),
        plan is Print <==> !to_directory,
        plan is Refuse <==> to_directory && shell is Bash,
        plan is Write <==> to_directory && !(shell is Bash),
{
    match (shell, to_directory) {
        (_, false) => InitPlan::Print,
        (Shell::Bash, true) => InitPlan::Refuse,
        (_, true) => InitPlan::Write,
    }
}

/// Whether a search can start in a place, which has to be a directory.
pub fn check_root(path: &str, is_dir: bool) -> (checked: Result<(), String>)
    ensures
        match checked {
            Ok(_) => root_error(path@, is_dir) is None,
            Err(error) => root_error(path@, is_dir) == Some(error@),
        },
{
    if is_dir {
        Ok(())
    } else {
        Err(cat("not a directory: ", path))
    }
}

/// A run that chose something or did its work ends with 0, one that chose
/// nothing with 1 and one that failed with 2.
pub proof fn how_a_run_ends(place: Location)
    ensures
        code_of(Outcome::Path(place)) == 0,
        code_of(Outcome::Done) == 0,
        code_of(Outcome::Cancelled) == 1,
        code_of(Outcome::Failed) == 2,
{
}

/// The query of the environment goes before that of the command line, also
/// where it is empty.
pub proof fn the_environment_goes_first(argument: Seq<char>, query: Seq<char>)
    ensures
        query_at_start(argument, Some(query)) == query,
        query_at_start(argument, None) == argument,
{
}

/// Without a directory the integration of every shell is printed; with one it
/// is written, which bash alone cannot do.
pub proof fn where_the_integration_goes(shell: Shell)
    ensures
        planned(shell, false) is Print,
        planned(Shell::Powershell, true) is Write,
        planned(Shell::Cmd, true) is Write,
        planned(Shell::Bash, true) is Refuse,
{
}

/// The names of the modes and of the shells tell them apart.
pub proof fn names_tell_modes_and_shells_apart(one: Mode, two: Mode, a: Shell, b: Shell)
    ensures
        one.name() == two.name() ==> one == two,
        a.name() == b.name() ==> a == b,
        Mode::Dirs.name() == "dirs"@,
        Mode::Files.name() == "files"@,
        Mode::Recent.name() == "recent"@,
        Mode::Favorites.name() == "favorites"@,
        Mode::Browse.name() == "browse"@,
        Shell::Powershell.name() == "powershell"@,
        Shell::Cmd.name() == "cmd"@,
        Shell::Bash.name() == "bash"@,
{
    reveal_strlit("dirs");
    reveal_strlit("files");
    reveal_strlit("recent");
    reveal_strlit("favorites");
    reveal_strlit("browse");
    reveal_strlit("powershell");
    reveal_strlit("cmd");
    reveal_strlit("bash");
    assert("dirs"@.len() == 4 && "files"@.len() == 5 && "recent"@.len() == 6 && "favorites"@.len()
        == 9 && "browse"@.len() == 6);
    assert("recent"@[0] == 'r' && "browse"@[0] == 'b');
    assert("powershell"@.len() == 10 && "cmd"@.len() == 3 && "bash"@.len() == 4);
}

/// A pick ends with the place that was chosen, and as cancelled without one; a
/// search starts only in a directory.
pub proof fn how_a_pick_starts_and_ends(place: Location, path: Seq<char>)
    ensures
        end_of(Some(place)) == Outcome::Path(place),
        code_of(end_of(Some(place))) == 0,
        code_of(end_of(None)) == 1,
        root_error(path, true) is None,
        root_error(path, false) == Some("not a directory: "@ + path),
{
}

} // verus!
