//! The user's settings. Every setting has a default, so the file is optional.
use crate::paths;
use crate::paths::{copy_texts, Location};
use crate::text;
use crate::text::cat3;
use vstd::prelude::*;

verus! {

/// What became of looking for a file of the user's.
#[derive(Debug)]
pub enum Found<T> {
    /// There is no place where the file could be.
    Nowhere,
    /// The file does not exist.
    Missing,
    /// The file cannot be read.
    Unreadable(String),
    /// The file does not say what it should.
    Invalid(String),
    Read(T),
}

/// The user's settings.
#[derive(Debug, PartialEq, Eq)]
pub struct Config {
    /// Show icons, for which the terminal needs a fitting font.
    pub icons: bool,
    /// Take mouse input for selecting and scrolling.
    pub mouse: bool,
    /// The largest temporary copy in MiB; zero turns temporary copies off.
    pub temp_copy_max_mib: u64,
    /// Names of directories to skip at any depth.
    pub exclude: Vec<String>,
    /// Absolute paths never treated as project roots.
    pub exclude_roots: Vec<String>,
}

/// The settings as mathematical values.
#[verifier::ext_equal]
pub struct ConfigView {
    pub icons: bool,
    pub mouse: bool,
    pub temp_copy_max_mib: u64,
    pub exclude: Seq<Seq<char>>,
    pub exclude_roots: Seq<Seq<char>>,
}

impl View for Config {
    type V = ConfigView;

    open spec fn view(&self) -> ConfigView {
        ConfigView {
            icons: self.icons,
            mouse: self.mouse,
            temp_copy_max_mib: self.temp_copy_max_mib,
            exclude: text::views(self.exclude@),
            exclude_roots: text::views(self.exclude_roots@),
        }
    }
}

impl Clone for Config {
    fn clone(&self) -> (copy: Self)
        ensures
            copy@ == self@,
    {
        Config {
            icons: self.icons,
            mouse: self.mouse,
            temp_copy_max_mib: self.temp_copy_max_mib,
            exclude: copy_texts(&self.exclude),
            exclude_roots: copy_texts(&self.exclude_roots),
        }
    }
}

impl ConfigView {
    /// The settings of a user who set nothing.
    pub open spec fn standard() -> ConfigView {
        ConfigView {
            icons: false,
            mouse: true,
            temp_copy_max_mib: 100,
            exclude: seq![".git"@, "node_modules"@, "dist"@, "build"@, "target"@],
            exclude_roots: Seq::empty(),
        }
    }
}

impl Default for Config {
    fn default() -> (config: Self)
        ensures
            config@ == ConfigView::standard(),
    {
        let mut exclude: Vec<String> = Vec::new();
        exclude.push(".git".to_owned());
        exclude.push("node_modules".to_owned());
        exclude.push("dist".to_owned());
        exclude.push("build".to_owned());
        exclude.push("target".to_owned());
        let exclude_roots: Vec<String> = Vec::new();
        assert(text::views(exclude@) =~= ConfigView::standard().exclude);
        assert(text::views(exclude_roots@) =~= ConfigView::standard().exclude_roots);
        Config { icons: false, mouse: true, temp_copy_max_mib: 100, exclude, exclude_roots }
    }
}

/// Where the settings are: in the directory that the environment names, which
/// may have no absolute form, beside the program, or among the user's files.
pub open spec fn settings_place(
    named: Option<Option<paths::LocationView>>,
    portable: Option<paths::LocationView>,
    user: Option<paths::LocationView>,
) -> Option<paths::LocationView> {
    match (named, portable, user) {
        (Some(Some(dir)), _, _) => Some(dir.child("config.toml"@)),
        (Some(None), _, _) => None,
        (None, Some(file), _) => Some(file),
        (None, None, Some(base)) => Some(base.child("tadoru"@).child("config.toml"@)),
        (None, None, None) => None,
    }
}

/// The settings that were found, or the defaults where there is no file.
pub open spec fn settings_read(found: Found<Config>, path: Seq<char>) -> Result<
    ConfigView,
    Seq<char>,
> {
    match found {
        Found::Nowhere | Found::Missing => Ok(ConfigView::standard()),
        Found::Unreadable(error) | Found::Invalid(error) => Err(path + ": "@ + error@),
        Found::Read(config) => Ok(config@),
    }
}

/// The settings file beside the program, if the portable directory exists.
pub open spec fn portable_place(exe: paths::LocationView, directory_exists: bool) -> Option<
    paths::LocationView,
> {
    match exe.parent() {
        Some(beside) => if directory_exists {
            Some(beside.child("config"@).child("config.toml"@))
        } else {
            None
        },
        None => None,
    }
}

/// Another of the user's files: in the same directory as the settings.
pub open spec fn beside_place(settings: Option<paths::LocationView>, name: Seq<char>) -> Result<
    paths::LocationView,
    Seq<char>,
> {
    match settings {
        Some(place) => Ok(place.sibling(name)),
        None => Err("cannot locate the user configuration directory"@),
    }
}

impl Config {
    /// Where the settings are: an explicit override first, then the portable
    /// directory beside the program, then the user's configuration directory.
    pub fn path(
        named: Option<Option<Location>>,
        portable: Option<Location>,
        user: Option<Location>,
    ) -> (file: Option<Location>)
        ensures
            text::inside(file) == settings_place(
                match named {
                    Some(dir) => Some(text::inside(dir)),
                    None => None,
                },
                text::inside(portable),
                text::inside(user),
            ),
    {
        match named {
            Some(Some(dir)) => Some(dir.child("config.toml")),
            Some(None) => None,
            None => match portable {
                Some(file) => Some(file),
                None => match user {
                    Some(base) => Some(base.child("tadoru").child("config.toml")),
                    None => None,
                },
            },
        }
    }

    /// The settings that were found, or the defaults where there is no file.
    /// A file that cannot be read or understood is an error with its path.
    pub fn load(found: Found<Config>, path: &str) -> (config: Result<Config, String>)
        ensures
            text::outcome(config) == settings_read(found, path@),
    {
        match found {
            Found::Nowhere | Found::Missing => Ok(Config::default()),
            Found::Unreadable(error) | Found::Invalid(error) => Err(
                cat3(path, ": ", error.as_str()),
            ),
            Found::Read(config) => Ok(config),
        }
    }
}

/// The directory beside the program that, where it exists, holds the settings.
pub fn portable_directory(exe: &Location) -> (dir: Option<Location>)
    ensures
        text::inside(dir) == match exe@.parent() {
            Some(beside) => Some(beside.child("config"@)),
            None => None,
        },
{
    match exe.parent() {
        Some(beside) => Some(beside.child("config")),
        None => None,
    }
}

/// The settings file beside the program, if the portable directory exists.
/// The file itself need not be there yet.
pub fn portable_config(exe: &Location, directory_exists: bool) -> (file: Option<Location>)
    ensures
        text::inside(file) == portable_place(exe@, directory_exists),
{
    match portable_directory(exe) {
        Some(dir) => if directory_exists {
            Some(dir.child("config.toml"))
        } else {
            None
        },
        None => None,
    }
}

/// Another of the user's files: in the same directory as the settings.
pub fn beside_settings(settings: Option<Location>, name: &str) -> (file: Result<Location, String>)
    ensures
        text::outcome(file) == beside_place(text::inside(settings), name@),
{
    match settings {
        Some(place) => Ok(place.with_file_name(name)),
        None => Err("cannot locate the user configuration directory".to_owned()),
    }
}

/// The report of a file that could not be created. Existing files are left as
/// they are.
pub fn not_created(path: &str, error: &str) -> (message: String)
    ensures
        message@ == path@ + ": "@ + error@ + " (existing files are never overwritten)"@,
{
    let start = cat3(path, ": ", error);
    text::cat(start.as_str(), " (existing files are never overwritten)")
}

/// The text of a settings file that spells out the defaults.
pub const TEMPLATE: &'static str = "# Show Nerd Font icons. The terminal must use a compatible font.\nicons = false\n\n# Capture mouse input for list selection and scrolling.\nmouse = true\n\n# Maximum temporary copy size in MiB; zero disables temporary copies.\ntemp_copy_max_mib = 100\n\n# Directory names to skip at any depth.\nexclude = [\".git\", \"node_modules\", \"dist\", \"build\", \"target\"]\n\n# Absolute paths never treated as project roots.\nexclude_roots = []\n";

/// A file of settings is taken as it stands, the defaults stand in where there
/// is none, and a file with a fault is an error with its path, never replaced.
pub proof fn settings_are_taken_as_they_stand(found: Found<Config>, path: Seq<char>)
    ensures
        found matches Found::Read(config) ==> settings_read(found, path) == Ok::<
            ConfigView,
            Seq<char>,
        >(config@),
        found is Missing || found is Nowhere ==> settings_read(found, path) == Ok::<
            ConfigView,
            Seq<char>,
        >(ConfigView::standard()),
        found matches Found::Unreadable(error) ==> settings_read(found, path) == Err::<
            ConfigView,
            Seq<char>,
        >(path + ": "@ + error@),
        found matches Found::Invalid(error) ==> settings_read(found, path) == Err::<
            ConfigView,
            Seq<char>,
        >(path + ": "@ + error@),
{
}

/// The portable settings lie in a directory beside the program, and count only
/// where that directory exists; the user's other files lie beside the
/// settings, wherever these are.
pub proof fn where_the_files_of_the_user_lie(
    dir: paths::LocationView,
    program: Seq<char>,
    name: Seq<char>,
)
    requires
        program != "."@,
        program != ".."@,
    ensures
        ({
            let exe = paths::LocationView { anchor: dir.anchor, parts: dir.parts.push(program) };
            &&& portable_place(exe, true) == Some(
                paths::LocationView {
                    anchor: dir.anchor,
                    parts: dir.parts + seq!["config"@, "config.toml"@],
                },
            )
            &&& portable_place(exe, false) is None
            &&& beside_place(Some(exe), name) == Ok::<paths::LocationView, Seq<char>>(
                paths::LocationView { anchor: dir.anchor, parts: dir.parts.push(name) },
            )
            &&& beside_place(None, name) is Err
        }),
{
    assert(dir.parts.push(program).drop_last() =~= dir.parts);
    assert(dir.parts.push("config"@).push("config.toml"@) =~= dir.parts
        + seq!["config"@, "config.toml"@]);
}

} // verus!
