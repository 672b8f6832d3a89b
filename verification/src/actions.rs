//! The actions offered for a selected item: the built-in ones and those that
//! the user defined. A user's actions come from the configuration directory
//! only, never from the selected project.
use crate::config;
use crate::config::Found;
use crate::paths;
use crate::paths::{copy_texts, Location};
use crate::text;
use crate::text::{cat3, chars_of};
use crate::validate;
use vstd::prelude::*;

verus! {

/// Whether an action takes over the terminal or runs on its own.
#[derive(Clone, Copy, Debug, PartialEq, Eq, Structural)]
pub enum RunMode {
    Terminal,
    Detach,
}

impl Default for RunMode {
    fn default() -> (mode: Self)
        ensures
            mode == RunMode::Terminal,
    {
        RunMode::Terminal
    }
}

/// What an action applies to.
#[derive(Clone, Copy, Debug, PartialEq, Eq, Structural)]
pub enum Target {
    Any,
    File,
    Directory,
}

impl Default for Target {
    fn default() -> (target: Self)
        ensures
            target == Target::Any,
    {
        Target::Any
    }
}

/// What the file system says a path is.
#[derive(Clone, Copy, Debug, PartialEq, Eq, Structural)]
pub struct Nature {
    pub is_file: bool,
    pub is_dir: bool,
}

/// An action as the user wrote it down.
#[derive(Debug, PartialEq, Eq)]
pub struct Definition {
    pub name: String,
    pub program: String,
    pub args: Vec<String>,
    pub target: Target,
    pub run: RunMode,
    pub cwd: Option<String>,
    pub key: Option<String>,
}

/// An action's definition as mathematical values.
#[verifier::ext_equal]
pub struct DefinitionView {
    pub name: Seq<char>,
    pub program: Seq<char>,
    pub args: Seq<Seq<char>>,
    pub target: Target,
    pub run: RunMode,
    pub cwd: Option<Seq<char>>,
    pub key: Option<Seq<char>>,
}

impl View for Definition {
    type V = DefinitionView;

    open spec fn view(&self) -> DefinitionView {
        DefinitionView {
            name: self.name@,
            program: self.program@,
            args: text::views(self.args@),
            target: self.target,
            run: self.run,
            cwd: text::inside(self.cwd),
            key: text::inside(self.key),
        }
    }
}

impl Clone for Definition {
    fn clone(&self) -> (copy: Self)
        ensures
            copy@ == self@,
    {
        Definition {
            name: self.name.clone(),
            program: self.program.clone(),
            args: copy_texts(&self.args),
            target: self.target,
            run: self.run,
            cwd: text::copy_text(&self.cwd),
            key: text::copy_text(&self.key),
        }
    }
}

impl DefinitionView {
    /// Whether the action applies to something of the given nature.
    pub open spec fn applies(self, nature: Nature) -> bool {
        match self.target {
            Target::Any => true,
            Target::File => nature.is_file,
            Target::Directory => nature.is_dir,
        }
    }
}

impl Definition {
    /// Whether the action applies to something of the given nature.
    pub fn matches(&self, nature: Nature) -> (yes: bool)
        ensures
            yes == self@.applies(nature),
    {
        match self.target {
            Target::Any => true,
            Target::File => nature.is_file,
            Target::Directory => nature.is_dir,
        }
    }
}

/// A file of user-defined actions.
#[derive(Debug, PartialEq, Eq)]
pub struct File {
    pub version: u32,
    pub include_defaults: bool,
    pub actions: Vec<Definition>,
}

/// A definition with everything but its name and key left simple.
pub fn test_definition(name: &str, key: Option<&str>) -> (definition: Definition)
    ensures
        definition@.name == name@,
        definition@.program == "true"@,
        definition@.args.len() == 0,
        definition@.target is Any,
        definition@.run is Detach,
        definition@.cwd is None,
        definition@.key == match key {
            Some(key) => Some(key@),
            None => None,
        },
{
    Definition {
        name: name.to_owned(),
        program: "true".to_owned(),
        args: Vec::new(),
        target: Target::Any,
        run: RunMode::Detach,
        cwd: None,
        key: match key {
            Some(key) => Some(key.to_owned()),
            None => None,
        },
    }
}

/// A decimal digit or an ASCII letter.
pub open spec fn alphanumeric(c: char) -> bool {
    '0' <= c <= '9' || 'a' <= c <= 'z' || 'A' <= c <= 'Z'
}

/// The key that a text stands for: one letter, in lower case, or one digit.
pub open spec fn key_of(value: Seq<char>) -> Option<char> {
    if value.len() == 1 && alphanumeric(text::ascii_lower_char(value[0])) {
        Some(text::ascii_lower_char(value[0]))
    } else {
        None
    }
}

/// The key that a text stands for. Anything but one letter or digit is
/// rejected, so that a typo is not silently dropped.
pub fn parse_key(value: &str) -> (key: Option<char>)
    ensures
        key == key_of(value@),
{
    let chars = chars_of(value);
    if chars.len() != 1 {
        return None;
    }
    let c = text::lower_char(chars[0]);
    if ('0' <= c && c <= '9') || ('a' <= c && c <= 'z') || ('A' <= c && c <= 'Z') {
        Some(c)
    } else {
        None
    }
}

/// Something that can be done with the selected item.
#[derive(Debug, PartialEq, Eq)]
pub enum Action {
    Reveal,
    Open,
    TempCopy,
    TempFolder,
    Copy,
    Editor,
    Custom { definition: Definition, config_dir: String },
}

/// An action as mathematical values.
#[verifier::ext_equal]
pub enum ActionView {
    Reveal,
    Open,
    TempCopy,
    TempFolder,
    Copy,
    Editor,
    Custom { definition: DefinitionView, config_dir: Seq<char> },
}

impl View for Action {
    type V = ActionView;

    open spec fn view(&self) -> ActionView {
        match self {
            Action::Reveal => ActionView::Reveal,
            Action::Open => ActionView::Open,
            Action::TempCopy => ActionView::TempCopy,
            Action::TempFolder => ActionView::TempFolder,
            Action::Copy => ActionView::Copy,
            Action::Editor => ActionView::Editor,
            Action::Custom { definition, config_dir } => ActionView::Custom {
                definition: definition@,
                config_dir: config_dir@,
            },
        }
    }
}

impl Clone for Action {
    fn clone(&self) -> (copy: Self)
        ensures
            copy@ == self@,
    {
        match self {
            Action::Reveal => Action::Reveal,
            Action::Open => Action::Open,
            Action::TempCopy => Action::TempCopy,
            Action::TempFolder => Action::TempFolder,
            Action::Copy => Action::Copy,
            Action::Editor => Action::Editor,
            Action::Custom { definition, config_dir } => Action::Custom {
                definition: definition.clone(),
                config_dir: config_dir.clone(),
            },
        }
    }
}

impl ActionView {
    /// The name in the menu.
    pub open spec fn title(self) -> Seq<char> {
        match self {
            ActionView::Reveal => "Open in file manager"@,
            ActionView::Open => "Open with default application"@,
            ActionView::TempCopy => "Open temporary copy (TEMP_)"@,
            ActionView::TempFolder => "Open temporary copies folder"@,
            ActionView::Copy => "Copy path"@,
            ActionView::Editor => "Open in VS Code"@,
            ActionView::Custom { definition, .. } => definition.name,
        }
    }

    /// The character that stands for the action.
    pub open spec fn hotkey(self) -> Option<char> {
        match self {
            ActionView::Reveal => Some('f'),
            ActionView::Open => Some('d'),
            ActionView::TempCopy => Some('o'),
            ActionView::TempFolder => Some('t'),
            ActionView::Copy => Some('c'),
            ActionView::Editor => Some('v'),
            ActionView::Custom { definition, .. } => match definition.key {
                Some(key) => key_of(key),
                None => None,
            },
        }
    }

    /// How the action runs. The built-in ones run on their own.
    pub open spec fn run(self) -> RunMode {
        match self {
            ActionView::Custom { definition, .. } => definition.run,
            _ => RunMode::Detach,
        }
    }
}

impl Action {
    /// The name in the menu.
    pub fn name(&self) -> (name: &str)
        ensures
            name@ == self@.title(),
    {
        match self {
            Action::Reveal => "Open in file manager",
            Action::Open => "Open with default application",
            Action::TempCopy => "Open temporary copy (TEMP_)",
            Action::TempFolder => "Open temporary copies folder",
            Action::Copy => "Copy path",
            Action::Editor => "Open in VS Code",
            Action::Custom { definition, .. } => definition.name.as_str(),
        }
    }

    /// The character that stands for the action, if it has one. Each letter
    /// comes from a word in the action's own name and stays put as the list
    /// grows.
    pub fn key(&self) -> (key: Option<char>)
        ensures
            key == self@.hotkey(),
    {
        match self {
            Action::Reveal => Some('f'),
            Action::Open => Some('d'),
            Action::TempCopy => Some('o'),
            Action::TempFolder => Some('t'),
            Action::Copy => Some('c'),
            Action::Editor => Some('v'),
            Action::Custom { definition, .. } => match &definition.key {
                Some(key) => parse_key(key.as_str()),
                None => None,
            },
        }
    }

    /// How the action runs.
    pub fn run_mode(&self) -> (run: RunMode)
        ensures
            run == self@.run(),
    {
        match self {
            Action::Custom { definition, .. } => definition.run,
            _ => RunMode::Detach,
        }
    }
}

/// The built-in actions: those for files are left out for anything else.
pub open spec fn built_in(is_file: bool) -> Seq<ActionView> {
    if is_file {
        seq![
            ActionView::Reveal,
            ActionView::Editor,
            ActionView::Copy,
            ActionView::Open,
            ActionView::TempCopy,
            ActionView::TempFolder,
        ]
    } else {
        seq![ActionView::Reveal, ActionView::Editor, ActionView::Copy, ActionView::TempFolder]
    }
}

/// The built-in actions for something of the given nature.
pub fn defaults(nature: Nature) -> (actions: Vec<Action>)
    ensures
        text::views(actions@) == built_in(nature.is_file),
{
    let mut actions: Vec<Action> = Vec::new();
    actions.push(Action::Reveal);
    actions.push(Action::Editor);
    actions.push(Action::Copy);
    if nature.is_file {
        actions.push(Action::Open);
        actions.push(Action::TempCopy);
    }
    actions.push(Action::TempFolder);
    assert(text::views(actions@) =~= built_in(nature.is_file));
    actions
}

/// The file of user-defined actions, in the same directory as the settings.
pub open spec fn file_place(settings: Option<paths::LocationView>) -> Result<
    paths::LocationView,
    Seq<char>,
> {
    config::beside_place(settings, "actions.json"@)
}

/// The file of user-defined actions, in the same directory as the settings.
pub fn config_path(settings: Option<Location>) -> (file: Result<Location, String>)
    ensures
        text::outcome(file) == file_place(text::inside(settings)),
{
    config::beside_settings(settings, "actions.json")
}

/// The user's actions among the first `count` that apply to something of the
/// given nature, in order.
pub open spec fn applicable(
    list: Seq<DefinitionView>,
    count: nat,
    nature: Nature,
    config_dir: Seq<char>,
) -> Seq<ActionView>
    decreases count,
{
    if count == 0 {
        Seq::empty()
    } else {
        let before = applicable(list, (count - 1) as nat, nature, config_dir);
        let definition = list[count - 1];
        if definition.applies(nature) {
            before.push(ActionView::Custom { definition, config_dir })
        } else {
            before
        }
    }
}

/// The actions that a file and the defaults give for something of the given
/// nature. Without a file they are the defaults; a file with a fault is an
/// error with its path.
pub open spec fn menu_of(
    found: Found<File>,
    file: Seq<char>,
    config_dir: Seq<char>,
    nature: Nature,
) -> Result<Seq<ActionView>, Seq<char>> {
    match found {
        Found::Nowhere => Err("cannot locate the user configuration directory"@),
        Found::Missing => Ok(built_in(nature.is_file)),
        Found::Unreadable(error) | Found::Invalid(error) => Err(file + ": "@ + error@),
        Found::Read(config) => {
            let list = text::views(config.actions@);
            match validate::file_error(config.version, list) {
                Some(error) => Err(file + ": "@ + error),
                None => Ok(
                    (if config.include_defaults {
                        built_in(nature.is_file)
                    } else {
                        Seq::empty()
                    }) + applicable(list, list.len(), nature, config_dir),
                ),
            }
        },
    }
}

/// The actions that a file and the defaults give for something of the given
/// nature.
pub fn read(found: &Found<File>, file: &str, config_dir: &str, nature: Nature) -> (menu: Result<
    Vec<Action>,
    String,
>)
    ensures
        match menu {
            Ok(actions) => menu_of(*found, file@, config_dir@, nature) == Ok::<
                Seq<ActionView>,
                Seq<char>,
            >(text::views(actions@)),
            Err(error) => menu_of(*found, file@, config_dir@, nature) == Err::<
                Seq<ActionView>,
                Seq<char>,
            >(error@),
        },
{
    match found {
        Found::Nowhere => Err("cannot locate the user configuration directory".to_owned()),
        Found::Missing => Ok(defaults(nature)),
        Found::Unreadable(error) | Found::Invalid(error) => Err(cat3(file, ": ", error.as_str())),
        Found::Read(config) => {
            if let Err(error) = validate::validate(config) {
                return Err(cat3(file, ": ", error.as_str()));
            }
            let ghost list = text::views(config.actions@);
            let mut actions: Vec<Action> = if config.include_defaults {
                defaults(nature)
            } else {
                Vec::new()
            };
            let ghost start = text::views(actions@);
            assert(start =~= if config.include_defaults {
                built_in(nature.is_file)
            } else {
                Seq::empty()
            });
            let mut i: usize = 0;
            assert(start + applicable(list, 0, nature, config_dir@) =~= start);
            while i < config.actions.len()
                invariant
                    i <= config.actions@.len(),
                    list == text::views(config.actions@),
                    text::views(actions@) == start + applicable(
                        list,
                        i as nat,
                        nature,
                        config_dir@,
                    ),
                decreases config.actions@.len() - i,
            {
                assert(list[i as int] == config.actions@[i as int]@);
                if config.actions[i].matches(nature) {
                    let action = Action::Custom {
                        definition: config.actions[i].clone(),
                        config_dir: config_dir.to_owned(),
                    };
                    proof {
                        text::lemma_views_push(actions@, action);
                        assert((start + applicable(list, i as nat, nature, config_dir@)).push(
                            action@,
                        ) =~= start + applicable(list, i as nat, nature, config_dir@).push(action@));
                    }
                    actions.push(action);
                }
                i += 1;
            }
            Ok(actions)
        },
    }
}

/// The actions to offer, and what to tell the user where their file has a
/// fault.
pub open spec fn offer(
    found: Found<File>,
    file: Seq<char>,
    config_dir: Seq<char>,
    nature: Nature,
) -> (Seq<ActionView>, Option<Seq<char>>) {
    match menu_of(found, file, config_dir, nature) {
        Ok(actions) => (actions, None),
        Err(error) => (built_in(nature.is_file), Some(error)),
    }
}

/// The actions to offer, and what to tell the user where their file has a
/// fault. A fault leaves the built-in menu available.
pub fn load(found: &Found<File>, file: &str, config_dir: &str, nature: Nature) -> (menu: (
    Vec<Action>,
    Option<String>,
))
    ensures
        (text::views(menu.0@), text::inside(menu.1)) == offer(*found, file@, config_dir@, nature),
{
    match read(found, file, config_dir, nature) {
        Ok(actions) => (actions, None),
        Err(error) => (defaults(nature), Some(error)),
    }
}

/// What is wrong with the user's file of actions, given what reading it gave.
pub open spec fn check_error(found: Result<File, String>, file: Seq<char>) -> Option<Seq<char>> {
    match found {
        Err(error) => Some(file + ": "@ + error@),
        Ok(config) => match validate::file_error(config.version, text::views(config.actions@)) {
            Some(error) => Some(file + ": "@ + error),
            None => None,
        },
    }
}

/// Whether the user's file of actions can be used.
pub fn check(found: &Result<File, String>, file: &str) -> (checked: Result<(), String>)
    ensures
        match checked {
            Ok(_) => check_error(*found, file@) is None,
            Err(error) => check_error(*found, file@) == Some(error@),
        },
{
    match found {
        Err(error) => Err(cat3(file, ": ", error.as_str())),
        Ok(config) => match validate::validate(config) {
            Ok(_) => Ok(()),
            Err(error) => Err(cat3(file, ": ", error.as_str())),
        },
    }
}

/// The text of an action file to start from.
pub const TEMPLATE: &'static str = "{\n  \"version\": 1,\n  \"include_defaults\": true,\n  \"actions\": [\n    {\n      \"name\": \"Open in VS Code\",\n      \"program\": \"code\",\n      \"args\": [\"{path}\"],\n      \"target\": \"any\",\n      \"run\": \"detach\"\n    },\n    {\n      \"name\": \"My script\",\n      \"program\": \"scripts/task.ps1\",\n      \"args\": [\"{path}\"],\n      \"target\": \"directory\",\n      \"run\": \"terminal\"\n    }\n  ]\n}\n";

/// A fault of the user's file leaves the built-in actions in place and is told;
/// without one nothing is told.
pub proof fn a_fault_leaves_the_built_in_actions(
    found: Found<File>,
    file: Seq<char>,
    config_dir: Seq<char>,
    nature: Nature,
)
    ensures
        ({
            let (actions, fault) = offer(found, file, config_dir, nature);
            let menu = menu_of(found, file, config_dir, nature);
            &&& menu is Ok ==> actions == menu->Ok_0 && fault is None
            &&& menu is Err ==> actions == built_in(nature.is_file) && fault == Some(menu->Err_0)
            &&& found is Missing ==> actions == built_in(nature.is_file) && fault is None
        }),
{
}

/// A file passes the check exactly if it can be read and is valid; otherwise
/// its fault is told with its path.
pub proof fn a_file_passes_exactly_if_it_is_valid(found: Result<File, String>, file: Seq<char>)
    ensures
        found matches Err(error) ==> check_error(found, file) == Some(file + ": "@ + error@),
        found matches Ok(config) ==> {
            let fault = validate::file_error(config.version, text::views(config.actions@));
            &&& fault is None == check_error(found, file) is None
            &&& fault is Some ==> check_error(found, file) == Some(file + ": "@ + fault->0)
        },
{
}

/// The user's actions lie beside the settings, and nowhere where these have no
/// place.
pub proof fn where_the_actions_lie(dir: paths::LocationView, settings: Seq<char>)
    requires
        settings != "."@,
        settings != ".."@,
    ensures
        file_place(
            Some(paths::LocationView { anchor: dir.anchor, parts: dir.parts.push(settings) }),
        ) == Ok::<paths::LocationView, Seq<char>>(
            paths::LocationView { anchor: dir.anchor, parts: dir.parts.push("actions.json"@) },
        ),
        file_place(None) is Err,
{
    assert(dir.parts.push(settings).drop_last() =~= dir.parts);
}

} // verus!
