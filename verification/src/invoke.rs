//! Running an action: which file its program is, and with what it is started.
use crate::actions;
use crate::actions::{Action, Definition, Nature, RunMode};
use crate::paths;
use crate::paths::{is_absolute, join_path, Platform};
use crate::template;
use crate::template::{expand, Context};
use crate::text;
use crate::text::{cat, cat3, has_char, same_ignoring_case};
use crate::validate;
use vstd::prelude::*;

verus! {

/// Where a program may be: the files to try, in order.
#[derive(Debug, PartialEq, Eq)]
pub struct Search {
    pub candidates: Vec<String>,
    /// Whether the program was given by its path, so that there is only one
    /// place for it.
    pub fixed: bool,
}

/// A search as mathematical values.
#[verifier::ext_equal]
pub struct SearchView {
    pub candidates: Seq<Seq<char>>,
    pub fixed: bool,
}

impl View for Search {
    type V = SearchView;

    open spec fn view(&self) -> SearchView {
        SearchView { candidates: text::views(self.candidates@), fixed: self.fixed }
    }
}

/// The extensions that Windows programs go by.
pub open spec fn program_extensions() -> Seq<Seq<char>> {
    seq![".exe"@, ".com"@, ".cmd"@, ".bat"@]
}

/// Whether a program's name leaves its extension to the system.
pub open spec fn bare(program: Seq<char>, platform: Platform) -> bool {
    &&& platform is Windows
    &&& match paths::name_of(program, platform) {
        Some(name) => paths::extension_of(name) is None,
        None => false,
    }
}

/// The files that a program may be in one directory of the search path.
pub open spec fn in_directory(
    dir: Seq<char>,
    program: Seq<char>,
    platform: Platform,
) -> Seq<Seq<char>> {
    let plain = paths::joined_path(dir, program, platform);
    if dir.len() == 0 {
        Seq::empty()
    } else if bare(program, platform) {
        seq![
            plain + program_extensions()[0],
            plain + program_extensions()[1],
            plain + program_extensions()[2],
            plain + program_extensions()[3],
            plain,
        ]
    } else {
        seq![plain]
    }
}

/// The files that a program may be in the first `count` directories of the
/// search path.
pub open spec fn on_path(
    dirs: Seq<Seq<char>>,
    count: nat,
    program: Seq<char>,
    platform: Platform,
) -> Seq<Seq<char>>
    decreases count,
{
    if count == 0 {
        Seq::empty()
    } else {
        on_path(dirs, (count - 1) as nat, program, platform) + in_directory(
            dirs[count - 1],
            program,
            platform,
        )
    }
}

/// Whether a program is given by a path rather than by a name.
pub open spec fn given_by_path(program: Seq<char>, platform: Platform) -> bool {
    paths::absolute(program, platform) || program.contains('/') || program.contains('\\')
}

/// Where a program may be: at its path, taken from the configuration
/// directory if it is relative, or under its name in that directory and then
/// in the directories of the search path.
pub open spec fn places(
    program: Seq<char>,
    base: Seq<char>,
    dirs: Seq<Seq<char>>,
    platform: Platform,
) -> SearchView {
    if given_by_path(program, platform) {
        SearchView { candidates: seq![paths::joined_path(base, program, platform)], fixed: true }
    } else {
        SearchView {
            candidates: seq![paths::joined_path(base, program, platform)] + on_path(
                dirs,
                dirs.len(),
                program,
                platform,
            ),
            fixed: false,
        }
    }
}

fn add_text(texts: &mut Vec<String>, text: String)
    ensures
        text::views(final(texts)@) == text::views(old(texts)@).push(text@),
{
    proof {
        text::lemma_views_push(texts@, text);
    }
    texts.push(text);
}

fn is_bare(program: &str, platform: Platform) -> (yes: bool)
    ensures
        yes == bare(program@, platform),
{
    match platform {
        Platform::Windows => match paths::file_name(program, platform) {
            Some(name) => paths::extension(name.as_str()).is_none(),
            None => false,
        },
        _ => false,
    }
}

/// Where a program may be, in the order to try.
pub fn search(program: &str, base: &str, dirs: &Vec<String>, platform: Platform) -> (out: Search)
    ensures
        out@ == places(program@, base@, text::views(dirs@), platform),
{
    let mut candidates: Vec<String> = Vec::new();
    add_text(&mut candidates, join_path(base, program, platform));
    let ghost first = seq![paths::joined_path(base@, program@, platform)];
    assert(text::views(candidates@) =~= first);
    if is_absolute(program, platform) || has_char(program, '/') || has_char(program, '\\') {
        return Search { candidates, fixed: true };
    }
    let bare = is_bare(program, platform);
    let ghost all = text::views(dirs@);
    assert(first + on_path(all, 0, program@, platform) =~= first);
    let mut i: usize = 0;
    while i < dirs.len()
        invariant
            i <= dirs@.len(),
            all == text::views(dirs@),
            bare == self::bare(program@, platform),
            text::views(candidates@) == first + on_path(all, i as nat, program@, platform),
        decreases dirs@.len() - i,
    {
        let ghost before = on_path(all, i as nat, program@, platform);
        let ghost here = in_directory(all[i as int], program@, platform);
        assert(all[i as int] == dirs@[i as int]@);
        if !dirs[i].as_str().is_empty() {
            let plain = join_path(dirs[i].as_str(), program, platform);
            if bare {
                add_text(&mut candidates, cat(plain.as_str(), ".exe"));
                add_text(&mut candidates, cat(plain.as_str(), ".com"));
                add_text(&mut candidates, cat(plain.as_str(), ".cmd"));
                add_text(&mut candidates, cat(plain.as_str(), ".bat"));
            }
            add_text(&mut candidates, plain);
        }
        assert(text::views(candidates@) =~= first + (before + here));
        i += 1;
    }
    Search { candidates, fixed: false }
}

/// The first of the candidates that is a file.
pub open spec fn first_present(present: Seq<bool>) -> Option<int> {
    if exists|i: int| is_first_present(present, i) {
        Some(choose|i: int| is_first_present(present, i))
    } else {
        None
    }
}

/// Whether `at` is the first position that holds.
pub open spec fn is_first_present(present: Seq<bool>, at: int) -> bool {
    &&& 0 <= at < present.len()
    &&& present[at]
    &&& forall|k: int| 0 <= k < at ==> !present[k]
}

/// The file that a search found, or the report that it found none.
pub open spec fn resolution(
    program: Seq<char>,
    search: SearchView,
    present: Seq<bool>,
) -> Result<Seq<char>, Seq<char>> {
    match first_present(present) {
        Some(at) => Ok(search.candidates[at]),
        None => if search.fixed {
            Err("program not found: "@ + search.candidates[0])
        } else {
            Err("program not found on PATH: "@ + program)
        },
    }
}

/// The file that a search found, given which of its candidates are files.
pub fn resolve(program: &str, search: &Search, present: &Vec<bool>) -> (file: Result<String, String>)
    requires
        present@.len() == search.candidates@.len(),
        search.candidates@.len() > 0,
    ensures
        text::outcome(file) == resolution(program@, search@, present@),
{
    let mut i: usize = 0;
    while i < present.len()
        invariant
            i <= present@.len() == search.candidates@.len(),
            forall|k: int| 0 <= k < i ==> !present@[k],
        decreases present@.len() - i,
    {
        if present[i] {
            proof {
                assert(is_first_present(present@, i as int));
                let found = first_present(present@)->0;
                assert(is_first_present(present@, found));
                assert(found == i);
                assert(search@.candidates[i as int] == search.candidates@[i as int]@);
            }
            return Ok(search.candidates[i].clone());
        }
        i += 1;
    }
    assert forall|k: int| !is_first_present(present@, k) by {}
    assert(search@.candidates[0] == search.candidates@[0]@);
    if search.fixed {
        Err(cat("program not found: ", search.candidates[0].as_str()))
    } else {
        Err(cat("program not found on PATH: ", program))
    }
}

/// With what a program is started.
#[derive(Debug, PartialEq, Eq)]
pub struct Invocation {
    pub program: String,
    pub args: Vec<String>,
    /// The working directory.
    pub cwd: String,
    /// What the environment variables TADORU_TARGET, TADORU_DIR and
    /// TADORU_CONFIG are set to.
    pub environment: Context,
}

/// An invocation as mathematical values.
#[verifier::ext_equal]
pub struct InvocationView {
    pub program: Seq<char>,
    pub args: Seq<Seq<char>>,
    pub cwd: Seq<char>,
    pub environment: template::ContextView,
}

impl View for Invocation {
    type V = InvocationView;

    open spec fn view(&self) -> InvocationView {
        InvocationView {
            program: self.program@,
            args: text::views(self.args@),
            cwd: self.cwd@,
            environment: self.environment@,
        }
    }
}

/// Whether the last name of a path, without its extension, is the given word
/// in any case.
pub open spec fn stem_is(path: Seq<char>, word: Seq<char>, platform: Platform) -> bool {
    match paths::name_of(path, platform) {
        Some(name) => text::ascii_lower(paths::stem_of(name)) == text::ascii_lower(word),
        None => false,
    }
}

/// Whether a program is PowerShell.
pub open spec fn powershell(program: Seq<char>, platform: Platform) -> bool {
    stem_is(program, "pwsh"@, platform) || stem_is(program, "powershell"@, platform)
}

/// Whether a program is a PowerShell script, which PowerShell has to run.
pub open spec fn script(program: Seq<char>, platform: Platform) -> bool {
    match paths::name_of(program, platform) {
        Some(name) => match paths::extension_of(name) {
            Some(ext) => text::ascii_lower(ext) == text::ascii_lower("ps1"@),
            None => false,
        },
        None => false,
    }
}

/// Whether a program is PowerShell.
fn is_powershell(program: &str, platform: Platform) -> (yes: bool)
    ensures
        yes == powershell(program@, platform),
{
    match paths::file_name(program, platform) {
        Some(name) => {
            let stem = paths::file_stem(name.as_str());
            same_ignoring_case(stem.as_str(), "pwsh") || same_ignoring_case(
                stem.as_str(),
                "powershell",
            )
        },
        None => false,
    }
}

/// Whether a program is a PowerShell script, which PowerShell has to run.
pub fn is_script(program: &str, platform: Platform) -> (yes: bool)
    ensures
        yes == script(program@, platform),
{
    match paths::file_name(program, platform) {
        Some(name) => match paths::extension(name.as_str()) {
            Some(ext) => same_ignoring_case(ext.as_str(), "ps1"),
            None => false,
        },
        None => false,
    }
}

/// What one argument becomes. The argument that follows PowerShell's `-File`
/// is a script, which a relative path names from the configuration directory.
pub open spec fn argument(
    args: Seq<Seq<char>>,
    at: int,
    powershell: bool,
    context: template::ContextView,
    config_dir: Seq<char>,
    platform: Platform,
) -> Result<Seq<char>, Seq<char>> {
    match template::expanded(args[at], context) {
        Err(error) => Err(error),
        Ok(value) => if powershell && at > 0 && text::ascii_lower(args[at - 1])
            == text::ascii_lower("-file"@) && !paths::absolute(value, platform) {
            Ok(paths::joined_path(config_dir, value, platform))
        } else {
            Ok(value)
        },
    }
}

/// What the first `count` arguments become, behind those in `front`, or the
/// first error.
pub open spec fn arguments(
    front: Seq<Seq<char>>,
    args: Seq<Seq<char>>,
    count: nat,
    powershell: bool,
    context: template::ContextView,
    config_dir: Seq<char>,
    platform: Platform,
) -> Result<Seq<Seq<char>>, Seq<char>>
    decreases count,
{
    if count == 0 {
        Ok(front)
    } else {
        match arguments(
            front,
            args,
            (count - 1) as nat,
            powershell,
            context,
            config_dir,
            platform,
        ) {
            Err(error) => Err(error),
            Ok(before) => match argument(
                args,
                count - 1,
                powershell,
                context,
                config_dir,
                platform,
            ) {
                Err(error) => Err(error),
                Ok(value) => Ok(before.push(value)),
            },
        }
    }
}

/// With what a user's action is started on an item.
pub open spec fn preparation(
    definition: actions::DefinitionView,
    config_dir: Seq<char>,
    nature: Nature,
    context: template::ContextView,
    program: Result<Seq<char>, Seq<char>>,
    pwsh: Result<Seq<char>, Seq<char>>,
    platform: Platform,
) -> Result<InvocationView, Seq<char>> {
    if !definition.applies(nature) {
        Err("this action does not apply to the selected item"@)
    } else {
        match program {
            Err(error) => Err(error),
            Ok(found) => {
                let front = if script(found, platform) {
                    seq!["-NoProfile"@, "-File"@, found]
                } else {
                    Seq::empty()
                };
                let started = if script(found, platform) {
                    pwsh
                } else {
                    Ok(found)
                };
                let cwd = match definition.cwd {
                    Some(cwd) => cwd,
                    None => "{dir}"@,
                };
                match started {
                    Err(error) => Err(error),
                    Ok(started) => match arguments(
                        front,
                        definition.args,
                        definition.args.len(),
                        powershell(found, platform),
                        context,
                        config_dir,
                        platform,
                    ) {
                        Err(error) => Err(error),
                        Ok(args) => match template::expanded(cwd, context) {
                            Err(error) => Err(error),
                            Ok(cwd) => Ok(
                                InvocationView {
                                    program: started,
                                    args,
                                    cwd: if paths::absolute(cwd, platform) {
                                        cwd
                                    } else {
                                        paths::joined_path(config_dir, cwd, platform)
                                    },
                                    environment: context,
                                },
                            ),
                        },
                    },
                }
            },
        }
    }
}

fn prepare_arguments(
    front: Vec<String>,
    definition: &Definition,
    powershell: bool,
    context: &Context,
    config_dir: &str,
    platform: Platform,
) -> (out: Result<Vec<String>, String>)
    ensures
        match out {
            Ok(args) => arguments(
                text::views(front@),
                definition@.args,
                definition@.args.len(),
                powershell,
                context@,
                config_dir@,
                platform,
            ) == Ok::<Seq<Seq<char>>, Seq<char>>(text::views(args@)),
            Err(error) => arguments(
                text::views(front@),
                definition@.args,
                definition@.args.len(),
                powershell,
                context@,
                config_dir@,
                platform,
            ) == Err::<Seq<Seq<char>>, Seq<char>>(error@),
        },
{
    let ghost args = definition@.args;
    let ghost start = text::views(front@);
    let mut out = front;
    let mut i: usize = 0;
    while i < definition.args.len()
        invariant
            i <= definition.args@.len(),
            args == definition@.args,
            start == text::views(front@),
            arguments(
                start,
                args,
                i as nat,
                powershell,
                context@,
                config_dir@,
                platform,
            ) == Ok::<Seq<Seq<char>>, Seq<char>>(text::views(out@)),
        decreases definition.args@.len() - i,
    {
        assert(args[i as int] == definition.args@[i as int]@);
        let value = match expand(definition.args[i].as_str(), context) {
            Ok(value) => value,
            Err(error) => {
                proof {
                    lemma_argument_error(
                        start,
                        args,
                        (i + 1) as nat,
                        args.len(),
                        powershell,
                        context@,
                        config_dir@,
                        platform,
                    );
                }
                return Err(error);
            },
        };
        let names_script = powershell && i > 0 && same_ignoring_case(
            definition.args[i - 1].as_str(),
            "-file",
        );
        assert(i > 0 ==> args[i - 1] == definition.args@[i - 1]@);
        let value = if names_script && !is_absolute(value.as_str(), platform) {
            join_path(config_dir, value.as_str(), platform)
        } else {
            value
        };
        add_text(&mut out, value);
        i += 1;
    }
    Ok(out)
}

proof fn lemma_argument_error(
    front: Seq<Seq<char>>,
    args: Seq<Seq<char>>,
    count: nat,
    more: nat,
    powershell: bool,
    context: template::ContextView,
    config_dir: Seq<char>,
    platform: Platform,
)
    requires
        count <= more,
        arguments(front, args, count, powershell, context, config_dir, platform) is Err,
    ensures
        arguments(front, args, more, powershell, context, config_dir, platform) == arguments(
            front,
            args,
            count,
            powershell,
            context,
            config_dir,
            platform,
        ),
    decreases more,
{
    if count < more {
        lemma_argument_error(
            front,
            args,
            count,
            (more - 1) as nat,
            powershell,
            context,
            config_dir,
            platform,
        );
    }
}

impl Action {
    /// With what the action is started on an item: `context` describes the
    /// item, `program` and `pwsh` are where the action's program and
    /// PowerShell were found. Only the user's own actions are started so.
    pub fn prepare(
        &self,
        nature: Nature,
        context: Result<Context, String>,
        program: Result<String, String>,
        pwsh: Result<String, String>,
        platform: Platform,
    ) -> (made: Result<Invocation, String>)
        ensures
            text::outcome(made) == match self@ {
                actions::ActionView::Custom { definition, config_dir } => match text::outcome(
                    context,
                ) {
                    Err(error) => Err(error),
                    Ok(context) => preparation(
                        definition,
                        config_dir,
                        nature,
                        context,
                        text::outcome(program),
                        text::outcome(pwsh),
                        platform,
                    ),
                },
                _ => Err("not a custom action"@),
            },
    {
        let (definition, config_dir) = match self {
            Action::Custom { definition, config_dir } => (definition, config_dir),
            _ => {
                return Err("not a custom action".to_owned());
            },
        };
        let context = match context {
            Ok(context) => context,
            Err(error) => {
                return Err(error);
            },
        };
        if !definition.matches(nature) {
            return Err("this action does not apply to the selected item".to_owned());
        }
        let program = match program {
            Ok(program) => program,
            Err(error) => {
                return Err(error);
            },
        };
        let powershell = is_powershell(program.as_str(), platform);
        let mut front: Vec<String> = Vec::new();
        let started = if is_script(program.as_str(), platform) {
            match pwsh {
                Ok(pwsh) => {
                    add_text(&mut front, "-NoProfile".to_owned());
                    add_text(&mut front, "-File".to_owned());
                    add_text(&mut front, program.clone());
                    pwsh
                },
                Err(error) => {
                    return Err(error);
                },
            }
        } else {
            program.clone()
        };
        assert(text::views(front@) =~= if script(program@, platform) {
            seq!["-NoProfile"@, "-File"@, program@]
        } else {
            Seq::empty()
        });
        let args = match prepare_arguments(
            front,
            definition,
            powershell,
            &context,
            config_dir.as_str(),
            platform,
        ) {
            Ok(args) => args,
            Err(error) => {
                return Err(error);
            },
        };
        let written = match &definition.cwd {
            Some(cwd) => cwd.clone(),
            None => "{dir}".to_owned(),
        };
        let cwd = match expand(written.as_str(), &context) {
            Ok(cwd) => cwd,
            Err(error) => {
                return Err(error);
            },
        };
        let cwd = if is_absolute(cwd.as_str(), platform) {
            cwd
        } else {
            join_path(config_dir.as_str(), cwd.as_str(), platform)
        };
        Ok(Invocation { program: started, args, cwd, environment: context })
    }
}

/// An invocation whose working directory exists.
pub open spec fn placed(invocation: InvocationView, is_dir: bool) -> Result<
    InvocationView,
    Seq<char>,
> {
    if is_dir {
        Ok(invocation)
    } else {
        Err("working directory does not exist: "@ + invocation.cwd)
    }
}

/// An invocation whose working directory exists, or the report that it does
/// not.
pub fn in_working_directory(invocation: Invocation, is_dir: bool) -> (checked: Result<
    Invocation,
    String,
>)
    ensures
        text::outcome(checked) == placed(invocation@, is_dir),
{
    if is_dir {
        Ok(invocation)
    } else {
        Err(cat("working directory does not exist: ", invocation.cwd.as_str()))
    }
}

/// What an action that leaves the terminal to the picker comes down to.
#[derive(Clone, Copy, Debug, PartialEq, Eq, Structural)]
pub enum Errand {
    /// Show the item in the file manager.
    Reveal,
    /// Open the file with its application.
    Launch,
    /// Copy the file and open the copy.
    LaunchCopy,
    /// Show the folder of the copies in the file manager.
    RevealCopies,
    /// Put the path on the clipboard.
    CopyPath,
    /// Start the editor on the item.
    Edit,
    /// Start what the user defined.
    Start,
}

/// How an action is run.
#[derive(Clone, Copy, Debug, PartialEq, Eq, Structural)]
pub enum Execution {
    /// With the terminal to itself, which the picker takes back afterwards.
    Terminal,
    /// Beside the picker.
    Detached(Errand),
}

impl actions::ActionView {
    /// What an action comes down to when it is run on its own.
    pub open spec fn errand(self) -> Errand {
        match self {
            actions::ActionView::Reveal => Errand::Reveal,
            actions::ActionView::Open => Errand::Launch,
            actions::ActionView::TempCopy => Errand::LaunchCopy,
            actions::ActionView::TempFolder => Errand::RevealCopies,
            actions::ActionView::Copy => Errand::CopyPath,
            actions::ActionView::Editor => Errand::Edit,
            actions::ActionView::Custom { .. } => Errand::Start,
        }
    }

    /// How an action is run.
    pub open spec fn execution(self) -> Execution {
        match self.run() {
            RunMode::Terminal => Execution::Terminal,
            RunMode::Detach => Execution::Detached(self.errand()),
        }
    }
}

/// What showing an item comes down to.
pub open spec fn shown_by(is_dir: bool) -> Errand {
    if is_dir {
        Errand::Reveal
    } else {
        Errand::Launch
    }
}

impl Action {
    /// What the action comes down to when it is run on its own.
    pub fn execute_detached(&self) -> (errand: Errand)
        ensures
            errand == self@.errand(),
    {
        match self {
            Action::Reveal => Errand::Reveal,
            Action::Open => Errand::Launch,
            Action::TempCopy => Errand::LaunchCopy,
            Action::TempFolder => Errand::RevealCopies,
            Action::Copy => Errand::CopyPath,
            Action::Editor => Errand::Edit,
            Action::Custom { .. } => Errand::Start,
        }
    }

    /// How the action is run.
    pub fn execution(&self) -> (execution: Execution)
        ensures
            execution == self@.execution(),
    {
        match self.run_mode() {
            RunMode::Terminal => Execution::Terminal,
            RunMode::Detach => Execution::Detached(self.execute_detached()),
        }
    }
}

/// What showing an item comes down to: a directory is shown in the file
/// manager, a file is opened.
pub fn showing(is_dir: bool) -> (errand: Errand)
    ensures
        errand == shown_by(is_dir),
{
    if is_dir {
        Errand::Reveal
    } else {
        Errand::Launch
    }
}

/// A program to run with its arguments.
#[derive(Debug, PartialEq, Eq)]
pub struct Order {
    pub program: String,
    pub args: Vec<String>,
}

/// A program to run with its arguments, as mathematical values.
#[verifier::ext_equal]
pub struct OrderView {
    pub program: Seq<char>,
    pub args: Seq<Seq<char>>,
}

impl View for Order {
    type V = OrderView;

    open spec fn view(&self) -> OrderView {
        OrderView { program: self.program@, args: text::views(self.args@) }
    }
}

/// An order with no argument.
pub fn order(program: &str) -> (order: Order)
    ensures
        order@ == (OrderView { program: program@, args: Seq::empty() }),
{
    let args: Vec<String> = Vec::new();
    assert(text::views(args@) =~= Seq::empty());
    Order { program: program.to_owned(), args }
}

/// The order with one argument more.
pub fn with_argument(order: Order, arg: &str) -> (longer: Order)
    ensures
        longer@ == (OrderView { program: order@.program, args: order@.args.push(arg@) }),
{
    let mut args = order.args;
    add_text(&mut args, arg.to_owned());
    Order { program: order.program, args }
}

/// What puts text on the clipboard. On Windows it is told the text through
/// TADORU_TARGET, elsewhere it reads the text from its input.
pub open spec fn clipboard(platform: Platform, wayland: bool) -> OrderView {
    match platform {
        Platform::Windows => OrderView {
            program: "powershell"@,
            args: seq![
                "-NoProfile"@,
                "-NonInteractive"@,
                "-Command"@,
                "$ErrorActionPreference = 'Stop'; Set-Clipboard -Value $env:TADORU_TARGET"@,
            ],
        },
        Platform::MacOs => OrderView { program: "pbcopy"@, args: Seq::empty() },
        Platform::Linux => if wayland {
            OrderView { program: "wl-copy"@, args: Seq::empty() }
        } else {
            OrderView { program: "xclip"@, args: seq!["-selection"@, "clipboard"@] }
        },
    }
}

/// What puts text on the clipboard.
pub fn clipboard_command(platform: Platform, wayland: bool) -> (out: Order)
    ensures
        out@ == clipboard(platform, wayland),
{
    let out = match platform {
        Platform::Windows => {
            let out = with_argument(order("powershell"), "-NoProfile");
            let out = with_argument(out, "-NonInteractive");
            let out = with_argument(out, "-Command");
            with_argument(
                out,
                "$ErrorActionPreference = 'Stop'; Set-Clipboard -Value $env:TADORU_TARGET",
            )
        },
        Platform::MacOs => order("pbcopy"),
        Platform::Linux => if wayland {
            order("wl-copy")
        } else {
            with_argument(with_argument(order("xclip"), "-selection"), "clipboard")
        },
    };
    assert(out@ =~= clipboard(platform, wayland));
    out
}

/// Why copying failed, if it did.
pub open spec fn copy_fault(
    platform: Platform,
    program: Seq<char>,
    failure: Option<Seq<char>>,
) -> Option<Seq<char>> {
    match failure {
        None => None,
        Some(report) => Some(
            if platform is Windows {
                report
            } else {
                program + ": "@ + report
            },
        ),
    }
}

/// How copying ended: with success, or with the program's report, which
/// follows its name except on Windows.
pub fn clipboard_result(platform: Platform, program: &str, failure: Option<&str>) -> (result:
    Result<(), String>)
    ensures
        match result {
            Ok(_) => failure is None,
            Err(error) => failure is Some && copy_fault(platform, program@, Some(failure->0@))
                == Some(error@),
        },
{
    match failure {
        None => Ok(()),
        Some(report) => match platform {
            Platform::Windows => Err(report.to_owned()),
            _ => Err(cat3(program, ": ", report)),
        },
    }
}

/// Each argument of an action becomes one argument of its program, in the same
/// place, whatever it is expanded to.
pub proof fn arguments_stay_apart(
    front: Seq<Seq<char>>,
    args: Seq<Seq<char>>,
    count: nat,
    powershell: bool,
    context: template::ContextView,
    config_dir: Seq<char>,
    platform: Platform,
    at: int,
)
    requires
        arguments(front, args, count, powershell, context, config_dir, platform) is Ok,
        0 <= at < count,
    ensures
        ({
            let out = arguments(front, args, count, powershell, context, config_dir, platform)->Ok_0;
            &&& out.len() == front.len() + count
            &&& argument(args, at, powershell, context, config_dir, platform) == Ok::<
                Seq<char>,
                Seq<char>,
            >(out[front.len() + at])
        }),
    decreases count,
{
    if at < count - 1 {
        arguments_stay_apart(
            front,
            args,
            (count - 1) as nat,
            powershell,
            context,
            config_dir,
            platform,
            at,
        );
    } else if count > 1 {
        arguments_stay_apart(
            front,
            args,
            (count - 1) as nat,
            powershell,
            context,
            config_dir,
            platform,
            0,
        );
    }
}

proof fn lemma_arguments_expand(
    front: Seq<Seq<char>>,
    args: Seq<Seq<char>>,
    count: nat,
    powershell: bool,
    context: template::ContextView,
    config_dir: Seq<char>,
    platform: Platform,
)
    requires
        count <= args.len(),
        forall|k: int| 0 <= k < args.len() ==> template::expanded(#[trigger] args[k], context) is Ok,
    ensures
        arguments(front, args, count, powershell, context, config_dir, platform) is Ok,
    decreases count,
{
    if count > 0 {
        lemma_arguments_expand(
            front,
            args,
            (count - 1) as nat,
            powershell,
            context,
            config_dir,
            platform,
        );
        assert(template::expanded(args[count - 1], context) is Ok);
    }
}

/// An action of a file that passes can be started on every item it is for, as
/// long as its program is found.
pub proof fn actions_of_a_valid_file_can_be_started(
    list: Seq<actions::DefinitionView>,
    i: int,
    config_dir: Seq<char>,
    nature: Nature,
    context: template::ContextView,
    program: Seq<char>,
    pwsh: Seq<char>,
    platform: Platform,
)
    requires
        validate::file_error(1, list) is None,
        0 <= i < list.len(),
        list[i].applies(nature),
    ensures
        preparation(
            list[i],
            config_dir,
            nature,
            context,
            Ok(program),
            Ok(pwsh),
            platform,
        ) is Ok,
{
    let definition = list[i];
    let values = validate::values_of(definition);
    assert forall|k: int| 0 <= k < definition.args.len() implies template::expanded(
        #[trigger] definition.args[k],
        context,
    ) is Ok by {
        assert(values[k] == definition.args[k]);
        validate::templates_of_a_valid_file_always_expand(list, i, k, context);
    }
    let front = if script(program, platform) {
        seq!["-NoProfile"@, "-File"@, program]
    } else {
        Seq::empty()
    };
    lemma_arguments_expand(
        front,
        definition.args,
        definition.args.len(),
        powershell(program, platform),
        context,
        config_dir,
        platform,
    );
    match definition.cwd {
        Some(cwd) => {
            assert(values[definition.args.len() as int] == cwd);
            validate::templates_of_a_valid_file_always_expand(
                list,
                i,
                definition.args.len() as int,
                context,
            );
        },
        None => {
            reveal_strlit("{dir}");
            reveal_strlit("dir");
            template::placeholder_is_replaced_in_a_single_pass(
                Seq::empty(),
                "dir"@,
                Seq::empty(),
                context,
            );
            assert(template::escaped(Seq::<char>::empty()) =~= Seq::<char>::empty());
            assert(Seq::<char>::empty() + (seq!['{'] + "dir"@ + seq!['}']) + Seq::<char>::empty()
                =~= "{dir}"@);
        },
    }
}

/// An action that asks for the terminal gets it; any other runs beside the
/// picker. The built-in ones never take the terminal. Showing an item reveals
/// a directory and opens a file.
pub proof fn how_actions_are_run(action: actions::ActionView)
    ensures
        action.run() is Terminal ==> action.execution() is Terminal,
        action.run() is Detach ==> action.execution() == Execution::Detached(action.errand()),
        !(action is Custom) ==> action.execution() is Detached,
        shown_by(true) == Errand::Reveal,
        shown_by(false) == Errand::Launch,
{
}

/// An action is started as it was prepared where its working directory exists,
/// and not at all where it does not.
pub proof fn nothing_is_started_in_a_missing_directory(invocation: InvocationView)
    ensures
        placed(invocation, true) == Ok::<InvocationView, Seq<char>>(invocation),
        placed(invocation, false) is Err,
        placed(invocation, false)->Err_0 == "working directory does not exist: "@ + invocation.cwd,
{
}

/// A failed copy to the clipboard is told by the report of its program, with
/// the program's name before it except on Windows.
pub proof fn a_failed_copy_is_told(platform: Platform, program: Seq<char>, report: Seq<char>)
    ensures
        copy_fault(platform, program, None) is None,
        platform is Windows ==> copy_fault(platform, program, Some(report)) == Some(report),
        !(platform is Windows) ==> copy_fault(platform, program, Some(report)) == Some(
            program + ": "@ + report,
        ),
{
}

} // verus!
