use std::path::Path;
use tadoru::actions;
use tadoru::actions::{
    check, config_path, defaults, load, parse_key, read, test_definition, Action, Definition, File,
    Nature, RunMode, Target,
};
use tadoru::cli::{
    check_root, exit_code, init_plan, initial_query, pick_outcome, InitPlan, Mode, Outcome, Shell,
};
use tadoru::config;
use tadoru::config::{beside_settings, not_created, portable_config, portable_directory, Config, Found};
use tadoru::copies::{
    copies_enabled, copies_folder, copy_bounded, copy_directory, copy_failed, copy_limit,
    copy_verdict, temporary_copy, written, Attempt, Budget, Copying, Keeping, Making, Original,
};
use tadoru::favorites;
use tadoru::favorites::{display_key, same_path, update, Index};
use tadoru::invoke::{
    clipboard_command, clipboard_result, in_working_directory, resolve, search, showing, Errand,
    Execution, Invocation,
};
use tadoru::open::{launch, reveal_command};
use tadoru::paths::{strip_verbatim, Location, Platform};
use tadoru::replies::{opening, Opening};
use tadoru::scan::{
    check_drive_type, check_scan_root, recent, saved_entry, scan_drive, to_entry, walks, Entry,
    History, Resolved,
};
use tadoru::session::scan_error;
use tadoru::setup::{
    apply, confirmed, detect, extract, held, may_ask, plan_for, startup, Plan, BEGIN, END,
};
use tadoru::template::{expand, Context};
use tadoru::validate::validate;

const HERE: Platform = Platform::Linux;
const FILE: Nature = Nature {
    is_file: true,
    is_dir: false,
};
const FOLDER: Nature = Nature {
    is_file: false,
    is_dir: true,
};

fn at(path: &str) -> Location {
    place("/", path)
}

fn place(anchor: &str, path: &str) -> Location {
    Location {
        anchor: anchor.to_string(),
        parts: path
            .split(['/', '\\'])
            .filter(|part| !part.is_empty())
            .map(|part| part.to_string())
            .collect(),
    }
}

fn texts(list: &[&str]) -> Vec<String> {
    list.iter().map(|text| text.to_string()).collect()
}

fn shown(place: &Location) -> String {
    place.display(HERE)
}

/// Reads an action file as its format says, in which unknown fields and words
/// are errors, and has the library judge what it says.
fn parse(text: &str) -> Result<File, String> {
    let value: serde_json::Value = serde_json::from_str(text).map_err(|error| error.to_string())?;
    let fields = value.as_object().ok_or("not an object")?;
    for name in fields.keys() {
        if !["version", "include_defaults", "actions"].contains(&name.as_str()) {
            return Err(format!("unknown field {name}"));
        }
    }
    let list = fields.get("actions").and_then(|list| list.as_array());
    let mut made = Vec::new();
    for value in list.ok_or("no actions")? {
        made.push(definition(value)?);
    }
    let file = File {
        version: fields
            .get("version")
            .and_then(|version| version.as_u64())
            .ok_or("no version")? as u32,
        include_defaults: fields
            .get("include_defaults")
            .and_then(|value| value.as_bool())
            .unwrap_or(true),
        actions: made,
    };
    validate(&file)?;
    Ok(file)
}

fn definition(value: &serde_json::Value) -> Result<Definition, String> {
    let fields = value.as_object().ok_or("not an object")?;
    let word = |name: &str| fields.get(name).and_then(|value| value.as_str());
    let list = fields.get("args").and_then(|list| list.as_array());
    let args = match list {
        Some(list) => list
            .iter()
            .map(|arg| arg.as_str().unwrap_or_default().to_string())
            .collect(),
        None => Vec::new(),
    };
    Ok(Definition {
        name: word("name").ok_or("no name")?.to_string(),
        program: word("program").ok_or("no program")?.to_string(),
        args,
        target: match word("target") {
            None | Some("any") => Target::Any,
            Some("file") => Target::File,
            Some("directory") => Target::Directory,
            Some(other) => return Err(format!("unknown variant {other}")),
        },
        run: match word("run") {
            None | Some("terminal") => RunMode::Terminal,
            Some("detach") => RunMode::Detach,
            Some(other) => return Err(format!("unknown variant {other}")),
        },
        cwd: word("cwd").map(str::to_string),
        key: word("key").map(str::to_string),
    })
}

#[test]
fn validates_version_fields_and_templates_without_executing_commands() {
    assert!(parse(actions::TEMPLATE).is_ok());
    for text in [
        r#"{"version":2,"actions":[]}"#,
        r#"{"version":1,"action":[]}"#,
        r#"{"version":1,"actions":[{"name":"a","program":"tool","run":"oops"}]}"#,
        r#"{"version":1,"actions":[{"name":"a","program":"tool","args":["{unknown}"]}]}"#,
        r#"{"version":1,"actions":[{"name":"a","program":"cmd.exe","args":["/c","echo {path}"]}]}"#,
    ] {
        assert!(parse(text).is_err(), "{text}");
    }
}

#[test]
fn each_mistake_in_an_action_file_has_its_message() {
    let broken = |change: &dyn Fn(&mut Definition)| {
        let mut one = test_definition("a", None);
        change(&mut one);
        let file = File {
            version: 1,
            include_defaults: true,
            actions: vec![one],
        };
        validate(&file).unwrap_err()
    };
    let version = File {
        version: 7,
        include_defaults: true,
        actions: Vec::new(),
    };
    assert_eq!(
        validate(&version).unwrap_err(),
        "unsupported actions version: 7"
    );
    for name in [" ", "two\nlines"] {
        assert_eq!(
            broken(&|one| one.name = name.to_string()),
            "action name must be nonempty and on one line"
        );
    }
    assert_eq!(
        broken(&|one| one.program = " ".to_string()),
        "a: program is empty or invalid"
    );
    assert_eq!(
        broken(&|one| one.program = "x/{dir}".to_string()),
        "a: program must be a fixed executable or script path"
    );
    assert_eq!(
        broken(&|one| one.args = texts(&["\0"])),
        "a: NUL is not allowed"
    );
    assert_eq!(
        broken(&|one| one.cwd = Some("{".to_string())),
        "a: unclosed placeholder"
    );
    assert_eq!(
        broken(&|one| one.args = texts(&["{who}"])),
        "a: unknown placeholder {who}"
    );
    assert_eq!(
        broken(&|one| {
            one.program = r"C:\tools\PWSH.EXE".to_string();
            one.args = texts(&["-Command", "ls {dir}"]);
        }),
        "a: use a script file or TADORU_TARGET instead of substituting paths into shell code"
    );
}

#[test]
fn expansion_is_single_pass_and_preserves_argument_boundaries() {
    let context = Context {
        path: "日本語 {dir} & % ! $() space".to_string(),
        dir: "/parent".to_string(),
        config: "/config".to_string(),
    };
    assert_eq!(
        expand("--target={path}", &context).unwrap(),
        "--target=日本語 {dir} & % ! $() space"
    );
    assert_eq!(
        expand("{{literal}} {dir}", &context).unwrap(),
        "{literal} /parent"
    );
    assert_eq!(expand("{config}/x}", &context).unwrap(), "/config/x}");
    assert_eq!(expand("{dir}}}}", &context).unwrap(), "/parent}}");
    assert_eq!(expand("{path", &context).unwrap_err(), "unclosed placeholder");
    assert_eq!(
        expand("{home}", &context).unwrap_err(),
        "unknown placeholder {home}"
    );
}

#[test]
fn a_key_must_be_one_character_and_may_not_repeat() {
    let one = |key: &str| {
        format!(r#"{{"version":1,"actions":[{{"name":"a","program":"p","key":"{key}"}}]}}"#)
    };
    assert_eq!(parse_key("g"), Some('g'));
    assert_eq!(parse_key("G"), Some('g'));
    assert_eq!(parse_key("7"), Some('7'));
    // Silently ignoring these would leave a key that never fires.
    for bad in ["", "gg", "alt+g", "/", " "] {
        assert_eq!(parse_key(bad), None, "{bad:?}");
        assert!(
            parse(&one(bad)).err().unwrap().contains("one letter"),
            "{bad:?}"
        );
    }
    assert!(parse(&one("g")).is_ok());
    let twice = r#"{"version":1,"actions":[
            {"name":"a","program":"p","key":"g"},
            {"name":"b","program":"p","key":"G"}]}"#;
    assert!(parse(twice).err().unwrap().contains("already used"));
}

#[test]
fn target_filtering_and_config_errors_do_not_run_anything() {
    let text = r#"{"version":1,"include_defaults":false,"actions":[{"name":"folders","program":"missing","target":"directory"},{"name":"files","program":"missing","target":"file"}]}"#;
    let found = Found::Read(parse(text).unwrap());
    let file = "/config/actions.json";
    assert_eq!(
        read(&found, file, "/config", FILE).unwrap()[0].name(),
        "files"
    );
    assert_eq!(
        read(&found, file, "/config", FOLDER).unwrap()[0].name(),
        "folders"
    );
    let error = parse("invalid json").err().unwrap();
    let found: Found<File> = Found::Invalid(error);
    assert!(read(&found, file, "/config", FILE)
        .err()
        .unwrap()
        .contains("actions.json"));
    // The menu falls back on the actions it always has, and says why.
    let (menu, warning) = load(&found, file, "/config", FILE);
    assert_eq!(menu.len(), defaults(FILE).len());
    assert!(warning.unwrap().contains("actions.json"));
}

#[test]
fn an_action_file_that_is_not_there_leaves_the_defaults() {
    let names = |menu: Vec<Action>| -> Vec<String> {
        menu.iter().map(|action| action.name().to_string()).collect()
    };
    let folder = [
        "Open in file manager",
        "Open in VS Code",
        "Copy path",
        "Open temporary copies folder",
    ];
    let missing: Found<File> = Found::Missing;
    let menu = read(&missing, "/c/actions.json", "/c", FOLDER).unwrap();
    assert_eq!(names(menu), folder);
    let (menu, warning) = load(&Found::Nowhere, "", "", FOLDER);
    assert_eq!(names(menu), folder);
    assert_eq!(
        warning.unwrap(),
        "cannot locate the user configuration directory"
    );
    let unreadable: Found<File> = Found::Unreadable("denied".to_string());
    assert_eq!(
        read(&unreadable, "/c/actions.json", "/c", FILE).unwrap_err(),
        "/c/actions.json: denied"
    );
    let keys: Vec<Option<char>> = defaults(FILE).iter().map(|action| action.key()).collect();
    assert_eq!(
        keys,
        [Some('f'), Some('v'), Some('c'), Some('d'), Some('o'), Some('t')]
    );
    let good = parse(actions::TEMPLATE).unwrap();
    assert_eq!(check(&Ok(good), "/c/actions.json"), Ok(()));
    assert_eq!(
        check(&Err("gone".to_string()), "/c/actions.json").unwrap_err(),
        "/c/actions.json: gone"
    );
    assert_eq!(
        shown(&config_path(Some(at("/c/config.toml"))).unwrap()),
        "/c/actions.json"
    );
    assert!(config_path(None).is_err());
}

#[test]
fn temporary_folder_is_shared_and_preserves_existing_copies() {
    assert_eq!(shown(&copies_folder(&at("/tmp"))), "/tmp/tadoru-copies");
    assert!(defaults(FOLDER)
        .iter()
        .any(|action| matches!(action, Action::TempFolder)));
}

#[test]
fn temporary_copy_limit_rejects_before_creating_files_and_accepts_boundary() {
    let original = || {
        Ok(Original {
            is_file: true,
            length: 5,
            name: Some("large.bin".to_string()),
        })
    };
    assert!(temporary_copy(4, original()).unwrap_err().contains("exceeds"));
    assert!(temporary_copy(0, original()).unwrap_err().contains("disabled"));
    assert!(copies_enabled(0).unwrap_err().contains("disabled"));
    assert_eq!(temporary_copy(5, original()).unwrap(), "TEMP_large.bin");
    assert_eq!(
        temporary_copy(4, original()).unwrap_err(),
        "Temporary copy blocked: 5 bytes exceeds the 4 byte limit (temp_copy_max_mib)"
    );
    let nameless = Original {
        is_file: true,
        length: 0,
        name: None,
    };
    assert_eq!(temporary_copy(5, Ok(nameless)).unwrap_err(), "Missing filename");
    assert_eq!(
        temporary_copy(5, Err("denied".to_string())).unwrap_err(),
        "denied"
    );
}

#[test]
fn bounded_copy_never_writes_beyond_limit_even_if_source_is_larger() {
    let mut output = Vec::new();
    assert!(copy_bounded(&b"123456".to_vec(), &mut output, 5).is_err());
    assert_eq!(output, b"12345");
    output.clear();
    copy_bounded(&b"12345".to_vec(), &mut output, 5).unwrap();
    assert_eq!(output, b"12345");
}

#[test]
fn a_copy_takes_the_first_directory_that_is_new() {
    let mut copying = Copying {
        folder: at("/tmp/tadoru-copies"),
        name: "TEMP_a".to_string(),
        process: 7,
        stamp: 8,
        serial: u64::MAX - 1,
    };
    let last = format!("/tmp/tadoru-copies/tadoru-copy-7-8-{}", u64::MAX);
    assert_eq!(copying.tried(Making::Taken), Attempt::Again);
    assert_eq!(shown(&copying.directory()), last);
    assert_eq!(copying.tried(Making::Taken), Attempt::Again);
    assert_eq!(
        shown(&copying.directory()),
        "/tmp/tadoru-copies/tadoru-copy-7-8-0"
    );
    assert_eq!(copying.tried(Making::Fresh), Attempt::Fill);
    assert_eq!(
        shown(&copying.copy()),
        "/tmp/tadoru-copies/tadoru-copy-7-8-0/TEMP_a"
    );
    assert_eq!(copying.next_serial(), 1);
    assert_eq!(
        copying.tried(Making::Failed("denied".to_string())),
        Attempt::GiveUp("denied".to_string())
    );
    assert_eq!(written(Ok(())), Keeping::Keep);
    assert_eq!(
        written(Err("disk full".to_string())),
        Keeping::Remove("Cannot create temporary copy: disk full".to_string())
    );
}

#[test]
fn temporary_copies_are_unique_and_do_not_modify_the_original() {
    assert_ne!(copy_directory(10, 20, 0), copy_directory(10, 20, 1));
    assert_eq!(copy_directory(10, 20, 1), "tadoru-copy-10-20-1");
    assert_ne!(copy_directory(1, 23, 4), copy_directory(12, 3, 4));
    assert_ne!(copy_directory(1, 2, 34), copy_directory(1, 23, 4));
    let original = Original {
        is_file: true,
        length: 17,
        name: Some("原本 file.xlsx".to_string()),
    };
    assert_eq!(temporary_copy(100, Ok(original)).unwrap(), "TEMP_原本 file.xlsx");
    let folder = Original {
        is_file: false,
        length: 17,
        name: Some("folder".to_string()),
    };
    assert_eq!(
        temporary_copy(100, Ok(folder)).unwrap_err(),
        "Temporary copy is available for files only"
    );
    assert!(defaults(FILE)
        .iter()
        .any(|action| matches!(action, Action::TempCopy)));
    assert!(!defaults(FOLDER)
        .iter()
        .any(|action| matches!(action, Action::TempCopy)));
}

#[test]
fn a_copy_takes_no_more_than_its_budget() {
    let mut budget = Budget::new(10);
    assert_eq!(budget.want(4), 4);
    budget.spend(4);
    assert_eq!(budget.want(100), 6);
    budget.spend(6);
    assert_eq!(budget.want(100), 0);
    assert_eq!(copy_verdict(false), Ok(()));
    assert_eq!(
        copy_verdict(true).unwrap_err(),
        "Temporary copy exceeded its size limit; copy cancelled"
    );
    assert_eq!(copy_failed("disk full"), "Cannot create temporary copy: disk full");
    assert_eq!(copy_limit(100), Ok(104_857_600));
    assert_eq!(
        copy_limit(u64::MAX).unwrap_err(),
        "temp_copy_max_mib is too large"
    );
}

/// Reads the settings that a text spells out, over the defaults.
fn settings(text: &str) -> Config {
    let table: toml::Table = text.parse().expect("the text must parse");
    let mut config = Config::default();
    for (name, value) in table {
        match name.as_str() {
            "icons" => config.icons = value.as_bool().unwrap(),
            "mouse" => config.mouse = value.as_bool().unwrap(),
            "temp_copy_max_mib" => config.temp_copy_max_mib = value.as_integer().unwrap() as u64,
            "exclude" | "exclude_roots" => {
                let list: Vec<String> = value
                    .as_array()
                    .unwrap()
                    .iter()
                    .map(|text| text.as_str().unwrap().to_string())
                    .collect();
                if name == "exclude" {
                    config.exclude = list;
                } else {
                    config.exclude_roots = list;
                }
            }
            other => panic!("unknown setting {other}"),
        }
    }
    config
}

#[test]
fn the_written_file_parses_and_matches_the_defaults() {
    let written = settings(config::TEMPLATE);
    let default = Config::default();
    assert_eq!(written.icons, default.icons);
    assert_eq!(written.mouse, default.mouse);
    assert_eq!(written.temp_copy_max_mib, default.temp_copy_max_mib);
    assert_eq!(written.exclude, default.exclude);
    assert_eq!(written.exclude_roots, default.exclude_roots);
}

#[test]
fn init_writes_once_and_refuses_to_overwrite() {
    // The settings go into the directory that the environment names.
    let file = Config::path(Some(Some(at("/tmp/cfg"))), None, Some(at("/home/me/.config")));
    assert_eq!(shown(&file.unwrap()), "/tmp/cfg/config.toml");
    let error = not_created("/tmp/cfg/config.toml", "File exists");
    assert!(error.contains("never overwritten"), "{error}");
}

#[test]
fn portable_directory_enables_configuration_even_before_files_exist() {
    let exe = at("/tmp/portable/tadoru.exe");
    assert_eq!(
        shown(&portable_directory(&exe).unwrap()),
        "/tmp/portable/config"
    );
    assert!(portable_config(&exe, false).is_none());
    assert_eq!(
        shown(&portable_config(&exe, true).unwrap()),
        "/tmp/portable/config/config.toml"
    );
}

#[test]
fn existing_configs_keep_icons_disabled() {
    let config = settings("exclude = ['.git']");
    assert!(!config.icons);
    assert_eq!(config.temp_copy_max_mib, 100);
    let config = settings("icons = true");
    assert!(config.icons);
    assert_eq!(config.exclude, Config::default().exclude);
}

#[test]
fn settings_are_looked_for_in_order() {
    let user = || Some(at("/home/me/.config"));
    let portable = || Some(at("/opt/tadoru/config/config.toml"));
    let path = |named, portable, user| Config::path(named, portable, user).map(|file| shown(&file));
    assert_eq!(
        path(None, portable(), user()).unwrap(),
        "/opt/tadoru/config/config.toml"
    );
    assert_eq!(
        path(None, None, user()).unwrap(),
        "/home/me/.config/tadoru/config.toml"
    );
    assert_eq!(path(None, None, None), None);
    assert_eq!(path(Some(None), portable(), user()), None);
    assert_eq!(
        shown(&beside_settings(user(), "favorites.toml").unwrap()),
        "/home/me/favorites.toml"
    );
    assert!(Config::load(Found::Missing, "/c").unwrap().mouse);
    assert!(Config::load(Found::Nowhere, "").unwrap().mouse);
    assert_eq!(
        Config::load(Found::Invalid("bad".to_string()), "/c/config.toml").unwrap_err(),
        "/c/config.toml: bad"
    );
    assert_eq!(
        Config::load(Found::Unreadable("denied".to_string()), "/c/config.toml").unwrap_err(),
        "/c/config.toml: denied"
    );
    let mut own = Config::default();
    own.icons = true;
    assert!(Config::load(Found::Read(own), "/c").unwrap().icons);
}

#[test]
fn favorites_persist_without_duplicates_and_stale_entries_can_be_removed() {
    let directory = "/tmp/favorites/日本語 folder";
    let mut list: Vec<String> = Vec::new();
    let made = update(&list, directory, true, Some(true), HERE).unwrap();
    assert!(made.added);
    list = made.list.unwrap();
    let made = update(&list, "/tmp/favorites/日本語 folder/.", true, Some(true), HERE).unwrap();
    assert!(made.added);
    assert_eq!(made.list, None);
    assert_eq!(list.len(), 1);
    let index = Index::of(&list, HERE);
    assert!(index.contains(directory, HERE));
    let windows = Index::of(&texts(&[r"C:\Work\日本語 folder"]), Platform::Windows);
    assert!(windows.contains("C:/WORK/日本語 FOLDER/", Platform::Windows));
    // The directory is gone, and its pin can still be taken away.
    assert!(index.contains(directory, HERE));
    let made = update(&list, directory, false, None, HERE).unwrap();
    assert!(!made.added);
    list = made.list.unwrap();
    assert!(!Index::of(&list, HERE).contains(directory, HERE));
    assert!(list.is_empty());
    assert_eq!(
        update(&list, directory, false, Some(true), HERE).unwrap_err(),
        "not a directory: /tmp/favorites/日本語 folder"
    );
    let broken = Found::Invalid("expected a value".to_string());
    assert!(favorites::read(broken, "/c/favorites.toml").is_err());
}

#[test]
fn pinning_and_unpinning_again_changes_nothing() {
    let list = texts(&["/a", "/b"]);
    assert_eq!(update(&list, "/a", true, Some(true), HERE).unwrap().list, None);
    assert_eq!(update(&list, "/c", true, Some(false), HERE).unwrap().list, None);
    let made = update(&list, "/c", true, None, HERE).unwrap();
    assert_eq!(made.list.as_deref(), Some(&texts(&["/a", "/b", "/c"])[..]));
    let back = update(&made.list.unwrap(), "/c", true, None, HERE).unwrap();
    assert!(!back.added);
    assert_eq!(back.list, Some(list));
}

#[test]
fn favorites_are_the_same_whatever_the_spelling() {
    assert_eq!(display_key(r"C:/Work\Ä\\", Platform::Windows), r"c:\work\ä");
    assert_eq!(display_key("/Work/Ä/", HERE), "/Work/Ä");
    assert!(same_path("/a/b", "/a//b/", HERE));
    assert!(!same_path("/a/b", "/a/B", HERE));
    assert!(same_path(r"C:\A", r"c:\a", Platform::Windows));
    assert!(favorites::read(Found::Missing, "/c").unwrap().is_empty());
    assert_eq!(
        favorites::read(Found::Unreadable("denied".to_string()), "/c/f").unwrap_err(),
        "/c/f: denied"
    );
    let (index, warning) = Index::load(Found::Invalid("bad".to_string()), "/c/f", HERE);
    assert!(!index.contains("/a", HERE));
    assert_eq!(
        warning.unwrap(),
        "Cannot load favorite markers: /c/f: bad"
    );
    let index = Index::read(Found::Read(texts(&["/a"])), "/c/f", HERE).unwrap();
    assert!(index.contains("/a/", HERE));
    assert_eq!(
        shown(&favorites::path(Some(at("/c/config.toml"))).unwrap()),
        "/c/favorites.toml"
    );
}

fn plan_in(existing: &str, line: &str) -> Plan {
    plan_for(Shell::Bash, at("/home/me/rc"), line.to_string(), existing)
}

#[test]
fn writing_twice_leaves_one_block_and_keeps_what_was_there() {
    let before = "eval \"$(zoxide init bash)\"\n";
    let once = apply(&plan_in(before, "line one"), before).unwrap();
    assert!(once.starts_with("eval \"$(zoxide init bash)\""), "{once}");
    assert_eq!(once.matches(BEGIN).count(), 1);

    // A second run replaces the block instead of stacking another copy,
    // which is what makes re-running after an update safe.
    let twice = apply(&plan_in(&once, "line two"), &once).unwrap();
    assert_eq!(twice.matches(BEGIN).count(), 1, "{twice}");
    assert!(twice.contains("line two"), "{twice}");
    assert!(!twice.contains("line one"), "{twice}");
    assert!(twice.contains("zoxide init bash"), "the file was clobbered");

    // Recognising its own block is what lets a run report "nothing to do".
    assert!(plan_in(&twice, "line two").is_noop());
    assert!(!plan_in(&twice, "line three").is_noop());
    assert_eq!(apply(&plan_in(&twice, "line two"), &twice), None);
    assert_eq!(extract(&twice).unwrap(), "line two");
}

#[test]
fn a_line_is_read_back_whatever_is_around_its_block() {
    for (front, rest) in [("", ""), ("a\n", "b"), ("x", "\n# >>> tadoru >>>\n"), ("\n\n", "\n")] {
        let text = format!("{front}{BEGIN}\na line\n{END}\n{rest}");
        assert_eq!(extract(&text).unwrap(), "a line");
    }
}

#[test]
fn a_stray_end_marker_does_not_hide_the_block() {
    let before = format!("{END}\nalias x=y\n{BEGIN}\nline one\n{END}\n\nlast\n");
    assert_eq!(extract(&before).unwrap(), "line one");
    let plan = plan_in(&before, "line two");
    assert!(plan.replacing && !plan.current);
    let once = apply(&plan, &before).unwrap();
    assert_eq!(
        once,
        format!("{END}\nalias x=y\n{BEGIN}\nline two\n{END}\nlast\n")
    );
    assert!(plan_in(&once, "line two").is_noop());

    // With no block yet, one is added behind it and is then found.
    let before = format!("{END}\n");
    assert!(!plan_in(&before, "line one").replacing);
    let once = apply(&plan_in(&before, "line one"), &before).unwrap();
    assert_eq!(once, format!("{END}\n\n{BEGIN}\nline one\n{END}\n"));
    let twice = apply(&plan_in(&once, "line two"), &once).unwrap();
    assert_eq!(twice, format!("{END}\n\n{BEGIN}\nline two\n{END}\n"));
    assert_eq!(twice.matches(BEGIN).count(), 1);
}

#[test]
fn a_startup_file_that_cannot_be_read_is_not_written_over() {
    assert_eq!(held(Found::Read("a".to_string()), "/rc").unwrap(), "a");
    assert_eq!(held(Found::Missing, "/rc").unwrap(), "");
    let garbled = held(Found::Unreadable("not UTF-8".to_string()), "/rc");
    assert_eq!(garbled.unwrap_err(), "/rc: not UTF-8");
}

#[test]
fn powershell_paths_are_quoted_where_they_need_it() {
    let line = |exe: &str| startup(Shell::Powershell, exe, Ok(at("/home/me")), None).unwrap().1;
    let command = |word: &str| format!("Invoke-Expression (& {word} init powershell | Out-String)");
    for bare in [r"C:\path\to\tadoru.exe", "/opt/t-1/tadoru", r"\\host\bin_2\tadoru.exe"] {
        assert_eq!(line(bare), command(bare));
    }
    for (exe, quoted) in [
        (r"C:\Program Files\tadoru.exe", r"'C:\Program Files\tadoru.exe'"),
        ("/a;b", "'/a;b'"),
        ("/it's", "'/it''s'"),
        ("/日本/tadoru", "'/日本/tadoru'"),
        ("-x", "'-x'"),
        ("1x", "'1x'"),
        ("", "''"),
    ] {
        assert_eq!(line(exe), command(quoted));
    }
}

#[test]
fn the_line_goes_after_whatever_the_file_already_loads() {
    let before = "eval \"$(zoxide init bash)\"\n";
    let text = apply(&plan_in(before, "eval \"$(tadoru init bash)\""), before).unwrap();
    // zoxide defines z and zi as aliases and an alias beats a function, so
    // tadoru has to be read afterwards to take them over.
    assert!(
        text.find("zoxide").unwrap() < text.find("tadoru").unwrap(),
        "{text}"
    );
    assert_eq!(
        text,
        "eval \"$(zoxide init bash)\"\n\n# >>> tadoru >>>\neval \"$(tadoru init bash)\"\n# <<< tadoru <<<\n"
    );
}

#[test]
fn cmd_is_told_where_its_files_go_instead() {
    let error = startup(Shell::Cmd, "tadoru.exe", Ok(at("/home/me")), None).unwrap_err();
    assert!(error.contains("init cmd --out"), "{error}");
}

#[test]
fn startup_files_and_lines_belong_to_the_shell() {
    let (file, line) = startup(Shell::Bash, r"C:\t\tadoru.exe", Ok(at("/home/me")), None).unwrap();
    assert_eq!(shown(&file), "/home/me/.bashrc");
    assert_eq!(line, "eval \"$(C:/t/tadoru.exe init bash)\"");
    let (file, line) = startup(Shell::Powershell, "/it's", Ok(at("/home/me")), None).unwrap();
    assert_eq!(
        shown(&file),
        "/home/me/Documents/PowerShell/Microsoft.PowerShell_profile.ps1"
    );
    assert_eq!(
        line,
        "Invoke-Expression (& '/it''s' init powershell | Out-String)"
    );
    let gone = startup(Shell::Bash, "x", Err("no home".to_string()), None);
    assert_eq!(gone.unwrap_err(), "no home");
    assert_eq!(detect(true, true, true, HERE), Shell::Powershell);
    assert_eq!(detect(false, false, true, Platform::Windows), Shell::Bash);
    assert_eq!(detect(false, false, false, Platform::Windows), Shell::Powershell);
    assert_eq!(detect(false, false, false, HERE), Shell::Bash);
    assert!(confirmed(" yes\n") && confirmed("y") && confirmed("Y"));
    assert!(!confirmed("YES") && !confirmed(""));
    assert_eq!(
        plan_in("", "a line").describe(HERE),
        "  shell: bash\n  file:  /home/me/rc\n  what:  appending a tadoru block\n\n    # >>> tadoru >>>\n    a line\n    # <<< tadoru <<<"
    );
}

#[test]
fn unc_paths_are_blocked_without_contacting_the_server() {
    for path in [
        r"\\unreachable.invalid\share",
        r"\\?\UNC\unreachable.invalid\share",
        "//unreachable.invalid/share",
    ] {
        assert!(scan_drive(path).unwrap_err().contains("blocked"));
    }
    assert_eq!(scan_drive(r"C:\work"), Ok('C'));
    assert_eq!(scan_drive(r"\\?\d:\work"), Ok('d'));
    assert!(scan_drive("work").unwrap_err().contains("Cannot verify"));
    for kind in [2, 3, 5, 6] {
        assert_eq!(check_drive_type(kind), Ok(()));
    }
    for kind in [0, 1, 4, 7] {
        assert!(check_drive_type(kind).unwrap_err().contains("blocked"));
    }
}

#[test]
fn reveal_selects_files_and_opens_directories() {
    let order = reveal_command(&place(r"C:\", r"a b\c.txt"), false, Platform::Windows);
    assert_eq!(order.program, "explorer.exe");
    assert_eq!(order.args, [r"/select,C:\a b\c.txt"]);
    let order = reveal_command(&place(r"C:\", "a b"), true, Platform::Windows);
    assert_eq!(order.args, [r"C:\a b"]);
    let order = reveal_command(&at("/a/b.txt"), false, Platform::MacOs);
    assert_eq!(order.program, "open");
    assert_eq!(order.args, ["-R", "/a/b.txt"]);
    let order = reveal_command(&at("/a/b.txt"), false, HERE);
    assert_eq!(order.program, "xdg-open");
    assert_eq!(order.args, ["/a"]);
    assert!(launch(&at("/a"), true, HERE).is_none());
    assert_eq!(launch(&at("/a/b.txt"), false, HERE).unwrap().args, ["/a/b.txt"]);
}

#[test]
fn temp_dir_is_an_existing_directory_without_a_verbatim_prefix() {
    let temp = Path::new("/tmp").canonicalize().unwrap();
    let dir = strip_verbatim(&temp.to_string_lossy());
    assert!(Path::new(&dir).is_dir(), "{dir} is not a directory");
    assert!(!dir.starts_with(r"\\?\"));
    assert_eq!(strip_verbatim(r"\\?\C:\Users\x"), r"C:\Users\x");
    assert_eq!(strip_verbatim(r"\\?\UNC\server\share"), r"\\server\share");
}

#[test]
fn a_scan_root_is_checked_where_it_is_and_where_its_links_lead() {
    let refused = || Err("blocked".to_string());
    assert_eq!(check_scan_root(Ok(()), Resolved::Missing), Ok(()));
    assert_eq!(check_scan_root(Ok(()), Resolved::Place(Ok(()))), Ok(()));
    assert_eq!(check_scan_root(refused(), Resolved::Missing), refused());
    assert_eq!(
        check_scan_root(Ok(()), Resolved::Place(refused())),
        refused()
    );
    assert_eq!(
        check_scan_root(Ok(()), Resolved::Failed("denied".to_string())).unwrap_err(),
        "Cannot verify scan location: denied. Use browse instead."
    );
    assert_eq!(check_root("/w", true), Ok(()));
    assert_eq!(
        check_root("/w/x", false).unwrap_err(),
        "not a directory: /w/x"
    );
    assert_eq!(may_ask(true), Ok(()));
    assert!(may_ask(false).unwrap_err().contains("--yes"));
}

#[test]
fn history_is_read_line_by_line_or_explained() {
    let printed = History::Printed("/b\n\n/a\r\n".to_string());
    assert_eq!(recent(printed).unwrap(), ["/b", "/a"]);
    assert_eq!(
        recent(History::Failed(" no database \n".to_string())).unwrap_err(),
        "zoxide query failed: no database"
    );
    assert_eq!(
        recent(History::NotRun("denied".to_string())).unwrap_err(),
        "cannot run zoxide: denied"
    );
    let advice = recent(History::NotInstalled).unwrap_err();
    assert!(advice.contains("cannot run zoxide"), "{advice}");
    assert!(advice.contains("winget install ajeetdsouza.zoxide"), "{advice}");
    assert!(advice.contains("use favorites"), "{advice}");
}

#[test]
fn the_walk_takes_what_the_mode_lists_and_skips_what_is_excluded() {
    let root = at("/w");
    let found = |path: &str, depth, is_dir, mode| {
        to_entry(&root, &at(path), depth, is_dir, mode, HERE).map(|entry| entry.display)
    };
    assert_eq!(
        found("/w/a/b", 2, Some(true), Mode::Dirs),
        Some("a/b".to_string())
    );
    assert_eq!(found("/w/a/b", 2, Some(true), Mode::Files), None);
    assert_eq!(
        found("/w/n.txt", 1, Some(false), Mode::Files),
        Some("n.txt".to_string())
    );
    assert_eq!(found("/w", 0, Some(true), Mode::Dirs), None);
    assert_eq!(found("/w/x", 1, None, Mode::Files), None);
    assert_eq!(found("/w/x", 1, Some(true), Mode::Browse), None);
    assert_eq!(found("/elsewhere", 1, Some(true), Mode::Dirs), None);
    let exclude = Config::default().exclude;
    assert!(!walks("target", 1, true, false, &exclude));
    assert!(walks("target", 1, false, false, &exclude));
    assert!(walks("src", 1, true, false, &exclude));
    assert!(!walks("src", 1, true, true, &exclude));
    assert!(walks("src", 0, true, true, &exclude));
    assert!(walks("link", 1, false, true, &exclude));
    assert_eq!(saved_entry(&at("/w/a"), HERE).display, "/w/a");
}

#[test]
fn programs_are_looked_for_beside_the_settings_and_then_on_the_path() {
    let dirs = texts(&["/usr/bin", "", "/opt/bin"]);
    let fixed = search("scripts/task.ps1", "/config", &dirs, HERE);
    assert!(fixed.fixed);
    assert_eq!(fixed.candidates, ["/config/scripts/task.ps1"]);
    assert_eq!(
        resolve("scripts/task.ps1", &fixed, &vec![false]).unwrap_err(),
        "program not found: /config/scripts/task.ps1"
    );
    let named = search("code", "/config", &dirs, HERE);
    assert_eq!(
        named.candidates,
        ["/config/code", "/usr/bin/code", "/opt/bin/code"]
    );
    assert_eq!(
        resolve("code", &named, &vec![false, false, true]).unwrap(),
        "/opt/bin/code"
    );
    assert_eq!(
        resolve("code", &named, &vec![false, false, false]).unwrap_err(),
        "program not found on PATH: code"
    );
    let windows = search("code", r"C:\c", &texts(&[r"C:\bin"]), Platform::Windows);
    assert_eq!(
        windows.candidates,
        [
            r"C:\c\code",
            r"C:\bin\code.exe",
            r"C:\bin\code.com",
            r"C:\bin\code.cmd",
            r"C:\bin\code.bat",
            r"C:\bin\code"
        ]
    );
}

fn action(program: &str, args: &[&str]) -> Action {
    let mut definition = test_definition("test", None);
    definition.program = program.to_string();
    definition.args = texts(args);
    Action::Custom {
        definition,
        config_dir: "/config".to_string(),
    }
}

fn prepare(action: &Action, program: &str) -> Result<Invocation, String> {
    let target = at("/w/日本語 {dir} & % ! space.txt");
    let context = Context::new(&target, false, "/config", HERE);
    action.prepare(
        FILE,
        context,
        Ok(program.to_string()),
        Ok("/usr/bin/pwsh".to_string()),
        HERE,
    )
}

#[test]
fn powershell_script_receives_literal_paths_and_runs_in_target_parent() {
    let target = "/w/日本語 {dir} & % ! space.txt";
    let literal = "literal $() & % !";
    let made = prepare(
        &action(
            "pwsh",
            &["-NoProfile", "-File", "scripts/inspect.ps1", "{path}", literal],
        ),
        "/usr/bin/pwsh",
    )
    .unwrap();
    assert_eq!(made.program, "/usr/bin/pwsh");
    assert_eq!(
        made.args,
        ["-NoProfile", "-File", "/config/scripts/inspect.ps1", target, literal]
    );
    let made = prepare(
        &action("scripts/inspect.ps1", &["{path}", literal]),
        "/config/scripts/inspect.ps1",
    )
    .unwrap();
    assert_eq!(made.program, "/usr/bin/pwsh");
    assert_eq!(
        made.args,
        ["-NoProfile", "-File", "/config/scripts/inspect.ps1", target, literal]
    );
    assert_eq!(made.cwd, "/w");
    assert_eq!(made.environment.path, target);
    assert_eq!(made.environment.dir, "/w");
    assert_eq!(made.environment.config, "/config");
    assert!(in_working_directory(made, true).is_ok());
}

#[test]
fn actions_that_cannot_be_started_say_why() {
    let script = action("tool", &["{path}"]);
    let context = || Context::new(&at("/w/a"), true, "/config", HERE);
    let none: Result<String, String> = Err("program not found on PATH: tool".to_string());
    assert_eq!(
        Action::Reveal
            .prepare(FILE, context(), none.clone(), none.clone(), HERE)
            .unwrap_err(),
        "not a custom action"
    );
    assert_eq!(
        script
            .prepare(FILE, context(), none.clone(), none.clone(), HERE)
            .unwrap_err(),
        "program not found on PATH: tool"
    );
    assert_eq!(
        script
            .prepare(FILE, Err("gone".to_string()), none.clone(), none, HERE)
            .unwrap_err(),
        "gone"
    );
    let mut definition = test_definition("files", None);
    definition.target = Target::File;
    let files = Action::Custom {
        definition,
        config_dir: "/config".to_string(),
    };
    let found = || Ok("/bin/true".to_string());
    assert_eq!(
        files
            .prepare(FOLDER, context(), found(), found(), HERE)
            .unwrap_err(),
        "this action does not apply to the selected item"
    );
    let mut definition = test_definition("elsewhere", None);
    definition.cwd = Some("work".to_string());
    let elsewhere = Action::Custom {
        definition,
        config_dir: "/config".to_string(),
    };
    let made = elsewhere
        .prepare(FOLDER, context(), found(), found(), HERE)
        .unwrap();
    assert_eq!(
        in_working_directory(made, false).unwrap_err(),
        "working directory does not exist: /config/work"
    );
    assert_eq!(
        Context::new(&at("/"), false, "/config", HERE).unwrap_err(),
        "target has no parent"
    );
}

#[test]
fn each_action_is_one_errand() {
    for (action, errand) in [
        (Action::Reveal, Errand::Reveal),
        (Action::Open, Errand::Launch),
        (Action::TempCopy, Errand::LaunchCopy),
        (Action::TempFolder, Errand::RevealCopies),
        (Action::Copy, Errand::CopyPath),
        (Action::Editor, Errand::Edit),
        (action("tool", &[]), Errand::Start),
    ] {
        assert_eq!(action.execute_detached(), errand);
        match action.run_mode() {
            RunMode::Terminal => assert_eq!(action.execution(), Execution::Terminal),
            RunMode::Detach => assert_eq!(action.execution(), Execution::Detached(errand)),
        }
    }
    let mut definition = test_definition("a", None);
    definition.run = RunMode::Terminal;
    let own = Action::Custom {
        definition,
        config_dir: "/config".to_string(),
    };
    assert_eq!(own.execution(), Execution::Terminal);
    assert_eq!(Action::Copy.execution(), Execution::Detached(Errand::CopyPath));
    assert_eq!(showing(true), Errand::Reveal);
    assert_eq!(showing(false), Errand::Launch);
    assert_eq!(Action::Copy.run_mode(), RunMode::Detach);
}

#[test]
fn the_clipboard_belongs_to_the_platform() {
    let order = clipboard_command(HERE, false);
    assert_eq!(order.program, "xclip");
    assert_eq!(order.args, ["-selection", "clipboard"]);
    assert_eq!(clipboard_command(HERE, true).program, "wl-copy");
    assert_eq!(clipboard_command(Platform::MacOs, false).program, "pbcopy");
    assert_eq!(clipboard_command(Platform::Windows, false).program, "powershell");
    assert_eq!(clipboard_result(HERE, "xclip", None), Ok(()));
    assert_eq!(
        clipboard_result(HERE, "xclip", Some("exit status: 1")).unwrap_err(),
        "xclip: exit status: 1"
    );
    assert_eq!(
        clipboard_result(Platform::Windows, "powershell", Some("denied")).unwrap_err(),
        "denied"
    );
}

#[test]
fn runs_end_with_the_code_of_their_outcome() {
    assert_eq!(exit_code(&pick_outcome(Some(at("/w")))), 0);
    assert_eq!(exit_code(&pick_outcome(None)), 1);
    assert_eq!(exit_code(&Outcome::Done), 0);
    assert_eq!(exit_code(&Outcome::Failed), 2);
    assert_eq!(initial_query("a".to_string(), None), "a");
    assert_eq!(initial_query("a".to_string(), Some("b".to_string())), "b");
    assert!(matches!(init_plan(Shell::Bash, true), InitPlan::Refuse));
    assert!(matches!(init_plan(Shell::Bash, false), InitPlan::Print));
    assert!(matches!(init_plan(Shell::Cmd, true), InitPlan::Write));
    assert!(matches!(init_plan(Shell::Powershell, false), InitPlan::Print));
    assert_eq!(Shell::Cmd.label(), "cmd");
    assert_eq!(Mode::Favorites.label(), "favorites");
}

#[test]
fn recent_select_one_distinguishes_errors_empty_history_and_selection() {
    let destination = "/tmp/日本語 space & ! % [dir]";
    // What a run that takes a single candidate ends with.
    let ends = |history: History| -> (u8, String) {
        let (paths, error) = match recent(history) {
            Ok(paths) => (paths, None),
            Err(error) => (Vec::new(), Some(error)),
        };
        let entries: Vec<Entry> = paths
            .iter()
            .map(|path| saved_entry(&at(path), HERE))
            .collect();
        let only = entries.first().cloned();
        let count = entries.len() as u32;
        match opening(true, Mode::Recent, &error, count, &only) {
            Opening::Failed(reason) => (exit_code(&Outcome::Failed), reason),
            Opening::Nothing => (exit_code(&pick_outcome(None)), String::new()),
            Opening::Only(place) => {
                let printed = shown(&place);
                (exit_code(&pick_outcome(Some(place))), printed)
            }
            Opening::Show => panic!("the picker was shown"),
        }
    };
    let (code, report) = ends(History::Failed("fixture error 2\n".to_string()));
    assert_eq!(code, 2);
    assert!(report.contains("fixture error 2"), "{report}");
    assert_eq!(ends(History::Printed(String::new())), (1, String::new()));
    let printed = History::Printed(format!("{destination}\n"));
    assert_eq!(ends(printed), (0, destination.to_string()));
    let (code, report) = ends(History::NotInstalled);
    assert_eq!(code, 2);
    assert!(report.contains("cannot run zoxide"), "{report}");
}

#[test]
fn favorites_cli_and_picker_share_persistent_storage_without_zoxide() {
    let destination = "/tmp/日本語 space & ! % [dir]";
    let mut list: Vec<String> = Vec::new();
    for _ in 0..2 {
        let made = update(&list, destination, true, Some(true), HERE).unwrap();
        list = made.list.unwrap_or(list);
    }
    assert_eq!(list, [destination]);
    let only = Some(saved_entry(&at(&list[0]), HERE));
    assert!(matches!(
        opening(true, Mode::Favorites, &None, 1, &only),
        Opening::Only(place) if shown(&place) == destination
    ));
    // The directory is gone.
    let made = update(&list, destination, false, Some(false), HERE).unwrap();
    list = made.list.unwrap();
    assert!(list.is_empty());
    assert!(matches!(
        opening(true, Mode::Favorites, &None, 0, &None),
        Opening::Nothing
    ));
}

#[test]
fn action_config_can_be_created_and_validated_without_overwriting_customizations() {
    let file = "/tmp/config/actions.json";
    assert_eq!(
        shown(&config_path(Some(at("/tmp/config/config.toml"))).unwrap()),
        file
    );
    assert!(not_created(file, "File exists").contains("never overwritten"));
    assert_eq!(check(&parse(actions::TEMPLATE), file), Ok(()));
    let error = check(&parse(r#"{"version":42,"actions":[]}"#), file).unwrap_err();
    assert!(error.contains("unsupported actions version"), "{error}");
}

#[test]
fn network_scan_finishes_with_an_error_and_no_candidates() {
    let given = scan_drive(r"\\unreachable.invalid\share").map(|_| ());
    let verdict = check_scan_root(given, Resolved::Missing);
    let error = scan_error(Some(verdict)).unwrap();
    assert!(error.contains("blocked"), "{error}");
}

#[test]
fn batch_script_preserves_metacharacters_in_target_arguments() {
    let target = place(r"C:\", r"work\日本語 & %TADORU_TEST_PAYLOAD% ! ^ {dir}.txt");
    let context = Context::new(&target, false, r"C:\config", Platform::Windows);
    let made = action("inspect.cmd", &["{path}"])
        .prepare(
            FILE,
            context,
            Ok(r"C:\config\inspect.cmd".to_string()),
            Err("program not found on PATH: pwsh".to_string()),
            Platform::Windows,
        )
        .unwrap();
    assert_eq!(made.program, r"C:\config\inspect.cmd");
    assert_eq!(made.args, [target.display(Platform::Windows)]);
    assert_eq!(made.cwd, r"C:\work");
}
