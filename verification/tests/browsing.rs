use tadoru::actions::{Action, Definition, RunMode, Target};
use tadoru::browse::{read_dir, Browser, Item, DIR_LIMIT};
use tadoru::fuzzy::{mark_path, mark_text, match_text};
use tadoru::keys::{KeyCode, KeyEvent, Modifiers, MouseButton, MouseEvent, MouseKind};
use tadoru::menu::{Decision, Menu};
use tadoru::paths::{Location, Platform};
use tadoru::rows::list_dir;
use tadoru::screen::{Draw, Rect, Screen};

const HERE: Platform = Platform::Linux;

fn at(path: &str) -> Location {
    Location {
        anchor: "/".to_string(),
        parts: path
            .split('/')
            .filter(|part| !part.is_empty())
            .map(|part| part.to_string())
            .collect(),
    }
}

fn item(name: &str, is_dir: bool) -> Item {
    Item {
        name: name.to_string(),
        is_dir,
    }
}

/// The entries of a small project, in no particular order.
fn entries(dir: &Location) -> Vec<Item> {
    match dir.display(HERE).as_str() {
        "/project" => vec![item("README.md", false), item("src", true), item("docs", true)],
        "/project/src" => vec![item("main.rs", false), item("deep", true)],
        _ => Vec::new(),
    }
}

fn open() -> Browser {
    Browser::new(at("/project"), entries(&at("/project")))
}

fn enter(browser: &mut Browser) {
    if let Some(visit) = browser.enter() {
        let found = entries(&visit.dir);
        browser.arrive(visit, found);
    }
}

fn up(browser: &mut Browser) {
    if let Some(visit) = browser.up() {
        let found = entries(&visit.dir);
        browser.arrive(visit, found);
    }
}

fn history(browser: &mut Browser, forward: bool) -> bool {
    let there: Vec<bool> = browser.history_places(forward).iter().map(|_| true).collect();
    match browser.history(forward, &there) {
        Some(visit) => {
            let found = entries(&visit.dir);
            browser.arrive(visit, found);
            true
        }
        None => false,
    }
}

fn names(browser: &Browser) -> Vec<&str> {
    browser
        .rows()
        .iter()
        .map(|row| browser.items()[row.index].name.as_str())
        .collect()
}

#[test]
fn lists_directories_first_then_files() {
    let b = open();
    let labels: Vec<String> = b.items().iter().map(|item| item.label(HERE)).collect();
    assert_eq!(labels, ["docs/", "src/", "README.md"]);
    assert_eq!(item("src", true).label(Platform::Windows), "src\\");
}

#[test]
fn enter_and_up_keep_the_place() {
    let mut b = open();
    b.move_selection(1); // src
    enter(&mut b);
    assert!(b.cwd.is(&at("/project/src")));
    assert_eq!(b.selected_item().unwrap().name, "deep");
    enter(&mut b);
    assert!(b.cwd.is(&at("/project/src/deep")));
    up(&mut b);
    up(&mut b);
    assert!(b.cwd.is(&at("/project")));
    assert_eq!(b.selected_item().unwrap().name, "src");
}

#[test]
fn enter_on_a_file_does_nothing_and_target_is_cwd() {
    let mut b = open();
    b.move_selection(2); // README.md
    enter(&mut b);
    assert!(b.cwd.is(&at("/project")));
    assert!(b.target().is(&at("/project")));
}

#[test]
fn filter_narrows_the_current_level_and_marks_hits() {
    let mut b = open();
    b.set_filter("rd");
    assert_eq!(names(&b), ["README.md"]);
    assert_eq!(b.rows()[0].hits, vec![0, 3]);
    b.set_filter("");
    assert_eq!(b.rows().len(), 3);
}

#[test]
fn filters_are_words_that_must_all_match_in_any_case() {
    let mut b = Browser::new(
        at("/w"),
        vec![
            item("Annual Report", true),
            item("report-draft", true),
            item("annual-plan", true),
        ],
    );
    b.set_filter("REPORT annual");
    assert_eq!(names(&b), ["Annual Report"]);
    b.set_filter("nothing like it");
    assert!(names(&b).is_empty());
    assert!(b.selected_item().is_none());
    assert!(b.selected_path().is_none());
    assert!(b.target().is(&at("/w")));
}

#[test]
fn better_matches_come_first_and_equal_ones_keep_their_order() {
    let mut b = Browser::new(
        at("/w"),
        vec![
            item("s_r_c", true),
            item("src", true),
            item("b-src", true),
            item("a-src", true),
        ],
    );
    b.set_filter("src");
    let shown = names(&b);
    assert_eq!(shown[0], "src");
    assert_eq!(shown.len(), 4);
    let a = shown.iter().position(|name| *name == "a-src").unwrap();
    let b = shown.iter().position(|name| *name == "b-src").unwrap();
    assert!(a < b);
}

#[test]
fn list_dir_puts_directories_first() {
    let found = vec![
        item("beta.txt", false),
        item("zeta", true),
        item("Alpha.txt", false),
    ];
    assert_eq!(list_dir(Some(found), HERE), ["zeta/", "Alpha.txt", "beta.txt"]);
    assert_eq!(list_dir(None, HERE), ["(unreadable)"]);
}

#[test]
fn names_are_sorted_without_regard_to_case() {
    let found = vec![
        item("Éclair", true),
        item("b", true),
        item("A", true),
        item("éa", true),
        item("C", false),
    ];
    let sorted: Vec<String> = read_dir(found).into_iter().map(|item| item.name).collect();
    assert_eq!(sorted, ["A", "b", "éa", "Éclair", "C"]);
}

#[test]
fn huge_directories_are_cut_off() {
    let found: Vec<Item> = (0..DIR_LIMIT + 5)
        .map(|n| item(&format!("{n}"), true))
        .collect();
    assert_eq!(read_dir(found).len(), DIR_LIMIT);
}

#[test]
fn history_retraces_moves_and_a_new_move_forgets_the_way_forward() {
    let mut b = open();
    assert!(!b.has_history(false));
    b.move_selection(1);
    enter(&mut b);
    enter(&mut b);
    assert!(history(&mut b, false));
    assert!(b.cwd.is(&at("/project/src")));
    assert!(history(&mut b, true));
    assert!(b.cwd.is(&at("/project/src/deep")));
    assert!(history(&mut b, false));
    up(&mut b);
    assert!(!b.has_history(true));
    assert!(!history(&mut b, true));
    assert!(b.has_history(false));
}

#[test]
fn going_to_a_file_selects_it_in_its_directory() {
    let mut b = open();
    let visit = b.navigate_to(&at("/project/src/main.rs"), false);
    let found = entries(&visit.dir);
    b.arrive(visit, found);
    assert!(b.cwd.is(&at("/project/src")));
    assert_eq!(b.selected_item().unwrap().name, "main.rs");
    let (items, here) = b.parent_listing(entries(&at("/project"))).unwrap();
    assert_eq!(items[here.unwrap()].name, "src");
    let top = Browser::new(at("/"), Vec::new());
    assert!(top.parent_listing(Vec::new()).is_none());
    assert!(top.up().is_none());
}

#[test]
fn the_cursor_stays_on_the_list() {
    let mut b = open();
    b.move_selection(-5);
    assert_eq!(b.selected, 0);
    b.move_selection(50);
    assert_eq!(b.selected, 2);
    b.move_selection(-1);
    assert_eq!(b.selected, 1);
}

fn menu() -> Menu {
    Menu {
        target: Location {
            anchor: String::new(),
            parts: vec!["selected file.txt".to_string()],
        },
        items: vec![Action::Reveal, Action::Copy],
        query: String::new(),
        visible: vec![0, 1],
        selected: 0,
        error: None,
        mouse_rows: Rect::none(),
        mouse_first: 0,
    }
}

fn press(code: KeyCode) -> KeyEvent {
    KeyEvent::new(code, Modifiers::none())
}

fn with(c: char, control: bool, alt: bool) -> KeyEvent {
    let modifiers = Modifiers {
        control,
        alt,
        shift: false,
    };
    KeyEvent::new(KeyCode::Char(c), modifiers)
}

fn words(screen: &Screen) -> String {
    let mut out = String::new();
    for draw in &screen.draws {
        let lines = match draw {
            Draw::Frame { title, .. } => std::slice::from_ref(title),
            Draw::Text { lines, .. } | Draw::Rows { lines, .. } => lines.as_slice(),
        };
        for line in lines {
            for span in &line.spans {
                out += &span.text;
            }
            out.push('\n');
        }
    }
    out
}

#[test]
fn alt_and_ctrl_chars_stay_out_of_the_filter() {
    let mut menu = menu();
    menu.handle(with('d', false, true));
    menu.handle(with('d', true, false));
    assert!(menu.query.is_empty());
    assert_eq!(menu.visible, [0, 1]);
    menu.handle(press(KeyCode::Char('d')));
    assert_eq!(menu.query, "d");
}

#[test]
fn filtering_keeps_target_fixed_and_escape_only_closes_the_menu() {
    let mut menu = menu();
    let target = menu.target.clone();
    for ch in "copy".chars() {
        menu.handle(press(KeyCode::Char(ch)));
    }
    assert_eq!(menu.visible, [1]);
    assert!(menu.target.is(&target));
    menu.render(Rect::new(3, 4, 50, 12), HERE);
    let rows = menu.mouse_rows;
    let click = |row| MouseEvent {
        kind: MouseKind::Down(MouseButton::Left),
        column: rows.x,
        row,
        modifiers: Modifiers::none(),
    };
    assert!(!menu.handle_mouse(click(rows.y + 2)));
    assert!(!menu.handle_mouse(click(rows.y - 1)));
    assert!(menu.handle_mouse(click(rows.y)));
    assert!(
        matches!(menu.handle(press(KeyCode::Enter)), Decision::Run(action) if matches!(*action, Action::Copy))
    );
    menu.handle(press(KeyCode::Char('x')));
    assert!(menu.visible.is_empty());
    assert!(matches!(menu.handle(press(KeyCode::Enter)), Decision::Stay));
    for (width, height) in [(2, 2), (40, 12), (100, 24)] {
        menu.render(Rect::new(0, 0, width, height), HERE);
    }
    assert!(matches!(menu.handle(press(KeyCode::Esc)), Decision::Close));
}

fn custom(name: &str, run: RunMode) -> Action {
    Action::Custom {
        definition: Definition {
            name: name.to_string(),
            program: "tool".to_string(),
            args: Vec::new(),
            target: Target::Any,
            run,
            cwd: None,
            key: None,
        },
        config_dir: "/config".to_string(),
    }
}

#[test]
fn the_menu_shows_its_target_the_filter_and_a_warning() {
    let items = vec![custom("build", RunMode::Terminal), custom("view", RunMode::Detach)];
    let mut menu = Menu::new(at("/w/a b"), items, Some("actions.json: broken".to_string()));
    menu.handle(press(KeyCode::Char('b')));
    let screen = menu.render(Rect::new(0, 0, 60, 14), HERE);
    let text = words(&screen);
    assert!(text.contains("/w/a b"), "{text}");
    assert!(text.contains("actions.json: broken"), "{text}");
    assert!(text.contains("▌ build"), "{text}");
    assert!(!text.contains("view"), "{text}");
    assert!(screen.cursor.is_some());
}

#[test]
fn the_menu_cursor_wraps_nowhere_and_control_p_closes() {
    let mut menu = menu();
    menu.handle(press(KeyCode::Up));
    assert_eq!(menu.selected, 0);
    menu.handle(press(KeyCode::Down));
    menu.handle(press(KeyCode::Down));
    assert_eq!(menu.selected, 1);
    menu.handle(press(KeyCode::Char('c')));
    menu.handle(press(KeyCode::Backspace));
    assert_eq!(menu.query, "");
    assert_eq!(menu.selected, 0);
    assert!(matches!(menu.handle(with('p', true, false)), Decision::Close));
}

#[test]
fn letters_that_only_differ_in_case_match_in_every_query() {
    let mut matcher = nucleo::Matcher::new(nucleo::Config::DEFAULT);
    // The long s and the final sigma stand for the letters they fold to.
    assert_eq!(mark_text("s\u{e9}", "\u{17f} s\u{e9}!", &mut matcher).1, [2, 3]);
    let (score, hits) = mark_text("σ\u{e4}", "ςxσ\u{e4}z", &mut matcher);
    assert!(score.is_some());
    assert_eq!(hits, [0, 3]);
    assert_eq!(mark_path("σ\u{e4}", "ςxσ\u{e4}z", &mut matcher).len(), 2);
    let folded = match_text("\u{e9}σ", "a\u{e9}ς", &mut matcher);
    assert_eq!(folded, match_text("\u{e9}σ", "a\u{e9}σ", &mut matcher));
    assert!(folded.is_some());
    assert_eq!(match_text("\u{e9}x", "a\u{e9}ς", &mut matcher), None);
    // A query in ASCII meets the text as it is.
    assert!(match_text("s", "\u{17f}", &mut matcher).is_some());
    assert_eq!(match_text("s", "t", &mut matcher), None);
}

#[test]
fn entries_that_look_alike_keep_their_order() {
    let item = |name: &str, is_dir: bool| Item {
        name: name.to_string(),
        is_dir,
    };
    let listed = read_dir(vec![
        item("b", false),
        item("A", false),
        item("a", false),
        item("z", true),
        item("A", false),
    ]);
    let names: Vec<&str> = listed.iter().map(|item| item.name.as_str()).collect();
    assert_eq!(names, ["z", "A", "a", "A", "b"]);
}
