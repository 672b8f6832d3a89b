use tadoru::actions::{defaults, Action, Nature};
use tadoru::browse::Item;
use tadoru::cli::{mode_after, mode_at, mode_index, Mode};
use tadoru::config::Config;
use tadoru::favorites::{update, Index};
use tadoru::fuzzy::QUERY_LIMIT;
use tadoru::keys::{ends_pause, KeyCode, KeyEvent, Modifiers, MouseButton, MouseEvent, MouseKind};
use tadoru::paint::{browse_areas, search_areas, Candidate, Findings, Marker, Sight};
use tadoru::paths::{Location, Platform};
use tadoru::picker::{
    browse_order, output_path, visible, Event, Nav, Picker, Preview, Shown, Task, CLICK_GUARD,
    DOUBLE_CLICK, NOTICE_LINGER,
};
use tadoru::replies::{
    chosen_path, copy_not_opened, detached_message, directory_of, opening, terminal_message,
    Opening, PreviewStep,
};
use tadoru::rows::{list_dir, resume_row};
use tadoru::scan::Entry;
use tadoru::screen::{Draw, Line, Rect, Screen, Tone};
use tadoru::session::{budget, order_due, scan_error, Pace, Tick};

const HERE: Platform = Platform::Linux;

fn at(path: &str) -> Location {
    Location {
        anchor: "/".to_string(),
        parts: path
            .split('/')
            .filter(|part| !part.is_empty())
            .map(|part| part.to_string())
            .collect(),
    }
}

fn shown(place: &Location) -> String {
    place.display(HERE)
}

fn entry(path: &str, display: &str) -> Option<Entry> {
    Some(Entry {
        path: at(path),
        display: display.to_string(),
    })
}

fn modifiers(control: bool, alt: bool) -> Modifiers {
    Modifiers {
        control,
        alt,
        shift: false,
    }
}

fn press(code: KeyCode) -> KeyEvent {
    KeyEvent::new(code, Modifiers::none())
}

fn ctrl(c: char) -> KeyEvent {
    KeyEvent::new(KeyCode::Char(c), modifiers(true, false))
}

fn mouse(kind: MouseKind, column: u16, row: u16) -> MouseEvent {
    MouseEvent {
        kind,
        column,
        row,
        modifiers: Modifiers::none(),
    }
}

fn left(column: u16, row: u16) -> MouseEvent {
    mouse(MouseKind::Down(MouseButton::Left), column, row)
}

fn ctrl_right(column: u16, row: u16) -> MouseEvent {
    MouseEvent {
        modifiers: modifiers(true, false),
        ..mouse(MouseKind::Down(MouseButton::Right), column, row)
    }
}

/// A picker over a tree that exists only here, and someone who does the work
/// it asks for.
struct Desk {
    picker: Picker,
    dirs: Vec<String>,
    files: Vec<String>,
    pins: Vec<String>,
    entry: Option<Entry>,
    now: u64,
    asked: Vec<Task>,
}

impl Desk {
    fn new(root: &str, mode: Mode, dirs: &[&str], files: &[&str]) -> Desk {
        let none: Vec<String> = Vec::new();
        let picker = Picker::new(
            mode,
            at(root),
            Config::default(),
            Index::of(&none, HERE),
            None,
            HERE,
        );
        let mut desk = Desk {
            picker,
            dirs: Vec::new(),
            files: files.iter().map(|file| file.to_string()).collect(),
            pins: Vec::new(),
            entry: None,
            now: 10_000,
            asked: Vec::new(),
        };
        desk.add_dir(root);
        for dir in dirs {
            desk.add_dir(dir);
        }
        if mode == Mode::Browse {
            let entries = desk.list(&at(root));
            desk.picker.open_browser(at(root), entries);
        }
        desk
    }

    fn add_dir(&mut self, dir: &str) {
        let mut place = at(dir);
        loop {
            let path = shown(&place);
            if !self.dirs.contains(&path) {
                self.dirs.push(path);
            }
            match place.parent() {
                Some(parent) => place = parent,
                None => return,
            }
        }
    }

    fn is_dir(&self, place: &Location) -> bool {
        self.dirs.contains(&shown(place))
    }

    fn list(&self, dir: &Location) -> Vec<Item> {
        let mut items = Vec::new();
        for (paths, is_dir) in [(&self.dirs, true), (&self.files, false)] {
            for path in paths {
                let place = at(path);
                if place.parent().is_some_and(|parent| parent.is(dir)) {
                    items.push(Item {
                        name: place.file_name().unwrap(),
                        is_dir,
                    });
                }
            }
        }
        items
    }

    fn perform(&mut self, task: Task) {
        match task {
            Task::Read(visit) => {
                let entries = self.list(&visit.dir);
                self.picker.arrive(visit, entries);
            }
            Task::Navigate(path, show) => {
                let is_dir = self.is_dir(&path);
                let entries = self.list(&directory_of(&path, is_dir));
                self.picker.go_to(&path, is_dir, entries, show);
            }
            Task::Retrace(forward) => {
                let there: Vec<bool> = self
                    .picker
                    .trail(forward)
                    .iter()
                    .map(|place| self.is_dir(place))
                    .collect();
                if let Some(visit) = self.picker.retrace(forward, &there) {
                    let entries = self.list(&visit.dir);
                    self.picker.arrive(visit, entries);
                }
            }
            Task::OpenBrowser(candidate) => {
                let is_dir = candidate.as_ref().is_some_and(|place| self.is_dir(place));
                let start = self.picker.browser_start(candidate, is_dir);
                let entries = self.list(&start);
                self.picker.open_browser(start, entries);
            }
            Task::OpenMenu(target) => {
                let nature = Nature {
                    is_dir: self.is_dir(&target),
                    is_file: self.files.contains(&shown(&target)),
                };
                self.picker.open_menu(target, defaults(nature), None);
            }
            Task::Refresh(visit) => {
                self.picker.reload_pinned(Ok(Index::of(&self.pins, HERE)));
                if let Some(visit) = visit {
                    let entries = self.list(&visit.dir);
                    self.picker.arrive(visit, entries);
                }
            }
            Task::ReloadPins => self.picker.reload_pinned(Ok(Index::of(&self.pins, HERE))),
            Task::TogglePin(place) => {
                let made = update(
                    &self.pins,
                    &shown(&place),
                    self.is_dir(&place),
                    None,
                    HERE,
                );
                let result = made.map(|made| {
                    if let Some(list) = made.list {
                        self.pins = list;
                    }
                    (made.added, Index::of(&self.pins, HERE))
                });
                self.picker.pin_toggled(&place, result);
            }
            other => self.asked.push(other),
        }
    }

    fn key(&mut self, key: KeyEvent) {
        assert!(self.picker.accepts(&key));
        let task = self.picker.handle_key(key, &self.entry);
        self.perform(task);
    }

    fn types(&mut self, text: &str) {
        for c in text.chars() {
            self.key(press(KeyCode::Char(c)));
        }
    }

    fn click(&mut self, mouse: MouseEvent) {
        let task = self
            .picker
            .handle_mouse(mouse, &self.entry, &self.entry, self.now);
        self.perform(task);
    }

    fn event(&mut self, event: Event) {
        let task = self
            .picker
            .handle_event(event, &self.entry, &self.entry, self.now);
        self.perform(task);
    }

    fn draw(&mut self, area: Rect) -> Screen {
        if self.picker.mode == Mode::Browse {
            let browser = self.picker.browser.as_ref().unwrap();
            let parent = match browser.cwd.parent() {
                Some(parent) => self.list(&parent),
                None => Vec::new(),
            };
            let is_dir = browser
                .selected_path()
                .is_some_and(|place| self.is_dir(&place));
            return self.picker.render(area, Sight::Browser(parent, is_dir));
        }
        self.draw_found(area, found(&[], 0))
    }

    fn draw_found(&mut self, area: Rect, found: Findings) -> Screen {
        self.picker
            .render(area, Sight::Search(search_areas(area), found))
    }

    fn refresh_preview(&mut self) -> bool {
        let place = self.picker.preview_target(&self.entry);
        let dir = place.filter(|place| self.is_dir(place));
        match self.picker.refresh_preview(dir) {
            PreviewStep::Keep => false,
            PreviewStep::Dropped => true,
            PreviewStep::Load(dir) => {
                let entries = self.list(&dir);
                self.picker.load_preview(dir, Some(entries));
                true
            }
        }
    }

    fn cwd(&self) -> String {
        shown(&self.picker.browser.as_ref().unwrap().cwd)
    }

    fn selected(&self) -> usize {
        self.picker.browser.as_ref().unwrap().selected
    }

    fn filter(&self) -> String {
        self.picker.browser.as_ref().unwrap().filter.clone()
    }

    fn selected_path(&self) -> Option<String> {
        let browser = self.picker.browser.as_ref().unwrap();
        browser.selected_path().map(|place| shown(&place))
    }

    fn button(&self, nav: Nav) -> Option<Rect> {
        let nav = self.picker.targets.nav.iter().find(|button| button.nav == nav);
        nav.map(|button| button.area)
    }

    fn spot(&self, path: &str) -> Option<Rect> {
        let spots = &self.picker.targets.paths;
        spots
            .iter()
            .find(|spot| shown(&spot.path) == path)
            .map(|spot| spot.area)
    }

    fn last(&self) -> &Task {
        self.asked.last().unwrap()
    }
}

fn found(displays: &[&str], total: u32) -> Findings {
    Findings {
        count: displays.len() as u32,
        total,
        scanning: false,
        error: None,
        candidates: displays
            .iter()
            .enumerate()
            .map(|(row, display)| Candidate {
                row: row as u32,
                entry: Entry {
                    path: at(&format!("/w/{display}")),
                    display: display.to_string(),
                },
                hits: Vec::new(),
            })
            .collect(),
        destination: None,
    }
}

fn words(line: &Line) -> String {
    line.spans.iter().map(|span| span.text.as_str()).collect()
}

fn text_of(screen: &Screen) -> String {
    let mut out = String::new();
    for draw in &screen.draws {
        match draw {
            Draw::Frame { title, bottom, .. } => {
                out += &words(title);
                out.push('\n');
                out += &words(bottom);
                out.push('\n');
            }
            Draw::Text { lines, .. } | Draw::Rows { lines, .. } => {
                for line in lines {
                    out += &words(line);
                    out.push('\n');
                }
            }
        }
    }
    out
}

const WINDOW: Rect = Rect {
    x: 0,
    y: 0,
    width: 100,
    height: 25,
};

#[test]
fn double_click_enters_directory_and_filters_its_children() {
    let root = "/tmp/double-click";
    let mut desk = Desk::new(
        root,
        Mode::Browse,
        &["/tmp/double-click/C/ssl", "/tmp/double-click/C/other"],
        &[],
    );
    desk.draw(WINDOW);
    let area = desk.picker.targets.rows;
    let click = left(area.x, area.y);
    desk.click(click);
    assert_eq!(desk.cwd(), root);
    desk.click(MouseEvent {
        kind: MouseKind::Up(MouseButton::Left),
        ..click
    });
    desk.draw(WINDOW);
    desk.click(click);
    assert_eq!(desk.cwd(), "/tmp/double-click/C");
    desk.types("ssl");
    assert_eq!(desk.picker.browser.as_ref().unwrap().rows().len(), 1);
    assert_eq!(
        desk.selected_path(),
        Some("/tmp/double-click/C/ssl".to_string())
    );
    let screen = text_of(&desk.draw(WINDOW));
    assert!(!screen.contains("[Filter:"), "the label came back");
    assert!(
        screen.contains("/tmp/double-click/C"),
        "the path row should name the folder being filtered"
    );
}

#[test]
fn a_slow_or_distant_second_click_is_a_first_one() {
    let mut desk = Desk::new("/w", Mode::Browse, &["/w/a/b", "/w/c"], &[]);
    desk.draw(WINDOW);
    let area = desk.picker.targets.rows;
    desk.click(left(area.x, area.y));
    desk.now += DOUBLE_CLICK + 1;
    desk.click(left(area.x, area.y));
    assert_eq!(desk.cwd(), "/w");
    desk.click(left(area.x + 1, area.y));
    assert_eq!(desk.cwd(), "/w");
    desk.click(mouse(MouseKind::ScrollUp, area.x, area.y));
    desk.click(left(area.x + 1, area.y));
    assert_eq!(desk.cwd(), "/w");
    desk.now += DOUBLE_CLICK;
    desk.click(left(area.x + 1, area.y));
    assert_eq!(desk.cwd(), "/w/a");
}

#[test]
fn switching_modes_restores_browse_location_selection_and_filter() {
    let mut desk = Desk::new(
        "/tmp/mode-restore",
        Mode::Browse,
        &["/tmp/mode-restore/ahktest", "/tmp/mode-restore/AWS"],
        &[],
    );
    desk.picker.browser.as_mut().unwrap().set_filter("AWS");
    let selected = desk.selected_path();
    let task = desk.picker.switch_mode(1, &None);
    desk.perform(task);
    assert_eq!(desk.picker.mode, Mode::Dirs);
    let task = desk.picker.switch_mode(-1, &None);
    desk.perform(task);
    assert_eq!(desk.cwd(), "/tmp/mode-restore");
    assert_eq!(desk.filter(), "AWS");
    assert_eq!(desk.selected_path(), selected);
}

#[test]
fn the_first_visit_to_the_browser_starts_from_the_search_selection() {
    let mut desk = Desk::new("/w", Mode::Favorites, &["/w/a/b"], &["/w/a/notes.txt"]);
    desk.entry = entry("/w/a/b", "/w/a/b");
    desk.key(press(KeyCode::Tab));
    assert_eq!(desk.cwd(), "/w/a/b");

    // A file stands for its directory.
    let mut desk = Desk::new("/w", Mode::Files, &["/w/a"], &["/w/a/notes.txt"]);
    desk.entry = entry("/w/a/notes.txt", "a/notes.txt");
    let task = desk.picker.switch_mode(3, &desk.entry);
    desk.perform(task);
    assert_eq!(desk.cwd(), "/w/a");

    // What is gone leaves the root.
    let mut desk = Desk::new("/w", Mode::Dirs, &[], &[]);
    desk.entry = entry("/w/gone", "gone");
    desk.key(press(KeyCode::BackTab));
    assert_eq!(desk.picker.mode, Mode::Browse);
    assert_eq!(desk.cwd(), "/w");
}

#[test]
fn a_notice_reaches_the_screen_in_its_own_colour() {
    for mode in [Mode::Browse, Mode::Dirs] {
        let mut desk = Desk::new("/tmp/notice", mode, &[], &[]);
        desk.picker.notice = Some("Cannot open it: denied".to_string());
        let screen = desk.draw(Rect::new(0, 0, 90, 12));
        let bottom = screen
            .draws
            .iter()
            .find_map(|draw| match draw {
                Draw::Frame { bottom, .. } if words(bottom).contains("Cannot") => Some(bottom),
                _ => None,
            })
            .unwrap_or_else(|| panic!("{mode:?}: {}", text_of(&screen)));
        let fg = bottom.spans[0].tone.style().fg;
        assert_eq!(fg, Tone::NoticeBad.style().fg, "{mode:?}");
        assert_ne!(fg, Tone::Border.style().fg);
    }
}

#[test]
fn alt_chars_do_not_reach_the_search_or_browse_filter() {
    for mode in [Mode::Dirs, Mode::Browse] {
        let mut desk = Desk::new("/tmp/alt", mode, &["/tmp/alt/child"], &[]);
        desk.key(KeyEvent::new(KeyCode::Char('d'), modifiers(false, true)));
        assert!(desk.picker.current_text().is_empty(), "{mode:?}");
        desk.key(press(KeyCode::Char('d')));
        assert_eq!(desk.picker.current_text(), "d", "{mode:?}");
    }
}

#[test]
fn a_click_left_over_from_the_action_menu_does_not_reach_the_list() {
    let mut desk = Desk::new("/tmp/guard", Mode::Browse, &["/tmp/guard/child/grandchild"], &[]);
    let start = desk.cwd();
    desk.picker.targets.rows = Rect::new(0, 0, 20, 5);
    desk.picker.targets.first = 0;
    desk.picker.targets.count = 1;

    // Picking from the menu closes it under the pointer, so the rest of a
    // quick double tap must not land on whatever moved into that spot.
    desk.picker.block_clicks(desk.now);
    desk.click(left(0, 0));
    assert_eq!(desk.cwd(), start, "a leftover click got through");
    assert!(desk.picker.last_click.is_none());

    // The wheel is not a press and keeps working.
    desk.click(mouse(MouseKind::ScrollDown, 0, 0));

    // Once the moment has passed, clicks count again.
    desk.picker.clicks_blocked_until = Some(desk.now);
    assert!(!desk.picker.clicks_blocked(desk.now));
}

#[test]
fn opening_a_path_elsewhere_always_reports_what_happened() {
    let mut desk = Desk::new("/tmp/report", Mode::Browse, &[], &["/tmp/report/report.xlsx"]);
    let file = at("/tmp/report/report.xlsx");
    let now = desk.now;

    desk.picker.report_open(&file, Ok(()), now);
    assert_eq!(desk.picker.notice.as_deref(), Some("Opened: report.xlsx"));

    assert!(desk.picker.notice_until.is_some());
    desk.picker.expire_notice(now);
    assert!(
        desk.picker.notice.is_some(),
        "it should not vanish immediately"
    );
    desk.picker.notice_until = Some(now);
    assert!(desk.picker.expire_notice(now));
    assert!(
        desk.picker.notice.is_none(),
        "it should retire once its time is up"
    );

    desk.picker
        .report_open(&file, Err("missing".to_string()), now);
    let notice = desk.picker.notice.clone().unwrap();
    assert!(notice.starts_with("Cannot open report.xlsx"), "{notice}");
    assert!(notice.contains("missing"), "{notice}");
    assert!(
        desk.picker.notice_until.is_none(),
        "a failure must not time out"
    );
    assert!(!desk.picker.expire_notice(now + NOTICE_LINGER));
    assert!(desk.picker.notice.is_some());
}

#[test]
fn a_confirmation_goes_quiet_exactly_when_its_time_is_up() {
    let mut desk = Desk::new("/w", Mode::Dirs, &[], &[]);
    desk.picker.set_transient_notice("Opened: x".to_string(), 1000);
    assert!(!desk.picker.expire_notice(1000 + NOTICE_LINGER - 1));
    assert!(desk.picker.expire_notice(1000 + NOTICE_LINGER));
    assert_eq!(desk.picker.notice, None);
    assert!(!desk.picker.expire_notice(1000 + NOTICE_LINGER));
}

#[test]
fn the_mode_tabs_answer_clicks_from_the_border_they_moved_to() {
    let mut desk = Desk::new("/tmp/tabs", Mode::Browse, &[], &[]);
    let area = Rect::new(0, 0, 100, 12);
    desk.draw(area);
    assert_eq!(desk.picker.targets.header.y, area.y);
    let (x, y) = (desk.picker.targets.modes_x, desk.picker.targets.header.y);
    desk.click(left(x, y));
    assert_eq!(desk.picker.mode, Mode::Dirs);

    // Each tab starts one column behind the one before it.
    for (offset, mode) in [
        (0, Mode::Dirs),
        (3, Mode::Dirs),
        (5, Mode::Files),
        (11, Mode::Recent),
        (18, Mode::Favorites),
        (28, Mode::Browse),
    ] {
        desk.draw(area);
        desk.click(left(x + offset, y));
        assert_eq!(desk.picker.mode, mode);
    }
    // The bars between them answer nothing.
    desk.draw(area);
    desk.click(left(x + 4, y));
    assert_eq!(desk.picker.mode, Mode::Browse);
}

#[test]
fn clicking_a_step_of_the_header_path_jumps_to_that_ancestor() {
    let deep = "/tmp/crumb/one/two/three";
    let mut desk = Desk::new(deep, Mode::Browse, &[], &[]);
    desk.draw(Rect::new(0, 0, 120, 20));
    let target = "/tmp/crumb/one";
    let area = desk
        .picker
        .targets
        .crumbs
        .iter()
        .find(|spot| shown(&spot.path) == target)
        .expect("the ancestor is clickable")
        .area;
    desk.click(left(area.x, area.y));
    assert_eq!(desk.cwd(), target);

    // The last step is where we already are.
    desk.draw(Rect::new(0, 0, 120, 20));
    let area = desk.picker.targets.crumbs.last().unwrap().area;
    desk.click(left(area.x, area.y));
    assert_eq!(desk.cwd(), target);
    assert_eq!(desk.picker.trail(false).len(), 1);
}

#[test]
fn what_is_cut_off_at_the_edge_does_not_answer_clicks() {
    let mut desk = Desk::new("/aaaa/bbbbbbbbbbbbbbbbbbbb", Mode::Browse, &[], &[]);
    // Twelve cells inside the border: the buttons, a gap, and part of the path.
    desk.draw(Rect::new(0, 0, 17, 12));
    let steps: Vec<String> = desk
        .picker
        .targets
        .crumbs
        .iter()
        .map(|spot| shown(&spot.path))
        .collect();
    assert_eq!(steps, ["/", "/aaaa"]);
    assert!(desk.button(Nav::Up).is_some());
    desk.draw(Rect::new(0, 0, 9, 12));
    assert!(desk.button(Nav::Up).is_none());
}

#[test]
fn header_buttons_move_back_forward_and_up_and_dim_where_they_cannot() {
    let root = "/tmp/nav";
    let child = "/tmp/nav/child";
    let mut desk = Desk::new(child, Mode::Browse, &["/tmp/nav/child/grandchild"], &[]);
    let area = Rect::new(0, 0, 90, 20);

    // Nothing visited yet, so only the step to the parent is offered.
    desk.draw(area);
    assert!(desk.button(Nav::Back).is_none());
    assert!(desk.button(Nav::Forward).is_none());
    let up = desk.button(Nav::Up).expect("up is available below the root");
    desk.click(left(up.x, up.y));
    assert_eq!(desk.cwd(), root);

    // Having moved, back becomes available and returns to the child.
    desk.draw(area);
    let back = desk.button(Nav::Back).expect("back after moving up");
    desk.click(left(back.x, back.y));
    assert_eq!(desk.cwd(), child);

    // And forward retraces that step.
    desk.draw(area);
    let forward = desk.button(Nav::Forward).expect("forward after going back");
    desk.click(left(forward.x, forward.y));
    assert_eq!(desk.cwd(), root);
}

#[test]
fn drawing_never_reads_a_directory_so_a_scroll_burst_costs_nothing() {
    let root = "/tmp/preview-idle";
    let mut desk = Desk::new(root, Mode::Browse, &["/tmp/preview-idle/child"], &[]);
    for _ in 0..5 {
        desk.draw(Rect::new(0, 0, 90, 20));
        assert!(
            desk.picker.preview.is_none(),
            "rendering loaded a directory listing"
        );
    }
    assert!(desk.refresh_preview());
    let preview = desk.picker.preview.as_ref().expect("listing after refresh");
    assert_eq!(shown(&preview.dir), "/tmp/preview-idle/child");
    assert!(preview.names.is_empty(), "child is empty: {:?}", preview.names);
    assert!(!desk.refresh_preview());
}

#[test]
fn search_preview_click_targets_child_without_changing_search_for_menu() {
    let root = "/tmp/preview-mouse";
    let child = "/tmp/preview-mouse/child";
    let mut desk = Desk::new(root, Mode::Dirs, &[child], &[]);
    desk.picker.preview = Some(Preview {
        dir: at(root),
        names: list_dir(Some(desk.list(&at(root))), HERE),
    });
    let mut screen = Screen::new();
    let mut spots = Vec::new();
    desk.picker.render_preview(
        &mut screen,
        &mut spots,
        Rect::new(40, 3, 35, 12),
        &Some(at(root)),
    );
    desk.picker.targets.paths = spots;
    let first = &desk.picker.targets.paths[0];
    let area = first.area;
    assert_eq!(shown(&first.path), child);
    desk.click(ctrl_right(area.x, area.y));
    assert_eq!(shown(&desk.picker.menu.as_ref().unwrap().target), child);
    assert_eq!(desk.picker.mode, Mode::Dirs);
    desk.key(press(KeyCode::Esc));
    desk.click(left(area.x, area.y));
    assert_eq!(desk.picker.mode, Mode::Browse);
    assert_eq!(desk.cwd(), child);
}

#[test]
fn mouse_uses_rendered_rows_and_ignores_blank_space_and_disabled_input() {
    let root = "/tmp/mouse";
    let child = "/tmp/mouse/item-00/child";
    let mut desk = Desk::new(root, Mode::Dirs, &[child], &[]);
    for index in 0..30 {
        desk.add_dir(&format!("/tmp/mouse/item-{index:02}"));
    }
    let entries = desk.list(&at(root));
    desk.picker.open_browser(at(root), entries);
    desk.picker.browser.as_mut().unwrap().selected = 20;
    let area = Rect::new(2, 5, 90, 15);
    desk.draw(area);
    let rows = desk.picker.targets.rows;
    let first = desk.picker.targets.first;
    assert!(first > 0);
    desk.click(left(rows.x, rows.y));
    assert_eq!(desk.selected(), first);
    desk.click(mouse(MouseKind::ScrollDown, rows.x, rows.y));
    assert_eq!(desk.selected(), first + 3);
    desk.picker.config.mouse = false;
    desk.click(mouse(MouseKind::ScrollUp, rows.x, rows.y));
    assert_eq!(desk.selected(), first + 3);
    desk.picker.config.mouse = true;
    desk.picker.set_query("item-00");
    desk.refresh_preview();
    desk.draw(area);
    let rows = desk.picker.targets.rows;
    desk.click(left(rows.x, rows.y + 2));
    assert_eq!(desk.selected(), 0);
    let hit = desk.spot(child).unwrap();
    desk.click(ctrl_right(hit.x, hit.y));
    assert_eq!(shown(&desk.picker.menu.as_ref().unwrap().target), child);
    assert_eq!(desk.cwd(), root);
    desk.key(press(KeyCode::Esc));
    assert!(desk.picker.menu.is_none());
    desk.click(ctrl_right(rows.x, rows.y));
    assert_eq!(
        shown(&desk.picker.menu.as_ref().unwrap().target),
        "/tmp/mouse/item-00"
    );
    desk.key(press(KeyCode::Esc));
    desk.click(left(hit.x, hit.y));
    assert_eq!(desk.cwd(), child);
    desk.draw(area);
    // Another sibling in the parent column navigates to it.
    let sibling = "/tmp/mouse/item-00/sibling";
    desk.add_dir(sibling);
    let visit = desk.picker.browser.as_ref().unwrap().refresh();
    desk.perform(Task::Read(visit));
    desk.draw(area);
    let hit = desk.spot(sibling).unwrap();
    desk.click(left(hit.x, hit.y));
    assert_eq!(desk.cwd(), sibling);
    let (x, y) = (desk.picker.targets.modes_x, desk.picker.targets.header.y);
    desk.click(left(x, y));
    assert_eq!(desk.picker.mode, Mode::Dirs);
}

#[test]
fn escape_clears_active_filter_before_exit_and_ctrl_c_exits_immediately() {
    for mode in [Mode::Browse, Mode::Dirs] {
        let mut desk = Desk::new("/tmp/escape-nonexistent-root", mode, &[], &[]);
        desk.picker.set_query("ss");
        let escape = press(KeyCode::Esc);
        let task = desk.picker.handle_key(escape, &None);
        assert!(!matches!(task, Task::Cancel));
        assert!(desk.picker.current_text().is_empty());
        assert!(matches!(desk.picker.handle_key(escape, &None), Task::Cancel));
        desk.picker.set_query("ss");
        assert!(matches!(
            desk.picker.handle_key(ctrl('c'), &None),
            Task::Cancel
        ));
    }
}

#[test]
fn history_errors_are_visible_on_entry_and_mode_switch_but_empty_history_is_distinct() {
    for via_tab in [false, true] {
        for error in [
            Some("cannot run zoxide: missing"),
            Some("zoxide query failed: fixture error"),
            None,
        ] {
            let mut desk = Desk::new("/tmp/history", Mode::Recent, &[], &[]);
            if via_tab {
                desk.picker.mode = Mode::Files;
                let task = desk.picker.switch_mode(1, &None);
                desk.perform(task);
            }
            let found = Findings {
                error: error.map(str::to_string),
                ..found(&[], 0)
            };
            let text = text_of(&desk.draw_found(Rect::new(0, 0, 100, 16), found));
            if let Some(error) = error {
                assert!(text.contains(error), "{text}");
                assert!(text.contains("F5: retry"));
                assert!(!text.contains("No history yet"));
            } else {
                assert!(text.contains("No history yet"));
            }
            let task = desk.picker.switch_mode(1, &None);
            desk.perform(task);
            assert_eq!(desk.picker.mode, Mode::Favorites);
        }
    }
}

#[test]
fn mode_order_wraps_both_ways() {
    assert_eq!(mode_index(Mode::Dirs), 0);
    assert_eq!(mode_index(Mode::Browse), 4);
    assert_eq!(mode_after(Mode::Recent, 1), Mode::Favorites);
    assert_eq!(mode_after(Mode::Favorites, 1), Mode::Browse);
    assert_eq!(mode_after(Mode::Browse, 1), Mode::Dirs);
    assert_eq!(mode_after(Mode::Dirs, -1), Mode::Browse);
    for index in 0..5 {
        assert_eq!(mode_index(mode_at(index)), index);
        assert_eq!(mode_after(mode_after(mode_at(index), 3), -3), mode_at(index));
    }
}

#[test]
fn the_search_screen_shows_query_counts_rows_and_preview() {
    let mut desk = Desk::new("/w", Mode::Dirs, &["/w/alpha/deep", "/w/beta"], &[]);
    desk.types("a");
    desk.entry = entry("/w/alpha", "alpha");
    desk.refresh_preview();
    let found = Findings {
        destination: Some(at("/w/alpha")),
        ..two_found()
    };
    let screen = desk.draw_found(Rect::new(0, 0, 100, 12), found);
    let text = text_of(&screen);
    for part in [
        "[dirs|files|recent|favorites|browse] ",
        "> a\n",
        "  2/7 ──",
        "/w\n",
        "▌ alpha\n",
        "  beta\n",
        " alpha \n",
        "deep/\n",
    ] {
        assert!(text.contains(part), "{part:?} in\n{text}");
    }
    assert_eq!(desk.picker.targets.count, 2);
    assert_eq!(desk.picker.targets.first, 0);
    // The cursor stands behind the query.
    let (x, _) = screen.cursor.unwrap();
    assert_eq!(x, 1 + 2 + 1);

    // A narrow window has no preview.
    let found = Findings {
        destination: Some(at("/w/alpha")),
        ..two_found()
    };
    let text = text_of(&desk.draw_found(Rect::new(0, 0, 79, 12), found));
    assert!(!text.contains("deep/"), "{text}");
    assert!(desk.picker.targets.paths.is_empty());
}

fn two_found() -> Findings {
    found(&["alpha", "beta"], 7)
}

#[test]
fn the_spinner_turns_every_fourth_frame_of_a_scan() {
    let mut desk = Desk::new("/w", Mode::Files, &[], &[]);
    let mut turns = String::new();
    for _ in 0..17 {
        let found = Findings {
            scanning: true,
            ..found(&[], 3)
        };
        let text = text_of(&desk.draw_found(Rect::new(0, 0, 60, 10), found));
        let counts = text.lines().find(|line| line.contains("0/3")).unwrap();
        turns.push(counts.chars().next().unwrap());
    }
    assert_eq!(turns, "|||////----\\\\\\\\||");
    let text = text_of(&desk.draw_found(Rect::new(0, 0, 60, 10), found(&[], 3)));
    assert!(text.contains("  0/3 "), "{text}");
    assert_eq!(desk.picker.frame_count, 17);
}

#[test]
fn empty_favorites_say_how_to_pin() {
    let mut desk = Desk::new("/w", Mode::Favorites, &[], &[]);
    let text = text_of(&desk.draw(WINDOW));
    assert!(text.contains("No favorites yet. Ctrl-B: pin a folder in another mode. Tab: mode"));
    assert!(text.contains("pinned directories"));
}

#[test]
fn pinned_candidates_carry_the_star() {
    let mut desk = Desk::new("/w", Mode::Dirs, &["/w/alpha", "/w/beta"], &[]);
    desk.entry = entry("/w/beta", "beta");
    desk.key(ctrl('b'));
    assert_eq!(desk.pins, ["/w/beta"]);
    assert_eq!(desk.picker.notice.as_deref(), Some("Pinned: /w/beta"));
    let text = text_of(&desk.draw_found(WINDOW, two_found()));
    assert!(text.contains("▌ alpha\n"), "{text}");
    assert!(text.contains("  ★ beta\n"), "{text}");
    desk.key(ctrl('b'));
    assert!(desk.pins.is_empty());
    assert_eq!(desk.picker.notice.as_deref(), Some("Unpinned: /w/beta"));
}

#[test]
fn pinning_without_a_selection_says_what_to_do() {
    let mut desk = Desk::new("/w", Mode::Dirs, &[], &[]);
    desk.key(ctrl('b'));
    assert_eq!(
        desk.picker.notice.as_deref(),
        Some("Nothing selected. Switch to browse to pin this folder.")
    );
    desk.picker
        .pin_toggled(&at("/w"), Err("disk full".to_string()));
    assert_eq!(
        desk.picker.notice.as_deref(),
        Some("Cannot update favorites: disk full")
    );
    desk.picker.reload_pinned(Err("bad file".to_string()));
    assert_eq!(
        desk.picker.notice.as_deref(),
        Some("Cannot load favorite markers: bad file")
    );
}

#[test]
fn keys_move_the_browser() {
    let mut desk = Desk::new("/w", Mode::Browse, &["/w/a/b", "/w/c"], &["/w/z.txt"]);
    desk.key(press(KeyCode::Right));
    assert_eq!(desk.cwd(), "/w/a");
    desk.key(ctrl('l'));
    assert_eq!(desk.cwd(), "/w/a/b");
    desk.key(ctrl('h'));
    desk.key(press(KeyCode::Left));
    assert_eq!(desk.cwd(), "/w");
    assert_eq!(desk.selected_path().unwrap(), "/w/a");
    desk.key(press(KeyCode::PageDown));
    assert_eq!(desk.selected_path().unwrap(), "/w/z.txt");
    desk.key(press(KeyCode::Right));
    assert_eq!(desk.cwd(), "/w");
    desk.key(ctrl('k'));
    assert_eq!(desk.selected_path().unwrap(), "/w/c");
    desk.key(press(KeyCode::PageUp));
    assert_eq!(desk.selected_path().unwrap(), "/w/a");
    desk.key(press(KeyCode::Down));
    desk.key(ctrl('j'));
    desk.key(press(KeyCode::Up));
    assert_eq!(desk.selected_path().unwrap(), "/w/c");
    // Backspace takes the filter back, and climbs once there is none.
    desk.types("zt");
    assert_eq!(desk.filter(), "zt");
    desk.key(press(KeyCode::Backspace));
    assert_eq!(desk.filter(), "z");
    desk.key(ctrl('u'));
    assert_eq!(desk.filter(), "");
    desk.key(press(KeyCode::Backspace));
    assert_eq!(desk.cwd(), "/");
    // History goes back the way it came, and says so where it ends.
    for expected in ["/w", "/w/a", "/w/a/b", "/w/a", "/w"] {
        desk.key(KeyEvent::new(KeyCode::Left, modifiers(false, true)));
        assert_eq!(desk.cwd(), expected);
    }
    desk.key(KeyEvent::new(KeyCode::Left, modifiers(false, true)));
    assert_eq!(desk.cwd(), "/w");
    assert_eq!(
        desk.picker.notice.as_deref(),
        Some("No available directory in history")
    );
    desk.key(KeyEvent::new(KeyCode::Right, modifiers(false, true)));
    assert_eq!(desk.cwd(), "/w/a");
    assert_eq!(desk.picker.notice, None);
}

#[test]
fn history_skips_directories_that_are_gone() {
    let mut desk = Desk::new("/w", Mode::Browse, &["/w/a/b"], &[]);
    desk.key(press(KeyCode::Right));
    desk.key(press(KeyCode::Right));
    assert_eq!(desk.cwd(), "/w/a/b");
    desk.dirs.retain(|dir| dir != "/w/a");
    desk.key(KeyEvent::new(KeyCode::Left, modifiers(false, true)));
    assert_eq!(desk.cwd(), "/w");
}

#[test]
fn keys_move_the_search() {
    let mut desk = Desk::new("/w", Mode::Dirs, &["/w/a"], &["/w/n.txt"]);
    desk.key(press(KeyCode::Down));
    desk.key(ctrl('j'));
    assert_eq!(desk.picker.source().selected, 2);
    desk.key(ctrl('k'));
    assert_eq!(desk.picker.source().selected, 1);
    desk.picker.clamp(1);
    assert_eq!(desk.picker.source().selected, 0);
    desk.key(press(KeyCode::Up));
    assert_eq!(desk.picker.source().selected, 0);
    desk.types("ab");
    assert!(matches!(desk.last(), Task::Requery(true)));
    desk.key(press(KeyCode::Backspace));
    assert_eq!(desk.picker.query, "a");
    assert!(matches!(desk.last(), Task::Requery(false)));
    desk.key(ctrl('u'));
    assert_eq!(desk.picker.query, "");

    desk.entry = entry("/w/n.txt", "n.txt");
    desk.key(ctrl('o'));
    assert!(matches!(desk.last(), Task::Reveal(place) if shown(place) == "/w/n.txt"));
    desk.key(ctrl('e'));
    assert!(matches!(desk.last(), Task::Launch(place) if shown(place) == "/w/n.txt"));
    desk.key(press(KeyCode::Enter));
    assert!(matches!(desk.last(), Task::Accept));
    let chosen = desk.picker.accepted(&desk.entry);
    assert_eq!(
        chosen_path(&chosen, Mode::Files).map(|place| shown(&place)),
        Some("/w".to_string())
    );
    assert_eq!(
        chosen_path(&chosen, Mode::Dirs).map(|place| shown(&place)),
        Some("/w/n.txt".to_string())
    );
    assert_eq!(shown(&output_path(&chosen.unwrap(), Mode::Files)), "/w");
    assert_eq!(desk.picker.accepted(&None), None);
}

#[test]
fn accepting_in_the_browser_takes_a_directory() {
    let mut desk = Desk::new("/w", Mode::Browse, &["/w/a"], &["/w/n.txt"]);
    let chosen = desk.picker.accepted(&None);
    assert_eq!(chosen.as_ref().unwrap().display, "/w/a");
    desk.key(press(KeyCode::Down));
    let chosen = desk.picker.accepted(&None);
    assert_eq!(chosen.unwrap().display, "/w");
}

#[test]
fn a_right_click_shows_the_item_or_opens_its_menu() {
    let mut desk = Desk::new("/w", Mode::Browse, &["/w/a"], &[]);
    desk.draw(WINDOW);
    let area = desk.picker.targets.rows;
    desk.click(mouse(MouseKind::Down(MouseButton::Right), area.x, area.y));
    assert!(matches!(desk.last(), Task::Show(place) if shown(place) == "/w/a"));
    desk.click(ctrl_right(area.x, area.y));
    assert_eq!(shown(&desk.picker.menu.as_ref().unwrap().target), "/w/a");
    // With the menu open the list does not hear the mouse.
    desk.click(left(area.x, area.y));
    assert!(desk.picker.menu.is_some());
}

#[test]
fn a_click_in_the_menu_runs_an_action_and_the_rest_of_the_tap_is_lost() {
    let mut desk = Desk::new("/w", Mode::Browse, &["/w/a"], &[]);
    desk.key(ctrl('p'));
    desk.draw(WINDOW);
    assert_eq!(desk.picker.targets.count, 0);
    let rows = desk.picker.menu.as_ref().unwrap().mouse_rows;
    desk.event(Event::Mouse(left(rows.x, rows.y + 2)));
    match desk.last() {
        Task::Execute(action, target) => {
            assert_eq!(action.name(), "Copy path");
            assert_eq!(shown(target), "/w/a");
        }
        other => panic!("{other:?}"),
    }
    assert!(desk.picker.menu.is_none());
    desk.draw(WINDOW);
    let area = desk.picker.targets.rows;
    desk.event(Event::Mouse(left(area.x, area.y)));
    assert!(desk.picker.last_click.is_none());
    desk.now += CLICK_GUARD;
    desk.event(Event::Mouse(left(area.x, area.y)));
    assert!(desk.picker.last_click.is_some());
}

#[test]
fn other_events_change_nothing() {
    let mut desk = Desk::new("/w", Mode::Dirs, &[], &[]);
    desk.event(Event::Resize(40));
    assert!(matches!(desk.last(), Task::Resize(40)));
    desk.event(Event::Other);
    assert!(matches!(desk.last(), Task::Nothing));
    let mut release = press(KeyCode::Char('x'));
    release.release = true;
    desk.event(Event::Key(release));
    assert_eq!(desk.picker.query, "");
    desk.event(Event::Key(press(KeyCode::Char('x'))));
    assert_eq!(desk.picker.query, "x");
}

#[test]
fn leaving_the_browser_searches_from_where_it_was() {
    let mut desk = Desk::new("/w", Mode::Browse, &["/w/a/b"], &[]);
    desk.key(press(KeyCode::Right));
    desk.key(press(KeyCode::Tab));
    assert_eq!(desk.picker.mode, Mode::Dirs);
    assert_eq!(shown(&desk.picker.root), "/w/a");
    assert!(desk.picker.source().fresh);
    desk.picker.started();
    assert!(!desk.picker.source().fresh);
    // The same root again keeps what was found.
    desk.key(press(KeyCode::BackTab));
    desk.key(press(KeyCode::Tab));
    assert!(!desk.picker.source().fresh);
    // A refresh starts over.
    desk.key(press(KeyCode::F(5)));
    assert!(desk.picker.source().fresh);
    assert!(desk.picker.source().browsing(Mode::Dirs));
    assert!(!desk.picker.source().browsing(Mode::Recent));
}

#[test]
fn a_refresh_reads_the_listing_again_and_keeps_the_place() {
    let mut desk = Desk::new("/w", Mode::Browse, &["/w/a", "/w/m"], &[]);
    desk.key(press(KeyCode::Down));
    assert_eq!(desk.selected_path().unwrap(), "/w/m");
    desk.add_dir("/w/b");
    desk.key(press(KeyCode::F(5)));
    assert_eq!(desk.picker.browser.as_ref().unwrap().items().len(), 3);
    assert_eq!(desk.selected_path().unwrap(), "/w/m");
    let visit = desk.picker.resume("build: exit status: 0".to_string());
    assert!(visit.is_some());
    assert_eq!(
        desk.picker.notice.as_deref(),
        Some("build: exit status: 0")
    );
}

#[test]
fn scanned_candidates_are_shown_shallow_first() {
    let displays: Vec<String> = ["b/c", "B", "a/x/y", "a", "c"]
        .iter()
        .map(|display| display.to_string())
        .collect();
    assert_eq!(browse_order(&displays, HERE), [3, 1, 4, 0, 2]);
    let order = Some(vec![3, 1]);
    assert_eq!(visible(&order, true, 1), Shown::Item(1));
    assert_eq!(visible(&order, true, 2), Shown::Missing);
    assert_eq!(visible(&order, false, 2), Shown::Matched(2));
    assert_eq!(visible(&None, true, 2), Shown::Matched(2));
}

#[test]
fn a_single_candidate_can_be_taken_without_asking() {
    let none: Option<Entry> = None;
    let only = entry("/w/a", "a");
    let error = Some("zoxide query failed: x".to_string());
    assert!(matches!(
        opening(true, Mode::Dirs, &None, 1, &only),
        Opening::Only(place) if shown(&place) == "/w/a"
    ));
    assert!(matches!(
        opening(true, Mode::Files, &None, 1, &only),
        Opening::Only(place) if shown(&place) == "/w"
    ));
    assert!(matches!(
        opening(true, Mode::Dirs, &None, 0, &none),
        Opening::Nothing
    ));
    assert!(matches!(
        opening(true, Mode::Recent, &error, 1, &only),
        Opening::Failed(reason) if reason == "zoxide query failed: x"
    ));
    assert!(matches!(
        opening(true, Mode::Dirs, &None, 2, &only),
        Opening::Show
    ));
    assert!(matches!(
        opening(true, Mode::Browse, &error, 0, &none),
        Opening::Show
    ));
    assert!(matches!(
        opening(false, Mode::Dirs, &error, 0, &none),
        Opening::Show
    ));
}

#[test]
fn finished_actions_report_how_they_ended() {
    assert_eq!(
        terminal_message("build", "exit status: 9"),
        "build: exit status: 9"
    );
    assert_eq!(
        detached_message(&Action::TempCopy, &Ok(Some("/t/TEMP_a".to_string()))),
        "Temporary copy: /t/TEMP_a"
    );
    assert_eq!(
        detached_message(&Action::Copy, &Ok(None)),
        "Copied: Copy path"
    );
    assert_eq!(
        detached_message(&Action::Editor, &Ok(None)),
        "Started: Open in VS Code"
    );
    assert_eq!(
        detached_message(&Action::Editor, &Err("program not found".to_string())),
        "Open in VS Code: program not found"
    );
    assert_eq!(
        copy_not_opened("/t/TEMP_a", "denied"),
        "Copy saved at /t/TEMP_a; cannot open: denied"
    );
}

#[test]
fn the_screen_is_drawn_when_something_changed_and_no_event_is_waiting() {
    let still = Tick {
        finished: false,
        changed: false,
        running: false,
        busy: false,
    };
    let mut pace = Pace::new();
    assert!(!pace.draws(true));
    assert!(pace.draws(false));
    pace.ticked(still);
    assert!(!pace.draws(false));
    for moving in [
        Tick { finished: true, ..still },
        Tick { changed: true, ..still },
        Tick { running: true, ..still },
        Tick { busy: true, ..still },
    ] {
        pace.ticked(moving);
        assert!(pace.draws(false));
        assert!(!pace.draws(false));
    }
    // A burst costs one redraw.
    for _ in 0..20 {
        pace.touched();
        assert!(!pace.draws(true));
    }
    assert!(pace.draws(false));
    assert!(!pace.draws(false));
    assert_eq!(budget(true), 10);
    assert_eq!(budget(false), 0);
}

#[test]
fn the_browse_order_is_due_once_everything_is_listed() {
    assert!(order_due(Mode::Dirs, false, true, 5, 5));
    assert!(!order_due(Mode::Dirs, true, true, 5, 5));
    assert!(!order_due(Mode::Files, false, false, 5, 5));
    assert!(!order_due(Mode::Files, false, true, 4, 5));
    assert!(!order_due(Mode::Recent, false, true, 5, 5));
    assert!(!order_due(Mode::Favorites, false, true, 5, 5));
    assert_eq!(scan_error(None).as_deref(), Some("scan thread panicked"));
    assert_eq!(scan_error(Some(Ok(()))), None);
    assert_eq!(
        scan_error(Some(Err("blocked".to_string()))).as_deref(),
        Some("blocked")
    );
}

#[test]
fn a_pause_ends_with_enter_escape_or_control_c() {
    assert!(ends_pause(&press(KeyCode::Enter)));
    assert!(ends_pause(&press(KeyCode::Esc)));
    assert!(ends_pause(&ctrl('c')));
    assert!(!ends_pause(&press(KeyCode::Char('c'))));
    let mut release = press(KeyCode::Enter);
    release.release = true;
    assert!(!ends_pause(&release));
    assert_eq!(resume_row(3, 24), 3);
    assert_eq!(resume_row(30, 24), 23);
    assert_eq!(resume_row(30, 0), 0);
}

#[test]
fn only_the_rows_on_the_screen_are_fetched() {
    let mut desk = Desk::new("/w", Mode::Dirs, &[], &[]);
    let areas = search_areas(Rect::new(0, 0, 60, 10));
    let height = areas.rows.height as u32;
    assert_eq!(height, 5);
    assert_eq!(desk.picker.list_window(areas, 0), (0, 0));
    assert_eq!(desk.picker.list_window(areas, 3), (0, 3));
    assert_eq!(desk.picker.list_window(areas, 50), (0, 5));
    desk.picker.select(10);
    assert_eq!(desk.picker.list_window(areas, 50), (6, 11));
    desk.picker.select(49);
    assert_eq!(desk.picker.list_window(areas, 50), (45, 50));

    // A click selects what is drawn in the row under it.
    let found = Findings {
        candidates: (45..50)
            .map(|row| Candidate {
                row,
                entry: entry(&format!("/w/{row}"), &format!("{row}")).unwrap(),
                hits: Vec::new(),
            })
            .collect(),
        count: 50,
        ..found(&[], 50)
    };
    let text = text_of(&desk.draw_found(Rect::new(0, 0, 60, 10), found));
    assert!(text.contains("▌ 49\n"), "{text}");
    let rows = desk.picker.targets.rows;
    desk.click(left(rows.x, rows.y + 1));
    assert_eq!(desk.picker.source().selected, 46);
}

#[test]
fn printed_places_do_not_end_in_a_separator() {
    for (place, printed) in [("/", "/"), ("/w/", "/w"), ("/w/a b//c/", "/w/a b/c")] {
        assert_eq!(shown(&at(place)), printed);
    }
}

fn stays_in(screen: &Screen, window: Rect) -> bool {
    screen.draws.iter().all(|draw| {
        let area = match draw {
            Draw::Frame { area, .. } | Draw::Text { area, .. } | Draw::Rows { area, .. } => *area,
        };
        area.x >= window.x
            && area.y >= window.y
            && area.right() <= window.right()
            && area.bottom() <= window.bottom()
    })
}

#[test]
fn nothing_is_drawn_outside_the_window() {
    for (width, height) in [(0, 0), (1, 1), (2, 2), (5, 3), (17, 4), (40, 12), (100, 24)] {
        let window = Rect::new(3, 2, width, height);
        let mut desk = Desk::new("/w/deep", Mode::Browse, &["/w/deep/a/b"], &["/w/deep/n"]);
        desk.refresh_preview();
        let screen = desk.draw(window);
        assert!(stays_in(&screen, window), "{screen:?}");
        if let Some((x, y)) = screen.cursor {
            assert!(window.contains(x, y));
        }
        desk.key(ctrl('p'));
        assert!(stays_in(&desk.draw(window), window));
        let mut desk = Desk::new("/w", Mode::Dirs, &["/w/alpha/deep"], &[]);
        desk.entry = entry("/w/alpha", "alpha");
        desk.refresh_preview();
        assert!(stays_in(&desk.draw_found(window, two_found()), window));
    }
    // The lines above the list are where they belong.
    let areas = search_areas(Rect::new(0, 0, 60, 10));
    assert_eq!(areas.prompt, Rect::new(1, 1, 58, 1));
    assert_eq!(areas.info, Rect::new(1, 2, 58, 1));
    assert_eq!(areas.header, Rect::new(1, 3, 58, 1));
    assert_eq!(areas.rows, Rect::new(1, 4, 58, 5));
    for y in [0, 7, 65_400] {
        for height in 5..60 {
            let areas = search_areas(Rect::new(y, y, 50, height));
            assert_eq!(areas.prompt, Rect::new(y + 1, y + 1, 48, 1));
            assert_eq!(areas.header, Rect::new(y + 1, y + 3, 48, 1));
            assert_eq!(areas.rows, Rect::new(y + 1, y + 4, 48, height - 5));
        }
    }
    for width in 0..130 {
        let window = Rect::new(9, 0, width, 20);
        let areas = browse_areas(window);
        for part in [areas.parent, areas.left_bar, areas.current, areas.right_bar, areas.preview] {
            assert!(part.x >= 9 && part.right() <= window.right(), "{width}: {part:?}");
        }
    }
}

#[test]
fn a_search_window_is_shared_by_list_and_preview() {
    for width in 80..300 {
        let window = Rect::new(5, 1, width, 20);
        let areas = search_areas(window);
        let preview = areas.preview.unwrap();
        assert_eq!((areas.list.x, areas.list.y, areas.list.height), (5, 1, 20));
        assert_eq!((preview.y, preview.height), (1, 20));
        assert_eq!(areas.list.right(), preview.x);
        assert_eq!(preview.right(), window.right());
        let off = 100 * i32::from(areas.list.width) - 60 * i32::from(width);
        assert!(off.abs() < 100, "{width}: {areas:?}");
    }
    assert_eq!(search_areas(Rect::new(0, 0, 100, 20)).list, Rect::new(0, 0, 60, 20));
    let narrow = Rect::new(5, 1, 79, 20);
    assert_eq!(search_areas(narrow).list, narrow);
    assert_eq!(search_areas(narrow).preview, None);
}

#[test]
fn the_browser_has_parent_current_and_preview_from_left_to_right() {
    for width in 8..300 {
        let window = Rect::new(9, 0, width, 20);
        let areas = browse_areas(window);
        assert_eq!(areas.parent.x, 10);
        assert_eq!(areas.parent.right(), areas.left_bar.x);
        assert_eq!(areas.left_bar.right(), areas.current.x);
        assert_eq!(areas.current.right(), areas.right_bar.x);
        assert_eq!(areas.right_bar.right(), areas.preview.x);
        assert_eq!(areas.preview.right(), window.right() - 1);
        assert_eq!((areas.left_bar.width, areas.right_bar.width), (1, 1));
        let inner = i32::from(width) - 2;
        let off = 100 * i32::from(areas.parent.width) - 20 * inner;
        assert!(off.abs() < 100, "{width}: {areas:?}");
        let off = 100 * i32::from(areas.current.width) - 45 * inner;
        assert!(off.abs() < 100, "{width}: {areas:?}");
        for part in [areas.parent, areas.left_bar, areas.current, areas.right_bar, areas.preview] {
            assert_eq!((part.y, part.height), (4, 15));
        }
    }
    let areas = browse_areas(Rect::new(0, 0, 102, 20));
    assert_eq!(areas.parent, Rect::new(1, 4, 20, 15));
    assert_eq!(areas.current, Rect::new(22, 4, 45, 15));
    assert_eq!(areas.preview, Rect::new(68, 4, 33, 15));
}

#[test]
fn matched_letters_of_candidates_stand_out() {
    let mut marker = Marker::new();
    let candidate = marker.mark(0, entry("/w/src/beta", "src/beta").unwrap(), "sb");
    assert_eq!(candidate.row, 0);
    assert_eq!(candidate.entry.display, "src/beta");
    assert_eq!(candidate.hits, [0, 4]);
    let none = marker.mark(1, entry("/w/c", "c").unwrap(), "");
    assert!(none.hits.is_empty());

    let mut desk = Desk::new("/w", Mode::Dirs, &["/w/src/beta"], &[]);
    desk.types("sb");
    let found = Findings {
        candidates: vec![candidate, none],
        count: 2,
        ..found(&[], 2)
    };
    let screen = desk.draw_found(Rect::new(0, 0, 60, 10), found);
    let rows = screen.draws.iter().find_map(|draw| match draw {
        Draw::Rows { lines, .. } => Some(lines),
        _ => None,
    });
    let lit = |line: &Line| -> String {
        let spans = line.spans.iter().filter(|span| span.tone == Tone::Match);
        spans.map(|span| span.text.as_str()).collect()
    };
    let rows = rows.unwrap();
    assert_eq!(lit(&rows[0]), "sb");
    assert_eq!(lit(&rows[1]), "");
}

#[test]
fn a_list_under_the_pointer_has_its_source_started() {
    let mut desk = Desk::new("/w", Mode::Dirs, &["/w/alpha", "/w/beta"], &[]);
    desk.draw_found(Rect::new(0, 0, 60, 12), two_found());
    let rows = desk.picker.targets.rows;
    let index = mode_index(Mode::Dirs);
    // No row is below the two, but the list is there.
    desk.picker.sources[index] = None;
    desk.click(left(rows.x, rows.y + 4));
    assert_eq!(desk.picker.sources[index].unwrap().selected, 0);
    // Beside the list there is nothing to start.
    desk.picker.sources[index] = None;
    desk.click(left(rows.x, rows.bottom()));
    assert!(desk.picker.sources[index].is_none());
}

#[test]
fn the_longest_query_of_backslashes_is_matched() {
    let mut desk = Desk::new("/w", Mode::Browse, &["/w/alpha"], &[]);
    let query = format!("é{}", "\\".repeat(QUERY_LIMIT - 1));
    desk.picker.set_query(&query);
    assert!(!desk.picker.accepts(&press(KeyCode::Char('x'))));
    assert!(desk.picker.accepts(&press(KeyCode::Backspace)));
    // Parsed, the word has all but one of its backslashes twice.
    let parsed = format!("é{}", "\\".repeat(2 * QUERY_LIMIT - 3));
    let mut marker = Marker::new();
    let same = marker.mark(0, entry("/w/a", &parsed).unwrap(), &query);
    assert_eq!(same.hits.len(), 2 * QUERY_LIMIT - 2);
    let word = "x".repeat(QUERY_LIMIT);
    let same = marker.mark(0, entry("/w/a", &word).unwrap(), &word);
    assert_eq!(same.hits.len(), QUERY_LIMIT);
}
