//! What the picker makes of the work that was done for it outside: reading
//! directories, running programs, changing pins.
use crate::actions::Action;
use crate::browse;
use crate::browse::{Browser, Item, Visit};
use crate::cli::Mode;
use crate::favorites::Index;
use crate::menu;
use crate::menu::Menu;
use crate::paths;
use crate::paths::Location;
use crate::picker;
use crate::picker::{output_path, Picker, Preview, PickerView};
use crate::rows;
use crate::rows::list_dir;
use crate::scan;
use crate::scan::Entry;
use crate::text;
use crate::text::{cat, cat3};
use vstd::prelude::*;

verus! {

/// The entries of a directory that was read, or nothing where it could not be.
pub open spec fn read_entries(entries: Option<Vec<Item>>) -> Option<Seq<browse::ItemView>> {
    match entries {
        Some(entries) => Some(text::views(entries@)),
        None => None,
    }
}

/// What is said when a directory was pinned or its pin taken away.
pub open spec fn pin_notice(path: Seq<char>, added: bool) -> Seq<char> {
    (if added {
        "Pinned"@
    } else {
        "Unpinned"@
    }) + ": "@ + path
}

/// What is said when a directory was pinned or its pin taken away.
pub fn pin_message(path: &str, added: bool) -> (message: String)
    ensures
        message@ == pin_notice(path@, added),
{
    let word = if added {
        "Pinned"
    } else {
        "Unpinned"
    };
    cat3(word, ": ", path)
}

/// What became of the preview.
#[derive(Debug)]
pub enum PreviewStep {
    /// It already shows what it should.
    Keep,
    /// It showed something, and now shows nothing.
    Dropped,
    /// The directory has to be read.
    Load(Location),
}

/// What became of the preview, as mathematical values.
#[verifier::ext_equal]
pub enum PreviewStepView {
    Keep,
    Dropped,
    Load(paths::LocationView),
}

impl View for PreviewStep {
    type V = PreviewStepView;

    open spec fn view(&self) -> PreviewStepView {
        match self {
            PreviewStep::Keep => PreviewStepView::Keep,
            PreviewStep::Dropped => PreviewStepView::Dropped,
            PreviewStep::Load(dir) => PreviewStepView::Load(dir@),
        }
    }
}

/// The directory to read in order to go to a place.
pub open spec fn directory_read(path: paths::LocationView, is_dir: bool) -> paths::LocationView {
    match (is_dir, path.parent()) {
        (false, Some(parent)) => parent,
        _ => path,
    }
}

/// What a run prints for the candidate that was chosen.
pub open spec fn printed(chosen: Option<scan::EntryView>, mode: Mode) -> Option<
    paths::LocationView,
> {
    match chosen {
        Some(entry) => Some(picker::output(entry, mode)),
        None => None,
    }
}

/// How an action on its own ended, in words.
pub open spec fn ending(
    action: crate::actions::ActionView,
    result: Result<Option<Seq<char>>, Seq<char>>,
) -> Seq<char> {
    match result {
        Ok(Some(copy)) => "Temporary copy: "@ + copy,
        Ok(None) => (if action is Copy {
            "Copied"@
        } else {
            "Started"@
        }) + ": "@ + action.title(),
        Err(error) => action.title() + ": "@ + error,
    }
}

impl PickerView {
    /// Where to open the browser.
    pub open spec fn browser_place(
        self,
        candidate: Option<paths::LocationView>,
        is_dir: bool,
    ) -> paths::LocationView {
        match candidate {
            Some(path) => if is_dir {
                path
            } else {
                self.root
            },
            None => self.root,
        }
    }

    /// The directories to go back or forward to, nearest first.
    pub open spec fn ways(self, forward: bool) -> Seq<paths::LocationView> {
        match self.browser {
            Some(browser) => browser.trail(forward).reverse(),
            None => Seq::empty(),
        }
    }

    /// What going back or forward comes to, given which of the directories
    /// there are still there, nearest first.
    pub open spec fn retraced(self, forward: bool, available: Seq<bool>) -> (
        PickerView,
        Option<browse::VisitView>,
    ) {
        match (self.browser, crate::invoke::first_present(available)) {
            (Some(browser), Some(skipped)) => (
                self.unpreviewed(),
                Some(browser.along(forward, skipped)),
            ),
            _ => (self.noticed("No available directory in history"@), None),
        }
    }

    /// With the action menu open for an item.
    pub open spec fn with_menu(
        self,
        target: paths::LocationView,
        items: Seq<crate::actions::ActionView>,
        error: Option<Seq<char>>,
    ) -> PickerView {
        PickerView { menu: Some(menu::MenuView::opened(target, items, error)), ..self }
    }

    /// After the pins were read again.
    pub open spec fn pins_read(self, read: Result<Set<Seq<char>>, Seq<char>>) -> PickerView {
        match read {
            Ok(pinned) => PickerView { pinned, ..self },
            Err(error) => self.noticed("Cannot load favorite markers: "@ + error),
        }
    }

    /// After a pin was set or taken away.
    pub open spec fn pin_turned(
        self,
        path: paths::LocationView,
        result: Result<(bool, Set<Seq<char>>), Seq<char>>,
    ) -> PickerView {
        match result {
            Ok((added, pinned)) => PickerView { pinned, ..self }.put(Mode::Favorites, None).noticed(
                pin_notice(path.display(self.platform), added),
            ),
            Err(error) => self.noticed("Cannot update favorites: "@ + error),
        }
    }

    /// After an item was handed to another program.
    pub open spec fn handed_over(
        self,
        target: paths::LocationView,
        result: Result<(), Seq<char>>,
        now: u64,
    ) -> PickerView {
        match result {
            Ok(_) => self.confirmed("Opened: "@ + self.called(target), now),
            Err(error) => self.noticed("Cannot open "@ + self.called(target) + ": "@ + error),
        }
    }

    /// What is chosen when the selection is accepted.
    pub open spec fn choice(self, entry: Option<scan::EntryView>) -> Option<scan::EntryView> {
        if self.mode is Browse {
            Some(
                scan::EntryView {
                    path: self.browser->0.destination(),
                    display: self.browser->0.destination().display(self.platform),
                },
            )
        } else {
            entry
        }
    }

    /// The place whose contents the preview would show if it is a directory.
    pub open spec fn previewed_place(self, entry: Option<scan::EntryView>) -> Option<
        paths::LocationView,
    > {
        if self.mode is Browse {
            self.browser->0.current_path()
        } else {
            self.place(entry)
        }
    }

    /// What becomes of the preview that should show a directory, or nothing.
    pub open spec fn preview_checked(self, dir: Option<paths::LocationView>) -> (
        PickerView,
        PreviewStepView,
    ) {
        match dir {
            Some(dir) => (
                self,
                if self.preview_stale(dir) {
                    PreviewStepView::Load(dir)
                } else {
                    PreviewStepView::Keep
                },
            ),
            None => if self.preview is None {
                (self, PreviewStepView::Keep)
            } else {
                (self.unpreviewed(), PreviewStepView::Dropped)
            },
        }
    }

    /// With a directory that was read in the preview.
    pub open spec fn preview_loaded(
        self,
        dir: paths::LocationView,
        entries: Option<Seq<browse::ItemView>>,
    ) -> PickerView {
        PickerView {
            preview: Some(
                picker::PreviewView { dir, names: rows::preview_names(entries, self.platform) },
            ),
            ..self
        }
    }

    /// After an action had the terminal, and what has to be read again.
    pub open spec fn resumed(self, message: Seq<char>) -> (PickerView, Option<browse::VisitView>) {
        (
            self.noticed(message).unpreviewed(),
            match self.browser {
                Some(browser) => Some(browser.again()),
                None => None,
            },
        )
    }

    /// The preview does not show what belongs there.
    pub open spec fn preview_stale(self, dir: paths::LocationView) -> bool {
        self.preview is None || self.preview->0.dir != dir
    }

    /// After the browser was opened in a directory.
    pub open spec fn browser_opened(
        self,
        cwd: paths::LocationView,
        entries: Seq<browse::ItemView>,
    ) -> PickerView {
        PickerView {
            mode: Mode::Browse,
            browser: Some(browse::BrowserView::opened(cwd, entries)),
            ..self
        }
    }

    /// The browser, or one in the root that has read nothing yet.
    pub open spec fn some_browser(self) -> browse::BrowserView {
        match self.browser {
            Some(browser) => browser,
            None => browse::BrowserView::opened(self.root, Seq::empty()),
        }
    }

    /// After going to a place whose directory has the given entries.
    pub open spec fn went_to(
        self,
        path: paths::LocationView,
        is_dir: bool,
        entries: Seq<browse::ItemView>,
        show: bool,
    ) -> PickerView {
        let browser = self.some_browser();
        PickerView {
            mode: if show {
                Mode::Browse
            } else {
                self.mode
            },
            browser: Some(browser.arrived(browser.toward(path, is_dir), entries)),
            ..self
        }
    }

    /// After a directory was read for the browser.
    pub open spec fn arrived(
        self,
        visit: browse::VisitView,
        entries: Seq<browse::ItemView>,
    ) -> PickerView {
        match self.browser {
            Some(browser) => self.browsing(browser.arrived(visit, entries)),
            None => self,
        }
    }

    /// What is said of an item that was handed to another program: its name is
    /// enough, since the folder it is in is on the screen.
    pub open spec fn called(self, target: paths::LocationView) -> Seq<char> {
        match target.file_name() {
            Some(name) => name,
            None => target.display(self.platform),
        }
    }
}

impl Picker {
    /// Where to open the browser: in the given place if it is a directory,
    /// otherwise in the root.
    pub fn browser_start(&self, candidate: Option<Location>, is_dir: bool) -> (place: Location)
        ensures
            place@ == self@.browser_place(text::inside(candidate), is_dir),
    {
        match candidate {
            Some(path) => if is_dir {
                path
            } else {
                self.root.clone()
            },
            None => self.root.clone(),
        }
    }

    /// Shows the browser in a directory with the given entries.
    pub fn open_browser(&mut self, cwd: Location, entries: Vec<Item>)
        requires
            old(self)@.sources.len() == crate::cli::MODES,
            old(self)@.query.len() <= crate::fuzzy::QUERY_LIMIT,
            old(self)@.menu is Some ==> old(self)@.menu->0.wf(),
            browse::matchable(text::views(entries@)),
        ensures
            final(self)@ == old(self)@.browser_opened(cwd@, text::views(entries@)),
            final(self)@.wf(),
    {
        self.browser = Some(Browser::new(cwd, entries));
        self.mode = Mode::Browse;
    }

    /// Completes a move of the browser.
    pub fn arrive(&mut self, visit: Visit, entries: Vec<Item>)
        requires
            old(self)@.wf(),
            browse::matchable(text::views(entries@)),
        ensures
            final(self)@ == old(self)@.arrived(visit@, text::views(entries@)),
            final(self)@.wf(),
    {
        if let Some(browser) = &mut self.browser {
            browser.arrive(visit, entries);
        }
    }

    /// Goes to a place. `entries` are those of the place if it is a directory,
    /// otherwise those of the directory it is in.
    pub fn go_to(&mut self, path: &Location, is_dir: bool, entries: Vec<Item>, show: bool)
        requires
            old(self)@.wf(),
            browse::matchable(text::views(entries@)),
        ensures
            final(self)@ == old(self)@.went_to(path@, is_dir, text::views(entries@), show),
            final(self)@.wf(),
    {
        let mut browser = match self.browser.take() {
            Some(browser) => browser,
            None => {
                let none: Vec<Item> = Vec::new();
                assert(text::views(none@) =~= Seq::empty());
                Browser::new(self.root.clone(), none)
            },
        };
        let visit = browser.navigate_to(path, is_dir);
        browser.arrive(visit, entries);
        self.browser = Some(browser);
        if show {
            self.mode = Mode::Browse;
        }
    }

    /// The directories to go back or forward to, nearest first.
    pub fn trail(&self, forward: bool) -> (places: Vec<Location>)
        ensures
            text::views(places@) == self@.ways(forward),
    {
        match &self.browser {
            Some(browser) => browser.history_places(forward),
            None => {
                let none: Vec<Location> = Vec::new();
                assert(text::views(none@) =~= Seq::empty());
                none
            },
        }
    }

    /// The move back or forward, given which of the directories there are
    /// still there, nearest first. Where none is, that is said.
    pub fn retrace(&mut self, forward: bool, available: &Vec<bool>) -> (visit: Option<Visit>)
        requires
            old(self)@.wf(),
            old(self)@.browser is Some ==> available@.len() == old(self)@.browser->0.trail(
                forward,
            ).len(),
        ensures
            final(self)@.wf(),
            (final(self)@, text::inside(visit)) == old(self)@.retraced(forward, available@),
            match visit {
                Some(visit) => final(self)@ == old(self)@.unpreviewed() && old(self)@.browser is Some
                    && exists|skipped: int| #[trigger]
                    crate::invoke::is_first_present(available@, skipped) && visit@ == old(
                        self,
                    )@.browser->0.along(forward, skipped),
                None => final(self)@ == old(self)@.noticed("No available directory in history"@) && (
                old(self)@.browser is Some ==> forall|i: int|
                    0 <= i < available@.len() ==> !available@[i]),
            },
    {
        let visit = match &self.browser {
            Some(browser) => browser.history(forward, available),
            None => None,
        };
        match visit {
            Some(visit) => {
                self.preview = None;
                Some(visit)
            },
            None => {
                self.set_notice("No available directory in history".to_owned());
                None
            },
        }
    }

    /// Shows the action menu for an item.
    pub fn open_menu(&mut self, target: Location, items: Vec<Action>, error: Option<String>)
        requires
            old(self)@.wf(),
            menu::matchable(text::views(items@)),
        ensures
            final(self)@ == old(self)@.with_menu(target@, text::views(items@), text::inside(error)),
            final(self)@.wf(),
    {
        self.menu = Some(Menu::new(target, items, error));
    }

    /// Marks the pins that were read. Pins that cannot be read leave the marks
    /// as they are.
    pub fn reload_pinned(&mut self, read: Result<Index, String>)
        ensures
            final(self)@ == old(self)@.pins_read(text::outcome(read)),
            old(self)@.wf() ==> final(self)@.wf(),
    {
        match read {
            Ok(index) => {
                self.pinned = index;
            },
            Err(error) => {
                self.set_notice(cat("Cannot load favorite markers: ", error.as_str()));
            },
        }
    }

    /// Reports a pin that was set or taken away, and has the favorites read
    /// again when they are next shown.
    pub fn pin_toggled(&mut self, path: &Location, result: Result<(bool, Index), String>)
        requires
            old(self)@.wf(),
        ensures
            final(self)@ == old(self)@.pin_turned(
                path@,
                match result {
                    Ok((added, index)) => Ok((added, index@)),
                    Err(error) => Err(error@),
                },
            ),
            final(self)@.wf(),
    {
        match result {
            Ok((added, index)) => {
                self.pinned = index;
                let at: usize = crate::cli::mode_index(Mode::Favorites);
                self.sources[at] = None;
                let shown = path.display(self.platform);
                self.set_notice(pin_message(shown.as_str(), added));
            },
            Err(error) => {
                self.set_notice(cat("Cannot update favorites: ", error.as_str()));
            },
        }
    }

    /// Says what happened to an item that was handed to another program.
    /// Nothing else on the screen shows it.
    pub fn report_open(&mut self, target: &Location, result: Result<(), String>, now: u64)
        ensures
            final(self)@ == old(self)@.handed_over(
                target@,
                match result {
                    Ok(_) => Ok(()),
                    Err(error) => Err(error@),
                },
                now,
            ),
            old(self)@.wf() ==> final(self)@.wf(),
    {
        let name = match target.file_name() {
            Some(name) => name,
            None => target.display(self.platform),
        };
        match result {
            Ok(_) => {
                self.set_transient_notice(cat("Opened: ", name.as_str()), now);
            },
            Err(error) => {
                let start = cat3("Cannot open ", name.as_str(), ": ");
                self.set_notice(cat(start.as_str(), error.as_str()));
            },
        }
    }

    /// What is chosen when the selection is accepted: a directory while
    /// browsing, else the candidate under the cursor if there is one.
    pub fn accepted(&self, entry: &Option<Entry>) -> (chosen: Option<Entry>)
        requires
            self@.wf(),
        ensures
            text::inside(chosen) == self@.choice(text::inside(*entry)),
    {
        if matches!(self.mode, Mode::Browse) {
            match &self.browser {
                Some(browser) => {
                    let path = browser.target();
                    let display = path.display(self.platform);
                    Some(Entry { path, display })
                },
                None => None,
            }
        } else {
            match entry {
                Some(entry) => Some(entry.clone()),
                None => None,
            }
        }
    }

    /// The place whose contents the preview would show if it is a directory.
    pub fn preview_target(&self, entry: &Option<Entry>) -> (place: Option<Location>)
        requires
            self@.wf(),
        ensures
            text::inside(place) == self@.previewed_place(text::inside(*entry)),
    {
        if matches!(self.mode, Mode::Browse) {
            match &self.browser {
                Some(browser) => browser.selected_path(),
                None => None,
            }
        } else {
            self.selected_place(entry)
        }
    }

    /// Finds out whether the preview shows what it should. `dir` is the
    /// directory it should show, if there is one.
    pub fn refresh_preview(&mut self, dir: Option<Location>) -> (step: PreviewStep)
        ensures
            (final(self)@, step@) == old(self)@.preview_checked(text::inside(dir)),
            old(self)@.wf() ==> final(self)@.wf(),
    {
        match dir {
            Some(dir) => {
                if let Some(preview) = &self.preview {
                    if preview.dir.is(&dir) {
                        return PreviewStep::Keep;
                    }
                }
                PreviewStep::Load(dir)
            },
            None => {
                if self.preview.is_none() {
                    return PreviewStep::Keep;
                }
                self.preview = None;
                PreviewStep::Dropped
            },
        }
    }

    /// Shows a directory that was read in the preview.
    pub fn load_preview(&mut self, dir: Location, entries: Option<Vec<Item>>)
        ensures
            final(self)@ == old(self)@.preview_loaded(dir@, read_entries(entries)),
            old(self)@.wf() ==> final(self)@.wf(),
    {
        let names = list_dir(entries, self.platform);
        self.preview = Some(Preview { dir, names });
    }

    /// Takes the picker up again after an action had the terminal: its message
    /// is shown, and the listing has to be read again.
    pub fn resume(&mut self, message: String) -> (visit: Option<Visit>)
        requires
            old(self)@.wf(),
        ensures
            (final(self)@, text::inside(visit)) == old(self)@.resumed(message@),
            final(self)@.wf(),
    {
        self.set_notice(message);
        self.preview = None;
        match &self.browser {
            Some(browser) => Some(browser.refresh()),
            None => None,
        }
    }
}

/// The directory to read in order to go to a place.
pub fn directory_of(path: &Location, is_dir: bool) -> (dir: Location)
    ensures
        dir@ == directory_read(path@, is_dir),
{
    if !is_dir {
        if let Some(parent) = path.parent() {
            return parent;
        }
    }
    path.clone()
}

/// How an action in the terminal ended: its name and its exit status or error.
pub fn terminal_message(name: &str, report: &str) -> (message: String)
    ensures
        message@ == name@ + ": "@ + report@,
{
    cat3(name, ": ", report)
}

/// How an action on its own ended.
pub fn detached_message(action: &Action, result: &Result<Option<String>, String>) -> (message: String)
    ensures
        message@ == ending(
            action@,
            match *result {
                Ok(copy) => Ok(text::inside(copy)),
                Err(error) => Err(error@),
            },
        ),
{
    match result {
        Ok(Some(copy)) => cat("Temporary copy: ", copy.as_str()),
        Ok(None) => {
            let word = match action {
                Action::Copy => "Copied",
                _ => "Started",
            };
            cat3(word, ": ", action.name())
        },
        Err(error) => cat3(action.name(), ": ", error.as_str()),
    }
}

/// The report of a copy that was made but could not be opened.
pub fn copy_not_opened(copy: &str, error: &str) -> (message: String)
    ensures
        message@ == "Copy saved at "@ + copy@ + "; cannot open: "@ + error@,
{
    let start = cat3("Copy saved at ", copy, "; cannot open: ");
    cat(start.as_str(), error)
}

/// What a run comes to before anything is shown.
#[derive(Debug)]
pub enum Opening {
    /// The candidates could not be had.
    Failed(String),
    /// There is no candidate.
    Nothing,
    /// There is one candidate, which is the choice.
    Only(Location),
    /// The picker has to be shown.
    Show,
}

/// What a run comes to before anything is shown, as mathematical values.
#[verifier::ext_equal]
pub enum OpeningView {
    Failed(Seq<char>),
    Nothing,
    Only(paths::LocationView),
    Show,
}

impl View for Opening {
    type V = OpeningView;

    open spec fn view(&self) -> OpeningView {
        match self {
            Opening::Failed(reason) => OpeningView::Failed(reason@),
            Opening::Nothing => OpeningView::Nothing,
            Opening::Only(place) => OpeningView::Only(place@),
            Opening::Show => OpeningView::Show,
        }
    }
}

/// What a run comes to before anything is shown.
pub open spec fn first_step(
    select_1: bool,
    mode: Mode,
    error: Option<Seq<char>>,
    count: u32,
    entry: Option<scan::EntryView>,
) -> OpeningView {
    if !select_1 || mode is Browse {
        OpeningView::Show
    } else if error is Some {
        OpeningView::Failed(error->0)
    } else if count == 0 {
        OpeningView::Nothing
    } else if count == 1 && entry is Some {
        OpeningView::Only(picker::output(entry->0, mode))
    } else {
        OpeningView::Show
    }
}

/// What a run comes to before anything is shown, when only a single candidate
/// may be taken without asking: `error` is that of the scan, `count` the
/// number of candidates and `entry` the one under the cursor.
pub fn opening(
    select_1: bool,
    mode: Mode,
    error: &Option<String>,
    count: u32,
    entry: &Option<Entry>,
) -> (step: Opening)
    ensures
        step@ == first_step(select_1, mode, text::inside(*error), count, text::inside(*entry)),
        match step {
            Opening::Failed(reason) => select_1 && !(mode is Browse) && text::inside(*error)
                == Some(reason@),
            Opening::Nothing => select_1 && !(mode is Browse) && *error is None && count == 0,
            Opening::Only(place) => select_1 && !(mode is Browse) && *error is None && count == 1
                && *entry is Some && place@ == picker::output((*entry)->0@, mode),
            Opening::Show => !select_1 || mode is Browse || (*error is None && (count > 1 || (count
                == 1 && *entry is None))),
        },
{
    if !select_1 || matches!(mode, Mode::Browse) {
        return Opening::Show;
    }
    if let Some(error) = error {
        return Opening::Failed(error.clone());
    }
    if count == 0 {
        return Opening::Nothing;
    }
    if count == 1 {
        if let Some(entry) = entry {
            return Opening::Only(output_path(entry, mode));
        }
    }
    Opening::Show
}

/// What a run prints for the candidate that was chosen.
pub fn chosen_path(chosen: &Option<Entry>, mode: Mode) -> (path: Option<Location>)
    ensures
        text::inside(path) == printed(text::inside(*chosen), mode),
{
    match chosen {
        Some(entry) => Some(output_path(entry, mode)),
        None => None,
    }
}

} // verus!
