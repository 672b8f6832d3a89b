//! The directories that the user pinned, apart from zoxide's ranked history.
use crate::config;
use crate::config::Found;
use crate::paths;
use crate::paths::{copy_texts, is_absolute, same_texts, split_steps, Location, Platform};
use crate::text;
use crate::text::{cat, cat3, replace, same, to_lower, trim_end_char};
use vstd::prelude::*;

verus! {

/// The form of a path by which a pin is looked up: without separators at its
/// end and, on Windows, with backslashes and in lower case.
pub open spec fn key_of(path: Seq<char>, platform: Platform) -> Seq<char> {
    if platform is Windows {
        text::unicode_lower(
            text::trim_back(text::replaced(path, '/', "\\"@), |c: char| c == '\\'),
        )
    } else {
        text::trim_back(path, |c: char| c == '/')
    }
}

/// The form of a path by which a pin is looked up.
pub fn display_key(path: &str, platform: Platform) -> (key: String)
    ensures
        key@ == key_of(path@, platform),
{
    match platform {
        Platform::Windows => {
            let slashes = replace(path, '/', "\\");
            to_lower(trim_end_char(slashes.as_str(), '\\').as_str())
        },
        _ => trim_end_char(path, '/'),
    }
}

/// The file of pinned directories, in the same directory as the settings.
pub open spec fn file_place(settings: Option<paths::LocationView>) -> Result<
    paths::LocationView,
    Seq<char>,
> {
    config::beside_place(settings, "favorites.toml"@)
}

/// The file of pinned directories, in the same directory as the settings.
pub fn path(settings: Option<Location>) -> (file: Result<Location, String>)
    ensures
        text::outcome(file) == file_place(text::inside(settings)),
{
    config::beside_settings(settings, "favorites.toml")
}

/// The pinned directories that a file gives. Without a file there are none.
pub open spec fn pins(found: Found<Vec<String>>, file: Seq<char>) -> Result<
    Seq<Seq<char>>,
    Seq<char>,
> {
    match found {
        Found::Nowhere => Err("cannot locate the user configuration directory"@),
        Found::Missing => Ok(Seq::empty()),
        Found::Unreadable(error) | Found::Invalid(error) => Err(file + ": "@ + error@),
        Found::Read(paths) => Ok(text::views(paths@)),
    }
}

/// The pinned directories that a file gives.
pub fn read(found: Found<Vec<String>>, file: &str) -> (list: Result<Vec<String>, String>)
    ensures
        match list {
            Ok(paths) => pins(found, file@) == Ok::<Seq<Seq<char>>, Seq<char>>(text::views(paths@)),
            Err(error) => pins(found, file@) == Err::<Seq<Seq<char>>, Seq<char>>(error@),
        },
{
    match found {
        Found::Nowhere => Err("cannot locate the user configuration directory".to_owned()),
        Found::Missing => {
            let none: Vec<String> = Vec::new();
            assert(text::views(none@) =~= Seq::empty());
            Ok(none)
        },
        Found::Unreadable(error) | Found::Invalid(error) => Err(cat3(file, ": ", error.as_str())),
        Found::Read(paths) => Ok(paths),
    }
}

/// The marks to draw with, and what to tell the user where their file cannot be
/// used.
pub open spec fn marks_of(found: Found<Vec<String>>, file: Seq<char>, platform: Platform) -> (
    Set<Seq<char>>,
    Option<Seq<char>>,
) {
    match pins(found, file) {
        Ok(paths) => (keys(paths, platform).to_set(), None),
        Err(error) => (Set::empty(), Some("Cannot load favorite markers: "@ + error)),
    }
}

/// The keys of pinned directories.
pub open spec fn keys(paths: Seq<Seq<char>>, platform: Platform) -> Seq<Seq<char>> {
    paths.map_values(|path: Seq<char>| key_of(path, platform))
}

/// Which directories are pinned, for drawing. Looking one up does not touch
/// the file system.
#[derive(Debug)]
pub struct Index {
    keys: Vec<String>,
}

impl View for Index {
    type V = Set<Seq<char>>;

    closed spec fn view(&self) -> Set<Seq<char>> {
        text::views(self.keys@).to_set()
    }
}

impl Default for Index {
    fn default() -> (index: Self)
        ensures
            index@ == Set::<Seq<char>>::empty(),
    {
        let keys: Vec<String> = Vec::new();
        assert(text::views(keys@).to_set() =~= Set::empty());
        Index { keys }
    }
}

impl Clone for Index {
    fn clone(&self) -> (copy: Self)
        ensures
            copy@ == self@,
    {
        Index { keys: copy_texts(&self.keys) }
    }
}

impl Index {
    /// The index of the given directories.
    pub fn of(paths: &Vec<String>, platform: Platform) -> (index: Index)
        ensures
            index@ == keys(text::views(paths@), platform).to_set(),
    {
        let ghost all = text::views(paths@);
        let mut keys: Vec<String> = Vec::new();
        let mut i: usize = 0;
        assert(text::views(keys@) =~= self::keys(all.take(0), platform));
        while i < paths.len()
            invariant
                i <= paths@.len(),
                all == text::views(paths@),
                text::views(keys@) == self::keys(all.take(i as int), platform),
            decreases paths@.len() - i,
        {
            let key = display_key(paths[i].as_str(), platform);
            proof {
                text::lemma_views_push(keys@, key);
                assert(all[i as int] == paths@[i as int]@);
                assert(self::keys(all.take(i + 1), platform) =~= self::keys(
                    all.take(i as int),
                    platform,
                ).push(key@));
            }
            keys.push(key);
            i += 1;
        }
        assert(all.take(i as int) =~= all);
        Index { keys }
    }

    /// The index of what a file gives.
    pub fn read(found: Found<Vec<String>>, file: &str, platform: Platform) -> (index: Result<
        Index,
        String,
    >)
        ensures
            text::outcome(index) == match pins(found, file@) {
                Ok(paths) => Ok(keys(paths, platform).to_set()),
                Err(error) => Err(error),
            },
    {
        match read(found, file) {
            Ok(paths) => Ok(Index::of(&paths, platform)),
            Err(error) => Err(error),
        }
    }

    /// The index to draw with, and what to tell the user where their file
    /// cannot be used. A fault leaves nothing marked.
    pub fn load(found: Found<Vec<String>>, file: &str, platform: Platform) -> (loaded: (
        Index,
        Option<String>,
    ))
        ensures
            (loaded.0@, text::inside(loaded.1)) == marks_of(found, file@, platform),
    {
        match Index::read(found, file, platform) {
            Ok(index) => (index, None),
            Err(error) => (
                Index::default(),
                Some(cat("Cannot load favorite markers: ", error.as_str())),
            ),
        }
    }

    /// Whether a directory is pinned.
    pub fn contains(&self, path: &str, platform: Platform) -> (found: bool)
        ensures
            found == self@.contains(key_of(path@, platform)),
    {
        let key = display_key(path, platform);
        let ghost all = text::views(self.keys@);
        let mut i: usize = 0;
        while i < self.keys.len()
            invariant
                i <= self.keys@.len(),
                all == text::views(self.keys@),
                key@ == key_of(path@, platform),
                forall|k: int| 0 <= k < i ==> all[k] != key@,
            decreases self.keys@.len() - i,
        {
            assert(all[i as int] == self.keys@[i as int]@);
            if same(self.keys[i].as_str(), key.as_str()) {
                assert(all.contains(key@));
                return true;
            }
            i += 1;
        }
        assert(!all.contains(key@));
        false
    }
}

/// Whether two paths name the same directory: on Windows by their text in
/// lower case, elsewhere by their root and steps.
pub open spec fn alike(left: Seq<char>, right: Seq<char>, platform: Platform) -> bool {
    if platform is Windows {
        text::unicode_lower(left) == text::unicode_lower(right)
    } else {
        &&& paths::absolute(left, platform) == paths::absolute(right, platform)
        &&& paths::path_steps(left, platform) == paths::path_steps(right, platform)
    }
}

/// Whether two paths name the same directory.
pub fn same_path(left: &str, right: &str, platform: Platform) -> (equal: bool)
    ensures
        equal == alike(left@, right@, platform),
{
    match platform {
        Platform::Windows => same(to_lower(left).as_str(), to_lower(right).as_str()),
        _ => is_absolute(left, platform) == is_absolute(right, platform) && same_texts(
            &split_steps(left, platform),
            &split_steps(right, platform),
        ),
    }
}

/// Whether a directory is among the pinned ones.
pub open spec fn pinned(list: Seq<Seq<char>>, directory: Seq<char>, platform: Platform) -> bool {
    exists|i: int| 0 <= i < list.len() && alike(#[trigger] list[i], directory, platform)
}

/// The pinned directories without the given one.
pub open spec fn without(
    list: Seq<Seq<char>>,
    directory: Seq<char>,
    platform: Platform,
) -> Seq<Seq<char>>
    decreases list.len(),
{
    if list.len() == 0 {
        list
    } else {
        let before = without(list.drop_last(), directory, platform);
        if alike(list.last(), directory, platform) {
            before
        } else {
            before.push(list.last())
        }
    }
}

/// What an update of the pinned directories comes to.
#[derive(Debug)]
pub struct Update {
    /// Whether the directory is pinned afterwards.
    pub added: bool,
    /// The list to write, where it changed.
    pub list: Option<Vec<String>>,
}

/// An update as mathematical values.
#[verifier::ext_equal]
pub struct UpdateView {
    pub added: bool,
    pub list: Option<Seq<Seq<char>>>,
}

impl View for Update {
    type V = UpdateView;

    open spec fn view(&self) -> UpdateView {
        UpdateView {
            added: self.added,
            list: match self.list {
                Some(list) => Some(text::views(list@)),
                None => None,
            },
        }
    }
}

/// What pinning or unpinning a directory comes to: `None` turns its pin over,
/// and a wish that is already met changes nothing. Only what is a directory
/// can be pinned; unpinning needs no directory to be there.
pub open spec fn updated(
    list: Seq<Seq<char>>,
    directory: Seq<char>,
    is_dir: bool,
    wanted: Option<bool>,
    platform: Platform,
) -> Result<UpdateView, Seq<char>> {
    let present = pinned(list, directory, platform);
    let add = match wanted {
        Some(wish) => wish,
        None => !present,
    };
    if add && !is_dir {
        Err("not a directory: "@ + directory)
    } else if add == present {
        Ok(UpdateView { added: add, list: None })
    } else if add {
        Ok(UpdateView { added: add, list: Some(list.push(directory)) })
    } else {
        Ok(UpdateView { added: add, list: Some(without(list, directory, platform)) })
    }
}

fn is_pinned(list: &Vec<String>, directory: &str, platform: Platform) -> (found: bool)
    ensures
        found == pinned(text::views(list@), directory@, platform),
{
    let ghost all = text::views(list@);
    let mut i: usize = 0;
    while i < list.len()
        invariant
            i <= list@.len(),
            all == text::views(list@),
            forall|k: int| 0 <= k < i ==> !alike(#[trigger] all[k], directory@, platform),
        decreases list@.len() - i,
    {
        assert(all[i as int] == list@[i as int]@);
        if same_path(list[i].as_str(), directory, platform) {
            assert(alike(all[i as int], directory@, platform));
            return true;
        }
        i += 1;
    }
    false
}

fn remove(list: &Vec<String>, directory: &str, platform: Platform) -> (rest: Vec<String>)
    ensures
        text::views(rest@) == without(text::views(list@), directory@, platform),
{
    let ghost all = text::views(list@);
    let mut rest: Vec<String> = Vec::new();
    let mut i: usize = 0;
    assert(text::views(rest@) =~= without(all.take(0), directory@, platform));
    while i < list.len()
        invariant
            i <= list@.len(),
            all == text::views(list@),
            text::views(rest@) == without(all.take(i as int), directory@, platform),
        decreases list@.len() - i,
    {
        assert(all.take(i + 1).drop_last() =~= all.take(i as int));
        assert(all.take(i + 1).last() == list@[i as int]@);
        if !same_path(list[i].as_str(), directory, platform) {
            let kept = list[i].clone();
            proof {
                text::lemma_views_push(rest@, kept);
            }
            rest.push(kept);
        }
        i += 1;
    }
    assert(all.take(i as int) =~= all);
    rest
}

/// What pinning or unpinning a directory comes to.
pub fn update(
    list: &Vec<String>,
    directory: &str,
    is_dir: bool,
    wanted: Option<bool>,
    platform: Platform,
) -> (out: Result<Update, String>)
    ensures
        text::outcome(out) == updated(text::views(list@), directory@, is_dir, wanted, platform),
{
    let present = is_pinned(list, directory, platform);
    let add = match wanted {
        Some(wish) => wish,
        None => !present,
    };
    if add && !is_dir {
        return Err(cat("not a directory: ", directory));
    }
    if add == present {
        return Ok(Update { added: add, list: None });
    }
    if add {
        let mut longer = copy_texts(list);
        let entry = directory.to_owned();
        proof {
            text::lemma_views_push(longer@, entry);
        }
        longer.push(entry);
        Ok(Update { added: add, list: Some(longer) })
    } else {
        Ok(Update { added: add, list: Some(remove(list, directory, platform)) })
    }
}

/// The list after an update.
pub open spec fn list_after(list: Seq<Seq<char>>, update: UpdateView) -> Seq<Seq<char>> {
    match update.list {
        Some(changed) => changed,
        None => list,
    }
}

proof fn lemma_without(list: Seq<Seq<char>>, directory: Seq<char>, platform: Platform)
    ensures
        !pinned(without(list, directory, platform), directory, platform),
        !pinned(list, directory, platform) ==> without(list, directory, platform) == list,
    decreases list.len(),
{
    if list.len() > 0 {
        let front = list.drop_last();
        lemma_without(front, directory, platform);
        let out = without(list, directory, platform);
        if pinned(out, directory, platform) {
            let i = choose|i: int| 0 <= i < out.len() && alike(#[trigger] out[i], directory, platform);
            let before = without(front, directory, platform);
            if i < before.len() {
                assert(alike(before[i], directory, platform));
            }
        }
        if !pinned(list, directory, platform) {
            assert forall|i: int| 0 <= i < front.len() implies !alike(
                #[trigger] front[i],
                directory,
                platform,
            ) by {
                assert(front[i] == list[i]);
            }
            assert(!alike(list[list.len() - 1], directory, platform));
            assert(front.push(list.last()) =~= list);
        }
    }
}

/// An update leaves the directory pinned exactly where it says so.
pub proof fn update_does_what_it_says(
    list: Seq<Seq<char>>,
    directory: Seq<char>,
    is_dir: bool,
    wanted: Option<bool>,
    platform: Platform,
)
    requires
        updated(list, directory, is_dir, wanted, platform) is Ok,
    ensures
        ({
            let out = updated(list, directory, is_dir, wanted, platform)->Ok_0;
            pinned(list_after(list, out), directory, platform) == out.added
        }),
{
    lemma_without(list, directory, platform);
    let longer = list.push(directory);
    assert(alike(longer[list.len() as int], directory, platform));
}

/// Asking twice is the same as asking once: the second update finds its wish
/// met and writes nothing.
pub proof fn asking_again_changes_nothing(
    list: Seq<Seq<char>>,
    directory: Seq<char>,
    is_dir: bool,
    wish: bool,
    platform: Platform,
)
    requires
        updated(list, directory, is_dir, Some(wish), platform) is Ok,
    ensures
        ({
            let once = updated(list, directory, is_dir, Some(wish), platform)->Ok_0;
            updated(list_after(list, once), directory, is_dir, Some(wish), platform) == Ok::<
                UpdateView,
                Seq<char>,
            >(UpdateView { added: wish, list: None })
        }),
{
    update_does_what_it_says(list, directory, is_dir, Some(wish), platform);
}

/// Turning a new pin over again gives back the list as it was.
pub proof fn unpinning_a_new_pin_restores_the_list(
    list: Seq<Seq<char>>,
    directory: Seq<char>,
    platform: Platform,
)
    requires
        !pinned(list, directory, platform),
    ensures
        ({
            let once = updated(list, directory, true, None, platform)->Ok_0;
            updated(list_after(list, once), directory, true, None, platform) == Ok::<
                UpdateView,
                Seq<char>,
            >(UpdateView { added: false, list: Some(list) })
        }),
{
    let longer = list.push(directory);
    assert(alike(longer[list.len() as int], directory, platform));
    lemma_without(list, directory, platform);
    assert(longer.drop_last() =~= list);
}

/// No two entries of a list name the same directory.
pub open spec fn distinct(list: Seq<Seq<char>>, platform: Platform) -> bool {
    forall|i: int, j: int|
        0 <= i < j < list.len() ==> !alike(#[trigger] list[i], #[trigger] list[j], platform)
}

proof fn lemma_without_distinct(
    list: Seq<Seq<char>>,
    directory: Seq<char>,
    platform: Platform,
    other: Seq<char>,
)
    requires
        distinct(list, platform),
    ensures
        distinct(without(list, directory, platform), platform),
        !pinned(list, other, platform) ==> !pinned(
            without(list, directory, platform),
            other,
            platform,
        ),
    decreases list.len(),
{
    if list.len() > 0 {
        let front = list.drop_last();
        let last = list.last();
        let before = without(front, directory, platform);
        assert forall|i: int, j: int| 0 <= i < j < front.len() implies !alike(
            #[trigger] front[i],
            #[trigger] front[j],
            platform,
        ) by {
            assert(front[i] == list[i] && front[j] == list[j]);
        }
        assert(!pinned(front, last, platform)) by {
            assert forall|i: int| 0 <= i < front.len() implies !alike(
                #[trigger] front[i],
                last,
                platform,
            ) by {
                assert(front[i] == list[i]);
                assert(list[list.len() - 1] == last);
            }
        }
        lemma_without_distinct(front, directory, platform, last);
        lemma_without_distinct(front, directory, platform, other);
        if !pinned(list, other, platform) {
            assert forall|i: int| 0 <= i < front.len() implies !alike(
                #[trigger] front[i],
                other,
                platform,
            ) by {
                assert(front[i] == list[i]);
            }
            assert(!alike(list[list.len() - 1], other, platform));
        }
        let out = without(list, directory, platform);
        assert forall|i: int| 0 <= i < before.len() implies !alike(
            #[trigger] before[i],
            last,
            platform,
        ) by {}
        if !pinned(list, other, platform) && pinned(out, other, platform) {
            let i = choose|i: int| 0 <= i < out.len() && alike(#[trigger] out[i], other, platform);
            if i < before.len() {
                assert(alike(before[i], other, platform));
            }
        }
    }
}

/// Updates bring no duplicates into a list without any.
pub proof fn updates_keep_the_list_free_of_duplicates(
    list: Seq<Seq<char>>,
    directory: Seq<char>,
    is_dir: bool,
    wanted: Option<bool>,
    platform: Platform,
)
    requires
        distinct(list, platform),
        updated(list, directory, is_dir, wanted, platform) is Ok,
    ensures
        distinct(
            list_after(list, updated(list, directory, is_dir, wanted, platform)->Ok_0),
            platform,
        ),
{
    lemma_without_distinct(list, directory, platform, directory);
}

/// A directory that was just pinned is marked.
pub proof fn a_new_pin_is_marked(list: Seq<Seq<char>>, directory: Seq<char>, platform: Platform)
    ensures
        keys(list.push(directory), platform).to_set().contains(key_of(directory, platform)),
{
    let all = keys(list.push(directory), platform);
    assert(all[list.len() as int] == key_of(directory, platform));
}

/// A pin can always be taken away, also where the directory is gone.
pub proof fn a_pin_can_always_be_taken_away(
    list: Seq<Seq<char>>,
    directory: Seq<char>,
    is_dir: bool,
    platform: Platform,
)
    ensures
        updated(list, directory, is_dir, Some(false), platform) is Ok,
        pinned(list, directory, platform) ==> updated(list, directory, is_dir, None, platform)
            is Ok && !updated(list, directory, is_dir, None, platform)->Ok_0.added,
        !pinned(
            list_after(list, updated(list, directory, is_dir, Some(false), platform)->Ok_0),
            directory,
            platform,
        ),
{
    update_does_what_it_says(list, directory, is_dir, Some(false), platform);
}

proof fn lemma_without_filters(list: Seq<Seq<char>>, directory: Seq<char>, platform: Platform)
    ensures
        without(list, directory, platform) == list.filter(
            |entry: Seq<char>| !alike(entry, directory, platform),
        ),
    decreases list.len(),
{
    reveal(Seq::filter);
    if list.len() > 0 {
        lemma_without_filters(list.drop_last(), directory, platform);
    }
}

proof fn lemma_without_others(
    list: Seq<Seq<char>>,
    directory: Seq<char>,
    other: Seq<char>,
    platform: Platform,
)
    requires
        !alike(other, directory, platform),
    ensures
        pinned(without(list, directory, platform), other, platform) == pinned(
            list,
            other,
            platform,
        ),
    decreases list.len(),
{
    if list.len() > 0 {
        let front = list.drop_last();
        let before = without(front, directory, platform);
        let out = without(list, directory, platform);
        lemma_without_others(front, directory, other, platform);
        if pinned(list, other, platform) {
            let i = choose|i: int| 0 <= i < list.len() && alike(#[trigger] list[i], other, platform);
            if i < front.len() {
                assert(alike(front[i], other, platform));
                let k = choose|k: int|
                    0 <= k < before.len() && alike(#[trigger] before[k], other, platform);
                assert(alike(out[k], other, platform));
            } else {
                assert(alike(out[out.len() - 1], other, platform));
            }
        }
        if pinned(out, other, platform) {
            let k = choose|k: int| 0 <= k < out.len() && alike(#[trigger] out[k], other, platform);
            if k < before.len() {
                assert(alike(before[k], other, platform));
                let i = choose|i: int|
                    0 <= i < front.len() && alike(#[trigger] front[i], other, platform);
                assert(alike(list[i], other, platform));
            } else {
                assert(alike(list[list.len() - 1], other, platform));
            }
        }
    }
}

/// An update touches no other pin: any directory but the one it is about is
/// pinned afterwards exactly if it was before. A new pin goes behind the
/// others; taking one away leaves the others in their order.
pub proof fn an_update_touches_no_other_pin(
    list: Seq<Seq<char>>,
    directory: Seq<char>,
    is_dir: bool,
    wanted: Option<bool>,
    platform: Platform,
    other: Seq<char>,
)
    requires
        updated(list, directory, is_dir, wanted, platform) is Ok,
    ensures
        ({
            let out = updated(list, directory, is_dir, wanted, platform)->Ok_0;
            let after = list_after(list, out);
            &&& !alike(other, directory, platform) ==> pinned(after, other, platform) == pinned(
                list,
                other,
                platform,
            )
            &&& !out.added ==> after == list.filter(
                |entry: Seq<char>| !alike(entry, directory, platform),
            )
            &&& out.added && pinned(list, directory, platform) ==> after == list
            &&& out.added && !pinned(list, directory, platform) ==> after == list
                + seq![directory]
        }),
{
    let out = updated(list, directory, is_dir, wanted, platform)->Ok_0;
    let after = list_after(list, out);
    lemma_without(list, directory, platform);
    lemma_without_filters(list, directory, platform);
    let longer = list.push(directory);
    assert(longer =~= list + seq![directory]);
    if !alike(other, directory, platform) {
        lemma_without_others(list, directory, other, platform);
        if pinned(longer, other, platform) {
            let i = choose|i: int|
                0 <= i < longer.len() && alike(#[trigger] longer[i], other, platform);
            assert(i < list.len());
            assert(alike(list[i], other, platform));
        }
        if pinned(list, other, platform) {
            let i = choose|i: int| 0 <= i < list.len() && alike(#[trigger] list[i], other, platform);
            assert(alike(longer[i], other, platform));
        }
    }
}

/// Each pin that an update leaves stood in the list before or is the directory
/// itself, and every entry of the list that names another directory stays.
pub proof fn every_other_entry_stays(
    list: Seq<Seq<char>>,
    directory: Seq<char>,
    is_dir: bool,
    wanted: Option<bool>,
    platform: Platform,
    entry: Seq<char>,
)
    requires
        updated(list, directory, is_dir, wanted, platform) is Ok,
    ensures
        ({
            let after = list_after(
                list,
                updated(list, directory, is_dir, wanted, platform)->Ok_0,
            );
            &&& after.contains(entry) ==> list.contains(entry) || entry == directory
            &&& list.contains(entry) && !alike(entry, directory, platform) ==> after.contains(entry)
        }),
{
    lemma_without_keeps(list, directory, platform, entry);
    let longer = list.push(directory);
    if longer.contains(entry) {
        let i = longer.index_of(entry);
        if i < list.len() {
            assert(list[i] == entry);
        }
    }
    if list.contains(entry) {
        let i = list.index_of(entry);
        assert(longer[i] == entry);
    }
}

proof fn lemma_without_keeps(
    list: Seq<Seq<char>>,
    directory: Seq<char>,
    platform: Platform,
    entry: Seq<char>,
)
    ensures
        without(list, directory, platform).contains(entry) ==> list.contains(entry),
        list.contains(entry) && !alike(entry, directory, platform) ==> without(
            list,
            directory,
            platform,
        ).contains(entry),
    decreases list.len(),
{
    if list.len() > 0 {
        let front = list.drop_last();
        let before = without(front, directory, platform);
        let out = without(list, directory, platform);
        lemma_without_keeps(front, directory, platform, entry);
        if out.contains(entry) {
            let i = out.index_of(entry);
            if i < before.len() {
                assert(before[i] == entry);
                let k = front.index_of(entry);
                assert(list[k] == entry);
            } else {
                assert(list[list.len() - 1] == entry);
            }
        }
        if list.contains(entry) && !alike(entry, directory, platform) {
            let k = list.index_of(entry);
            if k < front.len() {
                assert(front[k] == entry);
                let i = before.index_of(entry);
                assert(out[i] == entry);
            } else {
                assert(out[out.len() - 1] == entry);
            }
        }
    }
}

/// Only a wish to pin what is no directory is refused.
pub proof fn only_pinning_no_directory_is_refused(
    list: Seq<Seq<char>>,
    directory: Seq<char>,
    is_dir: bool,
    platform: Platform,
)
    ensures
        updated(list, directory, is_dir, Some(false), platform) is Ok,
        updated(list, directory, true, Some(true), platform) is Ok,
        updated(list, directory, true, None, platform) is Ok,
        updated(list, directory, false, Some(true), platform) is Err,
        updated(list, directory, false, None, platform) is Ok == pinned(
            list,
            directory,
            platform,
        ),
        updated(list, directory, is_dir, Some(true), platform) is Ok ==> updated(
            list,
            directory,
            is_dir,
            Some(true),
            platform,
        )->Ok_0.added,
        !updated(list, directory, is_dir, Some(false), platform)->Ok_0.added,
{
}

/// A directory is pinned by an entry of its own; an empty list pins nothing.
pub proof fn an_entry_pins_its_directory(
    list: Seq<Seq<char>>,
    at: int,
    directory: Seq<char>,
    platform: Platform,
)
    ensures
        0 <= at < list.len() ==> pinned(list, list[at], platform),
        !pinned(Seq::empty(), directory, platform),
        pinned(list, directory, platform) ==> exists|i: int|
            0 <= i < list.len() && alike(#[trigger] list[i], directory, platform),
{
    if 0 <= at < list.len() {
        assert(alike(list[at], list[at], platform));
    }
}

/// Naming the same directory is the same both ways and carries on. Away from
/// Windows names have to agree to the letter, and a path from the root never
/// names the same directory as one that is not.
pub proof fn naming_the_same_directory(
    one: Seq<char>,
    two: Seq<char>,
    three: Seq<char>,
    platform: Platform,
)
    ensures
        alike(one, one, platform),
        alike(one, two, platform) == alike(two, one, platform),
        alike(one, two, platform) && alike(two, three, platform) ==> alike(one, three, platform),
        platform is Windows ==> alike(one, two, platform) == (text::unicode_lower(one)
            == text::unicode_lower(two)),
        !(platform is Windows) && one.len() > 0 && two.len() > 0 && one[0] == '/' && two[0] != '/'
            ==> !alike(one, two, platform),
        !(platform is Windows) && alike(one, two, platform) ==> paths::path_steps(one, platform)
            == paths::path_steps(two, platform),
{
}

/// Away from Windows, two paths name the same directory only if their last
/// names agree.
pub proof fn different_names_are_different_directories(
    dir: Seq<char>,
    other: Seq<char>,
    name: Seq<char>,
    second: Seq<char>,
    platform: Platform,
)
    requires
        !(platform is Windows),
        name.len() > 0,
        second.len() > 0,
        name != "."@ && name != ".."@,
        second != "."@ && second != ".."@,
        forall|k: int| 0 <= k < name.len() ==> #[trigger] name[k] != '/',
        forall|k: int| 0 <= k < second.len() ==> #[trigger] second[k] != '/',
        alike(dir.push('/') + name, other.push('/') + second, platform),
    ensures
        name == second,
{
    crate::path_laws::the_last_name_names_a_path(dir, '/', name, platform);
    crate::path_laws::the_last_name_names_a_path(other, '/', second, platform);
}

/// A mark is looked up by the path without the separators at its end. Away
/// from Windows nothing else is disregarded: paths that end in none have the
/// same mark only if they are the same. On Windows both slashes count alike.
pub proof fn marks_disregard_separators_at_the_end(path: Seq<char>, other: Seq<char>, platform: Platform)
    ensures
        !(platform is Windows) ==> key_of(path.push('/'), platform) == key_of(path, platform),
        !(platform is Windows) && path.len() > 0 && path.last() != '/' ==> key_of(path, platform)
            == path,
        !(platform is Windows) && path.len() > 0 && path.last() != '/' && other.len() > 0
            && other.last() != '/' && key_of(path, platform) == key_of(other, platform) ==> path
            == other,
        platform is Windows ==> key_of(path.push('/'), platform) == key_of(path, platform)
            && key_of(path.push('\\'), platform) == key_of(path, platform),
{
    assert(path.push('/').drop_last() =~= path);
    assert(path.push('\\').drop_last() =~= path);
    if platform is Windows {
        reveal_strlit("\\");
        let plain = text::replaced(path, '/', "\\"@);
        let slashed = text::replaced(path.push('/'), '/', "\\"@);
        assert(slashed =~= plain.push('\\'));
        assert(slashed.drop_last() =~= plain);
        let back = text::replaced(path.push('\\'), '/', "\\"@);
        assert(back =~= plain.push('\\'));
        assert(back.drop_last() =~= plain);
    }
}

/// The marks are those of the pinned directories, each of them and no other.
pub proof fn marked_are_the_pinned_directories(list: Seq<Seq<char>>, key: Seq<char>, platform: Platform)
    ensures
        keys(list, platform).to_set().contains(key) == (exists|i: int|
            0 <= i < list.len() && key_of(#[trigger] list[i], platform) == key),
{
    let all = keys(list, platform);
    if all.to_set().contains(key) {
        let i = all.index_of(key);
        assert(key_of(list[i], platform) == key);
    }
    if exists|i: int| 0 <= i < list.len() && key_of(#[trigger] list[i], platform) == key {
        let i = choose|i: int| 0 <= i < list.len() && key_of(#[trigger] list[i], platform) == key;
        assert(all[i] == key);
    }
}

/// A list that can be read is taken as it stands, a missing file pins nothing,
/// and any fault of the file is told with its name.
pub proof fn a_list_is_taken_as_it_stands(found: Found<Vec<String>>, file: Seq<char>)
    ensures
        pins(found, file) is Ok == (found is Read || found is Missing),
        found matches Found::Read(list) ==> pins(found, file)->Ok_0 == text::views(list@),
        found is Missing ==> pins(found, file)->Ok_0.len() == 0,
        found matches Found::Invalid(error) ==> pins(found, file)->Err_0 == file + ": "@ + error@,
        found matches Found::Unreadable(error) ==> pins(found, file)->Err_0 == file + ": "@
            + error@,
{
}

/// Every pin of a file that can be read is marked and nothing is told; a file
/// with a fault marks nothing and is told.
pub proof fn a_file_with_a_fault_marks_nothing(
    found: Found<Vec<String>>,
    file: Seq<char>,
    platform: Platform,
    key: Seq<char>,
)
    ensures
        ({
            let (marks, fault) = marks_of(found, file, platform);
            &&& found matches Found::Read(list) ==> fault is None && marks.contains(key) == (exists|
                i: int,
            |
                0 <= i < list@.len() && key_of(#[trigger] list@[i]@, platform) == key)
            &&& found is Missing ==> fault is None && !marks.contains(key)
            &&& found is Nowhere || found is Unreadable || found is Invalid ==> fault is Some
                && !marks.contains(key)
        }),
{
    if let Found::Read(list) = found {
        let all = text::views(list@);
        marked_are_the_pinned_directories(all, key, platform);
        if keys(all, platform).to_set().contains(key) {
            let i = choose|i: int| 0 <= i < all.len() && key_of(#[trigger] all[i], platform) == key;
            assert(all[i] == list@[i]@);
        }
        if exists|i: int| 0 <= i < list@.len() && key_of(#[trigger] list@[i]@, platform) == key {
            let i = choose|i: int|
                0 <= i < list@.len() && key_of(#[trigger] list@[i]@, platform) == key;
            assert(all[i] == list@[i]@);
        }
    }
}

/// On Windows it makes no difference to a mark which slash a path is written
/// with.
pub proof fn marks_on_windows_disregard_slashes(one: Seq<char>, two: Seq<char>)
    ensures
        key_of(one + seq!['/'] + two, Platform::Windows) == key_of(
            one + seq!['\\'] + two,
            Platform::Windows,
        ),
{
    reveal_strlit("\\");
    let to = "\\"@;
    crate::path_laws::replacing_works_character_by_character(one + seq!['/'], two, '/', '/', to);
    crate::path_laws::replacing_works_character_by_character(one, seq!['/'], '/', '/', to);
    crate::path_laws::replacing_works_character_by_character(one + seq!['\\'], two, '\\', '/', to);
    crate::path_laws::replacing_works_character_by_character(one, seq!['\\'], '\\', '/', to);
    assert(to =~= seq!['\\']);
}

/// The pins lie beside the settings, and nowhere where these have no place.
pub proof fn where_the_pins_lie(dir: paths::LocationView, settings: Seq<char>)
    requires
        settings != "."@,
        settings != ".."@,
    ensures
        file_place(
            Some(paths::LocationView { anchor: dir.anchor, parts: dir.parts.push(settings) }),
        ) == Ok::<paths::LocationView, Seq<char>>(
            paths::LocationView { anchor: dir.anchor, parts: dir.parts.push("favorites.toml"@) },
        ),
        file_place(None) is Err,
{
    assert(dir.parts.push(settings).drop_last() =~= dir.parts);
}

} // verus!
