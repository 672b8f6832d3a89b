//! Temporary copies: independent, writable copies of a file, bounded in size.
use crate::paths;
use crate::paths::Location;
use crate::text;
use crate::text::{cat, cat3, number};
use vstd::prelude::*;

verus! {

/// The largest copy in bytes, from the setting in MiB, where it can be counted.
pub open spec fn limit_bytes(mib: u64) -> Option<int> {
    if mib * 1024 * 1024 <= u64::MAX {
        Some(mib * 1024 * 1024)
    } else {
        None
    }
}

/// The name of the copy of a file.
pub open spec fn copy_name(name: Seq<char>) -> Seq<char> {
    "TEMP_"@ + name
}

/// The largest copy in bytes, from the setting in MiB.
pub fn copy_limit(mib: u64) -> (limit: Result<u64, String>)
    ensures
        match limit {
            Ok(bytes) => limit_bytes(mib) == Some(bytes as int) && bytes == mib * 1024 * 1024,
            Err(error) => limit_bytes(mib) is None && mib * 1024 * 1024 > u64::MAX && error@
                == "temp_copy_max_mib is too large"@,
        },
{
    match mib.checked_mul(1024 * 1024) {
        Some(bytes) => Ok(bytes),
        None => Err("temp_copy_max_mib is too large".to_owned()),
    }
}

/// The folder that all temporary copies are in.
pub fn copies_folder(temp: &Location) -> (folder: Location)
    ensures
        folder@ == temp@.child("tadoru-copies"@),
{
    temp.child("tadoru-copies")
}

/// What is known of a file that was opened to be copied.
#[derive(Debug)]
pub struct Original {
    pub is_file: bool,
    pub length: u64,
    /// The last name of its path.
    pub name: Option<String>,
}

/// Why a file is not copied under a limit, if it is not.
pub open spec fn refusal(
    limit: u64,
    original: Result<Original, String>,
) -> Option<Seq<char>> {
    if limit == 0 {
        Some("Temporary copies are disabled (temp_copy_max_mib = 0)"@)
    } else {
        match original {
            Err(error) => Some(error@),
            Ok(file) => if !file.is_file {
                Some("Temporary copy is available for files only"@)
            } else if file.length > limit {
                Some(
                    "Temporary copy blocked: "@ + text::decimal(file.length as nat)
                        + " bytes exceeds the "@ + text::decimal(limit as nat)
                        + " byte limit (temp_copy_max_mib)"@,
                )
            } else if file.name is None {
                Some("Missing filename"@)
            } else {
                None
            },
        }
    }
}

/// Whether temporary copies are turned on.
pub fn copies_enabled(limit: u64) -> (enabled: Result<(), String>)
    ensures
        match enabled {
            Ok(_) => limit > 0,
            Err(error) => limit == 0 && error@
                == "Temporary copies are disabled (temp_copy_max_mib = 0)"@,
        },
{
    if limit == 0 {
        Err("Temporary copies are disabled (temp_copy_max_mib = 0)".to_owned())
    } else {
        Ok(())
    }
}

/// The name of the copy, or why there is none. Nothing is created before this
/// has been decided.
pub fn temporary_copy(limit: u64, original: Result<Original, String>) -> (name: Result<
    String,
    String,
>)
    ensures
        match name {
            Ok(name) => refusal(limit, original) is None && name@ == copy_name(
                original->Ok_0.name->0@,
            ),
            Err(error) => refusal(limit, original) == Some(error@),
        },
{
    if let Err(error) = copies_enabled(limit) {
        return Err(error);
    }
    let file = match original {
        Ok(file) => file,
        Err(error) => {
            return Err(error);
        },
    };
    if !file.is_file {
        return Err("Temporary copy is available for files only".to_owned());
    }
    if file.length > limit {
        let length = number(file.length as u128);
        let most = number(limit as u128);
        let start = cat3("Temporary copy blocked: ", length.as_str(), " bytes exceeds the ");
        return Err(cat3(start.as_str(), most.as_str(), " byte limit (temp_copy_max_mib)"));
    }
    match file.name {
        Some(name) => Ok(cat("TEMP_", name.as_str())),
        None => Err("Missing filename".to_owned()),
    }
}

/// The name of the directory that a copy gets to itself, from the process,
/// the time and a serial number.
pub open spec fn directory_name(process: u32, stamp: u128, serial: u64) -> Seq<char> {
    "tadoru-copy-"@ + text::decimal(process as nat) + "-"@ + text::decimal(stamp as nat) + "-"@
        + text::decimal(serial as nat)
}

/// The name of the directory that a copy gets to itself.
pub fn copy_directory(process: u32, stamp: u128, serial: u64) -> (name: String)
    ensures
        name@ == directory_name(process, stamp, serial),
{
    let start = cat3("tadoru-copy-", number(process as u128).as_str(), "-");
    let middle = cat3(start.as_str(), number(stamp).as_str(), "-");
    cat(middle.as_str(), number(serial as u128).as_str())
}

/// What became of making a directory.
#[derive(Debug)]
pub enum Making {
    Fresh,
    /// There already is something of that name.
    Taken,
    Failed(String),
}

/// What became of making a directory, as mathematical values.
#[verifier::ext_equal]
pub enum MakingView {
    Fresh,
    Taken,
    Failed(Seq<char>),
}

impl View for Making {
    type V = MakingView;

    open spec fn view(&self) -> MakingView {
        match self {
            Making::Fresh => MakingView::Fresh,
            Making::Taken => MakingView::Taken,
            Making::Failed(error) => MakingView::Failed(error@),
        }
    }
}

/// What to do after a directory has been tried.
#[derive(Debug, PartialEq, Eq)]
pub enum Attempt {
    /// Write the copy into it.
    Fill,
    /// Try the next one.
    Again,
    GiveUp(String),
}

/// What to do after a directory has been tried, as mathematical values.
#[verifier::ext_equal]
pub enum AttemptView {
    Fill,
    Again,
    GiveUp(Seq<char>),
}

impl View for Attempt {
    type V = AttemptView;

    open spec fn view(&self) -> AttemptView {
        match self {
            Attempt::Fill => AttemptView::Fill,
            Attempt::Again => AttemptView::Again,
            Attempt::GiveUp(error) => AttemptView::GiveUp(error@),
        }
    }
}

/// What to do with what has been written of a copy.
#[derive(Debug, PartialEq, Eq)]
pub enum Keeping {
    Keep,
    /// Remove it and its directory, and report why.
    Remove(String),
}

/// A copy that is being made.
#[derive(Debug)]
pub struct Copying {
    /// The folder that all temporary copies are in.
    pub folder: Location,
    /// The name of the copy.
    pub name: String,
    pub process: u32,
    pub stamp: u128,
    pub serial: u64,
}

/// A copy that is being made, as mathematical values.
#[verifier::ext_equal]
pub struct CopyingView {
    pub folder: paths::LocationView,
    pub name: Seq<char>,
    pub process: u32,
    pub stamp: u128,
    pub serial: u64,
}

impl View for Copying {
    type V = CopyingView;

    open spec fn view(&self) -> CopyingView {
        CopyingView {
            folder: self.folder@,
            name: self.name@,
            process: self.process,
            stamp: self.stamp,
            serial: self.serial,
        }
    }
}

impl CopyingView {
    /// The directory to make for the copy.
    pub open spec fn directory(self) -> paths::LocationView {
        self.folder.child(directory_name(self.process, self.stamp, self.serial))
    }

    /// Where the copy goes.
    pub open spec fn copy(self) -> paths::LocationView {
        self.directory().child(self.name)
    }

    /// The serial number after this one, which starts again after the largest.
    pub open spec fn next_serial(self) -> u64 {
        if self.serial == u64::MAX {
            0
        } else {
            (self.serial + 1) as u64
        }
    }

    /// What follows from trying the directory: only a new one is filled, one
    /// that was there is passed over.
    pub open spec fn tried(self, making: MakingView) -> (CopyingView, AttemptView) {
        match making {
            MakingView::Fresh => (self, AttemptView::Fill),
            MakingView::Taken => (
                CopyingView { serial: self.next_serial(), ..self },
                AttemptView::Again,
            ),
            MakingView::Failed(error) => (self, AttemptView::GiveUp(error)),
        }
    }
}

impl Copying {
    /// The directory to make for the copy.
    pub fn directory(&self) -> (dir: Location)
        ensures
            dir@ == self@.directory(),
    {
        self.folder.child(copy_directory(self.process, self.stamp, self.serial).as_str())
    }

    /// Where the copy goes.
    pub fn copy(&self) -> (place: Location)
        ensures
            place@ == self@.copy(),
    {
        self.directory().child(self.name.as_str())
    }

    /// The serial number after this one.
    pub fn next_serial(&self) -> (next: u64)
        ensures
            next == self@.next_serial(),
    {
        if self.serial == u64::MAX {
            0
        } else {
            self.serial + 1
        }
    }

    /// Takes what became of making the directory.
    pub fn tried(&mut self, making: Making) -> (attempt: Attempt)
        ensures
            (final(self)@, attempt@) == old(self)@.tried(making@),
    {
        match making {
            Making::Fresh => Attempt::Fill,
            Making::Taken => {
                self.serial = self.next_serial();
                Attempt::Again
            },
            Making::Failed(error) => Attempt::GiveUp(error),
        }
    }
}

/// Why a copy is removed again, if it is, given how writing it ended.
pub open spec fn removal(result: Result<(), String>) -> Option<Seq<char>> {
    match result {
        Ok(_) => None,
        Err(error) => Some("Cannot create temporary copy: "@ + error@),
    }
}

/// Takes what became of writing the copy: only a whole one is kept.
pub fn written(result: Result<(), String>) -> (keeping: Keeping)
    ensures
        match keeping {
            Keeping::Keep => removal(result) is None,
            Keeping::Remove(report) => removal(result) == Some(report@),
        },
{
    match result {
        Ok(_) => Keeping::Keep,
        Err(error) => Keeping::Remove(copy_failed(error.as_str())),
    }
}

/// The report of a copy that could not be made.
pub fn copy_failed(error: &str) -> (message: String)
    ensures
        message@ == "Cannot create temporary copy: "@ + error@,
{
    cat("Cannot create temporary copy: ", error)
}

/// How many bytes may still be copied.
#[derive(Clone, Copy, Debug, PartialEq, Eq, Structural)]
pub struct Budget {
    pub left: u64,
}

impl Budget {
    /// The whole limit.
    pub fn new(limit: u64) -> (budget: Budget)
        ensures
            budget.left == limit,
    {
        Budget { left: limit }
    }

    /// How many bytes to read next into a buffer of the given size.
    pub fn want(&self, buffer: usize) -> (bytes: usize)
        ensures
            bytes <= buffer,
            bytes <= self.left,
            bytes == buffer || bytes == self.left,
    {
        if self.left >= buffer as u64 {
            buffer
        } else {
            self.left as usize
        }
    }

    /// Counts bytes that were read and will be written.
    pub fn spend(&mut self, bytes: usize)
        requires
            bytes <= old(self).left,
        ensures
            final(self).left == old(self).left - bytes,
    {
        self.left = self.left - bytes as u64;
    }
}

/// How a copy ends once the limit is reached or the file is at its end: it is
/// cancelled if the file has grown past the limit in the meantime.
pub fn copy_verdict(more: bool) -> (verdict: Result<(), String>)
    ensures
        match verdict {
            Ok(_) => !more,
            Err(error) => more && error@ == "Temporary copy exceeded its size limit; copy cancelled"@,
        },
{
    if more {
        Err("Temporary copy exceeded its size limit; copy cancelled".to_owned())
    } else {
        Ok(())
    }
}

/// As much of a content as a limit lets through.
pub open spec fn bounded(content: Seq<u8>, limit: u64) -> Seq<u8> {
    if content.len() <= limit {
        content
    } else {
        content.take(limit as int)
    }
}

/// Copies bytes up to the limit and never past it. Input that goes on beyond
/// the limit is an error.
pub fn copy_bounded(input: &Vec<u8>, output: &mut Vec<u8>, limit: u64) -> (copied: Result<
    (),
    String,
>)
    ensures
        final(output)@ == old(output)@ + bounded(input@, limit),
        match copied {
            Ok(_) => input@.len() <= limit && final(output)@ == old(output)@ + input@,
            Err(error) => input@.len() > limit && error@
                == "Temporary copy exceeded its size limit; copy cancelled"@,
        },
{
    let ghost before = output@;
    let mut budget = Budget::new(limit);
    let count: usize = input.len();
    let mut at: usize = 0;
    assert(before + input@.take(0) =~= before);
    while at < count && budget.want(1) == 1
        invariant
            at <= count == input@.len(),
            budget.left == limit - at,
            output@ == before + input@.take(at as int),
        decreases count - at,
    {
        output.push(input[at]);
        budget.spend(1);
        at += 1;
        assert(output@ =~= before + input@.take(at as int));
    }
    assert(at == count ==> input@.take(at as int) =~= input@);
    assert(input@.take(at as int) =~= bounded(input@, limit));
    copy_verdict(at < count)
}

/// Two numbers are written differently.
proof fn lemma_decimal_tells_apart(a: nat, b: nat)
    requires
        a != b,
    ensures
        text::decimal(a) != text::decimal(b),
    decreases a,
{
    let (one, other) = (text::decimal(a), text::decimal(b));
    lemma_decimal_length(a);
    lemma_decimal_length(b);
    if one == other {
        assert(one.last() == text::digit(a % 10) && other.last() == text::digit(b % 10));
        if a >= 10 && b >= 10 {
            assert(one.drop_last() =~= text::decimal(a / 10));
            assert(other.drop_last() =~= text::decimal(b / 10));
            lemma_decimal_tells_apart(a / 10, b / 10);
        } else if a >= 10 {
            lemma_decimal_length(a / 10);
        } else if b >= 10 {
            lemma_decimal_length(b / 10);
        }
    }
}

/// A number has a digit, and several where it is ten or more.
proof fn lemma_decimal_length(n: nat)
    ensures
        text::decimal(n).len() > 0,
        n >= 10 ==> text::decimal(n).len() > 1,
        n < 10 ==> text::decimal(n).len() == 1,
    decreases n,
{
    if n >= 10 {
        lemma_decimal_length(n / 10);
    }
}

/// The digits of a number, none of which is a hyphen.
proof fn lemma_decimal_digits(n: nat)
    ensures
        forall|i: int| 0 <= i < text::decimal(n).len() ==> text::decimal(n)[i] != '-',
    decreases n,
{
    let digits = text::decimal(n);
    if n >= 10 {
        lemma_decimal_digits(n / 10);
        let front = text::decimal(n / 10);
        assert forall|i: int| 0 <= i < digits.len() implies digits[i] != '-' by {
            if i < front.len() {
                assert(digits[i] == front[i]);
            } else {
                assert(digits[i] == text::digit(n % 10));
            }
        }
    } else {
        assert(digits[0] == text::digit(n));
    }
}

/// What stands before the first hyphen and what stands after it.
proof fn lemma_hyphen(one: Seq<char>, tail: Seq<char>, other: Seq<char>, end: Seq<char>)
    requires
        one + seq!['-'] + tail == other + seq!['-'] + end,
        forall|i: int| 0 <= i < one.len() ==> one[i] != '-',
        forall|i: int| 0 <= i < other.len() ==> other[i] != '-',
    ensures
        one == other,
        tail == end,
{
    let (a, b) = (one + seq!['-'] + tail, other + seq!['-'] + end);
    assert(a[one.len() as int] == '-');
    assert(b[other.len() as int] == '-');
    if one.len() < other.len() {
        assert(b[one.len() as int] == other[one.len() as int]);
    }
    if other.len() < one.len() {
        assert(a[other.len() as int] == one[other.len() as int]);
    }
    assert(one =~= a.take(one.len() as int));
    assert(other =~= b.take(one.len() as int));
    assert(tail =~= a.skip((one.len() + 1) as int));
    assert(end =~= b.skip((one.len() + 1) as int));
}

/// Copies go into directories of their own, so that none overwrites another:
/// the name of the directory tells the process, the moment and the serial
/// number. No two copies have all three in common, since a process gives each
/// serial number once.
pub proof fn copies_have_directories_of_their_own(
    process: u32,
    stamp: u128,
    serial: u64,
    other_process: u32,
    other_stamp: u128,
    other_serial: u64,
)
    requires
        directory_name(process, stamp, serial) == directory_name(
            other_process,
            other_stamp,
            other_serial,
        ),
    ensures
        process == other_process,
        stamp == other_stamp,
        serial == other_serial,
{
    reveal_strlit("-");
    let front = "tadoru-copy-"@;
    let (p, s, n) = (
        text::decimal(process as nat),
        text::decimal(stamp as nat),
        text::decimal(serial as nat),
    );
    let (q, t, m) = (
        text::decimal(other_process as nat),
        text::decimal(other_stamp as nat),
        text::decimal(other_serial as nat),
    );
    let one = directory_name(process, stamp, serial).skip(front.len() as int);
    let other = directory_name(other_process, other_stamp, other_serial).skip(front.len() as int);
    assert("-"@ =~= seq!['-']);
    assert(one =~= p + seq!['-'] + (s + seq!['-'] + n));
    assert(other =~= q + seq!['-'] + (t + seq!['-'] + m));
    lemma_decimal_digits(process as nat);
    lemma_decimal_digits(stamp as nat);
    lemma_decimal_digits(other_process as nat);
    lemma_decimal_digits(other_stamp as nat);
    lemma_hyphen(p, s + seq!['-'] + n, q, t + seq!['-'] + m);
    lemma_hyphen(s, n, t, m);
    if process != other_process {
        lemma_decimal_tells_apart(process as nat, other_process as nat);
    }
    if stamp != other_stamp {
        lemma_decimal_tells_apart(stamp as nat, other_stamp as nat);
    }
    if serial != other_serial {
        lemma_decimal_tells_apart(serial as nat, other_serial as nat);
    }
}

/// A copy goes by the name of its file with a mark before it, in its own
/// directory, which no copy with another process, moment or serial number is
/// in.
pub proof fn a_copy_is_alone_in_its_directory(
    folder: paths::LocationView,
    name: Seq<char>,
    process: u32,
    stamp: u128,
    serial: u64,
    other_name: Seq<char>,
    other_process: u32,
    other_stamp: u128,
    other_serial: u64,
)
    requires
        process != other_process || stamp != other_stamp || serial != other_serial,
    ensures
        ({
            let dir = folder.child(directory_name(process, stamp, serial));
            let other_dir = folder.child(directory_name(other_process, other_stamp, other_serial));
            let copy = dir.child("TEMP_"@ + name);
            let other = other_dir.child("TEMP_"@ + other_name);
            &&& copy.file_name() == Some("TEMP_"@ + name)
            &&& copy.parent() == Some(dir)
            &&& copy.parent() != other.parent()
            &&& copy != other
        }),
{
    reveal_strlit("TEMP_");
    reveal_strlit("..");
    reveal_strlit(".");
    let here = directory_name(process, stamp, serial);
    let there = directory_name(other_process, other_stamp, other_serial);
    let dir = folder.child(here);
    let other_dir = folder.child(there);
    let marked = "TEMP_"@ + name;
    assert(marked[0] == 'T');
    assert("."@[0] == '.' && ".."@[0] == '.');
    let copy = dir.child(marked);
    let other = other_dir.child("TEMP_"@ + other_name);
    assert(copy.parts.drop_last() =~= dir.parts);
    assert(other.parts.drop_last() =~= other_dir.parts);
    if here == there {
        copies_have_directories_of_their_own(
            process,
            stamp,
            serial,
            other_process,
            other_stamp,
            other_serial,
        );
    }
    assert(dir.parts.last() == here && other_dir.parts.last() == there);
}

/// The directories and files that there are.
#[verifier::ext_equal]
pub struct DiskView {
    pub dirs: Set<paths::LocationView>,
    pub files: Map<paths::LocationView, Seq<u8>>,
}

impl DiskView {
    /// Every file is in a directory.
    pub open spec fn wf(self) -> bool {
        forall|file: paths::LocationView| #[trigger]
            self.files.contains_key(file) ==> file.parent() is Some && self.dirs.contains(
                file.parent()->0,
            )
    }

    /// What making a directory comes to, unless something else fails.
    pub open spec fn making(self, dir: paths::LocationView) -> MakingView {
        if self.dirs.contains(dir) {
            MakingView::Taken
        } else {
            MakingView::Fresh
        }
    }

    /// With a directory made and a file written.
    pub open spec fn with(
        self,
        dir: paths::LocationView,
        file: paths::LocationView,
        content: Seq<u8>,
    ) -> DiskView {
        DiskView { dirs: self.dirs.insert(dir), files: self.files.insert(file, content) }
    }

    /// With a directory and a file removed.
    pub open spec fn without(
        self,
        dir: paths::LocationView,
        file: paths::LocationView,
    ) -> DiskView {
        DiskView { dirs: self.dirs.remove(dir), files: self.files.remove(file) }
    }
}

/// A copy goes into a directory that was not there before, directly in the
/// folder of the copies, and holds what its source holds; the source and every
/// other file, earlier copies among them, stay as they are.
pub proof fn a_copy_changes_nothing_else(
    disk: DiskView,
    copying: CopyingView,
    source: paths::LocationView,
    limit: u64,
)
    requires
        disk.wf(),
        disk.files.contains_key(source),
        disk.files[source].len() <= limit,
        copying.tried(disk.making(copying.directory())).1 is Fill,
    ensures
        ({
            let dir = copying.directory();
            let copy = copying.copy();
            let after = disk.with(dir, copy, bounded(disk.files[source], limit));
            &&& !disk.dirs.contains(dir)
            &&& !disk.files.contains_key(copy)
            &&& dir.parent() == Some(copying.folder)
            &&& copy.parent() == Some(dir)
            &&& after.wf()
            &&& after.files[copy] == disk.files[source]
            &&& forall|file: paths::LocationView| #[trigger]
                disk.files.contains_key(file) ==> after.files.contains_key(file)
                    && after.files[file] == disk.files[file]
        }),
{
    let dir = copying.directory();
    let copy = copying.copy();
    let after = disk.with(dir, copy, bounded(disk.files[source], limit));
    assert(dir.parts.drop_last() =~= copying.folder.parts);
    assert(copy.parts.drop_last() =~= dir.parts);
    assert forall|file: paths::LocationView| #[trigger]
        after.files.contains_key(file) implies file.parent() is Some && after.dirs.contains(
        file.parent()->0,
    ) by {
        if file != copy {
            assert(disk.files.contains_key(file));
        }
    }
}

/// Two copies never share a directory, whatever process makes them and when: a
/// copy is only written into a directory that was not there.
pub proof fn two_copies_never_share_a_directory(
    disk: DiskView,
    one: CopyingView,
    later: DiskView,
    other: CopyingView,
)
    requires
        one.tried(disk.making(one.directory())).1 is Fill,
        later.dirs.contains(one.directory()),
        other.tried(later.making(other.directory())).1 is Fill,
    ensures
        one.directory() != other.directory(),
        one.copy().parent() != other.copy().parent(),
{
    assert(one.copy().parts.drop_last() =~= one.directory().parts);
    assert(other.copy().parts.drop_last() =~= other.directory().parts);
}

/// A directory that was there is not tried again.
pub proof fn a_taken_directory_is_passed_over(disk: DiskView, copying: CopyingView)
    requires
        disk.dirs.contains(copying.directory()),
    ensures
        copying.tried(disk.making(copying.directory())).1 is Again,
        copying.tried(disk.making(copying.directory())).0.directory() != copying.directory(),
{
    let next = copying.tried(disk.making(copying.directory())).0;
    assert(next.directory().parts.last() == directory_name(
        next.process,
        next.stamp,
        next.serial,
    ));
    assert(copying.directory().parts.last() == directory_name(
        copying.process,
        copying.stamp,
        copying.serial,
    ));
    if next.directory() == copying.directory() {
        copies_have_directories_of_their_own(
            next.process,
            next.stamp,
            next.serial,
            copying.process,
            copying.stamp,
            copying.serial,
        );
    }
}

/// A copy that failed leaves nothing: once what was written of it is removed,
/// all is as it was before.
pub proof fn a_failed_copy_leaves_nothing(
    disk: DiskView,
    copying: CopyingView,
    part: Seq<u8>,
)
    requires
        disk.wf(),
        copying.tried(disk.making(copying.directory())).1 is Fill,
    ensures
        disk.with(copying.directory(), copying.copy(), part).without(
            copying.directory(),
            copying.copy(),
        ) == disk,
{
    let dir = copying.directory();
    let copy = copying.copy();
    assert(copy.parts.drop_last() =~= dir.parts);
    assert(copy.parent() == Some(dir));
    assert(!disk.files.contains_key(copy));
    let after = disk.with(dir, copy, part).without(dir, copy);
    assert(after.dirs =~= disk.dirs);
    assert(after.files =~= disk.files);
}

/// A file is copied exactly if copies are on, it could be opened, it is a file
/// that is no longer than the limit, and it has a name.
pub proof fn what_is_copied(limit: u64, original: Result<Original, String>)
    ensures
        refusal(limit, original) is None == (limit > 0 && original is Ok
            && original->Ok_0.is_file && original->Ok_0.length <= limit
            && original->Ok_0.name is Some),
        limit > 0 && original is Err ==> refusal(limit, original) == Some(original->Err_0@),
{
}

/// A larger limit refuses no file that a smaller one lets through.
pub proof fn a_larger_limit_lets_more_through(
    limit: u64,
    larger: u64,
    original: Result<Original, String>,
)
    requires
        limit <= larger,
        refusal(limit, original) is None,
    ensures
        refusal(larger, original) is None,
{
}

/// As much of a content is let through as the limit allows, from its start on
/// and nothing else.
pub proof fn a_limit_cuts_at_the_end(content: Seq<u8>, limit: u64, k: int)
    ensures
        content.len() <= limit ==> bounded(content, limit) == content,
        content.len() > limit ==> bounded(content, limit).len() == limit,
        0 <= k < bounded(content, limit).len() ==> bounded(content, limit)[k] == content[k],
{
}

/// A copy lies in a directory of its own, and that in the folder of copies,
/// under the name it was given.
pub proof fn a_copy_lies_in_the_folder_of_copies(copying: CopyingView)
    ensures
        ({
            let dir = directory_name(copying.process, copying.stamp, copying.serial);
            &&& copying.directory().anchor == copying.folder.anchor
            &&& copying.directory().parts == copying.folder.parts + seq![dir]
            &&& copying.copy().anchor == copying.folder.anchor
            &&& copying.copy().parts == copying.folder.parts + seq![dir, copying.name]
            &&& copying.next_serial() != copying.serial
        }),
{
    let dir = directory_name(copying.process, copying.stamp, copying.serial);
    assert(copying.folder.parts.push(dir) =~= copying.folder.parts + seq![dir]);
    assert(copying.folder.parts.push(dir).push(copying.name) =~= copying.folder.parts
        + seq![dir, copying.name]);
}

/// Trying goes on only where the directory was taken, and then under another
/// number; the folder and the name of the copy never change.
pub proof fn trying_keeps_the_folder_and_the_name(copying: CopyingView, making: MakingView)
    ensures
        ({
            let (after, attempt) = copying.tried(making);
            &&& after.folder == copying.folder && after.name == copying.name && after.process
                == copying.process && after.stamp == copying.stamp
            &&& making is Fresh ==> after == copying && attempt is Fill
            &&& making is Taken ==> attempt is Again && after.serial != copying.serial
            &&& making matches MakingView::Failed(error) ==> after == copying && attempt
                == AttemptView::GiveUp(error)
        }),
{
}

/// A limit in MiB is so many times 1048576 bytes, and more MiB are more bytes;
/// none turns copies off. A copy is named after its file, so that different
/// files have different copies.
pub proof fn limits_and_names_of_copies(mib: u64, more: u64, name: Seq<char>, other: Seq<char>)
    ensures
        limit_bytes(0) == Some(0int),
        limit_bytes(1) == Some(1048576int),
        limit_bytes(mib) is Some ==> limit_bytes(mib)->0 == mib * 1048576,
        limit_bytes(mib) is None ==> mib * 1048576 > u64::MAX,
        limit_bytes(mib) is Some && limit_bytes(more) is Some && mib < more ==> limit_bytes(mib)->0
            < limit_bytes(more)->0,
        copy_name(name) == "TEMP_"@ + name,
        copy_name(name) == copy_name(other) ==> name == other,
{
    if copy_name(name) == copy_name(other) {
        let n = "TEMP_"@.len() as int;
        assert(copy_name(name).skip(n) =~= name);
        assert(copy_name(other).skip(n) =~= other);
    }
}

/// The directory of a copy is named after the process, the time and the serial
/// number, in this order.
pub proof fn how_the_directory_of_a_copy_is_named(process: u32, stamp: u128, serial: u64)
    ensures
        directory_name(process, stamp, serial) == "tadoru-copy-"@ + (text::decimal(process as nat)
            + "-"@ + (text::decimal(stamp as nat) + "-"@ + text::decimal(serial as nat))),
{
    assert(directory_name(process, stamp, serial) =~= "tadoru-copy-"@ + (text::decimal(
        process as nat,
    ) + "-"@ + (text::decimal(stamp as nat) + "-"@ + text::decimal(serial as nat))));
}

/// Only a copy that was written whole is kept.
pub proof fn only_a_whole_copy_is_kept(error: String)
    ensures
        removal(Ok(())) is None,
        removal(Err(error)) == Some("Cannot create temporary copy: "@ + error@),
{
}

} // verus!
