//! Putting the shell integration in place: a block between two markers in a
//! startup file, written so that it can be found again.
use crate::cli::Shell;
use crate::config::Found;
use crate::paths;
use crate::paths::{Location, Platform};
use crate::text;
use crate::text::{
    cat, cat3, chars_of, ends_with, find, join, lines, replace, same, slice_text, trim,
    trim_start_char,
};
use vstd::prelude::*;
use vstd::string::StringExecFns;

verus! {

/// The line before what this program owns inside a file it does not.
pub const BEGIN: &'static str = "# >>> tadoru >>>";

/// The line after it.
pub const END: &'static str = "# <<< tadoru <<<";

/// The line that belongs in the file, between the markers.
pub open spec fn block_of(line: Seq<char>) -> Seq<char> {
    BEGIN@ + "\n"@ + line + "\n"@ + END@ + "\n"@
}

/// The line that belongs in the file, between the markers.
pub fn block(line: &str) -> (out: String)
    ensures
        out@ == block_of(line@),
{
    let start = cat3(BEGIN, "\n", line);
    let middle = cat3(start.as_str(), "\n", END);
    cat(middle.as_str(), "\n")
}

/// Where the block stands in a text: the place of its begin marker, the first
/// one, and that of its end marker, the first one after the begin marker.
pub open spec fn block_at(text: Seq<char>) -> Option<(int, int)> {
    match text::first_from(text, BEGIN@, 0) {
        None => None,
        Some(start) => match text::first_from(text, END@, start + BEGIN@.len()) {
            None => None,
            Some(end) => Some((start, end)),
        },
    }
}

/// Where the begin marker of the block stands.
pub open spec fn block_start(text: Seq<char>) -> int {
    match block_at(text) {
        Some((start, _)) => start,
        None => 0,
    }
}

/// Where the end marker of the block stands.
pub open spec fn block_end(text: Seq<char>) -> int {
    match block_at(text) {
        Some((_, end)) => end,
        None => 0,
    }
}

fn find_block(chars: &Vec<char>) -> (found: Option<(usize, usize)>)
    ensures
        match found {
            Some((start, end)) => block_at(chars@) == Some((start as int, end as int)) && start
                + BEGIN@.len() <= end && end + END@.len() <= chars@.len(),
            None => block_at(chars@) is None,
        },
{
    let begin = chars_of(BEGIN);
    let length: usize = begin.len();
    let end = chars_of(END);
    proof {
        text::lemma_first_from(chars@, BEGIN@, 0);
    }
    match find(chars, &begin, 0) {
        None => None,
        Some(start) => {
            let total: usize = chars.len();
            assert(start + length <= total);
            proof {
                text::lemma_first_from(chars@, END@, start + length);
            }
            match find(chars, &end, start + length) {
                None => None,
                Some(end) => Some((start, end)),
            }
        },
    }
}

/// The line inside the block, if the text has one.
pub open spec fn extracted(text: Seq<char>) -> Option<Seq<char>> {
    match block_at(text) {
        None => None,
        Some((start, end)) => Some(text::trimmed(text.subrange(start + BEGIN@.len(), end))),
    }
}

/// The line inside the block, if the text has one.
pub fn extract(text: &str) -> (line: Option<String>)
    ensures
        text::inside(line) == extracted(text@),
{
    let chars = chars_of(text);
    let total: usize = chars.len();
    match find_block(&chars) {
        None => None,
        Some((start, end)) => {
            assert(end <= total);
            let length: usize = chars_of(BEGIN).len();
            let inner = slice_text(&chars, start + length, end);
            Some(trim(inner.as_str()))
        },
    }
}

/// A text ready for a block after it: an empty line away from what it holds.
pub open spec fn ended(text: Seq<char>) -> Seq<char> {
    if text.len() == 0 {
        text
    } else if text.last() == '\n' {
        text.push('\n')
    } else {
        text.push('\n').push('\n')
    }
}

/// Whether a text has a block to replace.
pub open spec fn has_block(text: Seq<char>) -> bool {
    block_at(text) is Some
}

/// A text with the block in it: in place of the one that is there, or at the
/// end.
pub open spec fn with_block(text: Seq<char>, line: Seq<char>) -> Seq<char> {
    match block_at(text) {
        Some((start, end)) => text.take(start) + block_of(line) + after_block(text),
        None => ended(text) + block_of(line),
    }
}

/// What stands after the block of a text, but for line feeds.
pub open spec fn after_block(text: Seq<char>) -> Seq<char> {
    let end = block_end(text);
    text::trim_front(text.skip((end + END@.len()) as int), |c: char| c == '\n')
}

/// A text with the block in it: in place of the one that is there, or at the
/// end.
pub fn write_block(existing: &str, line: &str) -> (updated: String)
    ensures
        updated@ == with_block(existing@, line@),
{
    let chars = chars_of(existing);
    let total: usize = chars.len();
    match find_block(&chars) {
        Some((start, end)) => {
            let length: usize = chars_of(END).len();
            let mut out = slice_text(&chars, 0, start);
            out.append(block(line).as_str());
            let rest = slice_text(&chars, end + length, total);
            assert(rest@ =~= existing@.skip(end + length));
            assert(existing@.take(start as int) =~= existing@.subrange(0, start as int));
            out.append(trim_start_char(rest.as_str(), '\n').as_str());
            out
        },
        None => {
            let mut out = existing.to_owned();
            if total > 0 {
                if !ends_with(existing, '\n') {
                    out.push('\n');
                }
                out.push('\n');
            }
            assert(out@ =~= ended(existing@));
            out.append(block(line).as_str());
            out
        },
    }
}

/// What a run would do, worked out before anything is written.
#[derive(Debug)]
pub struct Plan {
    pub shell: Shell,
    pub file: Location,
    pub line: String,
    /// The file already has the block as it should be.
    pub current: bool,
    /// The file has a block that says something else.
    pub replacing: bool,
}

/// What a plan will do, in words.
pub open spec fn intent(current: bool, replacing: bool) -> Seq<char> {
    if current {
        "already set up; nothing to write"@
    } else if replacing {
        "replacing the existing tadoru block"@
    } else {
        "appending a tadoru block"@
    }
}

/// Lines set off from what is around them.
pub open spec fn indented(lines: Seq<Seq<char>>) -> Seq<Seq<char>> {
    lines.map_values(|line: Seq<char>| "    "@ + line)
}

fn indent(lines: &Vec<String>) -> (out: Vec<String>)
    ensures
        text::views(out@) == indented(text::views(lines@)),
{
    let ghost all = text::views(lines@);
    let mut out: Vec<String> = Vec::new();
    let mut i: usize = 0;
    while i < lines.len()
        invariant
            i <= lines@.len(),
            all == text::views(lines@),
            text::views(out@) == indented(all.take(i as int)),
        decreases lines@.len() - i,
    {
        let line = cat("    ", lines[i].as_str());
        proof {
            text::lemma_views_push(out@, line);
            assert(all[i as int] == lines@[i as int]@);
            assert(indented(all.take(i + 1)) =~= indented(all.take(i as int)).push(line@));
        }
        out.push(line);
        i += 1;
    }
    assert(all.take(i as int) =~= all);
    out
}

/// What a plan will do, for the user to read before they agree to it.
pub open spec fn description(
    shell: Shell,
    file: Seq<char>,
    line: Seq<char>,
    current: bool,
    replacing: bool,
) -> Seq<char> {
    "  shell: "@ + shell.name() + "\n  file:  "@ + file + "\n  what:  "@ + intent(current, replacing)
        + "\n\n"@ + text::joined(indented(text::lines_of(block_of(line))), "\n"@)
}

impl Plan {
    /// What the plan will do, for the user to read before they agree to it.
    pub fn describe(&self, platform: Platform) -> (text: String)
        ensures
            text@ == description(
                self.shell,
                self.file@.display(platform),
                self.line@,
                self.current,
                self.replacing,
            ),
    {
        let what = if self.current {
            "already set up; nothing to write"
        } else if self.replacing {
            "replacing the existing tadoru block"
        } else {
            "appending a tadoru block"
        };
        let mut out = cat3("  shell: ", self.shell.label(), "\n  file:  ");
        out.append(self.file.display(platform).as_str());
        out.append("\n  what:  ");
        out.append(what);
        out.append("\n\n");
        let inside = lines(block(self.line.as_str()).as_str());
        out.append(join(&indent(&inside), "\n").as_str());
        out
    }

    /// Whether there is nothing to write.
    pub fn is_noop(&self) -> (yes: bool)
        ensures
            yes == self.current,
    {
        self.current
    }
}

/// Whether PowerShell reads a character of a path as it stands.
pub open spec fn reads_plainly(c: char) -> bool {
    'a' <= c <= 'z' || 'A' <= c <= 'Z' || '0' <= c <= '9' || c == '\\' || c == '/' || c == ':' || c
        == '.' || c == '_' || c == '-'
}

/// Whether PowerShell reads a path as one word without quotes.
pub open spec fn is_word(path: Seq<char>) -> bool {
    &&& path.len() > 0
    &&& 'a' <= path[0] <= 'z' || 'A' <= path[0] <= 'Z' || path[0] == '\\' || path[0] == '/'
    &&& forall|i: int| 0 <= i < path.len() ==> reads_plainly(#[trigger] path[i])
}

/// A path as PowerShell takes it for a command: in quotes where it needs them.
pub open spec fn command(path: Seq<char>) -> Seq<char> {
    if is_word(path) {
        path
    } else {
        "'"@ + text::replaced(path, '\'', "''"@) + "'"@
    }
}

fn write_command(path: &str) -> (out: String)
    ensures
        out@ == command(path@),
{
    let chars = chars_of(path);
    let mut plain = false;
    if chars.len() > 0 {
        let c = chars[0];
        plain = 'a' <= c && c <= 'z' || 'A' <= c && c <= 'Z' || c == '\\' || c == '/';
    }
    let mut i: usize = 0;
    while plain && i < chars.len()
        invariant
            i <= chars@.len(),
            plain == (chars@.len() > 0 && ('a' <= chars@[0] <= 'z' || 'A' <= chars@[0] <= 'Z'
                || chars@[0] == '\\' || chars@[0] == '/') && forall|k: int|
                0 <= k < i ==> reads_plainly(#[trigger] chars@[k])),
        decreases chars@.len() - i,
    {
        let c = chars[i];
        plain = 'a' <= c && c <= 'z' || 'A' <= c && c <= 'Z' || '0' <= c && c <= '9' || c == '\\'
            || c == '/' || c == ':' || c == '.' || c == '_' || c == '-';
        assert(plain == reads_plainly(chars@[i as int]));
        i += 1;
    }
    if plain {
        path.to_owned()
    } else {
        assert(!is_word(path@));
        cat3("'", replace(path, '\'', "''").as_str(), "'")
    }
}

/// The line that belongs in a shell's startup file. zoxide defines aliases of
/// the same names, which beat functions, so the line has to come after it; at
/// the end of the file it does.
pub open spec fn startup_line(shell: Shell, exe: Seq<char>) -> Seq<char> {
    match shell {
        Shell::Powershell => "Invoke-Expression (& "@ + command(exe)
            + " init powershell | Out-String)"@,
        _ => "eval \"$("@ + text::replaced(exe, '\\', "/"@) + " init bash)\""@,
    }
}

/// The startup file that a shell reads, where it has one.
pub open spec fn startup_file(
    shell: Shell,
    home: paths::LocationView,
    documents: Option<paths::LocationView>,
) -> Option<paths::LocationView> {
    let profile = "Microsoft.PowerShell_profile.ps1"@;
    match (shell, documents) {
        (Shell::Cmd, _) => None,
        (Shell::Powershell, Some(dir)) => Some(dir.child("PowerShell"@).child(profile)),
        (Shell::Powershell, None) => Some(
            home.child("Documents"@).child("PowerShell"@).child(profile),
        ),
        (Shell::Bash, _) => Some(home.child(".bashrc"@)),
    }
}

/// What a startup file holds.
pub open spec fn text_held(found: Found<String>, file: Seq<char>) -> Result<Seq<char>, Seq<char>> {
    match found {
        Found::Read(text) => Ok(text@),
        Found::Nowhere | Found::Missing => Ok(Seq::empty()),
        Found::Unreadable(error) | Found::Invalid(error) => Err(file + ": "@ + error@),
    }
}

/// What a run writes into a file that holds the given text, if anything.
pub open spec fn rewritten(existing: Seq<char>, line: Seq<char>) -> Option<Seq<char>> {
    if extracted(existing) == Some(line) {
        None
    } else {
        Some(with_block(existing, line))
    }
}

/// The shell that launched this process.
pub open spec fn launching_shell(
    ps_module_path: bool,
    bash: bool,
    shell: bool,
    platform: Platform,
) -> Shell {
    if ps_module_path {
        Shell::Powershell
    } else if bash || shell {
        Shell::Bash
    } else if platform is Windows {
        Shell::Powershell
    } else {
        Shell::Bash
    }
}

/// Whether an answer allows the file to be written.
pub open spec fn agrees(answer: Seq<char>) -> bool {
    let word = text::trimmed(answer);
    word == "y"@ || word == "Y"@ || word == "yes"@
}

/// The startup file that a shell reads, and the line that belongs in it. The
/// home directory may not be known.
pub fn startup(
    shell: Shell,
    exe: &str,
    home: Result<Location, String>,
    documents: Option<Location>,
) -> (found: Result<(Location, String), String>)
    ensures
        match found {
            Ok((file, line)) => home is Ok && !(shell is Cmd) && line@ == startup_line(shell, exe@)
                && startup_file(shell, home->Ok_0@, text::inside(documents)) == Some(file@),
            Err(error) => if shell is Cmd {
                error@
                    == "cmd.exe has no startup file to add a line to. Put the .cmd files on PATH instead: tadoru init cmd --out <dir>"@
            } else {
                home is Err && error@ == home->Err_0@
            },
        },
{
    match shell {
        Shell::Cmd => Err(
            "cmd.exe has no startup file to add a line to. Put the .cmd files on PATH instead: tadoru init cmd --out <dir>".to_owned(),
        ),
        Shell::Powershell => match home {
            Err(error) => Err(error),
            Ok(home) => {
                let documents = match documents {
                    Some(dir) => dir,
                    None => home.child("Documents"),
                };
                let file = documents.child("PowerShell").child("Microsoft.PowerShell_profile.ps1");
                let line = cat3(
                    "Invoke-Expression (& ",
                    write_command(exe).as_str(),
                    " init powershell | Out-String)",
                );
                Ok((file, line))
            },
        },
        Shell::Bash => match home {
            Err(error) => Err(error),
            Ok(home) => {
                let slashed = replace(exe, '\\', "/");
                let line = cat3("eval \"$(", slashed.as_str(), " init bash)\"");
                Ok((home.child(".bashrc"), line))
            },
        },
    }
}

/// What a startup file holds. One that is not there yet holds nothing; one that
/// cannot be read as text is an error, so that it is never written over.
pub fn held(found: Found<String>, file: &str) -> (out: Result<String, String>)
    ensures
        text::outcome(out) == text_held(found, file@),
{
    match found {
        Found::Read(text) => Ok(text),
        Found::Nowhere | Found::Missing => {
            let none = String::new();
            assert(none@ =~= Seq::<char>::empty());
            Ok(none)
        },
        Found::Unreadable(error) | Found::Invalid(error) => Err(cat3(file, ": ", error.as_str())),
    }
}

/// What a run would do to a file that holds the given text.
pub fn plan_for(shell: Shell, file: Location, line: String, existing: &str) -> (plan: Plan)
    ensures
        plan.shell == shell,
        plan.file@ == file@,
        plan.line@ == line@,
        plan.current == (extracted(existing@) == Some(line@)),
        plan.replacing == (extracted(existing@) is Some),
{
    let found = extract(existing);
    let current = match &found {
        Some(inside) => same(inside.as_str(), line.as_str()),
        None => false,
    };
    Plan { shell, file, current, replacing: found.is_some(), line }
}

/// What to write for a plan, if anything has to be written.
pub fn apply(plan: &Plan, existing: &str) -> (updated: Option<String>)
    ensures
        text::inside(updated) == if plan.current {
            None
        } else {
            Some(with_block(existing@, plan.line@))
        },
        plan.current == (extracted(existing@) == Some(plan.line@)) ==> text::inside(updated)
            == rewritten(existing@, plan.line@),
{
    if plan.current {
        None
    } else {
        Some(write_block(existing, plan.line.as_str()))
    }
}

/// The shell that launched this process, by the variables that shells set,
/// or else the platform's own.
pub fn detect(ps_module_path: bool, bash: bool, shell: bool, platform: Platform) -> (detected:
    Shell)
    ensures
        detected == launching_shell(ps_module_path, bash, shell, platform),
{
    if ps_module_path {
        return Shell::Powershell;
    }
    if bash || shell {
        return Shell::Bash;
    }
    match platform {
        Platform::Windows => Shell::Powershell,
        _ => Shell::Bash,
    }
}

/// Whether an answer allows the file to be written.
pub fn confirmed(answer: &str) -> (yes: bool)
    ensures
        yes == agrees(answer@),
{
    let word = trim(answer);
    same(word.as_str(), "y") || same(word.as_str(), "Y") || same(word.as_str(), "yes")
}

/// The one `#` of a marker is its first character, and it is on one line.
pub open spec fn is_marker(marker: Seq<char>) -> bool {
    &&& marker.len() > 0
    &&& marker[0] == '#'
    &&& forall|i: int| 0 < i < marker.len() ==> marker[i] != '#'
    &&& forall|i: int| 0 <= i < marker.len() ==> marker[i] != '\n'
}

proof fn lemma_markers()
    ensures
        is_marker(BEGIN@),
        is_marker(END@),
        BEGIN@.len() == END@.len() == 16,
        BEGIN@[2] != END@[2],
        "\n"@ == seq!['\n'],
{
    reveal_strlit("# >>> tadoru >>>");
    reveal_strlit("# <<< tadoru <<<");
    reveal_strlit("\n");
    assert("\n"@ =~= seq!['\n']);
}

/// A marker that a text does not hold is found where it is put after it.
proof fn lemma_found_after(front: Seq<char>, marker: Seq<char>, rest: Seq<char>, from: int)
    requires
        is_marker(marker),
        0 <= from <= front.len(),
        forall|k: int| from <= k ==> !text::occurs_at(front, marker, k),
    ensures
        text::first_from(front + marker + rest, marker, from) == Some(front.len() as int),
{
    let all = front + marker + rest;
    let at = front.len() as int;
    assert(all.subrange(at, at + marker.len()) =~= marker);
    assert forall|k: int| from <= k < at implies !text::occurs_at(all, marker, k) by {
        if text::occurs_at(all, marker, k) {
            let here = all.subrange(k, k + marker.len());
            if k + marker.len() <= at {
                assert(front.subrange(k, k + marker.len()) =~= here);
                assert(text::occurs_at(front, marker, k));
            } else {
                assert(here[at - k] == all[at]);
                assert(all[at] == marker[0]);
            }
        }
    }
    text::lemma_first_is(all, marker, from, at);
}

proof fn lemma_block_parts(front: Seq<char>, line: Seq<char>, rest: Seq<char>)
    ensures
        front + block_of(line) + rest == front + BEGIN@ + (seq!['\n'] + line + seq!['\n'] + END@
            + seq!['\n'] + rest),
        front + block_of(line) + rest == (front + BEGIN@ + seq!['\n'] + line + seq!['\n']) + END@ + (
        seq!['\n'] + rest),
{
    lemma_markers();
    assert(front + block_of(line) + rest =~= front + BEGIN@ + (seq!['\n'] + line + seq!['\n'] + END@
        + seq!['\n'] + rest));
    assert(front + block_of(line) + rest =~= (front + BEGIN@ + seq!['\n'] + line + seq!['\n']) + END@
        + (seq!['\n'] + rest));
}

proof fn lemma_trim_front_line(line: Seq<char>, rest: Seq<char>)
    ensures
        text::trim_front(seq!['\n'] + line + rest, |c: char| text::white_space(c))
            == text::trim_front(line + rest, |c: char| text::white_space(c)),
{
    let all = seq!['\n'] + line + rest;
    assert(all[0] == '\n');
    assert(all.skip(1) =~= line + rest);
}

proof fn lemma_trim_back_newline(line: Seq<char>)
    ensures
        text::trimmed(line.push('\n')) == text::trimmed(line),
    decreases line.len(),
{
    let white = |c: char| text::white_space(c);
    let more = line.push('\n');
    if line.len() == 0 {
        assert(more.skip(1) =~= line);
        assert(text::trim_front(more, white) == text::trim_front(more.skip(1), white));
    } else if white(line[0]) {
        assert(more.skip(1) =~= line.skip(1).push('\n'));
        lemma_trim_back_newline(line.skip(1));
        assert(text::trim_front(more, white) == text::trim_front(more.skip(1), white));
        assert(text::trim_front(line, white) == text::trim_front(line.skip(1), white));
    } else {
        assert(text::trim_front(more, white) == more);
        assert(text::trim_front(line, white) == line);
        assert(more.drop_last() =~= line);
        assert(text::trim_back(more, white) == text::trim_back(more.drop_last(), white));
    }
}

/// The block is found where it was put.
proof fn lemma_block_found(front: Seq<char>, line: Seq<char>, rest: Seq<char>)
    requires
        !text::occurs(front, BEGIN@),
        !text::occurs(line, END@),
    ensures
        block_at(front + block_of(line) + rest) == Some(
            (front.len() as int, (front.len() + 18 + line.len()) as int),
        ),
{
    lemma_markers();
    lemma_block_parts(front, line, rest);
    let n = front.len() as int;
    assert forall|k: int| 0 <= k implies !text::occurs_at(front, BEGIN@, k) by {
        assert(!text::occurs(front, BEGIN@));
    }
    lemma_found_after(
        front,
        BEGIN@,
        seq!['\n'] + line + seq!['\n'] + END@ + seq!['\n'] + rest,
        0,
    );
    let before = front + BEGIN@ + seq!['\n'] + line + seq!['\n'];
    assert forall|k: int| n + 16 <= k implies !text::occurs_at(before, END@, k) by {
        if text::occurs_at(before, END@, k) {
            let here = before.subrange(k, k + 16);
            let stop = n + 17 + line.len();
            assert(here[0] == before[k]);
            assert(before[n + 16] == '\n');
            assert(before[stop] == '\n');
            if k + 16 <= stop {
                assert(line.subrange(k - n - 17, k - n - 1) =~= here);
                assert(text::occurs_at(line, END@, k - n - 17));
            } else {
                assert(here[stop - k] == before[stop]);
            }
        }
    }
    lemma_found_after(before, END@, seq!['\n'] + rest, n + 16);
}

/// The line of a block is read back, without the white space round it, whatever
/// stands before the block and after it. This needs a line without an end
/// marker in it, and no begin marker before the block.
pub proof fn a_written_line_is_read_back(front: Seq<char>, line: Seq<char>, rest: Seq<char>)
    requires
        !text::occurs(front, BEGIN@),
        !text::occurs(line, END@),
    ensures
        extracted(front + block_of(line) + rest) == Some(text::trimmed(line)),
        text::trimmed(line) == line ==> extracted(front + block_of(line) + rest) == Some(line),
{
    lemma_markers();
    lemma_block_parts(front, line, rest);
    lemma_block_found(front, line, rest);
    let all = front + block_of(line) + rest;
    let n = front.len() as int;
    let inner = all.subrange(n + 16, n + 18 + line.len());
    assert(inner =~= seq!['\n'] + line + seq!['\n']);
    lemma_trim_front_line(line, seq!['\n']);
    assert(line + seq!['\n'] =~= line.push('\n'));
    lemma_trim_back_newline(line);
}

/// After the block has been written it is found again: the line read back is
/// the line that was written, so the next run sees that nothing is left to do.
/// This needs a line without an end marker in it, and a file that has a block
/// to replace or no begin marker.
pub proof fn written_block_is_found_again(existing: Seq<char>, line: Seq<char>)
    requires
        !text::occurs(line, END@),
        has_block(existing) || !text::occurs(existing, BEGIN@),
    ensures
        extracted(with_block(existing, line)) == Some(text::trimmed(line)),
        text::trimmed(line) == line ==> extracted(with_block(existing, line)) == Some(line),
{
    lemma_markers();
    text::lemma_occurs_first(existing, BEGIN@);
    if has_block(existing) {
        let start = block_start(existing);
        lemma_before_first(existing, BEGIN@, start);
        a_written_line_is_read_back(existing.take(start), line, after_block(existing));
    } else {
        lemma_ended_marker(existing, BEGIN@);
        a_written_line_is_read_back(ended(existing), line, Seq::empty());
        assert(ended(existing) + block_of(line) + Seq::<char>::empty() =~= ended(existing)
            + block_of(line));
    }
}

/// Before the first marker there is none.
proof fn lemma_before_first(all: Seq<char>, marker: Seq<char>, at: int)
    requires
        text::first_from(all, marker, 0) == Some(at),
        marker.len() > 0,
    ensures
        0 <= at <= all.len(),
        !text::occurs(all.take(at), marker),
{
    text::lemma_first_from(all, marker, 0);
    if text::occurs(all.take(at), marker) {
        let k = choose|k: int| text::occurs_at(all.take(at), marker, k);
        assert(all.take(at).subrange(k, k + marker.len()) =~= all.subrange(k, k + marker.len()));
        assert(text::occurs_at(all, marker, k));
    }
}

/// The line feeds put after a text bring no marker into it.
proof fn lemma_ended_marker(text: Seq<char>, marker: Seq<char>)
    requires
        is_marker(marker),
        !text::occurs(text, marker),
    ensures
        !text::occurs(ended(text), marker),
{
    let all = ended(text);
    if text::occurs(all, marker) {
        let k = choose|k: int| text::occurs_at(all, marker, k);
        let here = all.subrange(k, k + marker.len());
        if k + marker.len() <= text.len() {
            assert(text.subrange(k, k + marker.len()) =~= here);
            assert(text::occurs_at(text, marker, k));
        } else {
            assert(here[marker.len() - 1] == all[k + marker.len() - 1]);
        }
    }
}

/// Writing again leaves one block: it takes the place of the block that was
/// written before, as if that one had never been there. This needs an earlier
/// line without an end marker in it, and a file that had a block to replace or
/// no begin marker.
pub proof fn writing_again_replaces_the_block(
    existing: Seq<char>,
    earlier: Seq<char>,
    line: Seq<char>,
)
    requires
        !text::occurs(earlier, END@),
        has_block(existing) || !text::occurs(existing, BEGIN@),
    ensures
        with_block(with_block(existing, earlier), line) == with_block(existing, line),
{
    lemma_markers();
    text::lemma_occurs_first(existing, BEGIN@);
    if has_block(existing) {
        let start = block_start(existing);
        let end = block_end(existing);
        lemma_before_first(existing, BEGIN@, start);
        lemma_rewrite(existing.take(start), earlier, after_block(existing), line);
        lemma_trimmed_twice(existing.skip((end + END@.len()) as int));
    } else {
        lemma_ended_marker(existing, BEGIN@);
        lemma_rewrite(ended(existing), earlier, Seq::empty(), line);
        assert(ended(existing) + block_of(earlier) + Seq::<char>::empty() =~= ended(existing)
            + block_of(earlier));
        assert(ended(existing) + block_of(line) + Seq::<char>::empty() =~= ended(existing)
            + block_of(line));
    }
}

proof fn lemma_trimmed_twice(text: Seq<char>)
    ensures
        text::trim_front(text::trim_front(text, |c: char| c == '\n'), |c: char| c == '\n')
            == text::trim_front(text, |c: char| c == '\n'),
    decreases text.len(),
{
    if text.len() > 0 && text[0] == '\n' {
        lemma_trimmed_twice(text.skip(1));
    }
}

proof fn lemma_rewrite(front: Seq<char>, earlier: Seq<char>, rest: Seq<char>, line: Seq<char>)
    requires
        !text::occurs(front, BEGIN@),
        !text::occurs(earlier, END@),
    ensures
        with_block(front + block_of(earlier) + rest, line) == front + block_of(line)
            + text::trim_front(rest, |c: char| c == '\n'),
{
    lemma_markers();
    lemma_block_parts(front, earlier, rest);
    lemma_block_found(front, earlier, rest);
    let all = front + block_of(earlier) + rest;
    let n = front.len() as int;
    assert(all.take(n) =~= front);
    let tail = all.skip(n + 34 + earlier.len());
    assert(tail =~= seq!['\n'] + rest);
    assert(tail[0] == '\n');
    assert(tail.skip(1) =~= rest);
}

/// What is left when line feeds are taken off the front of a text is its end.
proof fn lemma_trimmed_end(text: Seq<char>)
    ensures
        ({
            let rest = text::trim_front(text, |c: char| c == '\n');
            rest.len() <= text.len() && rest == text.skip(text.len() - rest.len())
        }),
    decreases text.len(),
{
    let rest = text::trim_front(text, |c: char| c == '\n');
    if text.len() > 0 && text[0] == '\n' {
        lemma_trimmed_end(text.skip(1));
        assert(rest =~= text.skip(text.len() - rest.len()));
    } else {
        assert(rest =~= text.skip(0));
    }
}

/// Whether a text has one begin marker, at the given place.
pub open spec fn begins_once(text: Seq<char>, at: int) -> bool {
    &&& text::occurs_at(text, BEGIN@, at)
    &&& forall|k: int| #[trigger] text::occurs_at(text, BEGIN@, k) ==> k == at
}

/// A block put between texts without a begin marker brings the only one.
proof fn lemma_begins_once(front: Seq<char>, line: Seq<char>, rest: Seq<char>)
    requires
        !text::occurs(front, BEGIN@),
        !text::occurs(line, BEGIN@),
        !text::occurs(rest, BEGIN@),
    ensures
        begins_once(front + block_of(line) + rest, front.len() as int),
{
    lemma_markers();
    let all = front + block_of(line) + rest;
    let n = front.len() as int;
    let m = n + 17;
    let stop = m + line.len();
    let e = stop + 1;
    lemma_block_parts(front, line, rest);
    assert(all.subrange(n, n + 16) =~= BEGIN@);
    assert(all.subrange(e, e + 16) =~= END@);
    assert(all[n] == '#');
    assert(all[n + 16] == '\n');
    assert(all[stop] == '\n');
    assert(all[e + 16] == '\n');
    assert forall|k: int| #[trigger] text::occurs_at(all, BEGIN@, k) implies k == n by {
        let here = all.subrange(k, k + 16);
        assert(here[0] == all[k]);
        if k + 16 <= n {
            assert(front.subrange(k, k + 16) =~= here);
            assert(text::occurs_at(front, BEGIN@, k));
        } else if k < n {
            assert(here[n - k] == all[n]);
        } else if k == n {
        } else if k < n + 16 {
            assert(all[k] == BEGIN@[k - n]);
        } else if k == n + 16 {
        } else if k + 16 <= stop {
            assert(line.subrange(k - m, k - m + 16) =~= here);
            assert(text::occurs_at(line, BEGIN@, k - m));
        } else if k <= stop {
            assert(here[stop - k] == all[stop]);
        } else if k == e {
            assert(here[2] == END@[2]);
        } else if k < e + 16 {
            assert(all[k] == all.subrange(e, e + 16)[k - e]);
        } else if k == e + 16 {
        } else {
            assert(rest.subrange(k - e - 17, k - e - 1) =~= here);
            assert(text::occurs_at(rest, BEGIN@, k - e - 17));
        }
    }
}

/// However often it is written, a file has one block: where it had one begin
/// marker, and a block to replace, or none, it has one afterwards, and that one
/// begins the block with the line. This needs a line without markers in it.
pub proof fn a_file_has_one_block(existing: Seq<char>, line: Seq<char>)
    requires
        !text::occurs(line, BEGIN@),
        !text::occurs(line, END@),
        !text::occurs(existing, BEGIN@) || (has_block(existing) && begins_once(
            existing,
            block_start(existing),
        )),
    ensures
        has_block(with_block(existing, line)),
        begins_once(with_block(existing, line), block_start(with_block(existing, line))),
        extracted(with_block(existing, line)) == Some(text::trimmed(line)),
{
    lemma_markers();
    text::lemma_occurs_first(existing, BEGIN@);
    written_block_is_found_again(existing, line);
    if has_block(existing) {
        let start = block_start(existing);
        let end = block_end(existing);
        let front = existing.take(start);
        let rest = after_block(existing);
        lemma_before_first(existing, BEGIN@, start);
        text::lemma_first_from(existing, END@, start + 16);
        lemma_trimmed_end(existing.skip(end + 16));
        let from = existing.len() - rest.len();
        assert(rest =~= existing.skip(from));
        if text::occurs(rest, BEGIN@) {
            let k = choose|k: int| text::occurs_at(rest, BEGIN@, k);
            assert(existing.subrange(from + k, from + k + 16) =~= rest.subrange(k, k + 16));
            assert(text::occurs_at(existing, BEGIN@, from + k));
        }
        lemma_begins_once(front, line, rest);
        lemma_block_found(front, line, rest);
    } else {
        let front = ended(existing);
        let rest = Seq::<char>::empty();
        lemma_ended_marker(existing, BEGIN@);
        lemma_begins_once(front, line, rest);
        lemma_block_found(front, line, rest);
        assert(front + block_of(line) + rest =~= with_block(existing, line));
    }
}

/// What a file held stays: a file without a block keeps all of it in front of
/// the new one, and a file with a block keeps what is before that block and,
/// but for line feeds, what is after it.
pub proof fn writing_keeps_what_was_there(existing: Seq<char>, line: Seq<char>)
    ensures
        !has_block(existing) ==> text::begins(with_block(existing, line), existing),
        has_block(existing) ==> {
            let start = block_start(existing);
            &&& text::begins(with_block(existing, line), existing.take(start))
            &&& with_block(existing, line).skip((start + block_of(line).len()) as int)
                == after_block(existing)
        },
{
    lemma_markers();
    text::lemma_first_from(existing, BEGIN@, 0);
    let out = with_block(existing, line);
    if has_block(existing) {
        let start = block_start(existing);
        assert(out.subrange(0, start) =~= existing.take(start));
        assert(out.skip((start + block_of(line).len()) as int) =~= after_block(existing));
    } else {
        assert(out.subrange(0, existing.len() as int) =~= existing);
    }
}

proof fn lemma_untrimmed(text: Seq<char>)
    requires
        text.len() > 0,
        !text::white_space(text[0]),
        !text::white_space(text.last()),
    ensures
        text::trimmed(text) == text,
{
    let white = |c: char| text::white_space(c);
    assert(text::trim_front(text, white) == text);
    assert(text::trim_back(text, white) == text);
}

/// A second run has nothing to write: once the line of a shell is in its
/// startup file, the file is recognised as it should be. This needs a program
/// path without an end marker in it, and a file that has a block to replace or
/// no begin marker.
pub proof fn second_run_has_nothing_to_write(existing: Seq<char>, shell: Shell, exe: Seq<char>)
    requires
        !text::occurs(startup_line(shell, exe), END@),
        has_block(existing) || !text::occurs(existing, BEGIN@),
    ensures
        extracted(with_block(existing, startup_line(shell, exe))) == Some(startup_line(shell, exe)),
{
    let line = startup_line(shell, exe);
    reveal_strlit("Invoke-Expression (& ");
    reveal_strlit(" init powershell | Out-String)");
    reveal_strlit("eval \"$(");
    reveal_strlit(" init bash)\"");
    lemma_untrimmed(line);
    written_block_is_found_again(existing, line);
}

/// Whether the user can be asked before a file is written.
pub fn may_ask(terminal: bool) -> (asked: Result<(), String>)
    ensures
        match asked {
            Ok(_) => terminal,
            Err(error) => !terminal && error@
                == "not running from a terminal, so nothing was written. Re-run with --yes to write it anyway"@,
        },
{
    if terminal {
        Ok(())
    } else {
        Err(
            "not running from a terminal, so nothing was written. Re-run with --yes to write it anyway".to_owned(),
        )
    }
}

/// What PowerShell reads between single quotes: two of them stand for one.
pub open spec fn unquoted(text: Seq<char>) -> Seq<char>
    decreases text.len(),
{
    if text.len() == 0 {
        text
    } else if text.len() >= 2 && text[0] == '\'' && text[1] == '\'' {
        seq!['\''] + unquoted(text.skip(2))
    } else {
        seq![text[0]] + unquoted(text.skip(1))
    }
}

proof fn lemma_quoted(path: Seq<char>)
    ensures
        unquoted(text::replaced(path, '\'', "''"@)) == path,
    decreases path.len(),
{
    reveal_strlit("''");
    if path.len() > 0 {
        let c = path[0];
        let rest = path.skip(1);
        let quoted = text::replaced(path, '\'', "''"@);
        let tail = text::replaced(rest, '\'', "''"@);
        assert(seq![c] + rest =~= path);
        crate::path_laws::replacing_works_character_by_character(seq![c], rest, c, '\'', "''"@);
        lemma_quoted(rest);
        if c == '\'' {
            assert(quoted == "''"@ + tail);
            assert(quoted[0] == '\'' && quoted[1] == '\'');
            assert(quoted.skip(2) =~= tail);
        } else {
            assert(quoted == seq![c] + tail);
            assert(quoted[0] == c);
            assert(quoted.skip(1) =~= tail);
        }
    }
}

/// PowerShell reads a written path back as the path: as it stands where it is
/// a plain word, and otherwise from between single quotes.
pub proof fn a_command_spells_its_path(path: Seq<char>)
    ensures
        is_word(path) ==> command(path) == path,
        !is_word(path) ==> {
            let written = command(path);
            &&& written.len() >= 2
            &&& written[0] == '\'' && written.last() == '\''
            &&& unquoted(written.subrange(1, written.len() - 1)) == path
        },
{
    if !is_word(path) {
        reveal_strlit("'");
        let inner = text::replaced(path, '\'', "''"@);
        let written = command(path);
        assert(written =~= seq!['\''] + inner + seq!['\'']);
        assert(written.subrange(1, written.len() - 1) =~= inner);
        lemma_quoted(path);
    }
}

/// A path is left without quotes only if it starts with a letter or a slash
/// and holds nothing that PowerShell would read otherwise: no blank, no quote
/// and none of its signs.
pub proof fn plain_words_hold_no_signs(path: Seq<char>, k: int)
    requires
        is_word(path),
        0 <= k < path.len(),
    ensures
        path[k] != ' ' && path[k] != '\t' && path[k] != '\n',
        path[k] != '\'' && path[k] != '"' && path[k] != '`',
        path[k] != '$' && path[k] != '&' && path[k] != '|' && path[k] != ';',
        path[k] != '(' && path[k] != ')' && path[k] != '{' && path[k] != '}',
        path[k] != '<' && path[k] != '>' && path[k] != '@' && path[k] != '#' && path[k] != ',',
        path[k] <= '~',
        path[0] != '-' && path[0] != '.' && !('0' <= path[0] <= '9'),
{
    assert(reads_plainly(path[k]));
}

/// An ordinary path of a program needs no quotes.
pub proof fn ordinary_paths_stay_as_they_are(path: Seq<char>)
    requires
        path.len() > 0,
        'a' <= path[0] <= 'z' || 'A' <= path[0] <= 'Z' || path[0] == '/' || path[0] == '\\',
        forall|k: int|
            0 <= k < path.len() ==> 'a' <= (#[trigger] path[k]) <= 'z' || 'A' <= path[k] <= 'Z'
                || '0' <= path[k] <= '9' || path[k] == '/' || path[k] == '\\' || path[k] == ':'
                || path[k] == '.' || path[k] == '_' || path[k] == '-',
    ensures
        command(path) == path,
{
    assert forall|k: int| 0 <= k < path.len() implies reads_plainly(#[trigger] path[k]) by {}
}

proof fn lemma_slashed(exe: Seq<char>)
    ensures
        ({
            let out = text::replaced(exe, '\\', "/"@);
            &&& out.len() == exe.len()
            &&& forall|k: int|
                0 <= k < exe.len() ==> out[k] == if exe[k] == '\\' {
                    '/'
                } else {
                    exe[k]
                }
        }),
    decreases exe.len(),
{
    reveal_strlit("/");
    if exe.len() > 0 {
        let front = exe.drop_last();
        lemma_slashed(front);
        let out = text::replaced(exe, '\\', "/"@);
        let before = text::replaced(front, '\\', "/"@);
        assert(out.len() == before.len() + 1);
        assert forall|k: int| 0 <= k < exe.len() implies out[k] == if exe[k] == '\\' {
            '/'
        } else {
            exe[k]
        } by {
            if k < front.len() {
                assert(out[k] == before[k]);
                assert(front[k] == exe[k]);
            }
        }
    }
}

/// The line for a shell starts this very program: PowerShell is given its path
/// as a command, the other shells the path with slashes.
pub proof fn the_startup_line_starts_this_program(exe: Seq<char>, k: int)
    ensures
        startup_line(Shell::Powershell, exe) == "Invoke-Expression (& "@ + command(exe)
            + " init powershell | Out-String)"@,
        ({
            let line = startup_line(Shell::Bash, exe);
            &&& line.len() == 8 + exe.len() + 12
            &&& line.take(8) == "eval \"$("@
            &&& line.skip(8 + exe.len() as int) == " init bash)\""@
            &&& 0 <= k < exe.len() && exe[k] != '\\' ==> line[8 + k] == exe[k]
            &&& 0 <= k < exe.len() && exe[k] == '\\' ==> line[8 + k] == '/'
        }),
{
    lemma_slashed(exe);
    reveal_strlit("eval \"$(");
    reveal_strlit(" init bash)\"");
    let line = startup_line(Shell::Bash, exe);
    let middle = text::replaced(exe, '\\', "/"@);
    assert(line == "eval \"$("@ + middle + " init bash)\""@);
    assert("eval \"$("@.len() == 8);
    assert(" init bash)\""@.len() == 12);
    assert(line.take(8) =~= "eval \"$("@);
    assert(line.skip(8 + exe.len() as int) =~= " init bash)\""@);
    if 0 <= k < exe.len() {
        assert(line[8 + k] == middle[k]);
    }
}

/// A block is three lines: the line before it, the line itself and the line
/// after it.
pub proof fn a_block_is_three_lines(line: Seq<char>)
    requires
        !line.contains('\n'),
        line.len() == 0 || line.last() != '\r',
    ensures
        text::lines_of(block_of(line)) == seq!["# >>> tadoru >>>"@, line, "# <<< tadoru <<<"@],
{
    reveal_strlit("# >>> tadoru >>>");
    reveal_strlit("# <<< tadoru <<<");
    reveal_strlit("\n");
    let first = "# >>> tadoru >>>"@;
    let last = "# <<< tadoru <<<"@;
    let none = Seq::<char>::empty();
    assert("\n"@ =~= seq!['\n']);
    let tail = last + seq!['\n'] + none;
    let middle = line + seq!['\n'] + tail;
    assert(block_of(line) =~= first + seq!['\n'] + middle);
    assert(!first.contains('\n'));
    assert(!last.contains('\n'));
    crate::path_laws::a_text_is_read_line_by_line(first, middle);
    crate::path_laws::a_text_is_read_line_by_line(line, tail);
    crate::path_laws::a_text_is_read_line_by_line(last, none);
    let all = text::lines_of(block_of(line));
    let rest = text::lines_of(middle);
    let end = text::lines_of(tail);
    assert(all.skip(1) == rest);
    assert(rest.skip(1) == end);
    assert(end.len() == 1);
    assert(all[1] == all.skip(1)[0]);
    assert(all[2] == all.skip(1)[1]);
    assert(rest[1] == rest.skip(1)[0]);
    assert(all =~= seq![first, line, last]);
}

/// A text without a block keeps all it holds in front of the new one, with an
/// empty line between them; an empty text gets the block alone.
pub proof fn a_new_block_stands_behind_an_empty_line(text: Seq<char>, line: Seq<char>)
    requires
        block_at(text) is None,
    ensures
        text.len() == 0 ==> with_block(text, line) == block_of(line),
        text.len() > 0 && text.last() == '\n' ==> with_block(text, line) == text + seq!['\n']
            + block_of(line),
        text.len() > 0 && text.last() != '\n' ==> with_block(text, line) == text
            + seq!['\n', '\n'] + block_of(line),
{
    assert(text.push('\n') =~= text + seq!['\n']);
    assert(text.push('\n').push('\n') =~= text + seq!['\n', '\n']);
    if text.len() == 0 {
        assert(text + block_of(line) =~= block_of(line));
    }
}

/// The startup file of PowerShell is its profile in the documents, which lie
/// in the home directory where nothing else is known of them; that of bash
/// lies in the home directory itself, and cmd has none.
pub proof fn where_the_startup_files_lie(
    home: paths::LocationView,
    documents: paths::LocationView,
    known: Option<paths::LocationView>,
)
    ensures
        startup_file(Shell::Cmd, home, known) is None,
        startup_file(Shell::Bash, home, known) == Some(
            paths::LocationView { anchor: home.anchor, parts: home.parts + seq![".bashrc"@] },
        ),
        startup_file(Shell::Powershell, home, Some(documents)) == Some(
            paths::LocationView {
                anchor: documents.anchor,
                parts: documents.parts + seq![
                    "PowerShell"@,
                    "Microsoft.PowerShell_profile.ps1"@,
                ],
            },
        ),
        startup_file(Shell::Powershell, home, None) == Some(
            paths::LocationView {
                anchor: home.anchor,
                parts: home.parts + seq![
                    "Documents"@,
                    "PowerShell"@,
                    "Microsoft.PowerShell_profile.ps1"@,
                ],
            },
        ),
{
    let profile = "Microsoft.PowerShell_profile.ps1"@;
    assert(home.parts.push(".bashrc"@) =~= home.parts + seq![".bashrc"@]);
    assert(documents.parts.push("PowerShell"@).push(profile) =~= documents.parts
        + seq!["PowerShell"@, profile]);
    assert(home.parts.push("Documents"@).push("PowerShell"@).push(profile) =~= home.parts
        + seq!["Documents"@, "PowerShell"@, profile]);
}

/// A file that could not be read is never taken for an empty one; one that is
/// not there yet is.
pub proof fn an_unreadable_file_is_not_written_over(found: Found<String>, file: Seq<char>)
    ensures
        text_held(found, file) is Err == (found is Unreadable || found is Invalid),
        found matches Found::Read(text) ==> text_held(found, file) == Ok::<Seq<char>, Seq<char>>(
            text@,
        ),
        found is Missing ==> text_held(found, file)->Ok_0.len() == 0,
{
}

/// A file is written exactly if its block does not already hold the line.
pub proof fn a_file_is_written_only_where_something_changes(existing: Seq<char>, line: Seq<char>)
    ensures
        rewritten(existing, line) is None == (extracted(existing) == Some(line)),
        block_at(existing) is None ==> rewritten(existing, line) is Some,
{
}

/// PowerShell is known by its own variable before anything else, any other
/// shell by that of bash or of its own; where no shell tells, the platform
/// does.
pub proof fn which_shell_is_set_up(bash: bool, shell: bool, platform: Platform)
    ensures
        launching_shell(true, bash, shell, platform) is Powershell,
        bash || shell ==> launching_shell(false, bash, shell, platform) is Bash,
        launching_shell(false, false, false, Platform::Windows) is Powershell,
        launching_shell(false, false, false, Platform::Linux) is Bash,
        launching_shell(false, false, false, Platform::MacOs) is Bash,
{
}

/// Only a plain yes agrees: an empty answer, a no and anything longer do not.
pub proof fn only_a_yes_agrees(answer: Seq<char>)
    ensures
        agrees(answer) ==> text::trimmed(answer).len() == 1 || text::trimmed(answer).len() == 3,
        agrees(answer) ==> text::trimmed(answer)[0] == 'y' || text::trimmed(answer)[0] == 'Y',
        text::trimmed(answer) == "y"@ || text::trimmed(answer) == "Y"@ || text::trimmed(answer)
            == "yes"@ ==> agrees(answer),
        text::trimmed(answer).len() == 0 ==> !agrees(answer),
{
    reveal_strlit("y");
    reveal_strlit("Y");
    reveal_strlit("yes");
    assert("y"@.len() == 1 && "Y"@.len() == 1 && "yes"@.len() == 3);
}

/// What a plan says it will do: nothing where the file is as it should be,
/// otherwise replacing the block that is there, or adding one.
pub proof fn what_a_plan_says(replacing: bool)
    ensures
        intent(true, replacing) == "already set up; nothing to write"@,
        intent(false, true) == "replacing the existing tadoru block"@,
        intent(false, false) == "appending a tadoru block"@,
{
}

/// Lines that are set off stay the lines they were, each behind four blanks.
pub proof fn lines_that_are_set_off_stay_lines(lines: Seq<Seq<char>>, k: int)
    requires
        0 <= k < lines.len(),
    ensures
        indented(lines).len() == lines.len(),
        indented(lines)[k] == "    "@ + lines[k],
{
}

/// Before they agree to it, a plan tells the user the shell, the file and what
/// will be done, and shows the block itself.
pub proof fn a_plan_tells_what_it_will_do(
    shell: Shell,
    file: Seq<char>,
    line: Seq<char>,
    current: bool,
    replacing: bool,
)
    requires
        !line.contains('\n'),
        line.len() == 0 || line.last() != '\r',
    ensures
        text::occurs(description(shell, file, line, current, replacing), file),
        text::occurs(
            description(shell, file, line, current, replacing),
            intent(current, replacing),
        ),
        text::occurs(description(shell, file, line, current, replacing), shell.name()),
        text::occurs(description(shell, file, line, current, replacing), line),
{
    let out = description(shell, file, line, current, replacing);
    let block = text::joined(indented(text::lines_of(block_of(line))), "\n"@);
    let a = "  shell: "@;
    let b = "\n  file:  "@;
    let c = "\n  what:  "@;
    let d = "\n\n"@;
    let what = intent(current, replacing);
    crate::path_laws::an_occurrence_splits_a_text(
        a,
        shell.name(),
        b + file + c + what + d + block,
    );
    assert(out =~= a + shell.name() + (b + file + c + what + d + block));
    crate::path_laws::an_occurrence_splits_a_text(a + shell.name() + b, file, c + what + d + block);
    assert(out =~= a + shell.name() + b + file + (c + what + d + block));
    crate::path_laws::an_occurrence_splits_a_text(
        a + shell.name() + b + file + c,
        what,
        d + block,
    );
    assert(out =~= a + shell.name() + b + file + c + what + (d + block));
    a_block_is_three_lines(line);
    let lines = indented(text::lines_of(block_of(line)));
    let first = lines[0];
    let second = lines[1];
    let third = lines[2];
    let gap = "\n"@;
    assert(lines =~= seq![first] + seq![second] + seq![third]);
    assert(lines.drop_last() =~= seq![first, second]);
    assert(seq![first, second].drop_last() =~= seq![first]);
    assert(text::joined(seq![first], gap) == first);
    assert(text::joined(seq![first, second], gap) == first + gap + second);
    assert(block == first + gap + second + gap + third);
    assert(second == "    "@ + line);
    let front = a + shell.name() + b + file + c + what + d + first + gap + "    "@;
    crate::path_laws::an_occurrence_splits_a_text(front, line, gap + third);
    assert(out =~= front + line + (gap + third));
}

} // verus!
