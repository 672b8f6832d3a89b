//! The rules that a file of user-defined actions has to keep.
use crate::actions;
use crate::actions::{parse_key, Definition, File};
use crate::paths;
use crate::paths::{split_pieces, Platform};
use crate::template;
use crate::template::{expand, Context};
use crate::text;
use crate::text::{cat, cat3, chars_of, contains, has_char, same, same_ignoring_case, trim};
use vstd::prelude::*;

verus! {

/// A control character.
pub open spec fn control(c: char) -> bool {
    c <= '\u{1f}' || '\u{7f}' <= c <= '\u{9f}'
}

fn has_control(text: &str) -> (found: bool)
    ensures
        found == exists|i: int| 0 <= i < text@.len() && control(#[trigger] text@[i]),
{
    let chars = chars_of(text);
    let mut i: usize = 0;
    while i < chars.len()
        invariant
            i <= chars@.len(),
            chars@ == text@,
            forall|k: int| 0 <= k < i ==> !control(#[trigger] text@[k]),
        decreases chars@.len() - i,
    {
        let c = chars[i];
        if c <= '\u{1f}' || ('\u{7f}' <= c && c <= '\u{9f}') {
            assert(control(text@[i as int]));
            return true;
        }
        i += 1;
    }
    false
}

/// Whether a name can stand on one line of the menu.
pub open spec fn good_name(name: Seq<char>) -> bool {
    &&& text::trimmed(name).len() > 0
    &&& forall|i: int| 0 <= i < name.len() ==> !control(#[trigger] name[i])
}

fn is_good_name(name: &str) -> (good: bool)
    ensures
        good == good_name(name@),
{
    !trim(name).as_str().is_empty() && !has_control(name)
}

/// Whether any of the placeholders occurs in a text.
pub open spec fn mentions_placeholder(text: Seq<char>) -> bool {
    ||| text::occurs(text, "{path}"@)
    ||| text::occurs(text, "{dir}"@)
    ||| text::occurs(text, "{config}"@)
}

/// The values that templates are tried with.
pub open spec fn trial() -> template::ContextView {
    template::ContextView { path: "target"@, dir: "dir"@, config: "config"@ }
}

/// What is wrong with a template of the named action.
pub open spec fn value_error(name: Seq<char>, value: Seq<char>) -> Option<Seq<char>> {
    if value.contains('\0') {
        Some(name + ": NUL is not allowed"@)
    } else {
        match template::expanded(value, trial()) {
            Ok(_) => None,
            Err(error) => Some(name + ": "@ + error),
        }
    }
}

/// What is wrong with the first of `count` templates that has a fault.
pub open spec fn first_value_error(name: Seq<char>, values: Seq<Seq<char>>, count: nat) -> Option<
    Seq<char>,
>
    decreases count,
{
    if count == 0 {
        None
    } else {
        match first_value_error(name, values, (count - 1) as nat) {
            Some(error) => Some(error),
            None => value_error(name, values[count - 1]),
        }
    }
}

/// The templates of an action: its arguments and its working directory.
pub open spec fn values_of(action: actions::DefinitionView) -> Seq<Seq<char>> {
    match action.cwd {
        Some(cwd) => action.args.push(cwd),
        None => action.args,
    }
}

/// Whether a program, by the last part of its path in lower case, is a shell.
pub open spec fn shell(name: Seq<char>) -> bool {
    ||| name == "cmd"@
    ||| name == "cmd.exe"@
    ||| name == "pwsh"@
    ||| name == "pwsh.exe"@
    ||| name == "powershell"@
    ||| name == "powershell.exe"@
    ||| name == "sh"@
    ||| name == "bash"@
    ||| name == "zsh"@
    ||| name == "fish"@
}

fn is_shell(name: &str) -> (yes: bool)
    ensures
        yes == shell(name@),
{
    same(name, "cmd") || same(name, "cmd.exe") || same(name, "pwsh") || same(name, "pwsh.exe")
        || same(name, "powershell") || same(name, "powershell.exe") || same(name, "sh") || same(
        name,
        "bash",
    ) || same(name, "zsh") || same(name, "fish")
}

/// Whether an argument tells a shell that code follows, in any case.
pub open spec fn code_flag(arg: Seq<char>) -> bool {
    ||| text::ascii_lower(arg) == text::ascii_lower("-c"@)
    ||| text::ascii_lower(arg) == text::ascii_lower("/c"@)
    ||| text::ascii_lower(arg) == text::ascii_lower("/k"@)
    ||| text::ascii_lower(arg) == text::ascii_lower("-command"@)
    ||| text::ascii_lower(arg) == text::ascii_lower("-encodedcommand"@)
}

fn is_code_flag(arg: &str) -> (yes: bool)
    ensures
        yes == code_flag(arg@),
{
    same_ignoring_case(arg, "-c") || same_ignoring_case(arg, "/c") || same_ignoring_case(arg, "/k")
        || same_ignoring_case(arg, "-command") || same_ignoring_case(arg, "-encodedcommand")
}

/// The last part of a program's path, in lower case.
pub open spec fn program_name(program: Seq<char>) -> Seq<char> {
    text::ascii_lower(paths::pieces_of(program, Platform::Windows).last())
}

/// Whether an argument would put the selected path into shell code.
pub open spec fn names_target(arg: Seq<char>) -> bool {
    text::occurs(arg, "{path}"@) || text::occurs(arg, "{dir}"@)
}

/// Whether an action would put the selected path into shell code.
pub open spec fn injects(action: actions::DefinitionView) -> bool {
    &&& shell(program_name(action.program))
    &&& exists|i: int| 0 <= i < action.args.len() && code_flag(#[trigger] action.args[i])
    &&& exists|i: int| 0 <= i < action.args.len() && names_target(#[trigger] action.args[i])
}

/// What is wrong with an action, given the keys that the actions before it
/// claimed.
pub open spec fn definition_error(
    action: actions::DefinitionView,
    claimed: Seq<char>,
) -> Option<Seq<char>> {
    if !good_name(action.name) {
        Some("action name must be nonempty and on one line"@)
    } else if action.key is Some && actions::key_of(action.key->0) is None {
        Some(action.name + ": key must be one letter or digit, such as g"@)
    } else if action.key is Some && claimed.contains(actions::key_of(action.key->0)->0) {
        Some(
            action.name + ": the key "@ + seq![actions::key_of(action.key->0)->0]
                + " is already used"@,
        )
    } else if text::trimmed(action.program).len() == 0 || action.program.contains('\0') {
        Some(action.name + ": program is empty or invalid"@)
    } else if mentions_placeholder(action.program) {
        Some(action.name + ": program must be a fixed executable or script path"@)
    } else {
        match first_value_error(action.name, values_of(action), values_of(action).len()) {
            Some(error) => Some(error),
            None => if injects(action) {
                Some(
                    action.name
                        + ": use a script file or TADORU_TARGET instead of substituting paths into shell code"@,
                )
            } else {
                None
            },
        }
    }
}

/// The keys that the first `count` actions claim.
pub open spec fn claims(list: Seq<actions::DefinitionView>, count: nat) -> Seq<char>
    decreases count,
{
    if count == 0 {
        Seq::empty()
    } else {
        let before = claims(list, (count - 1) as nat);
        match list[count - 1].key {
            Some(key) => match actions::key_of(key) {
                Some(c) => before.push(c),
                None => before,
            },
            None => before,
        }
    }
}

/// What is wrong with the first of `count` actions that has a fault.
pub open spec fn first_error(list: Seq<actions::DefinitionView>, count: nat) -> Option<Seq<char>>
    decreases count,
{
    if count == 0 {
        None
    } else {
        match first_error(list, (count - 1) as nat) {
            Some(error) => Some(error),
            None => definition_error(list[count - 1], claims(list, (count - 1) as nat)),
        }
    }
}

/// What is wrong with a file of actions.
pub open spec fn file_error(version: u32, list: Seq<actions::DefinitionView>) -> Option<Seq<char>> {
    if version != 1 {
        Some("unsupported actions version: "@ + text::decimal(version as nat))
    } else {
        first_error(list, list.len())
    }
}

fn check_value(name: &str, value: &str, context: &Context) -> (fault: Option<String>)
    requires
        context@ == trial(),
    ensures
        text::inside(fault) == value_error(name@, value@),
{
    if has_char(value, '\0') {
        return Some(cat(name, ": NUL is not allowed"));
    }
    match expand(value, context) {
        Ok(_) => None,
        Err(error) => Some(cat3(name, ": ", error.as_str())),
    }
}

fn check_values(action: &Definition, context: &Context) -> (fault: Option<String>)
    requires
        context@ == trial(),
    ensures
        text::inside(fault) == first_value_error(
            action@.name,
            values_of(action@),
            values_of(action@).len(),
        ),
{
    let ghost values = values_of(action@);
    let mut i: usize = 0;
    while i < action.args.len()
        invariant
            i <= action.args@.len(),
            values == values_of(action@),
            context@ == trial(),
            first_value_error(action@.name, values, i as nat) is None,
        decreases action.args@.len() - i,
    {
        assert(values[i as int] == action.args@[i as int]@);
        if let Some(error) = check_value(action.name.as_str(), action.args[i].as_str(), context) {
            proof {
                lemma_value_error_stays(action@.name, values, (i + 1) as nat, values.len());
            }
            return Some(error);
        }
        i += 1;
    }
    match &action.cwd {
        Some(cwd) => {
            assert(values[i as int] == cwd@);
            check_value(action.name.as_str(), cwd.as_str(), context)
        },
        None => None,
    }
}

proof fn lemma_value_error_stays(name: Seq<char>, values: Seq<Seq<char>>, count: nat, more: nat)
    requires
        count <= more,
        first_value_error(name, values, count) is Some,
    ensures
        first_value_error(name, values, more) == first_value_error(name, values, count),
    decreases more,
{
    if count < more {
        lemma_value_error_stays(name, values, count, (more - 1) as nat);
    }
}

fn check_injection(action: &Definition) -> (found: bool)
    ensures
        found == injects(action@),
{
    let pieces = split_pieces(action.program.as_str(), Platform::Windows);
    let count: usize = pieces.len();
    proof {
        lemma_some_piece(action.program@);
        assert(text::views(pieces@).len() == pieces@.len());
        assert(text::views(pieces@).last() == pieces@[count - 1]@);
    }
    let name = text::to_ascii_lower(pieces[count - 1].as_str());
    if !is_shell(name.as_str()) {
        return false;
    }
    let ghost args = action@.args;
    let mut flagged = false;
    let mut named = false;
    let mut i: usize = 0;
    while i < action.args.len()
        invariant
            i <= action.args@.len(),
            args == action@.args,
            flagged == exists|k: int| 0 <= k < i && code_flag(#[trigger] args[k]),
            named == exists|k: int| 0 <= k < i && names_target(#[trigger] args[k]),
        decreases action.args@.len() - i,
    {
        assert(args[i as int] == action.args@[i as int]@);
        let arg = action.args[i].as_str();
        let flag = is_code_flag(arg);
        let names = contains(arg, "{path}") || contains(arg, "{dir}");
        let ghost (was_flagged, was_named) = (flagged, named);
        flagged = flagged || flag;
        named = named || names;
        proof {
            if flag {
                assert(code_flag(args[i as int]));
            }
            if names {
                assert(names_target(args[i as int]));
            }
        }
        i += 1;
    }
    flagged && named
}

proof fn lemma_some_piece(path: Seq<char>)
    ensures
        paths::pieces_of(path, Platform::Windows).len() > 0,
    decreases path.len(),
{
    if path.len() > 0 {
        lemma_some_piece(path.drop_last());
    }
}

fn check_definition(action: &Definition, claimed: &Vec<char>, context: &Context) -> (fault: Option<
    String,
>)
    requires
        context@ == trial(),
    ensures
        text::inside(fault) == definition_error(action@, claimed@),
{
    let name = action.name.as_str();
    let program = action.program.as_str();
    if !is_good_name(name) {
        return Some("action name must be nonempty and on one line".to_owned());
    }
    if let Some(key) = &action.key {
        match parse_key(key.as_str()) {
            None => {
                return Some(cat(name, ": key must be one letter or digit, such as g"));
            },
            Some(c) => {
                if has_claim(claimed, c) {
                    let mut letter = String::new();
                    letter.push(c);
                    assert(letter@ =~= seq![c]);
                    let fault = cat3(name, ": the key ", letter.as_str());
                    return Some(cat(fault.as_str(), " is already used"));
                }
            },
        }
    }
    if trim(program).as_str().is_empty() || has_char(program, '\0') {
        return Some(cat(name, ": program is empty or invalid"));
    }
    if contains(program, "{path}") || contains(program, "{dir}") || contains(program, "{config}") {
        return Some(cat(name, ": program must be a fixed executable or script path"));
    }
    if let Some(error) = check_values(action, context) {
        return Some(error);
    }
    // File names stay out of shell source code; a script can read TADORU_TARGET.
    if check_injection(action) {
        return Some(
            cat(
                name,
                ": use a script file or TADORU_TARGET instead of substituting paths into shell code",
            ),
        );
    }
    None
}

fn has_claim(claimed: &Vec<char>, c: char) -> (found: bool)
    ensures
        found == claimed@.contains(c),
{
    let mut i: usize = 0;
    while i < claimed.len()
        invariant
            i <= claimed@.len(),
            forall|k: int| 0 <= k < i ==> claimed@[k] != c,
        decreases claimed@.len() - i,
    {
        if claimed[i] == c {
            assert(claimed@[i as int] == c);
            return true;
        }
        i += 1;
    }
    false
}

proof fn lemma_error_stays(list: Seq<actions::DefinitionView>, count: nat, more: nat)
    requires
        count <= more,
        first_error(list, count) is Some,
    ensures
        first_error(list, more) == first_error(list, count),
    decreases more,
{
    if count < more {
        lemma_error_stays(list, count, (more - 1) as nat);
    }
}

/// Checks a file of actions without running anything: its version, and for
/// each action its name, its key, its program and its templates. The first
/// fault is the one reported.
pub fn validate(file: &File) -> (checked: Result<(), String>)
    ensures
        match checked {
            Ok(_) => file_error(file.version, text::views(file.actions@)) is None,
            Err(error) => file_error(file.version, text::views(file.actions@)) == Some(error@),
        },
{
    if file.version != 1 {
        let number = text::number(file.version as u128);
        return Err(cat("unsupported actions version: ", number.as_str()));
    }
    let context = Context {
        path: "target".to_owned(),
        dir: "dir".to_owned(),
        config: "config".to_owned(),
    };
    let ghost list = text::views(file.actions@);
    let mut claimed: Vec<char> = Vec::new();
    let mut i: usize = 0;
    while i < file.actions.len()
        invariant
            i <= file.actions@.len(),
            file.version == 1,
            list == text::views(file.actions@),
            context@ == trial(),
            claimed@ == claims(list, i as nat),
            first_error(list, i as nat) is None,
        decreases file.actions@.len() - i,
    {
        assert(list[i as int] == file.actions@[i as int]@);
        if let Some(error) = check_definition(&file.actions[i], &claimed, &context) {
            proof {
                lemma_error_stays(list, (i + 1) as nat, list.len());
            }
            return Err(error);
        }
        if let Some(key) = &file.actions[i].key {
            if let Some(c) = parse_key(key.as_str()) {
                claimed.push(c);
            }
        }
        i += 1;
    }
    Ok(())
}

/// In a file that passes, no two actions answer to the same key, in either
/// case.
pub proof fn keys_of_a_valid_file_are_distinct(list: Seq<actions::DefinitionView>, i: int, j: int)
    requires
        file_error(1, list) is None,
        0 <= i < j < list.len(),
        list[i].key is Some,
        list[j].key is Some,
    ensures
        actions::key_of(list[i].key->0) is Some,
        actions::key_of(list[i].key->0) != actions::key_of(list[j].key->0),
{
    lemma_prefix_passes(list, (i + 1) as nat, list.len());
    lemma_prefix_passes(list, (j + 1) as nat, list.len());
    lemma_claim_stands(list, i, j as nat);
}

proof fn lemma_prefix_passes(list: Seq<actions::DefinitionView>, count: nat, more: nat)
    requires
        count <= more,
        first_error(list, more) is None,
    ensures
        first_error(list, count) is None,
    decreases more,
{
    if count < more {
        lemma_prefix_passes(list, count, (more - 1) as nat);
    }
}

proof fn lemma_claim_stands(list: Seq<actions::DefinitionView>, i: int, count: nat)
    requires
        0 <= i < count,
        list[i].key is Some,
        actions::key_of(list[i].key->0) is Some,
    ensures
        claims(list, count).contains(actions::key_of(list[i].key->0)->0),
    decreases count,
{
    let c = actions::key_of(list[i].key->0)->0;
    let all = claims(list, count);
    if i == count - 1 {
        assert(all.last() == c);
    } else {
        lemma_claim_stands(list, i, (count - 1) as nat);
        let before = claims(list, (count - 1) as nat);
        let k = before.index_of(c);
        assert(all[k] == c);
    }
}

/// An action of a file that passes has no fault of its own.
proof fn lemma_action_passes(list: Seq<actions::DefinitionView>, i: int)
    requires
        file_error(1, list) is None,
        0 <= i < list.len(),
    ensures
        definition_error(list[i], claims(list, i as nat)) is None,
{
    lemma_prefix_passes(list, (i + 1) as nat, list.len());
}

/// In a file that passes, no action puts the selected path into shell code.
pub proof fn a_valid_file_keeps_paths_out_of_shell_code(
    list: Seq<actions::DefinitionView>,
    i: int,
)
    requires
        file_error(1, list) is None,
        0 <= i < list.len(),
    ensures
        !injects(list[i]),
        !mentions_placeholder(list[i].program),
{
    lemma_action_passes(list, i);
}

proof fn lemma_value_passes(name: Seq<char>, values: Seq<Seq<char>>, at: int, count: nat)
    requires
        0 <= at < count,
        first_value_error(name, values, count) is None,
    ensures
        value_error(name, values[at]) is None,
    decreases count,
{
    if at < count - 1 {
        lemma_value_passes(name, values, at, (count - 1) as nat);
    }
}

/// In a file that passes, every argument and working directory can be expanded
/// whatever item is selected.
pub proof fn templates_of_a_valid_file_always_expand(
    list: Seq<actions::DefinitionView>,
    i: int,
    at: int,
    context: template::ContextView,
)
    requires
        file_error(1, list) is None,
        0 <= i < list.len(),
        0 <= at < values_of(list[i]).len(),
    ensures
        template::expanded(values_of(list[i])[at], context) is Ok,
{
    lemma_action_passes(list, i);
    let values = values_of(list[i]);
    lemma_value_passes(list[i].name, values, at, values.len());
    template::a_template_is_good_everywhere_or_nowhere(values[at], trial(), context);
}

} // verus!
