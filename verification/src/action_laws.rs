//! What holds of actions: which of them a menu offers, what is started for
//! one, and in which directory.
use crate::actions;
use crate::actions::{ActionView, DefinitionView, File, Nature};
use crate::config::Found;
use crate::fuzzy;
use crate::invoke;
use crate::invoke::{Errand, SearchView};
use crate::keys::{KeyCode, KeyEvent, MouseEvent};
use crate::menu;
use crate::menu::{DecisionView, MenuView};
use crate::open;
use crate::order;
use crate::paths;
use crate::paths::{LocationView, Platform};
use crate::template;
use crate::template::ContextView;
use crate::text;
use crate::validate;
use vstd::prelude::*;

verus! {

/// Text without braces stands for itself in a template, whatever the item.
pub proof fn text_without_braces_expands_to_itself(text: Seq<char>, context: ContextView)
    requires
        forall|k: int| 0 <= k < text.len() ==> #[trigger] text[k] != '{' && text[k] != '}',
    ensures
        template::expanded(text, context) == Ok::<Seq<char>, Seq<char>>(text),
    decreases text.len(),
{
    if text.len() > 0 {
        let rest = text.skip(1);
        assert(text[0] != '{' && text[0] != '}');
        assert forall|k: int| 0 <= k < rest.len() implies #[trigger] rest[k] != '{' && rest[k]
            != '}' by {
            assert(rest[k] == text[k + 1]);
        }
        text_without_braces_expands_to_itself(rest, context);
        assert(seq![text[0]] + rest =~= text);
    } else {
        assert(text =~= Seq::empty());
    }
}

proof fn lemma_placeholder(name: Seq<char>, context: ContextView)
    requires
        template::meaning(name, context) is Some,
    ensures
        template::expanded(seq!['{'] + name + seq!['}'], context) == Ok::<Seq<char>, Seq<char>>(
            template::meaning(name, context)->0,
        ),
{
    let none = Seq::<char>::empty();
    template::placeholder_is_replaced_in_a_single_pass(none, name, none, context);
    assert(template::escaped(none) =~= none);
    assert(none + (seq!['{'] + name + seq!['}']) + none =~= seq!['{'] + name + seq!['}']);
    let value = template::meaning(name, context)->0;
    assert(none + value + none =~= value);
}

/// The three placeholders stand for the item's path, its directory and the
/// configuration directory; no other name stands for anything.
pub proof fn what_the_placeholders_stand_for(context: ContextView, name: Seq<char>)
    ensures
        template::expanded("{path}"@, context) == Ok::<Seq<char>, Seq<char>>(context.path),
        template::expanded("{dir}"@, context) == Ok::<Seq<char>, Seq<char>>(context.dir),
        template::expanded("{config}"@, context) == Ok::<Seq<char>, Seq<char>>(context.config),
        template::meaning(name, context) is Some ==> name == "path"@ || name == "dir"@ || name
            == "config"@,
{
    reveal_strlit("path");
    reveal_strlit("dir");
    reveal_strlit("config");
    reveal_strlit("{path}");
    reveal_strlit("{dir}");
    reveal_strlit("{config}");
    assert("{path}"@ =~= seq!['{'] + "path"@ + seq!['}']);
    assert("{dir}"@ =~= seq!['{'] + "dir"@ + seq!['}']);
    assert("{config}"@ =~= seq!['{'] + "config"@ + seq!['}']);
    assert("path"@.len() != "dir"@.len());
    assert("path"@.len() != "config"@.len());
    assert("dir"@.len() != "config"@.len());
    lemma_placeholder("path"@, context);
    lemma_placeholder("dir"@, context);
    lemma_placeholder("config"@, context);
}

/// A placeholder that is not closed, or not known, is an error, wherever the
/// template puts it behind text of its own.
pub proof fn unknown_placeholders_are_errors(
    front: Seq<char>,
    name: Seq<char>,
    rest: Seq<char>,
    context: ContextView,
)
    requires
        forall|k: int| 0 <= k < front.len() ==> #[trigger] front[k] != '{' && front[k] != '}',
        forall|k: int| 0 <= k < name.len() ==> #[trigger] name[k] != '{' && name[k] != '}',
    ensures
        template::meaning(name, context) is None ==> template::expanded(
            front + seq!['{'] + name + seq!['}'] + rest,
            context,
        ) is Err,
        template::expanded(front + seq!['{'] + name, context) is Err,
    decreases front.len(),
{
    let closed = front + seq!['{'] + name + seq!['}'] + rest;
    let unclosed = front + seq!['{'] + name;
    if front.len() > 0 {
        let short = front.skip(1);
        assert(front[0] != '{' && front[0] != '}');
        assert forall|k: int| 0 <= k < short.len() implies #[trigger] short[k] != '{' && short[k]
            != '}' by {
            assert(short[k] == front[k + 1]);
        }
        unknown_placeholders_are_errors(short, name, rest, context);
        assert(closed.skip(1) =~= short + seq!['{'] + name + seq!['}'] + rest);
        assert(unclosed.skip(1) =~= short + seq!['{'] + name);
        assert(closed[0] == front[0] && unclosed[0] == front[0]);
    } else {
        let close = seq!['}'];
        let end = 1 + name.len() as int;
        assert(closed[0] == '{' && unclosed[0] == '{');
        if name.len() > 0 {
            assert(closed[1] == name[0] && unclosed[1] == name[0]);
        } else {
            assert(closed[1] == '}');
        }
        assert(closed.subrange(end, end + 1) =~= close);
        assert forall|k: int| 1 <= k < end implies !text::occurs_at(closed, close, k) by {
            assert(closed.subrange(k, k + 1)[0] == name[k - 1]);
        }
        text::lemma_first_is(closed, close, 1, end);
        assert(closed.subrange(1, end) =~= name);
        text::lemma_first_from(unclosed, close, 1);
        if text::first_from(unclosed, close, 1) is Some {
            let at = text::first_from(unclosed, close, 1)->0;
            assert(unclosed.subrange(at, at + 1)[0] == name[at - 1]);
        }
    }
}

/// An action runs in the directory that it asks for: an absolute one as it is
/// written out, a relative one taken from the configuration directory. Only an
/// action that asks for none runs in the directory of the item.
pub proof fn an_action_runs_in_the_directory_it_asks_for(
    definition: DefinitionView,
    config_dir: Seq<char>,
    nature: Nature,
    context: ContextView,
    program: Result<Seq<char>, Seq<char>>,
    pwsh: Result<Seq<char>, Seq<char>>,
    platform: Platform,
)
    requires
        invoke::preparation(
            definition,
            config_dir,
            nature,
            context,
            program,
            pwsh,
            platform,
        ) is Ok,
    ensures
        ({
            let out = invoke::preparation(
                definition,
                config_dir,
                nature,
                context,
                program,
                pwsh,
                platform,
            )->Ok_0;
            &&& definition.cwd is Some ==> template::expanded(definition.cwd->0, context) is Ok
            &&& definition.cwd is Some ==> {
                let asked = template::expanded(definition.cwd->0, context)->Ok_0;
                &&& paths::absolute(asked, platform) ==> out.cwd == asked
                &&& !paths::absolute(asked, platform) ==> out.cwd == paths::joined_path(
                    config_dir,
                    asked,
                    platform,
                )
            }
            &&& definition.cwd is None && paths::absolute(context.dir, platform) ==> out.cwd
                == context.dir
        }),
{
    what_the_placeholders_stand_for(context, Seq::empty());
}

/// An action whose working directory is an absolute path without placeholders
/// always runs there, whatever the item, the program and the configuration.
pub proof fn a_fixed_working_directory_is_the_same_for_every_item(
    definition: DefinitionView,
    config_dir: Seq<char>,
    nature: Nature,
    context: ContextView,
    program: Result<Seq<char>, Seq<char>>,
    pwsh: Result<Seq<char>, Seq<char>>,
    platform: Platform,
)
    requires
        definition.cwd is Some,
        paths::absolute(definition.cwd->0, platform),
        forall|k: int|
            0 <= k < definition.cwd->0.len() ==> #[trigger] definition.cwd->0[k] != '{'
                && definition.cwd->0[k] != '}',
    ensures
        ({
            let out = invoke::preparation(
                definition,
                config_dir,
                nature,
                context,
                program,
                pwsh,
                platform,
            );
            out is Ok ==> out->Ok_0.cwd == definition.cwd->0
        }),
{
    text_without_braces_expands_to_itself(definition.cwd->0, context);
}

/// What is started is the program that was found, or PowerShell where that is
/// a script of its own; each argument stands for itself in its place, and the
/// item's path, its directory and the configuration directory go along in the
/// environment.
pub proof fn what_is_started_for_an_action(
    definition: DefinitionView,
    config_dir: Seq<char>,
    nature: Nature,
    context: ContextView,
    program: Seq<char>,
    pwsh: Seq<char>,
    platform: Platform,
    at: int,
)
    requires
        invoke::preparation(
            definition,
            config_dir,
            nature,
            context,
            Ok(program),
            Ok(pwsh),
            platform,
        ) is Ok,
        0 <= at < definition.args.len(),
    ensures
        ({
            let out = invoke::preparation(
                definition,
                config_dir,
                nature,
                context,
                Ok(program),
                Ok(pwsh),
                platform,
            )->Ok_0;
            let script = invoke::script(program, platform);
            let value = template::expanded(definition.args[at], context);
            let after_file = invoke::powershell(program, platform) && at > 0 && text::ascii_lower(
                definition.args[at - 1],
            ) == text::ascii_lower("-file"@);
            &&& !script ==> out.program == program && out.args.len() == definition.args.len()
            &&& script ==> out.program == pwsh && out.args.len() == definition.args.len() + 3
                && out.args[0] == "-NoProfile"@ && out.args[1] == "-File"@ && out.args[2]
                == program
            &&& value is Ok
            &&& !script && !after_file ==> out.args[at] == value->Ok_0
            &&& script && !after_file ==> out.args[at + 3] == value->Ok_0
            &&& !script && after_file && paths::absolute(value->Ok_0, platform) ==> out.args[at]
                == value->Ok_0
            &&& !script && after_file && !paths::absolute(value->Ok_0, platform) ==> out.args[at]
                == paths::joined_path(config_dir, value->Ok_0, platform)
            &&& out.environment == context
        }),
{
    let script = invoke::script(program, platform);
    let front = if script {
        seq!["-NoProfile"@, "-File"@, program]
    } else {
        Seq::empty()
    };
    invoke::arguments_stay_apart(
        front,
        definition.args,
        definition.args.len(),
        invoke::powershell(program, platform),
        context,
        config_dir,
        platform,
        at,
    );
    lemma_front_stays(
        front,
        definition.args,
        definition.args.len(),
        invoke::powershell(program, platform),
        context,
        config_dir,
        platform,
    );
}

proof fn lemma_front_stays(
    front: Seq<Seq<char>>,
    args: Seq<Seq<char>>,
    count: nat,
    powershell: bool,
    context: ContextView,
    config_dir: Seq<char>,
    platform: Platform,
)
    requires
        invoke::arguments(front, args, count, powershell, context, config_dir, platform) is Ok,
    ensures
        ({
            let out = invoke::arguments(
                front,
                args,
                count,
                powershell,
                context,
                config_dir,
                platform,
            )->Ok_0;
            &&& out.len() == front.len() + count
            &&& forall|k: int| 0 <= k < front.len() ==> out[k] == front[k]
        }),
    decreases count,
{
    if count > 0 {
        lemma_front_stays(
            front,
            args,
            (count - 1) as nat,
            powershell,
            context,
            config_dir,
            platform,
        );
    }
}

/// An action that does not apply to an item, or whose program was not found,
/// is not started.
pub proof fn nothing_is_started_without_a_program(
    definition: DefinitionView,
    config_dir: Seq<char>,
    nature: Nature,
    context: ContextView,
    program: Result<Seq<char>, Seq<char>>,
    pwsh: Result<Seq<char>, Seq<char>>,
    platform: Platform,
)
    ensures
        ({
            let out = invoke::preparation(
                definition,
                config_dir,
                nature,
                context,
                program,
                pwsh,
                platform,
            );
            &&& program is Err ==> out is Err
            &&& definition.target is File && !nature.is_file ==> out is Err
            &&& definition.target is Directory && !nature.is_dir ==> out is Err
            &&& program is Ok && invoke::script(program->Ok_0, platform) && pwsh is Err ==> out
                is Err
            &&& program is Err && definition.target is Any ==> out->Err_0 == program->Err_0
        }),
{
}

/// Of the places where a program may be, the first that is a file is taken;
/// it is not found only where none of them is.
pub proof fn the_first_file_found_is_taken(
    program: Seq<char>,
    search: SearchView,
    present: Seq<bool>,
    at: int,
)
    requires
        present.len() == search.candidates.len(),
    ensures
        0 <= at < present.len() && present[at] && (forall|k: int| 0 <= k < at ==> !present[k])
            ==> invoke::resolution(program, search, present) == Ok::<Seq<char>, Seq<char>>(
            search.candidates[at],
        ),
        (forall|k: int| 0 <= k < present.len() ==> !present[k]) ==> invoke::resolution(
            program,
            search,
            present,
        ) is Err,
{
    if 0 <= at < present.len() && present[at] && (forall|k: int| 0 <= k < at ==> !present[k]) {
        assert(invoke::is_first_present(present, at));
        let found = invoke::first_present(present)->0;
        assert(invoke::is_first_present(present, found));
        assert(found == at);
    }
    if forall|k: int| 0 <= k < present.len() ==> !present[k] {
        assert forall|k: int| !invoke::is_first_present(present, k) by {}
    }
}

proof fn lemma_on_path(
    dirs: Seq<Seq<char>>,
    count: nat,
    program: Seq<char>,
    platform: Platform,
    at: int,
)
    requires
        0 <= at < count <= dirs.len(),
        dirs[at].len() > 0,
    ensures
        invoke::on_path(dirs, count, program, platform).contains(
            paths::joined_path(dirs[at], program, platform),
        ),
    decreases count,
{
    let all = invoke::on_path(dirs, count, program, platform);
    let before = invoke::on_path(dirs, (count - 1) as nat, program, platform);
    let here = invoke::in_directory(dirs[count - 1], program, platform);
    let plain = paths::joined_path(dirs[at], program, platform);
    if at < count - 1 {
        lemma_on_path(dirs, (count - 1) as nat, program, platform, at);
        let k = before.index_of(plain);
        assert(all[k] == plain);
    } else {
        assert(here[here.len() - 1] == plain);
        assert(all[before.len() + here.len() - 1] == plain);
    }
}

/// A program given by a path is looked for there alone, taken from the
/// configuration directory where the path is relative. One given by a name is
/// looked for in the configuration directory first and then in each directory
/// of the search path.
pub proof fn where_a_program_is_looked_for(
    program: Seq<char>,
    base: Seq<char>,
    dirs: Seq<Seq<char>>,
    platform: Platform,
    at: int,
)
    ensures
        ({
            let search = invoke::places(program, base, dirs, platform);
            let by_path = paths::absolute(program, platform) || program.contains('/')
                || program.contains('\\');
            &&& search.fixed == by_path
            &&& search.candidates.len() > 0
            &&& search.candidates[0] == paths::joined_path(base, program, platform)
            &&& by_path ==> search.candidates.len() == 1
            &&& !by_path && 0 <= at < dirs.len() && dirs[at].len() > 0
                ==> search.candidates.contains(paths::joined_path(dirs[at], program, platform))
        }),
{
    let search = invoke::places(program, base, dirs, platform);
    if !invoke::given_by_path(program, platform) && 0 <= at < dirs.len() && dirs[at].len() > 0 {
        lemma_on_path(dirs, dirs.len(), program, platform, at);
        let rest = invoke::on_path(dirs, dirs.len(), program, platform);
        let plain = paths::joined_path(dirs[at], program, platform);
        let k = rest.index_of(plain);
        assert(search.candidates[1 + k] == plain);
    }
}

/// Directories that come earlier on the search path are tried earlier, and an
/// empty entry of it is passed over.
pub proof fn earlier_directories_are_tried_first(
    dirs: Seq<Seq<char>>,
    count: nat,
    program: Seq<char>,
    platform: Platform,
)
    requires
        count < dirs.len(),
    ensures
        ({
            let before = invoke::on_path(dirs, count, program, platform);
            let all = invoke::on_path(dirs, count + 1, program, platform);
            let plain = paths::joined_path(dirs[count as int], program, platform);
            &&& all.len() >= before.len()
            &&& all.take(before.len() as int) == before
            &&& dirs[count as int].len() == 0 ==> all == before
            &&& dirs[count as int].len() > 0 ==> all.last() == plain
            &&& dirs[count as int].len() > 0 && !(platform is Windows) ==> all == before
                + seq![plain]
            &&& dirs[count as int].len() > 0 && platform is Windows && invoke::bare(
                program,
                platform,
            ) ==> all == before + seq![
                plain + ".exe"@,
                plain + ".com"@,
                plain + ".cmd"@,
                plain + ".bat"@,
                plain,
            ]
        }),
{
    let before = invoke::on_path(dirs, count, program, platform);
    let all = invoke::on_path(dirs, count + 1, program, platform);
    assert(all.take(before.len() as int) =~= before);
    assert(before + Seq::<Seq<char>>::empty() =~= before);
}

/// A name leaves its extension to the system only on Windows, and only where
/// it has none.
pub proof fn names_without_an_extension_are_completed(name: Seq<char>, platform: Platform)
    requires
        name.len() > 0,
        name != "."@ && name != ".."@,
        forall|k: int| 0 <= k < name.len() ==> #[trigger] name[k] != '/' && name[k] != '\\',
    ensures
        invoke::bare(name, platform) == (platform is Windows && forall|k: int|
            0 < k < name.len() ==> name[k] != '.'),
{
    assert forall|k: int| 0 <= k < name.len() implies !platform.separates(#[trigger] name[k]) by {
        assert(name[k] != '/' && name[k] != '\\');
    }
    crate::path_laws::the_last_name_names_a_path(Seq::empty(), '/', name, platform);
    crate::path_laws::a_name_is_its_stem_and_extension(name);
}

/// Whether an action applies follows its target: any item, files or
/// directories.
pub proof fn what_an_action_applies_to(definition: DefinitionView, nature: Nature)
    ensures
        definition.target is Any ==> definition.applies(nature),
        definition.target is File ==> definition.applies(nature) == nature.is_file,
        definition.target is Directory ==> definition.applies(nature) == nature.is_dir,
{
}

/// The user's actions that apply to an item are all offered, in the order of
/// the file, and no other is.
pub proof fn every_action_that_applies_is_offered(
    list: Seq<DefinitionView>,
    count: nat,
    nature: Nature,
    config_dir: Seq<char>,
)
    requires
        count <= list.len(),
    ensures
        actions::applicable(list, count, nature, config_dir) == list.take(count as int).filter(
            |definition: DefinitionView| definition.applies(nature),
        ).map_values(
            |definition: DefinitionView| ActionView::Custom { definition, config_dir },
        ),
    decreases count,
{
    reveal(Seq::filter);
    let applies = |definition: DefinitionView| definition.applies(nature);
    let wrap = |definition: DefinitionView| ActionView::Custom { definition, config_dir };
    let front = list.take(count as int);
    if count > 0 {
        every_action_that_applies_is_offered(list, (count - 1) as nat, nature, config_dir);
        assert(front.drop_last() =~= list.take(count - 1));
        assert(front.last() == list[count - 1]);
        let before = front.drop_last().filter(applies);
        if applies(front.last()) {
            assert(front.filter(applies) == before.push(front.last()));
            assert(before.push(front.last()).map_values(wrap) =~= before.map_values(wrap).push(
                wrap(front.last()),
            ));
        }
    } else {
        assert(front =~= Seq::empty());
        assert(front.filter(applies).map_values(wrap) =~= Seq::<ActionView>::empty());
    }
}

/// A user's action is offered exactly if it stands in the file and applies.
pub proof fn an_action_is_offered_exactly_if_it_applies(
    list: Seq<DefinitionView>,
    count: nat,
    nature: Nature,
    config_dir: Seq<char>,
    definition: DefinitionView,
)
    requires
        count <= list.len(),
    ensures
        actions::applicable(list, count, nature, config_dir).contains(
            ActionView::Custom { definition, config_dir },
        ) == (list.take(count as int).contains(definition) && definition.applies(nature)),
    decreases count,
{
    let out = actions::applicable(list, count, nature, config_dir);
    let action = ActionView::Custom { definition, config_dir };
    let front = list.take(count as int);
    if count > 0 {
        let before = actions::applicable(list, (count - 1) as nat, nature, config_dir);
        let short = list.take(count - 1);
        an_action_is_offered_exactly_if_it_applies(
            list,
            (count - 1) as nat,
            nature,
            config_dir,
            definition,
        );
        if out.contains(action) {
            let i = out.index_of(action);
            if i < before.len() {
                assert(before[i] == action);
                let k = short.index_of(definition);
                assert(front[k] == definition);
            } else {
                assert(front[count - 1] == definition);
            }
        }
        if front.contains(definition) && definition.applies(nature) {
            let k = front.index_of(definition);
            if k < count - 1 {
                assert(short[k] == definition);
                let i = before.index_of(action);
                assert(out[i] == action);
            } else {
                assert(out[out.len() - 1] == action);
            }
        }
    } else {
        assert(front.len() == 0);
    }
}

/// The built-in actions: opening and copying are for files alone, the others
/// for everything, each once.
pub proof fn the_built_in_actions(action: ActionView, is_file: bool)
    ensures
        actions::built_in(is_file).contains(action) == match action {
            ActionView::Open | ActionView::TempCopy => is_file,
            ActionView::Custom { .. } => false,
            _ => true,
        },
        actions::built_in(is_file).no_duplicates(),
{
    let all = actions::built_in(is_file);
    if is_file {
        assert(all[0] == ActionView::Reveal && all[1] == ActionView::Editor && all[2]
            == ActionView::Copy && all[3] == ActionView::Open && all[4] == ActionView::TempCopy
            && all[5] == ActionView::TempFolder);
    } else {
        assert(all[0] == ActionView::Reveal && all[1] == ActionView::Editor && all[2]
            == ActionView::Copy && all[3] == ActionView::TempFolder);
    }
}

/// What a menu offers: the built-in actions where there is no file; with a
/// valid file the user's that apply, behind the built-in ones unless the file
/// leaves them out. A fault is told with the name of the file.
pub proof fn what_a_menu_offers(
    found: Found<File>,
    file: Seq<char>,
    config_dir: Seq<char>,
    nature: Nature,
)
    ensures
        ({
            let out = actions::menu_of(found, file, config_dir, nature);
            &&& found is Missing ==> out == Ok::<Seq<ActionView>, Seq<char>>(
                actions::built_in(nature.is_file),
            )
            &&& found is Nowhere ==> out is Err
            &&& found matches Found::Unreadable(error) ==> out == Err::<
                Seq<ActionView>,
                Seq<char>,
            >(file + ": "@ + error@)
            &&& found matches Found::Invalid(error) ==> out == Err::<Seq<ActionView>, Seq<char>>(
                file + ": "@ + error@,
            )
            &&& found matches Found::Read(config) ==> {
                let list = text::views(config.actions@);
                let own = actions::applicable(list, list.len(), nature, config_dir);
                let fault = validate::file_error(config.version, list);
                &&& fault is Some ==> out == Err::<Seq<ActionView>, Seq<char>>(
                    file + ": "@ + fault->0,
                )
                &&& fault is None && !config.include_defaults ==> out == Ok::<
                    Seq<ActionView>,
                    Seq<char>,
                >(own)
                &&& fault is None && config.include_defaults ==> out == Ok::<
                    Seq<ActionView>,
                    Seq<char>,
                >(actions::built_in(nature.is_file) + own)
            }
        }),
{
    if let Found::Read(config) = found {
        let list = text::views(config.actions@);
        let own = actions::applicable(list, list.len(), nature, config_dir);
        assert(Seq::<ActionView>::empty() + own =~= own);
    }
}

/// A key is one letter, in either case, or one digit, and stands for the
/// letter in lower case.
pub proof fn a_key_is_one_letter_or_digit(c: char, d: char, more: Seq<char>)
    ensures
        'a' <= c <= 'z' || '0' <= c <= '9' ==> actions::key_of(seq![c]) == Some(c),
        'A' <= c <= 'Z' ==> actions::key_of(seq![c]) is Some && actions::key_of(seq![c])->0 as int
            == c as int + 32,
        !('a' <= c <= 'z' || 'A' <= c <= 'Z' || '0' <= c <= '9') ==> actions::key_of(
            seq![c],
        ) is None,
        actions::key_of(Seq::empty()) is None,
        actions::key_of(seq![c, d] + more) is None,
{
}

/// The built-in actions have keys of their own, no two the same.
pub proof fn built_in_keys_are_distinct(one: ActionView, two: ActionView)
    requires
        !(one is Custom),
        !(two is Custom),
    ensures
        one.hotkey() is Some,
        one.hotkey() == two.hotkey() ==> one == two,
        one.title() == two.title() ==> one == two,
        one.run() is Detach,
        one.errand() == two.errand() ==> one == two,
{
    reveal_strlit("Open in file manager");
    reveal_strlit("Open with default application");
    reveal_strlit("Open temporary copy (TEMP_)");
    reveal_strlit("Open temporary copies folder");
    reveal_strlit("Copy path");
    reveal_strlit("Open in VS Code");
    assert("Open in file manager"@.len() == 20);
    assert("Open with default application"@.len() == 29);
    assert("Open temporary copy (TEMP_)"@.len() == 27);
    assert("Open temporary copies folder"@.len() == 28);
    assert("Copy path"@.len() == 9);
    assert("Open in VS Code"@.len() == 15);
}

/// What a user's action is called, which key stands for it and how it runs is
/// as its definition says; without a key it has none.
pub proof fn a_custom_action_is_as_defined(definition: DefinitionView, config_dir: Seq<char>)
    ensures
        ({
            let action = ActionView::Custom { definition, config_dir };
            &&& action.title() == definition.name
            &&& action.run() == definition.run
            &&& definition.key is None ==> action.hotkey() is None
            &&& definition.key is Some ==> action.hotkey() == actions::key_of(definition.key->0)
            &&& action.errand() == Errand::Start
        }),
{
}

/// What each built-in action comes down to.
pub proof fn what_the_built_in_actions_do()
    ensures
        ActionView::Reveal.errand() == Errand::Reveal,
        ActionView::Open.errand() == Errand::Launch,
        ActionView::TempCopy.errand() == Errand::LaunchCopy,
        ActionView::TempFolder.errand() == Errand::RevealCopies,
        ActionView::Copy.errand() == Errand::CopyPath,
        ActionView::Editor.errand() == Errand::Edit,
{
}

/// A key is claimed by an action exactly if one of the actions before it has
/// it.
pub proof fn which_keys_are_claimed(list: Seq<DefinitionView>, count: nat, c: char)
    requires
        count <= list.len(),
    ensures
        validate::claims(list, count).contains(c) == (exists|i: int|
            0 <= i < count && (#[trigger] list[i]).key is Some && actions::key_of(list[i].key->0)
                == Some(c)),
    decreases count,
{
    if count > 0 {
        let before = validate::claims(list, (count - 1) as nat);
        let now = validate::claims(list, count);
        which_keys_are_claimed(list, (count - 1) as nat, c);
        if now.contains(c) {
            let k = now.index_of(c);
            if k < before.len() {
                assert(before[k] == c);
                assert(before.contains(c));
            } else {
                assert(list[count - 1].key is Some);
            }
        }
        if before.contains(c) {
            let k = before.index_of(c);
            assert(now[k] == c);
        }
        if list[count - 1].key is Some && actions::key_of(list[count - 1].key->0) == Some(c) {
            assert(now[now.len() - 1] == c);
        }
    }
}

proof fn lemma_faultless(list: Seq<DefinitionView>, count: nat)
    requires
        count <= list.len(),
    ensures
        validate::first_error(list, count) is None == (forall|i: int|
            0 <= i < count ==> validate::definition_error(
                #[trigger] list[i],
                validate::claims(list, i as nat),
            ) is None),
    decreases count,
{
    if count > 0 {
        lemma_faultless(list, (count - 1) as nat);
        let last = validate::definition_error(
            list[count - 1],
            validate::claims(list, (count - 1) as nat),
        );
        if validate::first_error(list, (count - 1) as nat) is None && last is None {
            assert forall|i: int| 0 <= i < count implies validate::definition_error(
                #[trigger] list[i],
                validate::claims(list, i as nat),
            ) is None by {}
        }
        if forall|i: int|
            0 <= i < count ==> validate::definition_error(
                #[trigger] list[i],
                validate::claims(list, i as nat),
            ) is None {
            assert(validate::definition_error(
                list[count - 1],
                validate::claims(list, (count - 1) as nat),
            ) is None);
            assert forall|i: int| 0 <= i < count - 1 implies validate::definition_error(
                #[trigger] list[i],
                validate::claims(list, i as nat),
            ) is None by {}
        }
    }
}

/// A file is valid exactly if it is of the version known and every one of its
/// actions is without fault; the fault that is told is that of the first
/// action with one.
pub proof fn a_file_is_as_good_as_its_actions(version: u32, list: Seq<DefinitionView>, at: int)
    ensures
        validate::file_error(version, list) is None == (version == 1 && forall|i: int|
            0 <= i < list.len() ==> validate::definition_error(
                #[trigger] list[i],
                validate::claims(list, i as nat),
            ) is None),
        version == 1 && 0 <= at < list.len() && validate::definition_error(
            list[at],
            validate::claims(list, at as nat),
        ) is Some && (forall|i: int|
            0 <= i < at ==> validate::definition_error(
                #[trigger] list[i],
                validate::claims(list, i as nat),
            ) is None) ==> validate::file_error(version, list) == validate::definition_error(
            list[at],
            validate::claims(list, at as nat),
        ),
{
    lemma_faultless(list, list.len());
    if version == 1 && 0 <= at < list.len() && validate::definition_error(
        list[at],
        validate::claims(list, at as nat),
    ) is Some && (forall|i: int|
        0 <= i < at ==> validate::definition_error(
            #[trigger] list[i],
            validate::claims(list, i as nat),
        ) is None) {
        lemma_faultless(list, at as nat);
        lemma_first_fault(list, at, list.len());
    }
}

proof fn lemma_first_fault(list: Seq<DefinitionView>, at: int, count: nat)
    requires
        0 <= at < count <= list.len(),
        validate::first_error(list, at as nat) is None,
        validate::definition_error(list[at], validate::claims(list, at as nat)) is Some,
    ensures
        validate::first_error(list, count) == validate::definition_error(
            list[at],
            validate::claims(list, at as nat),
        ),
    decreases count,
{
    if at < count - 1 {
        lemma_first_fault(list, at, (count - 1) as nat);
    }
}

proof fn lemma_values(name: Seq<char>, values: Seq<Seq<char>>, count: nat)
    requires
        count <= values.len(),
    ensures
        validate::first_value_error(name, values, count) is None == (forall|i: int|
            0 <= i < count ==> validate::value_error(name, #[trigger] values[i]) is None),
    decreases count,
{
    if count > 0 {
        lemma_values(name, values, (count - 1) as nat);
        if forall|i: int|
            0 <= i < count ==> validate::value_error(name, #[trigger] values[i]) is None {
            assert(validate::value_error(name, values[count - 1]) is None);
        }
    }
}

/// An action is without fault exactly if it has a name on one line, a key that
/// is one letter or digit and not taken, a fixed program, templates that can be
/// expanded and hold no NUL, and does not put the item's path into the code of
/// a shell.
pub proof fn an_action_without_fault(action: DefinitionView, claimed: Seq<char>)
    ensures
        validate::definition_error(action, claimed) is None == {
            &&& exists|k: int| 0 <= k < action.name.len() && !text::white_space(#[trigger] action.name[k])
            &&& forall|k: int|
                0 <= k < action.name.len() ==> (#[trigger] action.name[k]) > '\u{1f}' && !('\u{7f}'
                    <= action.name[k] <= '\u{9f}')
            &&& action.key is Some ==> actions::key_of(action.key->0) is Some && !claimed.contains(
                actions::key_of(action.key->0)->0,
            )
            &&& exists|k: int|
                0 <= k < action.program.len() && !text::white_space(#[trigger] action.program[k])
            &&& !action.program.contains('\0')
            &&& !text::occurs(action.program, "{path}"@) && !text::occurs(
                action.program,
                "{dir}"@,
            ) && !text::occurs(action.program, "{config}"@)
            &&& forall|k: int|
                0 <= k < action.args.len() ==> !(#[trigger] action.args[k]).contains('\0')
                    && template::expanded(action.args[k], validate::trial()) is Ok
            &&& action.cwd is Some ==> !action.cwd->0.contains('\0') && template::expanded(
                action.cwd->0,
                validate::trial(),
            ) is Ok
            &&& !validate::injects(action)
        },
{
    let values = validate::values_of(action);
    lemma_blank(action.name);
    lemma_blank(action.program);
    lemma_values(action.name, values, values.len());
    let good = forall|k: int|
        0 <= k < action.args.len() ==> !(#[trigger] action.args[k]).contains('\0')
            && template::expanded(action.args[k], validate::trial()) is Ok;
    let cwd_good = action.cwd is Some ==> !action.cwd->0.contains('\0') && template::expanded(
        action.cwd->0,
        validate::trial(),
    ) is Ok;
    if good && cwd_good {
        assert forall|i: int| 0 <= i < values.len() implies validate::value_error(
            action.name,
            #[trigger] values[i],
        ) is None by {
            if i < action.args.len() {
                assert(values[i] == action.args[i]);
            }
        }
    }
    if validate::first_value_error(action.name, values, values.len()) is None {
        assert forall|k: int| 0 <= k < action.args.len() implies !(
        #[trigger] action.args[k]).contains('\0') && template::expanded(
            action.args[k],
            validate::trial(),
        ) is Ok by {
            assert(values[k] == action.args[k]);
            assert(validate::value_error(action.name, values[k]) is None);
        }
        if action.cwd is Some {
            assert(values[values.len() - 1] == action.cwd->0);
            assert(validate::value_error(action.name, values[values.len() - 1]) is None);
        }
    }
    let plain = forall|k: int|
        0 <= k < action.name.len() ==> (#[trigger] action.name[k]) > '\u{1f}' && !('\u{7f}'
            <= action.name[k] <= '\u{9f}');
    if plain {
        assert forall|k: int| 0 <= k < action.name.len() implies !validate::control(
            #[trigger] action.name[k],
        ) by {}
    }
    if forall|k: int| 0 <= k < action.name.len() ==> !validate::control(#[trigger] action.name[k]) {
        assert forall|k: int| 0 <= k < action.name.len() implies (#[trigger] action.name[k])
            > '\u{1f}' && !('\u{7f}' <= action.name[k] <= '\u{9f}') by {
            assert(!validate::control(action.name[k]));
        }
    }
}

proof fn lemma_blank(text: Seq<char>)
    ensures
        (text::trimmed(text).len() > 0) == (exists|k: int|
            0 <= k < text.len() && !text::white_space(#[trigger] text[k])),
{
    crate::path_laws::trimming_takes_only_white_space(text);
    let (before, after) = choose|before: Seq<char>, after: Seq<char>|
        {
            &&& text == #[trigger] (before + text::trimmed(text) + after)
            &&& forall|k: int| 0 <= k < before.len() ==> text::white_space(#[trigger] before[k])
            &&& forall|k: int| 0 <= k < after.len() ==> text::white_space(#[trigger] after[k])
        };
    let kept = text::trimmed(text);
    if kept.len() > 0 {
        assert(text[before.len() as int] == kept[0]);
    } else {
        assert forall|k: int| 0 <= k < text.len() implies text::white_space(#[trigger] text[k]) by {
            if k < before.len() {
                assert(text[k] == before[k]);
            } else {
                assert(text[k] == after[k - before.len()]);
            }
        }
    }
}

/// A shell that is handed code, in any of the ways known and in either case,
/// is never given the item's path or directory in an argument: an action that
/// would is at fault.
pub proof fn shells_are_not_given_paths_as_code(
    action: DefinitionView,
    claimed: Seq<char>,
    flag: int,
    arg: int,
)
    requires
        ({
            let name = text::ascii_lower(
                paths::pieces_of(action.program, Platform::Windows).last(),
            );
            ||| name == "cmd"@ || name == "cmd.exe"@
            ||| name == "pwsh"@ || name == "pwsh.exe"@
            ||| name == "powershell"@ || name == "powershell.exe"@
            ||| name == "sh"@ || name == "bash"@ || name == "zsh"@ || name == "fish"@
        }),
        0 <= flag < action.args.len(),
        0 <= arg < action.args.len(),
        ({
            let low = text::ascii_lower(action.args[flag]);
            ||| low == "-c"@ || low == "/c"@ || low == "/k"@
            ||| low == "-command"@ || low == "-encodedcommand"@
        }),
        text::occurs(action.args[arg], "{path}"@) || text::occurs(action.args[arg], "{dir}"@),
    ensures
        validate::definition_error(action, claimed) is Some,
{
    reveal_strlit("-c");
    reveal_strlit("/c");
    reveal_strlit("/k");
    reveal_strlit("-command");
    reveal_strlit("-encodedcommand");
    assert(text::ascii_lower("-c"@) =~= "-c"@);
    assert(text::ascii_lower("/c"@) =~= "/c"@);
    assert(text::ascii_lower("/k"@) =~= "/k"@);
    assert(text::ascii_lower("-command"@) =~= "-command"@);
    assert(text::ascii_lower("-encodedcommand"@) =~= "-encodedcommand"@);
    assert(validate::code_flag(action.args[flag]));
    assert(validate::names_target(action.args[arg]));
    assert(validate::injects(action));
}

/// Paths in arguments are refused only where a shell reads them as code: an
/// action of any other program, or one that hands no code over, may have them.
pub proof fn other_programs_are_given_paths(action: DefinitionView)
    ensures
        validate::injects(action) ==> {
            let name = text::ascii_lower(
                paths::pieces_of(action.program, Platform::Windows).last(),
            );
            ||| name == "cmd"@ || name == "cmd.exe"@
            ||| name == "pwsh"@ || name == "pwsh.exe"@
            ||| name == "powershell"@ || name == "powershell.exe"@
            ||| name == "sh"@ || name == "bash"@ || name == "zsh"@ || name == "fish"@
        },
        validate::injects(action) ==> exists|i: int|
            0 <= i < action.args.len() && (text::occurs(#[trigger] action.args[i], "{path}"@)
                || text::occurs(action.args[i], "{dir}"@)),
        validate::injects(action) ==> exists|i: int|
            0 <= i < action.args.len() && (#[trigger] action.args[i]).len() > 1
                && action.args[i].len() <= 15,
{
    if validate::injects(action) {
        let i = choose|i: int|
            0 <= i < action.args.len() && validate::names_target(#[trigger] action.args[i]);
        assert(validate::names_target(action.args[i]));
        let j = choose|j: int|
            0 <= j < action.args.len() && validate::code_flag(#[trigger] action.args[j]);
        assert(validate::code_flag(action.args[j]));
        reveal_strlit("-c");
        reveal_strlit("/c");
        reveal_strlit("/k");
        reveal_strlit("-command");
        reveal_strlit("-encodedcommand");
        assert(text::ascii_lower(action.args[j]).len() == action.args[j].len());
        assert(text::ascii_lower("-c"@).len() == 2);
        assert(text::ascii_lower("/c"@).len() == 2);
        assert(text::ascii_lower("/k"@).len() == 2);
        assert(text::ascii_lower("-command"@).len() == 8);
        assert(text::ascii_lower("-encodedcommand"@).len() == 15);
        assert(action.args[j].len() > 1);
    }
}

/// A menu opens with every action shown in its order, nothing typed and the
/// cursor on the first.
pub proof fn a_menu_opens_with_every_action(
    target: LocationView,
    items: Seq<ActionView>,
    error: Option<Seq<char>>,
    k: int,
)
    requires
        items.len() <= usize::MAX,
    ensures
        ({
            let m = MenuView::opened(target, items, error);
            &&& m.target == target && m.items == items && m.error == error
            &&& m.query.len() == 0 && m.selected == 0
            &&& m.visible.len() == items.len()
            &&& 0 <= k < items.len() ==> m.visible[k] == k
        }),
{
}

/// A query in the menu shows the actions whose names match it, each once and
/// no other, the better match first; the cursor is then on the best.
pub proof fn a_query_shows_the_actions_that_match(m: MenuView, query: Seq<char>, i: int, a: int, b: int)
    requires
        m.items.len() <= usize::MAX,
    ensures
        ({
            let out = m.filtered(query);
            &&& out.query == query && out.selected == 0
            &&& out.items == m.items && out.target == m.target && out.error == m.error
            &&& 0 <= i < m.items.len() ==> out.visible.contains(i as usize) == (fuzzy::scored(
                query,
                m.items[i].title(),
            ) is Some)
            &&& 0 <= a < out.visible.len() ==> out.visible[a] < m.items.len()
            &&& 0 <= a < b < out.visible.len() ==> out.visible[a] != out.visible[b]
                && fuzzy::scored(query, m.items[out.visible[a] as int].title())->0
                >= fuzzy::scored(query, m.items[out.visible[b] as int].title())->0
        }),
{
    let scores = menu::scores(m.items, query);
    order::a_ranking_puts_higher_scores_first(scores, i, a, b);
    if 0 <= i < m.items.len() {
        assert(scores[i] == fuzzy::scored(query, m.items[i].title()));
    }
    if 0 <= a < b < m.filtered(query).visible.len() {
        order::a_ranking_puts_higher_scores_first(scores, i, b, b);
    }
}

/// Enter runs the action under the cursor; where no action is shown it does
/// nothing. Escape, Control-C and Control-P close the menu.
pub proof fn enter_runs_the_action_under_the_cursor(m: MenuView, key: KeyEvent)
    ensures
        key.code is Enter && m.selected < m.visible.len() ==> m.handled(key) == (
            m,
            DecisionView::Run(m.items[m.visible[m.selected as int] as int]),
        ),
        key.code is Enter && m.selected >= m.visible.len() ==> m.handled(key) == (
            m,
            DecisionView::Stay,
        ),
        key.code is Esc ==> m.handled(key) == (m, DecisionView::Close),
        key.modifiers.control && (key.code == KeyCode::Char('c') || key.code == KeyCode::Char('p'))
            ==> m.handled(key) == (m, DecisionView::Close),
        m.handled(key).1 is Run ==> key.code is Enter,
        m.handled(key).1 is Close ==> key.code is Esc || key.code is Char,
{
}

/// In the menu the keys for up and down move the cursor by one row and stop at
/// the ends; the wheel moves it by three.
pub proof fn the_menu_cursor_stops_at_the_ends(m: MenuView, key: KeyEvent, mouse: MouseEvent)
    requires
        m.selected < m.visible.len(),
        m.visible.len() <= usize::MAX,
    ensures
        ({
            let ctrl = key.modifiers.control;
            let up = key.code is Up || key.code == KeyCode::Char('k') && ctrl;
            let down = key.code is Down || key.code == KeyCode::Char('j') && ctrl;
            let (after, decision) = m.handled(key);
            &&& up || down ==> decision is Stay && after == (MenuView {
                selected: after.selected,
                ..m
            })
            &&& up && m.selected > 0 ==> after.selected == m.selected - 1
            &&& up && m.selected == 0 ==> after.selected == 0
            &&& down && m.selected < m.visible.len() - 1 ==> after.selected == m.selected + 1
            &&& down && m.selected == m.visible.len() - 1 ==> after.selected == m.selected
        }),
        m.mouse_rows.holds(mouse.column, mouse.row) ==> {
            let (after, run) = m.clicked(mouse);
            &&& mouse.kind is ScrollUp && m.selected >= 3 ==> after.selected == m.selected - 3
            &&& mouse.kind is ScrollUp && m.selected < 3 ==> after.selected == 0
            &&& mouse.kind is ScrollDown && m.selected + 3 < m.visible.len() ==> after.selected
                == m.selected + 3
            &&& mouse.kind is ScrollDown && m.selected + 3 >= m.visible.len() ==> after.selected
                == m.visible.len() - 1
            &&& mouse.kind is ScrollUp || mouse.kind is ScrollDown ==> !run && after
                == (MenuView { selected: after.selected, ..m })
        },
        !m.mouse_rows.holds(mouse.column, mouse.row) ==> m.clicked(mouse) == (m, false),
{
}

/// Typing in the menu makes its query longer by one character at the end,
/// taking back takes the last one and Control-U all of them.
pub proof fn typing_narrows_the_menu(m: MenuView, c: char, key: KeyEvent)
    ensures
        key.code == KeyCode::Char(c) && !key.modifiers.control && !key.modifiers.alt ==> m.handled(
            key,
        ).0.query == m.query + seq![c] && m.handled(key).0.selected == 0 && m.handled(key).1 is Stay,
        key.code is Backspace && m.query.len() > 0 ==> m.handled(key).0.query == m.query.take(
            m.query.len() - 1,
        ) && m.handled(key).1 is Stay,
        key.code is Backspace && m.query.len() == 0 ==> m.handled(key).0.query.len() == 0,
        key.code == KeyCode::Char('u') && key.modifiers.control ==> m.handled(key).0.query.len()
            == 0 && m.handled(key).1 is Stay,
{
    assert(m.query.push(c) =~= m.query + seq![c]);
    if m.query.len() > 0 {
        assert(m.query.drop_last() =~= m.query.take(m.query.len() - 1));
    }
}

/// The window of the menu shows the action under the cursor, marked, and the
/// actions around it in their order; no other row is marked.
pub proof fn the_menu_shows_the_action_under_the_cursor(m: MenuView, height: u16, k: int)
    requires
        m.selected < m.visible.len(),
        m.visible.len() <= usize::MAX,
        height > 0,
    ensures
        ({
            let first = m.first(height);
            let shown = m.shown(height);
            &&& first <= m.selected < first + height
            &&& shown.len() == if m.visible.len() - first < height {
                m.visible.len() - first
            } else {
                height as int
            }
            &&& 0 <= k < shown.len() ==> shown[k] == menu::menu_line(
                m.items[m.visible[first + k] as int],
                first + k == m.selected,
            )
            &&& m.selected < height ==> first == 0
            &&& m.placed(crate::screen::Rect { x: 0, y: 0, width: 1, height }).mouse_first == first
        }),
{
}

/// A row of the menu reads as its action's name, behind a mark where the cursor
/// is; actions that take the terminal say so.
pub proof fn a_menu_row_reads_as_its_action(action: ActionView, current: bool)
    ensures
        ({
            let line = menu::menu_line(action, current);
            &&& line.spans.len() == 3
            &&& line.spans[1].text == action.title()
            &&& current ==> line.spans[0].text == "▌ "@
            &&& !current ==> line.spans[0].text == "  "@
            &&& action.run() is Terminal ==> line.spans[2].text == "  [terminal]"@
            &&& action.run() is Detach ==> line.spans[2].text == ""@
            &&& current ==> line.tone is Chosen
            &&& !current ==> line.tone is Plain
        }),
{
}

/// The file manager is given a directory by its own path. A file it is asked to
/// select, or where that cannot be asked, to show the folder that holds it.
/// Opening a file hands over the file's own path.
pub proof fn the_file_manager_is_given_the_item(
    path: LocationView,
    is_dir: bool,
    platform: Platform,
)
    ensures
        ({
            let order = open::revealing(path, is_dir, platform);
            let shown = path.display(platform);
            &&& order.args.len() > 0
            &&& is_dir ==> order.args == seq![shown]
            &&& !is_dir && platform is Windows ==> order.args == seq!["/select,"@ + shown]
            &&& !is_dir && platform is MacOs ==> order.args == seq!["-R"@, shown]
            &&& !is_dir && platform is Linux && path.parts.len() > 0 ==> order.args == seq![
                (LocationView {
                    anchor: path.anchor,
                    parts: path.parts.take(path.parts.len() - 1),
                }).display(platform),
            ]
            &&& platform is Windows ==> order.program == "explorer.exe"@
            &&& platform is MacOs ==> order.program == "open"@
            &&& platform is Linux ==> order.program == "xdg-open"@
            &&& open::launching(path, platform).program == order.program
            &&& open::launching(path, platform).args == seq![shown]
        }),
{
    if path.parts.len() > 0 {
        assert(path.parts.drop_last() =~= path.parts.take(path.parts.len() - 1));
    }
}

/// Where the settings are: in the directory that the environment names, beside
/// the program, or among the user's files, the first of these that there is. A
/// named directory that cannot be had is not replaced by another.
pub proof fn the_settings_are_found_in_order(
    dir: LocationView,
    portable: Option<LocationView>,
    user: Option<LocationView>,
)
    ensures
        crate::config::settings_place(Some(Some(dir)), portable, user) == Some(
            LocationView { anchor: dir.anchor, parts: dir.parts.push("config.toml"@) },
        ),
        crate::config::settings_place(Some(None), portable, user) is None,
        crate::config::settings_place(None, Some(dir), user) == Some(dir),
        crate::config::settings_place(None, None, Some(dir)) == Some(
            LocationView {
                anchor: dir.anchor,
                parts: dir.parts + seq!["tadoru"@, "config.toml"@],
            },
        ),
        crate::config::settings_place(None, None, None) is None,
{
    assert(dir.parts.push("tadoru"@).push("config.toml"@) =~= dir.parts
        + seq!["tadoru"@, "config.toml"@]);
}

/// The directories that no walk goes into, unless the user says otherwise.
pub proof fn the_standard_settings(name: Seq<char>)
    ensures
        ({
            let config = crate::config::ConfigView::standard();
            &&& config.exclude.contains(name) == (name == ".git"@ || name == "node_modules"@ || name
                == "dist"@ || name == "build"@ || name == "target"@)
            &&& config.exclude_roots.len() == 0
            &&& config.mouse && !config.icons
            &&& config.temp_copy_max_mib == 100
        }),
{
    let all = crate::config::ConfigView::standard().exclude;
    assert(all[0] == ".git"@ && all[1] == "node_modules"@ && all[2] == "dist"@ && all[3]
        == "build"@ && all[4] == "target"@);
}

/// A program is PowerShell by its name alone, in either case, with an extension
/// or without, wherever it lies; and it is a script by its extension.
pub proof fn what_is_powershell_and_what_is_a_script(
    dir: Seq<char>,
    name: Seq<char>,
    platform: Platform,
)
    requires
        name.len() > 0,
        name != "."@ && name != ".."@,
        forall|k: int| 0 <= k < name.len() ==> !platform.separates(#[trigger] name[k]),
    ensures
        ({
            let path = dir.push('/') + name;
            let stem = text::ascii_lower(paths::stem_of(name));
            &&& invoke::powershell(path, platform) == (stem == "pwsh"@ || stem == "powershell"@)
            &&& invoke::script(path, platform) == (paths::extension_of(name) is Some
                && text::ascii_lower(paths::extension_of(name)->0) == "ps1"@)
            &&& invoke::powershell(path, platform) == invoke::powershell(name, platform)
            &&& invoke::script(path, platform) == invoke::script(name, platform)
        }),
{
    crate::path_laws::the_last_name_names_a_path(dir, '/', name, platform);
    reveal_strlit("pwsh");
    reveal_strlit("powershell");
    reveal_strlit("ps1");
    assert(text::ascii_lower("pwsh"@) =~= "pwsh"@);
    assert(text::ascii_lower("powershell"@) =~= "powershell"@);
    assert(text::ascii_lower("ps1"@) =~= "ps1"@);
}

/// What puts text on the clipboard: PowerShell on Windows, which is told the
/// text by its environment and never as code, and on the other systems a
/// program that reads it.
pub proof fn what_copies_to_the_clipboard(platform: Platform, wayland: bool)
    ensures
        ({
            let order = invoke::clipboard(platform, wayland);
            &&& platform is Windows ==> order.program == "powershell"@ && order.args.len() == 4
                && order.args[0] == "-NoProfile"@ && order.args[1] == "-NonInteractive"@
                && order.args[2] == "-Command"@ && order.args[3]
                == "$ErrorActionPreference = 'Stop'; Set-Clipboard -Value $env:TADORU_TARGET"@
            &&& platform is MacOs ==> order.program == "pbcopy"@ && order.args.len() == 0
            &&& platform is Linux && wayland ==> order.program == "wl-copy"@ && order.args.len()
                == 0
            &&& platform is Linux && !wayland ==> order.program == "xclip"@ && order.args
                == seq!["-selection"@, "clipboard"@]
        }),
{
}

/// The names and keys of the built-in actions.
pub proof fn the_names_and_keys_of_the_built_in_actions()
    ensures
        ActionView::Reveal.title() == "Open in file manager"@ && ActionView::Reveal.hotkey() == Some(
            'f',
        ),
        ActionView::Open.title() == "Open with default application"@ && ActionView::Open.hotkey()
            == Some('d'),
        ActionView::TempCopy.title() == "Open temporary copy (TEMP_)"@
            && ActionView::TempCopy.hotkey() == Some('o'),
        ActionView::TempFolder.title() == "Open temporary copies folder"@
            && ActionView::TempFolder.hotkey() == Some('t'),
        ActionView::Copy.title() == "Copy path"@ && ActionView::Copy.hotkey() == Some('c'),
        ActionView::Editor.title() == "Open in VS Code"@ && ActionView::Editor.hotkey() == Some(
            'v',
        ),
{
}

/// The templates of an action are its arguments and, behind them, its working
/// directory where it asks for one.
pub proof fn the_templates_of_an_action(action: DefinitionView)
    ensures
        action.cwd is None ==> validate::values_of(action) == action.args,
        action.cwd is Some ==> validate::values_of(action) == action.args + seq![action.cwd->0],
        validate::value_error(action.name, Seq::empty()) is None,
{
    if action.cwd is Some {
        assert(action.args.push(action.cwd->0) =~= action.args + seq![action.cwd->0]);
    }
}

/// Keys without a meaning in the menu leave it as it is.
pub proof fn other_keys_leave_the_menu_as_it_is(m: MenuView, c: char, key: KeyEvent)
    ensures
        key.code is Left || key.code is Right || key.code is PageUp || key.code is PageDown
            || key.code is Tab || key.code is BackTab || key.code is F || key.code is Other
            ==> m.handled(key) == (m, DecisionView::Stay),
        key.code == KeyCode::Char(c) && key.modifiers.control && c != 'c' && c != 'p' && c != 'k'
            && c != 'j' && c != 'u' ==> m.handled(key) == (m, DecisionView::Stay),
        key.code == KeyCode::Char(c) && !key.modifiers.control && key.modifiers.alt ==> m.handled(
            key,
        ) == (m, DecisionView::Stay),
{
}

/// A program that is nowhere is told by the path it was given by, or by its
/// name where it was looked for on the search path.
pub proof fn a_missing_program_is_told(program: Seq<char>, search: SearchView, present: Seq<bool>)
    requires
        forall|k: int| 0 <= k < present.len() ==> !present[k],
    ensures
        search.fixed ==> invoke::resolution(program, search, present) == Err::<
            Seq<char>,
            Seq<char>,
        >("program not found: "@ + search.candidates[0]),
        !search.fixed ==> invoke::resolution(program, search, present) == Err::<
            Seq<char>,
            Seq<char>,
        >("program not found on PATH: "@ + program),
{
    assert forall|k: int| !invoke::is_first_present(present, k) by {}
}

/// A file is opened by its application; a directory never is.
pub proof fn only_files_are_opened(path: LocationView, platform: Platform)
    ensures
        open::launched(path, true, platform) is None,
        open::launched(path, false, platform) is Some,
        open::launched(path, false, platform)->0.args == seq![path.display(platform)],
{
}

/// A path that ends in no name of its own is neither PowerShell nor a script,
/// and is not completed by an extension.
pub proof fn a_path_without_a_name_is_no_program(path: Seq<char>, platform: Platform)
    requires
        paths::name_of(path, platform) is None,
    ensures
        !invoke::powershell(path, platform),
        !invoke::script(path, platform),
        !invoke::bare(path, platform),
        crate::icons::lower_extension(path, platform).len() == 0,
{
}

} // verus!
