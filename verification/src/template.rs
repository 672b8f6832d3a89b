//! Placeholders in the arguments of user-defined actions.
use crate::paths;
use crate::paths::{Location, Platform};
use crate::text;
use crate::text::{cat3, chars_of, find, same, slice_text};
use vstd::prelude::*;
use vstd::string::StringExecFns;

verus! {

/// What the placeholders of a template stand for.
#[derive(Debug, PartialEq, Eq)]
pub struct Context {
    /// The selected item.
    pub path: String,
    /// The selected directory, or the one that the selected file is in.
    pub dir: String,
    /// The configuration directory.
    pub config: String,
}

/// A context as mathematical values.
#[verifier::ext_equal]
pub struct ContextView {
    pub path: Seq<char>,
    pub dir: Seq<char>,
    pub config: Seq<char>,
}

impl View for Context {
    type V = ContextView;

    open spec fn view(&self) -> ContextView {
        ContextView { path: self.path@, dir: self.dir@, config: self.config@ }
    }
}

impl ContextView {
    /// The context of a selected item.
    pub open spec fn of(
        target: paths::LocationView,
        is_dir: bool,
        config: Seq<char>,
        platform: Platform,
    ) -> Result<ContextView, Seq<char>> {
        let path = target.display(platform);
        match (is_dir, target.parent()) {
            (true, _) => Ok(ContextView { path, dir: path, config }),
            (false, Some(parent)) => Ok(ContextView { path, dir: parent.display(platform), config }),
            (false, None) => Err("target has no parent"@),
        }
    }
}

impl Context {
    /// The context of a selected item. The item of a file system root that is
    /// no directory has no directory to be in.
    pub fn new(target: &Location, is_dir: bool, config: &str, platform: Platform) -> (made: Result<
        Context,
        String,
    >)
        ensures
            text::outcome(made) == ContextView::of(target@, is_dir, config@, platform),
    {
        let path = target.display(platform);
        let dir = if is_dir {
            target.display(platform)
        } else {
            match target.parent() {
                Some(parent) => parent.display(platform),
                None => {
                    return Err("target has no parent".to_owned());
                },
            }
        };
        Ok(Context { path, dir, config: config.to_owned() })
    }
}

/// What a placeholder stands for.
pub open spec fn meaning(name: Seq<char>, context: ContextView) -> Option<Seq<char>> {
    if name == "path"@ {
        Some(context.path)
    } else if name == "dir"@ {
        Some(context.dir)
    } else if name == "config"@ {
        Some(context.config)
    } else {
        None
    }
}

/// An expansion with text in front of it.
pub open spec fn after(front: Seq<char>, rest: Result<Seq<char>, Seq<char>>) -> Result<
    Seq<char>,
    Seq<char>,
> {
    match rest {
        Ok(text) => Ok(front + text),
        Err(error) => Err(error),
    }
}

/// A template with its placeholders replaced, read once from the front, so
/// that what a placeholder stands for is never read again. Doubled braces
/// stand for one brace.
pub open spec fn expanded(template: Seq<char>, context: ContextView) -> Result<Seq<char>, Seq<char>>
    decreases template.len(),
{
    if template.len() == 0 {
        Ok(Seq::empty())
    } else if template.len() >= 2 && template[0] == '{' && template[1] == '{' {
        after(seq!['{'], expanded(template.skip(2), context))
    } else if template.len() >= 2 && template[0] == '}' && template[1] == '}' {
        after(seq!['}'], expanded(template.skip(2), context))
    } else if template[0] == '{' {
        match text::first_from(template, seq!['}'], 1) {
            None => Err("unclosed placeholder"@),
            Some(end) => {
                let name = template.subrange(1, end);
                match meaning(name, context) {
                    None => Err("unknown placeholder {"@ + name + "}"@),
                    Some(value) => if 1 <= end < template.len() {
                        after(value, expanded(template.skip(end + 1), context))
                    } else {
                        Ok(Seq::empty())
                    },
                }
            },
        }
    } else {
        after(seq![template[0]], expanded(template.skip(1), context))
    }
}

fn lookup(name: &str, context: &Context) -> (value: Option<String>)
    ensures
        text::inside(value) == meaning(name@, context@),
{
    if same(name, "path") {
        Some(context.path.clone())
    } else if same(name, "dir") {
        Some(context.dir.clone())
    } else if same(name, "config") {
        Some(context.config.clone())
    } else {
        None
    }
}

proof fn lemma_first_after(all: Seq<char>, needle: Seq<char>, from: int, skip: int)
    requires
        0 <= skip,
        0 <= from,
        skip + from <= all.len(),
    ensures
        text::first_from(all.skip(skip), needle, from) == match text::first_from(
            all,
            needle,
            skip + from,
        ) {
            Some(at) => Some(at - skip),
            None => None,
        },
    decreases all.len() - from - skip,
{
    let rest = all.skip(skip);
    if from + needle.len() <= rest.len() {
        assert(rest.subrange(from, from + needle.len()) =~= all.subrange(
            skip + from,
            skip + from + needle.len(),
        ));
        if !text::occurs_at(rest, needle, from) && skip + from < all.len() {
            lemma_first_after(all, needle, from + 1, skip);
        }
    }
}

/// A template with its placeholders replaced, read once from the front.
pub fn expand(template: &str, context: &Context) -> (out: Result<String, String>)
    ensures
        text::outcome(out) == expanded(template@, context@),
{
    let chars = chars_of(template);
    let count: usize = chars.len();
    let mut close: Vec<char> = Vec::new();
    close.push('}');
    assert(close@ =~= seq!['}']);
    let mut out = String::new();
    let mut at: usize = 0;
    assert(chars@.skip(0) =~= chars@);
    assert(after(out@, expanded(chars@, context@)) == expanded(chars@, context@)) by {
        if let Ok(t) = expanded(chars@, context@) {
            assert(out@ + t =~= t);
        }
    }
    while at < count
        invariant
            at <= count == chars@.len(),
            close@ == seq!['}'],
            chars@ == template@,
            expanded(template@, context@) == after(
                out@,
                expanded(chars@.skip(at as int), context@),
            ),
        decreases count - at,
    {
        let ghost rest = chars@.skip(at as int);
        let ghost before = out@;
        let c = chars[at];
        let doubled = at + 1 < count && chars[at + 1] == c;
        if (c == '{' || c == '}') && doubled {
            out.push(c);
            assert(rest.skip(2) =~= chars@.skip(at + 2));
            proof {
                lemma_after_after(before, seq![c], expanded(rest.skip(2), context@));
                assert(before + seq![c] =~= out@);
            }
            at += 2;
        } else if c == '{' {
            proof {
                lemma_first_after(chars@, close@, 1, at as int);
                text::lemma_first_from(chars@, close@, at + 1);
            }
            match find(&chars, &close, at + 1) {
                None => {
                    return Err("unclosed placeholder".to_owned());
                },
                Some(end) => {
                    let name = slice_text(&chars, at + 1, end);
                    assert(name@ =~= rest.subrange(1, end - at));
                    match lookup(name.as_str(), context) {
                        None => {
                            return Err(cat3("unknown placeholder {", name.as_str(), "}"));
                        },
                        Some(value) => {
                            out.append(value.as_str());
                            assert(rest.skip(end - at + 1) =~= chars@.skip(end + 1));
                            proof {
                                lemma_after_after(
                                    before,
                                    value@,
                                    expanded(rest.skip(end - at + 1), context@),
                                );
                            }
                            at = end + 1;
                        },
                    }
                },
            }
        } else {
            out.push(c);
            assert(rest.skip(1) =~= chars@.skip(at + 1));
            proof {
                lemma_after_after(before, seq![c], expanded(rest.skip(1), context@));
                assert(before + seq![c] =~= out@);
            }
            at += 1;
        }
    }
    proof {
        assert(chars@.skip(at as int) =~= Seq::<char>::empty());
        assert(out@ + Seq::<char>::empty() =~= out@);
    }
    Ok(out)
}

proof fn lemma_after_after(a: Seq<char>, b: Seq<char>, rest: Result<Seq<char>, Seq<char>>)
    ensures
        after(a, after(b, rest)) == after(a + b, rest),
{
    if let Ok(text) = rest {
        assert(a + (b + text) =~= a + b + text);
    }
}

/// A text written so that a template spells it: each brace doubled.
pub open spec fn escaped(text: Seq<char>) -> Seq<char>
    decreases text.len(),
{
    if text.len() == 0 {
        text
    } else if text[0] == '{' || text[0] == '}' {
        seq![text[0], text[0]] + escaped(text.skip(1))
    } else {
        seq![text[0]] + escaped(text.skip(1))
    }
}

/// Text with its braces doubled is copied into the expansion as it was, in
/// front of whatever follows it in the template.
pub proof fn escaped_text_expands_to_itself(
    literal: Seq<char>,
    rest: Seq<char>,
    context: ContextView,
)
    ensures
        expanded(escaped(literal) + rest, context) == after(literal, expanded(rest, context)),
        expanded(escaped(literal), context) == Ok::<Seq<char>, Seq<char>>(literal),
{
    lemma_escaped_prefix(literal, rest, context);
    lemma_escaped_prefix(literal, Seq::empty(), context);
    assert(escaped(literal) + Seq::<char>::empty() =~= escaped(literal));
    assert(literal + Seq::<char>::empty() =~= literal);
}

/// Text with its braces doubled is copied into the expansion as it was, behind
/// whatever can be expanded in front of it in the template.
pub proof fn escaped_text_follows_an_expansion(
    front: Seq<char>,
    literal: Seq<char>,
    context: ContextView,
)
    requires
        expanded(front, context) is Ok,
    ensures
        expanded(front + escaped(literal), context) == Ok::<Seq<char>, Seq<char>>(
            expanded(front, context)->Ok_0 + literal,
        ),
    decreases front.len() + literal.len(),
{
    let tail = escaped(literal);
    let template = front + tail;
    escaped_text_expands_to_itself(literal, Seq::empty(), context);
    if front.len() == 0 {
        assert(template =~= tail);
        assert(expanded(front, context)->Ok_0 + literal =~= literal);
    } else if front.len() >= 2 && (front[0] == '{' || front[0] == '}') && front[1] == front[0] {
        let rest = front.skip(2);
        assert(template.skip(2) =~= rest + tail);
        escaped_text_follows_an_expansion(rest, literal, context);
        let made = expanded(rest, context)->Ok_0;
        assert(seq![front[0]] + (made + literal) =~= seq![front[0]] + made + literal);
    } else if front[0] == '{' {
        let close = seq!['}'];
        text::lemma_first_from(front, close, 1);
        let end = text::first_from(front, close, 1)->0;
        assert(template.subrange(end, end + 1) =~= front.subrange(end, end + 1));
        assert forall|k: int| 1 <= k < end implies !text::occurs_at(template, close, k) by {
            assert(template.subrange(k, k + 1) =~= front.subrange(k, k + 1));
            assert(!text::occurs_at(front, close, k));
        }
        text::lemma_first_is(template, close, 1, end);
        assert(template.subrange(1, end) =~= front.subrange(1, end));
        assert(front[end] == front.subrange(end, end + 1)[0]);
        assert(template[1] == front[1]);
        let value = meaning(front.subrange(1, end), context)->0;
        let rest = front.skip(end + 1);
        assert(template.skip(end + 1) =~= rest + tail);
        escaped_text_follows_an_expansion(rest, literal, context);
        let made = expanded(rest, context)->Ok_0;
        assert(value + (made + literal) =~= value + made + literal);
    } else if front.len() == 1 && front[0] == '}' && literal.len() > 0 && literal[0] == '}' {
        let short = literal.skip(1);
        let rest = front.skip(1);
        assert(rest =~= Seq::<char>::empty());
        assert(tail =~= seq!['}', '}'] + escaped(short));
        assert(template[0] == '}' && template[1] == '}');
        assert(template.skip(2) =~= front + escaped(short));
        escaped_text_follows_an_expansion(front, short, context);
        let made = expanded(front, context)->Ok_0;
        assert(made =~= seq!['}']);
        assert(seq!['}'] + (made + short) =~= made + literal);
    } else {
        let rest = front.skip(1);
        assert(template.skip(1) =~= rest + tail);
        assert(template[0] == front[0]);
        if front.len() >= 2 {
            assert(template[1] == front[1]);
        } else if literal.len() > 0 {
            assert(template[1] == tail[0]);
            assert(tail[0] == literal[0]);
        }
        escaped_text_follows_an_expansion(rest, literal, context);
        let made = expanded(rest, context)->Ok_0;
        assert(seq![front[0]] + (made + literal) =~= seq![front[0]] + made + literal);
    }
}

proof fn lemma_escaped_prefix(literal: Seq<char>, rest: Seq<char>, context: ContextView)
    ensures
        expanded(escaped(literal) + rest, context) == after(literal, expanded(rest, context)),
    decreases literal.len(),
{
    let template = escaped(literal) + rest;
    if literal.len() == 0 {
        assert(template =~= rest);
        if let Ok(text) = expanded(rest, context) {
            assert(literal + text =~= text);
        }
    } else {
        let c = literal[0];
        let tail = literal.skip(1);
        lemma_escaped_prefix(tail, rest, context);
        lemma_after_after(seq![c], tail, expanded(rest, context));
        assert(seq![c] + tail =~= literal);
        if c == '{' || c == '}' {
            assert(template.skip(2) =~= escaped(tail) + rest);
            assert(template[0] == c && template[1] == c);
        } else {
            assert(template.skip(1) =~= escaped(tail) + rest);
            assert(template[0] == c);
        }
    }
}

/// What a placeholder stands for goes into the expansion untouched, whatever
/// it holds: braces and placeholders in it are not read again, and the text on
/// either side is kept.
pub proof fn placeholder_is_replaced_in_a_single_pass(
    left: Seq<char>,
    name: Seq<char>,
    right: Seq<char>,
    context: ContextView,
)
    requires
        meaning(name, context) is Some,
    ensures
        expanded(
            escaped(left) + (seq!['{'] + name + seq!['}']) + escaped(right),
            context,
        ) == Ok::<Seq<char>, Seq<char>>(left + meaning(name, context)->0 + right),
{
    let value = meaning(name, context)->0;
    let rest = seq!['{'] + name + seq!['}'] + escaped(right);
    assert(escaped(left) + (seq!['{'] + name + seq!['}']) + escaped(right) =~= escaped(left)
        + rest);
    escaped_text_expands_to_itself(left, rest, context);
    reveal_strlit("path");
    reveal_strlit("dir");
    reveal_strlit("config");
    let end: int = 1 + name.len() as int;
    assert(text::occurs_at(rest, seq!['}'], end)) by {
        assert(rest.subrange(end, end + 1) =~= seq!['}']);
    }
    assert forall|k: int| 1 <= k < end implies !text::occurs_at(rest, seq!['}'], k) by {
        assert(rest.subrange(k, k + 1)[0] == name[k - 1]);
        assert(seq!['}'][0] == '}');
    }
    text::lemma_first_is(rest, seq!['}'], 1, end);
    assert(rest.subrange(1, end) =~= name);
    assert(rest.skip(end + 1) =~= escaped(right));
    assert(rest[0] == '{');
    assert(rest[1] != '{');
    escaped_text_expands_to_itself(right, Seq::empty(), context);
    assert(left + (value + right) =~= left + value + right);
}

/// Whether a template can be expanded, and if not why, does not depend on what
/// the placeholders stand for.
pub proof fn a_template_is_good_everywhere_or_nowhere(
    template: Seq<char>,
    one: ContextView,
    other: ContextView,
)
    ensures
        expanded(template, one) is Ok <==> expanded(template, other) is Ok,
        expanded(template, one) is Err ==> expanded(template, other) == expanded(template, one),
    decreases template.len(),
{
    if template.len() == 0 {
    } else if template.len() >= 2 && template[0] == '{' && template[1] == '{' {
        a_template_is_good_everywhere_or_nowhere(template.skip(2), one, other);
    } else if template.len() >= 2 && template[0] == '}' && template[1] == '}' {
        a_template_is_good_everywhere_or_nowhere(template.skip(2), one, other);
    } else if template[0] == '{' {
        if let Some(end) = text::first_from(template, seq!['}'], 1) {
            if 1 <= end < template.len() {
                a_template_is_good_everywhere_or_nowhere(template.skip(end + 1), one, other);
            }
        }
    } else {
        a_template_is_good_everywhere_or_nowhere(template.skip(1), one, other);
    }
}

/// The context of an item tells its path, the directory it is in, which for a
/// directory is the item itself, and the configuration directory. Only a root
/// that is no directory has none.
pub proof fn the_context_of_an_item(
    target: paths::LocationView,
    is_dir: bool,
    config: Seq<char>,
    platform: Platform,
)
    ensures
        ({
            let made = ContextView::of(target, is_dir, config, platform);
            let above = paths::LocationView {
                anchor: target.anchor,
                parts: target.parts.take(target.parts.len() - 1),
            };
            &&& made is Ok == (is_dir || target.parts.len() > 0)
            &&& made is Ok ==> made->Ok_0.path == target.display(platform) && made->Ok_0.config
                == config
            &&& is_dir ==> made->Ok_0.dir == target.display(platform)
            &&& !is_dir && target.parts.len() > 0 ==> made->Ok_0.dir == above.display(platform)
        }),
{
    if target.parts.len() > 0 {
        assert(target.parts.drop_last() =~= target.parts.take(target.parts.len() - 1));
    }
}

/// Any character but a brace is copied, two braces of a kind stand for one, and
/// a closing brace on its own stands for itself; what follows is expanded as it
/// would be without them.
pub proof fn how_a_template_starts(c: char, rest: Seq<char>, context: ContextView)
    ensures
        c != '{' && c != '}' ==> expanded(seq![c] + rest, context) == after(
            seq![c],
            expanded(rest, context),
        ),
        expanded(seq!['{', '{'] + rest, context) == after(seq!['{'], expanded(rest, context)),
        expanded(seq!['}', '}'] + rest, context) == after(seq!['}'], expanded(rest, context)),
        rest.len() == 0 || rest[0] != '}' ==> expanded(seq!['}'] + rest, context) == after(
            seq!['}'],
            expanded(rest, context),
        ),
        expanded(Seq::empty(), context) == Ok::<Seq<char>, Seq<char>>(Seq::empty()),
{
    assert((seq![c] + rest).skip(1) =~= rest);
    assert((seq!['{', '{'] + rest).skip(2) =~= rest);
    assert((seq!['}', '}'] + rest).skip(2) =~= rest);
    assert((seq!['}'] + rest).skip(1) =~= rest);
    if rest.len() > 0 {
        assert((seq!['}'] + rest)[1] == rest[0]);
    }
}

/// Text in front of an expansion stays in front of it, and an error stays the
/// error.
pub proof fn what_follows_text(front: Seq<char>, text: Seq<char>, error: Seq<char>)
    ensures
        after(front, Ok(text)) == Ok::<Seq<char>, Seq<char>>(front + text),
        after(front, Err(error)) == Err::<Seq<char>, Seq<char>>(error),
{
}

} // verus!
