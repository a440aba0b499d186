//! Binding values into prompt templates.
//!
//! A template marks a placeholder as `{{ name }}`: two opening braces, a name
//! of letters, digits and underscores that does not begin with a digit, and
//! two closing braces, with blanks allowed around the name. A template is
//! only rendered when the names bound are exactly the names it holds. The
//! rendering is done by the `tera` template engine, whose language is far
//! larger than this: it is only handed a template that holds nothing but
//! placeholders and plain text, and its text is taken only where it is the
//! template with each placeholder replaced by its value.

use vstd::prelude::*;
use vstd::string::StrSliceExecFns;
use vstd::string::StringExecFns;
use crate::text::{contains_str, distinct, join, joined, pair_views, string_views, to_chars};

verus! {

/// The errors of the template engine.
#[verifier::external_type_specification]
#[verifier::external_body]
pub struct ExTeraError(tera::Error);

/// Why a template could not be formatted.
#[derive(Debug)]
pub enum FormatError {
    /// The names bound are not the names that the template holds.
    PlaceholderMismatch { required: Vec<String>, provided: Vec<String> },
    /// The template engine refused the template.
    Render { message: String },
}

/// The text that tells of a mismatch between the names asked for and the
/// names provided.
pub open spec fn mismatch_text(required: Seq<Seq<char>>, provided: Seq<Seq<char>>) -> Seq<char> {
    "placeholder mismatch: the template requires ["@ + joined(required, ", "@)
        + "], the bindings provide ["@ + joined(provided, ", "@) + "]"@
}

/// The text that tells of an error.
pub open spec fn format_error_text(error: FormatError) -> Seq<char> {
    match error {
        FormatError::PlaceholderMismatch { required, provided } => mismatch_text(
            string_views(required@),
            string_views(provided@),
        ),
        FormatError::Render { message } => "template error: "@ + message@,
    }
}

impl FormatError {
    /// What went wrong, in words: for a mismatch, the names on both sides.
    pub fn message(&self) -> (text: String)
        ensures
            text@ == format_error_text(*self),
    {
        match self {
            FormatError::PlaceholderMismatch { required, provided } => {
                let mut text = String::from_str("placeholder mismatch: the template requires [");
                text.append(join(required, ", ").as_str());
                text.append("], the bindings provide [");
                text.append(join(provided, ", ").as_str());
                text.append("]");
                text
            },
            FormatError::Render { message } => {
                let mut text = String::from_str("template error: ");
                text.append(message.as_str());
                text
            },
        }
    }
}

/// A blank between the braces and the name of a placeholder.
pub open spec fn is_blank(c: char) -> bool {
    c == ' ' || c == '\t' || c == '\r' || c == '\n'
}

/// A character that may begin a placeholder's name.
pub open spec fn is_name_start(c: char) -> bool {
    ('a' <= c && c <= 'z') || ('A' <= c && c <= 'Z') || c == '_'
}

/// A character that may stand in a placeholder's name.
pub open spec fn is_name_char(c: char) -> bool {
    is_name_start(c) || ('0' <= c && c <= '9')
}

/// Where the run of blanks that starts at `from` ends.
pub open spec fn blank_end(t: Seq<char>, from: int) -> int
    decreases t.len() - from,
{
    if 0 <= from < t.len() && is_blank(t[from]) {
        blank_end(t, from + 1)
    } else {
        from
    }
}

/// Where the run of name characters that starts at `from` ends.
pub open spec fn name_end(t: Seq<char>, from: int) -> int
    decreases t.len() - from,
{
    if 0 <= from < t.len() && is_name_char(t[from]) {
        name_end(t, from + 1)
    } else {
        from
    }
}

/// The placeholder that begins at `i`, if one does: where its name starts,
/// where its name ends, and where the placeholder ends.
pub open spec fn placeholder_at(t: Seq<char>, i: int) -> Option<(int, int, int)> {
    if 0 <= i && i + 1 < t.len() && t[i] == '{' && t[i + 1] == '{' {
        let start = blank_end(t, i + 2);
        if start < t.len() && is_name_start(t[start]) {
            let end = name_end(t, start);
            let close = blank_end(t, end);
            if i + 2 <= close && close + 1 < t.len() && t[close] == '}' && t[close + 1] == '}' {
                Some((start, end, close + 2))
            } else {
                None
            }
        } else {
            None
        }
    } else {
        None
    }
}

/// The names of the placeholders that a left-to-right scan of `t` from
/// `from` meets, one for each placeholder, in the order in which they stand.
pub open spec fn placeholder_names(t: Seq<char>, from: int) -> Seq<Seq<char>>
    decreases t.len() - from,
{
    if from < 0 || from >= t.len() {
        Seq::empty()
    } else {
        match placeholder_at(t, from) {
            Some(found) => seq![t.subrange(found.0, found.1)] + placeholder_names(t, found.2),
            None => placeholder_names(t, from + 1),
        }
    }
}

/// The names that a template asks for: each name once, in the order in which
/// the names first stand in the template.
pub open spec fn required_names(t: Seq<char>) -> Seq<Seq<char>> {
    distinct(placeholder_names(t, 0))
}

/// The names that a list of bindings gives a value to, in the list's order.
pub open spec fn binding_names(bindings: Seq<(Seq<char>, Seq<char>)>) -> Seq<Seq<char>> {
    Seq::new(bindings.len(), |i: int| bindings[i].0)
}

/// Every name asked for is provided, and every name provided is asked for.
pub open spec fn names_match(required: Seq<Seq<char>>, provided: Seq<Seq<char>>) -> bool {
    &&& forall|i: int| 0 <= i < required.len() ==> provided.contains(#[trigger] required[i])
    &&& forall|i: int| 0 <= i < provided.len() ==> required.contains(#[trigger] provided[i])
}

/// The names must fit on both sides: a name that the template asks for and
/// the bindings lack stops the names from matching, and so does a name that
/// the bindings provide and the template does not ask for.
pub proof fn lemma_missing_or_extra_name(
    required: Seq<Seq<char>>,
    provided: Seq<Seq<char>>,
    name: Seq<char>,
)
    requires
        required.contains(name) != provided.contains(name),
    ensures
        !names_match(required, provided),
{
    if required.contains(name) {
        let i = choose|i: int| 0 <= i < required.len() && required[i] == name;
        assert(!provided.contains(required[i]));
    } else {
        let i = choose|i: int| 0 <= i < provided.len() && provided[i] == name;
        assert(!required.contains(provided[i]));
    }
}

fn is_blank_char(c: char) -> (blank: bool)
    ensures
        blank == is_blank(c),
{
    c == ' ' || c == '\t' || c == '\r' || c == '\n'
}

fn is_name_start_char(c: char) -> (start: bool)
    ensures
        start == is_name_start(c),
{
    ('a' <= c && c <= 'z') || ('A' <= c && c <= 'Z') || c == '_'
}

fn is_name_char_at(c: char) -> (inner: bool)
    ensures
        inner == is_name_char(c),
{
    is_name_start_char(c) || ('0' <= c && c <= '9')
}

fn blank_end_at(t: &Vec<char>, from: usize) -> (end: usize)
    requires
        from <= t@.len(),
    ensures
        end == blank_end(t@, from as int),
        from <= end <= t@.len(),
{
    let n: usize = t.len();
    let mut pos: usize = from;
    while pos < n && is_blank_char(t[pos])
        invariant
            n == t@.len(),
            from <= pos <= n,
            blank_end(t@, from as int) == blank_end(t@, pos as int),
        decreases n - pos,
    {
        pos += 1;
    }
    pos
}

fn name_end_at(t: &Vec<char>, from: usize) -> (end: usize)
    requires
        from <= t@.len(),
    ensures
        end == name_end(t@, from as int),
        from <= end <= t@.len(),
{
    let n: usize = t.len();
    let mut pos: usize = from;
    while pos < n && is_name_char_at(t[pos])
        invariant
            n == t@.len(),
            from <= pos <= n,
            name_end(t@, from as int) == name_end(t@, pos as int),
        decreases n - pos,
    {
        pos += 1;
    }
    pos
}

/// The placeholder that begins at `i`, if one does.
fn find_placeholder_at(t: &Vec<char>, i: usize) -> (found: Option<(usize, usize, usize)>)
    requires
        i < t@.len(),
    ensures
        match found {
            Some(p) => placeholder_at(t@, i as int) == Some((p.0 as int, p.1 as int, p.2 as int))
                && i < p.0 <= p.1 <= p.2 <= t@.len() && i + 4 <= p.2,
            None => placeholder_at(t@, i as int) is None,
        },
{
    let n: usize = t.len();
    if n - i < 2 || t[i] != '{' || t[i + 1] != '{' {
        return None;
    }
    let start = blank_end_at(t, i + 2);
    if start >= n || !is_name_start_char(t[start]) {
        return None;
    }
    let end = name_end_at(t, start);
    let close = blank_end_at(t, end);
    if n - close < 2 || t[close] != '}' || t[close + 1] != '}' {
        return None;
    }
    Some((start, end, close + 2))
}

/// The names that `template` asks for: each name once, in the order in which
/// the names first stand in the template.
pub fn placeholders(template: &str) -> (names: Vec<String>)
    ensures
        string_views(names@) == required_names(template@),
{
    let chars = to_chars(template);
    let n: usize = chars.len();
    let mut names: Vec<String> = Vec::new();
    let mut pos: usize = 0;
    let ghost mut seen: Seq<Seq<char>> = Seq::empty();
    proof {
        assert(seen + placeholder_names(template@, 0) =~= placeholder_names(template@, 0));
        assert(string_views(names@) =~= distinct(seen));
    }
    while pos < n
        invariant
            chars@ == template@,
            n == template@.len(),
            pos <= n,
            seen + placeholder_names(template@, pos as int) == placeholder_names(template@, 0),
            string_views(names@) == distinct(seen),
        decreases n - pos,
    {
        match find_placeholder_at(&chars, pos) {
            Some(found) => {
                let name = template.substring_char(found.0, found.1);
                let ghost rest = placeholder_names(template@, found.2 as int);
                proof {
                    assert(seen.push(name@) + rest =~= seen + (seq![name@] + rest));
                    assert(seen.push(name@).drop_last() =~= seen);
                }
                if !contains_str(&names, name) {
                    let owned = name.to_owned();
                    proof {
                        assert(string_views(names@.push(owned)) =~= string_views(names@).push(
                            name@,
                        ));
                    }
                    names.push(owned);
                }
                proof {
                    seen = seen.push(name@);
                }
                pos = found.2;
            },
            None => {
                pos += 1;
            },
        }
    }
    proof {
        assert(seen + Seq::<Seq<char>>::empty() =~= seen);
    }
    names
}

/// The names that `bindings` gives a value to, in the list's order.
pub fn provided_names(bindings: &Vec<(String, String)>) -> (names: Vec<String>)
    ensures
        string_views(names@) == binding_names(pair_views(bindings@)),
{
    let mut names: Vec<String> = Vec::new();
    let mut i: usize = 0;
    while i < bindings.len()
        invariant
            i <= bindings@.len(),
            names@.len() == i,
            forall|j: int| 0 <= j < i ==> names@[j]@ == bindings@[j].0@,
        decreases bindings@.len() - i,
    {
        let name = bindings[i].0.clone();
        names.push(name);
        i += 1;
    }
    proof {
        assert(string_views(names@) =~= binding_names(pair_views(bindings@)));
    }
    names
}

/// Whether every name of `inner` is among `outer`.
fn all_among(inner: &Vec<String>, outer: &Vec<String>) -> (all: bool)
    ensures
        all == (forall|i: int|
            0 <= i < inner@.len() ==> string_views(outer@).contains(
                #[trigger] string_views(inner@)[i],
            )),
{
    let mut i: usize = 0;
    while i < inner.len()
        invariant
            i <= inner@.len(),
            forall|j: int|
                0 <= j < i ==> string_views(outer@).contains(#[trigger] string_views(inner@)[j]),
        decreases inner@.len() - i,
    {
        if !contains_str(outer, inner[i].as_str()) {
            proof {
                assert(string_views(inner@)[i as int] == inner@[i as int]@);
            }
            return false;
        }
        proof {
            assert(string_views(inner@)[i as int] == inner@[i as int]@);
        }
        i += 1;
    }
    true
}

/// Whether the names asked for and the names provided are the same names.
pub fn same_names(required: &Vec<String>, provided: &Vec<String>) -> (same: bool)
    ensures
        same == names_match(string_views(required@), string_views(provided@)),
{
    all_among(required, provided) && all_among(provided, required)
}

/// Nothing at `i` opens more than a placeholder: an opening brace there is
/// not followed by `%` or `#`, and where it is followed by a second opening
/// brace, a placeholder begins at `i`.
pub open spec fn plain_at(t: Seq<char>, i: int) -> bool {
    0 <= i && i + 1 < t.len() && t[i] == '{' ==> {
        &&& t[i + 1] != '%'
        &&& t[i + 1] != '#'
        &&& (t[i + 1] == '{' ==> placeholder_at(t, i) is Some)
    }
}

/// `t` holds nothing but placeholders and plain text: no block (`{%`), no
/// comment (`{#`), and no expression other than a name between `{{` and
/// `}}`. In such a template there is nothing for a template engine to
/// compute.
pub open spec fn plain_template(t: Seq<char>) -> bool {
    forall|i: int| 0 <= i < t.len() ==> plain_at(t, i)
}

/// Whether `template` holds nothing but placeholders and plain text.
pub fn is_plain_template(template: &str) -> (plain: bool)
    ensures
        plain == plain_template(template@),
{
    let chars = to_chars(template);
    let n: usize = chars.len();
    let mut i: usize = 0;
    while i < n
        invariant
            chars@ == template@,
            n == template@.len(),
            i <= n,
            forall|j: int| 0 <= j < i ==> plain_at(template@, j),
        decreases n - i,
    {
        if chars[i] == '{' && n - i >= 2 {
            let next = chars[i + 1];
            if next == '%' || next == '#' {
                assert(!plain_at(template@, i as int));
                return false;
            }
            if next == '{' && find_placeholder_at(&chars, i).is_none() {
                assert(!plain_at(template@, i as int));
                return false;
            }
        }
        i += 1;
    }
    true
}

/// The values that the template engine binds to names.
#[verifier::external_type_specification]
#[verifier::external_body]
pub struct ExTeraContext(tera::Context);

/// The texts that a context of the template engine binds to names.
pub uninterp spec fn context_texts(of: tera::Context) -> Map<Seq<char>, Seq<char>>;

/// A context of the template engine binds texts and nothing else: no number,
/// no list, no other value that is no text. A `tera::Context` can hold any
/// value; one that is made by `tera::Context::new` and filled with texts by
/// `tera::Context::insert` holds texts only, and is then told by the texts
/// that it binds.
pub uninterp spec fn binds_only_texts(of: tera::Context) -> bool;

/// What `tera::Tera::one_off`, with escaping switched off, makes of a
/// template that holds nothing but placeholders and plain text and of the
/// texts bound to names: the text that it renders, or nothing where it
/// fails. The engine reads nothing but these two. What it renders is its
/// own: nothing more is said of it here.
pub uninterp spec fn engine_text(template: Seq<char>, texts: Map<Seq<char>, Seq<char>>) -> Option<Seq<char>>;

/// The texts of a context that binds nothing.
pub open spec fn nothing_bound() -> Map<Seq<char>, Seq<char>> {
    Map::empty()
}

/// A context from `tera::Context::new`: it binds nothing.
#[verifier::external_body]
fn new_context() -> (made: tera::Context)
    ensures
        context_texts(made) == nothing_bound(),
        binds_only_texts(made),
{
    tera::Context::new()
}

/// Binds `name` to the text `value` in `context`, by `tera::Context::insert`:
/// the name is bound to the value, whatever it was bound to before, and
/// every other name is bound as it was. A context that bound only texts
/// still does.
#[verifier::external_body]
fn bind_text(context: &mut tera::Context, name: &str, value: &str)
    ensures
        context_texts(*final(context)) == context_texts(*old(context)).insert(name@, value@),
        binds_only_texts(*old(context)) ==> binds_only_texts(*final(context)),
{
    context.insert(name, value);
}

/// Hands a template and a context to `tera::Tera::one_off`, with escaping
/// switched off, and returns what the engine returns. The template must hold
/// nothing but placeholders and plain text: the engine computes what else
/// stands between its marks, and stops the program on some of it, such as a
/// remainder that overflows or a number too large to write down. The context
/// must bind texts only. What the engine then returns depends on the
/// template and the texts bound alone, and is what `engine_text` names: its
/// text, or nothing for an error. What that text is, is not claimed.
#[verifier::external_body]
fn render_one_off(template: &str, context: &tera::Context) -> (rendered: Result<
    String,
    tera::Error,
>)
    requires
        plain_template(template@),
        binds_only_texts(*context),
    ensures
        match rendered {
            Ok(text) => engine_text(template@, context_texts(*context)) == Some(text@),
            Err(_) => engine_text(template@, context_texts(*context)) is None,
        },
{
    tera::Tera::one_off(template, context, false)
}

/// The texts that `bindings` bind to names: each name that has a binding is
/// bound to the value of its last binding.
pub open spec fn bound_texts(bindings: Seq<(Seq<char>, Seq<char>)>) -> Map<Seq<char>, Seq<char>> {
    Map::new(
        |name: Seq<char>| bound_value(bindings, name) is Some,
        |name: Seq<char>| bound_value(bindings, name)->0,
    )
}

/// The context that binds the values of `bindings` to their names; of two
/// bindings of one name the later one holds.
fn bound_context(bindings: &Vec<(String, String)>) -> (context: tera::Context)
    ensures
        context_texts(context) == bound_texts(pair_views(bindings@)),
        binds_only_texts(context),
{
    let ghost pairs = pair_views(bindings@);
    let mut context = new_context();
    let mut i: usize = 0;
    proof {
        assert(bound_texts(pairs.subrange(0, 0)) =~= Map::<Seq<char>, Seq<char>>::empty());
    }
    while i < bindings.len()
        invariant
            pairs == pair_views(bindings@),
            i <= bindings@.len(),
            context_texts(context) == bound_texts(pairs.subrange(0, i as int)),
            binds_only_texts(context),
        decreases bindings@.len() - i,
    {
        proof {
            let upto = pairs.subrange(0, i + 1);
            assert(upto.drop_last() =~= pairs.subrange(0, i as int));
            assert(upto.last() == pairs[i as int]);
            assert(bound_texts(upto) =~= bound_texts(pairs.subrange(0, i as int)).insert(
                pairs[i as int].0,
                pairs[i as int].1,
            ));
        }
        bind_text(&mut context, bindings[i].0.as_str(), bindings[i].1.as_str());
        i += 1;
    }
    proof {
        assert(pairs.subrange(0, i as int) =~= pairs);
    }
    context
}

/// Renders `template` with the values of `bindings` bound to their names; of
/// two bindings of one name the later one holds. The engine is handed the
/// template as it is and a context that binds just these values; what it
/// makes of them is its own.
fn render(template: &str, bindings: &Vec<(String, String)>) -> (rendered: Result<
    String,
    tera::Error,
>)
    requires
        plain_template(template@),
    ensures
        match rendered {
            Ok(text) => engine_text(template@, bound_texts(pair_views(bindings@))) == Some(text@),
            Err(_) => engine_text(template@, bound_texts(pair_views(bindings@))) is None,
        },
{
    let context = bound_context(bindings);
    render_one_off(template, &context)
}

/// The text with which a `tera::Error` describes itself. Nothing is claimed
/// of it.
#[verifier::external_body]
fn render_error_message(error: &tera::Error) -> (message: String) {
    error.to_string()
}

/// The value that `bindings` give to `name`: that of the last binding of the
/// name, if there is one.
pub open spec fn bound_value(bindings: Seq<(Seq<char>, Seq<char>)>, name: Seq<char>) -> Option<
    Seq<char>,
>
    decreases bindings.len(),
{
    if bindings.len() == 0 {
        None
    } else if bindings.last().0 == name {
        Some(bindings.last().1)
    } else {
        bound_value(bindings.drop_last(), name)
    }
}

/// `t` from `from` on with every placeholder replaced by the value bound to
/// its name, and by nothing where no value is bound to it. What stands
/// between the placeholders is kept as it is, and a value is put in as it
/// is: nothing in it is escaped, and a placeholder in it is not replaced
/// again.
pub open spec fn substituted(t: Seq<char>, from: int, bindings: Seq<(Seq<char>, Seq<char>)>) -> Seq<
    char,
>
    decreases t.len() - from,
{
    if from < 0 || from >= t.len() {
        Seq::empty()
    } else {
        match placeholder_at(t, from) {
            Some(found) => (match bound_value(bindings, t.subrange(found.0, found.1)) {
                Some(value) => value,
                None => Seq::empty(),
            }) + substituted(t, found.2, bindings),
            None => seq![t[from]] + substituted(t, from + 1, bindings),
        }
    }
}

/// The value that `bindings` give to `name`, if they give it one.
pub fn find_binding<'a>(bindings: &'a Vec<(String, String)>, name: &str) -> (value: Option<
    &'a String,
>)
    ensures
        match value {
            Some(value) => bound_value(pair_views(bindings@), name@) == Some(value@),
            None => bound_value(pair_views(bindings@), name@) is None,
        },
{
    let ghost pairs = pair_views(bindings@);
    let mut i: usize = bindings.len();
    proof {
        assert(pairs.subrange(0, i as int) =~= pairs);
    }
    while i > 0
        invariant
            pairs == pair_views(bindings@),
            i <= bindings@.len(),
            bound_value(pairs, name@) == bound_value(pairs.subrange(0, i as int), name@),
        decreases i,
    {
        proof {
            let upto = pairs.subrange(0, i as int);
            assert(upto.last() == pairs[i - 1]);
            assert(upto.drop_last() =~= pairs.subrange(0, i - 1));
        }
        if crate::text::str_eq(bindings[i - 1].0.as_str(), name) {
            return Some(&bindings[i - 1].1);
        }
        i -= 1;
    }
    None
}

/// `template` with every placeholder replaced by the value bound to its
/// name.
pub fn substitute(template: &str, bindings: &Vec<(String, String)>) -> (text: String)
    ensures
        text@ == substituted(template@, 0, pair_views(bindings@)),
{
    let chars = to_chars(template);
    let n: usize = chars.len();
    let ghost pairs = pair_views(bindings@);
    let mut text = String::new();
    let mut kept: usize = 0;
    let mut pos: usize = 0;
    proof {
        assert(text@ + template@.subrange(0, 0) + substituted(template@, 0, pairs)
            =~= substituted(template@, 0, pairs));
    }
    while pos < n
        invariant
            pairs == pair_views(bindings@),
            chars@ == template@,
            n == template@.len(),
            kept <= pos <= n,
            text@ + template@.subrange(kept as int, pos as int) + substituted(
                template@,
                pos as int,
                pairs,
            ) == substituted(template@, 0, pairs),
        decreases n - pos,
    {
        let ghost before = text@;
        let ghost plain = template@.subrange(kept as int, pos as int);
        match find_placeholder_at(&chars, pos) {
            Some(found) => {
                let ghost rest = substituted(template@, found.2 as int, pairs);
                text.append(template.substring_char(kept, pos));
                let name = template.substring_char(found.0, found.1);
                match find_binding(bindings, name) {
                    Some(value) => {
                        text.append(value.as_str());
                        proof {
                            assert(text@ + template@.subrange(found.2 as int, found.2 as int)
                                + rest =~= before + plain + (value@ + rest));
                        }
                    },
                    None => {
                        proof {
                            assert(text@ + template@.subrange(found.2 as int, found.2 as int)
                                + rest =~= before + plain + (Seq::<char>::empty() + rest));
                        }
                    },
                }
                kept = found.2;
                pos = found.2;
            },
            None => {
                proof {
                    let rest = substituted(template@, pos + 1, pairs);
                    assert(before + template@.subrange(kept as int, pos + 1) + rest =~= before
                        + plain + (seq![template@[pos as int]] + rest));
                }
                pos += 1;
            },
        }
    }
    text.append(template.substring_char(kept, n));
    proof {
        assert(text@ =~= text@ + Seq::<char>::empty());
    }
    text
}

/// What a `Render` error says of a template that the engine is not asked to
/// render, or renders as something else than the library reads.
pub open spec fn not_plain_message() -> Seq<char> {
    "the template holds more than placeholders and plain text"@
}

/// What the formatter returns for an outcome of the template engine. The
/// engine's text is taken only where it is `expected`, the text that the
/// formatter stands for; another text, and an error of the engine, are a
/// `Render` error. For an error of the engine it holds the engine's own
/// words.
pub fn rendered_or_error(rendered: Result<String, tera::Error>, expected: &str) -> (formatted:
    Result<String, FormatError>)
    ensures
        match rendered {
            Ok(text) => if text@ == expected@ {
                formatted == Ok::<String, FormatError>(text)
            } else {
                formatted matches Err(FormatError::Render { message }) && message@
                    == not_plain_message()
            },
            Err(_) => formatted is Err && formatted->Err_0 is Render,
        },
{
    match rendered {
        Ok(text) => {
            if crate::text::str_eq(text.as_str(), expected) {
                Ok(text)
            } else {
                Err(
                    FormatError::Render {
                        message: String::from_str(
                            "the template holds more than placeholders and plain text",
                        ),
                    },
                )
            }
        },
        Err(error) => Err(FormatError::Render { message: render_error_message(&error) }),
    }
}

/// The template engine renders `template` with `bindings` as the library
/// reads it: its text is the template with every placeholder replaced by the
/// value bound to its name. Whether it does is the engine's to decide: it
/// does not where it reads a name as something else, as it reads `true` as a
/// truth value.
pub open spec fn engine_agrees(template: Seq<char>, bindings: Seq<(Seq<char>, Seq<char>)>) -> bool {
    engine_text(template, bound_texts(bindings)) == Some(substituted(template, 0, bindings))
}

/// `template` can be formatted with `bindings`: the names bound are exactly
/// the names that the template holds, the template holds nothing but
/// placeholders and plain text, and the template engine renders it as the
/// library reads it.
pub open spec fn formats(template: Seq<char>, bindings: Seq<(Seq<char>, Seq<char>)>) -> bool {
    &&& names_match(required_names(template), binding_names(bindings))
    &&& plain_template(template)
    &&& engine_agrees(template, bindings)
}

/// `formatted` is what formatting `template` with `bindings` gives: the
/// template with every placeholder replaced by its value where it can be
/// formatted; a mismatch that lists the names on both sides where the names
/// bound are not the names of the template; and a `Render` error where the
/// names are the same, but the template holds more than placeholders and
/// plain text or the engine does not render it as the library reads it. The
/// `Render` error says so, unless the engine failed: then it holds the
/// engine's own words.
pub open spec fn formatted_as(
    formatted: Result<String, FormatError>,
    template: Seq<char>,
    bindings: Seq<(Seq<char>, Seq<char>)>,
) -> bool {
    match formatted {
        Ok(text) => formats(template, bindings) && text@ == substituted(template, 0, bindings),
        Err(FormatError::Render { message }) => {
            &&& names_match(required_names(template), binding_names(bindings))
            &&& !(plain_template(template) && engine_agrees(template, bindings))
            &&& !plain_template(template) || engine_text(template, bound_texts(bindings)) is Some
                ==> message@ == not_plain_message()
        },
        Err(FormatError::PlaceholderMismatch { required, provided }) => {
            &&& !names_match(required_names(template), binding_names(bindings))
            &&& string_views(required@) == required_names(template)
            &&& string_views(provided@) == binding_names(bindings)
        },
    }
}

/// Formats `template` with `bindings`.
///
/// The names bound must be exactly the names that the template holds; a name
/// too few or too many is a `PlaceholderMismatch`, which lists both sets, and
/// nothing is rendered. A template that holds more than placeholders and
/// plain text is a `Render` error, and is not handed to the template engine.
/// Otherwise the engine renders the template. Its text is returned where it
/// is the template with every placeholder replaced by the value bound to its
/// name; where the engine fails, or makes anything else of the template, the
/// result is a `Render` error. So a template is formatted exactly where the
/// names are the same, the template is plain and the engine agrees.
pub fn format_prompt(template: &str, bindings: &Vec<(String, String)>) -> (formatted: Result<
    String,
    FormatError,
>)
    ensures
        formatted is Ok <==> formats(template@, pair_views(bindings@)),
        formatted is Ok ==> formatted->Ok_0@ == substituted(template@, 0, pair_views(bindings@)),
        names_match(required_names(template@), binding_names(pair_views(bindings@)))
            && !plain_template(template@) ==> formatted is Err && formatted->Err_0 is Render,
        formatted_as(formatted, template@, pair_views(bindings@)),
{
    let required = placeholders(template);
    let provided = provided_names(bindings);
    if !same_names(&required, &provided) {
        return Err(FormatError::PlaceholderMismatch { required, provided });
    }
    if !is_plain_template(template) {
        return Err(
            FormatError::Render {
                message: String::from_str(
                    "the template holds more than placeholders and plain text",
                ),
            },
        );
    }
    let expected = substitute(template, bindings);
    rendered_or_error(render(template, bindings), expected.as_str())
}

} // verus!
