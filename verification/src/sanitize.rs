//! Rules of the recording sanitizer: which command lines it accepts, how the identifiers an
//! operator names are replaced in every string value of a recording (and only there), and
//! where the result is validated before it replaces the output file.
use crate::json::{
    Json, JsonView, json_text_value, parse_json, entries_view, items_view, json_view, lemma_entries_view,
    lemma_entries_view_push, lemma_items_view, lemma_items_view_push,
};
use crate::text::{chars_of, spec_starts_with, starts_with, str_eq};
use vstd::prelude::*;

verus! {

/// Usage shown for every argument error.
pub const USAGE: &'static str = "Usage: recording-sanitize <input.json> <output.json> --redact from=to [--redact from=to ...]";

/// Why a command line was refused.
#[derive(Clone, Debug, PartialEq, Eq)]
pub enum SanitizeError {
    /// `--redact` was the last argument.
    MissingRedactValue,
    /// An option other than `--redact`.
    UnknownOption(String),
    /// A `--redact` value without `=`.
    NotAPair(String),
    /// A `--redact` value with nothing before its `=`.
    EmptyFrom,
    /// Not exactly two paths.
    Usage,
    /// No `--redact` pair at all.
    NoRedaction,
}

/// The mathematical value of a [`SanitizeError`].
pub enum SanitizeErrorView {
    MissingRedactValue,
    UnknownOption(Seq<char>),
    NotAPair(Seq<char>),
    EmptyFrom,
    Usage,
    NoRedaction,
}

impl View for SanitizeError {
    type V = SanitizeErrorView;

    open spec fn view(&self) -> SanitizeErrorView {
        match self {
            SanitizeError::MissingRedactValue => SanitizeErrorView::MissingRedactValue,
            SanitizeError::UnknownOption(a) => SanitizeErrorView::UnknownOption(a@),
            SanitizeError::NotAPair(p) => SanitizeErrorView::NotAPair(p@),
            SanitizeError::EmptyFrom => SanitizeErrorView::EmptyFrom,
            SanitizeError::Usage => SanitizeErrorView::Usage,
            SanitizeError::NoRedaction => SanitizeErrorView::NoRedaction,
        }
    }
}

/// The text shown before [`USAGE`] when the tool is run without `--redact`.
pub const NO_REDACTION: &'static str = "Refusing to run without --redact: this tool replaces exactly the identifiers you name and does not detect them for you.";

pub open spec fn spec_sanitize_message(e: SanitizeErrorView) -> Seq<char> {
    match e {
        SanitizeErrorView::MissingRedactValue => "--redact needs a from=to argument after it"@,
        SanitizeErrorView::UnknownOption(a) => "unknown option "@ + a + "\n"@ + USAGE@,
        SanitizeErrorView::NotAPair(p) => "--redact expects from=to, got "@ + p + "\n"@ + USAGE@,
        SanitizeErrorView::EmptyFrom => "--redact from must not be empty\n"@ + USAGE@,
        SanitizeErrorView::Usage => USAGE@,
        SanitizeErrorView::NoRedaction => NO_REDACTION@ + "\n"@ + USAGE@,
    }
}

impl SanitizeError {
    /// The message shown for the refusal.
    pub fn message(&self) -> (r: String)
        ensures
            r@ == spec_sanitize_message(self@),
    {
        match self {
            SanitizeError::MissingRedactValue => String::from_str(
                "--redact needs a from=to argument after it",
            ),
            SanitizeError::UnknownOption(a) => String::from_str("unknown option ").concat(
                a.as_str(),
            ).concat("\n").concat(USAGE),
            SanitizeError::NotAPair(p) => String::from_str("--redact expects from=to, got ").concat(
                p.as_str(),
            ).concat("\n").concat(USAGE),
            SanitizeError::EmptyFrom => String::from_str(
                "--redact from must not be empty\n",
            ).concat(USAGE),
            SanitizeError::Usage => String::from_str(USAGE),
            SanitizeError::NoRedaction => String::from_str(NO_REDACTION).concat("\n").concat(USAGE),
        }
    }
}

/// What the command line asked for: the two paths and every replacement, in order.
pub struct Invocation {
    pub input: String,
    pub output: String,
    pub replacements: Vec<(String, String)>,
}

pub open spec fn texts_view(s: Seq<String>) -> Seq<Seq<char>> {
    s.map_values(|t: String| t@)
}

pub open spec fn text_pairs_view(s: Seq<(String, String)>) -> Seq<(Seq<char>, Seq<char>)> {
    s.map_values(|p: (String, String)| (p.0@, p.1@))
}

/// The index of the first `c` in `s`.
pub open spec fn first_index_of(s: Seq<char>, c: char, i: int) -> Option<int>
    decreases s.len() - i,
{
    if i < 0 || i >= s.len() {
        None
    } else if s[i] == c {
        Some(i)
    } else {
        first_index_of(s, c, i + 1)
    }
}

/// `from=to`, split at the first `=`; `from` must not be empty.
pub open spec fn split_pair(pair: Seq<char>) -> Result<(Seq<char>, Seq<char>), SanitizeErrorView> {
    match first_index_of(pair, '=', 0) {
        None => Err(SanitizeErrorView::NotAPair(pair)),
        Some(k) => if k == 0 {
            Err(SanitizeErrorView::EmptyFrom)
        } else {
            Ok((pair.take(k), pair.skip(k + 1)))
        },
    }
}

/// The paths and pairs read from the argument at `i` on, after `positional` and `pairs`
/// were read before it: `--redact` takes the next argument as its pair, `--redact=pair`
/// carries it, any other `--` option is refused, and anything else is a path.
pub open spec fn scan_from(
    args: Seq<Seq<char>>,
    i: int,
    positional: Seq<Seq<char>>,
    pairs: Seq<(Seq<char>, Seq<char>)>,
) -> Result<(Seq<Seq<char>>, Seq<(Seq<char>, Seq<char>)>), SanitizeErrorView>
    decreases args.len() - i,
{
    if i < 0 || i >= args.len() {
        Ok((positional, pairs))
    } else {
        let argument = args[i];
        if argument == "--redact"@ {
            if i + 1 >= args.len() {
                Err(SanitizeErrorView::MissingRedactValue)
            } else {
                match split_pair(args[i + 1]) {
                    Err(e) => Err(e),
                    Ok(p) => scan_from(args, i + 2, positional, pairs.push(p)),
                }
            }
        } else if spec_starts_with(argument, "--redact="@) {
            match split_pair(argument.skip(9)) {
                Err(e) => Err(e),
                Ok(p) => scan_from(args, i + 1, positional, pairs.push(p)),
            }
        } else if spec_starts_with(argument, "--"@) {
            Err(SanitizeErrorView::UnknownOption(argument))
        } else {
            scan_from(args, i + 1, positional.push(argument), pairs)
        }
    }
}

/// The input path, the output path and the replacements; exactly two paths and at least
/// one pair are required.
pub open spec fn spec_parse_arguments(args: Seq<Seq<char>>) -> Result<
    (Seq<char>, Seq<char>, Seq<(Seq<char>, Seq<char>)>),
    SanitizeErrorView,
> {
    match scan_from(args, 0, Seq::empty(), Seq::empty()) {
        Err(e) => Err(e),
        Ok((positional, pairs)) => if positional.len() != 2 {
            Err(SanitizeErrorView::Usage)
        } else if pairs.len() == 0 {
            Err(SanitizeErrorView::NoRedaction)
        } else {
            Ok((positional[0], positional[1], pairs))
        },
    }
}

proof fn lemma_first_index_bounds(s: Seq<char>, c: char, i: int)
    requires
        0 <= i,
    ensures
        first_index_of(s, c, i) matches Some(k) ==> i <= k < s.len() && s[k] == c,
    decreases s.len() - i,
{
    if i < s.len() && s[i] != c {
        lemma_first_index_bounds(s, c, i + 1);
    }
}

fn split_at_equals(pair: &str) -> (r: Result<(String, String), SanitizeError>)
    ensures
        match split_pair(pair@) {
            Ok((from, to)) => r matches Ok(p) && p.0@ == from && p.1@ == to,
            Err(e) => r matches Err(x) && x@ == e,
        },
{
    let chars = chars_of(pair);
    let n = chars.len();
    proof {
        lemma_first_index_bounds(pair@, '=', 0);
    }
    let mut k: usize = 0;
    while k < n
        invariant
            chars@ == pair@,
            n == chars@.len(),
            k <= n,
            first_index_of(pair@, '=', 0) == first_index_of(pair@, '=', k as int),
        decreases n - k,
    {
        if chars[k] == '=' {
            if k == 0 {
                return Err(SanitizeError::EmptyFrom);
            }
            let from = pair.substring_char(0, k);
            let to = pair.substring_char(k + 1, n);
            proof {
                assert(from@ =~= pair@.take(k as int));
                assert(to@ =~= pair@.skip(k + 1));
            }
            return Ok((String::from_str(from), String::from_str(to)));
        }
        k += 1;
    }
    Err(SanitizeError::NotAPair(String::from_str(pair)))
}

/// Reads the command line; see [`spec_parse_arguments`].
pub fn parse_arguments(args: &[String]) -> (r: Result<Invocation, SanitizeError>)
    ensures
        match spec_parse_arguments(texts_view(args@)) {
            Ok((input, output, pairs)) => r matches Ok(v) && v.input@ == input && v.output@
                == output && text_pairs_view(v.replacements@) == pairs,
            Err(e) => r matches Err(x) && x@ == e,
        },
{
    let ghost view = texts_view(args@);
    let mut positional: Vec<String> = Vec::new();
    let mut replacements: Vec<(String, String)> = Vec::new();
    let n = args.len();
    let mut i: usize = 0;
    assert(texts_view(positional@) =~= Seq::<Seq<char>>::empty());
    assert(text_pairs_view(replacements@) =~= Seq::<(Seq<char>, Seq<char>)>::empty());
    while i < n
        invariant
            n == args@.len(),
            view == texts_view(args@),
            view.len() == n,
            i <= n,
            scan_from(view, 0, Seq::empty(), Seq::empty()) == scan_from(
                view,
                i as int,
                texts_view(positional@),
                text_pairs_view(replacements@),
            ),
        decreases n - i,
    {
        let argument = args[i].as_str();
        assert(view[i as int] == argument@);
        let ghost pairs_before = replacements@;
        if str_eq(argument, "--redact") {
            if i + 1 >= n {
                return Err(SanitizeError::MissingRedactValue);
            }
            assert(view[i + 1] == args@[i + 1]@);
            match split_at_equals(args[i + 1].as_str()) {
                Ok(p) => {
                    replacements.push(p);
                    assert(text_pairs_view(replacements@) =~= text_pairs_view(pairs_before).push(
                        (p.0@, p.1@),
                    ));
                },
                Err(e) => {
                    return Err(e);
                },
            }
            i += 2;
        } else if starts_with(argument, "--redact=") {
            let len = argument.unicode_len();
            proof {
                reveal_strlit("--redact=");
            }
            let rest = argument.substring_char(9, len);
            assert(rest@ =~= argument@.skip(9));
            match split_at_equals(rest) {
                Ok(p) => {
                    replacements.push(p);
                    assert(text_pairs_view(replacements@) =~= text_pairs_view(pairs_before).push(
                        (p.0@, p.1@),
                    ));
                },
                Err(e) => {
                    return Err(e);
                },
            }
            i += 1;
        } else if starts_with(argument, "--") {
            return Err(SanitizeError::UnknownOption(String::from_str(argument)));
        } else {
            let ghost positional_before = positional@;
            positional.push(String::from_str(argument));
            assert(texts_view(positional@) =~= texts_view(positional_before).push(argument@));
            i += 1;
        }
    }
    if positional.len() != 2 {
        return Err(SanitizeError::Usage);
    }
    if replacements.len() == 0 {
        return Err(SanitizeError::NoRedaction);
    }
    let output = positional.pop().unwrap();
    let input = positional.pop().unwrap();
    Ok(Invocation { input, output, replacements })
}

/// How many times `str::matches` finds `pattern` in `s`: left to right, without overlap.
/// An empty pattern matches at every character boundary.
pub open spec fn occurrences(s: Seq<char>, pattern: Seq<char>) -> nat
    decreases s.len(),
{
    if pattern.len() == 0 {
        s.len() + 1
    } else if s.len() < pattern.len() {
        0
    } else if s.take(pattern.len() as int) == pattern {
        1 + occurrences(s.skip(pattern.len() as int), pattern)
    } else {
        occurrences(s.skip(1), pattern)
    }
}

/// `str::replace`: every match `str::matches` finds is replaced by `to`.
pub open spec fn replaced(s: Seq<char>, pattern: Seq<char>, to: Seq<char>) -> Seq<char>
    decreases s.len(),
{
    if pattern.len() == 0 {
        if s.len() == 0 {
            to
        } else {
            to + seq![s[0]] + replaced(s.skip(1), pattern, to)
        }
    } else if s.len() < pattern.len() {
        s
    } else if s.take(pattern.len() as int) == pattern {
        to + replaced(s.skip(pattern.len() as int), pattern, to)
    } else {
        seq![s[0]] + replaced(s.skip(1), pattern, to)
    }
}

/// A string value after sanitizing: rewritten only where `from` occurs.
pub open spec fn sanitized_text(s: Seq<char>, from: Seq<char>, to: Seq<char>) -> Seq<char> {
    if occurrences(s, from) > 0 {
        replaced(s, from, to)
    } else {
        s
    }
}

/// The value with `from` replaced by `to` in every string value. Object keys, numbers,
/// booleans and nulls are never touched.
pub open spec fn sanitized(v: JsonView, from: Seq<char>, to: Seq<char>) -> JsonView
    decreases v, 0int,
{
    match v {
        JsonView::Text(s) => JsonView::Text(sanitized_text(s, from, to)),
        JsonView::Array(items) => JsonView::Array(sanitized_items(items, from, to, 0)),
        JsonView::Object(entries) => JsonView::Object(sanitized_entries(entries, from, to, 0)),
        _ => v,
    }
}

pub open spec fn sanitized_items(items: Seq<JsonView>, from: Seq<char>, to: Seq<char>, i: int) -> Seq<
    JsonView,
>
    decreases items, items.len() - i,
{
    if i < 0 || i >= items.len() {
        Seq::empty()
    } else {
        seq![sanitized(items[i], from, to)] + sanitized_items(items, from, to, i + 1)
    }
}

pub open spec fn sanitized_entries(
    entries: Seq<(Seq<char>, JsonView)>,
    from: Seq<char>,
    to: Seq<char>,
    i: int,
) -> Seq<(Seq<char>, JsonView)>
    decreases entries, entries.len() - i,
{
    if i < 0 || i >= entries.len() {
        Seq::empty()
    } else {
        seq![(entries[i].0, sanitized(entries[i].1, from, to))] + sanitized_entries(
            entries,
            from,
            to,
            i + 1,
        )
    }
}

/// How many occurrences of `from` the string values of `v` hold.
pub open spec fn replacement_count(v: JsonView, from: Seq<char>) -> nat
    decreases v, 0int,
{
    match v {
        JsonView::Text(s) => occurrences(s, from),
        JsonView::Array(items) => items_count(items, from, 0),
        JsonView::Object(entries) => entries_count(entries, from, 0),
        _ => 0,
    }
}

pub open spec fn items_count(items: Seq<JsonView>, from: Seq<char>, i: int) -> nat
    decreases items, items.len() - i,
{
    if i < 0 || i >= items.len() {
        0
    } else {
        replacement_count(items[i], from) + items_count(items, from, i + 1)
    }
}

pub open spec fn entries_count(entries: Seq<(Seq<char>, JsonView)>, from: Seq<char>, i: int) -> nat
    decreases entries, entries.len() - i,
{
    if i < 0 || i >= entries.len() {
        0
    } else {
        replacement_count(entries[i].1, from) + entries_count(entries, from, i + 1)
    }
}

pub open spec fn capped(n: nat) -> usize {
    if n <= usize::MAX {
        n as usize
    } else {
        usize::MAX
    }
}

proof fn lemma_sanitized_items(items: Seq<JsonView>, from: Seq<char>, to: Seq<char>, i: int)
    requires
        0 <= i <= items.len(),
    ensures
        sanitized_items(items, from, to, i).len() == items.len() - i,
        forall|k: int|
            0 <= k < items.len() - i ==> #[trigger] sanitized_items(items, from, to, i)[k]
                == sanitized(items[k + i], from, to),
    decreases items.len() - i,
{
    if i < items.len() {
        lemma_sanitized_items(items, from, to, i + 1);
        let rest = sanitized_items(items, from, to, i + 1);
        assert(sanitized_items(items, from, to, i) == seq![sanitized(items[i], from, to)] + rest);
        assert forall|k: int|
            0 <= k < items.len() - i implies #[trigger] sanitized_items(items, from, to, i)[k]
            == sanitized(items[k + i], from, to) by {
            if k > 0 {
                assert(rest[k - 1] == sanitized(items[k - 1 + (i + 1)], from, to));
            }
        }
    }
}

proof fn lemma_sanitized_entries(
    entries: Seq<(Seq<char>, JsonView)>,
    from: Seq<char>,
    to: Seq<char>,
    i: int,
)
    requires
        0 <= i <= entries.len(),
    ensures
        sanitized_entries(entries, from, to, i).len() == entries.len() - i,
        forall|k: int|
            0 <= k < entries.len() - i ==> #[trigger] sanitized_entries(entries, from, to, i)[k]
                == (entries[k + i].0, sanitized(entries[k + i].1, from, to)),
    decreases entries.len() - i,
{
    if i < entries.len() {
        lemma_sanitized_entries(entries, from, to, i + 1);
        let rest = sanitized_entries(entries, from, to, i + 1);
        assert(sanitized_entries(entries, from, to, i) == seq![
            (entries[i].0, sanitized(entries[i].1, from, to)),
        ] + rest);
        assert forall|k: int|
            0 <= k < entries.len() - i implies #[trigger] sanitized_entries(entries, from, to, i)[k]
            == (entries[k + i].0, sanitized(entries[k + i].1, from, to)) by {
            if k > 0 {
                assert(rest[k - 1] == (
                    entries[k - 1 + (i + 1)].0,
                    sanitized(entries[k - 1 + (i + 1)].1, from, to),
                ));
            }
        }
    }
}

/// The value with every string value emptied: what sanitizing may not change. Keys,
/// numbers, booleans, nulls and the nesting of arrays and objects all stay.
pub open spec fn skeleton(v: JsonView) -> JsonView
    decreases v, 0int,
{
    match v {
        JsonView::Text(_) => JsonView::Text(Seq::empty()),
        JsonView::Array(items) => JsonView::Array(skeleton_items(items, 0)),
        JsonView::Object(entries) => JsonView::Object(skeleton_entries(entries, 0)),
        _ => v,
    }
}

pub open spec fn skeleton_items(items: Seq<JsonView>, i: int) -> Seq<JsonView>
    decreases items, items.len() - i,
{
    if i < 0 || i >= items.len() {
        Seq::empty()
    } else {
        seq![skeleton(items[i])] + skeleton_items(items, i + 1)
    }
}

pub open spec fn skeleton_entries(entries: Seq<(Seq<char>, JsonView)>, i: int) -> Seq<
    (Seq<char>, JsonView),
>
    decreases entries, entries.len() - i,
{
    if i < 0 || i >= entries.len() {
        Seq::empty()
    } else {
        seq![(entries[i].0, skeleton(entries[i].1))] + skeleton_entries(entries, i + 1)
    }
}

proof fn lemma_skeleton_items(items: Seq<JsonView>, i: int)
    requires
        0 <= i <= items.len(),
    ensures
        skeleton_items(items, i).len() == items.len() - i,
        forall|k: int|
            0 <= k < items.len() - i ==> #[trigger] skeleton_items(items, i)[k] == skeleton(
                items[k + i],
            ),
    decreases items.len() - i,
{
    if i < items.len() {
        lemma_skeleton_items(items, i + 1);
        let rest = skeleton_items(items, i + 1);
        assert forall|k: int|
            0 <= k < items.len() - i implies #[trigger] skeleton_items(items, i)[k] == skeleton(
                items[k + i],
            ) by {
            if k > 0 {
                assert(rest[k - 1] == skeleton(items[k - 1 + (i + 1)]));
            }
        }
    }
}

proof fn lemma_skeleton_entries(entries: Seq<(Seq<char>, JsonView)>, i: int)
    requires
        0 <= i <= entries.len(),
    ensures
        skeleton_entries(entries, i).len() == entries.len() - i,
        forall|k: int|
            0 <= k < entries.len() - i ==> #[trigger] skeleton_entries(entries, i)[k] == (
                entries[k + i].0,
                skeleton(entries[k + i].1),
            ),
    decreases entries.len() - i,
{
    if i < entries.len() {
        lemma_skeleton_entries(entries, i + 1);
        let rest = skeleton_entries(entries, i + 1);
        assert forall|k: int|
            0 <= k < entries.len() - i implies #[trigger] skeleton_entries(entries, i)[k] == (
                entries[k + i].0,
                skeleton(entries[k + i].1),
            ) by {
            if k > 0 {
                assert(rest[k - 1] == (
                    entries[k - 1 + (i + 1)].0,
                    skeleton(entries[k - 1 + (i + 1)].1),
                ));
            }
        }
    }
}

/// Sanitizing rewrites string values only: every key, number, boolean and null, and the
/// shape of the document, come out as they went in, so recorded distances, tolerances and
/// elapsed times survive unchanged.
pub proof fn law_sanitizing_keeps_everything_but_strings(
    v: JsonView,
    from: Seq<char>,
    to: Seq<char>,
)
    ensures
        skeleton(sanitized(v, from, to)) == skeleton(v),
    decreases v,
{
    match v {
        JsonView::Array(items) => {
            let out = sanitized_items(items, from, to, 0);
            lemma_sanitized_items(items, from, to, 0);
            lemma_skeleton_items(out, 0);
            lemma_skeleton_items(items, 0);
            assert forall|k: int| 0 <= k < items.len() implies skeleton_items(out, 0)[k]
                == skeleton_items(items, 0)[k] by {
                assert(out[k] == sanitized(items[k], from, to));
                law_sanitizing_keeps_everything_but_strings(items[k], from, to);
            }
            assert(skeleton_items(out, 0) =~= skeleton_items(items, 0));
        },
        JsonView::Object(entries) => {
            let out = sanitized_entries(entries, from, to, 0);
            lemma_sanitized_entries(entries, from, to, 0);
            lemma_skeleton_entries(out, 0);
            lemma_skeleton_entries(entries, 0);
            assert forall|k: int| 0 <= k < entries.len() implies skeleton_entries(out, 0)[k]
                == skeleton_entries(entries, 0)[k] by {
                assert(out[k] == (entries[k].0, sanitized(entries[k].1, from, to)));
                law_sanitizing_keeps_everything_but_strings(entries[k].1, from, to);
            }
            assert(skeleton_entries(out, 0) =~= skeleton_entries(entries, 0));
        },
        _ => {},
    }
}

proof fn lemma_items_count_zero(items: Seq<JsonView>, from: Seq<char>, i: int)
    requires
        0 <= i <= items.len(),
        items_count(items, from, i) == 0,
    ensures
        forall|k: int| i <= k < items.len() ==> #[trigger] replacement_count(items[k], from) == 0,
    decreases items.len() - i,
{
    if i < items.len() {
        lemma_items_count_zero(items, from, i + 1);
    }
}

proof fn lemma_entries_count_zero(entries: Seq<(Seq<char>, JsonView)>, from: Seq<char>, i: int)
    requires
        0 <= i <= entries.len(),
        entries_count(entries, from, i) == 0,
    ensures
        forall|k: int|
            i <= k < entries.len() ==> #[trigger] replacement_count(entries[k].1, from) == 0,
    decreases entries.len() - i,
{
    if i < entries.len() {
        lemma_entries_count_zero(entries, from, i + 1);
    }
}

/// A document in which `from` occurs in no string value comes out exactly as it went in.
pub proof fn law_nothing_found_nothing_changed(v: JsonView, from: Seq<char>, to: Seq<char>)
    requires
        replacement_count(v, from) == 0,
    ensures
        sanitized(v, from, to) == v,
    decreases v,
{
    match v {
        JsonView::Array(items) => {
            lemma_items_count_zero(items, from, 0);
            lemma_sanitized_items(items, from, to, 0);
            assert forall|k: int| 0 <= k < items.len() implies sanitized_items(items, from, to, 0)[k]
                == items[k] by {
                assert(replacement_count(items[k], from) == 0);
                law_nothing_found_nothing_changed(items[k], from, to);
            }
            assert(sanitized_items(items, from, to, 0) =~= items);
        },
        JsonView::Object(entries) => {
            lemma_entries_count_zero(entries, from, 0);
            lemma_sanitized_entries(entries, from, to, 0);
            assert forall|k: int|
                0 <= k < entries.len() implies sanitized_entries(entries, from, to, 0)[k]
                == entries[k] by {
                assert(replacement_count(entries[k].1, from) == 0);
                law_nothing_found_nothing_changed(entries[k].1, from, to);
            }
            assert(sanitized_entries(entries, from, to, 0) =~= entries);
        },
        _ => {},
    }
}

/// Replaces every occurrence in one string value and counts them.
fn replace_text(s: &str, from: &str, to: &str) -> (r: (String, usize))
    ensures
        r.0@ == sanitized_text(s@, from@, to@),
        r.1 == capped(occurrences(s@, from@)),
{
    let v = chars_of(s);
    let p = chars_of(from);
    let n = v.len();
    let plen = p.len();
    if plen == 0 {
        let mut out = String::from_str(to);
        let mut i: usize = 0;
        proof {
            assert(s@.skip(0) =~= s@);
            let whole = replaced(s@, from@, to@);
            if s@.len() == 0 {
                assert(whole == to@);
            } else {
                assert(whole == to@ + seq![s@[0]] + replaced(s@.skip(1), from@, to@));
            }
            assert(whole.take(to@.len() as int) =~= to@);
            assert(whole =~= out@ + whole.skip(to@.len() as int));
        }
        while i < n
            invariant
                v@ == s@,
                n == v@.len(),
                p@ == from@,
                from@.len() == 0,
                i <= n,
                replaced(s@, from@, to@) == out@ + replaced(s@.skip(i as int), from@, to@)
                    .skip(to@.len() as int),
                replaced(s@.skip(i as int), from@, to@).take(to@.len() as int) == to@,
            decreases n - i,
        {
            let ghost rest = s@.skip(i as int);
            assert(rest.skip(1) =~= s@.skip(i + 1));
            assert(rest[0] == v@[i as int]);
            let piece = s.substring_char(i, i + 1);
            assert(piece@ =~= seq![rest[0]]);
            out.append(piece);
            out.append(to);
            proof {
                let tail = replaced(s@.skip(i + 1), from@, to@);
                assert(replaced(rest, from@, to@) == to@ + seq![rest[0]] + tail);
                assert(replaced(rest, from@, to@).skip(to@.len() as int) =~= seq![rest[0]] + tail);
                if s@.skip(i + 1).len() == 0 {
                    assert(tail == to@);
                } else {
                    assert(tail.take(to@.len() as int) =~= to@);
                }
                assert(tail =~= to@ + tail.skip(to@.len() as int));
            }
            i += 1;
        }
        proof {
            assert(s@.skip(n as int) =~= Seq::<char>::empty());
            assert(replaced(s@.skip(n as int), from@, to@) == to@);
            assert(to@.skip(to@.len() as int) =~= Seq::<char>::empty());
            assert(out@ + Seq::<char>::empty() =~= out@);
            assert(occurrences(s@, from@) == s@.len() + 1);
        }
        let count = n.saturating_add(1);
        return (out, count);
    }
    let mut out = String::new();
    let mut count: usize = 0;
    let mut start: usize = 0;
    let mut i: usize = 0;
    proof {
        assert(s@.skip(0) =~= s@);
        assert(out@ + s@.subrange(0, 0) =~= Seq::<char>::empty());
        assert(Seq::<char>::empty() + replaced(s@, from@, to@) =~= replaced(s@, from@, to@));
    }
    while plen <= n - i
        invariant
            v@ == s@,
            p@ == from@,
            n == v@.len(),
            plen == p@.len(),
            plen > 0,
            start <= i <= n,
            count <= i,
            replaced(s@, from@, to@) == out@ + s@.subrange(start as int, i as int) + replaced(
                s@.skip(i as int),
                from@,
                to@,
            ),
            occurrences(s@, from@) == count + occurrences(s@.skip(i as int), from@),
        decreases n - i,
    {
        let ghost rest = s@.skip(i as int);
        assert(rest.take(plen as int) =~= v@.subrange(i as int, i + plen));
        if crate::text::matches_at(&v, &p, i) {
            let piece = s.substring_char(start, i);
            out.append(piece);
            out.append(to);
            proof {
                assert(rest.skip(plen as int) =~= s@.skip(i + plen));
                assert(s@.subrange((i + plen) as int, (i + plen) as int) =~= Seq::<char>::empty());
            }
            count += 1;
            i += plen;
            start = i;
            proof {
                assert(out@ + s@.subrange(start as int, i as int) =~= out@);
            }
        } else {
            proof {
                assert(rest.skip(1) =~= s@.skip(i + 1));
                assert(rest[0] == s@[i as int]);
                assert(s@.subrange(start as int, i + 1) =~= s@.subrange(start as int, i as int).push(
                    s@[i as int],
                ));
            }
            i += 1;
        }
    }
    let piece = s.substring_char(start, n);
    out.append(piece);
    proof {
        let rest = s@.skip(i as int);
        assert(rest.len() < plen);
        assert(replaced(rest, from@, to@) == rest);
        assert(occurrences(rest, from@) == 0);
        assert(s@.subrange(start as int, i as int) + rest =~= s@.subrange(start as int, n as int));
    }
    if count > 0 {
        (out, count)
    } else {
        (String::from_str(s), 0)
    }
}

/// Replaces `from` with `to` in every string value and counts the occurrences replaced
/// (capped at `usize::MAX`). The document is otherwise unchanged.
pub fn replace_in_strings(node: &Json, from: &str, to: &str) -> (r: (Json, usize))
    ensures
        r.0@ == sanitized(node@, from@, to@),
        r.1 == capped(replacement_count(node@, from@)),
    decreases node,
{
    match node {
        Json::Text(s) => {
            let (t, c) = replace_text(s.as_str(), from, to);
            (Json::Text(t), c)
        },
        Json::Array(items) => {
            let ghost iv = items_view(items@);
            proof {
                lemma_items_view(items@);
                lemma_sanitized_items(iv, from@, to@, 0);
            }
            let mut out: Vec<Json> = Vec::new();
            let mut count: usize = 0;
            let ghost mut total: nat = 0;
            let n = items.len();
            let mut i: usize = 0;
            while i < n
                invariant
                    *node == Json::Array(*items),
                    n == items@.len(),
                    iv == items_view(items@),
                    iv.len() == n,
                    forall|k: int| 0 <= k < n ==> #[trigger] iv[k] == json_view(items@[k]),
                    i <= n,
                    items_view(out@).len() == i,
                    forall|k: int|
                        0 <= k < i ==> #[trigger] items_view(out@)[k] == sanitized(
                            iv[k],
                            from@,
                            to@,
                        ),
                    items_count(iv, from@, 0) == total + items_count(iv, from@, i as int),
                    count == capped(total),
                decreases n - i,
            {
                proof {
                    assert(decreases_to!(*node => (*node)->Array_0));
                    vstd::std_specs::vec::axiom_vec_index_decreases(*items, i as int);
                }
                let (x, c) = replace_in_strings(&items[i], from, to);
                let ghost before = out@;
                let ghost xv = x@;
                proof {
                    lemma_items_view(before);
                    lemma_items_view_push(before, x);
                }
                out.push(x);
                proof {
                    lemma_items_view(out@);
                    total = total + replacement_count(iv[i as int], from@);
                }
                count = count.saturating_add(c);
                i += 1;
            }
            proof {
                lemma_items_view(out@);
                assert(items_view(out@) =~= sanitized_items(iv, from@, to@, 0));
            }
            (Json::Array(out), count)
        },
        Json::Object(entries) => {
            let ghost ev = entries_view(entries@);
            proof {
                lemma_entries_view(entries@);
                lemma_sanitized_entries(ev, from@, to@, 0);
            }
            let mut out: Vec<(String, Json)> = Vec::new();
            let mut count: usize = 0;
            let ghost mut total: nat = 0;
            let n = entries.len();
            let mut i: usize = 0;
            while i < n
                invariant
                    *node == Json::Object(*entries),
                    n == entries@.len(),
                    ev == entries_view(entries@),
                    ev.len() == n,
                    forall|k: int|
                        0 <= k < n ==> #[trigger] ev[k] == (
                            entries@[k].0@,
                            json_view(entries@[k].1),
                        ),
                    i <= n,
                    entries_view(out@).len() == i,
                    forall|k: int|
                        0 <= k < i ==> #[trigger] entries_view(out@)[k] == (
                            ev[k].0,
                            sanitized(ev[k].1, from@, to@),
                        ),
                    entries_count(ev, from@, 0) == total + entries_count(ev, from@, i as int),
                    count == capped(total),
                decreases n - i,
            {
                proof {
                    assert(decreases_to!(*node => (*node)->Object_0));
                    vstd::std_specs::vec::axiom_vec_index_decreases(*entries, i as int);
                    assert(decreases_to!(entries[i as int] => entries[i as int].1));
                }
                let (x, c) = replace_in_strings(&entries[i].1, from, to);
                let key = entries[i].0.clone();
                let ghost before = out@;
                let ghost pair = (key, x);
                proof {
                    lemma_entries_view(before);
                    lemma_entries_view_push(before, pair);
                }
                out.push((key, x));
                proof {
                    lemma_entries_view(out@);
                    total = total + replacement_count(ev[i as int].1, from@);
                }
                count = count.saturating_add(c);
                i += 1;
            }
            proof {
                lemma_entries_view(out@);
                assert(entries_view(out@) =~= sanitized_entries(ev, from@, to@, 0));
            }
            (Json::Object(out), count)
        },
        Json::Null => (Json::Null, 0),
        Json::Bool(b) => (Json::Bool(*b), 0),
        Json::Number(x) => (Json::Number(*x), 0),
    }
}

/// The document after the first `n` replacement pairs, applied in order.
pub open spec fn sanitized_all(
    v: JsonView,
    pairs: Seq<(Seq<char>, Seq<char>)>,
    n: int,
) -> JsonView
    decreases n,
{
    if n <= 0 || n > pairs.len() {
        v
    } else {
        let before = sanitized_all(v, pairs, n - 1);
        sanitized(before, pairs[n - 1].0, pairs[n - 1].1)
    }
}

/// Sanitizes the text of a recording: `None` exactly when serde_json refuses it as JSON;
/// otherwise the document with every pair applied in order, and for each pair the number of
/// occurrences it replaced in the document as the earlier pairs left it.
pub fn sanitize_text(text: &[u8], pairs: &[(String, String)]) -> (r: Option<(Json, Vec<usize>)>)
    ensures
        match json_text_value(text@) {
            None => r is None,
            Some(v) => r matches Some((doc, counts)) && doc@ == sanitized_all(
                v,
                text_pairs_view(pairs@),
                pairs@.len() as int,
            ) && counts@.len() == pairs@.len() && forall|k: int|
                0 <= k < pairs@.len() ==> #[trigger] counts@[k] == capped(
                    replacement_count(
                        sanitized_all(v, text_pairs_view(pairs@), k),
                        pairs@[k].0@,
                    ),
                ),
        },
{
    let mut document = match parse_json(text) {
        Some(d) => d,
        None => {
            return None;
        },
    };
    let ghost v = document@;
    let ghost ps = text_pairs_view(pairs@);
    let mut counts: Vec<usize> = Vec::new();
    let n = pairs.len();
    let mut i: usize = 0;
    while i < n
        invariant
            n == pairs@.len(),
            ps == text_pairs_view(pairs@),
            i <= n,
            document@ == sanitized_all(v, ps, i as int),
            counts@.len() == i,
            forall|k: int|
                0 <= k < i ==> #[trigger] counts@[k] == capped(
                    replacement_count(sanitized_all(v, ps, k), pairs@[k].0@),
                ),
        decreases n - i,
    {
        let (next, count) = replace_in_strings(&document, pairs[i].0.as_str(), pairs[i].1.as_str());
        assert(ps[i as int] == (pairs@[i as int].0@, pairs@[i as int].1@));
        document = next;
        counts.push(count);
        i += 1;
    }
    Some((document, counts))
}

/// `Path::file_stem` of the path, as std computes it, as text.
pub uninterp spec fn path_file_stem(path: Seq<char>) -> Option<Seq<char>>;

/// `Path::with_file_name`: the path with its final component replaced by `name`, as std
/// computes it, as text.
pub uninterp spec fn path_with_file_name(path: Seq<char>, name: Seq<char>) -> Seq<char>;

/// Calls `Path::file_stem`. The path comes from a `&str`, so its stem is valid UTF-8 and
/// the text conversion is exact; the result is named by [`path_file_stem`].
#[verifier::external_body]
fn file_stem_of(path: &str) -> (r: Option<String>)
    ensures
        match r {
            Some(stem) => path_file_stem(path@) == Some(stem@),
            None => path_file_stem(path@) is None,
        },
{
    match std::path::Path::new(path).file_stem() {
        Some(stem) => Some(stem.to_string_lossy().into_owned()),
        None => None,
    }
}

/// Calls `Path::with_file_name`. Both parts come from `&str`, so the text conversion is
/// exact; the result is named by [`path_with_file_name`].
#[verifier::external_body]
fn with_file_name_of(path: &str, name: &str) -> (r: String)
    ensures
        r@ == path_with_file_name(path@, name@),
{
    std::path::Path::new(path).with_file_name(name).to_string_lossy().into_owned()
}

/// The file name a sanitized result is validated under: the output's stem, or `sanitized`
/// when it has none, followed by `.validated.json` (the loader requires `.json`).
pub open spec fn validated_name(stem: Option<Seq<char>>) -> Seq<char> {
    let base = match stem {
        Some(s) => s,
        None => "sanitized"@,
    };
    base + ".validated.json"@
}

/// See [`validated_name`].
pub fn validated_file_name(stem: Option<String>) -> (r: String)
    ensures
        r@ == validated_name(
            match stem {
                Some(s) => Some(s@),
                None => None,
            },
        ),
{
    match stem {
        Some(s) => s.concat(".validated.json"),
        None => String::from_str("sanitized").concat(".validated.json"),
    }
}

/// The sibling path the sanitized result is validated at before it replaces the output.
pub fn check_path(output: &str) -> (r: String)
    ensures
        r@ == path_with_file_name(output@, validated_name(path_file_stem(output@))),
{
    let name = validated_file_name(file_stem_of(output));
    with_file_name_of(output, name.as_str())
}

} // verus!
