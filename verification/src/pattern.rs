//! Regular expressions.

use vstd::prelude::*;
use vstd::string::*;

verus! {

/// A compiled regular expression of the `regex` crate.
#[verifier::external_type_specification]
#[verifier::external_body]
pub struct ExRegex(regex::Regex);

/// A compiled regular expression together with what it was compiled from. Only `compile`
/// makes one.
#[derive(Debug)]
pub struct Pattern {
    source: String,
    ignore_case: bool,
    regex: regex::Regex,
}

/// What a regular expression was compiled from: its text, and whether it ignores case.
impl View for Pattern {
    type V = (Seq<char>, bool);

    closed spec fn view(&self) -> (Seq<char>, bool) {
        (self.source@, self.ignore_case)
    }
}

/// Whether a text is a regular expression, or why it is none.
pub uninterp spec fn compiled(source: Seq<char>, ignore_case: bool) -> Result<(), Seq<char>>;

/// Where a regular expression first matches in a text: the bytes from the first number up to
/// the second.
pub uninterp spec fn first_match(source: Seq<char>, ignore_case: bool, text: Seq<char>) -> Option<
    (usize, usize),
>;

/// What the first group of a regular expression holds where it first matches in a text.
pub uninterp spec fn first_group(source: Seq<char>, ignore_case: bool, text: Seq<char>) -> Option<
    Seq<char>,
>;

/// Whether a text is a color: `#` and six hexadecimal digits of either case.
pub open spec fn is_hex_color(text: Seq<char>) -> bool {
    &&& text.len() == 7
    &&& text[0] == '#'
    &&& forall|i: int|
        1 <= i < 7 ==> '0' <= (#[trigger] text[i]) <= '9' || 'a' <= text[i] <= 'f' || 'A'
            <= text[i] <= 'F'
}

/// `regex::RegexBuilder` with `case_insensitive`, which is `regex::Regex::new` where case
/// counts: whether a text is a regular expression, and the text of the error where it is
/// none, depends on the text and the flag alone. The colors' expression is one.
#[verifier::external_body]
pub(crate) fn compile(source: &str, ignore_case: bool) -> (res: Result<Pattern, String>)
    ensures
        match res {
            Ok(pattern) => pattern@ == (source@, ignore_case) && compiled(source@, ignore_case)
                == Ok::<(), Seq<char>>(()),
            Err(reason) => compiled(source@, ignore_case) == Err::<(), Seq<char>>(reason@),
        },
        source@ == "^#[0-9A-Fa-f]{6}$"@ && !ignore_case ==> res is Ok,
{
    let built = regex::RegexBuilder::new(source).case_insensitive(ignore_case).build();
    built.map(|regex| Pattern { source: source.to_string(), ignore_case, regex }).map_err(
        |e| e.to_string(),
    )
}

/// `regex::Regex::find`: where a match begins and ends depends on the expression and the text
/// alone, and both are boundaries of characters of the text. The colors' expression matches
/// exactly the colors.
#[verifier::external_body]
pub(crate) fn find(pattern: &Pattern, text: &str) -> (res: Option<(usize, usize)>)
    ensures
        res == first_match(pattern@.0, pattern@.1, text@),
        res matches Some((start, end)) ==> {
            &&& start <= end <= text.spec_bytes().len()
            &&& vstd::utf8::is_char_boundary(text.spec_bytes(), start as int)
            &&& vstd::utf8::is_char_boundary(text.spec_bytes(), end as int)
        },
        pattern@ == ("^#[0-9A-Fa-f]{6}$"@, false) ==> (res is Some <==> is_hex_color(text@)),
{
    pattern.regex.find(text).map(|m| (m.start(), m.end()))
}

/// `regex::Regex::captures` and `Captures::get` for the first group: what the group holds
/// depends on the expression and the text alone.
#[verifier::external_body]
pub(crate) fn capture(pattern: &Pattern, text: &str) -> (res: Option<String>)
    ensures
        match res {
            Some(group) => first_group(pattern@.0, pattern@.1, text@) == Some(group@),
            None => first_group(pattern@.0, pattern@.1, text@) is None,
        },
{
    pattern.regex.captures(text).and_then(|found| found.get(1)).map(|m| m.as_str().to_string())
}

} // verus!
