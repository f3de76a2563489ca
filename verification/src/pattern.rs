//! Regular expressions: the log filter and the timestamp in front of a log line.

use crate::text::{is_digit, white_space};
use vstd::prelude::*;

verus! {

/// The message of the error that a pattern gives where it is no regular expression.
pub uninterp spec fn regex_error(pattern: Seq<char>) -> Option<Seq<char>>;

/// Whether a regular expression matches somewhere in a text.
pub uninterp spec fn regex_matches(pattern: Seq<char>, text: Seq<char>) -> bool;

/// What two named groups of a regular expression capture at its first match in a text.
pub uninterp spec fn regex_groups(
    pattern: Seq<char>,
    first: Seq<char>,
    second: Seq<char>,
    text: Seq<char>,
) -> Option<(Seq<char>, Seq<char>)>;

/// The pattern of a log line that begins with a timestamp.
pub const TIMESTAMP_PATTERN: &'static str = r"^(?P<ts>\d{4}-\d{2}-\d{2}T[^\s]+)\s(?P<msg>.*)$";

/// `regex::Regex::new` compiles a pattern, or gives an error; which of the two, and the text of
/// the error, depend on the pattern alone. The function that is handed out calls
/// `regex::Regex::is_match`, which says for every text whether the pattern matches in it, and
/// depends on the pattern and the text alone.
#[verifier::external_body]
pub(crate) fn compile(pattern: &str) -> (result: Result<impl Fn(&str) -> bool, String>)
    ensures
        match result {
            Ok(matches) => {
                &&& regex_error(pattern@) is None
                &&& forall|text: &str| #[trigger] matches.requires((text,))
                &&& forall|text: &str, found: bool| #[trigger]
                    matches.ensures((text,), found) ==> found == regex_matches(pattern@, text@)
            },
            Err(message) => regex_error(pattern@) == Some(message@),
        },
{
    match regex::Regex::new(pattern) {
        Ok(regex) => Ok(move |text: &str| regex.is_match(text)),
        Err(error) => Err(error.to_string()),
    }
}

/// The characters of two optional strings.
pub open spec fn pair_of(pair: Option<(String, String)>) -> Option<(Seq<char>, Seq<char>)> {
    match pair {
        Some((a, b)) => Some((a@, b@)),
        None => None,
    }
}

/// The position of the first white space of a text, or its length.
pub open spec fn first_blank(text: Seq<char>) -> nat
    decreases text.len(),
{
    if text.len() == 0 || white_space(text[0]) {
        0
    } else {
        1 + first_blank(text.skip(1))
    }
}

/// The positions of the digits of a date.
pub open spec fn date_digit(i: int) -> bool {
    0 <= i < 4 || 5 <= i < 7 || 8 <= i < 10
}

/// A date, a `T`, something more, white space, and a rest without a line feed. Whether the date
/// is made of digits is not said.
pub open spec fn stamp_shape(text: Seq<char>) -> bool {
    let end = first_blank(text) as int;
    &&& 12 <= end < text.len()
    &&& text[4] == '-'
    &&& text[7] == '-'
    &&& text[10] == 'T'
    &&& forall|i: int| end < i < text.len() ==> text[i] != '\n'
}

/// The digits of the date are ASCII digits.
pub open spec fn plain_date(text: Seq<char>) -> bool {
    forall|i: int| date_digit(i) && i < text.len() ==> is_digit(#[trigger] text[i])
}

/// Where the date has no digit, there is a character beyond ASCII.
pub open spec fn odd_date(text: Seq<char>) -> bool {
    forall|i: int|
        date_digit(i) && i < text.len() ==> is_digit(#[trigger] text[i]) || text[i] > '\u{7f}'
}

/// `regex::Regex::captures` finds the first match of a pattern and what its groups hold; a
/// pattern that does not compile, a text without a match and a group that takes no part give
/// nothing. The result depends on the arguments alone. Of the timestamp pattern it is said
/// further when it matches and what its groups hold; left open is only which characters beyond
/// ASCII it takes for digits.
#[verifier::external_body]
pub(crate) fn capture(pattern: &str, first: &str, second: &str, text: &str) -> (groups: Option<
    (String, String),
>)
    ensures
        pair_of(groups) == regex_groups(pattern@, first@, second@, text@),
        pattern@ == TIMESTAMP_PATTERN@ && first@ == "ts"@ && second@ == "msg"@ ==> match groups {
            Some((ts, msg)) => {
                &&& stamp_shape(text@)
                &&& odd_date(text@)
                &&& ts@ == text@.take(first_blank(text@) as int)
                &&& msg@ == text@.skip(first_blank(text@) as int + 1)
            },
            None => !(stamp_shape(text@) && plain_date(text@)),
        },
{
    let regex = regex::Regex::new(pattern).ok()?;
    let captures = regex.captures(text)?;
    let head = captures.name(first)?.as_str().to_string();
    let tail = captures.name(second)?.as_str().to_string();
    Some((head, tail))
}

} // verus!
