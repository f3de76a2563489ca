//! Text as sequences of characters: trimming, searching, splitting, ordering and numbers.

use vstd::prelude::*;
use vstd::string::StringExecFns;

verus! {

/// `String::push` appends one character to the end of the string.
pub assume_specification[ String::push ](s: &mut String, c: char)
    ensures
        final(s)@ == old(s)@.push(c),
;

// ---------------------------------------------------------------------------------------------
// Models
// ---------------------------------------------------------------------------------------------

/// The characters of an optional string.
pub open spec fn text_of(value: Option<String>) -> Option<Seq<char>> {
    match value {
        Some(s) => Some(s@),
        None => None,
    }
}

/// The characters of each string of a list.
pub open spec fn texts(values: Seq<String>) -> Seq<Seq<char>> {
    values.map_values(|s: String| s@)
}

/// The Unicode property White_Space.
pub open spec fn white_space(c: char) -> bool {
    let code = c as u32;
    ||| 0x9 <= code <= 0xd
    ||| code == 0x20
    ||| code == 0x85
    ||| code == 0xa0
    ||| code == 0x1680
    ||| 0x2000 <= code <= 0x200a
    ||| code == 0x2028
    ||| code == 0x2029
    ||| code == 0x202f
    ||| code == 0x205f
    ||| code == 0x3000
}

/// `s` without the longest prefix of characters that satisfy `drop`.
pub open spec fn trimmed_start(s: Seq<char>, drop: spec_fn(char) -> bool) -> Seq<char>
    decreases s.len(),
{
    if s.len() > 0 && drop(s[0]) {
        trimmed_start(s.skip(1), drop)
    } else {
        s
    }
}

/// `s` without the longest suffix of characters that satisfy `drop`.
pub open spec fn trimmed_end(s: Seq<char>, drop: spec_fn(char) -> bool) -> Seq<char>
    decreases s.len(),
{
    if s.len() > 0 && drop(s.last()) {
        trimmed_end(s.drop_last(), drop)
    } else {
        s
    }
}

/// `s` without the white space at both ends.
pub open spec fn trimmed(s: Seq<char>) -> Seq<char> {
    trimmed_end(
        trimmed_start(s, |c: char| white_space(c)),
        |c: char| white_space(c),
    )
}

/// The lower-case form of an ASCII letter; every other character is its own.
pub open spec fn lower_char(c: char) -> char {
    if 'A' <= c <= 'Z' {
        (c as u32 + 32) as char
    } else {
        c
    }
}

/// `s` with its ASCII letters in lower case.
pub open spec fn lowered(s: Seq<char>) -> Seq<char> {
    s.map_values(|c: char| lower_char(c))
}

/// The upper-case form of an ASCII letter; every other character is its own.
pub open spec fn upper_char(c: char) -> char {
    if 'a' <= c <= 'z' {
        (c as u32 - 32) as char
    } else {
        c
    }
}

/// `s` with its ASCII letters in upper case.
pub open spec fn uppered(s: Seq<char>) -> Seq<char> {
    s.map_values(|c: char| upper_char(c))
}

/// A text in upper case and one in lower case differ from the text in nothing but the case.
pub proof fn case_is_all_that_changes(s: Seq<char>)
    ensures
        lowered(uppered(s)) == lowered(s),
        lowered(lowered(s)) == lowered(s),
{
    assert(lowered(uppered(s)) =~= lowered(s));
    assert(lowered(lowered(s)) =~= lowered(s));
}

/// All characters are white space.
pub open spec fn all_white(s: Seq<char>) -> bool {
    forall|i: int| 0 <= i < s.len() ==> white_space(#[trigger] s[i])
}

/// What is dropped at the start of a text does not depend on the case.
proof fn start_takes_any_case(s: Seq<char>, drop: spec_fn(char) -> bool)
    requires
        forall|c: char| drop(#[trigger] lower_char(c)) == drop(c),
    ensures
        trimmed_start(lowered(s), drop) == lowered(trimmed_start(s, drop)),
    decreases s.len(),
{
    if s.len() > 0 {
        assert(lowered(s)[0] == lower_char(s[0]));
        assert(lowered(s).skip(1) =~= lowered(s.skip(1)));
        start_takes_any_case(s.skip(1), drop);
    }
}

/// What is dropped at the end of a text does not depend on the case.
proof fn end_takes_any_case(s: Seq<char>, drop: spec_fn(char) -> bool)
    requires
        forall|c: char| drop(#[trigger] lower_char(c)) == drop(c),
    ensures
        trimmed_end(lowered(s), drop) == lowered(trimmed_end(s, drop)),
    decreases s.len(),
{
    if s.len() > 0 {
        assert(lowered(s).last() == lower_char(s.last()));
        assert(lowered(s).drop_last() =~= lowered(s.drop_last()));
        end_takes_any_case(s.drop_last(), drop);
    }
}

/// The white space round a text does not depend on the case of its letters.
pub proof fn trimming_takes_any_case(s: Seq<char>)
    ensures
        trimmed(lowered(s)) == lowered(trimmed(s)),
{
    let drop = |c: char| white_space(c);
    start_takes_any_case(s, drop);
    end_takes_any_case(trimmed_start(s, drop), drop);
}

/// A text without its first white space begins with another character.
proof fn start_is_settled(s: Seq<char>, drop: spec_fn(char) -> bool)
    ensures
        trimmed_start(s, drop).len() > 0 ==> !drop(trimmed_start(s, drop)[0]),
    decreases s.len(),
{
    if s.len() > 0 && drop(s[0]) {
        start_is_settled(s.skip(1), drop);
    }
}

/// A text without its last white space ends in another character, and still begins as it did.
proof fn end_is_settled(s: Seq<char>, drop: spec_fn(char) -> bool)
    ensures
        trimmed_end(s, drop).len() > 0 ==> !drop(trimmed_end(s, drop).last()),
        trimmed_end(s, drop).len() > 0 ==> trimmed_end(s, drop)[0] == s[0],
    decreases s.len(),
{
    if s.len() > 0 && drop(s.last()) {
        end_is_settled(s.drop_last(), drop);
    }
}

/// A trimmed text stays as it is when it is trimmed again.
pub proof fn trimming_again_changes_nothing(s: Seq<char>)
    ensures
        trimmed(trimmed(s)) == trimmed(s),
{
    let drop = |c: char| white_space(c);
    start_is_settled(s, drop);
    end_is_settled(trimmed_start(s, drop), drop);
}

/// White space before a text is dropped.
proof fn white_start_is_dropped(before: Seq<char>, s: Seq<char>, drop: spec_fn(char) -> bool)
    requires
        forall|i: int| 0 <= i < before.len() ==> drop(#[trigger] before[i]),
    ensures
        trimmed_start(before + s, drop) == trimmed_start(s, drop),
    decreases before.len(),
{
    if before.len() == 0 {
        assert(before + s =~= s);
    } else {
        assert((before + s)[0] == before[0]);
        assert((before + s).skip(1) =~= before.skip(1) + s);
        white_start_is_dropped(before.skip(1), s, drop);
    }
}

/// White space behind a text is dropped.
proof fn white_end_is_dropped(s: Seq<char>, behind: Seq<char>, drop: spec_fn(char) -> bool)
    requires
        forall|i: int| 0 <= i < behind.len() ==> drop(#[trigger] behind[i]),
    ensures
        trimmed_end(s + behind, drop) == trimmed_end(s, drop),
    decreases behind.len(),
{
    if behind.len() == 0 {
        assert(s + behind =~= s);
    } else {
        assert((s + behind).last() == behind.last());
        assert((s + behind).drop_last() =~= s + behind.drop_last());
        white_end_is_dropped(s, behind.drop_last(), drop);
    }
}

/// White space behind a text makes no difference, though white space before it is dropped first.
proof fn white_end_makes_no_difference(
    s: Seq<char>,
    behind: Seq<char>,
    drop: spec_fn(char) -> bool,
)
    requires
        forall|i: int| 0 <= i < behind.len() ==> drop(#[trigger] behind[i]),
    ensures
        trimmed_end(trimmed_start(s + behind, drop), drop) == trimmed_end(
            trimmed_start(s, drop),
            drop,
        ),
    decreases s.len(),
{
    if s.len() == 0 {
        assert(s + behind =~= behind + s);
        white_start_is_dropped(behind, s, drop);
    } else {
        assert((s + behind)[0] == s[0]);
        if drop(s[0]) {
            assert((s + behind).skip(1) =~= s.skip(1) + behind);
            white_end_makes_no_difference(s.skip(1), behind, drop);
        } else {
            white_end_is_dropped(s, behind, drop);
        }
    }
}

/// White space round a text makes no difference once the text is trimmed.
pub proof fn white_space_is_dropped(before: Seq<char>, s: Seq<char>, behind: Seq<char>)
    requires
        all_white(before),
        all_white(behind),
    ensures
        trimmed(before + s + behind) == trimmed(s),
{
    let drop = |c: char| white_space(c);
    assert(before + s + behind =~= before + (s + behind));
    white_start_is_dropped(before, s + behind, drop);
    white_end_makes_no_difference(s, behind, drop);
}

/// `needle` stands in `haystack` at position `at`.
pub open spec fn occurs_at(haystack: Seq<char>, needle: Seq<char>, at: int) -> bool {
    &&& 0 <= at
    &&& at + needle.len() <= haystack.len()
    &&& haystack.subrange(at, at + needle.len()) == needle
}

/// `needle` stands somewhere in `haystack`.
pub open spec fn occurs(haystack: Seq<char>, needle: Seq<char>) -> bool {
    exists|at: int| occurs_at(haystack, needle, at)
}

/// The parts of `s` between the separators, with one part more than there are separators.
pub open spec fn split_parts(s: Seq<char>, separator: char) -> Seq<Seq<char>>
    decreases s.len(),
{
    if s.len() == 0 {
        seq![Seq::<char>::empty()]
    } else {
        let before = split_parts(s.drop_last(), separator);
        if s.last() == separator {
            before.push(Seq::<char>::empty())
        } else {
            before.drop_last().push(before.last().push(s.last()))
        }
    }
}

/// A text has at least one part.
proof fn split_parts_are_some(s: Seq<char>, separator: char)
    ensures
        split_parts(s, separator).len() > 0,
    decreases s.len(),
{
    if s.len() > 0 {
        split_parts_are_some(s.drop_last(), separator);
    }
}

/// The parts of two texts with a separator between them are the parts of the one and then those
/// of the other.
pub proof fn parts_of_joined_texts(a: Seq<char>, b: Seq<char>, separator: char)
    ensures
        split_parts(a + seq![separator] + b, separator) == split_parts(a, separator)
            + split_parts(b, separator),
    decreases b.len(),
{
    let whole = a + seq![separator] + b;
    if b.len() == 0 {
        assert(whole.drop_last() =~= a);
        assert(split_parts(whole, separator) =~= split_parts(a, separator) + split_parts(
            b,
            separator,
        ));
    } else {
        parts_of_joined_texts(a, b.drop_last(), separator);
        split_parts_are_some(b.drop_last(), separator);
        assert(whole.drop_last() =~= a + seq![separator] + b.drop_last());
        assert(split_parts(whole, separator) =~= split_parts(a, separator) + split_parts(
            b,
            separator,
        ));
    }
}

/// The lines of `s`, each with the line feed that ends it.
pub open spec fn line_parts(s: Seq<char>) -> Seq<Seq<char>>
    decreases s.len(),
{
    if s.len() == 0 {
        Seq::empty()
    } else {
        let before = line_parts(s.drop_last());
        if before.len() == 0 || (before.last().len() > 0 && before.last().last() == '\n') {
            before.push(seq![s.last()])
        } else {
            before.drop_last().push(before.last().push(s.last()))
        }
    }
}

/// The parts one after the other, with `separator` between them.
pub open spec fn joined(parts: Seq<Seq<char>>, separator: Seq<char>) -> Seq<char>
    decreases parts.len(),
{
    if parts.len() == 0 {
        Seq::empty()
    } else if parts.len() == 1 {
        parts[0]
    } else {
        joined(parts.drop_last(), separator) + separator + parts.last()
    }
}

/// The order of two texts by their code points.
pub open spec fn text_less(a: Seq<char>, b: Seq<char>) -> bool
    decreases a.len(),
{
    if b.len() == 0 {
        false
    } else if a.len() == 0 {
        true
    } else if a[0] == b[0] {
        text_less(a.skip(1), b.skip(1))
    } else {
        a[0] < b[0]
    }
}

/// The decimal digit of a number below ten.
pub open spec fn digit_char(digit: int) -> char {
    (48 + digit) as char
}

/// The decimal notation of a natural number.
pub open spec fn decimal(n: nat) -> Seq<char>
    decreases n,
{
    if n < 10 {
        seq![digit_char(n as int)]
    } else {
        decimal(n / 10).push(digit_char((n % 10) as int))
    }
}

/// The decimal notation of an integer.
pub open spec fn signed_decimal(n: int) -> Seq<char> {
    if n < 0 {
        seq!['-'] + decimal((-n) as nat)
    } else {
        decimal(n as nat)
    }
}

/// An ASCII decimal digit.
pub open spec fn is_digit(c: char) -> bool {
    '0' <= c <= '9'
}

/// A text of digits only.
pub open spec fn all_digits(s: Seq<char>) -> bool {
    forall|i: int| 0 <= i < s.len() ==> is_digit(#[trigger] s[i])
}

/// The number that a run of digits denotes.
pub open spec fn digits_value(digits: Seq<char>) -> nat
    decreases digits.len(),
{
    if digits.len() == 0 {
        0
    } else {
        (10 * digits_value(digits.drop_last()) + (digits.last() as u32 - 48)) as nat
    }
}

/// The 16-bit number that a text denotes: digits, after at most one plus sign.
pub open spec fn parsed_u16(s: Seq<char>) -> Option<u16> {
    let digits = if s.len() > 1 && s[0] == '+' {
        s.skip(1)
    } else {
        s
    };
    if digits.len() > 0 && all_digits(digits) && digits_value(digits) <= 65535 {
        Some(digits_value(digits) as u16)
    } else {
        None
    }
}

// ---------------------------------------------------------------------------------------------
// Characters and strings
// ---------------------------------------------------------------------------------------------

/// The characters of a string.
pub fn chars_of(s: &str) -> (chars: Vec<char>)
    ensures
        chars@ == s@,
{
    let mut chars: Vec<char> = Vec::new();
    for c in it: s.chars()
        invariant
            it.seq() == s@,
            chars@ == s@.take(it.index() as int),
    {
        chars.push(c);
    }
    chars
}

/// The string of the characters from `from` up to `to`.
pub fn string_of(chars: &Vec<char>, from: usize, to: usize) -> (s: String)
    requires
        from <= to <= chars@.len(),
    ensures
        s@ == chars@.subrange(from as int, to as int),
{
    let mut s = String::new();
    let mut i: usize = from;
    while i < to
        invariant
            from <= i <= to <= chars@.len(),
            s@ == chars@.subrange(from as int, i as int),
        decreases to - i,
    {
        s.push(chars[i]);
        i += 1;
    }
    s
}

/// A string with the characters of `s`.
pub fn copied(s: &str) -> (result: String)
    ensures
        result@ == s@,
{
    s.to_owned()
}

/// Whether two strings hold the same characters.
pub fn same_text(a: &str, b: &str) -> (same: bool)
    ensures
        same == (a@ == b@),
{
    let left = chars_of(a);
    let right = chars_of(b);
    if left.len() != right.len() {
        return false;
    }
    same_chars(&left, &right)
}

/// Whether an optional string holds exactly the characters of `b`.
pub fn is_text(a: &Option<String>, b: &str) -> (same: bool)
    ensures
        same == (text_of(*a) == Some(b@)),
{
    match a {
        Some(s) => same_text(s.as_str(), b),
        None => false,
    }
}

/// A copy of an optional string.
pub fn copied_option(value: &Option<String>) -> (result: Option<String>)
    ensures
        text_of(result) == text_of(*value),
{
    match value {
        Some(s) => Some(copied(s.as_str())),
        None => None,
    }
}

/// The string without its last character.
pub fn without_last(s: &str) -> (result: String)
    ensures
        result@ == (if s@.len() == 0 { s@ } else { s@.drop_last() }),
{
    let chars = chars_of(s);
    if chars.len() == 0 {
        return String::new();
    }
    string_of(&chars, 0, chars.len() - 1)
}

/// Whether `c` is white space.
pub fn is_white_space(c: char) -> (b: bool)
    ensures
        b == white_space(c),
{
    let code: u32 = c as u32;
    (0x9 <= code && code <= 0xd) || code == 0x20 || code == 0x85 || code == 0xa0 || code == 0x1680
        || (0x2000 <= code && code <= 0x200a) || code == 0x2028 || code == 0x2029 || code == 0x202f
        || code == 0x205f || code == 0x3000
}

/// The string without the white space at both ends.
pub fn trim(s: &str) -> (result: String)
    ensures
        result@ == trimmed(s@),
{
    let chars = chars_of(s);
    let ghost blank = |c: char| white_space(c);
    let mut from: usize = 0;
    proof {
        assert(chars@.skip(0) =~= chars@);
    }
    while from < chars.len() && is_white_space(chars[from])
        invariant
            from <= chars@.len(),
            blank == (|c: char| white_space(c)),
            trimmed_start(chars@, blank) == trimmed_start(chars@.skip(from as int), blank),
        decreases chars@.len() - from,
    {
        proof {
            assert(chars@.skip(from as int).skip(1) =~= chars@.skip(from + 1));
        }
        from += 1;
    }
    let ghost kept = chars@.skip(from as int);
    let mut to: usize = chars.len();
    proof {
        assert(chars@.subrange(from as int, to as int) =~= kept);
    }
    while from < to && is_white_space(chars[to - 1])
        invariant
            from <= to <= chars@.len(),
            blank == (|c: char| white_space(c)),
            trimmed_end(kept, blank) == trimmed_end(
                chars@.subrange(from as int, to as int),
                blank,
            ),
        decreases to,
    {
        proof {
            assert(chars@.subrange(from as int, to as int).drop_last() =~= chars@.subrange(
                from as int,
                to - 1,
            ));
        }
        to -= 1;
    }
    string_of(&chars, from, to)
}

/// Whether a string holds nothing but white space.
pub fn is_blank(s: &str) -> (b: bool)
    ensures
        b == (trimmed(s@).len() == 0),
{
    let t = trim(s);
    t.as_str().is_empty()
}

/// The string without its leading characters `c`.
pub fn trim_start_char(s: &str, c: char) -> (result: String)
    ensures
        result@ == trimmed_start(s@, |d: char| d == c),
{
    let chars = chars_of(s);
    let ghost drop = |d: char| d == c;
    let mut from: usize = 0;
    proof {
        assert(chars@.skip(0) =~= chars@);
    }
    while from < chars.len() && chars[from] == c
        invariant
            from <= chars@.len(),
            drop == (|d: char| d == c),
            trimmed_start(chars@, drop) == trimmed_start(chars@.skip(from as int), drop),
        decreases chars@.len() - from,
    {
        proof {
            assert(chars@.skip(from as int).skip(1) =~= chars@.skip(from + 1));
        }
        from += 1;
    }
    proof {
        assert(chars@.subrange(from as int, chars@.len() as int) =~= chars@.skip(from as int));
    }
    string_of(&chars, from, chars.len())
}

/// The string without its trailing characters `c`.
pub fn trim_end_char(s: &str, c: char) -> (result: String)
    ensures
        result@ == trimmed_end(s@, |d: char| d == c),
{
    let chars = chars_of(s);
    let ghost drop = |d: char| d == c;
    let mut to: usize = chars.len();
    proof {
        assert(chars@.take(to as int) =~= chars@);
    }
    while 0 < to && chars[to - 1] == c
        invariant
            to <= chars@.len(),
            drop == (|d: char| d == c),
            trimmed_end(chars@, drop) == trimmed_end(chars@.take(to as int), drop),
        decreases to,
    {
        proof {
            assert(chars@.take(to as int).drop_last() =~= chars@.take(to - 1));
        }
        to -= 1;
    }
    proof {
        assert(chars@.subrange(0, to as int) =~= chars@.take(to as int));
    }
    string_of(&chars, 0, to)
}

/// The lower-case form of an ASCII letter.
pub fn to_lower_char(c: char) -> (result: char)
    ensures
        result == lower_char(c),
{
    if 'A' <= c && c <= 'Z' {
        (c as u8 + 32) as char
    } else {
        c
    }
}

/// The characters of a string with its ASCII letters in lower case.
pub fn lower_chars(s: &str) -> (result: Vec<char>)
    ensures
        result@ == lowered(s@),
{
    let chars = chars_of(s);
    let mut result: Vec<char> = Vec::new();
    let mut i: usize = 0;
    while i < chars.len()
        invariant
            i <= chars@.len(),
            result@ == lowered(chars@).take(i as int),
        decreases chars@.len() - i,
    {
        result.push(to_lower_char(chars[i]));
        i += 1;
        proof {
            assert(result@ =~= lowered(chars@).take(i as int));
        }
    }
    proof {
        assert(lowered(chars@).take(i as int) =~= lowered(chars@));
    }
    result
}

/// Whether two strings are the same but for the case of ASCII letters.
pub fn same_ignoring_case(a: &str, b: &str) -> (same: bool)
    ensures
        same == (lowered(a@) == lowered(b@)),
{
    let left = lower_chars(a);
    let right = lower_chars(b);
    if left.len() != right.len() {
        return false;
    }
    same_chars(&left, &right)
}

/// Whether `needle` stands in `haystack` at position `at`.
pub fn starts_at(haystack: &Vec<char>, needle: &Vec<char>, at: usize) -> (b: bool)
    requires
        at <= haystack@.len(),
    ensures
        b == occurs_at(haystack@, needle@, at as int),
{
    let length: usize = haystack.len();
    if needle.len() > length - at {
        return false;
    }
    let mut i: usize = 0;
    while i < needle.len()
        invariant
            length == haystack@.len(),
            at + needle@.len() <= length,
            i <= needle@.len(),
            forall|j: int| 0 <= j < i ==> haystack@[at + j] == needle@[j],
        decreases needle@.len() - i,
    {
        if haystack[at + i] != needle[i] {
            proof {
                let part = haystack@.subrange(at as int, at + needle@.len());
                assert(part[i as int] == haystack@[at + i]);
            }
            return false;
        }
        i += 1;
    }
    proof {
        assert(haystack@.subrange(at as int, at + needle@.len()) =~= needle@);
    }
    true
}

/// Whether two lists of characters of one length are the same.
fn same_chars(a: &Vec<char>, b: &Vec<char>) -> (same: bool)
    requires
        a@.len() == b@.len(),
    ensures
        same == (a@ == b@),
{
    proof {
        assert(a@.subrange(0, b@.len() as int) =~= a@);
    }
    starts_at(a, b, 0)
}

/// The first position at which `needle` stands in `haystack`.
pub fn find_chars(haystack: &Vec<char>, needle: &Vec<char>) -> (found: Option<usize>)
    ensures
        match found {
            Some(at) => occurs_at(haystack@, needle@, at as int) && forall|j: int|
                0 <= j < at ==> !occurs_at(haystack@, needle@, j),
            None => !occurs(haystack@, needle@),
        },
{
    let mut at: usize = 0;
    while at < haystack.len()
        invariant
            at <= haystack@.len(),
            forall|j: int| 0 <= j < at ==> !occurs_at(haystack@, needle@, j),
        decreases haystack@.len() - at,
    {
        if starts_at(haystack, needle, at) {
            return Some(at);
        }
        at += 1;
    }
    if starts_at(haystack, needle, at) {
        return Some(at);
    }
    None
}

/// Whether `needle` stands in `haystack`, whatever the case of ASCII letters.
pub fn contains_ignoring_case(haystack: &str, needle: &str) -> (b: bool)
    ensures
        b == occurs(lowered(haystack@), lowered(needle@)),
{
    let haystack = lower_chars(haystack);
    let needle = lower_chars(needle);
    find_chars(&haystack, &needle).is_some()
}

/// Whether `needle` stands in `haystack`.
pub fn contains_text(haystack: &str, needle: &str) -> (b: bool)
    ensures
        b == occurs(haystack@, needle@),
{
    let haystack = chars_of(haystack);
    let needle = chars_of(needle);
    find_chars(&haystack, &needle).is_some()
}

/// Whether `s` begins with `prefix`, whatever the case of ASCII letters.
pub fn starts_ignoring_case(s: &str, prefix: &str) -> (b: bool)
    ensures
        b == occurs_at(lowered(s@), lowered(prefix@), 0),
{
    let s = lower_chars(s);
    let prefix = lower_chars(prefix);
    starts_at(&s, &prefix, 0)
}

// ---------------------------------------------------------------------------------------------
// Parts and joins
// ---------------------------------------------------------------------------------------------

/// The parts of a string between the separators.
pub fn split(s: &str, separator: char) -> (parts: Vec<String>)
    ensures
        texts(parts@) == split_parts(s@, separator),
{
    let chars = chars_of(s);
    let mut parts: Vec<String> = Vec::new();
    let mut part = String::new();
    let mut i: usize = 0;
    proof {
        assert(texts(parts@).push(part@) =~= split_parts(chars@.take(0), separator));
    }
    while i < chars.len()
        invariant
            i <= chars@.len(),
            texts(parts@).push(part@) == split_parts(chars@.take(i as int), separator),
        decreases chars@.len() - i,
    {
        let ghost before = texts(parts@).push(part@);
        let ghost upto = chars@.take(i + 1);
        proof {
            assert(upto.drop_last() =~= chars@.take(i as int));
            assert(before.drop_last() =~= texts(parts@));
        }
        if chars[i] == separator {
            let ghost earlier = texts(parts@);
            let ghost done = part@;
            parts.push(part);
            part = String::new();
            proof {
                assert(texts(parts@) =~= earlier.push(done));
            }
        } else {
            part.push(chars[i]);
        }
        i += 1;
    }
    proof {
        assert(chars@.take(i as int) =~= chars@);
    }
    let ghost earlier = texts(parts@);
    let ghost done = part@;
    parts.push(part);
    proof {
        assert(texts(parts@) =~= earlier.push(done));
    }
    parts
}

/// The lines of a string, each with the line feed that ends it.
pub fn lines(s: &str) -> (parts: Vec<String>)
    ensures
        texts(parts@) == line_parts(s@),
{
    let chars = chars_of(s);
    let mut parts: Vec<String> = Vec::new();
    let mut part = String::new();
    let mut i: usize = 0;
    proof {
        assert(texts(parts@) =~= line_parts(chars@.take(0)));
    }
    while i < chars.len()
        invariant
            i <= chars@.len(),
            part@.len() == 0 ==> texts(parts@) == line_parts(chars@.take(i as int)),
            part@.len() > 0 ==> texts(parts@).push(part@) == line_parts(chars@.take(i as int)),
            part@.len() > 0 ==> part@.last() != '\n',
            part@.len() == 0 && parts@.len() > 0 ==> parts@.last()@.len() > 0
                && parts@.last()@.last() == '\n',
        decreases chars@.len() - i,
    {
        let ghost earlier = texts(parts@);
        let ghost open = part@;
        let ghost upto = chars@.take(i + 1);
        proof {
            assert(upto.drop_last() =~= chars@.take(i as int));
            assert(earlier.push(open).drop_last() =~= earlier);
            if open.len() == 0 {
                assert(open.push(chars@[i as int]) =~= seq![chars@[i as int]]);
                if earlier.len() > 0 {
                    assert(earlier.last() == parts@.last()@);
                }
            }
        }
        part.push(chars[i]);
        proof {
            assert(line_parts(upto) == earlier.push(part@));
        }
        if chars[i] == '\n' {
            let ghost done = part@;
            parts.push(part);
            part = String::new();
            proof {
                assert(texts(parts@) =~= earlier.push(done));
            }
        }
        i += 1;
    }
    proof {
        assert(chars@.take(i as int) =~= chars@);
    }
    if !part.as_str().is_empty() {
        let ghost earlier = texts(parts@);
        let ghost done = part@;
        parts.push(part);
        proof {
            assert(texts(parts@) =~= earlier.push(done));
        }
    }
    parts
}

/// A part that is put behind others is put behind what they come to.
proof fn joined_push(parts: Seq<Seq<char>>, part: Seq<char>)
    ensures
        joined(parts.push(part), Seq::empty()) == joined(parts, Seq::empty()) + part,
{
    assert(parts.push(part).drop_last() =~= parts);
    assert(parts.push(part).last() == part);
    assert(joined(parts.push(part), Seq::empty()) =~= joined(parts, Seq::empty()) + part);
}

/// A part of a text that a line feed ends, if any does.
pub open spec fn is_line(part: Seq<char>) -> bool {
    part.len() > 0 && forall|j: int| 0 <= j < part.len() - 1 ==> part[j] != '\n'
}

/// The lines of a text hold all of it, in order. None is empty, a line feed stands only at the
/// end of a line, and every line but the last one has it.
pub proof fn lines_hold_the_whole_text(s: Seq<char>)
    ensures
        joined(line_parts(s), Seq::empty()) == s,
        forall|i: int| 0 <= i < line_parts(s).len() ==> is_line(#[trigger] line_parts(s)[i]),
        forall|i: int|
            0 <= i < line_parts(s).len() - 1 ==> (#[trigger] line_parts(s)[i]).last() == '\n',
    decreases s.len(),
{
    if s.len() > 0 {
        let inner = s.drop_last();
        let before = line_parts(inner);
        let parts = line_parts(s);
        lines_hold_the_whole_text(inner);
        assert(s =~= inner.push(s.last()));
        if before.len() == 0 || (before.last().len() > 0 && before.last().last() == '\n') {
            joined_push(before, seq![s.last()]);
            assert forall|i: int| 0 <= i < parts.len() implies is_line(#[trigger] parts[i]) by {
                if i < before.len() {
                    assert(parts[i] == before[i]);
                }
            }
            assert forall|i: int| 0 <= i < parts.len() - 1 implies (#[trigger] parts[i]).last()
                == '\n' by {
                assert(parts[i] == before[i]);
            }
        } else {
            let rest = before.drop_last();
            let last = before.last();
            assert(rest.push(last) =~= before);
            joined_push(rest, last);
            joined_push(rest, last.push(s.last()));
            assert(joined(rest, Seq::empty()) + last.push(s.last()) =~= (joined(rest, Seq::empty())
                + last).push(s.last()));
            assert(is_line(before[before.len() - 1]));
            assert forall|i: int| 0 <= i < parts.len() implies is_line(#[trigger] parts[i]) by {
                if i < rest.len() {
                    assert(parts[i] == before[i]);
                }
            }
            assert forall|i: int| 0 <= i < parts.len() - 1 implies (#[trigger] parts[i]).last()
                == '\n' by {
                assert(parts[i] == before[i]);
            }
        }
    }
}

/// The strings one after the other, with `separator` between them.
pub fn join(parts: &Vec<String>, separator: &str) -> (s: String)
    ensures
        s@ == joined(texts(parts@), separator@),
{
    let mut s = String::new();
    let mut i: usize = 0;
    while i < parts.len()
        invariant
            i <= parts@.len(),
            s@ == joined(texts(parts@).take(i as int), separator@),
        decreases parts@.len() - i,
    {
        proof {
            assert(texts(parts@).take(i + 1).drop_last() =~= texts(parts@).take(i as int));
            assert(texts(parts@).take(i + 1).last() == parts@[i as int]@);
        }
        if i > 0 {
            s.append(separator);
        }
        s.append(parts[i].as_str());
        proof {
            assert(s@ =~= joined(texts(parts@).take(i + 1), separator@));
        }
        i += 1;
    }
    proof {
        assert(texts(parts@).take(i as int) =~= texts(parts@));
    }
    s
}

/// The second string behind the first.
pub fn concat(a: &str, b: &str) -> (s: String)
    ensures
        s@ == a@ + b@,
{
    let mut s = copied(a);
    s.append(b);
    s
}

// ---------------------------------------------------------------------------------------------
// Order
// ---------------------------------------------------------------------------------------------

/// Whether `a` stands before `b` in the order by code points.
pub fn text_before(a: &str, b: &str) -> (less: bool)
    ensures
        less == text_less(a@, b@),
{
    let left = chars_of(a);
    let right = chars_of(b);
    let mut i: usize = 0;
    proof {
        assert(left@.skip(0) =~= left@);
        assert(right@.skip(0) =~= right@);
    }
    while i < left.len() && i < right.len() && left[i] == right[i]
        invariant
            i <= left@.len(),
            i <= right@.len(),
            text_less(left@, right@) == text_less(left@.skip(i as int), right@.skip(i as int)),
        decreases left@.len() - i,
    {
        proof {
            assert(left@.skip(i as int).skip(1) =~= left@.skip(i + 1));
            assert(right@.skip(i as int).skip(1) =~= right@.skip(i + 1));
        }
        i += 1;
    }
    if i >= right.len() {
        false
    } else if i >= left.len() {
        true
    } else {
        left[i] < right[i]
    }
}

/// The order by code points is strict and total: of two texts, exactly one is before the other
/// or they are the same.
pub proof fn text_order_is_total(a: Seq<char>, b: Seq<char>)
    ensures
        !text_less(a, a),
        text_less(a, b) || text_less(b, a) || a == b,
        !(text_less(a, b) && text_less(b, a)),
        a == b ==> !text_less(a, b),
    decreases a.len(),
{
    if a.len() > 0 {
        text_order_is_total(a.skip(1), a.skip(1));
        if b.len() > 0 && a[0] == b[0] {
            text_order_is_total(a.skip(1), b.skip(1));
            if a.skip(1) == b.skip(1) {
                assert(a =~= seq![a[0]] + a.skip(1));
                assert(b =~= seq![b[0]] + b.skip(1));
            }
        }
    } else if b.len() == 0 {
        assert(a =~= b);
    }
}

/// The order by code points is transitive.
pub proof fn text_order_is_transitive(a: Seq<char>, b: Seq<char>, c: Seq<char>)
    requires
        text_less(a, b),
        text_less(b, c),
    ensures
        text_less(a, c),
    decreases a.len(),
{
    if a.len() > 0 && b.len() > 0 && c.len() > 0 && a[0] == b[0] && b[0] == c[0] {
        text_order_is_transitive(a.skip(1), b.skip(1), c.skip(1));
    }
}

// ---------------------------------------------------------------------------------------------
// Numbers
// ---------------------------------------------------------------------------------------------

/// The decimal notation of a number.
pub fn decimal_u64(n: u64) -> (s: String)
    ensures
        s@ == decimal(n as nat),
    decreases n,
{
    if n < 10 {
        let mut s = String::new();
        s.push((48 + n as u8) as char);
        proof {
            assert(s@ =~= decimal(n as nat));
        }
        s
    } else {
        let mut s = decimal_u64(n / 10);
        s.push((48 + (n % 10) as u8) as char);
        s
    }
}

/// The decimal notation of a size.
pub fn decimal_usize(n: usize) -> (s: String)
    ensures
        s@ == decimal(n as nat),
{
    decimal_u64(n as u64)
}

/// The decimal notation of a signed number.
pub fn decimal_i64(n: i64) -> (s: String)
    ensures
        s@ == signed_decimal(n as int),
{
    if n < 0 {
        let mut s = String::new();
        s.push('-');
        let magnitude: u64 = (-(n + 1)) as u64 + 1;
        let digits = decimal_u64(magnitude);
        s.append(digits.as_str());
        proof {
            assert(s@ =~= signed_decimal(n as int));
        }
        s
    } else {
        decimal_u64(n as u64)
    }
}

/// The 16-bit number that a string denotes.
pub fn parse_u16(s: &str) -> (result: Option<u16>)
    ensures
        result == parsed_u16(s@),
{
    let chars = chars_of(s);
    let from: usize = if chars.len() > 1 && chars[0] == '+' { 1 } else { 0 };
    let ghost digits = chars@.skip(from as int);
    proof {
        assert(from == 0 ==> digits =~= chars@);
    }
    if from == chars.len() {
        return None;
    }
    let mut value: u32 = 0;
    let mut over: bool = false;
    let mut i: usize = from;
    while i < chars.len()
        invariant
            from <= i <= chars@.len(),
            chars@ == s@,
            from == (if s@.len() > 1 && s@[0] == '+' { 1int } else { 0 }),
            digits == chars@.skip(from as int),
            from == 0 ==> digits == s@,
            forall|j: int| 0 <= j < i - from ==> is_digit(#[trigger] digits[j]),
            value <= 65535,
            over ==> digits_value(digits.take(i - from)) > 65535,
            !over ==> value == digits_value(digits.take(i - from)),
        decreases chars@.len() - i,
    {
        let c = chars[i];
        proof {
            assert(digits[i - from] == c);
            assert(digits.take(i + 1 - from).drop_last() =~= digits.take(i - from));
            assert(digits.take(i + 1 - from).last() == c);
        }
        if !('0' <= c && c <= '9') {
            proof {
                assert(!is_digit(digits[i - from]));
                assert(from == 1 ==> digits == s@.skip(1));
            }
            return None;
        }
        if !over {
            let next: u32 = value * 10 + (c as u32 - 48);
            if next > 65535 {
                over = true;
            } else {
                value = next;
            }
        }
        i += 1;
    }
    proof {
        assert(digits.take(i - from) =~= digits);
    }
    if over {
        None
    } else {
        Some(value as u16)
    }
}

} // verus!
