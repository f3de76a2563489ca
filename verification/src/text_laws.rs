//! Laws of texts: what trimming, lowering, searching, joining and ordering give back.

use crate::text::{
    all_digits, all_white, decimal, digits_value, is_digit, joined,
    lower_char, lowered, occurs, occurs_at, signed_decimal, split_parts, text_less, trimmed,
    trimmed_end, trimmed_start, white_space, white_space_is_dropped,
};
use vstd::prelude::*;

verus! {

// ---------------------------------------------------------------------------------------------
// The case of letters
// ---------------------------------------------------------------------------------------------

/// Two characters are the same, or the same ASCII letter in the two cases.
pub open spec fn same_letter(a: char, b: char) -> bool {
    ||| a == b
    ||| 65 <= a as u32 <= 90 && b as u32 == a as u32 + 32
    ||| 65 <= b as u32 <= 90 && a as u32 == b as u32 + 32
}

/// Two texts differ in nothing but the case of ASCII letters.
pub open spec fn same_but_case(a: Seq<char>, b: Seq<char>) -> bool {
    &&& a.len() == b.len()
    &&& forall|i: int| 0 <= i < a.len() ==> same_letter(#[trigger] a[i], b[i])
}

/// Lower case forgets the case of ASCII letters, and nothing else.
pub proof fn lowering_forgets_the_case_alone(a: Seq<char>, b: Seq<char>)
    ensures
        (lowered(a) == lowered(b)) <==> same_but_case(a, b),
{
    if lowered(a) == lowered(b) {
        assert(lowered(a).len() == a.len() && lowered(b).len() == b.len());
        assert forall|i: int| 0 <= i < a.len() implies same_letter(#[trigger] a[i], b[i]) by {
            assert(lowered(a)[i] == lower_char(a[i]));
            assert(lowered(b)[i] == lower_char(b[i]));
        }
    }
    if same_but_case(a, b) {
        assert(lowered(a) =~= lowered(b));
    }
}

// ---------------------------------------------------------------------------------------------
// Texts in texts
// ---------------------------------------------------------------------------------------------

/// A text is some text, then another one in any case, then some text.
pub open spec fn splits_round(
    text: Seq<char>,
    before: Seq<char>,
    middle: Seq<char>,
    behind: Seq<char>,
    needle: Seq<char>,
) -> bool {
    text == before + middle + behind && same_but_case(middle, needle)
}

/// A text holds another one in any case.
pub open spec fn holds(text: Seq<char>, needle: Seq<char>) -> bool {
    exists|before: Seq<char>, middle: Seq<char>, behind: Seq<char>|
        splits_round(text, before, middle, behind, needle)
}

/// A text is found in another one, whatever the case, exactly if the other one is some text, the
/// text in any case, and some text.
pub proof fn finding_is_splitting(text: Seq<char>, needle: Seq<char>)
    ensures
        occurs(lowered(text), lowered(needle)) <==> holds(text, needle),
{
    if occurs(lowered(text), lowered(needle)) {
        let at = choose|at: int| occurs_at(lowered(text), lowered(needle), at);
        let end = at + needle.len();
        let middle = text.subrange(at, end);
        assert(lowered(middle) =~= lowered(text).subrange(at, end));
        lowering_forgets_the_case_alone(middle, needle);
        assert(text =~= text.take(at) + middle + text.skip(end));
        assert(splits_round(text, text.take(at), middle, text.skip(end), needle));
    }
    if holds(text, needle) {
        let (before, middle, behind) = choose|before: Seq<char>, middle: Seq<char>, behind: Seq<
            char,
        >| splits_round(text, before, middle, behind, needle);
        lowering_forgets_the_case_alone(middle, needle);
        let at = before.len() as int;
        assert(lowered(text).subrange(at, at + needle.len()) =~= lowered(middle));
        assert(occurs_at(lowered(text), lowered(needle), at));
    }
}

/// A text begins with another one, whatever the case, exactly if it is the other one in any case
/// and then some text.
pub proof fn beginning_is_splitting(text: Seq<char>, needle: Seq<char>)
    ensures
        occurs_at(lowered(text), lowered(needle), 0) <==> exists|middle: Seq<char>, behind: Seq<
            char,
        >| #[trigger] splits_round(text, Seq::empty(), middle, behind, needle),
{
    let empty = Seq::<char>::empty();
    if occurs_at(lowered(text), lowered(needle), 0) {
        let end = needle.len() as int;
        let middle = text.take(end);
        assert(lowered(middle) =~= lowered(text).subrange(0, end));
        lowering_forgets_the_case_alone(middle, needle);
        assert(text =~= empty + middle + text.skip(end));
        assert(splits_round(text, empty, middle, text.skip(end), needle));
    }
    if exists|middle: Seq<char>, behind: Seq<char>| #[trigger]
        splits_round(text, empty, middle, behind, needle) {
        let (middle, behind) = choose|middle: Seq<char>, behind: Seq<char>| #[trigger]
            splits_round(text, empty, middle, behind, needle);
        lowering_forgets_the_case_alone(middle, needle);
        assert(lowered(text).subrange(0, needle.len() as int) =~= lowered(middle));
    }
}

// ---------------------------------------------------------------------------------------------
// White space
// ---------------------------------------------------------------------------------------------

/// A text neither begins nor ends with white space.
pub open spec fn is_bare(text: Seq<char>) -> bool {
    text.len() > 0 ==> !white_space(text[0]) && !white_space(text.last())
}

/// Trimming takes off the white space at both ends, all of it and nothing else.
pub proof fn trimming_leaves_the_core(before: Seq<char>, core: Seq<char>, behind: Seq<char>)
    requires
        all_white(before),
        all_white(behind),
        is_bare(core),
    ensures
        trimmed(before + core + behind) == core,
{
    white_space_is_dropped(before, core, behind);
    let drop = |c: char| white_space(c);
    assert(trimmed_start(core, drop) == core);
    assert(trimmed_end(core, drop) == core);
}

/// A text is blank exactly if it is all white space.
pub proof fn blank_texts_are_white(text: Seq<char>)
    ensures
        (trimmed(text).len() == 0) <==> all_white(text),
{
    let empty = Seq::<char>::empty();
    if all_white(text) {
        trimming_leaves_the_core(text, empty, empty);
        assert(text + empty + empty =~= text);
    } else {
        let i = choose|i: int| 0 <= i < text.len() && !white_space(#[trigger] text[i]);
        let drop = |c: char| white_space(c);
        start_keeps(text, drop, i);
        let rest = trimmed_start(text, drop);
        let j = choose|j: int| 0 <= j < rest.len() && rest[j] == text[i];
        end_keeps(rest, drop, j);
    }
}

/// A character that is not dropped stays when the start is dropped.
proof fn start_keeps(s: Seq<char>, drop: spec_fn(char) -> bool, i: int)
    requires
        0 <= i < s.len(),
        !drop(s[i]),
    ensures
        exists|j: int|
            0 <= j < trimmed_start(s, drop).len() && #[trigger] trimmed_start(s, drop)[j] == s[i],
    decreases s.len(),
{
    if drop(s[0]) {
        assert(s.skip(1)[i - 1] == s[i]);
        start_keeps(s.skip(1), drop, i - 1);
        let rest = trimmed_start(s.skip(1), drop);
        let j = choose|j: int| 0 <= j < rest.len() && #[trigger] rest[j] == s.skip(1)[i - 1];
        assert(trimmed_start(s, drop)[j] == s[i]);
    } else {
        assert(trimmed_start(s, drop)[i] == s[i]);
    }
}

/// A character that is not dropped stays when the end is dropped.
proof fn end_keeps(s: Seq<char>, drop: spec_fn(char) -> bool, i: int)
    requires
        0 <= i < s.len(),
        !drop(s[i]),
    ensures
        trimmed_end(s, drop).len() > i,
    decreases s.len(),
{
    if drop(s.last()) {
        assert(s.drop_last()[i] == s[i]);
        end_keeps(s.drop_last(), drop, i);
    }
}

// ---------------------------------------------------------------------------------------------
// Joined texts
// ---------------------------------------------------------------------------------------------

/// One text alone is joined to itself, and two lists are joined by a separator between what each
/// is joined to.
pub proof fn joining_goes_on(a: Seq<Seq<char>>, b: Seq<Seq<char>>, separator: Seq<char>)
    requires
        a.len() > 0,
        b.len() > 0,
    ensures
        joined(a + b, separator) == joined(a, separator) + separator + joined(b, separator),
        a.len() == 1 ==> joined(a, separator) == a[0],
    decreases b.len(),
{
    assert((a + b).last() == b.last());
    assert((a + b).drop_last() =~= a + b.drop_last());
    if b.len() == 1 {
        assert(a + b.drop_last() =~= a);
    } else {
        joining_goes_on(a, b.drop_last(), separator);
        assert(joined(a + b, separator) =~= joined(a, separator) + separator + joined(
            b,
            separator,
        ));
    }
}

/// The parts of a text hold no separator, and joined by the separator they are the text.
pub proof fn parts_make_up_the_text(s: Seq<char>, separator: char)
    ensures
        split_parts(s, separator).len() > 0,
        joined(split_parts(s, separator), seq![separator]) == s,
        forall|i: int, j: int|
            0 <= i < split_parts(s, separator).len() && 0 <= j < split_parts(s, separator)[i].len()
                ==> #[trigger] split_parts(s, separator)[i][j] != separator,
    decreases s.len(),
{
    let parts = split_parts(s, separator);
    if s.len() == 0 {
        assert(joined(parts, seq![separator]) =~= s);
    } else {
        let before = split_parts(s.drop_last(), separator);
        parts_make_up_the_text(s.drop_last(), separator);
        let single = seq![separator];
        if s.last() == separator {
            assert(parts.drop_last() =~= before);
            assert(joined(parts, single) =~= s.drop_last() + single);
            assert(s.drop_last() + single =~= s);
        } else {
            assert(parts.drop_last() =~= before.drop_last());
            assert(parts.last() == before.last().push(s.last()));
            if before.len() > 1 {
                assert(joined(parts, single) =~= joined(before, single).push(s.last()));
            } else {
                assert(joined(parts, single) =~= before[0].push(s.last()));
            }
            assert(s.drop_last().push(s.last()) =~= s);
        }
        assert forall|i: int, j: int| 0 <= i < parts.len() && 0 <= j < parts[i].len() implies
            #[trigger] parts[i][j] != separator by {
            if i < before.len() - 1 || s.last() == separator && i < before.len() {
                assert(parts[i] == before[i]);
                assert(before[i][j] != separator);
            } else if s.last() != separator {
                if j < before.last().len() {
                    assert(before[before.len() - 1][j] != separator);
                }
            }
        }
    }
}

// ---------------------------------------------------------------------------------------------
// The order of texts
// ---------------------------------------------------------------------------------------------

/// One text stands before another exactly if the other one goes on where it ends, or if it has
/// the lesser code at the first position where they differ.
pub proof fn texts_are_ordered_by_their_first_difference(a: Seq<char>, b: Seq<char>, at: nat)
    requires
        at <= a.len(),
        at <= b.len(),
        a.take(at as int) == b.take(at as int),
    ensures
        at == a.len() && at < b.len() ==> text_less(a, b) && !text_less(b, a),
        at == a.len() && at == b.len() ==> !text_less(a, b),
        at < a.len() && at < b.len() && a[at as int] != b[at as int] ==> text_less(a, b) == (
        a[at as int] < b[at as int]),
    decreases at,
{
    if at == 0 {
        assert(at < a.len() && at < b.len() && a[0] != b[0] ==> text_less(a, b) == (a[0] < b[0]));
    } else {
        assert(a[0] == a.take(at as int)[0]);
        assert(b[0] == b.take(at as int)[0]);
        let rest = (at - 1) as nat;
        assert(a.skip(1).take(rest as int) =~= a.take(at as int).skip(1));
        assert(b.skip(1).take(rest as int) =~= b.take(at as int).skip(1));
        texts_are_ordered_by_their_first_difference(a.skip(1), b.skip(1), rest);
    }
}

// ---------------------------------------------------------------------------------------------
// Numbers
// ---------------------------------------------------------------------------------------------

/// The decimal notation of a number is made of digits, has no needless zero in front, and reads
/// back as the number.
pub proof fn numbers_read_back(n: nat)
    ensures
        decimal(n).len() > 0,
        all_digits(decimal(n)),
        decimal(n)[0] == '0' ==> n == 0,
        digits_value(decimal(n)) == n,
    decreases n,
{
    if n < 10 {
        reveal_with_fuel(digits_value, 2);
        assert(is_digit(decimal(n)[0]));
        assert(decimal(n).drop_last() =~= Seq::empty());
    } else {
        numbers_read_back(n / 10);
        let short = decimal(n / 10);
        assert(decimal(n).drop_last() =~= short);
        assert(is_digit(decimal(n).last()));
        assert forall|i: int| 0 <= i < decimal(n).len() implies is_digit(
            #[trigger] decimal(n)[i],
        ) by {
            if i < short.len() {
                assert(decimal(n)[i] == short[i]);
            }
        }
        assert(decimal(n)[0] == short[0]);
    }
}

/// A run of digits reads as ten times what stands before its last digit, and that digit.
pub proof fn digits_count_by_ten(digits: Seq<char>, digit: int)
    requires
        0 <= digit <= 9,
    ensures
        digits_value(Seq::empty()) == 0,
        digits_value(digits.push((0x30 + digit) as char)) == 10 * digits_value(digits) + digit,
{
    assert(digits.push((0x30 + digit) as char).drop_last() =~= digits);
}

/// A negative number has a sign before the notation of its opposite.
pub proof fn negative_numbers_have_a_sign(n: nat)
    requires
        n > 0,
    ensures
        signed_decimal(n as int) == decimal(n),
        signed_decimal(-n) == seq!['-'] + decimal(n),
{
}

} // verus!
