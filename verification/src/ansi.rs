//! Terminal escape sequences in log text: removing them, reading their colours, and wrapping
//! coloured text to a width.

use crate::text::{
    chars_of, digits_value, parse_u16, parsed_u16, parts_of_joined_texts, split, split_parts,
    string_of, texts,
};
use vstd::prelude::*;
use vstd::string::StringExecFns;

verus! {

/// A terminal colour.
#[derive(Clone, Copy, Debug, PartialEq, Eq, Structural)]
pub enum Color {
    Reset,
    Black,
    Red,
    Green,
    Yellow,
    Blue,
    Magenta,
    Cyan,
    Gray,
    DarkGray,
    LightRed,
    LightGreen,
    LightYellow,
    LightBlue,
    LightMagenta,
    LightCyan,
    White,
    Indexed(u8),
    Rgb(u8, u8, u8),
}

/// The text attributes that a terminal can add to a colour.
#[derive(Clone, Copy, Debug, PartialEq, Eq, Structural)]
pub struct Modifiers {
    pub bold: bool,
    pub dim: bool,
    pub italic: bool,
    pub underlined: bool,
    pub slow_blink: bool,
    pub rapid_blink: bool,
    pub reversed: bool,
    pub hidden: bool,
    pub crossed_out: bool,
}

/// Colours and attributes of a piece of text. A colour that is absent is the terminal's own.
#[derive(Clone, Copy, Debug, PartialEq, Eq, Structural)]
pub struct Style {
    pub fg: Option<Color>,
    pub bg: Option<Color>,
    pub modifiers: Modifiers,
}

/// A piece of text in one style.
#[derive(Clone, Debug)]
pub struct StyledChunk {
    pub text: String,
    pub style: Style,
}

/// The style of text before any escape sequence.
pub open spec fn plain_style() -> Style {
    Style {
        fg: None,
        bg: None,
        modifiers: Modifiers {
            bold: false,
            dim: false,
            italic: false,
            underlined: false,
            slow_blink: false,
            rapid_blink: false,
            reversed: false,
            hidden: false,
            crossed_out: false,
        },
    }
}

impl Default for Style {
    fn default() -> (style: Self)
        ensures
            style == plain_style(),
    {
        Style {
            fg: None,
            bg: None,
            modifiers: Modifiers {
                bold: false,
                dim: false,
                italic: false,
                underlined: false,
                slow_blink: false,
                rapid_blink: false,
                reversed: false,
                hidden: false,
                crossed_out: false,
            },
        }
    }
}

// ---------------------------------------------------------------------------------------------
// The shape of escape sequences
// ---------------------------------------------------------------------------------------------

/// The character that starts every escape sequence.
pub const ESCAPE: char = '\u{1b}';

/// A character that ends a control sequence.
pub open spec fn is_final(c: char) -> bool {
    '\u{40}' <= c <= '\u{7e}'
}

/// How many characters of `s` a control sequence takes: those up to its final character, or all.
pub open spec fn control_length(s: Seq<char>) -> nat
    decreases s.len(),
{
    if s.len() == 0 {
        0
    } else if is_final(s[0]) {
        1
    } else {
        1 + control_length(s.skip(1))
    }
}

/// How many characters of `s` an operating system command takes: those up to a bell or to an
/// escape with a backslash, or all. `last` is the character before `s`.
pub open spec fn command_length(s: Seq<char>, last: char) -> nat
    decreases s.len(),
{
    if s.len() == 0 {
        0
    } else if s[0] == '\u{7}' || (last == ESCAPE && s[0] == '\\') {
        1
    } else {
        1 + command_length(s.skip(1), s[0])
    }
}

/// How many characters behind an escape character belong to its sequence.
pub open spec fn sequence_length(s: Seq<char>) -> nat {
    if s.len() == 0 {
        0
    } else if s[0] == '[' {
        1 + control_length(s.skip(1))
    } else if s[0] == ']' {
        1 + command_length(s.skip(1), ']')
    } else {
        1
    }
}

/// A control sequence is no longer than the text that holds it.
pub proof fn control_fits(s: Seq<char>)
    ensures
        control_length(s) <= s.len(),
    decreases s.len(),
{
    if s.len() > 0 {
        control_fits(s.skip(1));
    }
}

/// An operating system command is no longer than the text that holds it.
pub proof fn command_fits(s: Seq<char>, last: char)
    ensures
        command_length(s, last) <= s.len(),
    decreases s.len(),
{
    if s.len() > 0 {
        command_fits(s.skip(1), s[0]);
    }
}

/// An escape sequence is no longer than the text that holds it.
pub proof fn sequence_fits(s: Seq<char>)
    ensures
        sequence_length(s) <= s.len(),
{
    if s.len() > 0 {
        control_fits(s.skip(1));
        command_fits(s.skip(1), ']');
    }
}

/// The text without its escape sequences.
pub open spec fn stripped(text: Seq<char>) -> Seq<char>
    decreases text.len(),
{
    if text.len() == 0 {
        Seq::empty()
    } else if text[0] == ESCAPE {
        proof {
            sequence_fits(text.skip(1));
        }
        stripped(text.skip(1).skip(sequence_length(text.skip(1)) as int))
    } else {
        seq![text[0]] + stripped(text.skip(1))
    }
}

// ---------------------------------------------------------------------------------------------
// The meaning of the colour sequences
// ---------------------------------------------------------------------------------------------

/// The colour of a code from 0 to 7, normal or bright.
pub open spec fn palette(code: int, bright: bool) -> Color {
    if bright {
        if code == 0 { Color::DarkGray
        } else if code == 1 { Color::LightRed
        } else if code == 2 { Color::LightGreen
        } else if code == 3 { Color::LightYellow
        } else if code == 4 { Color::LightBlue
        } else if code == 5 { Color::LightMagenta
        } else if code == 6 { Color::LightCyan
        } else if code == 7 { Color::White
        } else { Color::Reset }
    } else {
        if code == 0 { Color::Black
        } else if code == 1 { Color::Red
        } else if code == 2 { Color::Green
        } else if code == 3 { Color::Yellow
        } else if code == 4 { Color::Blue
        } else if code == 5 { Color::Magenta
        } else if code == 6 { Color::Cyan
        } else if code == 7 { Color::Gray
        } else { Color::Reset }
    }
}

/// The colour behind a code 38 or 48, with the number of codes that it takes.
pub open spec fn extended(codes: Seq<u16>) -> Option<(Color, nat)> {
    if codes.len() >= 2 && codes[0] == 5 {
        Some((Color::Indexed((codes[1] % 256) as u8), 2nat))
    } else if codes.len() >= 4 && codes[0] == 2 {
        Some(
            (
                Color::Rgb(
                    (codes[1] % 256) as u8,
                    (codes[2] % 256) as u8,
                    (codes[3] % 256) as u8,
                ),
                4nat,
            ),
        )
    } else {
        None
    }
}

/// The style after one code that stands alone.
pub open spec fn after_code(style: Style, code: u16) -> Style {
    let m = style.modifiers;
    if code == 0 {
        plain_style()
    } else if code == 1 {
        Style { modifiers: Modifiers { bold: true, ..m }, ..style }
    } else if code == 2 {
        Style { modifiers: Modifiers { dim: true, ..m }, ..style }
    } else if code == 3 {
        Style { modifiers: Modifiers { italic: true, ..m }, ..style }
    } else if code == 4 {
        Style { modifiers: Modifiers { underlined: true, ..m }, ..style }
    } else if code == 5 {
        Style { modifiers: Modifiers { slow_blink: true, ..m }, ..style }
    } else if code == 6 {
        Style { modifiers: Modifiers { rapid_blink: true, ..m }, ..style }
    } else if code == 7 {
        Style { modifiers: Modifiers { reversed: true, ..m }, ..style }
    } else if code == 8 {
        Style { modifiers: Modifiers { hidden: true, ..m }, ..style }
    } else if code == 9 {
        Style { modifiers: Modifiers { crossed_out: true, ..m }, ..style }
    } else if code == 21 || code == 22 {
        Style { modifiers: Modifiers { bold: false, dim: false, ..m }, ..style }
    } else if code == 23 {
        Style { modifiers: Modifiers { italic: false, ..m }, ..style }
    } else if code == 24 {
        Style { modifiers: Modifiers { underlined: false, ..m }, ..style }
    } else if code == 25 {
        Style { modifiers: Modifiers { slow_blink: false, rapid_blink: false, ..m }, ..style }
    } else if code == 27 {
        Style { modifiers: Modifiers { reversed: false, ..m }, ..style }
    } else if code == 28 {
        Style { modifiers: Modifiers { hidden: false, ..m }, ..style }
    } else if code == 29 {
        Style { modifiers: Modifiers { crossed_out: false, ..m }, ..style }
    } else if 30 <= code <= 37 {
        Style { fg: Some(palette(code - 30, false)), ..style }
    } else if code == 39 {
        Style { fg: None, ..style }
    } else if 40 <= code <= 47 {
        Style { bg: Some(palette(code - 40, false)), ..style }
    } else if code == 49 {
        Style { bg: None, ..style }
    } else if 90 <= code <= 97 {
        Style { fg: Some(palette(code - 90, true)), ..style }
    } else if 100 <= code <= 107 {
        Style { bg: Some(palette(code - 100, true)), ..style }
    } else {
        style
    }
}

/// The style after a list of codes.
pub open spec fn after_codes(style: Style, codes: Seq<u16>) -> Style
    decreases codes.len(),
{
    if codes.len() == 0 {
        style
    } else if codes[0] == 38 || codes[0] == 48 {
        match extended(codes.skip(1)) {
            Some((color, taken)) => after_codes(
                if codes[0] == 38 {
                    Style { fg: Some(color), ..style }
                } else {
                    Style { bg: Some(color), ..style }
                },
                codes.skip(1).skip(taken as int),
            ),
            None => after_codes(style, codes.skip(1)),
        }
    } else {
        after_codes(after_code(style, codes[0]), codes.skip(1))
    }
}

/// The number of one part of a colour sequence; a part that is no number counts as zero.
pub open spec fn code_of(part: Seq<char>) -> u16 {
    match parsed_u16(part) {
        Some(code) => code,
        None => 0,
    }
}

/// The codes of a colour sequence, given what stands between its bracket and its final letter.
pub open spec fn codes_of(parameters: Seq<char>) -> Seq<u16> {
    if parameters.len() == 0 {
        seq![0u16]
    } else {
        split_parts(parameters, ';').map_values(|part: Seq<char>| code_of(part))
    }
}

/// The style after an escape sequence, given without its escape character. Only a control
/// sequence that ends in `m` changes the style.
pub open spec fn after_sequence(style: Style, sequence: Seq<char>) -> Style {
    if sequence.len() >= 2 && sequence[0] == '[' && sequence.last() == 'm' {
        after_codes(style, codes_of(sequence.subrange(1, sequence.len() - 1)))
    } else {
        style
    }
}

/// A colour sequence without its escape character, given what stands between its bracket and its
/// final letter.
pub open spec fn color_sequence(parameters: Seq<char>) -> Seq<char> {
    seq!['['] + parameters + seq!['m']
}

/// No code begins a colour that takes further codes.
pub open spec fn stand_alone(codes: Seq<u16>) -> bool {
    forall|i: int| 0 <= i < codes.len() ==> #[trigger] codes[i] != 38 && codes[i] != 48
}

/// Codes that stand alone act before those behind them.
proof fn codes_act_in_turn(style: Style, first: Seq<u16>, second: Seq<u16>)
    requires
        stand_alone(first),
    ensures
        after_codes(style, first + second) == after_codes(after_codes(style, first), second),
    decreases first.len(),
{
    if first.len() == 0 {
        assert(first + second =~= second);
    } else {
        assert((first + second)[0] == first[0]);
        assert((first + second).skip(1) =~= first.skip(1) + second);
        codes_act_in_turn(after_code(style, first[0]), first.skip(1), second);
    }
}

/// The codes of two lists of parameters with a semicolon between them are those of the one and
/// then those of the other.
pub proof fn codes_of_joined_parameters(first: Seq<char>, second: Seq<char>)
    ensures
        codes_of(first + seq![';'] + second) == codes_of(first) + codes_of(second),
{
    parts_of_joined_texts(first, second, ';');
    let empty = Seq::<char>::empty();
    assert(split_parts(empty, ';') =~= seq![empty]);
    if first.len() == 0 {
        assert(first =~= empty);
    }
    if second.len() == 0 {
        assert(second =~= empty);
    }
    assert(codes_of(first + seq![';'] + second) =~= codes_of(first) + codes_of(second));
}

/// One colour sequence with two lists of codes does what two sequences with one list each do, one
/// after the other, unless a code of the first list begins a colour that takes further codes.
pub proof fn sequences_can_be_joined(style: Style, first: Seq<char>, second: Seq<char>)
    requires
        stand_alone(codes_of(first)),
    ensures
        after_sequence(style, color_sequence(first + seq![';'] + second)) == after_sequence(
            after_sequence(style, color_sequence(first)),
            color_sequence(second),
        ),
{
    let both = first + seq![';'] + second;
    codes_of_joined_parameters(first, second);
    codes_act_in_turn(style, codes_of(first), codes_of(second));
    assert(color_sequence(both).subrange(1, color_sequence(both).len() - 1) =~= both);
    assert(color_sequence(first).subrange(1, color_sequence(first).len() - 1) =~= first);
    assert(color_sequence(second).subrange(1, color_sequence(second).len() - 1) =~= second);
}

/// A colour sequence without codes, and one with the code zero, both give the default style.
pub proof fn an_empty_sequence_resets(style: Style)
    ensures
        after_sequence(style, color_sequence(Seq::empty())) == plain_style(),
        after_sequence(style, color_sequence(seq!['0'])) == plain_style(),
{
    let none = color_sequence(Seq::empty());
    let zero = color_sequence(seq!['0']);
    reveal_with_fuel(after_codes, 2);
    reveal_with_fuel(split_parts, 2);
    assert(none.subrange(1, none.len() - 1) =~= Seq::<char>::empty());
    assert(zero.subrange(1, zero.len() - 1) =~= seq!['0']);
    assert(split_parts(seq!['0'], ';') =~= seq![seq!['0']]) by {
        assert(seq!['0'].drop_last() =~= Seq::<char>::empty());
        assert(Seq::<char>::empty().push('0') =~= seq!['0']);
    }
    assert(codes_of(seq!['0']) =~= seq![0u16]) by {
        reveal_with_fuel(digits_value, 2);
    }
}

/// A sequence that does not begin with a bracket, or does not end in `m`, leaves the style as it
/// is.
pub proof fn other_sequences_keep_the_style(style: Style, sequence: Seq<char>)
    requires
        sequence.len() == 0 || sequence[0] != '[' || sequence.last() != 'm',
    ensures
        after_sequence(style, sequence) == style,
{
}

/// The visible characters of a text, each with the style that its escape sequences give it.
pub open spec fn styled(text: Seq<char>, style: Style) -> Seq<(char, Style)>
    decreases text.len(),
{
    if text.len() == 0 {
        Seq::empty()
    } else if text[0] == ESCAPE {
        let rest = text.skip(1);
        let taken = sequence_length(rest) as int;
        proof {
            sequence_fits(rest);
        }
        styled(rest.skip(taken), after_sequence(style, rest.take(taken)))
    } else {
        seq![(text[0], style)] + styled(text.skip(1), style)
    }
}

// ---------------------------------------------------------------------------------------------
// Chunks
// ---------------------------------------------------------------------------------------------

/// The characters of a text, all in one style.
pub open spec fn in_style(text: Seq<char>, style: Style) -> Seq<(char, Style)> {
    text.map_values(|c: char| (c, style))
}

/// The styled characters of a list of chunks.
pub open spec fn flat(chunks: Seq<StyledChunk>) -> Seq<(char, Style)>
    decreases chunks.len(),
{
    if chunks.len() == 0 {
        Seq::empty()
    } else {
        flat(chunks.drop_last()) + in_style(chunks.last().text@, chunks.last().style)
    }
}

/// The characters alone.
pub open spec fn chars_only(cells: Seq<(char, Style)>) -> Seq<char> {
    cells.map_values(|cell: (char, Style)| cell.0)
}

/// No chunk is empty, and two neighbours differ in style: the chunks are as long as can be.
pub open spec fn canonical(chunks: Seq<StyledChunk>) -> bool {
    &&& forall|i: int| 0 <= i < chunks.len() ==> (#[trigger] chunks[i]).text@.len() > 0
    &&& forall|i: int, j: int|
        0 <= i && j == i + 1 && j < chunks.len() ==> (#[trigger] chunks[i]).style
            != (#[trigger] chunks[j]).style
}

/// Puts a styled character behind a list of chunks.
fn push_char(chunks: &mut Vec<StyledChunk>, style: Style, c: char)
    requires
        canonical(old(chunks)@),
    ensures
        canonical(final(chunks)@),
        flat(final(chunks)@) == flat(old(chunks)@).push((c, style)),
{
    let ghost before = chunks@;
    if chunks.len() > 0 && chunks[chunks.len() - 1].style == style {
        match chunks.pop() {
            Some(last) => {
                let ghost was = last.text@;
                let mut text = last.text;
                text.push(c);
                chunks.push(StyledChunk { text, style });
                proof {
                    assert(chunks@.drop_last() =~= before.drop_last());
                    assert(in_style(was.push(c), style) =~= in_style(was, style).push((c, style)));
                    assert(flat(chunks@) =~= flat(before).push((c, style)));
                }
            },
            None => {},
        }
    } else {
        let mut text = String::new();
        text.push(c);
        let ghost one = text@;
        chunks.push(StyledChunk { text, style });
        proof {
            assert(chunks@.drop_last() =~= before);
            assert(in_style(one, style) =~= seq![(c, style)]);
            assert(flat(chunks@) =~= flat(before).push((c, style)));
        }
    }
}

/// Two lists of chunks that are as long as can be and hold the same styled characters are the
/// same, chunk by chunk.
pub proof fn chunks_are_determined(a: Seq<StyledChunk>, b: Seq<StyledChunk>)
    requires
        canonical(a),
        canonical(b),
        flat(a) == flat(b),
    ensures
        a.len() == b.len(),
        forall|i: int|
            0 <= i < a.len() ==> (#[trigger] a[i]).style == b[i].style && a[i].text@ == b[i].text@,
    decreases a.len(),
{
    if a.len() > 0 {
        let last = in_style(a.last().text@, a.last().style);
        assert(flat(a).len() > 0);
    }
    if b.len() > 0 {
        let last = in_style(b.last().text@, b.last().style);
        assert(flat(b).len() > 0);
    }
    if a.len() > 0 && b.len() > 0 {
        let ca = a.last();
        let cb = b.last();
        let fa = flat(a.drop_last());
        let fb = flat(b.drop_last());
        let cells = flat(a);
        assert(cells.last() == in_style(ca.text@, ca.style).last());
        assert(cells.last() == in_style(cb.text@, cb.style).last());
        assert(ca.style == cb.style);
        last_chunk_is_long(a, b);
        last_chunk_is_long(b, a);
        assert(fa =~= cells.take(fa.len() as int));
        assert(fb =~= cells.take(fb.len() as int));
        assert(ca.text@ =~= cb.text@) by {
            assert forall|i: int| 0 <= i < ca.text@.len() implies ca.text@[i] == cb.text@[i] by {
                assert(cells[fa.len() + i] == in_style(ca.text@, ca.style)[i]);
                assert(cells[fb.len() + i] == in_style(cb.text@, cb.style)[i]);
            }
        }
        chunks_are_determined(a.drop_last(), b.drop_last());
        assert forall|i: int| 0 <= i < a.len() implies (#[trigger] a[i]).style == b[i].style
            && a[i].text@ == b[i].text@ by {
            if i < a.len() - 1 {
                assert(a.drop_last()[i] == a[i]);
                assert(b.drop_last()[i] == b[i]);
            }
        }
    }
}

/// The last chunk cannot be shorter than the last run of one style.
proof fn last_chunk_is_long(a: Seq<StyledChunk>, b: Seq<StyledChunk>)
    requires
        canonical(a),
        a.len() > 0,
        b.len() > 0,
        flat(a) == flat(b),
        a.last().style == b.last().style,
    ensures
        a.last().text@.len() >= b.last().text@.len(),
{
    if a.last().text@.len() < b.last().text@.len() {
        let cells = flat(a);
        let fa = flat(a.drop_last());
        let fb = flat(b.drop_last());
        assert(flat(a) == fa + in_style(a.last().text@, a.last().style));
        assert(flat(b) == fb + in_style(b.last().text@, b.last().style));
        assert(fb.len() < fa.len());
        let at = fa.len() - 1;
        assert(cells[at] == in_style(b.last().text@, b.last().style)[at - fb.len()]);
        assert(cells[at].1 == b.last().style);
        let inner = a.drop_last();
        assert(inner.len() > 0);
        assert(inner.last() == a[a.len() - 2]);
        assert(fa.last() == in_style(inner.last().text@, inner.last().style).last());
        assert(cells[at] == fa.last());
        assert(a[a.len() - 2].style != a[a.len() - 1].style);
    }
}

// ---------------------------------------------------------------------------------------------
// Reading escape sequences
// ---------------------------------------------------------------------------------------------

/// The position behind an escape sequence whose first character behind the escape is at `from`.
pub fn read_escape_sequence(chars: &Vec<char>, from: usize) -> (end: usize)
    requires
        from <= chars@.len(),
    ensures
        end == from + sequence_length(chars@.skip(from as int)),
        from <= end <= chars@.len(),
        from < chars@.len() ==> from < end,
{
    proof {
        sequence_fits(chars@.skip(from as int));
    }
    let length: usize = chars.len();
    if from == length {
        return from;
    }
    let ghost rest = chars@.skip(from as int);
    let ghost body = rest.skip(1);
    proof {
        assert(body =~= chars@.skip(from + 1));
    }
    let mut i: usize = from + 1;
    if chars[from] == '[' {
        while i < length && !('\u{40}' <= chars[i] && chars[i] <= '\u{7e}')
            invariant
                length == chars@.len(),
                from < i <= length,
                control_length(chars@.skip(from + 1)) == (i - from - 1) + control_length(
                    chars@.skip(i as int),
                ),
            decreases length - i,
        {
            proof {
                assert(chars@.skip(i as int).skip(1) =~= chars@.skip(i + 1));
            }
            i += 1;
        }
        if i < length {
            i += 1;
        }
    } else if chars[from] == ']' {
        let mut last: char = ']';
        while i < length && !(chars[i] == '\u{7}' || (last == ESCAPE && chars[i] == '\\'))
            invariant
                length == chars@.len(),
                from < i <= length,
                command_length(chars@.skip(from + 1), ']') == (i - from - 1) + command_length(
                    chars@.skip(i as int),
                    last,
                ),
            decreases length - i,
        {
            proof {
                assert(chars@.skip(i as int).skip(1) =~= chars@.skip(i + 1));
            }
            last = chars[i];
            i += 1;
        }
        if i < length {
            i += 1;
        }
    }
    i
}

/// The text without its escape sequences.
pub fn strip_ansi(text: &str) -> (plain: String)
    ensures
        plain@ == stripped(text@),
{
    let chars = chars_of(text);
    let mut plain = String::new();
    let mut i: usize = 0;
    proof {
        assert(chars@.skip(0) =~= chars@);
    }
    while i < chars.len()
        invariant
            i <= chars@.len(),
            stripped(chars@) == plain@ + stripped(chars@.skip(i as int)),
        decreases chars@.len() - i,
    {
        let ghost rest = chars@.skip(i as int);
        proof {
            assert(rest.skip(1) =~= chars@.skip(i + 1));
        }
        if chars[i] == ESCAPE {
            let end: usize = read_escape_sequence(&chars, i + 1);
            proof {
                assert(rest.skip(1).skip(sequence_length(rest.skip(1)) as int) =~= chars@.skip(
                    end as int,
                ));
            }
            i = end;
        } else {
            let ghost before = plain@;
            plain.push(chars[i]);
            proof {
                assert(before + (seq![rest[0]] + stripped(rest.skip(1))) =~= plain@ + stripped(
                    rest.skip(1),
                ));
            }
            i += 1;
        }
    }
    proof {
        assert(plain@ + stripped(chars@.skip(i as int)) =~= plain@);
    }
    plain
}

/// The colour of a code from 0 to 7, normal or bright.
fn indexed_color(code: u16, bright: bool) -> (color: Color)
    ensures
        color == palette(code as int, bright),
{
    match (bright, code) {
        (false, 0) => Color::Black,
        (false, 1) => Color::Red,
        (false, 2) => Color::Green,
        (false, 3) => Color::Yellow,
        (false, 4) => Color::Blue,
        (false, 5) => Color::Magenta,
        (false, 6) => Color::Cyan,
        (false, 7) => Color::Gray,
        (true, 0) => Color::DarkGray,
        (true, 1) => Color::LightRed,
        (true, 2) => Color::LightGreen,
        (true, 3) => Color::LightYellow,
        (true, 4) => Color::LightBlue,
        (true, 5) => Color::LightMagenta,
        (true, 6) => Color::LightCyan,
        (true, 7) => Color::White,
        _ => Color::Reset,
    }
}

/// The colour whose codes begin at `from`, with the number of codes that it takes.
fn extended_color(codes: &Vec<u16>, from: usize) -> (result: Option<(Color, usize)>)
    requires
        from <= codes@.len(),
    ensures
        match result {
            Some((color, taken)) => extended(codes@.skip(from as int)) == Some(
                (color, taken as nat),
            ) && taken <= codes@.len() - from,
            None => extended(codes@.skip(from as int)) is None,
        },
{
    let left: usize = codes.len() - from;
    if left >= 2 && codes[from] == 5 {
        Some((Color::Indexed((codes[from + 1] % 256) as u8), 2))
    } else if left >= 4 && codes[from] == 2 {
        Some(
            (
                Color::Rgb(
                    (codes[from + 1] % 256) as u8,
                    (codes[from + 2] % 256) as u8,
                    (codes[from + 3] % 256) as u8,
                ),
                4,
            ),
        )
    } else {
        None
    }
}

/// The style after one code that stands alone.
fn apply_code(style: Style, code: u16) -> (result: Style)
    ensures
        result == after_code(style, code),
{
    let m = style.modifiers;
    match code {
        0 => Style::default(),
        1 => Style { modifiers: Modifiers { bold: true, ..m }, ..style },
        2 => Style { modifiers: Modifiers { dim: true, ..m }, ..style },
        3 => Style { modifiers: Modifiers { italic: true, ..m }, ..style },
        4 => Style { modifiers: Modifiers { underlined: true, ..m }, ..style },
        5 => Style { modifiers: Modifiers { slow_blink: true, ..m }, ..style },
        6 => Style { modifiers: Modifiers { rapid_blink: true, ..m }, ..style },
        7 => Style { modifiers: Modifiers { reversed: true, ..m }, ..style },
        8 => Style { modifiers: Modifiers { hidden: true, ..m }, ..style },
        9 => Style { modifiers: Modifiers { crossed_out: true, ..m }, ..style },
        21 | 22 => Style { modifiers: Modifiers { bold: false, dim: false, ..m }, ..style },
        23 => Style { modifiers: Modifiers { italic: false, ..m }, ..style },
        24 => Style { modifiers: Modifiers { underlined: false, ..m }, ..style },
        25 => Style {
            modifiers: Modifiers { slow_blink: false, rapid_blink: false, ..m },
            ..style
        },
        27 => Style { modifiers: Modifiers { reversed: false, ..m }, ..style },
        28 => Style { modifiers: Modifiers { hidden: false, ..m }, ..style },
        29 => Style { modifiers: Modifiers { crossed_out: false, ..m }, ..style },
        30..=37 => Style { fg: Some(indexed_color(code - 30, false)), ..style },
        39 => Style { fg: None, ..style },
        40..=47 => Style { bg: Some(indexed_color(code - 40, false)), ..style },
        49 => Style { bg: None, ..style },
        90..=97 => Style { fg: Some(indexed_color(code - 90, true)), ..style },
        100..=107 => Style { bg: Some(indexed_color(code - 100, true)), ..style },
        _ => style,
    }
}

/// The style after an escape sequence that stands in `chars` from `from` up to `to`, without
/// its escape character.
pub fn apply_escape_sequence(chars: &Vec<char>, from: usize, to: usize, style: Style) -> (result:
    Style)
    requires
        from <= to <= chars@.len(),
    ensures
        result == after_sequence(style, chars@.subrange(from as int, to as int)),
{
    if to - from < 2 || chars[from] != '[' || chars[to - 1] != 'm' {
        return style;
    }
    let parameters = string_of(chars, from + 1, to - 1);
    let ghost sequence = chars@.subrange(from as int, to as int);
    proof {
        assert(sequence.subrange(1, sequence.len() - 1) =~= parameters@);
    }
    let mut codes: Vec<u16> = Vec::new();
    if parameters.as_str().is_empty() {
        codes.push(0);
        proof {
            assert(codes@ =~= codes_of(parameters@));
        }
    } else {
        let parts = split(parameters.as_str(), ';');
        let mut i: usize = 0;
        while i < parts.len()
            invariant
                i <= parts@.len(),
                codes@.len() == i,
                forall|j: int| 0 <= j < i ==> codes@[j] == code_of(parts@[j]@),
            decreases parts@.len() - i,
        {
            codes.push(
                match parse_u16(parts[i].as_str()) {
                    Some(code) => code,
                    None => 0,
                },
            );
            i += 1;
        }
        proof {
            assert(codes@ =~= codes_of(parameters@)) by {
                assert forall|j: int| 0 <= j < codes@.len() implies codes@[j] == codes_of(
                    parameters@,
                )[j] by {
                    assert(texts(parts@)[j] == parts@[j]@);
                }
            }
        }
    }
    let mut result = style;
    let mut index: usize = 0;
    proof {
        assert(codes@.skip(0) =~= codes@);
    }
    while index < codes.len()
        invariant
            index <= codes@.len(),
            after_codes(style, codes@) == after_codes(result, codes@.skip(index as int)),
        decreases codes@.len() - index,
    {
        let code: u16 = codes[index];
        let ghost rest = codes@.skip(index as int);
        proof {
            assert(rest.skip(1) =~= codes@.skip(index + 1));
        }
        if code == 38 || code == 48 {
            match extended_color(&codes, index + 1) {
                Some((color, taken)) => {
                    result = if code == 38 {
                        Style { fg: Some(color), ..result }
                    } else {
                        Style { bg: Some(color), ..result }
                    };
                    proof {
                        assert(rest.skip(1).skip(taken as int) =~= codes@.skip(
                            index + taken + 1,
                        ));
                    }
                    index = index + taken;
                },
                None => {},
            }
        } else {
            result = apply_code(result, code);
        }
        index += 1;
    }
    result
}

/// The visible text in its styles, in chunks as long as can be.
pub fn parse_ansi(text: &str) -> (chunks: Vec<StyledChunk>)
    ensures
        flat(chunks@) == styled(text@, plain_style()),
        canonical(chunks@),
{
    let chars = chars_of(text);
    let mut chunks: Vec<StyledChunk> = Vec::new();
    let mut style = Style::default();
    let mut i: usize = 0;
    proof {
        assert(chars@.skip(0) =~= chars@);
        assert(flat(chunks@) + styled(chars@, style) =~= styled(chars@, style));
    }
    while i < chars.len()
        invariant
            i <= chars@.len(),
            canonical(chunks@),
            styled(chars@, plain_style()) == flat(chunks@) + styled(chars@.skip(i as int), style),
        decreases chars@.len() - i,
    {
        let ghost rest = chars@.skip(i as int);
        proof {
            assert(rest.skip(1) =~= chars@.skip(i + 1));
        }
        if chars[i] == ESCAPE {
            let end: usize = read_escape_sequence(&chars, i + 1);
            proof {
                let tail = rest.skip(1);
                let taken = sequence_length(tail) as int;
                assert(tail.skip(taken) =~= chars@.skip(end as int));
                assert(tail.take(taken) =~= chars@.subrange(i + 1, end as int));
            }
            style = apply_escape_sequence(&chars, i + 1, end, style);
            i = end;
        } else {
            let ghost before = flat(chunks@);
            push_char(&mut chunks, style, chars[i]);
            proof {
                assert(before + (seq![(rest[0], style)] + styled(rest.skip(1), style)) =~= flat(
                    chunks@,
                ) + styled(rest.skip(1), style));
            }
            i += 1;
        }
    }
    proof {
        assert(flat(chunks@) + styled(chars@.skip(i as int), style) =~= flat(chunks@));
    }
    chunks
}

/// The text of a list of chunks.
pub fn plain_text(chunks: &Vec<StyledChunk>) -> (text: String)
    ensures
        text@ == chars_only(flat(chunks@)),
{
    let mut text = String::new();
    let mut i: usize = 0;
    while i < chunks.len()
        invariant
            i <= chunks@.len(),
            text@ == chars_only(flat(chunks@.take(i as int))),
        decreases chunks@.len() - i,
    {
        let ghost before = text@;
        text.append(chunks[i].text.as_str());
        proof {
            let upto = chunks@.take(i + 1);
            assert(upto.drop_last() =~= chunks@.take(i as int));
            assert(text@ =~= chars_only(flat(upto)));
        }
        i += 1;
    }
    proof {
        assert(chunks@.take(i as int) =~= chunks@);
    }
    text
}

// ---------------------------------------------------------------------------------------------
// Wrapping
// ---------------------------------------------------------------------------------------------

/// The number of terminal columns that a text takes, as `textwrap::core::display_width`
/// measures it.
pub uninterp spec fn display_columns(text: Seq<char>) -> usize;

/// `textwrap::core::display_width` measures a text by the columns of its characters. The result
/// depends on the text alone; what it is for a given text is left to the Unicode tables.
#[verifier::external_body]
fn display_width(text: &str) -> (columns: usize)
    ensures
        columns == display_columns(text@),
{
    textwrap::core::display_width(text)
}

/// The columns of each styled character.
pub open spec fn columns_of(cells: Seq<(char, Style)>) -> Seq<usize> {
    cells.map_values(|cell: (char, Style)| display_columns(seq![cell.0]))
}

/// The lines of a greedy wrap, and the columns that the last one takes. A character opens a new
/// line when its line has a width already and would outgrow the limit.
pub open spec fn wrapped(cells: Seq<(char, Style)>, columns: Seq<usize>, width: nat) -> (
    Seq<Seq<(char, Style)>>,
    nat,
)
    decreases cells.len(),
{
    if cells.len() == 0 {
        (seq![Seq::<(char, Style)>::empty()], 0)
    } else {
        let (lines, used) = wrapped(cells.drop_last(), columns.drop_last(), width);
        let more = columns.last() as nat;
        if used > 0 && used + more > width {
            (lines.push(seq![cells.last()]), more)
        } else {
            (lines.drop_last().push(lines.last().push(cells.last())), used + more)
        }
    }
}

/// The styled characters of each line.
pub open spec fn flat_lines(lines: Seq<Vec<StyledChunk>>) -> Seq<Seq<(char, Style)>> {
    lines.map_values(|line: Vec<StyledChunk>| flat(line@))
}

/// Every line is in chunks as long as can be.
pub open spec fn canonical_lines(lines: Seq<Vec<StyledChunk>>) -> bool {
    forall|i: int| 0 <= i < lines.len() ==> canonical((#[trigger] lines[i])@)
}

/// The width that a wrap goes by: at least one column.
pub open spec fn wrap_width(width: usize) -> nat {
    if width == 0 {
        1
    } else {
        width as nat
    }
}

/// Wraps chunks whose characters take the given columns, one number for each character.
pub fn wrap_measured(chunks: &Vec<StyledChunk>, columns: &Vec<usize>, width: usize) -> (lines: Vec<
    Vec<StyledChunk>,
>)
    requires
        columns@.len() == flat(chunks@).len(),
    ensures
        flat_lines(lines@) == wrapped(flat(chunks@), columns@, wrap_width(width)).0,
        canonical_lines(lines@),
{
    let limit: usize = if width == 0 { 1 } else { width };
    let total: usize = columns.len();
    let ghost cells = flat(chunks@);
    let mut lines: Vec<Vec<StyledChunk>> = Vec::new();
    lines.push(Vec::new());
    let mut used: usize = 0;
    let mut at: usize = 0;
    let mut k: usize = 0;
    proof {
        assert(flat_lines(lines@) =~= wrapped(cells.take(0), columns@.take(0), limit as nat).0);
        assert(chunks@.take(0) =~= Seq::<StyledChunk>::empty());
    }
    while k < chunks.len()
        invariant
            k <= chunks@.len(),
            cells == flat(chunks@),
            total == columns@.len(),
            columns@.len() == cells.len(),
            limit == wrap_width(width),
            at == flat(chunks@.take(k as int)).len(),
            at <= cells.len(),
            lines@.len() > 0,
            canonical_lines(lines@),
            (flat_lines(lines@), used as nat) == wrapped(
                cells.take(at as int),
                columns@.take(at as int),
                limit as nat,
            ),
        decreases chunks@.len() - k,
    {
        let style = chunks[k].style;
        let chars = chars_of(chunks[k].text.as_str());
        let ghost from = at as int;
        proof {
            let upto = chunks@.take(k + 1);
            assert(upto.drop_last() =~= chunks@.take(k as int));
            assert(flat(upto) == flat(chunks@.take(k as int)) + in_style(chars@, style));
            flat_of_prefix(chunks@, k + 1);
            assert forall|j: int| 0 <= j < chars@.len() implies cells[from + j] == (
                chars@[j],
                style,
            ) by {
                assert(flat(upto)[from + j] == in_style(chars@, style)[j]);
                assert(flat(upto)[from + j] == cells.take(flat(upto).len() as int)[from + j]);
            }
        }
        let mut i: usize = 0;
        while i < chars.len()
            invariant
                i <= chars@.len(),
                total == columns@.len(),
                columns@.len() == cells.len(),
                limit >= 1,
                from + chars@.len() <= cells.len(),
                at == from + i,
                forall|j: int| 0 <= j < chars@.len() ==> cells[from + j] == (chars@[j], style),
                lines@.len() > 0,
                canonical_lines(lines@),
                (flat_lines(lines@), used as nat) == wrapped(
                    cells.take(at as int),
                    columns@.take(at as int),
                    limit as nat,
                ),
            decreases chars@.len() - i,
        {
            let more: usize = columns[at];
            let ghost before = flat_lines(lines@);
            let ghost lines0 = lines@;
            proof {
                assert(cells[from + i] == (chars@[i as int], style));
                assert(cells.take(at + 1).drop_last() =~= cells.take(at as int));
                assert(columns@.take(at + 1).drop_last() =~= columns@.take(at as int));
                assert(cells.take(at + 1).last() == (chars@[i as int], style));
            }
            if used > 0 && (used > limit || more > limit - used) {
                let mut line: Vec<StyledChunk> = Vec::new();
                push_char(&mut line, style, chars[i]);
                let ghost cell = (chars@[i as int], style);
                lines.push(line);
                used = more;
                proof {
                    assert(flat(line@) =~= seq![cell]);
                    assert(flat_lines(lines@) =~= before.push(seq![cell]));
                }
            } else {
                match lines.pop() {
                    Some(last) => {
                        let mut line = last;
                        let ghost open = flat(line@);
                        proof {
                            assert(before.last() == open);
                            assert(lines0.last() == line);
                            assert(canonical(line@));
                        }
                        push_char(&mut line, style, chars[i]);
                        lines.push(line);
                        proof {
                            assert(flat_lines(lines@) =~= before.drop_last().push(
                                open.push((chars@[i as int], style)),
                            ));
                        }
                    },
                    None => {},
                }
                used = used + more;
            }
            at += 1;
            i += 1;
        }
        k += 1;
    }
    proof {
        assert(chunks@.take(k as int) =~= chunks@);
        assert(cells.take(at as int) =~= cells);
        assert(columns@.take(at as int) =~= columns@);
    }
    lines
}

/// The styled characters of the first chunks are the first styled characters.
proof fn flat_of_prefix(chunks: Seq<StyledChunk>, k: int)
    requires
        0 <= k <= chunks.len(),
    ensures
        flat(chunks.take(k)).len() <= flat(chunks).len(),
        flat(chunks.take(k)) == flat(chunks).take(flat(chunks.take(k)).len() as int),
    decreases chunks.len(),
{
    if k == chunks.len() {
        assert(chunks.take(k) =~= chunks);
        assert(flat(chunks).take(flat(chunks).len() as int) =~= flat(chunks));
    } else {
        assert(chunks.drop_last().take(k) =~= chunks.take(k));
        flat_of_prefix(chunks.drop_last(), k);
        assert(flat(chunks).take(flat(chunks.take(k)).len() as int) =~= flat(
            chunks.drop_last(),
        ).take(flat(chunks.take(k)).len() as int));
    }
}

/// Wraps chunks to a width in terminal columns.
pub fn wrap_chunks(chunks: &Vec<StyledChunk>, width: usize) -> (lines: Vec<Vec<StyledChunk>>)
    ensures
        flat_lines(lines@) == wrapped(
            flat(chunks@),
            columns_of(flat(chunks@)),
            wrap_width(width),
        ).0,
        canonical_lines(lines@),
{
    let mut columns: Vec<usize> = Vec::new();
    let mut k: usize = 0;
    proof {
        assert(columns@ =~= columns_of(flat(chunks@.take(0))));
    }
    while k < chunks.len()
        invariant
            k <= chunks@.len(),
            columns@ == columns_of(flat(chunks@.take(k as int))),
        decreases chunks@.len() - k,
    {
        let chars = chars_of(chunks[k].text.as_str());
        let ghost style = chunks@[k as int].style;
        let ghost before = columns@;
        let mut i: usize = 0;
        while i < chars.len()
            invariant
                i <= chars@.len(),
                columns@ == before + columns_of(in_style(chars@, style).take(i as int)),
            decreases chars@.len() - i,
        {
            let one = string_of(&chars, i, i + 1);
            proof {
                assert(one@ =~= seq![chars@[i as int]]);
            }
            let ghost earlier = columns@;
            columns.push(display_width(one.as_str()));
            proof {
                assert(columns@ =~= before + columns_of(in_style(chars@, style).take(i + 1)));
            }
            i += 1;
        }
        proof {
            let upto = chunks@.take(k + 1);
            assert(upto.drop_last() =~= chunks@.take(k as int));
            assert(in_style(chars@, style).take(i as int) =~= in_style(chars@, style));
            assert(columns@ =~= columns_of(flat(upto)));
        }
        k += 1;
    }
    proof {
        assert(chunks@.take(k as int) =~= chunks@);
    }
    wrap_measured(chunks, &columns, width)
}

// ---------------------------------------------------------------------------------------------
// Laws
// ---------------------------------------------------------------------------------------------

/// Text without escape characters is left as it is.
pub proof fn plain_text_is_kept(text: Seq<char>)
    requires
        !text.contains(ESCAPE),
    ensures
        stripped(text) == text,
    decreases text.len(),
{
    if text.len() > 0 {
        assert(text.contains(text[0]));
        assert forall|c: char| text.skip(1).contains(c) implies text.contains(c) by {
            let i = choose|i: int| 0 <= i < text.skip(1).len() && text.skip(1)[i] == c;
            assert(text[i + 1] == c);
        }
        plain_text_is_kept(text.skip(1));
        assert(seq![text[0]] + text.skip(1) =~= text);
    } else {
        assert(stripped(text) =~= text);
    }
}

/// What is left of a text holds no escape character.
pub proof fn stripped_holds_no_escape(text: Seq<char>)
    ensures
        !stripped(text).contains(ESCAPE),
    decreases text.len(),
{
    if text.len() > 0 {
        if text[0] == ESCAPE {
            sequence_fits(text.skip(1));
            stripped_holds_no_escape(text.skip(1).skip(sequence_length(text.skip(1)) as int));
        } else {
            stripped_holds_no_escape(text.skip(1));
            let rest = stripped(text.skip(1));
            if stripped(text).contains(ESCAPE) {
                let i = choose|i: int|
                    0 <= i < stripped(text).len() && stripped(text)[i] == ESCAPE;
                assert(i > 0);
                assert(rest[i - 1] == ESCAPE);
            }
        }
    }
}

/// Stripping a text a second time changes nothing.
pub proof fn stripping_is_idempotent(text: Seq<char>)
    ensures
        stripped(stripped(text)) == stripped(text),
{
    stripped_holds_no_escape(text);
    plain_text_is_kept(stripped(text));
}

/// The coloured text and the stripped text show the same characters, whatever the style at the
/// start.
pub proof fn colours_keep_the_text(text: Seq<char>, style: Style)
    ensures
        chars_only(styled(text, style)) == stripped(text),
    decreases text.len(),
{
    if text.len() > 0 {
        if text[0] == ESCAPE {
            let rest = text.skip(1);
            let taken = sequence_length(rest) as int;
            sequence_fits(rest);
            colours_keep_the_text(rest.skip(taken), after_sequence(style, rest.take(taken)));
        } else {
            colours_keep_the_text(text.skip(1), style);
            assert(chars_only(styled(text, style)) =~= seq![text[0]] + chars_only(
                styled(text.skip(1), style),
            ));
        }
    } else {
        assert(chars_only(styled(text, style)) =~= stripped(text));
    }
}

/// Wrapping loses, adds and restyles nothing: the lines one after the other are the text.
pub proof fn wrapping_keeps_the_text(cells: Seq<(char, Style)>, columns: Seq<usize>, width: nat)
    ensures
        wrapped(cells, columns, width).0.len() > 0,
        wrapped(cells, columns, width).0.flatten() == cells,
    decreases cells.len(),
{
    let lines = wrapped(cells, columns, width).0;
    lines.lemma_flatten_and_flatten_alt_are_equivalent();
    if cells.len() == 0 {
        lines.lemma_flatten_one_element();
        assert(lines.flatten() =~= cells);
    } else {
        let (before, used) = wrapped(cells.drop_last(), columns.drop_last(), width);
        wrapping_keeps_the_text(cells.drop_last(), columns.drop_last(), width);
        before.lemma_flatten_and_flatten_alt_are_equivalent();
        assert(lines.drop_last() =~= before || lines.drop_last() =~= before.drop_last());
        if used > 0 && used + columns.last() > width {
            assert(lines.drop_last() =~= before);
            assert(lines.last() =~= seq![cells.last()]);
        } else {
            assert(lines.drop_last() =~= before.drop_last());
            assert(lines.last() =~= before.last().push(cells.last()));
        }
        assert(lines.flatten_alt() == lines.drop_last().flatten_alt() + lines.last());
        assert(before.flatten_alt() == before.drop_last().flatten_alt() + before.last());
        assert(lines.flatten() =~= cells.drop_last().push(cells.last()));
        assert(cells.drop_last().push(cells.last()) =~= cells);
    }
}

/// The columns that a line takes.
pub open spec fn line_columns(line: Seq<(char, Style)>) -> nat
    decreases line.len(),
{
    if line.len() == 0 {
        0
    } else {
        line_columns(line.drop_last()) + display_columns(seq![line.last().0]) as nat
    }
}

/// The line keeps to the width, or nothing but its last character takes a column at all.
pub open spec fn fits(line: Seq<(char, Style)>, width: nat) -> bool {
    ||| line_columns(line) <= width
    ||| line.len() > 0 && line_columns(line.drop_last()) == 0
}

/// Every wrapped line fits, and the last one takes the columns that the wrap counts.
pub proof fn wrapped_lines_fit(cells: Seq<(char, Style)>, width: nat)
    ensures
        forall|i: int|
            0 <= i < wrapped(cells, columns_of(cells), width).0.len() ==> fits(
                #[trigger] wrapped(cells, columns_of(cells), width).0[i],
                width,
            ),
        wrapped(cells, columns_of(cells), width).0.len() > 0,
        wrapped(cells, columns_of(cells), width).1 == line_columns(
            wrapped(cells, columns_of(cells), width).0.last(),
        ),
    decreases cells.len(),
{
    let columns = columns_of(cells);
    let lines = wrapped(cells, columns, width).0;
    if cells.len() > 0 {
        let inner = cells.drop_last();
        let (before, used) = wrapped(inner, columns_of(inner), width);
        wrapped_lines_fit(inner, width);
        assert(columns.drop_last() =~= columns_of(inner));
        let cell = cells.last();
        if used > 0 && used + columns.last() > width {
            let one = seq![cell];
            assert(one.drop_last() =~= Seq::<(char, Style)>::empty());
            assert(lines.last() == one);
            assert(line_columns(one.drop_last()) == 0);
        } else {
            assert(lines.last() == before.last().push(cell));
            assert(before.last().push(cell).drop_last() =~= before.last());
        }
        assert forall|i: int| 0 <= i < lines.len() implies fits(#[trigger] lines[i], width) by {
            if i < lines.len() - 1 {
                assert(lines[i] == before[i]);
            }
        }
    }
}

} // verus!
