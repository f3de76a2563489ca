//! Laws of the screen: what the panels show, what escape sequences do, and where things stand.

use crate::ansi::{
    after_code, after_codes, codes_of, columns_of, command_length, control_length, display_columns,
    is_final, line_columns, sequence_fits, sequence_length, stripped, styled, wrapped,
    wrapped_lines_fit, Color, Style, ESCAPE,
};
use crate::config::ThemeName;
use crate::keys::{MouseButton, MouseEvent, MouseEventKind};
use crate::layout::{
    centered_rect, covers, distance_of, dragged_top, fills_screen, grab_of, inside, last_position,
    layout_of, position_of, thumb_length_of, thumb_top_of, window_for, Rect, ScrollMetrics,
    Sections,
};
use crate::logs::LogModel;
use crate::model::{ContainerRecord, LogFilterMode};
use crate::state::{App, AppModel, InputKind, ScrollbarTarget, UiModel};
use crate::tab::{tab_index, tab_title, DetailTab};
use crate::text::{all_white, decimal, lowered, occurs_at, split_parts, texts};
use crate::text_laws::{
    blank_texts_are_white, finding_is_splitting, holds, lowering_forgets_the_case_alone,
    numbers_read_back, parts_make_up_the_text, same_but_case, splits_round,
};
use crate::ui::{
    base64_text, cells_of, clipboard_sequence, colours_of, container_cells, container_table,
    detail_panel, detail_rows_of, first_at, marked_text, names_screen, notes, osc52_frame,
    osc52_sequence, pairs, panel_of, status_text, table_of, tables, theme, thumb_rows,
    useful_programs, Emphasis, MethodModel, TextModel, Theme,
};
use vstd::prelude::*;

verus! {

// ---------------------------------------------------------------------------------------------
// Panels
// ---------------------------------------------------------------------------------------------

/// The searched text is marked where it first stands, whatever the case.
pub proof fn the_first_place_is_marked(
    content: Seq<char>,
    query: Seq<char>,
    before: Seq<char>,
    middle: Seq<char>,
    behind: Seq<char>,
)
    requires
        !all_white(query),
        content == before + middle + behind,
        same_but_case(middle, query),
        forall|a: Seq<char>, m: Seq<char>, b: Seq<char>|
            a.len() < before.len() ==> !#[trigger] splits_round(content, a, m, b, query),
    ensures
        marked_text(content, query) == TextModel::Marked(before, middle, behind),
{
    blank_texts_are_white(query);
    let at = before.len() as int;
    lowering_forgets_the_case_alone(middle, query);
    assert(lowered(content).subrange(at, at + query.len()) =~= lowered(middle));
    assert(occurs_at(lowered(content), lowered(query), at));
    assert forall|i: int| 0 <= i < at implies !occurs_at(lowered(content), lowered(query), i) by {
        if occurs_at(lowered(content), lowered(query), i) {
            let end = i + query.len();
            let m = content.subrange(i, end);
            assert(lowered(m) =~= lowered(content).subrange(i, end));
            lowering_forgets_the_case_alone(m, query);
            assert(content =~= content.take(i) + m + content.skip(end));
            assert(splits_round(content, content.take(i), m, content.skip(end), query));
        }
    }
    places_are_passed(lowered(content), lowered(query), 0, at);
    assert(content.take(at) =~= before);
    assert(content.subrange(at, at + query.len()) =~= middle);
    assert(content.skip(at + query.len()) =~= behind);
}

/// The first place is the one before which there is none.
proof fn places_are_passed(haystack: Seq<char>, needle: Seq<char>, from: int, at: int)
    requires
        0 <= from <= at,
        occurs_at(haystack, needle, at),
        forall|i: int| from <= i < at ==> !occurs_at(haystack, needle, i),
    ensures
        first_at(haystack, needle, from) == Some(at),
    decreases at - from,
{
    if from < at {
        places_are_passed(haystack, needle, from + 1, at);
    }
}

/// A place is one where the text stands.
proof fn a_place_is_one(haystack: Seq<char>, needle: Seq<char>, from: int)
    ensures
        first_at(haystack, needle, from) matches Some(at) ==> occurs_at(haystack, needle, at),
    decreases haystack.len() + 1 - from,
{
    if from <= haystack.len() && !occurs_at(haystack, needle, from) {
        a_place_is_one(haystack, needle, from + 1);
    }
}

/// Nothing is marked where the searched text is blank or does not stand.
pub proof fn nothing_else_is_marked(content: Seq<char>, query: Seq<char>)
    requires
        all_white(query) || !holds(content, query),
    ensures
        marked_text(content, query) == TextModel::Plain(content),
{
    blank_texts_are_white(query);
    finding_is_splitting(content, query);
    a_place_is_one(lowered(content), lowered(query), 0);
}

/// A container has seven cells: its state, its name, its project, its service, its image, its
/// ports and its status; a dash stands for a project or a service that is not there.
pub proof fn cells_tell_the_container(record: ContainerRecord, cells: Vec<String>)
    requires
        call_ensures(container_cells, (&record,), cells),
    ensures
        cells@.len() == 7,
        cells@[0]@ == record.state@,
        cells@[1]@ == record.name@,
        record.project matches Some(project) ==> cells@[2]@ == project@,
        record.project is None ==> cells@[2]@ == seq!['-'],
        record.service matches Some(service) ==> cells@[3]@ == service@,
        record.service is None ==> cells@[3]@ == seq!['-'],
        cells@[4]@ == record.image@,
        cells@[5]@ == record@.ports_line(),
        cells@[6]@ == record.status@,
{
    reveal_strlit("-");
    assert("-"@ =~= seq!['-']);
    let shown = texts(cells@);
    assert(shown.len() == cells@.len());
    assert(shown == cells_of(record@));
    assert(forall|i: int| 0 <= i < shown.len() ==> #[trigger] shown[i] == cells@[i]@);
    assert(shown[0] == record@.state);
    assert(shown[1] == record@.name);
    assert(shown[4] == record@.image);
    assert(shown[5] == record@.ports_line());
    assert(shown[6] == record@.status);
    assert(shown[2] == crate::ui::or_dash(record@.project));
    assert(shown[3] == crate::ui::or_dash(record@.service));
}

/// The table has a row for every listed container, in their order, with its cells.
pub proof fn the_table_shows_the_list(
    app: App,
    rows: Vec<Vec<String>>,
    at: int,
    cells: Vec<String>,
)
    requires
        call_ensures(container_table, (&app,), rows),
        0 <= at < app@.visible().len(),
        call_ensures(container_cells, (&app@.visible()[at],), cells),
    ensures
        rows@.len() == app@.visible().len(),
        texts(rows@[at]@) == texts(cells@),
{
    assert(tables(rows@).len() == rows@.len());
    assert(tables(rows@)[at] == texts(rows@[at]@));
    assert(table_of(app@.visible())[at] == cells_of(app@.visible()[at]@));
}

/// The detail panel has a row for every row of the tab, in their order: its label, with spaces
/// behind it up to eighteen characters, and its value.
pub proof fn the_panel_shows_the_tab(app: App, rows: Vec<(String, String)>, at: int)
    requires
        call_ensures(detail_panel, (&app,), rows),
        0 <= at < app@.items().len(),
    ensures
        rows@.len() == app@.items().len(),
        rows@[at].1@ == app@.items()[at].value@,
        app@.items()[at].label@.is_prefix_of(rows@[at].0@),
        rows@[at].0@.len() == (if app@.items()[at].label@.len() < 18 {
            18
        } else {
            app@.items()[at].label@.len()
        }),
        forall|i: int|
            app@.items()[at].label@.len() <= i < rows@[at].0@.len() ==> #[trigger] rows@[at].0@[i]
                == ' ',
{
    let shown = pairs(rows@);
    assert(shown.len() == rows@.len());
    assert(shown[at] == (rows@[at].0@, rows@[at].1@));
    assert(shown == detail_rows_of(app@.items()));
    let label = app@.items()[at].label@;
    assert(shown[at].0 == crate::ui::padded(label, 18));
    assert(crate::ui::padded(label, 18).subrange(0, label.len() as int) =~= label);
}

/// The rows of the log panel are the visible rows, each with the searched text marked in it; a
/// row stands out where its line is in the selected range, or else is the selected line.
pub proof fn the_panel_shows_the_log(logs: LogModel, rows: Seq<(int, Seq<char>)>, at: int)
    requires
        0 <= at < rows.len(),
    ensures
        panel_of(logs, rows).len() == rows.len(),
        panel_of(logs, rows)[at].0 == marked_text(rows[at].1, logs.search_query),
        panel_of(logs, rows)[at].1 == Emphasis::Range <==> (logs.selection_anchor is Some
            && logs.selection_end is Some && (logs.selection_anchor->0 <= rows[at].0
            <= logs.selection_end->0 || logs.selection_end->0 <= rows[at].0
            <= logs.selection_anchor->0)),
        panel_of(logs, rows)[at].1 == Emphasis::Selected <==> panel_of(logs, rows)[at].1
            != Emphasis::Range && rows[at].0 == logs.selected,
{
}

/// Where no row is visible, the panel says whether lines are still expected.
pub proof fn an_empty_log_says_why(logs: LogModel)
    ensures
        panel_of(logs, Seq::empty()).len() == 1,
        logs.loading ==> panel_of(logs, Seq::empty())[0].0 == TextModel::Plain(
            "Loading logs..."@,
        ),
        !logs.loading ==> panel_of(logs, Seq::empty())[0].0 == TextModel::Plain("No log lines"@),
{
}

/// The status line shows the text that is being typed and what it is for, or else the status.
pub proof fn the_status_line_shows_what_is_typed(app: AppModel, value: Seq<char>)
    ensures
        app.input == Some((InputKind::LogFilter, value)) ==> status_text(app) == "Filter: "@
            + value,
        app.input == Some((InputKind::LogSearch, value)) ==> status_text(app) == "Search: "@
            + value,
        app.input is None ==> status_text(app) == app.status,
{
}

/// The notes below the log tell how it is looked at: whether its end is followed, whether lines
/// are wrapped, whether timestamps are shown, the filter and how it is read, the searched text,
/// and how many lines are selected.
pub proof fn the_notes_tell_how_the_log_is_looked_at(
    logs: LogModel,
    filter: Seq<char>,
    search: Seq<char>,
    count: nat,
)
    requires
        logs.filter_query == filter && filter.len() > 0,
        logs.search_query == search && search.len() > 0,
        count >= 1,
        logs.selection_anchor is Some && logs.selection_end is Some,
        logs.selection_end->0 == logs.selection_anchor->0 + count - 1 || logs.selection_anchor->0
            == logs.selection_end->0 + count - 1,
    ensures
        notes(logs, None) == "follow:"@ + (if logs.follow {
            "on"@
        } else {
            "off"@
        }) + "  wrap:"@ + (if logs.wrap {
            "on"@
        } else {
            "off"@
        }) + "  timestamps:"@ + (if logs.show_timestamps {
            "on"@
        } else {
            "off"@
        }) + "  filter:"@ + filter + " ("@ + (if logs.filter_mode == LogFilterMode::Regex {
            "regex"@
        } else {
            "substring"@
        }) + ")  search:"@ + search + "  selected:"@ + (decimal(count) + " lines"@),
{
}

/// An error of the filter stands in place of the notes.
pub proof fn the_notes_tell_an_error(logs: LogModel, error: Seq<char>)
    ensures
        notes(logs, Some(error)) == "filter error: "@ + error,
{
}

// ---------------------------------------------------------------------------------------------
// The clipboard
// ---------------------------------------------------------------------------------------------

/// The programs for the clipboard are those of the desktop that is there.
pub proof fn programs_go_with_the_desktop(wayland: bool, x11: bool, macos: bool)
    ensures
        useful_programs(true, false, false) == seq![
            MethodModel::Command("wl-copy"@, Seq::empty()),
        ],
        useful_programs(false, true, false) == seq![
            MethodModel::Command("xclip"@, seq!["-selection"@, "clipboard"@]),
            MethodModel::Command("xsel"@, seq!["--clipboard"@, "--input"@]),
        ],
        useful_programs(false, false, true) == seq![
            MethodModel::Command("pbcopy"@, Seq::empty()),
        ],
        useful_programs(false, false, false) == Seq::<MethodModel>::empty(),
        useful_programs(wayland, x11, macos) == useful_programs(wayland, false, false)
            + useful_programs(false, x11, false) + useful_programs(false, false, macos),
{
    assert(useful_programs(true, false, false) =~= seq![
        MethodModel::Command("wl-copy"@, Seq::empty()),
    ]);
    assert(useful_programs(false, true, false) =~= seq![
        MethodModel::Command("xclip"@, seq!["-selection"@, "clipboard"@]),
        MethodModel::Command("xsel"@, seq!["--clipboard"@, "--input"@]),
    ]);
    assert(useful_programs(false, false, true) =~= seq![
        MethodModel::Command("pbcopy"@, Seq::empty()),
    ]);
    assert(useful_programs(false, false, false) =~= Seq::<MethodModel>::empty());
    assert(useful_programs(wayland, x11, macos) =~= useful_programs(wayland, false, false)
        + useful_programs(false, x11, false) + useful_programs(false, false, macos));
}

/// The terminal's sequence holds the encoded text between `ESC ] 52 ; c ;` and a bell. Inside
/// screen it is wrapped, and inside tmux it is wrapped with its escape doubled.
pub proof fn sequences_hold_the_encoded_text(encoded: Seq<char>, screen: bool)
    ensures
        clipboard_sequence(encoded, false, false) == seq![
            '\u{1b}',
            ']',
            '5',
            '2',
            ';',
            'c',
            ';',
        ] + encoded + seq!['\u{7}'],
        clipboard_sequence(encoded, false, true) == seq!['\u{1b}', 'P'] + clipboard_sequence(
            encoded,
            false,
            false,
        ) + seq!['\u{1b}', '\\'],
        clipboard_sequence(encoded, true, screen) == seq![
            '\u{1b}',
            'P',
            't',
            'm',
            'u',
            'x',
            ';',
            '\u{1b}',
        ] + clipboard_sequence(encoded, false, false) + seq!['\u{1b}', '\\'],
{
    reveal_strlit("\u{1b}Ptmux;\u{1b}\u{1b}]52;c;");
    reveal_strlit("\u{7}\u{1b}\\");
    reveal_strlit("\u{1b}P\u{1b}]52;c;");
    reveal_strlit("\u{1b}]52;c;");
    reveal_strlit("\u{7}");
    let plain = clipboard_sequence(encoded, false, false);
    assert(plain =~= seq!['\u{1b}', ']', '5', '2', ';', 'c', ';'] + encoded + seq!['\u{7}']);
    assert(clipboard_sequence(encoded, false, true) =~= seq!['\u{1b}', 'P'] + plain + seq![
        '\u{1b}',
        '\\',
    ]);
    assert(clipboard_sequence(encoded, true, screen) =~= seq![
        '\u{1b}',
        'P',
        't',
        'm',
        'u',
        'x',
        ';',
        '\u{1b}',
    ] + plain + seq!['\u{1b}', '\\']);
}

// ---------------------------------------------------------------------------------------------
// Escape sequences
// ---------------------------------------------------------------------------------------------

/// A control sequence reaches up to its final character.
proof fn control_reaches_its_end(inner: Seq<char>, last: char, rest: Seq<char>)
    requires
        forall|i: int| 0 <= i < inner.len() ==> !is_final(#[trigger] inner[i]),
        is_final(last),
    ensures
        control_length(inner + seq![last] + rest) == inner.len() + 1,
    decreases inner.len(),
{
    let whole = inner + seq![last] + rest;
    if inner.len() == 0 {
        assert(whole[0] == last);
    } else {
        assert(whole[0] == inner[0]);
        assert(whole.skip(1) =~= inner.skip(1) + seq![last] + rest);
        control_reaches_its_end(inner.skip(1), last, rest);
    }
}

/// An operating system command reaches up to its bell.
proof fn command_reaches_its_bell(inner: Seq<char>, before: char, rest: Seq<char>)
    requires
        forall|i: int|
            0 <= i < inner.len() ==> #[trigger] inner[i] != '\u{7}' && inner[i] != '\\',
    ensures
        command_length(inner + seq!['\u{7}'] + rest, before) == inner.len() + 1,
    decreases inner.len(),
{
    let whole = inner + seq!['\u{7}'] + rest;
    if inner.len() == 0 {
        assert(whole[0] == '\u{7}');
    } else {
        assert(whole[0] == inner[0]);
        assert(whole.skip(1) =~= inner.skip(1) + seq!['\u{7}'] + rest);
        command_reaches_its_bell(inner.skip(1), inner[0], rest);
    }
}

/// An operating system command reaches up to an escape with a backslash.
proof fn command_reaches_its_backslash(inner: Seq<char>, before: char, rest: Seq<char>)
    requires
        forall|i: int|
            0 <= i < inner.len() ==> #[trigger] inner[i] != '\u{7}' && inner[i] != '\\',
    ensures
        command_length(inner + seq![ESCAPE, '\\'] + rest, before) == inner.len() + 2,
    decreases inner.len(),
{
    let whole = inner + seq![ESCAPE, '\\'] + rest;
    if inner.len() == 0 {
        assert(whole[0] == ESCAPE);
        assert(whole.skip(1)[0] == '\\');
        reveal_with_fuel(command_length, 3);
    } else {
        assert(whole[0] == inner[0]);
        assert(whole.skip(1) =~= inner.skip(1) + seq![ESCAPE, '\\'] + rest);
        command_reaches_its_backslash(inner.skip(1), inner[0], rest);
    }
}

/// A character that is no escape stays.
pub proof fn other_characters_stay(c: char, rest: Seq<char>, style: Style)
    requires
        c != ESCAPE,
    ensures
        stripped(seq![c] + rest) == seq![c] + stripped(rest),
        styled(seq![c] + rest, style) == seq![(c, style)] + styled(rest, style),
{
    assert((seq![c] + rest).skip(1) =~= rest);
}

/// A control sequence is taken out whole, up to its final character; where that is `m` it changes
/// the style of what follows.
pub proof fn control_sequences_are_taken_out(
    inner: Seq<char>,
    last: char,
    rest: Seq<char>,
    style: Style,
)
    requires
        forall|i: int| 0 <= i < inner.len() ==> !is_final(#[trigger] inner[i]),
        is_final(last),
    ensures
        stripped(seq![ESCAPE, '['] + inner + seq![last] + rest) == stripped(rest),
        last == 'm' ==> styled(seq![ESCAPE, '['] + inner + seq![last] + rest, style) == styled(
            rest,
            after_codes(style, codes_of(inner)),
        ),
        last != 'm' ==> styled(seq![ESCAPE, '['] + inner + seq![last] + rest, style) == styled(
            rest,
            style,
        ),
{
    let text = seq![ESCAPE, '['] + inner + seq![last] + rest;
    let behind = text.skip(1);
    control_reaches_its_end(inner, last, rest);
    assert(behind.skip(1) =~= inner + seq![last] + rest);
    let taken = sequence_length(behind) as int;
    assert(taken == inner.len() + 2);
    assert(behind.skip(taken) =~= rest);
    let sequence = behind.take(taken);
    assert(sequence =~= seq!['['] + inner + seq![last]);
    assert(sequence.subrange(1, sequence.len() - 1) =~= inner);
    assert(sequence.last() == last);
    sequence_fits(behind);
}

/// An operating system command is taken out whole, up to a bell or to an escape with a backslash,
/// and any other escape with the character behind it.
pub proof fn commands_are_taken_out(inner: Seq<char>, c: char, rest: Seq<char>)
    requires
        forall|i: int|
            0 <= i < inner.len() ==> #[trigger] inner[i] != '\u{7}' && inner[i] != '\\',
        c != '[' && c != ']',
    ensures
        stripped(seq![ESCAPE, ']'] + inner + seq!['\u{7}'] + rest) == stripped(rest),
        stripped(seq![ESCAPE, ']'] + inner + seq![ESCAPE, '\\'] + rest) == stripped(rest),
        stripped(seq![ESCAPE, c] + rest) == stripped(rest),
{
    command_reaches_its_bell(inner, ']', rest);
    command_reaches_its_backslash(inner, ']', rest);
    let bell = seq![ESCAPE, ']'] + inner + seq!['\u{7}'] + rest;
    assert(bell.skip(1).skip(1) =~= inner + seq!['\u{7}'] + rest);
    assert(bell.skip(1).skip(inner.len() as int + 2) =~= rest);
    sequence_fits(bell.skip(1));
    let backslash = seq![ESCAPE, ']'] + inner + seq![ESCAPE, '\\'] + rest;
    assert(backslash.skip(1).skip(1) =~= inner + seq![ESCAPE, '\\'] + rest);
    assert(backslash.skip(1).skip(inner.len() as int + 3) =~= rest);
    sequence_fits(backslash.skip(1));
    let other = seq![ESCAPE, c] + rest;
    assert(other.skip(1).skip(1) =~= rest);
}

/// The eight colours of a terminal, in the order of their codes.
pub open spec fn dark_colours() -> Seq<Color> {
    seq![
        Color::Black,
        Color::Red,
        Color::Green,
        Color::Yellow,
        Color::Blue,
        Color::Magenta,
        Color::Cyan,
        Color::Gray,
    ]
}

/// The eight bright colours of a terminal, in the order of their codes.
pub open spec fn bright_colours() -> Seq<Color> {
    seq![
        Color::DarkGray,
        Color::LightRed,
        Color::LightGreen,
        Color::LightYellow,
        Color::LightBlue,
        Color::LightMagenta,
        Color::LightCyan,
        Color::White,
    ]
}

/// The codes from 30 and from 90 on colour the text, those from 40 and from 100 on what is behind
/// it, and 39 and 49 take the colours back; nothing else of the style changes.
pub proof fn codes_are_colours(style: Style, colour: int)
    requires
        0 <= colour < 8,
    ensures
        after_codes(style, seq![(30 + colour) as u16]) == (Style {
            fg: Some(dark_colours()[colour]),
            ..style
        }),
        after_codes(style, seq![(40 + colour) as u16]) == (Style {
            bg: Some(dark_colours()[colour]),
            ..style
        }),
        after_codes(style, seq![(90 + colour) as u16]) == (Style {
            fg: Some(bright_colours()[colour]),
            ..style
        }),
        after_codes(style, seq![(100 + colour) as u16]) == (Style {
            bg: Some(bright_colours()[colour]),
            ..style
        }),
        after_codes(style, seq![39u16]) == (Style { fg: None, ..style }),
        after_codes(style, seq![49u16]) == (Style { bg: None, ..style }),
{
    reveal_with_fuel(after_codes, 2);
}

/// A code that stands alone acts by itself.
proof fn one_code_acts(style: Style, code: u16)
    requires
        code != 38 && code != 48,
    ensures
        after_codes(style, seq![code]) == after_code(style, code),
{
    let codes = seq![code];
    assert(codes[0] == code);
    let rest = codes.skip(1);
    assert(rest.len() == 0);
    assert(after_codes(after_code(style, code), rest) == after_code(style, code));
}

/// A code from 1 to 9 gives an attribute, and the codes from 21 to 29 take attributes back.
pub proof fn codes_are_attributes(style: Style)
    ensures
        after_codes(style, seq![1u16]).modifiers.bold,
        after_codes(style, seq![2u16]).modifiers.dim,
        after_codes(style, seq![3u16]).modifiers.italic,
        after_codes(style, seq![4u16]).modifiers.underlined,
        after_codes(style, seq![5u16]).modifiers.slow_blink,
        after_codes(style, seq![6u16]).modifiers.rapid_blink,
        after_codes(style, seq![7u16]).modifiers.reversed,
        after_codes(style, seq![8u16]).modifiers.hidden,
        after_codes(style, seq![9u16]).modifiers.crossed_out,
        !after_codes(style, seq![22u16]).modifiers.bold,
        !after_codes(style, seq![22u16]).modifiers.dim,
        !after_codes(style, seq![23u16]).modifiers.italic,
        !after_codes(style, seq![24u16]).modifiers.underlined,
        !after_codes(style, seq![25u16]).modifiers.slow_blink,
        !after_codes(style, seq![25u16]).modifiers.rapid_blink,
        !after_codes(style, seq![27u16]).modifiers.reversed,
        !after_codes(style, seq![28u16]).modifiers.hidden,
        !after_codes(style, seq![29u16]).modifiers.crossed_out,
{
    one_code_acts(style, 1);
    one_code_acts(style, 2);
    one_code_acts(style, 3);
    one_code_acts(style, 4);
    one_code_acts(style, 5);
    one_code_acts(style, 6);
    one_code_acts(style, 7);
    one_code_acts(style, 8);
    one_code_acts(style, 9);
    one_code_acts(style, 22);
    one_code_acts(style, 23);
    one_code_acts(style, 24);
    one_code_acts(style, 25);
    one_code_acts(style, 27);
    one_code_acts(style, 28);
    one_code_acts(style, 29);
}

/// A code below thirty changes no colour, but for zero, which takes all back.
pub proof fn attributes_keep_the_colours(style: Style, code: u16)
    requires
        1 <= code <= 29,
    ensures
        after_codes(style, seq![code]).fg == style.fg,
        after_codes(style, seq![code]).bg == style.bg,
{
    one_code_acts(style, code);
}

/// The codes 38 and 48 take a colour of the table or one of three parts, and what follows goes on.
pub proof fn codes_take_more_colours(
    style: Style,
    n: u16,
    r: u16,
    g: u16,
    b: u16,
    rest: Seq<u16>,
)
    requires
        n < 256 && r < 256 && g < 256 && b < 256,
    ensures
        after_codes(style, seq![38u16, 5, n] + rest) == after_codes(
            Style { fg: Some(Color::Indexed(n as u8)), ..style },
            rest,
        ),
        after_codes(style, seq![48u16, 5, n] + rest) == after_codes(
            Style { bg: Some(Color::Indexed(n as u8)), ..style },
            rest,
        ),
        after_codes(style, seq![38u16, 2, r, g, b] + rest) == after_codes(
            Style { fg: Some(Color::Rgb(r as u8, g as u8, b as u8)), ..style },
            rest,
        ),
        after_codes(style, seq![48u16, 2, r, g, b] + rest) == after_codes(
            Style { bg: Some(Color::Rgb(r as u8, g as u8, b as u8)), ..style },
            rest,
        ),
{
    assert((seq![38u16, 5, n] + rest).skip(1).skip(2) =~= rest);
    assert((seq![48u16, 5, n] + rest).skip(1).skip(2) =~= rest);
    assert((seq![38u16, 2, r, g, b] + rest).skip(1).skip(4) =~= rest);
    assert((seq![48u16, 2, r, g, b] + rest).skip(1).skip(4) =~= rest);
}

// ---------------------------------------------------------------------------------------------
// Areas
// ---------------------------------------------------------------------------------------------

/// The areas of the screen, from its sections: one column or row of border round each, a column
/// for the scrollbar at the right, a row for the heading of the list, and a row for the notes of
/// the log.
pub proof fn areas_lie_in_their_sections(sections: Sections)
    requires
        sections.containers.width >= 3 && sections.containers.height >= 3,
        sections.detail.width >= 3 && sections.detail.height >= 3,
        sections.containers.x + sections.containers.width <= 65535,
        sections.containers.y + sections.containers.height <= 65535,
        sections.detail.x + sections.detail.width <= 65535,
        sections.detail.y + sections.detail.height <= 65535,
    ensures
        ({
            let layout = layout_of(sections);
            let list = sections.containers;
            let detail = sections.detail;
            &&& layout.container_view == (Rect {
                x: (list.x + 1) as u16,
                y: (list.y + 1) as u16,
                width: (list.width - 3) as u16,
                height: (list.height - 2) as u16,
            })
            &&& layout.container_scrollbar == (Rect {
                x: (list.x + list.width - 2) as u16,
                y: (list.y + 2) as u16,
                width: 1,
                height: (list.height - 3) as u16,
            })
            &&& layout.detail_view == (Rect {
                x: (detail.x + 1) as u16,
                y: (detail.y + 1) as u16,
                width: (detail.width - 3) as u16,
                height: (detail.height - 2) as u16,
            })
            &&& layout.detail_scrollbar == (Rect {
                x: (detail.x + detail.width - 2) as u16,
                y: (detail.y + 1) as u16,
                width: 1,
                height: (detail.height - 2) as u16,
            })
            &&& layout.logs_view == (Rect {
                x: (detail.x + 1) as u16,
                y: (detail.y + 1) as u16,
                width: (detail.width - 3) as u16,
                height: (detail.height - 3) as u16,
            })
            &&& layout.logs_scrollbar == (Rect {
                x: (detail.x + detail.width - 2) as u16,
                y: (detail.y + 1) as u16,
                width: 1,
                height: (detail.height - 3) as u16,
            })
        }),
{
}

/// The inside of an area is what its border leaves.
pub proof fn borders_are_one_wide(area: Rect, x: u16, y: u16)
    requires
        area.x + area.width <= 65535,
        area.y + area.height <= 65535,
    ensures
        covers(inside(area), x, y) <==> area.x < x < area.x + area.width - 1 && area.y < y < area.y
            + area.height - 1,
{
}

/// A window moves no further than it has to: up to the selected row where that is above, and down
/// so far that the selected row is its last one where that is below.
pub proof fn windows_move_no_further_than_needed(current: int, selected: int, height: int)
    requires
        height >= 1,
    ensures
        selected < current ==> window_for(current, selected, height) == selected,
        current <= selected < current + height ==> window_for(current, selected, height)
            == current,
        selected >= current + height ==> window_for(current, selected, height) + height - 1
            == selected,
{
}

/// The rows of a thumb are those from its top on, as many as it is long.
pub proof fn thumbs_are_drawn_where_they_are(height: u16, top: u16, length: u16, row: int)
    requires
        0 <= row < height,
        top + length <= 65535,
    ensures
        thumb_rows(height, top, length).len() == height,
        thumb_rows(height, top, length)[row] <==> top <= row < top + length,
{
}

/// A thumb that is held where the mouse took it follows the mouse: it moves as many rows as the
/// mouse does, as long as it stays on its bar.
pub proof fn thumbs_follow_the_mouse(
    metrics: ScrollMetrics,
    top: u16,
    length: u16,
    y: u16,
    moved: int,
)
    requires
        metrics.track.y + metrics.track.height <= 65535,
        length <= metrics.track.height,
        top <= y < top + length <= 65535,
        metrics.track.y <= top + moved,
        top + moved + length <= metrics.track.y + metrics.track.height,
        0 <= y + moved <= 65535,
    ensures
        dragged_top(metrics, length, (y + moved) as u16, grab_of(top, length, y)) == top + moved,
{
}

/// A thumb is as long as its bar where all contents are visible.
pub proof fn thumbs_fill_the_bar_where_all_is_visible(metrics: ScrollMetrics, share: u16)
    requires
        0 < metrics.content_length <= metrics.viewport_length,
    ensures
        thumb_length_of(metrics, share) == metrics.track.height,
{
}

/// What a scrollbar scrolls is scrolled to the position that is asked for, but no further than to
/// its last window; the selection of a list and of a tab stays.
pub proof fn scrollbars_scroll_to_a_position(app: AppModel, position: int)
    requires
        0 <= position,
    ensures
        position + app.list_rows() <= app.visible().len() ==> app.scrolled_to(
            ScrollbarTarget::Containers,
            position,
        ) == (AppModel { container_offset: position, ..app }),
        position + app.list_rows() > app.visible().len() >= app.list_rows() ==> app.scrolled_to(
            ScrollbarTarget::Containers,
            position,
        ) == (AppModel { container_offset: app.visible().len() - app.list_rows(), ..app }),
        position + app.detail_rows() <= app.items().len() ==> app.scrolled_to(
            ScrollbarTarget::Detail,
            position,
        ) == (AppModel { detail_offset: position, ..app }),
        position + app.log_rows() <= app.logs.filtered().len() ==> app.scrolled_to(
            ScrollbarTarget::Logs,
            position,
        ).logs.scroll_top == position && !app.scrolled_to(
            ScrollbarTarget::Logs,
            position,
        ).logs.follow,
{
}

// ---------------------------------------------------------------------------------------------
// Themes
// ---------------------------------------------------------------------------------------------

/// How bright a colour of three parts is.
pub open spec fn brightness(colour: Color) -> int {
    match colour {
        Color::Rgb(r, g, b) => r + g + b,
        _ => 0,
    }
}

/// In every theme text is brighter than what is muted, and that than any panel; a selected row
/// stands out from the panels, and an error is red.
pub proof fn themes_can_be_read(name: ThemeName)
    ensures
        ({
            let theme = colours_of(name);
            &&& brightness(theme.text) > brightness(theme.muted) + 200
            &&& brightness(theme.muted) > brightness(theme.border)
            &&& brightness(theme.border) > brightness(theme.panel_alt)
            &&& brightness(theme.panel_alt) > brightness(theme.panel)
            &&& brightness(theme.panel) > brightness(theme.background)
            &&& brightness(theme.selection) > brightness(theme.selection_alt)
            &&& brightness(theme.selection_alt) > brightness(theme.panel_alt)
            &&& brightness(theme.accent) > brightness(theme.selection)
            &&& theme.error matches Color::Rgb(r, g, b) && r > 2 * g && r > 2 * b
        }),
{
}


// ---------------------------------------------------------------------------------------------
// Wrapped styles
// ---------------------------------------------------------------------------------------------

/// The first character of the next line would have made a line wider than the width.
pub open spec fn is_full(lines: Seq<Seq<(char, Style)>>, line: int, width: nat) -> bool {
    &&& lines[line + 1].len() > 0
    &&& line_columns(lines[line]) + display_columns(seq![lines[line + 1][0].0]) > width
}

/// A line is wrapped no sooner than needed: every line but the last one is full.
pub proof fn wrapped_lines_are_full(cells: Seq<(char, Style)>, width: nat)
    ensures
        forall|i: int|
            0 <= i < wrapped(cells, columns_of(cells), width).0.len() - 1 ==> #[trigger] is_full(
                wrapped(cells, columns_of(cells), width).0,
                i,
                width,
            ),
    decreases cells.len(),
{
    let columns = columns_of(cells);
    let lines = wrapped(cells, columns, width).0;
    if cells.len() > 0 {
        let inner = cells.drop_last();
        let (before, used) = wrapped(inner, columns_of(inner), width);
        wrapped_lines_are_full(inner, width);
        wrapped_lines_fit(inner, width);
        assert(columns.drop_last() =~= columns_of(inner));
        let cell = cells.last();
        assert(columns.last() == display_columns(seq![cell.0]));
        assert forall|i: int| 0 <= i < lines.len() - 1 implies #[trigger] is_full(
            lines,
            i,
            width,
        ) by {
            assert(lines[i] == before[i]);
            if i < before.len() - 1 {
                assert(is_full(before, i, width));
                assert(lines[i + 1][0] == before[i + 1][0]);
            } else {
                assert(lines[i + 1] == seq![cell]);
                assert(before[i] == before.last());
            }
        }
    }
}

/// A number of a colour sequence is read as it is written.
pub proof fn codes_are_numbers(n: u16)
    ensures
        codes_of(decimal(n as nat)) == seq![n],
{
    numbers_read_back(n as nat);
    let text = decimal(n as nat);
    parts_make_up_the_text(text, ';');
    no_separator_no_split(text, ';');
    assert(codes_of(text) =~= seq![n]);
}

/// A text without separators is one part.
proof fn no_separator_no_split(text: Seq<char>, separator: char)
    requires
        forall|i: int| 0 <= i < text.len() ==> #[trigger] text[i] != separator,
    ensures
        split_parts(text, separator) == seq![text],
    decreases text.len(),
{
    if text.len() == 0 {
        assert(text =~= Seq::empty());
    } else {
        no_separator_no_split(text.drop_last(), separator);
        assert(text.drop_last().push(text.last()) =~= text);
        assert(split_parts(text, separator) =~= seq![text]);
    }
}

// ---------------------------------------------------------------------------------------------
// Scrollbars
// ---------------------------------------------------------------------------------------------

/// A scrollbar stands for what it scrolls: how many rows there are, how many are visible, and
/// which is the first visible one.
pub proof fn scrollbars_stand_for_their_lists(app: AppModel)
    requires
        0 <= app.container_offset <= usize::MAX,
        0 <= app.detail_offset <= usize::MAX,
        0 <= app.logs.scroll_top <= usize::MAX,
        app.visible().len() <= usize::MAX,
        app.items().len() <= usize::MAX,
        app.logs.filtered().len() <= usize::MAX,
    ensures
        app.metrics(ScrollbarTarget::Containers).content_length == app.visible().len(),
        app.metrics(ScrollbarTarget::Containers).position == app.container_offset,
        app.metrics(ScrollbarTarget::Containers).track == app.layout().container_scrollbar,
        app.metrics(ScrollbarTarget::Detail).content_length == app.items().len(),
        app.metrics(ScrollbarTarget::Detail).position == app.detail_offset,
        app.metrics(ScrollbarTarget::Detail).track == app.layout().detail_scrollbar,
        app.metrics(ScrollbarTarget::Logs).content_length == app.logs.filtered().len(),
        app.metrics(ScrollbarTarget::Logs).position == app.logs.scroll_top,
        app.metrics(ScrollbarTarget::Logs).track == app.layout().logs_scrollbar,
        app.layout().container_scrollbar.height > 0 ==> app.metrics(
            ScrollbarTarget::Containers,
        ).viewport_length == app.layout().container_scrollbar.height,
        app.layout().detail_view.height > 0 ==> app.metrics(
            ScrollbarTarget::Detail,
        ).viewport_length == app.layout().detail_view.height,
        app.layout().logs_view.height > 0 ==> app.metrics(ScrollbarTarget::Logs).viewport_length
            == app.layout().logs_view.height,
{
}

/// A dragged scrollbar is the one that was taken hold of, held where it was.
pub proof fn dragging_keeps_the_hold(
    app: AppModel,
    target: ScrollbarTarget,
    y: u16,
    top: u16,
    length: u16,
    mouse: MouseEvent,
)
    requires
        !app.confirm_remove && app.input is None,
        top <= y < top + length <= 65535,
        mouse.kind == MouseEventKind::Drag(MouseButton::Left),
    ensures
        app.holding(target, y, top, length).after_mouse(mouse) == (
            app.holding(target, y, top, length),
            seq![
                UiModel::DragScrollbar {
                    target,
                    y: mouse.row,
                    grab_offset: (y - top) as u16,
                },
            ],
        ),
{
}

/// The tabs have their titles.
pub proof fn tabs_have_their_titles()
    ensures
        tab_title(DetailTab::Logs) == "Logs"@,
        tab_title(DetailTab::Overview) == "Overview"@,
        tab_title(DetailTab::Env) == "Env"@,
        tab_title(DetailTab::Ports) == "Ports"@,
        tab_title(DetailTab::Mounts) == "Mounts"@,
        tab_title(DetailTab::Health) == "Health"@,
        tab_index(DetailTab::Logs) == 0,
        tab_index(DetailTab::Overview) == 1,
        tab_index(DetailTab::Env) == 2,
        tab_index(DetailTab::Ports) == 3,
        tab_index(DetailTab::Mounts) == 4,
        tab_index(DetailTab::Health) == 5,
{
}

/// A box in the middle of an area has the same room at both sides, but for one column or row.
pub proof fn boxes_are_centered(percent: u16, height: u16, area: Rect, centered: Rect)
    requires
        call_ensures(centered_rect, (percent, height, area), centered),
        percent <= 100,
        area.width * percent <= 65535,
        height <= area.height,
    ensures
        centered.height == height,
        100 * centered.width <= area.width * percent < 100 * (centered.width + 1),
        0 <= (area.x + area.width) - (centered.x + centered.width) - (centered.x - area.x) <= 1,
        0 <= (area.y + area.height) - (centered.y + centered.height) - (centered.y - area.y) <= 1,
{
    assert(area.width * percent <= area.width * 100) by (nonlinear_arith)
        requires
            percent <= 100,
            area.width >= 0,
    ;
}


/// Each theme has its colours.
pub proof fn themes_have_their_colours(name: ThemeName, colours: Theme)
    requires
        call_ensures(theme, (name,), colours),
    ensures
        name == ThemeName::Graphite ==> {
            &&& colours.background == Color::Rgb(17, 20, 24)
            &&& colours.panel == Color::Rgb(24, 28, 33)
            &&& colours.panel_alt == Color::Rgb(30, 35, 41)
            &&& colours.text == Color::Rgb(230, 236, 241)
            &&& colours.muted == Color::Rgb(132, 144, 156)
            &&& colours.border == Color::Rgb(73, 82, 91)
            &&& colours.accent == Color::Rgb(240, 113, 82)
            &&& colours.selection == Color::Rgb(56, 92, 129)
            &&& colours.selection_alt == Color::Rgb(42, 54, 66)
            &&& colours.error == Color::Rgb(232, 87, 87)
        },
        name == ThemeName::Ember ==> {
            &&& colours.background == Color::Rgb(26, 18, 15)
            &&& colours.panel == Color::Rgb(38, 27, 22)
            &&& colours.panel_alt == Color::Rgb(49, 35, 28)
            &&& colours.text == Color::Rgb(248, 235, 222)
            &&& colours.muted == Color::Rgb(176, 150, 128)
            &&& colours.border == Color::Rgb(121, 85, 62)
            &&& colours.accent == Color::Rgb(239, 145, 70)
            &&& colours.selection == Color::Rgb(123, 74, 39)
            &&& colours.selection_alt == Color::Rgb(82, 52, 36)
            &&& colours.error == Color::Rgb(242, 96, 96)
        },
        name == ThemeName::Ocean ==> {
            &&& colours.background == Color::Rgb(9, 21, 30)
            &&& colours.panel == Color::Rgb(14, 33, 46)
            &&& colours.panel_alt == Color::Rgb(19, 44, 59)
            &&& colours.text == Color::Rgb(224, 241, 245)
            &&& colours.muted == Color::Rgb(121, 155, 168)
            &&& colours.border == Color::Rgb(68, 103, 116)
            &&& colours.accent == Color::Rgb(70, 173, 209)
            &&& colours.selection == Color::Rgb(33, 89, 110)
            &&& colours.selection_alt == Color::Rgb(23, 58, 72)
            &&& colours.error == Color::Rgb(236, 100, 101)
        },
{
}

// ---------------------------------------------------------------------------------------------
// Sections
// ---------------------------------------------------------------------------------------------

/// A screen of fourteen rows or more has three rows for the tabs, two for the status line and one
/// for the foot; the list and the detail pane have the others, the list 44 of a hundred columns,
/// to the nearest column.
pub proof fn sections_have_their_sizes(sections: Sections, viewport: Rect)
    requires
        fills_screen(sections, viewport),
        viewport.x + viewport.width <= 65535,
        viewport.y + viewport.height <= 65535,
    ensures
        viewport.height >= 14 ==> {
            &&& sections.containers.height == viewport.height - 3
            &&& sections.tabs.height == 3
            &&& sections.detail.height == viewport.height - 6
            &&& sections.status.height == 2
            &&& sections.footer.height == 1
        },
        10 <= viewport.height <= 13 ==> sections.containers.height == 10
            && sections.detail.height == 8 && sections.tabs.height == 2,
        viewport.height < 10 ==> sections.containers.height == viewport.height
            && sections.status.height == 0 && sections.footer.height == 0,
        viewport.height <= 8 ==> sections.tabs.height == 0,
        sections.footer.y + sections.footer.height == viewport.y + viewport.height,
        sections.containers.width + sections.tabs.width == viewport.width,
        sections.detail.width == sections.tabs.width,
        -50 <= 100 * sections.containers.width - 44 * viewport.width <= 50,
{
}

/// A thumb stands as many rows below the top of its bar as its position comes to, where there is
/// something to scroll; at the top otherwise.
pub proof fn thumbs_stand_where_their_position_is(metrics: ScrollMetrics, length: u16, rows: u16)
    requires
        metrics.track.y + metrics.track.height <= 65535,
        rows <= metrics.track.height,
    ensures
        metrics.content_length > metrics.viewport_length && length < metrics.track.height
            ==> thumb_top_of(metrics, length, rows) == metrics.track.y + rows,
        metrics.content_length <= metrics.viewport_length ==> thumb_top_of(metrics, length, rows)
            == metrics.track.y,
{
}

/// A thumb stands for the position that its distance comes to, where there is something to scroll
/// and the thumb can move; for the first one otherwise.
pub proof fn thumbs_stand_for_a_position(metrics: ScrollMetrics, length: u16, position: usize)
    ensures
        metrics.content_length > metrics.viewport_length && length < metrics.track.height
            ==> position_of(metrics, length, position) == position,
        metrics.content_length <= metrics.viewport_length ==> position_of(metrics, length, position)
            == 0,
        metrics.content_length >= metrics.viewport_length ==> last_position(metrics)
            + metrics.viewport_length == metrics.content_length,
        metrics.content_length < metrics.viewport_length ==> last_position(metrics) == 0,
{
}

/// The distance of a thumb is how far its top is below that of its bar, as far as it can be.
pub proof fn thumbs_have_a_distance(metrics: ScrollMetrics, top: u16, length: u16)
    requires
        length <= metrics.track.height,
    ensures
        metrics.track.y <= top && top - metrics.track.y <= metrics.track.height - length
            ==> distance_of(metrics, top, length) == top - metrics.track.y,
        top < metrics.track.y ==> distance_of(metrics, top, length) == 0,
        top - metrics.track.y > metrics.track.height - length ==> distance_of(metrics, top, length)
            == metrics.track.height - length,
{
}

/// A terminal is one of screen where its name holds the word.
pub proof fn screen_is_known_by_its_name(term: Option<String>)
    ensures
        names_screen(term) <==> (term is Some && exists|before: Seq<char>, behind: Seq<char>|
            term->0@ == #[trigger] (before + "screen"@ + behind)),
{
    let word = "screen"@;
    if names_screen(term) {
        let text = term->0@;
        let at = choose|at: int| occurs_at(text, word, at);
        let end = at + word.len();
        assert(text =~= text.take(at) + word + text.skip(end));
    }
    if term is Some && exists|before: Seq<char>, behind: Seq<char>|
        term->0@ == #[trigger] (before + word + behind) {
        let (before, behind) = choose|before: Seq<char>, behind: Seq<char>|
            term->0@ == #[trigger] (before + word + behind);
        let at = before.len() as int;
        assert(term->0@.subrange(at, at + word.len()) =~= word);
        assert(occurs_at(term->0@, word, at));
    }
}

/// The clipboard's sequence holds the encoding of the text.
pub proof fn texts_are_encoded(
    text: &str,
    encoded: &str,
    tmux: bool,
    term: Option<String>,
    sequence: String,
)
    ensures
        call_ensures(osc52_sequence, (text, tmux, &term), sequence) ==> sequence@
            == clipboard_sequence(base64_text(text@), tmux, names_screen(term)),
        call_ensures(osc52_frame, (encoded, tmux, &term), sequence) ==> sequence@
            == clipboard_sequence(encoded@, tmux, names_screen(term)),
{
}

} // verus!
